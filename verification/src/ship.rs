//! The life cycle of a ship: afloat, sunk, waiting, afloat again; and what a
//! client's messages and a shell do to it.
//!
//! A ship's health is a real number that the caller keeps. Where a rule
//! depends on it, the caller says whether the health has run out.

use crate::protocol::ClientMessage;
use crate::stats::Action;
use vstd::prelude::*;

verus! {

/// The ticks that a sunk ship waits before it is replaced by a new one.
pub const RESPAWN_COOLDOWN: u32 = 120;

/// The flags and the counter of one ship.
#[derive(Clone, Copy, Debug, PartialEq, Eq, Structural)]
pub struct ShipStatus {
    pub sunk: bool,
    pub submerged: bool,
    pub smoke: bool,
    /// The ticks that are left to wait once the ship is sunk.
    pub respawn_cooldown: u32,
}

/// What a tick does to a ship before anything else.
#[derive(Clone, Copy, Debug, PartialEq, Eq, Structural)]
pub enum RespawnStep {
    /// The ship is afloat and takes part in the tick.
    Active,
    /// The ship is sunk and waits on.
    Waiting,
    /// The wait is over: the ship has been replaced by a new one, whose class
    /// and position the caller draws.
    Regenerate,
}

/// What a message leaves for the caller to do.
#[derive(Clone, Copy, Debug, PartialEq, Eq, Structural)]
pub enum CommandEffect {
    /// Set throttle and helm from the message's two numbers.
    SetInputs,
    /// Stop the ship if it is nearly at rest.
    DropAnchor,
    /// The smoke screen was switched; nothing is left to do.
    SmokeToggled,
    /// The ship went under: it vanishes from the others' view, and its speed
    /// changes with its mass.
    Dived,
    /// The ship came up.
    Surfaced,
    /// The ship has no action at that place.
    Ignored,
}

/// How a shot ended.
#[derive(Clone, Copy, Debug, PartialEq, Eq, Structural)]
pub enum ShootingState {
    /// The attacker's guns were still reloading.
    NotFired,
    Miss,
    Hit,
    /// The shell hit, and the target is sunk.
    Sunk,
}

/// Who is told a ship's state.
#[derive(Clone, Copy, Debug, PartialEq, Eq, Structural)]
pub enum Audience {
    /// Only the client that sails the ship.
    Owner,
    Everyone,
}

/// What the ocean beyond the border does to a ship in one tick.
#[derive(Clone, Copy, Debug, PartialEq, Eq, Structural)]
pub enum Exposure {
    /// The ship sank; the rest of its tick is skipped.
    Sunk,
    /// The ship is afloat and is pushed back towards the centre.
    Recentre,
    /// The ship is afloat and is held where it is.
    Hold,
}

impl ShipStatus {
    /// A ship as it joins or comes back.
    pub open spec fn fresh() -> ShipStatus {
        ShipStatus { sunk: false, submerged: false, smoke: false, respawn_cooldown: RESPAWN_COOLDOWN }
    }

    /// The ship after its health was lowered.
    pub open spec fn damaged(self, depleted: bool) -> ShipStatus {
        ShipStatus { sunk: self.sunk || depleted, ..self }
    }

    /// What the next tick does first.
    pub open spec fn respawn_step(self) -> RespawnStep {
        if !self.sunk {
            RespawnStep::Active
        } else if self.respawn_cooldown == 0 {
            RespawnStep::Regenerate
        } else {
            RespawnStep::Waiting
        }
    }

    /// The ship after the respawn step of one tick.
    pub open spec fn ticked(self) -> ShipStatus {
        match self.respawn_step() {
            RespawnStep::Active => self,
            RespawnStep::Waiting => ShipStatus {
                respawn_cooldown: (self.respawn_cooldown - 1) as u32,
                ..self
            },
            RespawnStep::Regenerate => ShipStatus::fresh(),
        }
    }

    /// The ship after the respawn steps of so many ticks, with nothing else
    /// done to it in between.
    pub open spec fn waited(self, ticks: nat) -> ShipStatus
        decreases ticks,
    {
        if ticks == 0 {
            self
        } else {
            self.waited((ticks - 1) as nat).ticked()
        }
    }

    /// The action at a place counted from one, if the list has one there.
    pub open spec fn action_at(actions: Seq<Action>, index: u32) -> Option<Action> {
        if 1 <= index && index <= actions.len() {
            Some(actions[index - 1])
        } else {
            None
        }
    }

    /// The ship after a message, and what is left to do.
    pub open spec fn commanded(self, actions: Seq<Action>, message: ClientMessage) -> (
        ShipStatus,
        CommandEffect,
    ) {
        match message {
            ClientMessage::Sail(_, _) => (self, CommandEffect::SetInputs),
            ClientMessage::Anchor => (self, CommandEffect::DropAnchor),
            ClientMessage::Smoke => (
                ShipStatus { smoke: !self.smoke, ..self },
                CommandEffect::SmokeToggled,
            ),
            ClientMessage::Action(index) => match Self::action_at(actions, index) {
                Some(Action::Submerge) => if self.submerged {
                    (ShipStatus { submerged: false, ..self }, CommandEffect::Surfaced)
                } else {
                    (ShipStatus { submerged: true, ..self }, CommandEffect::Dived)
                },
                None => (self, CommandEffect::Ignored),
            },
        }
    }

    /// Who is told the ship's state: a ship that is under water and afloat is
    /// hidden from all but its owner.
    pub open spec fn spec_audience(self) -> Audience {
        if self.submerged && !self.sunk {
            Audience::Owner
        } else {
            Audience::Everyone
        }
    }

    pub fn new() -> (ship: ShipStatus)
        ensures
            ship == ShipStatus::fresh(),
    {
        ShipStatus { sunk: false, submerged: false, smoke: false, respawn_cooldown: RESPAWN_COOLDOWN }
    }

    /// Records that the ship's health was lowered. `depleted` says whether
    /// the health is now zero or less. Tells whether the ship is sunk.
    pub fn damage(&mut self, depleted: bool) -> (sunk: bool)
        ensures
            *final(self) == old(self).damaged(depleted),
            sunk == (old(self).sunk || depleted),
    {
        if depleted {
            self.sunk = true;
        }
        self.sunk
    }

    /// The respawn step of a tick: a sunk ship counts down, and at zero it is
    /// replaced.
    pub fn tick_respawn(&mut self) -> (step: RespawnStep)
        ensures
            step == old(self).respawn_step(),
            *final(self) == old(self).ticked(),
    {
        if !self.sunk {
            RespawnStep::Active
        } else if self.respawn_cooldown == 0 {
            *self = ShipStatus::new();
            RespawnStep::Regenerate
        } else {
            self.respawn_cooldown = self.respawn_cooldown - 1;
            RespawnStep::Waiting
        }
    }

    /// Applies a client's message. `actions` are the special actions of the
    /// ship's class.
    pub fn apply_command(&mut self, actions: &Vec<Action>, message: &ClientMessage) -> (effect:
        CommandEffect)
        ensures
            (*final(self), effect) == old(self).commanded(actions@, *message),
    {
        match message {
            ClientMessage::Sail(_, _) => CommandEffect::SetInputs,
            ClientMessage::Anchor => CommandEffect::DropAnchor,
            ClientMessage::Smoke => {
                self.smoke = !self.smoke;
                CommandEffect::SmokeToggled
            },
            ClientMessage::Action(index) => {
                let place: usize = *index as usize;
                if 1 <= place && place <= actions.len() {
                    match actions[place - 1] {
                        Action::Submerge => {
                            if self.submerged {
                                self.submerged = false;
                                CommandEffect::Surfaced
                            } else {
                                self.submerged = true;
                                CommandEffect::Dived
                            }
                        },
                    }
                } else {
                    CommandEffect::Ignored
                }
            },
        }
    }

    pub fn audience(&self) -> (audience: Audience)
        ensures
            audience == self.spec_audience(),
    {
        if self.submerged && !self.sunk {
            Audience::Owner
        } else {
            Audience::Everyone
        }
    }

    /// One tick beyond the border of an ocean map. `depleted` says whether
    /// the border's damage used up the ship's health, `immobilised` whether
    /// the boss holds the ship.
    pub fn ocean_exposure(&mut self, depleted: bool, immobilised: bool) -> (exposure: Exposure)
        ensures
            *final(self) == old(self).damaged(depleted),
            exposure == if old(self).sunk || depleted {
                Exposure::Sunk
            } else if immobilised {
                Exposure::Hold
            } else {
                Exposure::Recentre
            },
    {
        if self.damage(depleted) {
            Exposure::Sunk
        } else if immobilised {
            Exposure::Hold
        } else {
            Exposure::Recentre
        }
    }
}

/// How a shot ends. `ready` says whether the attacker's reload time has run
/// out, `on_target` whether the shell lands on the target's hull, `depleted`
/// whether its damage uses up the target's health.
pub open spec fn shot(ready: bool, target: ShipStatus, on_target: bool, depleted: bool) -> (
    ShipStatus,
    ShootingState,
) {
    if !ready {
        (target, ShootingState::NotFired)
    } else if !on_target {
        (target, ShootingState::Miss)
    } else if target.sunk || depleted {
        (target.damaged(depleted), ShootingState::Sunk)
    } else {
        (target, ShootingState::Hit)
    }
}

/// Resolves a shot at `target`. Nothing is fired, and the target is left as
/// it is, while the attacker reloads; a shell that lands damages the target.
pub fn shoot(ready: bool, target: &mut ShipStatus, on_target: bool, depleted: bool) -> (state:
    ShootingState)
    ensures
        (*final(target), state) == shot(ready, *old(target), on_target, depleted),
        !ready ==> state == ShootingState::NotFired && *final(target) == *old(target),
{
    if !ready {
        ShootingState::NotFired
    } else if on_target {
        if target.damage(depleted) {
            ShootingState::Sunk
        } else {
            ShootingState::Hit
        }
    } else {
        ShootingState::Miss
    }
}

/// A sunk ship waits exactly as many ticks as its counter says: through each
/// of them it stays sunk and only the counter falls, and the tick after the
/// counter has reached zero replaces it by a new ship, never an earlier one.
pub proof fn lemma_respawn_after_cooldown(ship: ShipStatus, ticks: nat)
    requires
        ship.sunk,
        ticks <= ship.respawn_cooldown,
    ensures
        ship.waited(ticks) == (ShipStatus {
            respawn_cooldown: (ship.respawn_cooldown - ticks) as u32,
            ..ship
        }),
        ticks < ship.respawn_cooldown ==> ship.waited(ticks).respawn_step() == RespawnStep::Waiting,
        ticks == ship.respawn_cooldown ==> ship.waited(ticks).respawn_step() == RespawnStep::Regenerate
            && ship.waited(ticks + 1) == ShipStatus::fresh(),
    decreases ticks,
{
    if ticks > 0 {
        lemma_respawn_after_cooldown(ship, (ticks - 1) as nat);
    }
    assert(ship.waited(ticks + 1) == ship.waited(ticks).ticked());
}

/// A ship that is afloat is left alone by the respawn step, however many
/// ticks pass.
pub proof fn lemma_afloat_stays(ship: ShipStatus, ticks: nat)
    requires
        !ship.sunk,
    ensures
        ship.waited(ticks) == ship,
    decreases ticks,
{
    if ticks > 0 {
        lemma_afloat_stays(ship, (ticks - 1) as nat);
    }
}

/// Damage sinks a ship exactly if it uses up the health or the ship was sunk
/// before, and a sunk ship stays sunk whatever hits it.
pub proof fn lemma_damage_sinks(ship: ShipStatus, depleted: bool)
    ensures
        ship.damaged(depleted).sunk == (ship.sunk || depleted),
        ship.sunk ==> ship.damaged(depleted) == ship,
{
}

/// While the attacker reloads nothing is fired: the shot is `NotFired`
/// whatever the other flags say, and it is `NotFired` only then. The target
/// changes only under a shell that lands.
pub proof fn lemma_no_shot_while_reloading(
    ready: bool,
    target: ShipStatus,
    on_target: bool,
    depleted: bool,
)
    ensures
        shot(ready, target, on_target, depleted).1 == ShootingState::NotFired <==> !ready,
        !(ready && on_target) ==> shot(ready, target, on_target, depleted).0 == target,
{
}

} // verus!
