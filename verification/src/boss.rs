//! The boss: a single hostile creature that rises beyond the map border,
//! holds every ship within reach of its guns, fires at one of them each tick,
//! and leaves when it is sunk or has nobody left to hold.

use crate::protocol::{
    lemma_server_round_trip, server_message_of, sunk_fields, sunk_message, ProtocolError,
    ServerKind,
};
use crate::text::{is_word, line_of};
use crate::ship::{shoot, shot, ShipStatus, ShootingState};
use rand::seq::SliceRandom;
use vstd::prelude::*;

verus! {

/// The identifier of the picture that clients draw for the boss.
pub const BOSS_TEXTURE: usize = 8;

/// The name under which the boss is reported: `Kraken`.
pub open spec fn boss_name() -> Seq<u8> {
    seq![75u8, 114u8, 97u8, 107u8, 101u8, 110u8]
}

/// What the boss does at the end of a tick.
#[derive(Clone, Copy, Debug, PartialEq, Eq, Structural)]
pub enum BossTurn {
    /// There is no boss.
    Idle,
    /// The boss fires at the ship with this number.
    Attack(usize),
    /// The boss was sunk and is gone. The wait before the next one grows
    /// with the mass that it had left.
    Sunk,
    /// The boss held no ship this tick and is gone. The wait before the next
    /// one grows with the damage that it had taken.
    Lost,
}

impl BossTurn {
    /// Whether the boss leaves the map with this turn.
    pub open spec fn departs(self) -> bool {
        self == BossTurn::Sunk || self == BossTurn::Lost
    }
}

/// The boss, if there is one, and the ships that it holds this tick. Ships
/// are known by numbers that the caller gives them.
pub struct Encounter {
    pub boss: Option<ShipStatus>,
    pub targets: Vec<usize>,
}

/// The turn of the boss. `picked` is the ship drawn from those that it
/// holds, or nothing where it holds none.
pub open spec fn turn_of(boss: Option<ShipStatus>, picked: Option<usize>) -> BossTurn {
    match boss {
        None => BossTurn::Idle,
        Some(status) => if status.sunk {
            BossTurn::Sunk
        } else {
            match picked {
                Some(ship) => BossTurn::Attack(ship),
                None => BossTurn::Lost,
            }
        },
    }
}

/// The lines that a turn of the boss sends to every client.
pub open spec fn broadcasts_of(turn: BossTurn) -> Seq<Seq<u8>> {
    if turn.departs() {
        seq![line_of(sunk_fields(boss_name()))]
    } else {
        Seq::empty()
    }
}

/// Calls `rand::seq::SliceRandom::choose` on the list, with the generator
/// of the running thread. Believed of it: an empty list gives nothing, and
/// any other list gives one of its items. Which one is up to chance.
#[verifier::external_body]
fn choose_target(targets: &Vec<usize>) -> (picked: Option<usize>)
    ensures
        targets.len() == 0 ==> picked is None,
        targets.len() > 0 ==> picked is Some && targets@.contains(picked->0),
{
    targets.choose(&mut rand::thread_rng()).copied()
}

/// The name of the boss.
pub fn kraken_name() -> (name: Vec<u8>)
    ensures
        name@ == boss_name(),
{
    let name = vec![75u8, 114u8, 97u8, 107u8, 101u8, 110u8];
    assert(name@ =~= boss_name());
    name
}

/// The lines that a turn of the boss sends to every client: one that tells
/// that the boss is gone where it leaves, and none otherwise.
pub fn boss_broadcasts(turn: BossTurn) -> (lines: Vec<Vec<u8>>)
    ensures
        lines.len() == broadcasts_of(turn).len(),
        forall|i: int| 0 <= i < lines.len() ==> lines[i]@ == broadcasts_of(turn)[i],
{
    let mut lines: Vec<Vec<u8>> = Vec::new();
    match turn {
        BossTurn::Sunk | BossTurn::Lost => {
            let name = kraken_name();
            lines.push(sunk_message(name.as_slice()));
        },
        _ => {},
    }
    lines
}

impl Encounter {
    /// No boss and nobody held.
    pub fn new() -> (encounter: Encounter)
        ensures
            encounter.boss is None,
            encounter.targets@ == Seq::<usize>::empty(),
    {
        Encounter { boss: None, targets: Vec::new() }
    }

    pub fn is_present(&self) -> (present: bool)
        ensures
            present == self.boss is Some,
    {
        self.boss.is_some()
    }

    /// A ship that is afloat meets the boss. `within_reach` says whether the
    /// ship is nearer to the boss than the boss's guns reach. Tells whether
    /// the ship is held, and if so lists it among the held.
    pub fn engage(&mut self, ship: usize, within_reach: bool) -> (held: bool)
        ensures
            held == (old(self).boss is Some && within_reach),
            final(self).boss == old(self).boss,
            final(self).targets@ == if held {
                old(self).targets@.push(ship)
            } else {
                old(self).targets@
            },
    {
        if self.boss.is_some() && within_reach {
            self.targets.push(ship);
            true
        } else {
            false
        }
    }

    /// A ship fires at the boss. The three flags are those of `shoot`. With no
    /// boss nothing is fired.
    pub fn fire_on_boss(&mut self, ready: bool, on_target: bool, depleted: bool) -> (state:
        ShootingState)
        ensures
            final(self).targets@ == old(self).targets@,
            match old(self).boss {
                None => state == ShootingState::NotFired && final(self).boss is None,
                Some(status) => final(self).boss == Some(
                    shot(ready, status, on_target, depleted).0,
                ) && state == shot(ready, status, on_target, depleted).1,
            },
    {
        match self.boss {
            None => ShootingState::NotFired,
            Some(status) => {
                let mut status = status;
                let state = shoot(ready, &mut status, on_target, depleted);
                self.boss = Some(status);
                state
            },
        }
    }

    /// Whether a boss may rise this tick: there is none, and the wait since
    /// the last one is over.
    pub fn spawn_allowed(&self, cooldown_elapsed: bool) -> (allowed: bool)
        ensures
            allowed == (self.boss is None && cooldown_elapsed),
    {
        self.boss.is_none() && cooldown_elapsed
    }

    /// A boss rises near a ship beyond the border, if none is there, the
    /// wait is over, the dice say so and the place drawn for it lies beyond
    /// the border too. The new boss holds the ship at once.
    pub fn try_spawn(
        &mut self,
        ship: usize,
        cooldown_elapsed: bool,
        roll: bool,
        beyond_border: bool,
    ) -> (spawned: bool)
        ensures
            spawned == (old(self).boss is None && cooldown_elapsed && roll && beyond_border),
            spawned ==> final(self).boss == Some(ShipStatus::fresh()) && final(self).targets@
                == old(self).targets@.push(ship),
            !spawned ==> final(self).boss == old(self).boss && final(self).targets@ == old(
                self,
            ).targets@,
    {
        if self.boss.is_none() && cooldown_elapsed && roll && beyond_border {
            self.boss = Some(ShipStatus::new());
            self.targets.push(ship);
            true
        } else {
            false
        }
    }

    /// Ends the tick with the ship that was drawn from the held, or with
    /// nothing where none is held. The boss stays only if it attacks, and the
    /// list of the held is empty for the next tick.
    pub fn resolve_with(&mut self, picked: Option<usize>) -> (turn: BossTurn)
        ensures
            turn == turn_of(old(self).boss, picked),
            final(self).boss == if turn.departs() {
                None
            } else {
                old(self).boss
            },
            final(self).targets@ == Seq::<usize>::empty(),
    {
        let turn = match self.boss {
            None => BossTurn::Idle,
            Some(status) => {
                if status.sunk {
                    BossTurn::Sunk
                } else {
                    match picked {
                        Some(ship) => BossTurn::Attack(ship),
                        None => BossTurn::Lost,
                    }
                }
            },
        };
        match turn {
            BossTurn::Sunk | BossTurn::Lost => {
                self.boss = None;
            },
            _ => {},
        }
        self.targets.clear();
        turn
    }

    /// Ends the tick: a sunk boss leaves, a boss that holds ships attacks one
    /// of them, drawn at random, and a boss that holds none leaves.
    pub fn resolve(&mut self) -> (turn: BossTurn)
        ensures
            old(self).boss is None ==> turn == BossTurn::Idle,
            old(self).boss matches Some(status) ==> {
                if status.sunk {
                    turn == BossTurn::Sunk
                } else if old(self).targets.len() == 0 {
                    turn == BossTurn::Lost
                } else {
                    turn matches BossTurn::Attack(ship) && old(self).targets@.contains(ship)
                }
            },
            final(self).boss == if turn.departs() {
                None
            } else {
                old(self).boss
            },
            final(self).targets@ == Seq::<usize>::empty(),
    {
        let picked = match self.boss {
            Some(status) => {
                if status.sunk {
                    None
                } else {
                    choose_target(&self.targets)
                }
            },
            None => None,
        };
        self.resolve_with(picked)
    }
}

/// There is a boss after a turn only if there was one before it: a turn
/// never makes one. The boss is gone after a turn exactly if the turn is one
/// on which it leaves, and such a turn sends one line, which tells that the
/// boss is sunk; every other turn sends none.
pub proof fn lemma_one_notice_per_departure(boss: Option<ShipStatus>, picked: Option<usize>)
    ensures
        turn_of(boss, picked).departs() ==> boss is Some,
        turn_of(boss, picked).departs() ==> broadcasts_of(turn_of(boss, picked)) == seq![
            line_of(sunk_fields(boss_name())),
        ],
        !turn_of(boss, picked).departs() ==> broadcasts_of(turn_of(boss, picked)).len() == 0,
{
}

/// The line that tells that the boss is gone reads back as a line of kind
/// `Sunk` with the boss's name.
pub proof fn lemma_boss_notice_reads_back()
    ensures
        is_word(boss_name()),
        server_message_of(line_of(sunk_fields(boss_name()))) == Ok::<
            (ServerKind, Seq<Seq<u8>>),
            ProtocolError,
        >((ServerKind::Sunk, seq![boss_name()])),
{
    assert(is_word(boss_name()));
    lemma_server_round_trip(ServerKind::Sunk, seq![boss_name()]);
    assert(seq![ServerKind::Sunk.keyword()] + seq![boss_name()] =~= sunk_fields(boss_name()));
}

} // verus!
