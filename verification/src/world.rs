//! The world: the ships of the connected clients, each under its own name,
//! and the boss. Ships are numbered by their place in the list, in the order
//! in which their clients joined.
//!
//! A session carries whatever the caller attaches to it, such as the ship's
//! physical state and the channels to its client. The world keeps it with the
//! ship and never looks inside.

use crate::boss::{BossTurn, Encounter};
use crate::protocol::{
    lemma_server_round_trip, radius_fields, radius_message, server_message_of, sunk_fields,
    sunk_message, ClientMessage, ProtocolError, ServerKind,
};
use crate::ship::{CommandEffect, ShipStatus};
use crate::stats::ShipType;
use crate::text::{copy_bytes, is_word, is_word_text, line_of, same_bytes};
use vstd::prelude::*;

verus! {

/// One client's ship.
pub struct Session<T> {
    pub name: Vec<u8>,
    pub class: ShipType,
    pub ship: ShipStatus,
    /// What the caller attached when the client joined.
    pub cargo: T,
}

/// Every session, and the boss.
pub struct World<T> {
    pub sessions: Vec<Session<T>>,
    pub encounter: Encounter,
}

impl<T> Session<T> {
    /// Applies a message of the session's client to its ship, with the
    /// special actions of the ship's class.
    pub fn command(&mut self, message: &ClientMessage) -> (effect: CommandEffect)
        ensures
            (final(self).ship, effect) == old(self).ship.commanded(
                old(self).class.spec_actions(),
                *message,
            ),
            final(self).name == old(self).name,
            final(self).class == old(self).class,
            final(self).cargo == old(self).cargo,
    {
        let actions = self.class.actions();
        self.ship.apply_command(&actions, message)
    }
}

impl<T> World<T> {
    /// Whether a session goes by this name.
    pub open spec fn has(&self, name: Seq<u8>) -> bool {
        exists|i: int| 0 <= i < self.sessions.len() && self.sessions[i].name@ == name
    }

    /// Every name can stand as a word of a line, no two sessions share a
    /// name, and every ship that the boss holds is the ship of a session.
    pub open spec fn wf(&self) -> bool {
        &&& forall|i: int| 0 <= i < self.sessions.len() ==> is_word(#[trigger] self.sessions[i].name@)
        &&& forall|i: int, j: int|
            0 <= i < j < self.sessions.len() ==> self.sessions[i].name@ != self.sessions[j].name@
        &&& forall|k: int|
            0 <= k < self.encounter.targets.len() ==> (#[trigger] self.encounter.targets[k])
                < self.sessions.len()
    }

    /// A world without ships and without a boss.
    pub fn new() -> (world: World<T>)
        ensures
            world.wf(),
            world.sessions.len() == 0,
            world.encounter.boss is None,
            world.encounter.targets.len() == 0,
    {
        World { sessions: Vec::new(), encounter: Encounter::new() }
    }

    /// Whether no client is left. The server ends then.
    pub fn is_empty(&self) -> (empty: bool)
        ensures
            empty == (self.sessions.len() == 0),
    {
        self.sessions.len() == 0
    }

    /// The number of the ship that goes by this name.
    pub fn find(&self, name: &[u8]) -> (place: Option<usize>)
        ensures
            match place {
                Some(i) => i < self.sessions.len() && self.sessions[i as int].name@ == name@
                    && forall|j: int| 0 <= j < i ==> self.sessions[j].name@ != name@,
                None => !self.has(name@),
            },
    {
        let mut i: usize = 0;
        while i < self.sessions.len()
            invariant
                i <= self.sessions.len(),
                forall|j: int| 0 <= j < i ==> self.sessions[j].name@ != name@,
            decreases self.sessions.len() - i,
        {
            if same_bytes(self.sessions[i].name.as_slice(), name) {
                return Some(i);
            }
            i += 1;
        }
        None
    }

    /// A client joins under a name with a ship of the class drawn for it.
    /// Where the name is taken or cannot stand as a word of a line, the world
    /// stays as it is and the newcomer is turned away, its cargo dropped;
    /// else its ship is the last of the list, afloat and new.
    pub fn join(&mut self, name: &[u8], class: ShipType, cargo: T) -> (admitted: bool)
        requires
            old(self).wf(),
        ensures
            final(self).wf(),
            admitted == (is_word(name@) && !old(self).has(name@)),
            final(self).encounter == old(self).encounter,
            !admitted ==> final(self).sessions == old(self).sessions,
            admitted ==> final(self).sessions.len() == old(self).sessions.len() + 1
                && final(self).sessions@.drop_last() == old(self).sessions@
                && final(self).sessions@.last().name@ == name@
                && final(self).sessions@.last().class == class
                && final(self).sessions@.last().ship == ShipStatus::fresh()
                && final(self).sessions@.last().cargo == cargo,
    {
        if !is_word_text(name) {
            return false;
        }
        match self.find(name) {
            Some(_) => false,
            None => {
                let session = Session {
                    name: copy_bytes(name),
                    class,
                    ship: ShipStatus::new(),
                    cargo,
                };
                self.sessions.push(session);
                assert(self.sessions@.drop_last() =~= old(self).sessions@);
                true
            },
        }
    }

    /// A client is gone. Its ship leaves the list, the ships after it move
    /// up by one, and since ships are numbered anew the boss lets go of all
    /// it held. Gives the line that tells the other clients, or nothing
    /// where no session goes by that name.
    pub fn leave(&mut self, name: &[u8]) -> (notice: Option<Vec<u8>>)
        requires
            old(self).wf(),
        ensures
            final(self).wf(),
            final(self).encounter.boss == old(self).encounter.boss,
            notice is Some == old(self).has(name@),
            notice matches Some(line) ==> {
                &&& line@ == line_of(sunk_fields(name@))
                &&& server_message_of(line@) == Ok::<(ServerKind, Seq<Seq<u8>>), ProtocolError>(
                    (ServerKind::Sunk, seq![name@]),
                )
                &&& !final(self).has(name@)
                &&& final(self).encounter.targets.len() == 0
                &&& exists|i: int|
                    0 <= i < old(self).sessions.len() && old(self).sessions[i].name@ == name@
                        && final(self).sessions@ == old(self).sessions@.remove(i)
            },
            notice is None ==> final(self).sessions == old(self).sessions
                && final(self).encounter == old(self).encounter,
    {
        match self.find(name) {
            Some(i) => {
                proof {
                    assert(is_word(self.sessions[i as int].name@));
                    lemma_server_round_trip(ServerKind::Sunk, seq![name@]);
                    assert(seq![ServerKind::Sunk.keyword()] + seq![name@] =~= sunk_fields(name@));
                }
                let _gone = self.sessions.remove(i);
                self.encounter.targets.clear();
                assert(!self.has(name@)) by {
                    assert forall|j: int| 0 <= j < self.sessions.len() implies (
                    #[trigger] self.sessions[j]).name@ != name@ by {
                        if j < i {
                            assert(self.sessions[j] == old(self).sessions[j]);
                        } else {
                            assert(self.sessions[j] == old(self).sessions[j + 1]);
                        }
                    }
                }
                Some(sunk_message(name))
            },
            None => None,
        }
    }

    /// A ship meets the boss: see `Encounter::engage`. A sunk ship takes no
    /// part and is not held, nor is a number that is no ship's.
    pub fn engage(&mut self, ship: usize, within_reach: bool) -> (held: bool)
        requires
            old(self).wf(),
        ensures
            final(self).wf(),
            held == (ship < old(self).sessions.len() && !old(self).sessions[ship as int].ship.sunk
                && old(self).encounter.boss is Some && within_reach),
            final(self).sessions == old(self).sessions,
            final(self).encounter.boss == old(self).encounter.boss,
            final(self).encounter.targets@ == if held {
                old(self).encounter.targets@.push(ship)
            } else {
                old(self).encounter.targets@
            },
    {
        if ship < self.sessions.len() && !self.sessions[ship].ship.sunk {
            self.encounter.engage(ship, within_reach)
        } else {
            false
        }
    }

    /// A boss rises near a ship: see `Encounter::try_spawn`. None rises near
    /// a number that is no ship's.
    pub fn try_spawn(
        &mut self,
        ship: usize,
        cooldown_elapsed: bool,
        roll: bool,
        beyond_border: bool,
    ) -> (spawned: bool)
        requires
            old(self).wf(),
        ensures
            final(self).wf(),
            spawned == (ship < old(self).sessions.len() && old(self).encounter.boss is None
                && cooldown_elapsed && roll && beyond_border),
            final(self).sessions == old(self).sessions,
            spawned ==> final(self).encounter.boss == Some(ShipStatus::fresh())
                && final(self).encounter.targets@ == old(self).encounter.targets@.push(ship),
            !spawned ==> final(self).encounter.boss == old(self).encounter.boss
                && final(self).encounter.targets@ == old(self).encounter.targets@,
    {
        if ship < self.sessions.len() {
            self.encounter.try_spawn(ship, cooldown_elapsed, roll, beyond_border)
        } else {
            false
        }
    }

    /// Ends the tick for the boss: see `Encounter::resolve`. The ship that it
    /// attacks is one that it held, and so the ship of a session.
    pub fn resolve(&mut self) -> (turn: BossTurn)
        requires
            old(self).wf(),
        ensures
            final(self).wf(),
            final(self).sessions == old(self).sessions,
            old(self).encounter.boss is None ==> turn == BossTurn::Idle,
            old(self).encounter.boss matches Some(status) ==> {
                if status.sunk {
                    turn == BossTurn::Sunk
                } else if old(self).encounter.targets.len() == 0 {
                    turn == BossTurn::Lost
                } else {
                    turn matches BossTurn::Attack(ship) && old(self).encounter.targets@.contains(ship)
                        && ship < final(self).sessions.len()
                }
            },
            final(self).encounter.boss == if turn.departs() {
                None
            } else {
                old(self).encounter.boss
            },
            final(self).encounter.targets@ == Seq::<usize>::empty(),
    {
        self.encounter.resolve()
    }
}

/// The lines to send to a client that connects, before any other: the
/// radius of the border where the map has one, as `radius` writes it.
pub fn greeting(radius: Option<&[u8]>) -> (lines: Vec<Vec<u8>>)
    ensures
        radius matches Some(r) ==> lines.len() == 1 && lines[0]@ == line_of(radius_fields(r@)),
        radius is None ==> lines.len() == 0,
{
    let mut lines: Vec<Vec<u8>> = Vec::new();
    match radius {
        Some(r) => {
            lines.push(radius_message(r));
        },
        None => {},
    }
    lines
}

/// Names stay unique: a name that is taken is not admitted twice, so after
/// any join at most one session goes by a given name.
pub proof fn lemma_names_unique<T>(world: World<T>, i: int, j: int)
    requires
        world.wf(),
        0 <= i < world.sessions.len(),
        0 <= j < world.sessions.len(),
        world.sessions[i].name@ == world.sessions[j].name@,
    ensures
        i == j,
{
}

} // verus!
