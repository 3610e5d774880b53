//! Rules of a naval-combat simulation server: the ship-class catalogue and
//! its weighted draw, the line protocol spoken with clients, the life cycle
//! of a ship and the life cycle of the boss that haunts the map border.
//!
//! Everything here works on integers, flags and bytes. Positions, speeds and
//! other physical quantities are real-valued and are kept by the caller, which
//! reports to these rules what it measured (a hull ran out of health, a shell
//! landed on target) and carries out what they decide.

pub mod boss;
pub mod clock;
pub mod protocol;
pub mod ship;
pub mod stats;
pub mod text;
pub mod world;
