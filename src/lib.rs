//! Simulation core of a stealth encounter loop: floor-plan zones, hiding,
//! the unlock and consumption of computers, and the antagonist's schedule.
//!
//! Lengths are in thousandths of a floor-plan unit and times in milliseconds,
//! so that every rule is exact integer arithmetic.

pub mod clock;
pub mod computers;
pub mod hiding;
pub mod movement;
mod random;
pub mod screamer;
pub mod space;
pub mod ui;
pub mod use_system;

pub use clock::{MAX_TIME, SECOND};
pub use computers::{CodeSystem, ComputerSystem, UnlockedComputers};
pub use hiding::{HidePrompt, HideView, HidingSystem, PlayerHidden};
pub use movement::confine_move;
pub use screamer::{ScreamerCues, ScreamerSystem, TimeToScreamer, MAX_CODE};
pub use space::{
    is_able_to_use_computer, is_close_from_computer, is_in_bound, is_in_hiding_spot, is_in_room,
    Position, COMPUTER_NUMBER, ROOM_OFFSET,
};
pub use ui::{Reading, TextSystem};
pub use use_system::{progress_percent, Afit, UseSystem, UseView};
