//! A dice roller: a tray of dice with a flat modifier, the records its rolls
//! produce, and the bounded history that keeps those records and the detail
//! windows opened on them.
//!
//! The library holds the state and the rules. Drawing the windows, playing
//! the clips and reading the sound directory are left to the caller, which
//! reports what the user did as an [`Intent`] and carries out the [`Action`]
//! it gets back.

pub mod application;
pub mod clock;
pub mod dice;
pub mod feature;
pub mod history;
pub mod quick;
pub mod random;
pub mod roll;
pub mod sheet;
pub mod sound;
pub mod tools;

pub use application::Application;
pub use clock::RollTime;
pub use dice::{DicesState, COUNT_MAX, DICE_NUM};
pub use feature::{Action, DiceFeature, DiceWrapper, Intent, PanelEdit};
pub use history::{RecordLine, RecordManager, RecordWindow, RECORD_MAX_NUM};
pub use quick::{Preset, QuickEvent, QuickRoll};
pub use roll::RollRecord;
pub use sheet::{DetailSheet, DieRow, TableRow};
pub use sound::{AudioEvent, LoadStatus, PlayRequest, SoundFile, SoundPlayer};
pub use tools::vec2str;
