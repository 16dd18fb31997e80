//! Core engine for guiding the tuning of an 88-key piano.
//!
//! The crate models the catalog of piano keys, the equal-temperament
//! frequency mathematics (in fixed-point integer arithmetic), the stretch
//! curve that compensates for string inharmonicity, a YIN-style pitch
//! detector, the A4 calibration accumulator, and the note-by-note tuning
//! session state machine. All quantities are integers: frequencies are
//! carried in micro-hertz, pitch deviations in milli-cents, and confidence
//! scores in thousandths, so that every computation is verified exactly.

pub mod app;
pub mod calibration;
pub mod display;
pub mod instructions;
pub mod notes;
pub mod order;
pub mod pitch;
pub mod session;
pub mod snapshot;
pub mod stretch;
pub mod temperament;

pub use app::App;
pub use app::AppState;
pub use app::EventResult;
pub use app::InputKey;
pub use app::SelectedMode;
pub use calibration::Calibrator;
pub use instructions::Instructions;
pub use instructions::TuningStep;
pub use display::CompactProgress;
pub use display::Piano;
pub use display::Progress;
pub use display::Shortcuts;
pub use notes::Note;
pub use notes::note_at;
pub use order::TuningOrder;
pub use pitch::PitchDetector;
pub use pitch::PitchResult;
pub use temperament::Temperament;
pub use session::CompletedNote;
pub use session::Session;
pub use session::SessionSummary;
pub use session::TuningMode;
pub use session::TuningState;
pub use snapshot::decode_session;
pub use snapshot::encode_session;
pub use stretch::StretchCurve;
