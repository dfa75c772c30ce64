//! A small synthesizer's core: the project model and its JSON schema, the
//! sample counts of rendering, the real-time callback that feeds the output
//! device, and the window's duration control.
pub mod json;
pub mod playback;
pub mod project;
pub mod synth;
pub mod ui;

pub use json::Json;
pub use playback::{write_data, CompletionSignal, SampleSource};
pub use project::{LoadError, Parameters, Project, Waveform};
pub use ui::{slider_time, UiEvent, UiState, SLIDER_MAX_SECONDS};
