use vstd::prelude::*;

verus! {

/// The largest duration, in whole seconds, that the duration slider offers.
pub const SLIDER_MAX_SECONDS: usize = 60;

/// The value the duration slider holds after being dragged to `requested`:
/// the slider covers `0..=SLIDER_MAX_SECONDS` and pins anything beyond it.
pub open spec fn slider_value(requested: int) -> int {
    if requested > SLIDER_MAX_SECONDS as int {
        SLIDER_MAX_SECONDS as int
    } else {
        requested
    }
}

/// Whatever it is dragged to, the duration slider holds a value in
/// `0..=SLIDER_MAX_SECONDS`.
pub proof fn lemma_slider_stays_in_range(requested: int)
    requires
        requested >= 0,
    ensures
        0 <= slider_value(requested) <= SLIDER_MAX_SECONDS,
{
}

/// Pins a duration requested through the slider to the slider's range.
pub fn slider_time(requested: usize) -> (r: usize)
    ensures
        r as int == slider_value(requested as int),
        r <= SLIDER_MAX_SECONDS,
{
    if requested > SLIDER_MAX_SECONDS {
        SLIDER_MAX_SECONDS
    } else {
        requested
    }
}

/// Where the window stands: waiting for a click, or blocked in playback.
#[derive(Clone, Copy, Debug, PartialEq, Eq, Structural)]
pub enum UiState {
    Idle,
    Playing,
}

/// What moves the window from one state to the other.
#[derive(Clone, Copy, Debug, PartialEq, Eq, Structural)]
pub enum UiEvent {
    /// The Play button was clicked.
    PlayClicked,
    /// Playback returned, with success or an error.
    PlaybackReturned,
}

pub open spec fn next_state(s: UiState, e: UiEvent) -> UiState {
    match (s, e) {
        (UiState::Idle, UiEvent::PlayClicked) => UiState::Playing,
        (UiState::Playing, UiEvent::PlaybackReturned) => UiState::Idle,
        _ => s,
    }
}

impl UiState {
    /// The state after `event`: a click starts playback only when idle, and
    /// the end of playback brings the window back to idle.
    pub fn next(self, event: UiEvent) -> (r: UiState)
        ensures
            r == next_state(self, event),
    {
        match (self, event) {
            (UiState::Idle, UiEvent::PlayClicked) => UiState::Playing,
            (UiState::Playing, UiEvent::PlaybackReturned) => UiState::Idle,
            _ => self,
        }
    }
}

} // verus!
