use synth::{slider_time, Project, UiEvent, UiState, SLIDER_MAX_SECONDS};

#[test]
fn slider_holds_values_in_range() {
    assert_eq!(slider_time(0), 0);
    assert_eq!(slider_time(30), 30);
    assert_eq!(slider_time(60), 60);
    assert_eq!(slider_time(61), 60);
    assert_eq!(slider_time(usize::MAX), SLIDER_MAX_SECONDS);
}

#[test]
fn slider_setter_keeps_sequence() {
    let mut p = Project::new(1, vec![]);
    p.set_time_from_slider(3600);
    assert_eq!(p.time(), 60);
    p.set_time_from_slider(12);
    assert_eq!(p.time(), 12);
    assert!(p.sequence().is_empty());
}

#[test]
fn play_click_and_return_move_between_states() {
    assert_eq!(UiState::Idle.next(UiEvent::PlayClicked), UiState::Playing);
    assert_eq!(UiState::Playing.next(UiEvent::PlaybackReturned), UiState::Idle);
    assert_eq!(UiState::Playing.next(UiEvent::PlayClicked), UiState::Playing);
    assert_eq!(UiState::Idle.next(UiEvent::PlaybackReturned), UiState::Idle);
}
