use dictyy::capture::{
    bubble_url, is_enabled, is_valid_word, place_bubble, set_enabled, BubbleAction, CaptureState,
};

#[test]
fn words_and_phrases_are_valid() {
    assert!(is_valid_word("cat"));
    assert!(is_valid_word("Mother-in-law"));
    assert!(is_valid_word("don't"));
    assert!(is_valid_word("ice cream"));
    assert!(is_valid_word("a"));
}

#[test]
fn empty_and_long_texts_are_invalid() {
    assert!(!is_valid_word(""));
    assert!(is_valid_word(&"a".repeat(50)));
    assert!(!is_valid_word(&"a".repeat(51)));
}

#[test]
fn other_characters_are_invalid() {
    assert!(!is_valid_word("cat1"));
    assert!(!is_valid_word("cat."));
    assert!(!is_valid_word("café"));
    assert!(!is_valid_word("猫"));
    assert!(!is_valid_word("a\tb"));
}

#[test]
fn a_letter_is_needed() {
    assert!(!is_valid_word("-"));
    assert!(!is_valid_word(" ' "));
    assert!(is_valid_word("- a"));
}

#[test]
fn capture_starts_enabled_and_can_be_switched() {
    let mut state = CaptureState::new();
    assert!(is_enabled(&state));
    set_enabled(&mut state, false);
    assert!(!is_enabled(&state));
    set_enabled(&mut state, true);
    assert!(is_enabled(&state));
}

#[test]
fn bubble_is_shown_after_the_selection_was_stable() {
    let mut state = CaptureState::new();
    assert_eq!(state.on_selection(Some(" cat "), 1000), BubbleAction::Keep);
    assert_eq!(state.last_text, Some("cat".to_string()));
    assert_eq!(state.last_change, 1000);
    assert_eq!(state.on_selection(Some("cat"), 1200), BubbleAction::Keep);
    assert_eq!(state.on_selection(Some("cat"), 1499), BubbleAction::Keep);
    assert_eq!(state.on_selection(Some("cat"), 1500), BubbleAction::Show("cat".to_string()));
    assert_eq!(state.bubble_word, Some("cat".to_string()));
    assert_eq!(state.on_selection(Some("cat"), 1700), BubbleAction::Keep);
}

#[test]
fn bubble_is_closed_when_the_selection_changes() {
    let mut state = CaptureState::new();
    state.on_selection(Some("cat"), 0);
    assert_eq!(state.on_selection(Some("cat"), 500), BubbleAction::Show("cat".to_string()));
    assert_eq!(state.on_selection(Some("dog"), 700), BubbleAction::Close);
    assert_eq!(state.bubble_word, None);
    assert_eq!(state.last_text, Some("dog".to_string()));
    assert_eq!(state.last_change, 700);
    assert_eq!(state.on_selection(Some("dog"), 1199), BubbleAction::Keep);
    assert_eq!(state.on_selection(Some("dog"), 1200), BubbleAction::Show("dog".to_string()));
}

#[test]
fn bubble_is_closed_when_the_selection_goes_or_is_no_word() {
    let mut state = CaptureState::new();
    state.on_selection(Some("cat"), 0);
    state.on_selection(Some("cat"), 600);
    assert_eq!(state.on_selection(None, 800), BubbleAction::Close);
    assert_eq!(state.last_text, None);
    assert_eq!(state.on_selection(None, 1000), BubbleAction::Keep);
    state.on_selection(Some("cat"), 1200);
    state.on_selection(Some("cat"), 1800);
    assert_eq!(state.on_selection(Some("c4t"), 2000), BubbleAction::Close);
    assert_eq!(state.on_selection(Some("   "), 2200), BubbleAction::Keep);
}

#[test]
fn nothing_happens_while_the_capture_is_off() {
    let mut state = CaptureState::new();
    set_enabled(&mut state, false);
    assert_eq!(state.on_selection(Some("cat"), 0), BubbleAction::Keep);
    assert_eq!(state.on_selection(Some("cat"), 9000), BubbleAction::Keep);
    assert_eq!(state.last_text, None);
}

#[test]
fn a_clock_that_runs_back_shows_nothing() {
    let mut state = CaptureState::new();
    state.on_selection(Some("cat"), 5000);
    assert_eq!(state.on_selection(Some("cat"), 100), BubbleAction::Keep);
}

#[test]
fn bubble_goes_below_the_text() {
    assert_eq!(place_bubble(Some((200, 300)), 1920, 1080), (200, 310));
    assert_eq!(place_bubble(None, 1920, 1080), (100, 110));
}

#[test]
fn bubble_stays_on_the_screen() {
    assert_eq!(place_bubble(Some((1700, 300)), 1920, 1080), (1590, 310));
    assert_eq!(place_bubble(Some((1600, 300)), 1920, 1080), (1600, 310));
    assert_eq!(place_bubble(Some((1601, 300)), 1920, 1080), (1590, 310));
    assert_eq!(place_bubble(Some((200, 1000)), 1920, 1080), (200, 820));
    assert_eq!(place_bubble(Some((200, 920)), 1920, 1080), (200, 930));
    assert_eq!(place_bubble(Some((200, 921)), 1920, 1080), (200, 741));
    assert_eq!(place_bubble(Some((-50, -50)), 1920, 1080), (10, 10));
    assert_eq!(place_bubble(Some((5, 100)), 200, 100), (10, 10));
    assert_eq!(
        place_bubble(Some((i32::MAX, i32::MAX)), i32::MAX, i32::MAX),
        (i32::MAX - 330, i32::MAX - 180)
    );
    assert_eq!(place_bubble(Some((i32::MIN, i32::MIN)), i32::MIN, i32::MIN), (10, 10));
}

#[test]
fn bubble_url_encodes_the_word() {
    assert_eq!(bubble_url("cat"), "/bubble?word=cat");
    assert_eq!(bubble_url("ice cream"), "/bubble?word=ice%20cream");
    assert_eq!(bubble_url("don't"), "/bubble?word=don%27t");
}
