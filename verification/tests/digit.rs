use price_ticker::digit::{strip_glyphs, Digit, Msg, STRIP_ROWS, UNSET};

#[test]
fn new_digit_is_unset() {
    let digit = Digit::create();
    assert_eq!(digit.value(), -1);
    assert_eq!(digit.value(), UNSET);
}

#[test]
fn select_replaces_the_value() {
    let mut digit = Digit::create();
    digit.update(Msg::SelectDigit(7));
    assert_eq!(digit.value(), 7);
    digit.update(Msg::SelectDigit(0));
    assert_eq!(digit.value(), 0);
}

#[test]
fn select_accepts_values_without_a_glyph() {
    let mut digit = Digit::create();
    digit.update(Msg::SelectDigit(42));
    assert_eq!(digit.value(), 42);
    assert_eq!(digit.view().selected, None);
    digit.update(Msg::SelectDigit(-2));
    assert_eq!(digit.value(), -2);
    assert_eq!(digit.view().selected, None);
    digit.update(Msg::SelectDigit(i32::MAX));
    assert_eq!(digit.view_with(0).selected, None);
    digit.update(Msg::SelectDigit(10));
    assert_eq!(digit.view_with(0).selected, None);
}

#[test]
fn strip_has_placeholder_and_ten_numerals() {
    let glyphs = strip_glyphs();
    assert_eq!(glyphs.len(), STRIP_ROWS);
    assert_eq!(
        glyphs,
        vec!['?', '0', '1', '2', '3', '4', '5', '6', '7', '8', '9']
    );
}

#[test]
fn selected_row_shows_the_value() {
    let mut digit = Digit::create();
    let view = digit.view_with(0);
    assert_eq!(view.selected, Some(0));
    assert_eq!(view.glyphs[0], '?');
    for value in 0..10 {
        digit.update(Msg::SelectDigit(value));
        let view = digit.view_with(0);
        let row = view.selected.unwrap();
        assert_eq!(row, value as usize + 1);
        assert_eq!(view.glyphs[row].to_digit(10), Some(value as u32));
    }
}

#[test]
fn transition_time_follows_the_offset() {
    let digit = Digit::create();
    assert_eq!(digit.view_with(0).transition_ms, 1500);
    assert_eq!(digit.view_with(-1000).transition_ms, 500);
    assert_eq!(digit.view_with(999).transition_ms, 2499);
    assert_eq!(digit.view_with(-250).transition_ms, 1250);
}

#[test]
fn drawn_transition_time_stays_in_range() {
    let mut digit = Digit::create();
    digit.update(Msg::SelectDigit(3));
    for _ in 0..2000 {
        let view = digit.view();
        assert!(500 <= view.transition_ms && view.transition_ms < 2500);
        assert_eq!(view.value, 3);
        assert_eq!(view.selected, Some(4));
        assert_eq!(view.glyphs.len(), 11);
    }
}

#[test]
fn drawn_transition_times_differ() {
    let digit = Digit::create();
    let first = digit.view().transition_ms;
    let mut differs = false;
    for _ in 0..200 {
        if digit.view().transition_ms != first {
            differs = true;
        }
    }
    assert!(differs);
}
