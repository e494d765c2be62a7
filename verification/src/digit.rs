//! One decimal position of the display: a vertical strip of glyphs, of which
//! one is shown.

use rand::Rng;
use vstd::prelude::*;

verus! {

/// Glyphs on a strip: the placeholder, then the ten decimal digits.
pub const STRIP_ROWS: usize = 11;

/// The value of a digit that was never selected.
pub const UNSET: i32 = -1;

/// Middle of the range of transition durations, in milliseconds.
pub const BASE_TRANSITION_MS: i32 = 1500;

/// Half the width of the range of transition durations, in milliseconds.
pub const TRANSITION_SPREAD_MS: i32 = 1000;

/// The glyph on row `row` of a strip: `?` on row 0, the digit `row - 1` below it.
pub open spec fn glyph_at(row: int) -> char {
    if row == 0 {
        '?'
    } else {
        (('0' as int) + row - 1) as char
    }
}

/// The whole strip, top to bottom.
pub open spec fn strip() -> Seq<char> {
    Seq::new(STRIP_ROWS as nat, |row: int| glyph_at(row))
}

/// The row that shows `value`, if the strip has one.
pub open spec fn selected_row(value: int) -> Option<usize> {
    if -1 <= value <= 9 {
        Some((value + 1) as usize)
    } else {
        None
    }
}

/// What a digit can be told.
#[derive(Debug)]
pub enum Msg {
    /// Show this value from now on.
    SelectDigit(i32),
}

/// The state of one strip. Any `i32` is accepted as a value; only -1 to 9
/// have a glyph.
pub struct Digit {
    digit: i32,
}

/// What to draw for one strip.
#[derive(Debug)]
pub struct DigitView {
    /// The value that the digit holds.
    pub value: i32,
    /// The glyphs, top to bottom.
    pub glyphs: Vec<char>,
    /// The row to bring into the window, if the value has a glyph.
    pub selected: Option<usize>,
    /// How long the strip takes to move there, in milliseconds.
    pub transition_ms: i32,
}

impl DigitView {
    /// Whether this is a drawing of a digit that holds `value`: the full
    /// strip, the row of `value` selected, and a transition time within the
    /// range.
    pub open spec fn shows(&self, value: i32) -> bool {
        &&& self.value == value
        &&& self.glyphs@ == strip()
        &&& self.selected == selected_row(value as int)
        &&& BASE_TRANSITION_MS - TRANSITION_SPREAD_MS <= self.transition_ms < BASE_TRANSITION_MS
            + TRANSITION_SPREAD_MS
    }
}

/// The glyphs of a strip, top to bottom.
pub fn strip_glyphs() -> (glyphs: Vec<char>)
    ensures
        glyphs@ == strip(),
{
    let glyphs = vec!['?', '0', '1', '2', '3', '4', '5', '6', '7', '8', '9'];
    assert(glyphs@ =~= strip());
    glyphs
}

/// Draws an integer from rand's thread-local generator:
/// `thread_rng().sample(Uniform::from(low..high))`. The range is half-open,
/// so the result is at least `low` and below `high`; nothing else is claimed
/// of it, and two calls may differ. An empty range is left out: rand refuses
/// it.
#[verifier::external_body]
fn sample_uniform(low: i32, high: i32) -> (value: i32)
    requires
        low < high,
    ensures
        low <= value < high,
{
    rand::thread_rng().sample(rand::distributions::Uniform::from(low..high))
}

impl Digit {
    /// The value that the digit holds.
    pub closed spec fn spec_value(&self) -> i32 {
        self.digit
    }

    /// A digit that shows the placeholder.
    pub fn create() -> (digit: Self)
        ensures
            digit.value() == UNSET,
    {
        Self { digit: UNSET }
    }

    /// The value last selected, or -1.
    #[verifier::when_used_as_spec(spec_value)]
    pub fn value(&self) -> (value: i32)
        ensures
            value == self.spec_value(),
    {
        self.digit
    }

    /// Takes the value in `msg`, whatever it is.
    pub fn update(&mut self, msg: Msg)
        ensures
            final(self).value() == match msg {
                Msg::SelectDigit(d) => d,
            },
    {
        match msg {
            Msg::SelectDigit(d) => {
                self.digit = d;
            },
        }
    }

    /// The strip as it is drawn when the transition offset is `time_offset`.
    pub fn view_with(&self, time_offset: i32) -> (view: DigitView)
        requires
            -TRANSITION_SPREAD_MS <= time_offset < TRANSITION_SPREAD_MS,
        ensures
            view.shows(self.value()),
            view.transition_ms == BASE_TRANSITION_MS + time_offset,
    {
        let selected = if -1 <= self.digit && self.digit <= 9 {
            Some((self.digit + 1) as usize)
        } else {
            None
        };
        DigitView {
            value: self.digit,
            glyphs: strip_glyphs(),
            selected,
            transition_ms: BASE_TRANSITION_MS + time_offset,
        }
    }

    /// The strip as it is drawn now. The transition takes between 500 and
    /// 2500 milliseconds, drawn afresh at each call so that neighbouring
    /// strips do not move in step.
    pub fn view(&self) -> (view: DigitView)
        ensures
            view.shows(self.value()),
    {
        self.view_with(sample_uniform(-TRANSITION_SPREAD_MS, TRANSITION_SPREAD_MS))
    }
}

/// The selected row carries the glyph of the value: the placeholder for an
/// unset digit, the matching numeral for 0 to 9.
pub proof fn lemma_selected_glyph(value: int)
    requires
        -1 <= value <= 9,
    ensures
        selected_row(value) is Some,
        0 <= selected_row(value)->0 < STRIP_ROWS,
        value == -1 ==> strip()[selected_row(value)->0 as int] == '?',
        value >= 0 ==> strip()[selected_row(value)->0 as int] == (('0' as int) + value) as char,
{
}

} // verus!
