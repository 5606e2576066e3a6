//! Decisions of the screen capture: which selected texts count as a word,
//! when the bubble for a selection is shown and closed, and where on the
//! screen it goes. Reading the selection and drawing the bubble is left to
//! the caller.

use vstd::prelude::*;
use vstd::string::*;
use crate::text::opt_text;

verus! {

/// The greatest number of characters of a selection that is looked up.
pub const MAX_WORD_LEN: usize = 50;

/// How long a selection has to stay the same before its bubble is shown,
/// in milliseconds.
pub const STABLE_MS: u64 = 500;

/// The width of the bubble in logical pixels.
pub const BUBBLE_WIDTH: i64 = 320;

/// The height of the bubble in logical pixels.
pub const BUBBLE_HEIGHT: i64 = 150;

/// The least distance that the bubble keeps from the left and the upper
/// edge of the screen.
pub const SCREEN_MARGIN: i64 = 10;

/// An English letter.
pub open spec fn is_letter(c: char) -> bool {
    ('a' <= c && c <= 'z') || ('A' <= c && c <= 'Z')
}

/// A character that may stand in a selected word or phrase: a letter, a
/// hyphen, an apostrophe or a space.
pub open spec fn is_word_char(c: char) -> bool {
    is_letter(c) || c == '-' || c == '\'' || c == ' '
}

/// A selection that is looked up: 1 to 50 characters, all of them word
/// characters, one of them at least a letter.
pub open spec fn valid_word(text: Seq<char>) -> bool {
    &&& 1 <= text.len() <= MAX_WORD_LEN
    &&& forall|i: int| 0 <= i < text.len() ==> is_word_char(#[trigger] text[i])
    &&& exists|i: int| 0 <= i < text.len() && is_letter(#[trigger] text[i])
}

/// Tests `is_letter`.
fn letter(c: char) -> (yes: bool)
    ensures
        yes == is_letter(c),
{
    ('a' <= c && c <= 'z') || ('A' <= c && c <= 'Z')
}

/// Tests whether a selected text is looked up.
pub fn is_valid_word(text: &str) -> (valid: bool)
    ensures
        valid == valid_word(text@),
{
    let len: usize = text.unicode_len();
    if len == 0 || len > MAX_WORD_LEN {
        return false;
    }
    let mut has_letter = false;
    let mut i: usize = 0;
    while i < len
        invariant
            i <= len,
            len == text@.len(),
            forall|k: int| 0 <= k < i ==> is_word_char(#[trigger] text@[k]),
            has_letter <==> exists|k: int| 0 <= k < i && is_letter(#[trigger] text@[k]),
        decreases len - i,
    {
        let c = text.get_char(i);
        if letter(c) {
            has_letter = true;
        } else if !(c == '-' || c == '\'' || c == ' ') {
            return false;
        }
        i += 1;
    }
    has_letter
}

/// The state of the screen capture: whether it is switched on, the
/// selection that is being watched, and the word whose bubble is shown.
#[derive(Debug, Clone, PartialEq, Eq)]
pub struct CaptureState {
    /// Whether selections are watched at all.
    pub enabled: bool,
    /// The selection seen last, if it was a valid word.
    pub last_text: Option<String>,
    /// The time at which `last_text` was first seen, in milliseconds.
    pub last_change: u64,
    /// The word whose bubble is shown.
    pub bubble_word: Option<String>,
}

/// What is to be done with the bubble.
#[derive(Debug, Clone, PartialEq, Eq)]
pub enum BubbleAction {
    /// Nothing.
    Keep,
    /// The bubble is to be closed.
    Close,
    /// The bubble for this word is to be shown.
    Show(String),
}

impl CaptureState {
    /// The state at start: switched on, nothing selected, no bubble.
    pub fn new() -> (state: CaptureState)
        ensures
            state.enabled,
            state.last_text is None,
            state.bubble_word is None,
            state.last_change == 0,
    {
        CaptureState { enabled: true, last_text: None, last_change: 0, bubble_word: None }
    }
}

/// Switches the screen capture on or off.
pub fn set_enabled(state: &mut CaptureState, enabled: bool)
    ensures
        *final(state) == (CaptureState { enabled, ..*old(state) }),
{
    state.enabled = enabled;
}

/// Whether the screen capture is switched on.
pub fn is_enabled(state: &CaptureState) -> (enabled: bool)
    ensures
        enabled == state.enabled,
{
    state.enabled
}

/// The text that `str::trim` leaves of a text.
pub uninterp spec fn trimmed(text: Seq<char>) -> Seq<char>;

/// Calls `str::trim`, which removes the white space at both ends. The
/// contract gives the result the name `trimmed`.
#[verifier::external_body]
fn trim(text: &str) -> (inner: &str)
    ensures
        inner@ == trimmed(text@),
{
    text.trim()
}

/// The text that `urlencoding::encode` makes of a text.
pub uninterp spec fn url_encoded(text: Seq<char>) -> Seq<char>;

/// Calls `urlencoding::encode`, which percent-encodes the bytes of the text
/// but for letters, digits and `-`, `_`, `.`, `~`. The contract gives the
/// result the name `url_encoded`.
#[verifier::external_body]
fn url_encode(text: &str) -> (encoded: String)
    ensures
        encoded@ == url_encoded(text@),
{
    urlencoding::encode(text).into_owned()
}

/// The address of the bubble page for a word.
pub fn bubble_url(word: &str) -> (url: String)
    ensures
        url@ == "/bubble?word="@ + url_encoded(word@),
{
    let mut url = "/bubble?word=".to_owned();
    let encoded = url_encode(word);
    url.append(encoded.as_str());
    url
}

/// A `CaptureState` as the contracts see it.
pub struct CaptureView {
    pub enabled: bool,
    pub last_text: Option<Seq<char>>,
    pub last_change: nat,
    pub bubble_word: Option<Seq<char>>,
}

impl View for CaptureState {
    type V = CaptureView;

    open spec fn view(&self) -> CaptureView {
        CaptureView {
            enabled: self.enabled,
            last_text: opt_text(self.last_text),
            last_change: self.last_change as nat,
            bubble_word: opt_text(self.bubble_word),
        }
    }
}

/// A `BubbleAction` as the contracts see it.
pub enum BubbleActionView {
    Keep,
    Close,
    Show(Seq<char>),
}

impl View for BubbleAction {
    type V = BubbleActionView;

    open spec fn view(&self) -> BubbleActionView {
        match *self {
            BubbleAction::Keep => BubbleActionView::Keep,
            BubbleAction::Close => BubbleActionView::Close,
            BubbleAction::Show(word) => BubbleActionView::Show(word@),
        }
    }
}

/// The word that a selection stands for: the selected text without the
/// white space around it, if that is a valid word.
pub open spec fn selected_word(selection: Option<Seq<char>>) -> Option<Seq<char>> {
    match selection {
        Some(text) => if valid_word(trimmed(text)) {
            Some(trimmed(text))
        } else {
            None
        },
        None => None,
    }
}

/// The time that has passed since `since`, in milliseconds; none where the
/// clock stands before it.
pub open spec fn elapsed(now: nat, since: nat) -> nat {
    if now >= since {
        (now - since) as nat
    } else {
        0
    }
}

/// State and action after a look at the selection at time `now`.
///
/// While the capture is switched off nothing happens. Without a word the
/// watch starts over and a bubble that is shown is closed. A word that
/// differs from the one seen last is watched from `now` on, and the bubble
/// of another word is closed. A word that has stayed for `STABLE_MS` gets
/// its bubble, unless it is shown already.
pub open spec fn after_selection(state: CaptureView, word: Option<Seq<char>>, now: nat) -> (
    CaptureView,
    BubbleActionView,
) {
    if !state.enabled {
        (state, BubbleActionView::Keep)
    } else {
        match word {
            None => (
                CaptureView { last_text: None, bubble_word: None, ..state },
                if state.bubble_word is Some {
                    BubbleActionView::Close
                } else {
                    BubbleActionView::Keep
                },
            ),
            Some(text) => if state.last_text != Some(text) {
                if state.bubble_word is Some && state.bubble_word != Some(text) {
                    (
                        CaptureView {
                            last_text: Some(text),
                            last_change: now,
                            bubble_word: None,
                            ..state
                        },
                        BubbleActionView::Close,
                    )
                } else {
                    (
                        CaptureView { last_text: Some(text), last_change: now, ..state },
                        BubbleActionView::Keep,
                    )
                }
            } else if elapsed(now, state.last_change) >= STABLE_MS && state.bubble_word != Some(
                text,
            ) {
                (CaptureView { bubble_word: Some(text), ..state }, BubbleActionView::Show(text))
            } else {
                (state, BubbleActionView::Keep)
            },
        }
    }
}

/// Whether an optional text is there and equal to `text`.
fn holds(slot: &Option<String>, text: &String) -> (same: bool)
    ensures
        same == (opt_text(*slot) == Some(text@)),
{
    match slot {
        Some(inner) => *inner == *text,
        None => false,
    }
}

impl CaptureState {
    /// Takes a look at the selection: `selection` is the selected text,
    /// `None` where nothing is selected or the selection could not be read,
    /// and `now` the time in milliseconds.
    pub fn on_selection(&mut self, selection: Option<&str>, now: u64) -> (action: BubbleAction)
        ensures
            (final(self)@, action@) == after_selection(
                old(self)@,
                selected_word(
                    match selection {
                        Some(text) => Some(text@),
                        None => None,
                    },
                ),
                now as nat,
            ),
    {
        if !self.enabled {
            return BubbleAction::Keep;
        }
        let word: Option<String> = match selection {
            Some(text) => {
                let inner = trim(text);
                if is_valid_word(inner) {
                    Some(inner.to_owned())
                } else {
                    None
                }
            },
            None => None,
        };
        match word {
            None => {
                let shown = self.bubble_word.is_some();
                self.last_text = None;
                self.bubble_word = None;
                if shown {
                    BubbleAction::Close
                } else {
                    BubbleAction::Keep
                }
            },
            Some(text) => {
                if !holds(&self.last_text, &text) {
                    let close = self.bubble_word.is_some() && !holds(&self.bubble_word, &text);
                    self.last_text = Some(text);
                    self.last_change = now;
                    if close {
                        self.bubble_word = None;
                        BubbleAction::Close
                    } else {
                        BubbleAction::Keep
                    }
                } else {
                    let passed: u64 = if now >= self.last_change {
                        now - self.last_change
                    } else {
                        0
                    };
                    if passed >= STABLE_MS && !holds(&self.bubble_word, &text) {
                        self.bubble_word = Some(text.clone());
                        BubbleAction::Show(text)
                    } else {
                        BubbleAction::Keep
                    }
                }
            },
        }
    }
}

/// Where the bubble goes from left: at the text, moved left where it would
/// leave the screen on the right, and never nearer to the left edge than
/// the margin.
pub open spec fn bubble_x(text_x: int, screen_width: int) -> int {
    let x = if text_x + BUBBLE_WIDTH > screen_width {
        screen_width - BUBBLE_WIDTH - 10
    } else {
        text_x
    };
    if x < SCREEN_MARGIN {
        SCREEN_MARGIN as int
    } else {
        x
    }
}

/// Where the bubble goes from above: 10 below the text, above the text
/// where it would leave the screen at the bottom, and never nearer to the
/// upper edge than the margin.
pub open spec fn bubble_y(text_y: int, screen_height: int) -> int {
    let y = if text_y + 10 + BUBBLE_HEIGHT > screen_height {
        text_y - BUBBLE_HEIGHT - 30
    } else {
        text_y + 10
    };
    if y < SCREEN_MARGIN {
        SCREEN_MARGIN as int
    } else {
        y
    }
}

/// The position of the bubble for a text at `anchor`, the left and the
/// lower edge of the selection in logical pixels; without an anchor the
/// bubble is placed as for a text at (100, 100).
pub fn place_bubble(anchor: Option<(i32, i32)>, screen_width: i32, screen_height: i32) -> (at: (
    i32,
    i32,
))
    ensures
        at.0 == bubble_x(
            match anchor {
                Some(point) => point.0 as int,
                None => 100,
            },
            screen_width as int,
        ),
        at.1 == bubble_y(
            match anchor {
                Some(point) => point.1 as int,
                None => 100,
            },
            screen_height as int,
        ),
{
    let (text_x, text_y): (i64, i64) = match anchor {
        Some(point) => (point.0 as i64, point.1 as i64),
        None => (100, 100),
    };
    let width: i64 = screen_width as i64;
    let height: i64 = screen_height as i64;
    let mut x: i64 = text_x;
    let mut y: i64 = text_y + 10;
    if x + BUBBLE_WIDTH > width {
        x = width - BUBBLE_WIDTH - 10;
    }
    if x < SCREEN_MARGIN {
        x = SCREEN_MARGIN;
    }
    if y + BUBBLE_HEIGHT > height {
        y = text_y - BUBBLE_HEIGHT - 30;
    }
    if y < SCREEN_MARGIN {
        y = SCREEN_MARGIN;
    }
    (x as i32, y as i32)
}

} // verus!
