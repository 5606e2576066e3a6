//! Case folding and small string helpers shared by the other modules.

use vstd::prelude::*;
use vstd::string::*;

verus! {

/// The lowercase form that `str::to_lowercase` gives for a text.
pub uninterp spec fn lowercase(text: Seq<char>) -> Seq<char>;

/// Calls `str::to_lowercase`. The result is a function of the characters of
/// the argument alone; the contract gives it the name `lowercase` and claims
/// nothing else of it.
#[verifier::external_body]
pub(crate) fn to_lowercase(text: &str) -> (lowered: String)
    ensures
        lowered@ == lowercase(text@),
{
    text.to_lowercase()
}

/// The characters of an optional string.
pub open spec fn opt_text(text: Option<String>) -> Option<Seq<char>> {
    match text {
        Some(inner) => Some(inner@),
        None => None,
    }
}

/// The characters of each string of a list.
pub open spec fn texts(list: Seq<String>) -> Seq<Seq<char>> {
    list.map_values(|s: String| s@)
}

/// Whether `text` ends with `suffix`, character by character.
pub open spec fn ends_with(text: Seq<char>, suffix: Seq<char>) -> bool {
    suffix.len() <= text.len() && text.subrange(text.len() - suffix.len(), text.len() as int)
        == suffix
}

/// `text` without its last `n` characters.
pub open spec fn without_last(text: Seq<char>, n: int) -> Seq<char> {
    text.subrange(0, text.len() - n)
}

/// Tests whether `text` ends with `suffix`. `len` is the number of
/// characters of `text`.
pub(crate) fn has_suffix(text: &str, len: usize, suffix: &str) -> (found: bool)
    requires
        len == text@.len(),
    ensures
        found == ends_with(text@, suffix@),
{
    let suffix_len: usize = suffix.unicode_len();
    if suffix_len > len {
        return false;
    }
    let start: usize = len - suffix_len;
    let mut i: usize = 0;
    while i < suffix_len
        invariant
            len == text@.len(),
            suffix_len == suffix@.len(),
            suffix_len <= len,
            start == len - suffix_len,
            i <= suffix_len,
            forall|k: int| 0 <= k < i ==> text@[start + k] == suffix@[k],
        decreases suffix_len - i,
    {
        if text.get_char(start + i) != suffix.get_char(i) {
            proof {
                let tail = text@.subrange(text@.len() - suffix@.len(), text@.len() as int);
                assert(tail[i as int] == text@[start + i]);
            }
            return false;
        }
        i += 1;
    }
    assert(text@.subrange(text@.len() - suffix@.len(), text@.len() as int) =~= suffix@);
    true
}

/// The first `keep` characters of `text`, followed by `tail`.
pub(crate) fn prefix_with(text: &str, keep: usize, tail: &str) -> (joined: String)
    requires
        keep <= text@.len(),
    ensures
        joined@ == text@.subrange(0, keep as int) + tail@,
{
    let mut joined = text.substring_char(0, keep).to_owned();
    joined.append(tail);
    joined
}

} // verus!
