//! A light suffix-stripping stemmer. It offers candidate base forms of a
//! lowercase word; it does not check them against any dictionary.

use vstd::prelude::*;
use vstd::string::*;
use crate::text::{ends_with, without_last, has_suffix, prefix_with, texts};

verus! {

/// Candidates for a word that ends in `suffix` and is longer than it: the
/// word without its last `cut` characters, followed by `tail`.
pub open spec fn stripped(word: Seq<char>, cut: int, tail: Seq<char>) -> Seq<char> {
    without_last(word, cut) + tail
}

/// What one rule contributes: nothing unless `word` ends with `suffix` and
/// has more characters than `suffix`.
pub open spec fn rule(word: Seq<char>, suffix: Seq<char>, stems: Seq<Seq<char>>) -> Seq<
    Seq<char>,
> {
    if ends_with(word, suffix) && word.len() > suffix.len() {
        stems
    } else {
        Seq::empty()
    }
}

/// The candidate stems of `word`, in the order in which they are offered.
///
/// Each rule that matches contributes its candidates; several rules may
/// match one word, and a candidate may occur more than once.
pub open spec fn word_stems(word: Seq<char>) -> Seq<Seq<char>> {
    rule(word, seq!['i', 'e', 's'], seq![stripped(word, 3, seq!['y'])])
    + rule(word, seq!['e', 's'], seq![without_last(word, 2), without_last(word, 1)])
    + rule(word, seq!['s'], seq![without_last(word, 1)])
    + rule(word, seq!['i', 'e', 'd'], seq![stripped(word, 3, seq!['y'])])
    + rule(word, seq!['e', 'd'], seq![without_last(word, 2), without_last(word, 1)])
    + rule(word, seq!['i', 'n', 'g'], seq![without_last(word, 3), stripped(word, 3, seq!['e'])])
    + rule(word, seq!['e', 'r'], seq![without_last(word, 2), without_last(word, 1)])
    + rule(word, seq!['e', 's', 't'], seq![without_last(word, 3), without_last(word, 2)])
}

/// Appends to `stems` what the rule for `suffix` contributes: one candidate
/// (`cut_a` characters removed, `tail` appended) or, where `second` is set,
/// that one followed by a second, made in the same way of the number and
/// the text that `second` holds.
fn apply_rule(
    stems: &mut Vec<String>,
    word: &str,
    len: usize,
    suffix: &str,
    cut_a: usize,
    tail: &str,
    second: Option<(usize, &str)>,
)
    requires
        len == word@.len(),
        cut_a <= suffix@.len(),
        second matches Some(pair) ==> pair.0 <= suffix@.len(),
    ensures
        texts(final(stems)@) == texts(old(stems)@) + rule(
            word@,
            suffix@,
            match second {
                Some(pair) => seq![
                    stripped(word@, cut_a as int, tail@),
                    stripped(word@, pair.0 as int, pair.1@),
                ],
                None => seq![stripped(word@, cut_a as int, tail@)],
            },
        ),
{
    let ghost before = texts(stems@);
    if has_suffix(word, len, suffix) && len > suffix.unicode_len() {
        let first = prefix_with(word, len - cut_a, tail);
        stems.push(first);
        assert(texts(stems@) =~= before + seq![stripped(word@, cut_a as int, tail@)]);
        match second {
            Some(pair) => {
                let other = prefix_with(word, len - pair.0, pair.1);
                stems.push(other);
                assert(texts(stems@) =~= before + seq![
                    stripped(word@, cut_a as int, tail@),
                    stripped(word@, pair.0 as int, pair.1@),
                ]);
            },
            None => {},
        }
    } else {
        assert(texts(stems@) =~= before + Seq::<Seq<char>>::empty());
    }
}

/// Returns the candidate stems of a lowercase word, in the order of the
/// rules: `-ies`, `-es`, `-s`, `-ied`, `-ed`, `-ing`, `-er`, `-est`.
pub fn get_word_stems(word: &str) -> (stems: Vec<String>)
    ensures
        texts(stems@) == word_stems(word@),
{
    let len: usize = word.unicode_len();
    let mut stems: Vec<String> = Vec::new();
    assert(texts(stems@) =~= Seq::<Seq<char>>::empty());
    proof {
        reveal_strlit("ies");
        reveal_strlit("es");
        reveal_strlit("s");
        reveal_strlit("ied");
        reveal_strlit("ed");
        reveal_strlit("ing");
        reveal_strlit("er");
        reveal_strlit("est");
        reveal_strlit("y");
        reveal_strlit("e");
        reveal_strlit("");
        assert("ies"@ =~= seq!['i', 'e', 's']);
        assert("es"@ =~= seq!['e', 's']);
        assert("s"@ =~= seq!['s']);
        assert("ied"@ =~= seq!['i', 'e', 'd']);
        assert("ed"@ =~= seq!['e', 'd']);
        assert("ing"@ =~= seq!['i', 'n', 'g']);
        assert("er"@ =~= seq!['e', 'r']);
        assert("est"@ =~= seq!['e', 's', 't']);
        assert("y"@ =~= seq!['y']);
        assert("e"@ =~= seq!['e']);
        assert(""@ =~= Seq::<char>::empty());
        assert forall|cut: int| #[trigger] stripped(word@, cut, Seq::<char>::empty()) == without_last(word@, cut) by {
            assert(without_last(word@, cut) + Seq::<char>::empty() =~= without_last(word@, cut));
        }
    }
    apply_rule(&mut stems, word, len, "ies", 3, "y", None);
    apply_rule(&mut stems, word, len, "es", 2, "", Some((1, "")));
    apply_rule(&mut stems, word, len, "s", 1, "", None);
    apply_rule(&mut stems, word, len, "ied", 3, "y", None);
    apply_rule(&mut stems, word, len, "ed", 2, "", Some((1, "")));
    apply_rule(&mut stems, word, len, "ing", 3, "", Some((3, "e")));
    apply_rule(&mut stems, word, len, "er", 2, "", Some((1, "")));
    apply_rule(&mut stems, word, len, "est", 3, "", Some((2, "")));
    stems
}

} // verus!
