use dictyy::entry::MdxEntry;
use dictyy::link::{lookup_mdx_table, LinkLookup, LinkStep, LinkedTable, MAX_LINK_DEPTH};

fn plain(word: &str) -> MdxEntry {
    MdxEntry {
        word: word.to_string(),
        content: format!("{{\"w\":\"{}\"}}", word),
        is_link: false,
        link_target: None,
    }
}

fn link(word: &str, target: Option<&str>) -> MdxEntry {
    MdxEntry {
        word: word.to_string(),
        content: String::new(),
        is_link: true,
        link_target: target.map(String::from),
    }
}

fn row_of(table: &[MdxEntry], word: &str) -> Option<MdxEntry> {
    table.iter().find(|e| e.word.to_lowercase() == word.to_lowercase()).cloned()
}

/// Runs a lookup against a table in memory and counts the questions.
fn resolve(table: &[MdxEntry], word: &str, max_depth: u32) -> (Option<MdxEntry>, u32) {
    let mut ask = lookup_mdx_table(LinkedTable::Collins, word, max_depth);
    let mut questions: u32 = 0;
    loop {
        questions += 1;
        assert!(questions <= max_depth + 1, "the lookup went past its bound");
        let row = row_of(table, &ask.word);
        match ask.answer(row) {
            LinkStep::Ask(next) => ask = next,
            LinkStep::Done(found) => return (found, questions),
        }
    }
}

#[test]
fn lookup_starts_at_depth_zero() {
    let ask = lookup_mdx_table(LinkedTable::Etyma, "Cat", 5);
    assert_eq!(
        ask,
        LinkLookup { table: LinkedTable::Etyma, word: "Cat".to_string(), depth: 0, max_depth: 5 }
    );
}

#[test]
fn table_names() {
    assert_eq!(LinkedTable::Collins.table_name(), "collins_words");
    assert_eq!(LinkedTable::Etyma.table_name(), "etyma_words");
    assert_eq!(MAX_LINK_DEPTH, 5);
}

#[test]
fn missing_word_resolves_to_nothing() {
    assert_eq!(resolve(&[plain("cat")], "dog", 5), (None, 1));
}

#[test]
fn plain_row_is_terminal() {
    assert_eq!(resolve(&[plain("cat")], "cat", 5), (Some(plain("cat")), 1));
}

#[test]
fn link_is_followed_to_its_target() {
    let table = [link("cats", Some("cat")), plain("cat")];
    assert_eq!(resolve(&table, "cats", 5), (Some(plain("cat")), 2));
}

#[test]
fn link_without_target_is_terminal() {
    let table = [link("cats", None)];
    assert_eq!(resolve(&table, "cats", 5), (Some(link("cats", None)), 1));
}

#[test]
fn link_to_a_missing_word_resolves_to_nothing() {
    let table = [link("cats", Some("cat"))];
    assert_eq!(resolve(&table, "cats", 5), (None, 2));
}

#[test]
fn cycle_ends_at_the_bound_with_a_row_of_the_cycle() {
    let table = [link("a", Some("b")), link("b", Some("a"))];
    let (found, questions) = resolve(&table, "a", 5);
    assert_eq!(questions, 6);
    assert_eq!(found, Some(link("b", Some("a"))));
}

#[test]
fn self_link_ends_at_the_bound() {
    let table = [link("a", Some("a"))];
    assert_eq!(resolve(&table, "a", 5), (Some(link("a", Some("a"))), 6));
}

#[test]
fn chain_longer_than_the_bound_ends_with_the_row_reached() {
    let table = [
        link("w0", Some("w1")),
        link("w1", Some("w2")),
        link("w2", Some("w3")),
        link("w3", Some("w4")),
        link("w4", Some("w5")),
        link("w5", Some("w6")),
        link("w6", Some("w7")),
        plain("w7"),
    ];
    assert_eq!(resolve(&table, "w0", 5), (Some(link("w5", Some("w6"))), 6));
    assert_eq!(resolve(&table, "w2", 5), (Some(plain("w7")), 6));
}

#[test]
fn bound_zero_follows_nothing() {
    let table = [link("cats", Some("cat")), plain("cat")];
    assert_eq!(resolve(&table, "cats", 0), (Some(link("cats", Some("cat"))), 1));
}

#[test]
fn answer_counts_the_hop_and_keeps_table_and_bound() {
    let ask = lookup_mdx_table(LinkedTable::Etyma, "cats", 3);
    match ask.answer(Some(link("cats", Some("Cat")))) {
        LinkStep::Ask(next) => assert_eq!(
            next,
            LinkLookup {
                table: LinkedTable::Etyma,
                word: "Cat".to_string(),
                depth: 1,
                max_depth: 3
            }
        ),
        other => panic!("the link was not followed: {:?}", other),
    }
}

#[test]
fn answer_at_the_bound_returns_the_link_row() {
    let ask =
        LinkLookup { table: LinkedTable::Collins, word: "a".to_string(), depth: 5, max_depth: 5 };
    assert_eq!(
        ask.answer(Some(link("a", Some("b")))),
        LinkStep::Done(Some(link("a", Some("b"))))
    );
}
