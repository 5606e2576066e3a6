//! The engine against a store in memory: the queries are run as the program
//! runs them, the decisions are the engine's.

use dictyy::dictionary::{
    abstract_from_collins, abstract_from_primary, entry_from_row, entry_with_sources,
    search_words, AbstractStep, DictionaryState, EntryStep,
};
use dictyy::entry::{MdxEntry, WordAbstract, WordEntry, WordSuggestion};
use dictyy::link::{LinkLookup, LinkStep};
use dictyy::search::{SearchStep, WordRow};
use rusqlite::{Connection, OptionalExtension};

struct Store {
    conn: Connection,
    engine: DictionaryState,
    link_queries: std::cell::Cell<u32>,
}

fn primary_content(pos: &str, gloss: &str) -> String {
    format!(
        "{{\"content\":{{\"word\":{{\"content\":{{\"trans\":[{{\"pos\":\"{}\",\"tranCn\":\"{}\"}}]}}}}}}}}",
        pos, gloss
    )
}

fn open_store() -> Store {
    let conn = Connection::open_in_memory().unwrap();
    conn.execute_batch(
        "CREATE TABLE words (id INTEGER PRIMARY KEY, word TEXT, phonetic_us TEXT, phonetic_uk TEXT, content TEXT);
         CREATE TABLE gpt4_words (word TEXT, content TEXT);
         CREATE TABLE word_sources (word_id INTEGER, source TEXT);
         CREATE TABLE collins_words (word TEXT, content TEXT, is_link INTEGER, link_target TEXT);
         CREATE TABLE etyma_words (word TEXT, content TEXT, is_link INTEGER, link_target TEXT);
         CREATE TABLE word_abstracts (word TEXT, phonetic TEXT, main_def TEXT, collins_def TEXT, etyma_def TEXT, gpt4_def TEXT);",
    )
    .unwrap();
    let words = [
        (1, "Cat", Some("kæt"), None, primary_content("n.", "猫")),
        (2, "catalog", None, Some("ˈkætəlɒg"), primary_content("n.", "目录")),
        (3, "apple", None, None, primary_content("n.", "苹果")),
        (4, "ape", None, None, primary_content("n.", "猿")),
        (5, "dog", None, None, primary_content("n.", "狗")),
    ];
    for (id, word, us, uk, content) in words {
        conn.execute(
            "INSERT INTO words (id, word, phonetic_us, phonetic_uk, content) VALUES (?1, ?2, ?3, ?4, ?5)",
            (id, word, us, uk, content),
        )
        .unwrap();
    }
    conn.execute("INSERT INTO gpt4_words VALUES ('cat', 'a small pet')", ()).unwrap();
    conn.execute("INSERT INTO word_sources VALUES (1, 'cet4'), (1, 'oxford'), (3, 'cet4')", ())
        .unwrap();
    let collins = [
        ("cattle", "{\"phonetic_uk\":\"ˈkætl\",\"definitions\":[{\"pos\":\"N\",\"cn\":\"牛\"}]}", 0, None),
        ("cat", "{\"definitions\":[{\"pos\":\"N\",\"cn\":\"猫科\"}]}", 0, None),
        ("kine", "", 1, Some("Cattle")),
        ("a", "", 1, Some("b")),
        ("b", "", 1, Some("a")),
        ("loose", "", 1, None),
        ("catkin", "", 1, Some("cat")),
    ];
    for (word, content, is_link, target) in collins {
        conn.execute("INSERT INTO collins_words VALUES (?1, ?2, ?3, ?4)", (word, content, is_link, target))
            .unwrap();
    }
    conn.execute(
        "INSERT INTO etyma_words VALUES ('cata', '{\"pos\":\"pref\",\"meaning\":\"down\"}', 0, NULL)",
        (),
    )
    .unwrap();
    conn.execute(
        "INSERT INTO word_abstracts VALUES ('Cat', 'kæt', 'n. 猫', NULL, NULL, 'a small pet')",
        (),
    )
    .unwrap();

    let mut engine = DictionaryState::new();
    let rows: Vec<WordAbstract> = conn
        .prepare("SELECT word, phonetic, main_def, collins_def, etyma_def, gpt4_def FROM word_abstracts")
        .unwrap()
        .query_map((), |row| {
            Ok(WordAbstract {
                word: row.get(0)?,
                phonetic: row.get::<_, Option<String>>(1)?.unwrap_or_default(),
                main_def: row.get::<_, Option<String>>(2)?.unwrap_or_default(),
                collins_def: row.get::<_, Option<String>>(3)?.unwrap_or_default(),
                etyma_def: row.get::<_, Option<String>>(4)?.unwrap_or_default(),
                gpt4_def: row.get::<_, Option<String>>(5)?.unwrap_or_default(),
            })
        })
        .unwrap()
        .filter_map(|r| r.ok())
        .collect();
    engine.init(&rows);
    Store { conn, engine, link_queries: std::cell::Cell::new(0) }
}

impl Store {
    fn word_rows(&self, sql: &str, pattern: &str, range: Option<(i64, i64)>) -> Vec<WordRow> {
        let mut stmt = self.conn.prepare(sql).unwrap();
        let map = |row: &rusqlite::Row| Ok(WordRow { word: row.get(0)?, content: row.get(1)? });
        match range {
            Some((min, max)) => {
                stmt.query_map((pattern, min, max), map).unwrap().filter_map(|r| r.ok()).collect()
            }
            None => stmt.query_map((pattern,), map).unwrap().filter_map(|r| r.ok()).collect(),
        }
    }

    fn run_search(&self, first: SearchStep) -> Vec<WordSuggestion> {
        let mut step = first;
        loop {
            step = match step {
                SearchStep::Done(list) => return list,
                SearchStep::AskPrefix(ask) => {
                    let primary = self.word_rows(
                        "SELECT word, content FROM words WHERE LOWER(word) LIKE ?1 ORDER BY LENGTH(word) ASC LIMIT 30",
                        &ask.pattern,
                        None,
                    );
                    let collins = self.word_rows(
                        "SELECT word, content FROM collins_words WHERE LOWER(word) LIKE ?1 AND is_link = 0 ORDER BY LENGTH(word) ASC LIMIT 20",
                        &ask.pattern,
                        None,
                    );
                    let etyma = self.word_rows(
                        "SELECT word, content FROM etyma_words WHERE LOWER(word) LIKE ?1 AND is_link = 0 ORDER BY LENGTH(word) ASC LIMIT 10",
                        &ask.pattern,
                        None,
                    );
                    ask.answer(&primary, &collins, &etyma)
                }
                SearchStep::AskFuzzy(ask) => {
                    let rows = self.word_rows(
                        "SELECT word, content FROM words WHERE LOWER(word) NOT LIKE ?1 AND LENGTH(word) BETWEEN ?2 AND ?3 LIMIT 50",
                        &ask.pattern,
                        Some((ask.min_len as i64, ask.max_len as i64)),
                    );
                    return ask.answer(&rows);
                }
            };
        }
    }

    fn search(&self, query: &str, limit: usize) -> Vec<WordSuggestion> {
        self.run_search(self.engine.search(query, limit))
    }

    fn lookup(&self, word: &str) -> Option<WordEntry> {
        let mut step = self.engine.lookup(word);
        loop {
            step = match step {
                EntryStep::Done(found) => return found,
                EntryStep::AskRow(asked) => entry_from_row(
                    self.conn
                        .query_row(
                            "SELECT w.word, w.phonetic_us, w.phonetic_uk, w.content, g.content as gpt4_content
                             FROM words w LEFT JOIN gpt4_words g ON LOWER(w.word) = LOWER(g.word)
                             WHERE LOWER(w.word) = LOWER(?1)",
                            (asked,),
                            |row| {
                                Ok(WordEntry {
                                    word: row.get(0)?,
                                    phonetic_us: row.get(1)?,
                                    phonetic_uk: row.get(2)?,
                                    content: row.get(3)?,
                                    sources: vec![],
                                    gpt4_content: row.get(4)?,
                                })
                            },
                        )
                        .optional()
                        .unwrap(),
                ),
                EntryStep::AskSources(entry) => {
                    let sources: Vec<String> = self
                        .conn
                        .prepare(
                            "SELECT ws.source FROM word_sources ws JOIN words w ON ws.word_id = w.id
                             WHERE LOWER(w.word) = LOWER(?1) ORDER BY ws.source",
                        )
                        .unwrap()
                        .query_map((word,), |row| row.get(0))
                        .unwrap()
                        .filter_map(|r| r.ok())
                        .collect();
                    return Some(entry_with_sources(entry, sources));
                }
            };
        }
    }

    fn linked_row(&self, ask: &LinkLookup) -> Option<MdxEntry> {
        self.link_queries.set(self.link_queries.get() + 1);
        let sql = format!(
            "SELECT word, content, is_link, link_target FROM {} WHERE LOWER(word) = LOWER(?1)",
            ask.table.table_name()
        );
        self.conn
            .query_row(&sql, (&ask.word,), |row| {
                Ok(MdxEntry {
                    word: row.get(0)?,
                    content: row.get(1)?,
                    is_link: row.get::<_, i32>(2)? != 0,
                    link_target: row.get(3)?,
                })
            })
            .optional()
            .unwrap()
    }

    fn resolve(&self, first: LinkStep) -> Option<MdxEntry> {
        self.link_queries.set(0);
        let mut step = first;
        loop {
            step = match step {
                LinkStep::Done(found) => return found,
                LinkStep::Ask(ask) => {
                    let row = self.linked_row(&ask);
                    ask.answer(row)
                }
            };
        }
    }

    fn lookup_collins(&self, word: &str) -> Option<MdxEntry> {
        self.resolve(self.engine.lookup_collins(word))
    }

    fn lookup_etyma(&self, word: &str) -> Option<MdxEntry> {
        self.resolve(self.engine.lookup_etyma(word))
    }

    fn lookup_abstract(&self, word: &str) -> Option<WordAbstract> {
        let mut step = self.engine.lookup_abstract(word);
        loop {
            step = match step {
                AbstractStep::Done(found) => return found,
                AbstractStep::AskPrimary => abstract_from_primary(word, self.lookup(word)),
                AbstractStep::AskCollins(ask) => {
                    return abstract_from_collins(word, self.resolve(LinkStep::Ask(ask)));
                }
            };
        }
    }
}

fn words(list: &[WordSuggestion]) -> Vec<&str> {
    list.iter().map(|s| s.word.as_str()).collect()
}

#[test]
fn store_lookup_ignores_case() {
    let store = open_store();
    let found = store.lookup("Cat").unwrap();
    assert_eq!(found.word, "Cat");
    assert_eq!(found.phonetic_us, Some("kæt".to_string()));
    assert_eq!(found.gpt4_content, Some("a small pet".to_string()));
    assert_eq!(found.sources, vec!["cet4".to_string(), "oxford".to_string()]);
    for variant in ["cat", "CAT", "cAt"] {
        assert_eq!(store.lookup(variant), Some(found.clone()));
    }
    assert_eq!(store.lookup("cats"), None);
}

#[test]
fn store_lookup_without_supplement_or_sources() {
    let store = open_store();
    let found = store.lookup("DOG").unwrap();
    assert_eq!(found.gpt4_content, None);
    assert!(found.sources.is_empty());
}

#[test]
fn store_search_surfaces_apple_for_aple() {
    let store = open_store();
    let found = store.search("aple", 8);
    assert!(words(&found).contains(&"apple"));
    assert_eq!(
        found.iter().find(|s| s.word == "apple").map(|s| s.brief.as_str()),
        Some("n. 苹果")
    );
    assert!(words(&found).contains(&"ape"));
}

#[test]
fn store_search_merges_the_tables() {
    let store = open_store();
    let found = store.search("cat", 8);
    assert_eq!(words(&found), vec!["Cat", "cata", "cattle", "catalog"]);
    assert_eq!(found[0].brief, "n. 猫");
    assert_eq!(found[1].brief, "pref down");
    assert_eq!(found[2].brief, "N 牛");
    assert_eq!(found[3].brief, "n. 目录");
}

#[test]
fn store_search_fills_up_with_near_words() {
    let store = open_store();
    let found = store.search("dag", 8);
    assert_eq!(words(&found), vec!["dog", "Cat"]);
    assert!(store.search("zzzzzz", 8).is_empty());
}

#[test]
fn store_search_respects_the_limit() {
    let store = open_store();
    assert_eq!(words(&store.search("cat", 2)), vec!["Cat", "cata"]);
    assert!(store.search("cat", 0).is_empty());
}

#[test]
fn store_search_from_the_input_field() {
    let store = open_store();
    assert!(store.run_search(search_words(&store.engine, "c")).is_empty());
    assert_eq!(
        words(&store.run_search(search_words(&store.engine, "ca"))),
        vec!["Cat", "cata", "cattle", "catalog"]
    );
}

#[test]
fn store_link_is_resolved() {
    let store = open_store();
    let found = store.lookup_collins("KINE").unwrap();
    assert_eq!(found.word, "cattle");
    assert!(!found.is_link);
    assert_eq!(store.link_queries.get(), 2);
    assert_eq!(store.lookup_collins("nothing"), None);
    assert_eq!(store.lookup_etyma("Cata").map(|e| e.word), Some("cata".to_string()));
    assert_eq!(store.lookup_etyma("kine"), None);
}

#[test]
fn store_link_cycle_ends_within_the_bound() {
    let store = open_store();
    let found = store.lookup_collins("a").unwrap();
    assert!(found.word == "a" || found.word == "b");
    assert_eq!(found.word, "b");
    assert!(found.is_link);
    assert_eq!(store.link_queries.get(), 6);
}

#[test]
fn store_link_without_target_is_returned() {
    let store = open_store();
    let found = store.lookup_collins("loose").unwrap();
    assert_eq!(
        found,
        MdxEntry {
            word: "loose".to_string(),
            content: String::new(),
            is_link: true,
            link_target: None
        }
    );
    assert_eq!(store.link_queries.get(), 1);
}

#[test]
fn store_abstract_of_cats_comes_from_cat() {
    let store = open_store();
    let found = store.lookup_abstract("cats").unwrap();
    assert_eq!(found.word, "cats");
    assert_eq!(found.main_def, "n. 猫");
    assert_eq!(found.gpt4_def, "a small pet");
}

#[test]
fn store_abstract_falls_back_to_the_primary_table() {
    let store = open_store();
    assert_eq!(
        store.lookup_abstract("Dog"),
        Some(WordAbstract {
            word: "dog".to_string(),
            phonetic: String::new(),
            main_def: "n. 狗".to_string(),
            collins_def: String::new(),
            etyma_def: String::new(),
            gpt4_def: String::new(),
        })
    );
}

#[test]
fn store_abstract_falls_back_to_collins() {
    let store = open_store();
    assert_eq!(
        store.lookup_abstract("Kine"),
        Some(WordAbstract {
            word: "Kine".to_string(),
            phonetic: "ˈkætl".to_string(),
            main_def: String::new(),
            collins_def: "N 牛".to_string(),
            etyma_def: String::new(),
            gpt4_def: String::new(),
        })
    );
    assert_eq!(store.lookup_abstract("loose"), None);
    assert_eq!(store.lookup_abstract("nothing"), None);
}

#[test]
fn store_abstract_is_the_same_when_asked_again() {
    let store = open_store();
    for word in ["cats", "Cat", "dog", "kine", "a", "nothing"] {
        assert_eq!(store.lookup_abstract(word), store.lookup_abstract(word));
    }
}
