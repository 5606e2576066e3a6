use dictyy::extract::{
    brief_from_json, collins_brief_from_json, collins_phonetic_from_json, etyma_brief_from_json,
    extract_brief, extract_collins_abstract, extract_collins_brief, extract_etyma_brief,
};
use dictyy::json::Json;

fn primary_payload(trans: &str) -> String {
    format!("{{\"content\":{{\"word\":{{\"content\":{{\"trans\":{}}}}}}}}}", trans)
}

#[test]
fn primary_brief_joins_pos_and_gloss() {
    let payload = primary_payload("[{\"pos\":\"n\",\"tranCn\":\"猫\"}]");
    assert_eq!(extract_brief(&payload), "n 猫");
}

#[test]
fn primary_brief_joins_two_parts_with_semicolon() {
    let payload =
        primary_payload("[{\"pos\":\"n.\",\"tranCn\":\"猫\"},{\"pos\":\"v.\",\"tranCn\":\"抓\"}]");
    assert_eq!(extract_brief(&payload), "n. 猫; v. 抓");
}

#[test]
fn primary_brief_reads_only_the_first_two_elements() {
    let payload = primary_payload(
        "[{\"pos\":\"a\",\"tranCn\":\"一\"},{\"pos\":\"b\",\"tranCn\":\"二\"},{\"pos\":\"c\",\"tranCn\":\"三\"}]",
    );
    assert_eq!(extract_brief(&payload), "a 一; b 二");
}

#[test]
fn primary_brief_does_not_reach_for_a_third_element() {
    let payload = primary_payload(
        "[{\"pos\":\"a\",\"tranCn\":\"\"},{\"pos\":\"b\",\"tranCn\":\"二\"},{\"pos\":\"c\",\"tranCn\":\"三\"}]",
    );
    assert_eq!(extract_brief(&payload), "b 二");
}

#[test]
fn primary_brief_without_pos_is_the_gloss() {
    let payload = primary_payload("[{\"tranCn\":\"猫\"}]");
    assert_eq!(extract_brief(&payload), "猫");
}

#[test]
fn primary_brief_treats_a_pos_that_is_no_string_as_missing() {
    let payload = primary_payload("[{\"pos\":3,\"tranCn\":\"猫\"}]");
    assert_eq!(extract_brief(&payload), "猫");
}

#[test]
fn primary_brief_is_empty_without_gloss() {
    let payload = primary_payload("[{\"pos\":\"n.\"}]");
    assert_eq!(extract_brief(&payload), "");
}

#[test]
fn primary_brief_is_empty_for_malformed_payload() {
    assert_eq!(extract_brief("{not json"), "");
    assert_eq!(extract_brief(""), "");
}

#[test]
fn primary_brief_is_empty_when_path_is_missing() {
    assert_eq!(extract_brief("{\"content\":{\"word\":{}}}"), "");
    assert_eq!(extract_brief("[1,2,3]"), "");
    assert_eq!(extract_brief("{\"content\":{\"word\":{\"content\":{\"trans\":\"x\"}}}}"), "");
}

#[test]
fn primary_brief_is_empty_for_empty_list() {
    assert_eq!(extract_brief(&primary_payload("[]")), "");
}

#[test]
fn collins_brief_reads_definitions() {
    let payload = "{\"definitions\":[{\"pos\":\"N-COUNT\",\"cn\":\"猫\"},{\"cn\":\"猫科动物\"}]}";
    assert_eq!(extract_collins_brief(payload), "N-COUNT 猫; 猫科动物");
}

#[test]
fn collins_brief_is_empty_for_malformed_payload() {
    assert_eq!(extract_collins_brief("definitions"), "");
    assert_eq!(extract_collins_brief("{\"definitions\":{}}"), "");
}

#[test]
fn collins_abstract_prefers_uk_phonetic() {
    let payload =
        "{\"phonetic_uk\":\"kæt\",\"phonetic_us\":\"kat\",\"definitions\":[{\"pos\":\"n\",\"cn\":\"猫\"}]}";
    assert_eq!(extract_collins_abstract(payload), ("kæt".to_string(), "n 猫".to_string()));
}

#[test]
fn collins_abstract_falls_back_to_us_phonetic() {
    let payload = "{\"phonetic_us\":\"kat\",\"definitions\":[]}";
    assert_eq!(extract_collins_abstract(payload), ("kat".to_string(), String::new()));
}

#[test]
fn collins_abstract_keeps_a_uk_member_that_is_no_string() {
    let payload = "{\"phonetic_uk\":null,\"phonetic_us\":\"kat\"}";
    assert_eq!(extract_collins_abstract(payload), (String::new(), String::new()));
}

#[test]
fn collins_abstract_is_empty_for_malformed_payload() {
    assert_eq!(extract_collins_abstract("{"), (String::new(), String::new()));
}

#[test]
fn etyma_brief_reads_pos_and_meaning() {
    assert_eq!(extract_etyma_brief("{\"pos\":\"pref\",\"meaning\":\"before\"}"), "pref before");
    assert_eq!(extract_etyma_brief("{\"meaning\":\"before\"}"), "before");
    assert_eq!(extract_etyma_brief("{\"pos\":\"pref\"}"), "");
    assert_eq!(extract_etyma_brief("nonsense"), "");
}

#[test]
fn json_parse_builds_the_tree() {
    let parsed = Json::parse("{\"b\":[1,true,null,\"x\"],\"a\":{\"c\":\"d\"}}").unwrap();
    assert_eq!(
        parsed.get("b"),
        Some(&Json::Array(vec![
            Json::Number,
            Json::Bool(true),
            Json::Null,
            Json::Text("x".to_string())
        ]))
    );
    assert_eq!(parsed.get("a").unwrap().get("c").unwrap().as_text(), Some("d"));
    assert_eq!(parsed.get("z"), None);
    assert_eq!(parsed.as_text(), None);
    assert_eq!(parsed.as_array(), None);
}

#[test]
fn json_parse_rejects_what_is_no_json() {
    assert_eq!(Json::parse("{\"a\":"), None);
    assert_eq!(Json::parse("cat"), None);
    assert_eq!(Json::parse("\"cat\""), Some(Json::Text("cat".to_string())));
}

#[test]
fn json_get_takes_the_first_member_of_a_name() {
    let object = Json::Object(vec![
        ("k".to_string(), Json::Bool(true)),
        ("k".to_string(), Json::Bool(false)),
    ]);
    assert_eq!(object.get("k"), Some(&Json::Bool(true)));
    assert_eq!(Json::Array(vec![]).get("k"), None);
}

#[test]
fn briefs_from_trees() {
    let sense = || {
        Json::Object(vec![
            ("pos".to_string(), Json::Text("n".to_string())),
            ("tranCn".to_string(), Json::Text("猫".to_string())),
            ("cn".to_string(), Json::Text("猫咪".to_string())),
            ("meaning".to_string(), Json::Text("cat".to_string())),
        ])
    };
    let primary = Json::Object(vec![(
        "content".to_string(),
        Json::Object(vec![(
            "word".to_string(),
            Json::Object(vec![(
                "content".to_string(),
                Json::Object(vec![("trans".to_string(), Json::Array(vec![sense()]))]),
            )]),
        )]),
    )]);
    assert_eq!(brief_from_json(&primary), "n 猫");
    let collins = Json::Object(vec![
        ("definitions".to_string(), Json::Array(vec![sense(), sense()])),
        ("phonetic_us".to_string(), Json::Text("kat".to_string())),
    ]);
    assert_eq!(collins_brief_from_json(&collins), "n 猫咪; n 猫咪");
    assert_eq!(collins_phonetic_from_json(&collins), "kat");
    assert_eq!(etyma_brief_from_json(&sense()), "n cat");
    assert_eq!(etyma_brief_from_json(&Json::Null), "");
}
