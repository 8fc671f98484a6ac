use licenses_md::catalog::get_template;
use licenses_md::resolver::{lookup_md, resolve_lowered, unresolved_identifiers};

const YEAR_TOKEN: &str = "`<year>`";
const HOLDERS_TOKEN: &str = "`<copyright holders>`";

const ALL_IDS: [&str; 35] = [
    "0bsd",
    "apache-2.0",
    "apache-v2.0",
    "apache-2.0 with llvm-exception",
    "apache-2.0-llvm",
    "apache-v2.0-llvm",
    "artistic-2.0",
    "artistic-v2.0",
    "bsd-2-clause",
    "bsd-2",
    "bsd-3-clause",
    "bsd-3",
    "epl-1.0",
    "epl-v1.0",
    "agpl-3.0",
    "gnu-agpl-v3.0",
    "fdl-1.3",
    "gnu-fdl-v1.3",
    "gpl-1.0",
    "gnu-gpl-v1.0",
    "gpl-2.0",
    "gnu-gpl-v2.0",
    "gpl-3.0",
    "gnu-gpl-v3.0",
    "lgpl-2.1",
    "gnu-lgpl-v2.1",
    "lgpl-3.0",
    "gnu-lgpl-v3.0",
    "mit",
    "mpl-2.0",
    "mpl-v2.0",
    "unlicense",
    "zlib",
    "isc",
    "bsl-1.0",
];

#[test]
fn every_supported_id_has_a_template() {
    for id in ALL_IDS {
        assert!(get_template(id).is_some(), "no template for {}", id);
    }
    assert!(get_template("unknown-license-xyz").is_none());
    assert!(get_template("MIT").is_none());
}

#[test]
fn supported_id_resolves_to_one_text_with_year() {
    for id in ALL_IDS {
        let texts = resolve_lowered(id, &None, 2024);
        assert_eq!(texts.len(), 1, "{}", id);
        assert!(!texts[0].is_empty(), "{}", id);
        assert!(!texts[0].contains(YEAR_TOKEN), "{}", id);
        assert!(texts[0].contains("2024"), "{}", id);
    }
}

#[test]
fn author_substitution_quotes_the_author() {
    for id in ALL_IDS {
        let texts = resolve_lowered(id, &Some(String::from("Jane Doe")), 2024);
        assert_eq!(texts.len(), 1, "{}", id);
        assert!(!texts[0].contains(HOLDERS_TOKEN), "{}", id);
        assert!(texts[0].contains("\"Jane Doe\""), "{}", id);
    }
}

#[test]
fn author_with_quote_is_escaped() {
    let texts = resolve_lowered("mit", &Some(String::from("A \"B\" C")), 2024);
    assert_eq!(texts.len(), 1);
    assert!(texts[0].contains("\"A \\\"B\\\" C\""));
}

#[test]
fn without_author_the_holders_token_remains() {
    let texts = resolve_lowered("mit", &None, 2024);
    assert!(texts[0].contains(HOLDERS_TOKEN));
}

#[test]
fn or_expression_flattens_into_both_texts() {
    let both = resolve_lowered("mit or apache-2.0", &None, 2024);
    let mit = resolve_lowered("mit", &None, 2024);
    let apache = resolve_lowered("apache-2.0", &None, 2024);
    assert_eq!(both.len(), 2);
    assert_eq!(both[0], mit[0]);
    assert_eq!(both[1], apache[0]);
}

#[test]
fn unknown_identifier_yields_one_empty_text() {
    let texts = resolve_lowered("unknown-license-xyz", &None, 2024);
    assert_eq!(texts, vec![String::new()]);
    let missing = unresolved_identifiers("unknown-license-xyz");
    assert_eq!(missing, vec![String::from("unknown-license-xyz")]);
}

#[test]
fn and_expression_flattens_in_order() {
    let both = resolve_lowered("0bsd and mit", &None, 2024);
    let zero = resolve_lowered("0bsd", &None, 2024);
    let mit = resolve_lowered("mit", &None, 2024);
    assert_eq!(both.len(), 2);
    assert_eq!(both[0], zero[0]);
    assert_eq!(both[1], mit[0]);
}

#[test]
fn mixed_expression_keeps_token_order() {
    let texts = resolve_lowered("mit or 0bsd and zlib", &None, 2024);
    assert_eq!(texts.len(), 3);
    assert_eq!(texts[0], resolve_lowered("mit", &None, 2024)[0]);
    assert_eq!(texts[1], resolve_lowered("0bsd", &None, 2024)[0]);
    assert_eq!(texts[2], resolve_lowered("zlib", &None, 2024)[0]);
}

#[test]
fn known_identifiers_report_no_warning_tokens() {
    assert!(unresolved_identifiers("mit or apache-2.0").is_empty());
    let missing = unresolved_identifiers("mit or no-such-thing and mystery");
    assert_eq!(
        missing,
        vec![String::from("no-such-thing"), String::from("mystery")]
    );
}

#[test]
fn lookup_md_lowercases_and_uses_the_current_year() {
    let year_before = chrono::Datelike::year(&chrono::Utc::now());
    let upper = lookup_md("MIT", &None);
    let lower = lookup_md("mit", &None);
    let year_after = chrono::Datelike::year(&chrono::Utc::now());
    assert_eq!(upper.len(), 1);
    assert!(!upper[0].is_empty());
    assert!(!upper[0].contains(YEAR_TOKEN));
    assert!(
        upper[0].contains(&year_before.to_string()) || upper[0].contains(&year_after.to_string())
    );
    assert_eq!(upper, lower);
}
