use licenses_md::document::{
    block_for_fetched, block_for_license, license, plan_for, raw_license_url, render_html,
    DependencyInfo, Plan,
};
use licenses_md::resolver::lookup_md;
use licenses_md::text::join_strs;

fn dep(
    name: &str,
    version: &str,
    license: Option<&str>,
    license_file: Option<&str>,
    authors: Option<&str>,
    repository: Option<&str>,
) -> DependencyInfo {
    DependencyInfo {
        name: String::from(name),
        version: String::from(version),
        license: license.map(String::from),
        license_file: license_file.map(String::from),
        authors: authors.map(String::from),
        repository: repository.map(String::from),
    }
}

#[test]
fn heading_without_repository() {
    let block = license("serde", "1.0.0", "TEXT", None, None);
    assert_eq!(
        block,
        vec![
            String::from("# serde (1.0.0)"),
            String::from("\n\n"),
            String::from("TEXT")
        ]
    );
}

#[test]
fn heading_with_repository_and_author() {
    let block = license(
        "serde",
        "1.0.0",
        "TEXT",
        Some(String::from("Jane Doe")),
        Some(String::from("https://github.com/serde-rs/serde")),
    );
    assert_eq!(
        block[0],
        "# [serde](https://github.com/serde-rs/serde) (1.0.0) by Jane Doe"
    );
    assert_eq!(block[1], "\n\n");
    assert_eq!(block[2], "TEXT");
}

#[test]
fn plan_resolves_declared_license() {
    let d = dep("a", "0.1.0", Some("mit"), None, None, None);
    assert!(matches!(plan_for(&d), Plan::Resolve));
}

#[test]
fn plan_skips_when_nothing_is_declared() {
    let d = dep("a", "0.1.0", None, None, None, None);
    assert!(matches!(plan_for(&d), Plan::SkipNoLicense));
}

#[test]
fn plan_skips_license_file_without_repository() {
    let d = dep("a", "0.1.0", None, Some("LICENSE"), None, None);
    assert!(matches!(plan_for(&d), Plan::SkipNoRepository));
}

#[test]
fn plan_skips_unparsable_repository() {
    let d = dep("a", "0.1.0", None, Some("LICENSE"), None, Some(""));
    assert!(matches!(plan_for(&d), Plan::SkipInvalidUri));
}

#[test]
fn plan_builds_fetch_url_from_first_path_segment() {
    let d = dep(
        "a",
        "0.1.0",
        None,
        Some("LICENSE"),
        None,
        Some("https://github.com/owner/project"),
    );
    match plan_for(&d) {
        Plan::Fetch(url) => {
            // The path of an absolute URL starts with a slash, so its first
            // slash-separated segment is empty; the URL keeps that shape.
            assert_eq!(url, "https://raw.githubusercontent.com///main/LICENSE");
        }
        other => panic!("expected a fetch plan, got {:?}", plan_kind(&other)),
    }
}

fn plan_kind(p: &Plan) -> &'static str {
    match p {
        Plan::Resolve => "Resolve",
        Plan::Fetch(_) => "Fetch",
        Plan::SkipNoLicense => "SkipNoLicense",
        Plan::SkipNoRepository => "SkipNoRepository",
        Plan::SkipInvalidUri => "SkipInvalidUri",
    }
}

#[test]
fn raw_url_uses_the_first_segment_twice() {
    assert_eq!(
        raw_license_url("owner/project", "COPYING"),
        "https://raw.githubusercontent.com/owner/owner/main/COPYING"
    );
}

#[test]
fn fetched_block_uses_the_fetched_text() {
    let d = dep(
        "a",
        "2.0.0",
        None,
        Some("LICENSE"),
        None,
        Some("https://github.com/owner/project"),
    );
    let block = block_for_fetched(&d, "FETCHED TEXT");
    assert_eq!(
        block[0],
        "# [a](https://github.com/owner/project) (2.0.0)"
    );
    assert_eq!(block[2], "FETCHED TEXT");
}

#[test]
fn end_to_end_two_dependencies_one_block() {
    let with_license = dep(
        "depname",
        "1.0.0",
        Some("mit"),
        None,
        Some("Jane Doe"),
        None,
    );
    let without_license = dep("nolicense", "0.2.0", None, None, None, None);

    let mut parts: Vec<String> = Vec::new();
    for d in [&with_license, &without_license] {
        match plan_for(d) {
            Plan::Resolve => {
                let mut block = block_for_license(d);
                parts.append(&mut block);
            }
            Plan::SkipNoLicense => {}
            _ => panic!("unexpected plan"),
        }
    }

    assert_eq!(parts.len(), 3);
    assert_eq!(parts[0], "# depname (1.0.0) by Jane Doe");
    let expected_body = join_strs(&lookup_md("mit", &Some(String::from("Jane Doe"))), "\n\n");
    assert_eq!(parts[2], expected_body);
    let whole = parts.concat();
    assert!(!whole.contains("nolicense"));
    assert!(whole.contains("\"Jane Doe\""));
}

#[test]
fn rendering_produces_html_headings() {
    let parts = vec![String::from("# Title"), String::from("\n\n"), String::from("body")];
    let html = render_html(&parts);
    assert!(html.contains("<h1>"));
    assert!(html.contains("Title"));
    assert!(html.contains("body"));
}
