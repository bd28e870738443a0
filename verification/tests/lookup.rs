use cef_test_core::instructions::TabSelector;
use cef_test_core::tab_lookup::{Lookup, Place, Search, TargetInfo};
use cef_test_core::cef::WebContent;

fn record(id: &str, title: &str, url: &str) -> WebContent {
    WebContent::new(
        "".to_string(),
        "/devtools".to_string(),
        id.to_string(),
        title.to_string(),
        url.to_string(),
        format!("ws://localhost:8080/devtools/page/{}", id),
    )
}

fn directory() -> Vec<WebContent> {
    vec![
        record("A1", "Library", "https://store.example/library"),
        record("B2", "Store", "https://store.example/"),
        record("C3", "Store front", "about:blank"),
    ]
}

fn target(id: &str, title: &str, url: &str) -> TargetInfo {
    TargetInfo {
        target_id: id.to_string(),
        title: title.to_string(),
        url: url.to_string(),
        opener_id: None,
        browser_context_id: None,
    }
}

#[test]
fn record_getters() {
    let r = record("A1", "Library", "https://store.example/library");
    assert_eq!(r.id(), "A1");
    assert_eq!(r.title(), "Library");
    assert_eq!(r.url(), "https://store.example/library");
    assert_eq!(r.debug_url(), "ws://localhost:8080/devtools/page/A1");
}

#[test]
fn first_matching_record_is_found() {
    let d = directory();
    assert_eq!(TabSelector::Title("Store".to_string()).find_record(&d), Ok(Some(1)));
    assert_eq!(TabSelector::Title("store".to_string()).find_record(&d), Ok(None));
    assert_eq!(TabSelector::TitleRegex("^Store".to_string()).find_record(&d), Ok(Some(1)));
    assert_eq!(TabSelector::TitleRegex("front$".to_string()).find_record(&d), Ok(Some(2)));
    assert_eq!(TabSelector::TitleRegex("r".to_string()).find_record(&d), Ok(Some(0)));
    assert_eq!(TabSelector::Url("about:blank".to_string()).find_record(&d), Ok(Some(2)));
    assert_eq!(TabSelector::UrlRegex("example/$".to_string()).find_record(&d), Ok(Some(1)));
    assert_eq!(TabSelector::UrlRegex("^ftp".to_string()).find_record(&d), Ok(None));
    assert_eq!(TabSelector::Id("C3".to_string()).find_record(&d), Ok(Some(2)));
    assert_eq!(TabSelector::Id("C".to_string()).find_record(&d), Ok(None));
}

#[test]
fn a_pattern_is_no_plain_text() {
    let d = vec![record("1", "a.c", "x"), record("2", "abc", "x")];
    assert_eq!(TabSelector::TitleRegex("^a.c$".to_string()).find_record(&d), Ok(Some(0)));
    assert_eq!(TabSelector::TitleRegex("^ab?c$".to_string()).find_record(&d), Ok(Some(1)));
    assert_eq!(TabSelector::Title("a.c".to_string()).matches_record(&d[1]), Ok(false));
    assert_eq!(TabSelector::TitleRegex("a.c".to_string()).matches_record(&d[1]), Ok(true));
    assert_eq!(TabSelector::TitleRegex("A.C".to_string()).matches_record(&d[1]), Ok(false));
}

#[test]
fn a_pattern_that_does_not_compile_is_an_error() {
    let d = directory();
    assert!(TabSelector::TitleRegex("(".to_string()).find_record(&d).is_err());
    assert!(TabSelector::UrlRegex("[a".to_string()).matches_record(&d[0]).is_err());
    assert_eq!(TabSelector::TitleRegex("(".to_string()).find_record(&Vec::new()), Ok(None));
    assert!(TabSelector::UrlRegex("(".to_string()).find_target(&vec![target("1", "t", "u")]).is_err());
    assert_eq!(TabSelector::UrlRegex("(".to_string()).find_target(&Vec::new()), Ok(None));
}

#[test]
fn targets_are_found_by_identifier_of_tab_opener_or_context() {
    let mut opened = target("T2", "Popup", "https://x/popup");
    opened.opener_id = Some("T1".to_string());
    let mut grouped = target("T3", "Other", "https://x/other");
    grouped.browser_context_id = Some("CTX".to_string());
    let targets = vec![target("T0", "Zero", "https://x/0"), opened, grouped];
    assert_eq!(TabSelector::Id("T2".to_string()).find_target(&targets), Ok(Some(1)));
    assert_eq!(TabSelector::Id("T1".to_string()).find_target(&targets), Ok(Some(1)));
    assert_eq!(TabSelector::Id("CTX".to_string()).find_target(&targets), Ok(Some(2)));
    assert_eq!(TabSelector::Id("T9".to_string()).find_target(&targets), Ok(None));
    assert_eq!(TabSelector::Title("Other".to_string()).find_target(&targets), Ok(Some(2)));
    assert_eq!(TabSelector::TitleRegex("^(Zero|Popup)$".to_string()).find_target(&targets), Ok(Some(0)));
    assert_eq!(TabSelector::Url("https://x/popup".to_string()).find_target(&targets), Ok(Some(1)));
    assert_eq!(TabSelector::UrlRegex("/o".to_string()).find_target(&targets), Ok(Some(2)));
    assert_eq!(TabSelector::UrlRegex("/o".to_string()).matches_target(&targets[0]), Ok(false));
}

#[test]
fn lookup_reads_the_directory_anew_once() {
    let first = Search::start();
    assert_eq!(first, Search { place: Place::Connections, can_refresh: true });
    assert_eq!(first.after(true), Lookup::Found);
    let second = Search { place: Place::Directory, can_refresh: true };
    assert_eq!(first.after(false), Lookup::Look(second));
    assert_eq!(second.after(true), Lookup::Found);
    assert_eq!(second.after(false), Lookup::Refresh);
    assert_eq!(Search::after_refresh(false), Lookup::Missing);
    let third = Search { place: Place::Connections, can_refresh: false };
    assert_eq!(Search::after_refresh(true), Lookup::Look(third));
    let fourth = Search { place: Place::Directory, can_refresh: false };
    assert_eq!(third.after(false), Lookup::Look(fourth));
    assert_eq!(fourth.after(false), Lookup::Missing);
    assert_eq!(fourth.after(true), Lookup::Found);
}
