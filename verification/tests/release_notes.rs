use spaceadom::release_notes::{
    cached_notes, notes_step, whats_new, NotesStep,
    cache_file_name, notes_from_body, parse_release_body, sanitize_version, tag_url, user_agent,
    FETCH_TIMEOUT_SECS, MAX_NOTES_BYTES, RELEASES_TAG_API, SETTLE_DELAY_SECS,
};
use spaceadom::AUTOSTART_SETTLE_SECS;

const SAMPLE: &str = r###"{
  "url": "https://api.github.com/repos/nur-arpon/Spaceadom/releases/191919191",
  "html_url": "https://github.com/nur-arpon/Spaceadom/releases/tag/v1.0.101",
  "id": 191919191,
  "tag_name": "v1.0.101",
  "target_commitish": "main",
  "name": "Spaceadom 1.0.101",
  "draft": false,
  "prerelease": false,
  "created_at": "2026-09-05T09:00:00Z",
  "published_at": "2026-09-05T09:12:00Z",
  "assets": [
    { "name": "Spaceadom_1.0.101_x64-setup.exe", "size": 5872341 },
    { "name": "latest.json", "size": 431 }
  ],
  "body": "## What's new\r\n\r\n- **Check for updates** now lives in the tray menu.\r\n- You can go back to the previous version if an update misbehaves.\r\n- Fixed: the ring could clip its outer chips on a 16-app profile.\r\n"
}"###;

const NOT_FOUND: &str = r#"{"message":"Not Found","documentation_url":"https://docs.github.com/rest","status":"404"}"#;
const RATE_LIMITED: &str = r#"{"message":"API rate limit exceeded for 203.0.113.7.","documentation_url":"https://docs.github.com/rest/overview/rate-limits-for-the-rest-api"}"#;

#[test]
fn a_real_release_response_yields_its_body_and_not_its_title() {
    let notes = parse_release_body(SAMPLE).expect("the sample has a body");
    assert!(notes.starts_with("## What's new"), "{notes}");
    assert!(notes.contains("Check for updates"));
    assert!(notes.contains("go back to the previous version"));
    assert!(!notes.contains("Spaceadom 1.0.101"));
    assert_eq!(notes, notes.trim());
}

#[test]
fn every_shape_that_is_not_release_notes_is_none() {
    assert_eq!(parse_release_body(NOT_FOUND), None, "404 before the tag exists");
    assert_eq!(parse_release_body(RATE_LIMITED), None, "the 60/hour limit");
    assert_eq!(parse_release_body(r#"{"body":null}"#), None);
    assert_eq!(parse_release_body(r#"{"body":""}"#), None);
    assert_eq!(parse_release_body(r#"{"body":"   \r\n  "}"#), None, "whitespace only");
    assert_eq!(parse_release_body(r#"{"body":123}"#), None, "wrong type");
    assert_eq!(parse_release_body("<html>502 Bad Gateway</html>"), None);
    assert_eq!(parse_release_body(""), None);
    assert_eq!(parse_release_body("[]"), None);
}

#[test]
fn an_enormous_body_is_truncated_on_a_char_boundary() {
    let huge: String = "\u{1F319}".repeat(MAX_NOTES_BYTES);
    let json = format!("{{\"body\":\"{}\"}}", huge);
    let notes = parse_release_body(&json).expect("still has notes");
    assert!(notes.len() < huge.len());
    assert!(notes.ends_with('\u{2026}'));
    assert!(!notes.contains('\u{FFFD}'));
    assert!(notes.starts_with("\u{1F319}\u{1F319}"));
    // The cut keeps as many whole characters as fit in the cap.
    assert_eq!(notes, format!("{}\n\n\u{2026}", "\u{1F319}".repeat(MAX_NOTES_BYTES / 4)));

    let exact = "a".repeat(MAX_NOTES_BYTES);
    let json = format!("{{\"body\":\"{}\"}}", exact);
    assert_eq!(parse_release_body(&json), Some(exact));
}

#[test]
fn a_cut_never_splits_a_three_byte_character() {
    // 65535 bytes of 'a' and then a 3-byte char: the char does not fit.
    let body = format!("{}\u{20AC}x", "a".repeat(MAX_NOTES_BYTES - 1));
    let json = format!("{{\"body\":\"{}\"}}", body);
    let notes = parse_release_body(&json).unwrap();
    assert_eq!(notes, format!("{}\n\n\u{2026}", "a".repeat(MAX_NOTES_BYTES - 1)));
}

#[test]
fn a_version_that_could_escape_the_data_directory_is_refused() {
    for bad in [
        "../../evil",
        "..",
        "1.0.101/../../evil",
        r"..\..\windows\system32",
        "1.0.101\0",
        "1.0.101 && calc",
        "1.0.101/latest",
        r"C:\Windows",
        "",
        "   ",
        "v",
        "release",
        "1.0.101?token=x",
        "1.0.101#frag",
        "%2e%2e%2f",
        &"9".repeat(65),
    ] {
        assert_eq!(sanitize_version(bad), None, "must be refused: {bad:?}");
        assert_eq!(tag_url(bad), None, "must never become a URL: {bad:?}");
        assert_eq!(cache_file_name(bad), None, "must never become a path: {bad:?}");
    }
}

#[test]
fn an_ordinary_version_survives_sanitising_in_every_form_it_arrives_in() {
    assert_eq!(sanitize_version("1.0.101").as_deref(), Some("1.0.101"));
    assert_eq!(sanitize_version(" v1.0.101 ").as_deref(), Some("1.0.101"));
    assert_eq!(sanitize_version("1.0.101-rc.1").as_deref(), Some("1.0.101-rc.1"));
    assert_eq!(sanitize_version("1.0.101+build.7").as_deref(), Some("1.0.101+build.7"));
}

#[test]
fn every_leading_v_goes_and_sixty_four_characters_still_pass() {
    assert_eq!(sanitize_version("vv 2").as_deref(), Some("2"));
    let long = "9".repeat(64);
    assert_eq!(sanitize_version(&long).as_deref(), Some(long.as_str()));
}

#[test]
fn the_api_url_is_the_v_prefixed_tag_on_the_right_repository() {
    assert_eq!(
        tag_url("1.0.101").as_deref(),
        Some("https://api.github.com/repos/nur-arpon/Spaceadom/releases/tags/v1.0.101")
    );
    assert_eq!(tag_url("v1.0.101"), tag_url("1.0.101"));
    assert!(RELEASES_TAG_API.starts_with("https://api.github.com/repos/nur-arpon/Spaceadom/"));
    assert!(RELEASES_TAG_API.ends_with("/releases/tags/"));
}

#[test]
fn the_cache_is_one_markdown_file_per_version_in_the_data_directory() {
    assert_eq!(cache_file_name("1.0.101").as_deref(), Some("release-notes-1.0.101.md"));
    assert_ne!(cache_file_name("1.0.101"), cache_file_name("1.0.102"));
}

#[test]
fn the_user_agent_names_the_app_and_its_version() {
    let ua = user_agent("1.0.101");
    assert!(ua.starts_with("Spaceadom/"), "{ua}");
    assert!(ua.len() > "Spaceadom/".len(), "the version must not be empty: {ua}");
    assert!(ua.contains("github.com/nur-arpon/Spaceadom"), "{ua}");
    assert_eq!(ua, "Spaceadom/1.0.101 (+https://github.com/nur-arpon/Spaceadom)");
}

#[test]
fn the_whats_new_fetch_waits_for_everything_else_to_finish_starting() {
    assert!(SETTLE_DELAY_SECS > AUTOSTART_SETTLE_SECS, "must not compete with window creation");
    assert!(SETTLE_DELAY_SECS >= 25, "must sit behind the updater's first check");
    assert!(FETCH_TIMEOUT_SECS <= 30, "a captive portal must not pin the thread");
}

#[test]
fn a_cache_file_of_whitespace_holds_no_notes() {
    assert_eq!(cached_notes("  \n\t "), None);
    assert_eq!(cached_notes(""), None);
    assert_eq!(cached_notes("\n## 1.0.97\n- fixes\n\n"), Some("## 1.0.97\n- fixes".to_string()));
}

#[test]
fn notes_come_from_the_cache_then_never_the_network_for_a_packaged_copy() {
    assert_eq!(notes_step(true, false), NotesStep::Cached);
    assert_eq!(notes_step(true, true), NotesStep::Cached);
    assert_eq!(notes_step(false, true), NotesStep::Skip);
    assert_eq!(notes_step(false, false), NotesStep::Fetch);
}

#[test]
fn the_whats_new_payload_always_states_whether_there_are_notes() {
    let with = whats_new("1.0.101".to_string(), true, false);
    assert_eq!(with.version, "1.0.101");
    assert!(with.has_notes);
    assert!(!with.rolled_back);
    let without = whats_new("1.0.101".to_string(), false, true);
    assert!(!without.has_notes, "the plain toast stands, and the UI is TOLD so");
    assert!(without.rolled_back);
}

#[test]
fn a_body_is_trimmed_and_an_empty_one_is_no_notes() {
    assert_eq!(notes_from_body("  \r\n## 1.2.3\n- fixed\n  "), Some("## 1.2.3\n- fixed".to_string()));
    assert_eq!(notes_from_body(" \t\n "), None);
    assert_eq!(notes_from_body(""), None);
}

#[test]
fn a_long_body_is_cut_on_a_character_boundary_with_an_ellipsis() {
    let long = "é".repeat(MAX_NOTES_BYTES);
    let notes = notes_from_body(&long).expect("a long body still has notes");
    assert!(notes.ends_with("\n\n\u{2026}"));
    let kept = notes.trim_end_matches("\n\n\u{2026}");
    assert!(kept.len() <= MAX_NOTES_BYTES && kept.len() > MAX_NOTES_BYTES - 2);
    assert!(kept.chars().all(|c| c == 'é'));
}
