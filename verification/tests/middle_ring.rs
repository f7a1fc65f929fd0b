use spaceadom::config::{AppConfig, KeyBinding, Profile};
use spaceadom::middle_ring::{
    as_png_data_url, bound_letters, favourites_for, middle_down_route, short_app_name,
    split_display_name, Dir, MiddleRingStyle, MiddleRoute, RingShape, FAVOURITES_DEFAULT,
};

#[test]
fn a_browser_profile_splits_into_app_and_account() {
    assert_eq!(split_display_name("Google Chrome — Arpon"), ("Chrome".into(), Some("Arpon".into())));
    assert_eq!(split_display_name("Brave — Work"), ("Brave".into(), Some("Work".into())));
    assert_eq!(split_display_name("Microsoft Edge — arpon@gmail.com"), ("Edge".into(), Some("arpon".into())));
    assert_eq!(split_display_name("Mozilla Firefox — dev"), ("Firefox".into(), Some("dev".into())));
}

#[test]
fn a_plain_name_has_no_account_and_keeps_its_words() {
    assert_eq!(split_display_name("Terminal"), ("Terminal".into(), None));
    assert_eq!(split_display_name("Google Drive"), ("Drive".into(), None));
    assert_eq!(split_display_name("Google"), ("Google".into(), None));
    assert_eq!(split_display_name("Boss Key"), ("Boss Key".into(), None));
    assert_eq!(split_display_name("https://github.com"), ("https://github.com".into(), None));
    assert_eq!(split_display_name("  Notes  "), ("Notes".into(), None));
}

#[test]
fn an_empty_account_part_is_none() {
    assert_eq!(split_display_name("Chrome — "), ("Chrome".into(), None));
    assert_eq!(split_display_name("Chrome — @"), ("Chrome".into(), None));
    assert_eq!(short_app_name("microsoft edge"), "Edge");
}

#[test]
fn the_vendor_prefix_needs_something_after_it() {
    assert_eq!(short_app_name("GOOGLE   Earth "), "Earth");
    assert_eq!(short_app_name("Google  "), "Google");
    assert_eq!(short_app_name("Googles"), "Googles");
    assert_eq!(split_display_name("A — b — c"), ("A".into(), Some("b — c".into())));
}

#[test]
fn the_style_setting_picks_the_path() {
    assert_eq!(middle_down_route(MiddleRingStyle::GuideHud), MiddleRoute::GuideHud);
    assert_eq!(middle_down_route(MiddleRingStyle::IconRing), MiddleRoute::IconRing);
    assert_eq!(middle_down_route(MiddleRingStyle::default()), MiddleRoute::IconRing);
}

#[test]
fn shape_names_are_spelled_for_the_marker_line() {
    assert_eq!(RingShape::Circle.name(), "circle");
    assert_eq!(RingShape::Half(Dir::W).name(), "half-W");
    assert_eq!(RingShape::Quarter(Dir::SW).name(), "quarter-SW");
    assert_eq!(RingShape::CircleClamped.name(), "circle-clamped");
    assert_eq!(RingShape::Nudged(Dir::E).name(), "nudged-E");
    assert_eq!(RingShape::Spiral.name(), "spiral");
    assert!(RingShape::Half(Dir::N).anchored());
    assert!(!RingShape::CircleClamped.anchored());
    assert!(!RingShape::Spiral.anchored());
    assert!(Dir::S.is_cardinal() && !Dir::NE.is_cardinal());
    assert_eq!(Dir::from_octant(5), Dir::SW);
}

#[test]
fn a_bare_icon_becomes_a_png_data_url_and_a_data_url_passes_through() {
    assert_eq!(as_png_data_url("QUJD"), "data:image/png;base64,QUJD");
    assert_eq!(as_png_data_url("data:image/x-icon;base64,AAEC"), "data:image/x-icon;base64,AAEC");
    assert_eq!(as_png_data_url("data"), "data:image/png;base64,data");
}

fn cfg_with(bindings: &[(&str, KeyBinding)]) -> AppConfig {
    let mut cfg = AppConfig::default();
    let mut ring = Profile::new("Ring".into());
    for (k, b) in bindings {
        ring.bind((*k).to_string(), b.clone());
    }
    cfg.profiles = vec![ring];
    cfg.active_profile = "Ring".into();
    cfg
}

fn app(label: &str, exe: &str) -> KeyBinding {
    KeyBinding { label: Some(label.into()), app: Some(exe.into()), ..Default::default() }
}

#[test]
fn favourites_default_to_the_first_six_bound_letters_and_cap_at_fifteen() {
    let mut binds: Vec<(String, KeyBinding)> = Vec::new();
    for c in "zyxwvutsrq".chars() {
        binds.push((c.to_string(), app(&c.to_string(), "x.exe")));
    }
    let refs: Vec<(&str, KeyBinding)> = binds.iter().map(|(k, b)| (k.as_str(), b.clone())).collect();
    let mut cfg = cfg_with(&refs);
    assert_eq!(favourites_for(&cfg, "Ring"), vec!['q', 'r', 's', 't', 'u']);
    cfg.middle_ring_favourites = vec!["z".into(), "a".into(), "Q".into(), "z".into()];
    assert_eq!(favourites_for(&cfg, "Ring"), vec!['z', 'q']);
    cfg.middle_ring_favourites = vec!["a".into(), "b".into()];
    assert_eq!(favourites_for(&cfg, "Ring").len(), FAVOURITES_DEFAULT);
    assert!(favourites_for(&cfg, "No Such Profile").is_empty());
    cfg.middle_ring_favourites = "zyxwvutsrq".chars().map(|c| c.to_string()).collect();
    assert_eq!(favourites_for(&cfg, "Ring").len(), 10);
    assert_eq!(favourites_for(&cfg, "Ring")[0], 'z');
}

#[test]
fn bound_letters_are_sorted_lower_case_and_mapped_only() {
    let unmapped = KeyBinding { label: Some("nothing".into()), ..Default::default() };
    let cfg = cfg_with(&[
        ("M", app("m", "m.exe")),
        ("b", app("b", "b.exe")),
        ("m", app("m2", "m2.exe")),
        ("c", unmapped),
        ("esc", app("e", "e.exe")),
        ("1", app("one", "1.exe")),
        ("", app("empty", "x.exe")),
        ("Q", app("q", "q.exe")),
    ]);
    // Only a key that is one letter binds it: "esc" binds no 'e'.
    assert_eq!(bound_letters(&cfg, "Ring"), vec!['b', 'm', 'q']);
    assert!(bound_letters(&cfg, "Other").is_empty());
}

#[test]
fn stored_favourites_stop_at_thirteen_before_repeats_are_dropped() {
    let mut binds: Vec<(String, KeyBinding)> = Vec::new();
    for c in "abcdefghijklmnop".chars() {
        binds.push((c.to_string(), app(&c.to_string(), "x.exe")));
    }
    let refs: Vec<(&str, KeyBinding)> = binds.iter().map(|(k, b)| (k.as_str(), b.clone())).collect();
    let mut cfg = cfg_with(&refs);
    cfg.middle_ring_favourites = "abcdefghijklmnop".chars().map(|c| c.to_string()).collect();
    assert_eq!(favourites_for(&cfg, "Ring").len(), 13);
    cfg.middle_ring_favourites = "aaaaaaaaaaaaab".chars().map(|c| c.to_string()).collect();
    assert_eq!(favourites_for(&cfg, "Ring"), vec!['a']);
}

use spaceadom::middle_ring::{build_entries, classify, ItemKind, MiddleRingScope, RingEntry};

fn label_of(b: &KeyBinding) -> String {
    b.label.clone().unwrap_or_default()
}

fn entries(cfg: &AppConfig, scope: MiddleRingScope, specials: &Vec<(String, String, char)>, extract: &dyn Fn(&str) -> Option<String>) -> Vec<RingEntry> {
    let not_a_folder = |_: &str| false;
    build_entries(cfg, "Ring", scope, specials, &label_of, &not_a_folder, &|t: &str| extract(t))
}

#[test]
fn icon_override_wins_and_a_link_without_a_site_icon_falls_to_the_disc() {
    let mut pinned = app("Pinned", "pinned.exe");
    pinned.icon_override = Some("QUJD".into());
    let link = KeyBinding {
        label: Some("Reddit".into()),
        web_url: Some("https://reddit.com".into()),
        ..Default::default()
    };
    let cfg = cfg_with(&[("p", pinned), ("r", link)]);
    let extract = |_: &str| -> Option<String> { panic!("the extractor must not be asked") };
    let entries = entries(&cfg, MiddleRingScope::MyEight, &Vec::new(), &extract);
    assert_eq!(entries.iter().find(|e| e.key == "P").unwrap().icon.as_deref(), Some("data:image/png;base64,QUJD"));
    assert_eq!(entries.iter().find(|e| e.key == "R").unwrap().icon, None);
}

#[test]
fn an_exe_a_folder_and_a_link_each_carry_their_icon() {
    let link = KeyBinding {
        label: Some("GitHub".into()),
        web_url: Some("https://github.com".into()),
        site_icon: Some("data:image/x-icon;base64,AAEC".into()),
        ..Default::default()
    };
    let cfg = cfg_with(&[
        ("b", app("Brave", "brave.exe")),
        ("d", app("Downloads", "/home/downloads")),
        ("g", link),
    ]);
    let asked = std::cell::RefCell::new(Vec::new());
    let extract = |target: &str| -> Option<String> {
        asked.borrow_mut().push(target.to_string());
        Some("iVBORw0KGgo=".to_string())
    };
    let is_dir = |p: &str| p == "/home/downloads";
    let es = build_entries(&cfg, "Ring", MiddleRingScope::MyEight, &Vec::new(), &label_of, &is_dir, &extract);
    assert_eq!(es.len(), 3);
    let by_key = |k: &str| es.iter().find(|e| e.key == k).unwrap();
    assert_eq!(by_key("B").kind, ItemKind::App);
    assert_eq!(by_key("B").icon.as_deref(), Some("data:image/png;base64,iVBORw0KGgo="));
    assert_eq!(by_key("D").kind, ItemKind::Folder);
    assert_eq!(by_key("G").kind, ItemKind::Link);
    assert_eq!(by_key("G").icon.as_deref(), Some("data:image/x-icon;base64,AAEC"));
    assert_eq!(by_key("B").name, "Brave");
    let asked = asked.borrow();
    assert!(asked.iter().any(|t| t == "brave.exe"));
    assert!(asked.iter().any(|t| t == "/home/downloads"));
    assert!(!asked.iter().any(|t| t.contains("github")));
}

#[test]
fn all_appends_the_rest_then_the_specials_in_order() {
    let mut binds: Vec<(String, KeyBinding)> = Vec::new();
    for c in "abcdefghijk".chars() {
        binds.push((c.to_string(), app(&c.to_string(), "x.exe")));
    }
    let refs: Vec<(&str, KeyBinding)> = binds.iter().map(|(k, b)| (k.as_str(), b.clone())).collect();
    let mut cfg = cfg_with(&refs);
    cfg.middle_ring_favourites = vec!["k".into(), "a".into()];
    let specials = vec![
        ("Esc".to_string(), "Boss Key".to_string(), '\u{E000}'),
        ("`".to_string(), "Screen off".to_string(), '\u{E001}'),
    ];
    let none = |_: &str| -> Option<String> { None };
    let eight = entries(&cfg, MiddleRingScope::MyEight, &specials, &none);
    assert_eq!(eight.iter().map(|e| e.code).collect::<Vec<_>>(), vec!['k', 'a']);
    let all = entries(&cfg, MiddleRingScope::All, &specials, &none);
    let codes: Vec<char> = all.iter().map(|e| e.code).collect();
    assert_eq!(&codes[..2], &['k', 'a']);
    assert_eq!(&codes[2..11], &['b', 'c', 'd', 'e', 'f', 'g', 'h', 'i', 'j']);
    assert_eq!(&codes[11..], &['\u{E000}', '\u{E001}']);
    assert!(all[11..].iter().all(|e| e.kind == ItemKind::Special && e.icon.is_none()));
    assert_eq!(all[11].name, "Boss Key");
    assert!(entries(&AppConfig::default(), MiddleRingScope::All, &specials, &none).is_empty());
}

#[test]
fn an_action_is_a_special_and_a_link_is_a_link() {
    let action = KeyBinding { action: Some("mute".into()), app: Some("x.exe".into()), ..Default::default() };
    assert_eq!(classify(&action, false), (ItemKind::Special, None));
    let link = KeyBinding { web_url: Some("https://a.b".into()), app: Some("x.exe".into()), ..Default::default() };
    assert_eq!(classify(&link, true), (ItemKind::Link, Some("https://a.b".to_string())));
    assert_eq!(classify(&KeyBinding::default(), true), (ItemKind::App, None));
    assert_eq!(classify(&app("x", "C:\\Tools"), true), (ItemKind::Folder, Some("C:\\Tools".to_string())));
}

#[test]
fn a_name_without_a_vendor_prefix_comes_back_trimmed_whatever_its_bytes() {
    assert_eq!(short_app_name("日本語テキスト"), "日本語テキスト");
    assert_eq!(short_app_name("  Googleé "), "Googleé");
    assert_eq!(short_app_name("Google Chrome"), "Chrome");
    assert_eq!(split_display_name("日本語テキスト — work"), ("日本語テキスト".to_string(), Some("work".to_string())));
}

#[test]
fn binding_a_key_again_replaces_it_in_place() {
    let mut p = Profile::new("Ring".into());
    p.bind("a".into(), app("a", "a.exe"));
    p.bind("b".into(), app("b", "b.exe"));
    p.bind("a".into(), app("a2", "a2.exe"));
    assert_eq!(p.bindings.len(), 2);
    assert_eq!(p.bindings[0].0, "a");
    assert_eq!(p.bindings[0].1.app.as_deref(), Some("a2.exe"));
    assert_eq!(p.bindings[1].0, "b");
}

#[test]
fn all_of_them_appends_the_rest_and_the_specials_in_order() {
    let mut binds: Vec<(String, KeyBinding)> = Vec::new();
    for c in "abcdefghijk".chars() {
        binds.push((c.to_string(), app(&c.to_string(), "x.exe")));
    }
    let refs: Vec<(&str, KeyBinding)> = binds.iter().map(|(k, b)| (k.as_str(), b.clone())).collect();
    let mut cfg = cfg_with(&refs);
    // The profile's ten special tiles, as the caller supplies them.
    let specials: Vec<(String, String, char)> = (0..10u32)
        .map(|i| (format!("S{i}"), format!("Special {i}"), char::from_u32(0xE000 + i).unwrap()))
        .collect();
    cfg.middle_ring_favourites = vec!["k".into(), "a".into()];
    let extract = |_: &str| -> Option<String> { None };
    let eight = entries(&cfg, MiddleRingScope::MyEight, &specials, &extract);
    assert_eq!(eight.iter().map(|e| e.code).collect::<Vec<_>>(), vec!['k', 'a']);
    let all = entries(&cfg, MiddleRingScope::All, &specials, &extract);
    let codes: Vec<char> = all.iter().map(|e| e.code).collect();
    assert_eq!(&codes[..2], &['k', 'a']);
    assert_eq!(&codes[2..11], &['b', 'c', 'd', 'e', 'f', 'g', 'h', 'i', 'j']);
    assert_eq!(codes.len(), 11 + specials.len());
    assert_eq!(codes.len(), 21);
    assert!(all[11..].iter().all(|e| e.kind == ItemKind::Special && e.icon.is_none()));
    assert_eq!(&codes[11..], &specials.iter().map(|s| s.2).collect::<Vec<_>>()[..]);
}
