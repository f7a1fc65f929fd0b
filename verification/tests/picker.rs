use spaceadom::picker::{
    cache_is_usable, defers, scan_writes_cache, finish_scan, plan_refresh, reply_verdict, same_app_list, scan_rows,
    named_rows_of, not_an_array, offerable_rows,
    sort_by_name, worth_caching, AppInfo, PickerDataUpdated, PickerSession, RefreshPlan,
    ServeStep, WorkerReply, CACHE_FORMAT, EMPTY_SCAN, POWERSHELL_TIMEOUT_SECS,
    REQUEST_TIMEOUT_SECS, UPDATED_EVENT, WORKER_DROPPED,
};

fn app(name: &str, path: &str, icon: Option<&str>) -> AppInfo {
    AppInfo { name: name.to_string(), path: path.to_string(), icon_base64: icon.map(|s| s.to_string()) }
}

fn notepad() -> AppInfo {
    app("Notepad", r"C:\Windows\System32\notepad.exe", None)
}

#[test]
fn the_request_timeout_is_longer_than_the_powershell_timeout() {
    assert!(
        REQUEST_TIMEOUT_SECS > POWERSHELL_TIMEOUT_SECS,
        "a killed PowerShell must still be able to answer the caller with a real error \
         ({REQUEST_TIMEOUT_SECS:?} vs {POWERSHELL_TIMEOUT_SECS:?})"
    );
}

#[test]
fn a_request_the_worker_never_answers_rejects_instead_of_hanging() {
    let err = reply_verdict(WorkerReply::TimedOut, 0).expect_err("a silent worker must REJECT, never resolve");
    assert!(err.contains("did not answer"), "{err}");
    assert_eq!(
        reply_verdict(WorkerReply::TimedOut, 60),
        Err("the app scan did not answer within 60s — it is still running in the background; \
             close and reopen the picker to try again"
            .to_string())
    );
}

#[test]
fn a_dropped_worker_rejects_rather_than_answering_empty() {
    let err = reply_verdict(WorkerReply::Dropped, 30).expect_err("a dropped worker must reject");
    assert!(err.contains("dropped the request"), "{err}");
    assert_eq!(err, WORKER_DROPPED);
}

#[test]
fn the_workers_own_verdict_passes_through_unchanged_including_a_failure() {
    let apps = vec![notepad()];
    assert_eq!(reply_verdict(WorkerReply::Answered(Ok(apps.clone())), 30), Ok(apps));
    let err = reply_verdict(
        WorkerReply::Answered(Err("scan failed: powershell exited with exit code: 1".into())),
        30,
    )
    .expect_err("must reject");
    assert!(err.starts_with("scan failed: "), "{err}");
}

#[test]
fn a_cache_is_used_only_with_its_format_its_fingerprint_and_some_apps() {
    assert!(cache_is_usable(CACHE_FORMAT, "fp1", "fp1", 3));
    assert!(!cache_is_usable(CACHE_FORMAT, "fp1", "fp2", 3), "a different fingerprint is a miss");
    assert!(!cache_is_usable(CACHE_FORMAT + 1, "fp1", "fp1", 3), "another format is a miss");
    assert!(!cache_is_usable(CACHE_FORMAT, "fp1", "fp1", 0), "an empty list is a miss");
}

#[test]
fn an_empty_list_is_never_cached() {
    assert!(!worth_caching(0));
    assert!(worth_caching(1));
}

#[test]
fn a_warm_up_waits_only_while_nobody_is_answered_and_nothing_is_known() {
    assert!(defers(false, true, false));
    assert!(!defers(true, true, false), "a real request is never deferred");
    assert!(!defers(false, false, false), "its time has come");
    assert!(!defers(false, true, true), "the session already has the list");
}

#[test]
fn lists_compare_field_by_field() {
    let a = vec![notepad(), app("Paint", "mspaint.exe", Some("AAAA"))];
    let b = vec![notepad(), app("Paint", "mspaint.exe", Some("AAAA"))];
    let c = vec![notepad(), app("Paint", "mspaint.exe", None)];
    assert!(same_app_list(&a, &b));
    assert!(!same_app_list(&a, &c));
    assert!(!same_app_list(&a, &a[..1]));
    assert!(same_app_list(&[], &[]));
}

#[test]
fn a_refresh_that_finds_the_same_list_announces_nothing() {
    let list = vec![notepad()];
    let p = plan_refresh(Some(&list), Some("fp"), &list.clone(), "fp");
    assert_eq!(p, RefreshPlan { rewrite_cache: false, replace_list: false, announce: None });
    let p = plan_refresh(Some(&list), Some("fp"), &list.clone(), "fp2");
    assert_eq!(p, RefreshPlan { rewrite_cache: true, replace_list: false, announce: None });
}

#[test]
fn a_refresh_that_changes_the_list_announces_both_counts() {
    let old = vec![notepad()];
    let new = vec![notepad(), app("Paint", "mspaint.exe", None)];
    let p = plan_refresh(Some(&old), Some("fp"), &new, "fp");
    assert_eq!(
        p,
        RefreshPlan {
            rewrite_cache: true,
            replace_list: true,
            announce: Some(PickerDataUpdated { count: 2, previous: 1 }),
        }
    );
    let p = plan_refresh(None, None, &new, "fp");
    assert_eq!(p.announce, Some(PickerDataUpdated { count: 2, previous: 0 }));
    assert_eq!(UPDATED_EVENT, "picker-data-updated");
}

#[test]
fn a_failed_first_scan_rejects_and_the_next_request_scans_again() {
    let mut s = PickerSession::new();
    assert_eq!(s.next_step(), ServeStep::NeedsList);
    let r = s.record_first_scan(Err("powershell exited with exit code: 1".into()), "fp".into());
    assert_eq!(r, Err("scan failed: powershell exited with exit code: 1".to_string()));
    assert!(!s.has_list());
    assert_eq!(s.next_step(), ServeStep::NeedsList);
    let r = s.record_first_scan(Ok(vec![notepad()]), "fp".into());
    assert_eq!(r, Ok(vec![notepad()]));
    assert_eq!(s.next_step(), ServeStep::FromMemory { refresh_after: false });
    assert_eq!(s.answer(), vec![notepad()]);
}

#[test]
fn a_disk_cache_answers_first_and_the_refresh_runs_once() {
    let mut s = PickerSession::new();
    s.adopt_cache(vec![notepad()], "fp".into());
    assert_eq!(s.next_step(), ServeStep::FromMemory { refresh_after: true });
    let new = vec![notepad(), app("Paint", "mspaint.exe", None)];
    let p = s.record_refresh(Ok(new.clone()), "fp2".into());
    assert_eq!(p.announce, Some(PickerDataUpdated { count: 2, previous: 1 }));
    assert!(p.rewrite_cache);
    assert_eq!(s.answer(), new);
    assert_eq!(s.next_step(), ServeStep::FromMemory { refresh_after: false });
}

#[test]
fn a_failed_refresh_keeps_what_was_served() {
    let mut s = PickerSession::new();
    s.adopt_cache(vec![notepad()], "fp".into());
    let p = s.record_refresh(Err("boom".into()), "fp2".into());
    assert_eq!(p, RefreshPlan { rewrite_cache: false, replace_list: false, announce: None });
    assert_eq!(s.answer(), vec![notepad()]);
    assert_eq!(s.next_step(), ServeStep::FromMemory { refresh_after: false });
}

#[test]
fn scan_output_keeps_rows_with_a_name_and_a_path() {
    let json = r#"[{"Name":"Notepad","Path":"C:\\Windows\\notepad.exe"},{"Name":"Broken"},{"Name":"Calc","Path":"shell:AppsFolder\\Microsoft.WindowsCalculator_8wekyb3d8bbwe!App"}]"#;
    let rows = scan_rows(json).expect("an array");
    assert_eq!(
        rows,
        vec![
            ("Notepad".to_string(), r"C:\Windows\notepad.exe".to_string()),
            (
                "Calc".to_string(),
                r"shell:AppsFolder\Microsoft.WindowsCalculator_8wekyb3d8bbwe!App".to_string()
            ),
        ]
    );
}

#[test]
fn scan_output_that_is_not_an_array_is_an_error_naming_its_size() {
    let json = r#"{"Name":"Only","Path":"one.exe"}"#;
    let err = scan_rows(json).expect_err("a single object is not an array");
    assert!(err.starts_with("powershell output was not a JSON array ("), "{err}");
    assert!(err.ends_with(&format!("; {} bytes)", json.len())), "{err}");
    assert!(scan_rows("").is_err());
}

#[test]
fn the_scan_sorts_by_lowercased_name_and_keeps_equal_names_in_order() {
    let apps = vec![
        app("paint", "1", None),
        app("Calculator", "2", None),
        app("Paint", "3", None),
        app("alarms", "4", None),
    ];
    let out = finish_scan(apps).expect("not empty");
    let order: Vec<&str> = out.iter().map(|a| a.path.as_str()).collect();
    assert_eq!(order, vec!["4", "2", "1", "3"]);
    assert_eq!(sort_by_name(Vec::new()), Vec::<AppInfo>::new());
}

#[test]
fn an_empty_scan_is_a_failure() {
    assert_eq!(finish_scan(Vec::new()), Err(EMPTY_SCAN.to_string()));
}

#[test]
fn a_failed_or_empty_scan_never_overwrites_the_cache() {
    assert!(scan_writes_cache(&Ok(vec![notepad()])));
    assert!(!scan_writes_cache(&Ok(Vec::new())));
    assert!(!scan_writes_cache(&Err("powershell exited with exit code: 1".to_string())));
}

fn pair(a: &str, b: &str) -> (String, String) {
    (a.to_string(), b.to_string())
}

#[test]
fn only_rows_with_a_name_and_a_path_are_kept_in_order() {
    let rows = vec![
        (Some("Notepad".to_string()), Some("C:\\n.exe".to_string())),
        (None, Some("C:\\x.exe".to_string())),
        (Some("Nameless target".to_string()), None),
        (Some("Calc".to_string()), Some("C:\\c.exe".to_string())),
    ];
    assert_eq!(named_rows_of(rows), vec![pair("Notepad", "C:\\n.exe"), pair("Calc", "C:\\c.exe")]);
    assert_eq!(named_rows_of(Vec::new()), Vec::<(String, String)>::new());
}

#[test]
fn output_that_is_not_an_array_says_why_and_how_long_it_was() {
    assert_eq!(
        not_an_array("expected value at line 1 column 1", 12),
        "powershell output was not a JSON array (expected value at line 1 column 1; 12 bytes)"
    );
    let e = scan_rows("not json").unwrap_err();
    assert!(e.starts_with("powershell output was not a JSON array ("), "{e}");
    assert!(e.ends_with("; 8 bytes)"), "{e}");
}

#[test]
fn an_uninstaller_is_never_offered_by_name_or_by_target() {
    let rows = vec![
        pair("Notepad", "C:\\Windows\\notepad.exe"),
        pair("Uninstall Foo", "C:\\Foo\\foo.exe"),
        pair("Bar", "C:\\Bar\\unins000.exe"),
        pair("Calc", "C:\\Windows\\calc.exe"),
    ];
    let refuses = |t: &str| t.to_lowercase().contains("uninstall") || t.to_lowercase().contains("unins0");
    assert_eq!(
        offerable_rows(rows, &refuses),
        vec![pair("Notepad", "C:\\Windows\\notepad.exe"), pair("Calc", "C:\\Windows\\calc.exe")]
    );
    let keeps_all = |_t: &str| false;
    assert_eq!(offerable_rows(vec![pair("A", "a"), pair("B", "b")], &keeps_all).len(), 2);
}
