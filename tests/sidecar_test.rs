use sidecar_on_dock::sidecar::{
    display_names, ensure_loaded, names_match, normalise_quotes, select_device, EnableAction,
    EnableRetry, MAX_RETRIES, RETRY_DELAY_SECS,
};

#[test]
fn normalise_right_single_quote() {
    assert_eq!(normalise_quotes("Dominic\u{2019}s iPad"), "Dominic's iPad");
}

#[test]
fn normalise_left_single_quote() {
    assert_eq!(normalise_quotes("\u{2018}hello\u{2019}"), "'hello'");
}

#[test]
fn normalise_modifier_letter_apostrophe() {
    assert_eq!(normalise_quotes("test\u{02BC}s"), "test's");
}

#[test]
fn normalise_plain_apostrophe_unchanged() {
    assert_eq!(normalise_quotes("Dominic's iPad"), "Dominic's iPad");
}

#[test]
fn normalise_no_quotes() {
    assert_eq!(normalise_quotes("My iPad"), "My iPad");
}

#[test]
fn normalise_empty() {
    assert_eq!(normalise_quotes(""), "");
}

#[test]
fn normalise_twice_is_normalise_once() {
    let s = "\u{2018}A\u{02BC}s \u{00E9}\u{2019}";
    let once = normalise_quotes(s);
    assert_eq!(normalise_quotes(&once), once);
    assert_eq!(once, "'A's \u{00E9}'");
}

#[test]
fn names_match_is_symmetric_and_ignores_apostrophe_variants() {
    assert!(names_match("Dominic\u{2019}s iPad", "Dominic's iPad"));
    assert!(names_match("Dominic's iPad", "Dominic\u{2019}s iPad"));
    assert!(names_match("Dominic\u{02BC}s iPad", "Dominic\u{2018}s iPad"));
    assert!(!names_match("Dominic's iPad", "Dominics iPad"));
    assert!(!names_match("Dominics iPad", "Dominic's iPad"));
}

fn names(v: &[Option<&str>]) -> Vec<Option<String>> {
    v.iter().map(|n| n.map(String::from)).collect()
}

#[test]
fn select_first_when_no_name_configured() {
    assert_eq!(select_device(&names(&[None, Some("B")]), None), Some(0));
    assert_eq!(select_device(&names(&[]), None), None);
}

#[test]
fn select_by_normalised_name() {
    let list = names(&[Some("Other"), None, Some("Dominic\u{2019}s iPad"), Some("Dominic's iPad")]);
    assert_eq!(select_device(&list, Some("Dominic's iPad")), Some(2));
    assert_eq!(select_device(&list, Some("Missing")), None);
    assert_eq!(select_device(&names(&[]), Some("Other")), None);
}

#[test]
fn display_names_use_placeholder() {
    let shown = display_names(&names(&[Some("A"), None]));
    assert_eq!(shown, vec!["A".to_string(), "<unnamed>".to_string()]);
}

#[test]
fn ensure_loaded_follows_load_result() {
    assert!(ensure_loaded(&Ok(())));
    assert!(!ensure_loaded(&Err("dlopen failed".to_string())));
}

#[test]
fn retry_found_on_first_lookup_connects() {
    let mut r = EnableRetry::new();
    assert_eq!(r.on_lookup(Some(3)), EnableAction::Connect(3));
    assert!(r.finished());
}

#[test]
fn retry_found_on_third_lookup() {
    let mut r = EnableRetry::new();
    assert_eq!(r.on_lookup(None), EnableAction::Wait { list_devices: true });
    assert_eq!(r.on_lookup(None), EnableAction::Wait { list_devices: false });
    assert_eq!(r.current_attempt(), 3);
    assert_eq!(r.on_lookup(Some(0)), EnableAction::Connect(0));
    assert!(r.finished());
}

#[test]
fn retry_exhaustion_makes_ten_lookups_and_nine_waits() {
    let mut r = EnableRetry::new();
    let mut lookups = 0;
    let mut waits = 0;
    let mut last = None;
    while !r.finished() {
        lookups += 1;
        let a = r.on_lookup(None);
        if let EnableAction::Wait { .. } = a {
            waits += 1;
        }
        last = Some(a);
    }
    assert_eq!(lookups, 10);
    assert_eq!(waits, 9);
    assert_eq!(MAX_RETRIES, 10);
    assert_eq!(RETRY_DELAY_SECS, 2);
    assert_eq!(last, Some(EnableAction::GiveUp { list_devices: false }));
}
