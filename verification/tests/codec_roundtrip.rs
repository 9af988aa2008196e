use megamaid::codec::{encode_plan, escape, parse_plan, unescape};
use megamaid::models::{CleanupAction, CleanupEntry, CleanupPlan};
use megamaid::text::{parse_u64, u64_to_dec};

fn entry(path: &str, size: u64, action: CleanupAction) -> CleanupEntry {
    CleanupEntry {
        path: path.to_string(),
        size,
        modified: "2025-11-19T12:00:00+00:00".to_string(),
        action,
        rule_name: "build_artifact".to_string(),
        reason: "Build artifact".to_string(),
    }
}

#[test]
fn plan_round_trips_through_the_document_text() {
    let plan = CleanupPlan {
        version: "1.0".to_string(),
        created_at: "2025-11-19T12:00:00+00:00".to_string(),
        base_path: "/scan/root".to_string(),
        entries: vec![
            entry("target", 1_000_000, CleanupAction::Delete),
            entry("big.bin", 42, CleanupAction::Review),
            entry("hold me", 7, CleanupAction::Keep),
        ],
    };

    let text = encode_plan(&plan);
    let loaded = parse_plan(&text).expect("the rendering must parse");

    assert_eq!(loaded, plan);
}

#[test]
fn plan_round_trip_survives_special_characters() {
    let mut tricky = entry("odd\\name\nwith\rbreaks", 3, CleanupAction::Review);
    tricky.reason = "line one\nline two \\ backslash".to_string();

    let plan = CleanupPlan {
        version: "1.0".to_string(),
        created_at: String::new(),
        base_path: "/r".to_string(),
        entries: vec![tricky],
    };

    let text = encode_plan(&plan);
    let loaded = parse_plan(&text).expect("the rendering must parse");

    assert_eq!(loaded, plan);
}

#[test]
fn empty_plan_round_trips() {
    let plan = CleanupPlan {
        version: "1.0".to_string(),
        created_at: "2025-11-19T12:00:00+00:00".to_string(),
        base_path: "/r".to_string(),
        entries: Vec::new(),
    };

    let text = encode_plan(&plan);
    let loaded = parse_plan(&text).expect("the rendering must parse");

    assert_eq!(loaded, plan);
}

#[test]
fn truncated_document_is_rejected() {
    let plan = CleanupPlan {
        version: "1.0".to_string(),
        created_at: "2025-11-19T12:00:00+00:00".to_string(),
        base_path: "/r".to_string(),
        entries: vec![entry("target", 5, CleanupAction::Delete)],
    };

    let text = encode_plan(&plan);
    let truncated = &text[..text.len() - 10];

    assert!(parse_plan(truncated).is_none());
}

#[test]
fn garbage_is_rejected() {
    assert!(parse_plan("not a plan document").is_none());
    assert!(parse_plan("").is_none());
}

#[test]
fn escaping_round_trips() {
    let cases = ["", "plain", "a\\b", "line\nbreak", "car\rreturn", "\\n literal"];
    for c in cases {
        let escaped = escape(c);
        assert!(!escaped.contains('\n'));
        assert_eq!(unescape(&escaped).as_deref(), Some(c));
    }
}

#[test]
fn unescape_rejects_dangling_escape() {
    assert_eq!(unescape("oops\\"), None);
    assert_eq!(unescape("bad\\q"), None);
}

#[test]
fn decimal_round_trips() {
    for n in [0u64, 1, 9, 10, 99, 12345, u64::MAX] {
        let text = u64_to_dec(n);
        assert_eq!(parse_u64(&text), Some(n));
    }
    assert_eq!(u64_to_dec(12345), "12345");
}

#[test]
fn decimal_parse_is_strict() {
    assert_eq!(parse_u64(""), None);
    assert_eq!(parse_u64("12a"), None);
    assert_eq!(parse_u64("-1"), None);
    assert_eq!(parse_u64("18446744073709551615"), Some(u64::MAX));
    assert_eq!(parse_u64("18446744073709551616"), None);
}
