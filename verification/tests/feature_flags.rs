use backend::error::ApiError;
use backend::flags::{
    assign_variant, evaluate_flags, is_in_rollout, parse_segments, parse_variants,
    plan_flag_update, prepare_new_flag, resolve_evaluation, rollout_bucket, segments_json,
    validate_event_name, validate_flag_key, validate_rollout, validate_variants, variants_json,
    CreateFlagRequest, EvaluationReason, FeatureFlag, FlagOverride, UpdateFlagRequest,
};
use backend::json::{JsonNumber, JsonValue};
use backend::segments::{matches_any_segment, matches_segment, validate_segments, UserSegmentProfile};
use backend::timestamp::Timestamp;
use backend::variant_map::VariantMap;
use chrono::Utc;
use sha2::{Digest, Sha256};
use uuid::Uuid;

fn now() -> Timestamp {
    let t = Utc::now();
    Timestamp { secs: t.timestamp(), nanos: t.timestamp_subsec_nanos() }
}

fn hours_ago(h: i64) -> Timestamp {
    let t = Utc::now() - chrono::Duration::hours(h);
    Timestamp { secs: t.timestamp(), nanos: t.timestamp_subsec_nanos() }
}

fn obj(members: &[(&str, i64)]) -> JsonValue {
    JsonValue::Object(
        members
            .iter()
            .map(|(k, v)| {
                let n = if *v < 0 { JsonNumber::NegInt(*v) } else { JsonNumber::PosInt(*v as u64) };
                (k.to_string(), JsonValue::Number(n))
            })
            .collect(),
    )
}

fn arr(items: &[&str]) -> JsonValue {
    JsonValue::Array(items.iter().map(|s| JsonValue::String(s.to_string())).collect())
}

fn sample_flag(key: &str, enabled: bool, rollout: i32, variants: JsonValue) -> FeatureFlag {
    sample_flag_with_segments(key, enabled, rollout, variants, arr(&[]))
}

fn sample_flag_with_segments(
    key: &str,
    enabled: bool,
    rollout: i32,
    variants: JsonValue,
    target_segments: JsonValue,
) -> FeatureFlag {
    FeatureFlag {
        id: 0,
        flag_key: key.to_string(),
        name: key.to_string(),
        description: None,
        enabled,
        rollout_percentage: rollout,
        variants,
        default_variant: Some("control".to_string()),
        target_segments,
        created_by: None,
    }
}

fn no_segments() -> UserSegmentProfile {
    UserSegmentProfile::default()
}

fn sample_override(enabled: bool, variant: Option<&str>, expires_at: Option<Timestamp>) -> FlagOverride {
    FlagOverride {
        id: 0,
        flag_id: 0,
        user_id: 0,
        enabled,
        variant: variant.map(str::to_string),
        reason: Some("qa".to_string()),
        created_by: None,
        created_at: now(),
        expires_at,
    }
}

fn message(e: ApiError) -> String {
    match e {
        ApiError::ValidationError(m) | ApiError::BadRequest(m) | ApiError::Conflict(m) => m,
    }
}

#[test]
fn bucket_is_stable_for_same_user_and_flag() {
    let user = Uuid::parse_str("11111111-1111-1111-1111-111111111111").unwrap().as_u128();
    let a = rollout_bucket(user, "new_matchmaking");
    let b = rollout_bucket(user, "new_matchmaking");
    assert_eq!(a, b);
    assert!(a < 100);
}

#[test]
fn bucket_differs_across_flags() {
    let user = Uuid::parse_str("11111111-1111-1111-1111-111111111111").unwrap().as_u128();
    // Extremely unlikely both 0-99 hashes collide for two salts; still valid if they do,
    // so we only assert the function is total.
    let a = rollout_bucket(user, "flag_a");
    let b = rollout_bucket(user, "flag_b");
    let _ = (a, b);
}

#[test]
fn rollout_zero_excludes_everyone() {
    let user = Uuid::new_v4().as_u128();
    assert!(!is_in_rollout(user, "any", 0));
}

#[test]
fn rollout_hundred_includes_everyone() {
    let user = Uuid::new_v4().as_u128();
    assert!(is_in_rollout(user, "any", 100));
}

#[test]
fn buckets_are_roughly_uniform() {
    let mut counts = [0u32; 100];
    for i in 0..10_000u128 {
        let user = Uuid::from_u128(i + 1).as_u128();
        counts[rollout_bucket(user, "uniform_flag") as usize] += 1;
    }
    let min = *counts.iter().min().unwrap();
    let max = *counts.iter().max().unwrap();
    // 10k users / 100 buckets = 100 expected. Allow a wide but non-degenerate band.
    assert!(min > 20, "min bucket count {min} too low");
    assert!(max < 250, "max bucket count {max} too high");
}

#[test]
fn disabled_flag_returns_disabled_without_override() {
    let flag = sample_flag("dark_mode", false, 100, obj(&[]));
    let user = Uuid::new_v4().as_u128();
    let (result, assign) = resolve_evaluation(&flag, user, None, None, now(), &no_segments());
    assert!(!result.enabled);
    assert_eq!(result.reason, EvaluationReason::Disabled);
    assert!(assign.is_none());
}

#[test]
fn override_wins_over_disabled_kill_switch() {
    let flag = sample_flag("dark_mode", false, 0, obj(&[]));
    let user = Uuid::new_v4().as_u128();
    let over = sample_override(true, Some("on"), None);
    let (result, _) = resolve_evaluation(&flag, user, Some(&over), None, now(), &no_segments());
    assert!(result.enabled);
    assert_eq!(result.reason, EvaluationReason::Override);
    assert_eq!(result.variant.as_deref(), Some("on"));
}

#[test]
fn override_can_force_flag_off() {
    let flag = sample_flag("full_rollout", true, 100, obj(&[]));
    let user = Uuid::new_v4().as_u128();
    let over = sample_override(false, None, None);
    let (result, _) = resolve_evaluation(&flag, user, Some(&over), None, now(), &no_segments());
    assert!(!result.enabled);
    assert_eq!(result.reason, EvaluationReason::Override);
}

#[test]
fn expired_override_is_ignored() {
    let flag = sample_flag("dark_mode", false, 100, obj(&[]));
    let user = Uuid::new_v4().as_u128();
    let over = sample_override(true, Some("on"), Some(hours_ago(1)));
    let (result, _) = resolve_evaluation(&flag, user, Some(&over), None, now(), &no_segments());
    assert!(!result.enabled);
    assert_eq!(result.reason, EvaluationReason::Disabled);
}

#[test]
fn not_in_rollout_when_percentage_is_below_bucket() {
    let flag = sample_flag("partial", true, 1, obj(&[]));
    // Find a user whose bucket is >= 1 (almost everyone).
    let user = (0u128..500)
        .find(|u| rollout_bucket(*u, "partial") >= 1)
        .expect("need a user outside 1% rollout");
    let (result, _) = resolve_evaluation(&flag, user, None, None, now(), &no_segments());
    assert!(!result.enabled);
    assert_eq!(result.reason, EvaluationReason::NotInRollout);
}

#[test]
fn percentage_rollout_enables_boolean_flag() {
    let flag = sample_flag("full_rollout", true, 100, obj(&[]));
    let user = Uuid::new_v4().as_u128();
    let (result, assign) = resolve_evaluation(&flag, user, None, None, now(), &no_segments());
    assert!(result.enabled);
    assert_eq!(result.reason, EvaluationReason::Percentage);
    assert_eq!(result.variant.as_deref(), Some("control"));
    assert!(assign.is_none());
}

#[test]
fn ab_assignment_is_sticky_when_existing() {
    let flag = sample_flag("checkout", true, 100, obj(&[("control", 50), ("treatment", 50)]));
    let user = Uuid::new_v4().as_u128();
    let (result, assign) =
        resolve_evaluation(&flag, user, None, Some("treatment"), now(), &no_segments());
    assert!(result.enabled);
    assert_eq!(result.reason, EvaluationReason::AbTest);
    assert_eq!(result.variant.as_deref(), Some("treatment"));
    assert!(assign.is_none(), "must not re-assign when sticky value exists");
}

#[test]
fn ab_assignment_is_stable_and_requests_persist() {
    let flag = sample_flag("checkout", true, 100, obj(&[("control", 50), ("treatment", 50)]));
    let user = Uuid::parse_str("aaaaaaaa-bbbb-cccc-dddd-eeeeeeeeeeee").unwrap().as_u128();
    let (first, assign_a) = resolve_evaluation(&flag, user, None, None, now(), &no_segments());
    let (second, assign_b) = resolve_evaluation(&flag, user, None, None, now(), &no_segments());
    assert_eq!(first.variant, second.variant);
    assert_eq!(first.reason, EvaluationReason::AbTest);
    assert!(assign_a.is_some());
    assert_eq!(assign_a, first.variant);
    assert_eq!(assign_a, assign_b);
}

#[test]
fn weighted_variant_respects_zero_weight() {
    let mut variants = VariantMap::new();
    variants.insert("control".to_string(), 0);
    variants.insert("treatment".to_string(), 100);
    let user = Uuid::new_v4().as_u128();
    let picked = assign_variant(user, "exp", &variants, Some("control"));
    assert_eq!(picked.as_deref(), Some("treatment"));
}

#[test]
fn validate_flag_key_rejects_bad_input() {
    assert!(validate_flag_key("ok_flag").is_ok());
    assert!(validate_flag_key("a").is_err());
    assert!(validate_flag_key("BadFlag").is_err());
    assert!(validate_flag_key("-leading").is_err());
    assert!(validate_flag_key("has space").is_err());
}

#[test]
fn ten_percent_rollout_enables_roughly_one_tenth_of_users() {
    let flag = sample_flag("gradual", true, 10, obj(&[]));
    let mut enabled_count = 0u32;
    for i in 0..1000u128 {
        let user = Uuid::from_u128(i + 1).as_u128();
        let (result, _) = resolve_evaluation(&flag, user, None, None, now(), &no_segments());
        if result.enabled {
            enabled_count += 1;
        }
    }
    // 1000 users at 10% rollout: expect ~100, allow +/- 2% (20 users).
    assert!(
        (80..=120).contains(&enabled_count),
        "expected ~100 enabled users out of 1000, got {enabled_count}"
    );
}

#[test]
fn full_rollout_with_gold_segment_only_enables_gold_tier_users() {
    let flag = sample_flag_with_segments("gold_perk", true, 100, obj(&[]), arr(&["stake_tier:gold"]));

    let gold = UserSegmentProfile {
        country_code: None,
        stake_tier: Some("Gold".to_string()),
        is_beta_tester: false,
    };
    let silver = UserSegmentProfile {
        country_code: None,
        stake_tier: Some("Silver".to_string()),
        is_beta_tester: false,
    };
    let none = UserSegmentProfile::default();

    for i in 0..50u128 {
        let user = Uuid::from_u128(i + 1).as_u128();
        let (gold_result, _) = resolve_evaluation(&flag, user, None, None, now(), &gold);
        let (silver_result, _) = resolve_evaluation(&flag, user, None, None, now(), &silver);
        let (none_result, _) = resolve_evaluation(&flag, user, None, None, now(), &none);
        assert!(gold_result.enabled, "gold-tier user {i} should be enabled");
        assert!(!silver_result.enabled, "silver-tier user {i} should not be enabled");
        assert_eq!(silver_result.reason, EvaluationReason::SegmentMismatch);
        assert!(!none_result.enabled, "user {i} with no tier should not be enabled");
    }
}

#[test]
fn matches_segment_checks_country_and_beta_tester() {
    let profile = UserSegmentProfile {
        country_code: Some("NG".to_string()),
        stake_tier: None,
        is_beta_tester: true,
    };
    assert!(matches_segment("country:NG", &profile));
    assert!(matches_segment("country:ng", &profile));
    assert!(!matches_segment("country:US", &profile));
    assert!(matches_segment("beta_tester:true", &profile));
    assert!(!matches_segment("beta_tester:false", &profile));
    assert!(!matches_segment("unknown:x", &profile));
}

#[test]
fn empty_segment_list_matches_everyone() {
    assert!(matches_any_segment(&[], &no_segments()));
}

#[test]
fn validate_segments_rejects_unknown_prefix() {
    assert!(validate_segments(&["country:NG".to_string()]).is_ok());
    assert!(validate_segments(&["stake_tier:gold".to_string()]).is_ok());
    assert!(validate_segments(&["beta_tester:true".to_string()]).is_ok());
    assert!(validate_segments(&["region:west".to_string()]).is_err());
    assert!(validate_segments(&["country:".to_string()]).is_err());
}

// ─── Further cases ──────────────────────────────────────────────────────────

#[test]
fn bucket_is_sha256_of_key_zero_and_id_bytes() {
    let user = Uuid::parse_str("11111111-2222-3333-4444-555555555555").unwrap();
    let mut h = Sha256::new();
    h.update(b"new_matchmaking");
    h.update(b"\0");
    h.update(user.as_bytes());
    let d = h.finalize();
    let expected = (u32::from_be_bytes([d[0], d[1], d[2], d[3]]) % 100) as u8;
    assert_eq!(rollout_bucket(user.as_u128(), "new_matchmaking"), expected);
}

#[test]
fn rollout_between_bounds_compares_bucket() {
    let user = 42u128;
    let b = rollout_bucket(user, "k") as i32;
    assert!(!is_in_rollout(user, "k", b));
    assert!(is_in_rollout(user, "k", b + 1));
    assert!(!is_in_rollout(user, "k", -5));
    assert!(is_in_rollout(user, "k", 250));
}

#[test]
fn variant_pick_follows_cumulative_weights() {
    let user = Uuid::parse_str("aaaaaaaa-bbbb-cccc-dddd-eeeeeeeeeeee").unwrap();
    let mut variants = VariantMap::new();
    variants.insert("b".to_string(), 30);
    variants.insert("a".to_string(), 20);
    variants.insert("c".to_string(), -7);
    variants.insert("d".to_string(), 50);
    let mut h = Sha256::new();
    h.update(b"ab:exp");
    h.update(b"\0");
    h.update(user.as_bytes());
    let d = h.finalize();
    let pick = (u32::from_be_bytes([d[0], d[1], d[2], d[3]]) as i64) % 100;
    let expected = if pick < 20 { "a" } else if pick < 50 { "b" } else { "d" };
    assert_eq!(assign_variant(user.as_u128(), "exp", &variants, None).as_deref(), Some(expected));
}

#[test]
fn variant_map_sorts_and_replaces() {
    let mut m = VariantMap::new();
    m.insert("treatment".to_string(), 1);
    m.insert("control".to_string(), 2);
    m.insert("treatment".to_string(), 3);
    assert_eq!(m.len(), 2);
    let (k0, w0) = m.entry(0);
    let (k1, w1) = m.entry(1);
    assert_eq!((k0.as_str(), w0), ("control", 2));
    assert_eq!((k1.as_str(), w1), ("treatment", 3));
}

#[test]
fn insertion_order_does_not_change_assignment() {
    let mut a = VariantMap::new();
    a.insert("x".to_string(), 10);
    a.insert("y".to_string(), 90);
    let mut b = VariantMap::new();
    b.insert("y".to_string(), 90);
    b.insert("x".to_string(), 10);
    for u in 0..200u128 {
        assert_eq!(assign_variant(u, "f", &a, None), assign_variant(u, "f", &b, None));
    }
}

#[test]
fn all_zero_weights_fall_back_to_default() {
    let mut m = VariantMap::new();
    m.insert("a".to_string(), 0);
    assert_eq!(assign_variant(1, "f", &m, Some("dflt")).as_deref(), Some("dflt"));
    assert_eq!(assign_variant(1, "f", &m, None), None);
}

#[test]
fn parse_variants_keeps_integer_members() {
    let v = JsonValue::Object(vec![
        ("a".to_string(), JsonValue::Number(JsonNumber::PosInt(5))),
        ("b".to_string(), JsonValue::Number(JsonNumber::Float(1.5f64.to_bits()))),
        ("c".to_string(), JsonValue::String("7".to_string())),
        ("d".to_string(), JsonValue::Number(JsonNumber::NegInt(-3))),
        ("e".to_string(), JsonValue::Number(JsonNumber::PosInt(u64::MAX))),
        ("f".to_string(), JsonValue::Number(JsonNumber::PosInt(4_294_967_297))),
    ]);
    let m = parse_variants(&v);
    assert_eq!(m.len(), 3);
    assert_eq!(m.entry(0), (&"a".to_string(), 5));
    assert_eq!(m.entry(1), (&"d".to_string(), -3));
    assert_eq!(m.entry(2), (&"f".to_string(), 1));
    assert_eq!(parse_variants(&JsonValue::Null).len(), 0);
}

#[test]
fn parse_segments_keeps_strings() {
    let v = JsonValue::Array(vec![
        JsonValue::String("country:NG".to_string()),
        JsonValue::Bool(true),
        JsonValue::String("beta_tester:true".to_string()),
    ]);
    assert_eq!(parse_segments(&v), vec!["country:NG".to_string(), "beta_tester:true".to_string()]);
    assert!(parse_segments(&JsonValue::Object(vec![])).is_empty());
}

#[test]
fn json_round_trip_of_stored_values() {
    let mut m = VariantMap::new();
    m.insert("on".to_string(), 3);
    m.insert("off".to_string(), -1);
    let j = variants_json(&m);
    let back = parse_variants(&j);
    assert_eq!(back.len(), 2);
    assert_eq!(back.entry(0), (&"off".to_string(), -1));
    let segs = vec!["country:NG".to_string()];
    assert_eq!(parse_segments(&segments_json(&segs)), segs);
}

#[test]
fn reason_names() {
    assert_eq!(EvaluationReason::Override.as_str(), "override");
    assert_eq!(EvaluationReason::Disabled.as_str(), "disabled");
    assert_eq!(EvaluationReason::NotInRollout.as_str(), "not_in_rollout");
    assert_eq!(EvaluationReason::SegmentMismatch.as_str(), "segment_mismatch");
    assert_eq!(EvaluationReason::AbTest.as_str(), "ab_test");
    assert_eq!(EvaluationReason::Percentage.as_str(), "percentage");
}

#[test]
fn boolean_flag_without_default_reports_on() {
    let mut flag = sample_flag("plain", true, 100, obj(&[]));
    flag.default_variant = None;
    let (result, _) = resolve_evaluation(&flag, 3, None, None, now(), &no_segments());
    assert_eq!(result.variant.as_deref(), Some("on"));
    assert_eq!(result.key, "plain");
    assert_eq!(result.bucket, rollout_bucket(3, "plain"));
}

#[test]
fn override_expiring_later_still_applies() {
    let flag = sample_flag("dark_mode", false, 0, obj(&[]));
    let later = Timestamp { secs: now().secs + 3600, nanos: 0 };
    let over = sample_override(true, None, Some(later));
    let (result, _) = resolve_evaluation(&flag, 1, Some(&over), None, now(), &no_segments());
    assert_eq!(result.reason, EvaluationReason::Override);
    let at = Timestamp { secs: 100, nanos: 5 };
    let exact = sample_override(true, None, Some(at));
    let (result, _) = resolve_evaluation(&flag, 1, Some(&exact), None, at, &no_segments());
    assert_eq!(result.reason, EvaluationReason::Disabled, "an override expiring now has expired");
}

#[test]
fn evaluate_flags_uses_each_flags_override_and_assignment() {
    let mut a = sample_flag("a_flag", false, 100, obj(&[]));
    a.id = 1;
    let mut b = sample_flag("b_flag", true, 100, obj(&[("x", 1), ("y", 1)]));
    b.id = 2;
    let mut o1 = sample_override(false, None, None);
    o1.flag_id = 1;
    let mut o2 = sample_override(true, Some("forced"), None);
    o2.flag_id = 1;
    let flags = vec![a, b];
    let out = evaluate_flags(
        &flags,
        9,
        &vec![o1, o2],
        &vec![(2, "y".to_string())],
        now(),
        &no_segments(),
    );
    assert_eq!(out.len(), 2);
    assert_eq!(out[0].0.reason, EvaluationReason::Override);
    assert_eq!(out[0].0.variant.as_deref(), Some("forced"), "the last override wins");
    assert_eq!(out[1].0.variant.as_deref(), Some("y"));
    assert!(out[1].1.is_none());
}

#[test]
fn rollout_and_variant_errors() {
    assert!(validate_rollout(0).is_ok());
    assert!(validate_rollout(100).is_ok());
    assert_eq!(message(validate_rollout(101).unwrap_err()), "rollout_percentage must be between 0 and 100");
    assert!(validate_rollout(-1).is_err());
    let mut neg = VariantMap::new();
    neg.insert("a".to_string(), -1);
    neg.insert("b".to_string(), 5);
    assert_eq!(message(validate_variants(&neg).unwrap_err()), "Variant weights must be >= 0");
    let mut zero = VariantMap::new();
    zero.insert("a".to_string(), 0);
    assert_eq!(
        message(validate_variants(&zero).unwrap_err()),
        "At least one variant must have a weight > 0"
    );
    assert!(validate_variants(&VariantMap::new()).is_ok());
}

#[test]
fn flag_key_rules() {
    assert!(validate_flag_key("0start").is_ok());
    assert!(validate_flag_key("a-b_c").is_ok());
    assert!(validate_flag_key(&"a".repeat(100)).is_ok());
    assert!(validate_flag_key(&"a".repeat(101)).is_err());
    assert!(validate_flag_key("_lead").is_err());
    assert!(validate_flag_key("caf\u{e9}").is_err());
    let e = validate_flag_key("X").unwrap_err();
    assert!(matches!(e, ApiError::BadRequest(_)));
    assert_eq!(
        message(e),
        "Flag key must be 2\u{2013}100 chars: lowercase alphanumeric, hyphens, or underscores, starting with a letter or digit"
    );
}

#[test]
fn segment_error_names_first_bad_segment() {
    let e = validate_segments(&[
        "country:NG".to_string(),
        "region:west".to_string(),
        "planet:".to_string(),
    ])
    .unwrap_err();
    assert_eq!(
        message(e),
        "Unsupported segment 'region:west': expected country:<CODE>, stake_tier:<tier>, or beta_tester:<true|false>"
    );
}

#[test]
fn beta_and_tier_matching() {
    let p = UserSegmentProfile { country_code: None, stake_tier: Some("gold".to_string()), is_beta_tester: false };
    assert!(matches_segment("stake_tier:GOLD", &p));
    assert!(matches_segment("beta_tester:false", &p));
    assert!(matches_segment("beta_tester:nope", &p));
    assert!(!matches_segment("beta_tester:TRUE", &p));
    assert!(!matches_segment("country:NG", &p));
    assert!(matches_any_segment(&["region:x".to_string(), "stake_tier:Gold".to_string()], &p));
    assert!(!matches_any_segment(&["region:x".to_string()], &p));
}

#[test]
fn event_names_must_be_short_and_non_blank() {
    assert!(validate_event_name("purchase").is_ok());
    assert!(validate_event_name("   ").is_err());
    assert!(validate_event_name("").is_err());
    assert!(validate_event_name(&"e".repeat(100)).is_ok());
    let e = validate_event_name(&"e".repeat(101)).unwrap_err();
    assert_eq!(message(e), "event_name must be 1\u{2013}100 characters");
}

#[test]
fn new_flag_defaults_and_checks() {
    let req = CreateFlagRequest {
        key: "new_flag".to_string(),
        name: "New".to_string(),
        description: None,
        enabled: None,
        rollout_percentage: None,
        variants: None,
        default_variant: None,
        target_segments: None,
    };
    let vals = prepare_new_flag(&req).unwrap();
    assert!(!vals.enabled);
    assert_eq!(vals.rollout_percentage, 0);
    assert!(matches!(vals.variants, JsonValue::Object(ref m) if m.is_empty()));
    assert!(matches!(vals.target_segments, JsonValue::Array(ref a) if a.is_empty()));

    let bad_key = CreateFlagRequest { key: "Bad".to_string(), rollout_percentage: Some(500), ..req };
    assert!(message(prepare_new_flag(&bad_key).unwrap_err()).starts_with("Flag key must be"));
    let bad_rollout = CreateFlagRequest { key: "ok_key".to_string(), ..bad_key };
    assert_eq!(
        message(prepare_new_flag(&bad_rollout).unwrap_err()),
        "rollout_percentage must be between 0 and 100"
    );
    let bad_segments = CreateFlagRequest {
        rollout_percentage: Some(10),
        target_segments: Some(vec!["region:x".to_string()]),
        ..bad_rollout
    };
    assert!(message(prepare_new_flag(&bad_segments).unwrap_err()).starts_with("Unsupported segment"));
}

#[test]
fn update_merges_and_clears_default_variant() {
    let existing = sample_flag("checkout", true, 40, obj(&[("a", 1)]));
    let mut variants = VariantMap::new();
    variants.insert("b".to_string(), 2);
    let req = UpdateFlagRequest {
        name: None,
        description: Some("desc".to_string()),
        enabled: Some(false),
        rollout_percentage: None,
        variants: Some(variants),
        default_variant: Some(String::new()),
        target_segments: None,
    };
    let u = plan_flag_update(existing, req).unwrap();
    assert_eq!(u.name, "checkout");
    assert_eq!(u.description.as_deref(), Some("desc"));
    assert!(!u.enabled);
    assert_eq!(u.rollout_percentage, 40);
    assert_eq!(parse_variants(&u.variants).entry(0), (&"b".to_string(), 2));
    assert_eq!(u.default_variant, None);
    assert!(matches!(u.target_segments, JsonValue::Array(ref a) if a.is_empty()));

    let existing = sample_flag("checkout", true, 40, obj(&[]));
    let req = UpdateFlagRequest {
        name: None,
        description: None,
        enabled: None,
        rollout_percentage: Some(101),
        variants: None,
        default_variant: None,
        target_segments: None,
    };
    assert!(plan_flag_update(existing, req).is_err());
}
