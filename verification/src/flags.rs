//! Feature flag evaluation.
//!
//! Priority: a per-user override that has not expired, then the kill switch
//! (`enabled = false`), then the percentage rollout, then segment targeting,
//! then the sticky or newly assigned A/B variant, and otherwise plain "on".
//! Rollout buckets and variant picks hash the flag key with the user's id
//! (SHA-256), so a user always lands in the same place for a given flag.
use vstd::prelude::*;
use vstd::utf8::encode_utf8;
use crate::digest::{extend_bytes, sha256, sha256_digest, uuid_bytes, uuid_to_bytes};
use crate::error::ApiError;
use crate::json::{as_i64_spec, as_str_spec, i32_to_json, int_json, JsonValue};
use crate::segments::{matches_any_segment, matches_any_segment_spec, views, UserSegmentProfile};
use crate::text::owned;
use crate::timestamp::{at_or_before_spec, Timestamp};
use crate::variant_map::{pairs_to_map, sorted_entries, VariantMap};

verus! {

// ─── Hashing, buckets and rollout ───────────────────────────────────────────

/// The first four bytes of `d` as a big-endian `u32`.
pub open spec fn be_u32(d: Seq<u8>) -> u32 {
    (d[0] as int * 16777216 + d[1] as int * 65536 + d[2] as int * 256 + d[3] as int) as u32
}

/// The hash of `salt`, a zero byte and the bytes of `user_id`, as a `u32`.
pub open spec fn salted_hash(salt: Seq<u8>, user_id: u128) -> u32 {
    be_u32(sha256_digest(salt + seq![0u8] + uuid_bytes(user_id)))
}

/// The rollout bucket (0–99) of `user_id` for the flag `flag_key`.
pub open spec fn bucket_spec(user_id: u128, flag_key: Seq<char>) -> u8 {
    (salted_hash(encode_utf8(flag_key), user_id) % 100) as u8
}

/// `user_id` falls inside a rollout of `percentage` percent.
pub open spec fn in_rollout_spec(user_id: u128, flag_key: Seq<char>, percentage: i32) -> bool {
    if percentage <= 0 {
        false
    } else if percentage >= 100 {
        true
    } else {
        (bucket_spec(user_id, flag_key) as i32) < percentage
    }
}

/// SHA-256 of `salt`, a zero byte and the id's bytes, first four bytes big-endian.
fn hash_to_u32(salt: &str, user_id: u128) -> (r: u32)
    ensures
        r == salted_hash(encode_utf8(salt@), user_id),
{
    let mut data: Vec<u8> = Vec::new();
    extend_bytes(&mut data, salt.as_bytes());
    data.push(0u8);
    let id_bytes = uuid_to_bytes(user_id);
    extend_bytes(&mut data, id_bytes.as_slice());
    assert(data@ =~= encode_utf8(salt@) + seq![0u8] + uuid_bytes(user_id));
    let d = sha256(data.as_slice());
    (d[0] as u32) * 16777216 + (d[1] as u32) * 65536 + (d[2] as u32) * 256 + (d[3] as u32)
}

/// Stable 0–99 bucket for `(flag_key, user_id)`.
pub fn rollout_bucket(user_id: u128, flag_key: &str) -> (r: u8)
    ensures
        r == bucket_spec(user_id, flag_key@),
        r < 100,
{
    (hash_to_u32(flag_key, user_id) % 100) as u8
}

/// Whether `user_id` is inside a `percentage` rollout of `flag_key`:
/// never at 0 or below, always at 100 or above, else by bucket.
pub fn is_in_rollout(user_id: u128, flag_key: &str, percentage: i32) -> (r: bool)
    ensures
        r == in_rollout_spec(user_id, flag_key@, percentage),
{
    if percentage <= 0 {
        return false;
    }
    if percentage >= 100 {
        return true;
    }
    (rollout_bucket(user_id, flag_key) as i32) < percentage
}

// ─── Weighted variant assignment ────────────────────────────────────────────

/// A weight, with negative weights counted as zero.
pub open spec fn nonneg(w: i32) -> int {
    if w < 0 {
        0
    } else {
        w as int
    }
}

/// Sum of the (non-negative parts of the) weights.
pub open spec fn weight_sum(s: Seq<(Seq<char>, i32)>) -> int
    decreases s.len(),
{
    if s.len() == 0 {
        0
    } else {
        weight_sum(s.drop_last()) + nonneg(s.last().1)
    }
}

/// The variant whose cumulative weight range holds `pick`, scanning in order.
pub open spec fn pick_variant(s: Seq<(Seq<char>, i32)>, pick: int) -> Option<Seq<char>>
    decreases s.len(),
{
    if s.len() == 0 {
        None
    } else if pick < nonneg(s[0].1) {
        Some(s[0].0)
    } else {
        pick_variant(s.drop_first(), pick - nonneg(s[0].1))
    }
}

/// The salt of the A/B hash: `"ab:"` followed by the flag key.
pub open spec fn ab_salt(flag_key: Seq<char>) -> Seq<u8> {
    encode_utf8("ab:"@ + flag_key)
}

/// The variant `assign_variant` picks from `entries` (in iteration order).
pub open spec fn assign_spec(
    user_id: u128,
    flag_key: Seq<char>,
    entries: Seq<(Seq<char>, i32)>,
    default_variant: Option<Seq<char>>,
) -> Option<Seq<char>> {
    let total = weight_sum(entries);
    if total <= 0 {
        default_variant
    } else {
        let pick = salted_hash(ab_salt(flag_key), user_id) as int % total;
        match pick_variant(entries, pick) {
            Some(name) => Some(name),
            None => if entries.len() > 0 {
                Some(entries[0].0)
            } else {
                default_variant
            },
        }
    }
}

proof fn lemma_weight_sum_bound(s: Seq<(Seq<char>, i32)>)
    ensures
        0 <= weight_sum(s) <= s.len() * 2147483647,
    decreases s.len(),
{
    if s.len() > 0 {
        lemma_weight_sum_bound(s.drop_last());
    }
}

proof fn lemma_weight_sum_take(s: Seq<(Seq<char>, i32)>, i: int)
    requires
        0 <= i < s.len(),
    ensures
        weight_sum(s.take(i + 1)) == weight_sum(s.take(i)) + nonneg(s[i].1),
{
    assert(s.take(i + 1).drop_last() =~= s.take(i));
}

proof fn lemma_pick_step(s: Seq<(Seq<char>, i32)>, i: int, x: int)
    requires
        0 <= i < s.len(),
    ensures
        pick_variant(s.skip(i), x) == if x < nonneg(s[i].1) {
            Some(s[i].0)
        } else {
            pick_variant(s.skip(i + 1), x - nonneg(s[i].1))
        },
{
    assert(s.skip(i).drop_first() =~= s.skip(i + 1));
}

/// Picks a weighted variant, visiting names in the map's (ascending) order.
pub fn assign_variant(
    user_id: u128,
    flag_key: &str,
    variants: &VariantMap,
    default_variant: Option<&str>,
) -> (r: Option<String>)
    requires
        variants.entries().len() <= u32::MAX,
    ensures
        r matches Some(v) ==> assign_spec(
            user_id,
            flag_key@,
            variants.entries(),
            match default_variant {
                Some(d) => Some(d@),
                None => None,
            },
        ) == Some(v@),
        r is None ==> assign_spec(
            user_id,
            flag_key@,
            variants.entries(),
            match default_variant {
                Some(d) => Some(d@),
                None => None,
            },
        ) is None,
{
    let ghost s = variants.entries();
    let n = variants.len();
    let mut total: i64 = 0;
    let mut i: usize = 0;
    while i < n
        invariant
            s == variants.entries(),
            n == s.len(),
            n <= u32::MAX,
            i <= n,
            total == weight_sum(s.take(i as int)),
        decreases n - i,
    {
        let (_, w) = variants.entry(i);
        proof {
            lemma_weight_sum_take(s, i as int);
            lemma_weight_sum_bound(s.take(i + 1));
            assert((i + 1) * 2147483647 <= 4294967296 * 2147483647) by (nonlinear_arith)
                requires
                    i + 1 <= 4294967296,
            ;
        }
        let nw: i64 = if w < 0 {
            0
        } else {
            w as i64
        };
        total = total + nw;
        i = i + 1;
    }
    assert(s.take(n as int) =~= s);
    if total <= 0 {
        return match default_variant {
            Some(d) => Some(crate::text::owned(d)),
            None => None,
        };
    }
    let mut salt = crate::text::owned("ab:");
    salt.append(flag_key);
    let pick: i64 = (hash_to_u32(salt.as_str(), user_id) as i64) % total;
    assert(pick == salted_hash(ab_salt(flag_key@), user_id) as int % weight_sum(s));
    let mut acc: i64 = 0;
    let mut j: usize = 0;
    assert(s.skip(0) =~= s);
    while j < n
        invariant
            s == variants.entries(),
            n == s.len(),
            n <= u32::MAX,
            j <= n,
            total == weight_sum(s),
            0 <= pick < total,
            pick == salted_hash(ab_salt(flag_key@), user_id) as int % weight_sum(s),
            acc == weight_sum(s.take(j as int)),
            acc <= pick,
            pick_variant(s, pick as int) == pick_variant(s.skip(j as int), pick - acc),
        decreases n - j,
    {
        let (name, w) = variants.entry(j);
        proof {
            lemma_weight_sum_take(s, j as int);
            lemma_weight_sum_bound(s.take(j + 1));
            assert((j + 1) * 2147483647 <= 4294967296 * 2147483647) by (nonlinear_arith)
                requires
                    j + 1 <= 4294967296,
            ;
            lemma_pick_step(s, j as int, pick - acc);
        }
        let nw: i64 = if w < 0 {
            0
        } else {
            w as i64
        };
        acc = acc + nw;
        if pick < acc {
            let picked = name.clone();
            assert(pick_variant(s, pick as int) == Some(s[j as int].0));
            assert(picked@ == s[j as int].0);
            return Some(picked);
        }
        j = j + 1;
    }
    assert(s.skip(n as int) =~= Seq::<(Seq<char>, i32)>::empty());
    if n > 0 {
        let (first, _) = variants.entry(0);
        Some(first.clone())
    } else {
        match default_variant {
            Some(d) => Some(crate::text::owned(d)),
            None => None,
        }
    }
}


// ─── Stored JSON ────────────────────────────────────────────────────────────

/// The `(name, weight)` pairs of an object's integer members, in order,
/// each weight cut to `i32` as `n as i32` does.
pub open spec fn weight_pairs(members: Seq<(String, JsonValue)>) -> Seq<(Seq<char>, i32)>
    decreases members.len(),
{
    if members.len() == 0 {
        Seq::empty()
    } else {
        let rest = weight_pairs(members.drop_last());
        match as_i64_spec(members.last().1) {
            Some(n) => rest.push((members.last().0@, #[verifier::truncate] (n as i32))),
            None => rest,
        }
    }
}

/// The variant map stored in `value`: its integer members (later ones win)
/// when it is an object, else nothing.
pub open spec fn variants_map_spec(value: JsonValue) -> Map<Seq<char>, i32> {
    match value {
        JsonValue::Object(members) => pairs_to_map(weight_pairs(members@)),
        _ => Map::empty(),
    }
}

/// Number of members of an object (0 for any other value).
pub open spec fn member_count(value: JsonValue) -> nat {
    match value {
        JsonValue::Object(members) => members@.len(),
        _ => 0,
    }
}

/// The string items of an array, in order.
pub open spec fn string_items(items: Seq<JsonValue>) -> Seq<Seq<char>>
    decreases items.len(),
{
    if items.len() == 0 {
        Seq::empty()
    } else {
        let rest = string_items(items.drop_last());
        match as_str_spec(items.last()) {
            Some(s) => rest.push(s),
            None => rest,
        }
    }
}

/// The segments stored in `value`: its string items when it is an array.
pub open spec fn segments_spec(value: JsonValue) -> Seq<Seq<char>> {
    match value {
        JsonValue::Array(items) => string_items(items@),
        _ => Seq::empty(),
    }
}

/// Reads the variant weights stored in a flag's `variants` JSON.
pub fn parse_variants(value: &JsonValue) -> (r: VariantMap)
    ensures
        r.wf(),
        r@ == variants_map_spec(*value),
        r.entries().len() <= member_count(*value),
{
    let mut map = VariantMap::new();
    match value {
        JsonValue::Object(members) => {
            let mut i: usize = 0;
            assert(members@.take(0) =~= Seq::<(String, JsonValue)>::empty());
            while i < members.len()
                invariant
                    i <= members@.len(),
                    map.wf(),
                    map@ == pairs_to_map(weight_pairs(members@.take(i as int))),
                    map.entries().len() <= i,
                decreases members.len() - i,
            {
                let ghost before = members@.take(i as int);
                assert(members@.take(i + 1).drop_last() =~= before);
                assert(members@.take(i + 1).last() == members@[i as int]);
                match members[i].1.as_i64() {
                    Some(n) => {
                        proof {
                            map.lemma_view();
                        }
                        let w = #[verifier::truncate] (n as i32);
                        map.insert(members[i].0.clone(), w);
                        let ghost pair = (members@[i as int].0@, w);
                        assert(weight_pairs(members@.take(i + 1)) == weight_pairs(before).push(pair));
                        assert(weight_pairs(before).push(pair).drop_last() =~= weight_pairs(before));
                    },
                    None => {
                        assert(weight_pairs(members@.take(i + 1)) == weight_pairs(before));
                    },
                }
                i = i + 1;
            }
            assert(members@.take(members@.len() as int) =~= members@);
        },
        _ => {},
    }
    map
}

/// Reads the segments stored in a flag's `target_segments` JSON.
pub fn parse_segments(value: &JsonValue) -> (r: Vec<String>)
    ensures
        views(r@) == segments_spec(*value),
{
    let mut out: Vec<String> = Vec::new();
    match value {
        JsonValue::Array(items) => {
            let mut i: usize = 0;
            assert(items@.take(0) =~= Seq::<JsonValue>::empty());
            assert(views(out@) =~= Seq::<Seq<char>>::empty());
            while i < items.len()
                invariant
                    i <= items@.len(),
                    views(out@) == string_items(items@.take(i as int)),
                decreases items.len() - i,
            {
                let ghost before = items@.take(i as int);
                assert(items@.take(i + 1).drop_last() =~= before);
                assert(items@.take(i + 1).last() == items@[i as int]);
                match items[i].as_str() {
                    Some(s) => {
                        let ghost old_out = out@;
                        out.push(s.clone());
                        assert(views(out@) =~= views(old_out).push(s@));
                    },
                    None => {},
                }
                i = i + 1;
            }
            assert(items@.take(items@.len() as int) =~= items@);
        },
        _ => {
            assert(views(out@) =~= Seq::<Seq<char>>::empty());
        },
    }
    out
}

/// The JSON stored for a list of segments: an array of strings.
pub fn segments_json(segments: &[String]) -> (r: JsonValue)
    ensures
        r matches JsonValue::Array(items) && items@.len() == segments@.len() && forall|i: int|
            0 <= i < items@.len() ==> as_str_spec(#[trigger] items@[i]) == Some(segments@[i]@),
{
    let mut items: Vec<JsonValue> = Vec::new();
    let mut i: usize = 0;
    while i < segments.len()
        invariant
            i <= segments@.len(),
            items@.len() == i,
            forall|j: int| 0 <= j < i ==> as_str_spec(#[trigger] items@[j]) == Some(segments@[j]@),
        decreases segments.len() - i,
    {
        items.push(JsonValue::String(segments[i].clone()));
        i = i + 1;
    }
    JsonValue::Array(items)
}

/// The JSON stored for a variant map: an object of integer members, in
/// ascending name order.
pub fn variants_json(variants: &VariantMap) -> (r: JsonValue)
    ensures
        r matches JsonValue::Object(members) && members@.len() == variants.entries().len()
            && forall|i: int|
            0 <= i < members@.len() ==> (#[trigger] members@[i]).0@ == variants.entries()[i].0
                && members@[i].1 == int_json(variants.entries()[i].1),
{
    let mut members: Vec<(String, JsonValue)> = Vec::new();
    let mut i: usize = 0;
    while i < variants.len()
        invariant
            i <= variants.entries().len(),
            members@.len() == i,
            forall|j: int|
                0 <= j < i ==> (#[trigger] members@[j]).0@ == variants.entries()[j].0
                    && members@[j].1 == int_json(variants.entries()[j].1),
        decreases variants.entries().len() - i,
    {
        let (name, w) = variants.entry(i);
        members.push((name.clone(), i32_to_json(w)));
        i = i + 1;
    }
    JsonValue::Object(members)
}


// ─── Validation ─────────────────────────────────────────────────────────────

/// A character allowed in a flag key at the first (`first`) or a later position.
pub open spec fn flag_key_char_ok(c: char, first: bool) -> bool {
    ('a' <= c <= 'z') || ('0' <= c <= '9') || (!first && (c == '_' || c == '-'))
}

/// A flag key is 2–100 bytes of lower-case letters, digits, `_` and `-`,
/// starting with a letter or digit.
pub open spec fn valid_flag_key(key: Seq<char>) -> bool {
    &&& 2 <= encode_utf8(key).len() <= 100
    &&& forall|i: int| 0 <= i < key.len() ==> flag_key_char_ok(#[trigger] key[i], i == 0)
}

/// The message for a malformed flag key.
pub open spec fn flag_key_message() -> Seq<char> {
    "Flag key must be 2\u{2013}100 chars: lowercase alphanumeric, hyphens, or underscores, starting with a letter or digit"@
}

/// Checks the shape of a flag key.
pub fn validate_flag_key(key: &str) -> (r: Result<(), ApiError>)
    ensures
        r is Ok <==> valid_flag_key(key@),
        r matches Err(e) ==> e matches ApiError::BadRequest(m) && m@ == flag_key_message(),
{
    let len = key.as_bytes().len();
    let mut ok = 2 <= len && len <= 100;
    if ok {
        let v = crate::text::chars_of(key);
        let mut i: usize = 0;
        while ok && i < v.len()
            invariant
                v@ == key@,
                i <= v@.len(),
                ok ==> forall|j: int| 0 <= j < i ==> flag_key_char_ok(#[trigger] v@[j], j == 0),
                !ok ==> i < v@.len() && !flag_key_char_ok(v@[i as int], i == 0),
            decreases v.len() - i + (if ok { 1int } else { 0int }),
        {
            let c = v[i];
            let char_ok = ('a' <= c && c <= 'z') || ('0' <= c && c <= '9') || (i != 0 && (c == '_'
                || c == '-'));
            if !char_ok {
                ok = false;
            } else {
                i = i + 1;
            }
        }
    }
    if !ok {
        return Err(
            ApiError::BadRequest(
                owned(
                    "Flag key must be 2\u{2013}100 chars: lowercase alphanumeric, hyphens, or underscores, starting with a letter or digit",
                ),
            ),
        );
    }
    Ok(())
}

/// The message for a rollout outside 0–100.
pub open spec fn rollout_message() -> Seq<char> {
    "rollout_percentage must be between 0 and 100"@
}

/// A rollout percentage must lie in 0–100.
pub fn validate_rollout(percentage: i32) -> (r: Result<(), ApiError>)
    ensures
        r is Ok <==> 0 <= percentage <= 100,
        r matches Err(e) ==> e matches ApiError::BadRequest(m) && m@ == rollout_message(),
{
    if !(0 <= percentage && percentage <= 100) {
        return Err(ApiError::BadRequest(owned("rollout_percentage must be between 0 and 100")));
    }
    Ok(())
}

/// The message for a negative variant weight.
pub open spec fn negative_weight_message() -> Seq<char> {
    "Variant weights must be >= 0"@
}

/// The message for variants whose weights are all zero.
pub open spec fn zero_weights_message() -> Seq<char> {
    "At least one variant must have a weight > 0"@
}

/// Variants are valid when there are none, or when no weight is negative and
/// at least one is positive.
pub fn validate_variants(variants: &VariantMap) -> (r: Result<(), ApiError>)
    ensures
        r is Ok <==> variants.entries().len() == 0 || ((forall|i: int|
            0 <= i < variants.entries().len() ==> #[trigger] variants.entries()[i].1 >= 0)
            && exists|i: int|
            0 <= i < variants.entries().len() && #[trigger] variants.entries()[i].1 != 0),
        r matches Err(e) ==> e matches ApiError::BadRequest(m) && (if exists|i: int|
            0 <= i < variants.entries().len() && #[trigger] variants.entries()[i].1 < 0 {
            m@ == negative_weight_message()
        } else {
            m@ == zero_weights_message()
        }),
{
    let n = variants.len();
    if n == 0 {
        return Ok(());
    }
    let mut i: usize = 0;
    while i < n
        invariant
            n == variants.entries().len(),
            i <= n,
            forall|j: int| 0 <= j < i ==> #[trigger] variants.entries()[j].1 >= 0,
        decreases n - i,
    {
        let (_, w) = variants.entry(i);
        if w < 0 {
            return Err(ApiError::BadRequest(owned("Variant weights must be >= 0")));
        }
        i = i + 1;
    }
    let mut k: usize = 0;
    while k < n
        invariant
            n == variants.entries().len(),
            k <= n,
            forall|j: int| 0 <= j < n ==> #[trigger] variants.entries()[j].1 >= 0,
            forall|j: int| 0 <= j < k ==> #[trigger] variants.entries()[j].1 == 0,
        decreases n - k,
    {
        let (_, w) = variants.entry(k);
        if w != 0 {
            return Ok(());
        }
        k = k + 1;
    }
    Err(ApiError::BadRequest(owned("At least one variant must have a weight > 0")))
}

/// The message for an event name that is blank or too long.
pub open spec fn event_name_message() -> Seq<char> {
    "event_name must be 1\u{2013}100 characters"@
}

/// A tracked event's name must be non-blank and at most 100 bytes.
pub fn validate_event_name(event_name: &str) -> (r: Result<(), ApiError>)
    ensures
        r is Ok <==> crate::text::trim_spec(event_name@).len() > 0 && encode_utf8(event_name@).len()
            <= 100,
        r matches Err(e) ==> e matches ApiError::BadRequest(m) && m@ == event_name_message(),
{
    let v = crate::text::chars_of(event_name);
    let (a, b) = crate::text::trim_bounds(&v, v.len());
    assert(v@.take(v@.len() as int) =~= v@);
    if a == b || event_name.as_bytes().len() > 100 {
        return Err(ApiError::BadRequest(owned("event_name must be 1\u{2013}100 characters")));
    }
    Ok(())
}


// ─── Flags, overrides and results ───────────────────────────────────────────

/// Why a flag evaluated the way it did.
#[derive(Debug, Clone, Copy, PartialEq, Eq, Structural)]
pub enum EvaluationReason {
    Override,
    Disabled,
    NotInRollout,
    SegmentMismatch,
    AbTest,
    Percentage,
}

/// The name a reason is recorded under.
pub open spec fn reason_text(r: EvaluationReason) -> Seq<char> {
    match r {
        EvaluationReason::Override => "override"@,
        EvaluationReason::Disabled => "disabled"@,
        EvaluationReason::NotInRollout => "not_in_rollout"@,
        EvaluationReason::SegmentMismatch => "segment_mismatch"@,
        EvaluationReason::AbTest => "ab_test"@,
        EvaluationReason::Percentage => "percentage"@,
    }
}

impl EvaluationReason {
    /// The name the reason is recorded under.
    pub fn as_str(self) -> (r: &'static str)
        ensures
            r@ == reason_text(self),
    {
        match self {
            EvaluationReason::Override => "override",
            EvaluationReason::Disabled => "disabled",
            EvaluationReason::NotInRollout => "not_in_rollout",
            EvaluationReason::SegmentMismatch => "segment_mismatch",
            EvaluationReason::AbTest => "ab_test",
            EvaluationReason::Percentage => "percentage",
        }
    }
}

/// A stored feature flag, as the evaluation reads it.
#[derive(Debug)]
pub struct FeatureFlag {
    pub id: u128,
    pub flag_key: String,
    pub name: String,
    pub description: Option<String>,
    pub enabled: bool,
    pub rollout_percentage: i32,
    /// JSON object of variant name to weight.
    pub variants: JsonValue,
    pub default_variant: Option<String>,
    /// JSON array of segment strings.
    pub target_segments: JsonValue,
    pub created_by: Option<u128>,
}

/// A per-user override of a flag.
#[derive(Debug)]
pub struct FlagOverride {
    pub id: u128,
    pub flag_id: u128,
    pub user_id: u128,
    pub enabled: bool,
    pub variant: Option<String>,
    pub reason: Option<String>,
    pub created_by: Option<u128>,
    pub created_at: Timestamp,
    pub expires_at: Option<Timestamp>,
}

/// The evaluation of one flag for one user.
#[derive(Debug)]
pub struct EvaluationResult {
    pub key: String,
    pub enabled: bool,
    pub variant: Option<String>,
    pub reason: EvaluationReason,
    pub bucket: u8,
}

/// Number of evaluations recorded with one reason.
#[derive(Debug)]
pub struct ReasonCount {
    pub reason: String,
    pub count: i64,
}

/// Number of evaluations, and of distinct users, that got one variant.
#[derive(Debug)]
pub struct VariantCount {
    pub variant: String,
    pub count: i64,
    pub unique_users: i64,
}

/// The text of an optional string.
pub open spec fn opt_str(o: Option<String>) -> Option<Seq<char>> {
    match o {
        Some(s) => Some(s@),
        None => None,
    }
}

/// A copy of an optional string.
pub fn clone_opt(o: &Option<String>) -> (r: Option<String>)
    ensures
        opt_str(r) == opt_str(*o),
{
    match o {
        Some(s) => Some(s.clone()),
        None => None,
    }
}

/// The outcome of evaluating a flag for one user, as values.
pub struct Decision {
    pub enabled: bool,
    pub variant: Option<Seq<char>>,
    pub reason: EvaluationReason,
    /// A newly picked A/B variant to persist as the user's sticky assignment.
    pub assignment: Option<Seq<char>>,
}

/// The override applies at `now`: it has no expiry, or expires after `now`.
pub open spec fn override_active(o: FlagOverride, now: Timestamp) -> bool {
    match o.expires_at {
        Some(exp) => !at_or_before_spec(exp, now),
        None => true,
    }
}

/// Evaluation priority: active override, kill switch, rollout, segments,
/// sticky or new A/B variant, plain "on".
pub open spec fn resolve_spec(
    flag: FeatureFlag,
    user_id: u128,
    user_override: Option<FlagOverride>,
    existing_assignment: Option<Seq<char>>,
    now: Timestamp,
    profile: UserSegmentProfile,
) -> Decision {
    let default = opt_str(flag.default_variant);
    let entries = sorted_entries(variants_map_spec(flag.variants));
    if user_override is Some && override_active(user_override->0, now) {
        Decision {
            enabled: user_override->0.enabled,
            variant: opt_str(user_override->0.variant),
            reason: EvaluationReason::Override,
            assignment: None,
        }
    } else if !flag.enabled {
        Decision {
            enabled: false,
            variant: default,
            reason: EvaluationReason::Disabled,
            assignment: None,
        }
    } else if !in_rollout_spec(user_id, flag.flag_key@, flag.rollout_percentage) {
        Decision {
            enabled: false,
            variant: default,
            reason: EvaluationReason::NotInRollout,
            assignment: None,
        }
    } else if !matches_any_segment_spec(segments_spec(flag.target_segments), profile) {
        Decision {
            enabled: false,
            variant: default,
            reason: EvaluationReason::SegmentMismatch,
            assignment: None,
        }
    } else if entries.len() > 0 {
        match existing_assignment {
            Some(v) => Decision {
                enabled: true,
                variant: Some(v),
                reason: EvaluationReason::AbTest,
                assignment: None,
            },
            None => {
                let picked = assign_spec(user_id, flag.flag_key@, entries, default);
                Decision {
                    enabled: true,
                    variant: picked,
                    reason: EvaluationReason::AbTest,
                    assignment: picked,
                }
            },
        }
    } else {
        Decision {
            enabled: true,
            variant: if default is Some {
                default
            } else {
                Some("on"@)
            },
            reason: EvaluationReason::Percentage,
            assignment: None,
        }
    }
}

/// `r` is the evaluation of `flag` that [`resolve_spec`] describes.
pub open spec fn evaluation_matches(
    r: (EvaluationResult, Option<String>),
    flag: FeatureFlag,
    user_id: u128,
    user_override: Option<FlagOverride>,
    existing_assignment: Option<Seq<char>>,
    now: Timestamp,
    profile: UserSegmentProfile,
) -> bool {
    let d = resolve_spec(flag, user_id, user_override, existing_assignment, now, profile);
    &&& r.0.key@ == flag.flag_key@
    &&& r.0.bucket == bucket_spec(user_id, flag.flag_key@)
    &&& r.0.enabled == d.enabled
    &&& opt_str(r.0.variant) == d.variant
    &&& r.0.reason == d.reason
    &&& opt_str(r.1) == d.assignment
}

/// The override a reference points at.
pub open spec fn override_of(o: Option<&FlagOverride>) -> Option<FlagOverride> {
    match o {
        Some(x) => Some(*x),
        None => None,
    }
}

/// The text of an optional string slice.
pub open spec fn opt_text(o: Option<&str>) -> Option<Seq<char>> {
    match o {
        Some(x) => Some(x@),
        None => None,
    }
}

/// Resolves a flag for one user. Returns the evaluation and, when a new A/B
/// variant was picked, that variant for the caller to persist as sticky.
pub fn resolve_evaluation(
    flag: &FeatureFlag,
    user_id: u128,
    user_override: Option<&FlagOverride>,
    existing_assignment: Option<&str>,
    now: Timestamp,
    profile: &UserSegmentProfile,
) -> (r: (EvaluationResult, Option<String>))
    requires
        member_count(flag.variants) <= u32::MAX,
    ensures
        evaluation_matches(
            r,
            *flag,
            user_id,
            override_of(user_override),
            opt_text(existing_assignment),
            now,
            *profile,
        ),
{
    let bucket = rollout_bucket(user_id, flag.flag_key.as_str());
    let variants = parse_variants(&flag.variants);
    proof {
        variants.lemma_entries_canonical();
    }

    if let Some(over) = user_override {
        let expired = match &over.expires_at {
            Some(exp) => exp.at_or_before(&now),
            None => false,
        };
        if !expired {
            return (
                EvaluationResult {
                    key: flag.flag_key.clone(),
                    enabled: over.enabled,
                    variant: clone_opt(&over.variant),
                    reason: EvaluationReason::Override,
                    bucket,
                },
                None,
            );
        }
    }

    if !flag.enabled {
        return (
            EvaluationResult {
                key: flag.flag_key.clone(),
                enabled: false,
                variant: clone_opt(&flag.default_variant),
                reason: EvaluationReason::Disabled,
                bucket,
            },
            None,
        );
    }

    if !is_in_rollout(user_id, flag.flag_key.as_str(), flag.rollout_percentage) {
        return (
            EvaluationResult {
                key: flag.flag_key.clone(),
                enabled: false,
                variant: clone_opt(&flag.default_variant),
                reason: EvaluationReason::NotInRollout,
                bucket,
            },
            None,
        );
    }

    let segments = parse_segments(&flag.target_segments);
    if !matches_any_segment(segments.as_slice(), profile) {
        return (
            EvaluationResult {
                key: flag.flag_key.clone(),
                enabled: false,
                variant: clone_opt(&flag.default_variant),
                reason: EvaluationReason::SegmentMismatch,
                bucket,
            },
            None,
        );
    }

    if !variants.is_empty() {
        if let Some(variant) = existing_assignment {
            return (
                EvaluationResult {
                    key: flag.flag_key.clone(),
                    enabled: true,
                    variant: Some(owned(variant)),
                    reason: EvaluationReason::AbTest,
                    bucket,
                },
                None,
            );
        }
        let default = match &flag.default_variant {
            Some(d) => Some(d.as_str()),
            None => None,
        };
        let variant = assign_variant(user_id, flag.flag_key.as_str(), &variants, default);
        return (
            EvaluationResult {
                key: flag.flag_key.clone(),
                enabled: true,
                variant: clone_opt(&variant),
                reason: EvaluationReason::AbTest,
                bucket,
            },
            variant,
        );
    }

    let variant = match &flag.default_variant {
        Some(d) => Some(d.clone()),
        None => Some(owned("on")),
    };
    (
        EvaluationResult {
            key: flag.flag_key.clone(),
            enabled: true,
            variant,
            reason: EvaluationReason::Percentage,
            bucket,
        },
        None,
    )
}


// ─── Evaluating every flag ──────────────────────────────────────────────────

/// The last override in `overrides` for `flag_id` (a map collected from
/// the list keeps the last one).
pub open spec fn last_override(overrides: Seq<FlagOverride>, flag_id: u128) -> Option<FlagOverride>
    decreases overrides.len(),
{
    if overrides.len() == 0 {
        None
    } else if overrides.last().flag_id == flag_id {
        Some(overrides.last())
    } else {
        last_override(overrides.drop_last(), flag_id)
    }
}

/// The last sticky assignment in `assignments` for `flag_id`.
pub open spec fn last_assignment(assignments: Seq<(u128, String)>, flag_id: u128) -> Option<
    Seq<char>,
>
    decreases assignments.len(),
{
    if assignments.len() == 0 {
        None
    } else if assignments.last().0 == flag_id {
        Some(assignments.last().1@)
    } else {
        last_assignment(assignments.drop_last(), flag_id)
    }
}

fn find_override(overrides: &Vec<FlagOverride>, flag_id: u128) -> (r: Option<&FlagOverride>)
    ensures
        override_of(r) == last_override(overrides@, flag_id),
{
    let mut j = overrides.len();
    assert(overrides@.take(j as int) =~= overrides@);
    while j > 0
        invariant
            j <= overrides@.len(),
            last_override(overrides@, flag_id) == last_override(overrides@.take(j as int), flag_id),
        decreases j,
    {
        assert(overrides@.take(j as int).last() == overrides@[j - 1]);
        assert(overrides@.take(j as int).drop_last() =~= overrides@.take(j - 1));
        if overrides[j - 1].flag_id == flag_id {
            return Some(&overrides[j - 1]);
        }
        j = j - 1;
    }
    None
}

fn find_assignment(assignments: &Vec<(u128, String)>, flag_id: u128) -> (r: Option<&str>)
    ensures
        opt_text(r) == last_assignment(assignments@, flag_id),
{
    let mut j = assignments.len();
    assert(assignments@.take(j as int) =~= assignments@);
    while j > 0
        invariant
            j <= assignments@.len(),
            last_assignment(assignments@, flag_id) == last_assignment(
                assignments@.take(j as int),
                flag_id,
            ),
        decreases j,
    {
        assert(assignments@.take(j as int).last() == assignments@[j - 1]);
        assert(assignments@.take(j as int).drop_last() =~= assignments@.take(j - 1));
        if assignments[j - 1].0 == flag_id {
            return Some(assignments[j - 1].1.as_str());
        }
        j = j - 1;
    }
    None
}

/// Evaluates every flag for one user, each with the user's override and
/// sticky assignment for that flag, in the order of `flags`.
pub fn evaluate_flags(
    flags: &Vec<FeatureFlag>,
    user_id: u128,
    overrides: &Vec<FlagOverride>,
    assignments: &Vec<(u128, String)>,
    now: Timestamp,
    profile: &UserSegmentProfile,
) -> (r: Vec<(EvaluationResult, Option<String>)>)
    requires
        forall|i: int| 0 <= i < flags@.len() ==> member_count(#[trigger] flags@[i].variants) <= u32::MAX,
    ensures
        r@.len() == flags@.len(),
        forall|i: int|
            0 <= i < flags@.len() ==> evaluation_matches(
                #[trigger] r@[i],
                flags@[i],
                user_id,
                last_override(overrides@, flags@[i].id),
                last_assignment(assignments@, flags@[i].id),
                now,
                *profile,
            ),
{
    let mut results: Vec<(EvaluationResult, Option<String>)> = Vec::new();
    let mut i: usize = 0;
    while i < flags.len()
        invariant
            i <= flags@.len(),
            results@.len() == i,
            forall|k: int| 0 <= k < flags@.len() ==> member_count(#[trigger] flags@[k].variants) <= u32::MAX,
            forall|k: int|
                0 <= k < i ==> evaluation_matches(
                    #[trigger] results@[k],
                    flags@[k],
                    user_id,
                    last_override(overrides@, flags@[k].id),
                    last_assignment(assignments@, flags@[k].id),
                    now,
                    *profile,
                ),
        decreases flags.len() - i,
    {
        let flag = &flags[i];
        let over = find_override(overrides, flag.id);
        let existing = find_assignment(assignments, flag.id);
        let r = resolve_evaluation(flag, user_id, over, existing, now, profile);
        results.push(r);
        i = i + 1;
    }
    results
}

// ─── Creating and updating flags ────────────────────────────────────────────

/// A request to create a flag (the fields the library checks and derives).
#[derive(Debug)]
pub struct CreateFlagRequest {
    pub key: String,
    pub name: String,
    pub description: Option<String>,
    pub enabled: Option<bool>,
    pub rollout_percentage: Option<i32>,
    pub variants: Option<VariantMap>,
    pub default_variant: Option<String>,
    pub target_segments: Option<Vec<String>>,
}

/// The stored values a create request resolves to.
#[derive(Debug)]
pub struct NewFlagValues {
    pub enabled: bool,
    pub rollout_percentage: i32,
    pub variants: JsonValue,
    pub target_segments: JsonValue,
}

/// A request to change a flag; absent fields keep their stored value.
#[derive(Debug)]
pub struct UpdateFlagRequest {
    pub name: Option<String>,
    pub description: Option<String>,
    pub enabled: Option<bool>,
    pub rollout_percentage: Option<i32>,
    pub variants: Option<VariantMap>,
    /// An empty string clears the default variant.
    pub default_variant: Option<String>,
    pub target_segments: Option<Vec<String>>,
}

/// The stored values of a flag after an update.
#[derive(Debug)]
pub struct FlagUpdate {
    pub name: String,
    pub description: Option<String>,
    pub enabled: bool,
    pub rollout_percentage: i32,
    pub variants: JsonValue,
    pub default_variant: Option<String>,
    pub target_segments: JsonValue,
}

/// The variants of a request are acceptable (see [`validate_variants`]).
pub open spec fn variants_valid(v: VariantMap) -> bool {
    v.entries().len() == 0 || ((forall|i: int|
        0 <= i < v.entries().len() ==> #[trigger] v.entries()[i].1 >= 0) && exists|i: int|
        0 <= i < v.entries().len() && #[trigger] v.entries()[i].1 != 0)
}

/// Every segment of the list is storable.
pub open spec fn segments_valid(s: Seq<String>) -> bool {
    forall|i: int| 0 <= i < s.len() ==> crate::segments::segment_valid(#[trigger] s[i]@)
}

/// The message [`validate_variants`] refuses `v` with.
pub open spec fn variants_error_message(v: VariantMap) -> Seq<char> {
    if exists|i: int| 0 <= i < v.entries().len() && #[trigger] v.entries()[i].1 < 0 {
        negative_weight_message()
    } else {
        zero_weights_message()
    }
}

/// `m` is the message for the first unstorable segment of `s`.
pub open spec fn segments_error_message(s: Seq<String>, m: Seq<char>) -> bool {
    exists|i: int|
        0 <= i < s.len() && !crate::segments::segment_valid(#[trigger] s[i]@) && (forall|j: int|
            0 <= j < i ==> crate::segments::segment_valid(#[trigger] s[j]@))
            && m == crate::segments::unsupported_segment_message(s[i]@)
}

/// `value` is the JSON object of `v`'s entries.
pub open spec fn is_variants_json(value: JsonValue, v: VariantMap) -> bool {
    value matches JsonValue::Object(members) && members@.len() == v.entries().len() && forall|i: int|
        0 <= i < members@.len() ==> (#[trigger] members@[i]).0@ == v.entries()[i].0
            && members@[i].1 == int_json(v.entries()[i].1)
}

/// `value` is the JSON array of the strings `s`.
pub open spec fn is_segments_json(value: JsonValue, s: Seq<String>) -> bool {
    value matches JsonValue::Array(items) && items@.len() == s.len() && forall|i: int|
        0 <= i < items@.len() ==> as_str_spec(#[trigger] items@[i]) == Some(s[i]@)
}

/// Checks a create request (key, then rollout, then variants, then segments)
/// and resolves its defaults: disabled, 0% rollout, no variants, no segments.
pub fn prepare_new_flag(req: &CreateFlagRequest) -> (r: Result<NewFlagValues, ApiError>)
    ensures
        r is Ok <==> {
            &&& valid_flag_key(req.key@)
            &&& 0 <= (match req.rollout_percentage { Some(p) => p, None => 0i32 }) <= 100
            &&& (req.variants matches Some(v) ==> variants_valid(v))
            &&& (req.target_segments matches Some(s) ==> segments_valid(s@))
        },
        !valid_flag_key(req.key@) ==> (r matches Err(ApiError::BadRequest(m)) && m@
            == flag_key_message()),
        valid_flag_key(req.key@) && !(0 <= (match req.rollout_percentage { Some(p) => p, None => 0i32 }) <= 100)
            ==> (r matches Err(ApiError::BadRequest(m)) && m@ == rollout_message()),
        valid_flag_key(req.key@) && 0 <= (match req.rollout_percentage { Some(p) => p, None => 0i32 }) <= 100
            && req.variants is Some && !variants_valid(req.variants->0)
            ==> (r matches Err(ApiError::BadRequest(m)) && m@ == variants_error_message(req.variants->0)),
        valid_flag_key(req.key@) && 0 <= (match req.rollout_percentage { Some(p) => p, None => 0i32 }) <= 100
            && (req.variants matches Some(v) ==> variants_valid(v))
            && req.target_segments is Some && !segments_valid(req.target_segments->0@)
            ==> (r matches Err(ApiError::BadRequest(m)) && segments_error_message(req.target_segments->0@, m@)),
        r matches Ok(vals) ==> {
            &&& vals.enabled == (match req.enabled { Some(e) => e, None => false })
            &&& vals.rollout_percentage == (match req.rollout_percentage { Some(p) => p, None => 0i32 })
            &&& match req.variants {
                Some(v) => is_variants_json(vals.variants, v),
                None => vals.variants matches JsonValue::Object(m) && m@.len() == 0,
            }
            &&& match req.target_segments {
                Some(s) => is_segments_json(vals.target_segments, s@),
                None => vals.target_segments matches JsonValue::Array(items) && items@.len() == 0,
            }
        },
{
    validate_flag_key(req.key.as_str())?;
    let rollout = match req.rollout_percentage {
        Some(p) => p,
        None => 0,
    };
    validate_rollout(rollout)?;
    let variants_value = match &req.variants {
        Some(v) => {
            validate_variants(v)?;
            variants_json(v)
        },
        None => {
            let empty = VariantMap::new();
            variants_json(&empty)
        },
    };
    let segments_value = match &req.target_segments {
        Some(s) => {
            crate::segments::validate_segments(s.as_slice())?;
            segments_json(s.as_slice())
        },
        None => {
            let empty: Vec<String> = Vec::new();
            segments_json(empty.as_slice())
        },
    };
    let enabled = match req.enabled {
        Some(e) => e,
        None => false,
    };
    Ok(NewFlagValues { enabled, rollout_percentage: rollout, variants: variants_value, target_segments: segments_value })
}

/// Checks an update (rollout, then variants, then segments) and merges it
/// into the stored flag. An empty `default_variant` clears it.
pub fn plan_flag_update(existing: FeatureFlag, req: UpdateFlagRequest) -> (r: Result<FlagUpdate, ApiError>)
    ensures
        r is Ok <==> {
            &&& (req.rollout_percentage matches Some(p) ==> 0 <= p <= 100)
            &&& (req.variants matches Some(v) ==> variants_valid(v))
            &&& (req.target_segments matches Some(s) ==> segments_valid(s@))
        },
        req.rollout_percentage matches Some(p) && !(0 <= p <= 100) ==> (r matches Err(
            ApiError::BadRequest(m),
        ) && m@ == rollout_message()),
        (req.rollout_percentage matches Some(p) ==> 0 <= p <= 100) && req.variants is Some
            && !variants_valid(req.variants->0) ==> (r matches Err(ApiError::BadRequest(m)) && m@
            == variants_error_message(req.variants->0)),
        (req.rollout_percentage matches Some(p) ==> 0 <= p <= 100) && (req.variants matches Some(v)
            ==> variants_valid(v)) && req.target_segments is Some && !segments_valid(
            req.target_segments->0@,
        ) ==> (r matches Err(ApiError::BadRequest(m)) && segments_error_message(
            req.target_segments->0@,
            m@,
        )),
        r matches Ok(u) ==> {
            &&& u.name@ == (match req.name { Some(n) => n@, None => existing.name@ })
            &&& opt_str(u.description) == (match req.description { Some(d) => Some(d@), None => opt_str(existing.description) })
            &&& u.enabled == (match req.enabled { Some(e) => e, None => existing.enabled })
            &&& u.rollout_percentage == (match req.rollout_percentage { Some(p) => p, None => existing.rollout_percentage })
            &&& match req.variants {
                Some(v) => is_variants_json(u.variants, v),
                None => u.variants == existing.variants,
            }
            &&& opt_str(u.default_variant) == (match req.default_variant {
                Some(d) => if d@.len() == 0 { None } else { Some(d@) },
                None => opt_str(existing.default_variant),
            })
            &&& match req.target_segments {
                Some(s) => is_segments_json(u.target_segments, s@),
                None => u.target_segments == existing.target_segments,
            }
        },
{
    if let Some(pct) = req.rollout_percentage {
        validate_rollout(pct)?;
    }
    if let Some(v) = &req.variants {
        validate_variants(v)?;
    }
    if let Some(s) = &req.target_segments {
        crate::segments::validate_segments(s.as_slice())?;
    }
    let name = match req.name {
        Some(n) => n,
        None => existing.name,
    };
    let description = match req.description {
        Some(d) => Some(d),
        None => existing.description,
    };
    let enabled = match req.enabled {
        Some(e) => e,
        None => existing.enabled,
    };
    let rollout_percentage = match req.rollout_percentage {
        Some(p) => p,
        None => existing.rollout_percentage,
    };
    let variants = match &req.variants {
        Some(v) => variants_json(v),
        None => existing.variants,
    };
    let default_variant = match req.default_variant {
        Some(v) => if v.as_str().as_bytes().len() == 0 {
            None
        } else {
            Some(v)
        },
        None => existing.default_variant,
    };
    let target_segments = match &req.target_segments {
        Some(s) => segments_json(s.as_slice()),
        None => existing.target_segments,
    };
    Ok(FlagUpdate { name, description, enabled, rollout_percentage, variants, default_variant, target_segments })
}

} // verus!
