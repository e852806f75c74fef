//! Properties of the library as a whole, stated over the specifications that
//! the functions' contracts use.
use vstd::prelude::*;
use vstd::utf8::encode_utf8;
use vstd::arithmetic::div_mod::{lemma_basic_div, lemma_div_denominator, lemma_fundamental_div_mod};
use vstd::arithmetic::power::{lemma_pow_positive, pow};
use crate::digest::{hex_digit, hex_lower, sha256_digest, uuid_bytes, uuid_text};
use crate::evidence::{evidence_hash_spec, is_allowed_content_type, magic_matches, object_key_spec};
use crate::orchestrator::{
    job_step_spec, poll_step_spec, run_jobs, run_poll, JobAction, JobEvent, JobPhase, PollAction, PollEvent, PollPhase,
};
use crate::flags::{
    valid_flag_key, opt_str, assign_spec, bucket_spec, in_rollout_spec, nonneg, override_active, pick_variant,
    resolve_spec, segments_spec, variants_map_spec, weight_sum, EvaluationReason, FeatureFlag,
    FlagOverride,
};
use crate::season::{decay_spec, snapshot_of, TopRow};
use crate::segments::{matches_any_segment_spec, matches_segment_spec, UserSegmentProfile};
use crate::timestamp::Timestamp;
use crate::variant_map::{sorted_entries, VariantMap};

verus! {

// ─── Evidence fingerprints ──────────────────────────────────────────────────

proof fn lemma_hex_digit_injective(a: int, b: int)
    requires
        0 <= a < 16,
        0 <= b < 16,
        hex_digit(a) == hex_digit(b),
    ensures
        a == b,
{
    let ca = hex_digit(a);
    let cb = hex_digit(b);
    assert(ca as int == if a < 10 { 48 + a } else { 87 + a });
    assert(cb as int == if b < 10 { 48 + b } else { 87 + b });
}

/// Re-hashing identical bytes gives the identical fingerprint.
pub proof fn law_hash_deterministic(a: Seq<u8>, b: Seq<u8>)
    requires
        a == b,
    ensures
        evidence_hash_spec(a) == evidence_hash_spec(b),
{
}

/// Lower-case hex text determines the bytes it encodes.
proof fn lemma_hex_lower_injective(a: Seq<u8>, b: Seq<u8>)
    requires
        hex_lower(a) == hex_lower(b),
    ensures
        a == b,
{
    assert(a.len() == b.len()) by {
        assert(hex_lower(a).len() == 2 * a.len());
        assert(hex_lower(b).len() == 2 * b.len());
    }
    assert forall|i: int| 0 <= i < a.len() implies a[i] == b[i] by {
        assert((2 * i) % 2 == 0 && (2 * i) / 2 == i);
        assert((2 * i + 1) % 2 == 1 && (2 * i + 1) / 2 == i);
        assert(hex_lower(a)[2 * i] == hex_digit(a[i] as int / 16));
        assert(hex_lower(b)[2 * i] == hex_digit(b[i] as int / 16));
        assert(hex_lower(a)[2 * i + 1] == hex_digit(a[i] as int % 16));
        assert(hex_lower(b)[2 * i + 1] == hex_digit(b[i] as int % 16));
        lemma_hex_digit_injective(a[i] as int / 16, b[i] as int / 16);
        lemma_hex_digit_injective(a[i] as int % 16, b[i] as int % 16);
    }
    assert(a =~= b);
}

/// Two fingerprints are equal exactly when the SHA-256 digests are: the hex
/// text loses nothing, so a swapped file is detected whenever its digest differs.
pub proof fn law_fingerprint_iff_digest(a: Seq<u8>, b: Seq<u8>)
    ensures
        evidence_hash_spec(a) == evidence_hash_spec(b) <==> sha256_digest(a) == sha256_digest(b),
{
    if hex_lower(sha256_digest(a)) == hex_lower(sha256_digest(b)) {
        lemma_hex_lower_injective(sha256_digest(a), sha256_digest(b));
    }
}

/// `x / 256^k` agrees for two ids whose bytes agree.
proof fn lemma_uuid_quotients(a: u128, b: u128, k: nat)
    requires
        k <= 16,
        uuid_bytes(a) == uuid_bytes(b),
    ensures
        a as int / pow(256, k) == b as int / pow(256, k),
    decreases 16 - k,
{
    lemma_pow_positive(256, k);
    if k == 16 {
        reveal_with_fuel(pow, 17);
        assert(pow(256, 16) == 0x1_0000_0000_0000_0000_0000_0000_0000_0000);
        lemma_basic_div(a as int, pow(256, 16));
        lemma_basic_div(b as int, pow(256, 16));
    } else {
        lemma_uuid_quotients(a, b, k + 1);
        let p = pow(256, k);
        assert(pow(256, k + 1) == 256 * p) by {
            reveal(pow);
        }
        lemma_div_denominator(a as int, p, 256);
        lemma_div_denominator(b as int, p, 256);
        let qa = a as int / p;
        let qb = b as int / p;
        assert(qa / 256 == qb / 256) by {
            assert(p * 256 == 256 * p);
        }
        let i = 15 - k;
        assert(uuid_bytes(a)[i] == uuid_bytes(b)[i]);
        assert(uuid_bytes(a)[i] == (qa % 256) as u8);
        assert(uuid_bytes(b)[i] == (qb % 256) as u8);
        assert(qa % 256 == qb % 256);
        lemma_fundamental_div_mod(qa, 256);
        lemma_fundamental_div_mod(qb, 256);
    }
}

/// Different ids have different bytes.
proof fn lemma_uuid_bytes_injective(a: u128, b: u128)
    requires
        uuid_bytes(a) == uuid_bytes(b),
    ensures
        a == b,
{
    lemma_uuid_quotients(a, b, 0);
    assert(pow(256, 0) == 1) by {
        reveal(pow);
    }
}

/// The text of an id is 36 characters long and determines the id.
proof fn lemma_uuid_text(a: u128, b: u128)
    ensures
        uuid_text(a).len() == 36,
        uuid_text(a) == uuid_text(b) ==> a == b,
{
    let ha = hex_lower(uuid_bytes(a));
    let hb = hex_lower(uuid_bytes(b));
    assert(ha.len() == 32 && hb.len() == 32);
    if uuid_text(a) == uuid_text(b) {
        let ta = uuid_text(a);
        let tb = uuid_text(b);
        assert forall|k: int| 0 <= k < 32 implies ha[k] == hb[k] by {
            let pos = if k < 8 {
                k
            } else if k < 12 {
                k + 1
            } else if k < 16 {
                k + 2
            } else if k < 20 {
                k + 3
            } else {
                k + 4
            };
            assert(ta[pos] == ha[k]);
            assert(tb[pos] == hb[k]);
        }
        assert(ha =~= hb);
        lemma_hex_lower_injective(uuid_bytes(a), uuid_bytes(b));
        lemma_uuid_bytes_injective(a, b);
    }
}

/// Evidence of different uploaders, or for different matches, never shares
/// an object key, so one player cannot overwrite another's evidence.
pub proof fn law_object_keys_separate_users_and_matches(
    user_a: u128,
    match_a: u128,
    content_type_a: Seq<char>,
    hash_a: Seq<char>,
    user_b: u128,
    match_b: u128,
    content_type_b: Seq<char>,
    hash_b: Seq<char>,
)
    requires
        user_a != user_b || match_a != match_b,
    ensures
        object_key_spec(user_a, match_a, content_type_a, hash_a) != object_key_spec(
            user_b,
            match_b,
            content_type_b,
            hash_b,
        ),
{
    let ka = object_key_spec(user_a, match_a, content_type_a, hash_a);
    let kb = object_key_spec(user_b, match_b, content_type_b, hash_b);
    lemma_uuid_text(user_a, user_b);
    lemma_uuid_text(match_a, match_b);
    lemma_uuid_text(user_b, user_a);
    lemma_uuid_text(match_b, match_a);
    reveal_strlit("/");
    if ka == kb {
        assert(ka.subrange(0, 36) =~= uuid_text(user_a));
        assert(kb.subrange(0, 36) =~= uuid_text(user_b));
        assert(ka.subrange(37, 73) =~= uuid_text(match_a));
        assert(kb.subrange(37, 73) =~= uuid_text(match_b));
    }
}

/// The object key of an upload begins with the uploader's id and then the
/// match's id, each followed by `/`.
pub proof fn law_object_key_namespaced(
    user_id: u128,
    match_id: u128,
    content_type: Seq<char>,
    hash_hex: Seq<char>,
)
    ensures
        ({
            let key = object_key_spec(user_id, match_id, content_type, hash_hex);
            let p = crate::digest::uuid_text(user_id) + "/"@ + crate::digest::uuid_text(match_id)
                + "/"@;
            p.len() <= key.len() && key.take(p.len() as int) == p
        }),
{
    let key = object_key_spec(user_id, match_id, content_type, hash_hex);
    let p = crate::digest::uuid_text(user_id) + "/"@ + crate::digest::uuid_text(match_id) + "/"@;
    let rest = hash_hex + "."@ + crate::evidence::extension_spec(
        crate::evidence::base_content_type_spec(content_type),
    );
    assert(key =~= p + rest);
    assert(key.take(p.len() as int) =~= p);
}

/// Uploading the same bytes again for the same player, match and type lands
/// on the same key, so a duplicate upload overwrites nothing else.
pub proof fn law_duplicate_upload_same_key(
    user_id: u128,
    match_id: u128,
    content_type: Seq<char>,
    a: Seq<u8>,
    b: Seq<u8>,
)
    requires
        a == b,
    ensures
        object_key_spec(user_id, match_id, content_type, evidence_hash_spec(a)) == object_key_spec(
            user_id,
            match_id,
            content_type,
            evidence_hash_spec(b),
        ),
{
}

/// Contents pass the signature check only under one of the three accepted
/// image types.
pub proof fn law_magic_requires_known_type(t: Seq<char>, bytes: Seq<u8>)
    requires
        magic_matches(t, bytes),
    ensures
        is_allowed_content_type(t),
{
}

// ─── Rollout ────────────────────────────────────────────────────────────────

/// A user's bucket for a flag is the same every time, and lies in 0–99.
pub proof fn law_bucket_stable(user_id: u128, flag_key: Seq<char>)
    ensures
        bucket_spec(user_id, flag_key) == bucket_spec(user_id, flag_key),
        bucket_spec(user_id, flag_key) < 100,
{
}

/// A 0% (or lower) rollout excludes everyone; a 100% (or higher) rollout
/// includes everyone.
pub proof fn law_rollout_extremes(user_id: u128, flag_key: Seq<char>, percentage: i32)
    ensures
        percentage <= 0 ==> !in_rollout_spec(user_id, flag_key, percentage),
        percentage >= 100 ==> in_rollout_spec(user_id, flag_key, percentage),
{
}

/// Raising a rollout never removes a user from it.
pub proof fn law_rollout_monotone(user_id: u128, flag_key: Seq<char>, p: i32, q: i32)
    requires
        p <= q,
        in_rollout_spec(user_id, flag_key, p),
    ensures
        in_rollout_spec(user_id, flag_key, q),
{
}

// ─── Variant assignment ─────────────────────────────────────────────────────

proof fn lemma_pick_positive(s: Seq<(Seq<char>, i32)>, pick: int, name: Seq<char>)
    requires
        0 <= pick,
        pick_variant(s, pick) == Some(name),
    ensures
        exists|i: int| 0 <= i < s.len() && s[i].0 == name && nonneg(#[trigger] s[i].1) > 0,
    decreases s.len(),
{
    if pick < nonneg(s[0].1) {
        assert(s[0].0 == name && nonneg(s[0].1) > 0);
    } else {
        lemma_pick_positive(s.drop_first(), pick - nonneg(s[0].1), name);
        let i = choose|i: int|
            0 <= i < s.drop_first().len() && s.drop_first()[i].0 == name && nonneg(
                #[trigger] s.drop_first()[i].1,
            ) > 0;
        assert(s[i + 1] == s.drop_first()[i]);
    }
}

proof fn lemma_pick_some(s: Seq<(Seq<char>, i32)>, pick: int)
    requires
        0 <= pick < weight_sum(s),
    ensures
        pick_variant(s, pick) is Some,
    decreases s.len(),
{
    if s.len() > 0 && pick >= nonneg(s[0].1) {
        lemma_weight_sum_first(s);
        lemma_pick_some(s.drop_first(), pick - nonneg(s[0].1));
    }
}

proof fn lemma_weight_sum_first(s: Seq<(Seq<char>, i32)>)
    requires
        s.len() > 0,
    ensures
        weight_sum(s) == nonneg(s[0].1) + weight_sum(s.drop_first()),
    decreases s.len(),
{
    if s.len() > 1 {
        lemma_weight_sum_first(s.drop_last());
        assert(s.drop_last().drop_first() =~= s.drop_first().drop_last());
        assert(s.drop_first().last() == s.last());
        assert(s.drop_last()[0] == s[0]);
        assert(weight_sum(s) == weight_sum(s.drop_last()) + nonneg(s.last().1));
        assert(weight_sum(s.drop_first()) == weight_sum(s.drop_first().drop_last()) + nonneg(
            s.drop_first().last().1,
        ));
    } else {
        assert(weight_sum(s.drop_first()) == 0);
        assert(weight_sum(s.drop_last()) == 0);
        assert(s.drop_first().len() == 0);
        assert(s.drop_last().len() == 0);
        assert(s.last() == s[0]);
    }
}

/// When the weights are not all zero, the variant picked is one of the
/// variants and has a positive weight: a zero-weight variant is never picked.
pub proof fn law_assigned_variant_has_weight(
    user_id: u128,
    flag_key: Seq<char>,
    entries: Seq<(Seq<char>, i32)>,
    default_variant: Option<Seq<char>>,
)
    requires
        weight_sum(entries) > 0,
    ensures
        ({
            let picked = assign_spec(user_id, flag_key, entries, default_variant);
            &&& picked is Some
            &&& exists|i: int|
                0 <= i < entries.len() && entries[i].0 == picked->0 && nonneg(#[trigger] entries[i].1)
                    > 0
        }),
{
    let total = weight_sum(entries);
    let pick = crate::flags::salted_hash(crate::flags::ab_salt(flag_key), user_id) as int % total;
    lemma_pick_some(entries, pick);
    let name = pick_variant(entries, pick)->0;
    lemma_pick_positive(entries, pick, name);
}

/// Variant maps holding the same weights assign every user the same variant,
/// whatever order their names were inserted in.
pub proof fn law_assignment_ignores_insertion_order(
    a: VariantMap,
    b: VariantMap,
    user_id: u128,
    flag_key: Seq<char>,
    default_variant: Option<Seq<char>>,
)
    requires
        a.wf(),
        b.wf(),
        a@ == b@,
    ensures
        assign_spec(user_id, flag_key, a.entries(), default_variant) == assign_spec(
            user_id,
            flag_key,
            b.entries(),
            default_variant,
        ),
{
    a.lemma_entries_canonical();
    b.lemma_entries_canonical();
}

// ─── Evaluation ─────────────────────────────────────────────────────────────

/// An override that has not expired decides the evaluation, even against the
/// kill switch, and never starts an A/B assignment.
pub proof fn law_active_override_wins(
    flag: FeatureFlag,
    user_id: u128,
    over: FlagOverride,
    existing: Option<Seq<char>>,
    now: Timestamp,
    profile: UserSegmentProfile,
)
    requires
        override_active(over, now),
    ensures
        ({
            let d = resolve_spec(flag, user_id, Some(over), existing, now, profile);
            &&& d.enabled == over.enabled
            &&& d.variant == crate::flags::opt_str(over.variant)
            &&& d.reason == EvaluationReason::Override
            &&& d.assignment is None
        }),
{
}

/// An expired override is ignored: the evaluation is the one without it.
pub proof fn law_expired_override_ignored(
    flag: FeatureFlag,
    user_id: u128,
    over: FlagOverride,
    existing: Option<Seq<char>>,
    now: Timestamp,
    profile: UserSegmentProfile,
)
    requires
        !override_active(over, now),
    ensures
        resolve_spec(flag, user_id, Some(over), existing, now, profile) == resolve_spec(
            flag,
            user_id,
            None,
            existing,
            now,
            profile,
        ),
{
}

/// Without an active override, a flag is on only if its kill switch is on,
/// the user is inside the rollout and matches its segments; a disabled flag
/// reports `Disabled`.
pub proof fn law_enabled_only_through_gates(
    flag: FeatureFlag,
    user_id: u128,
    over: Option<FlagOverride>,
    existing: Option<Seq<char>>,
    now: Timestamp,
    profile: UserSegmentProfile,
)
    requires
        !(over is Some && override_active(over->0, now)),
    ensures
        ({
            let d = resolve_spec(flag, user_id, over, existing, now, profile);
            &&& d.enabled ==> flag.enabled && in_rollout_spec(
                user_id,
                flag.flag_key@,
                flag.rollout_percentage,
            ) && matches_any_segment_spec(segments_spec(flag.target_segments), profile)
            &&& !flag.enabled ==> d.reason == EvaluationReason::Disabled && !d.enabled
        }),
{
}

/// A sticky assignment is kept: a user who already has a variant gets it
/// back and no new assignment is requested; a user who has none gets a newly
/// picked variant, which is also the one to persist.
pub proof fn law_sticky_assignment(
    flag: FeatureFlag,
    user_id: u128,
    existing: Option<Seq<char>>,
    now: Timestamp,
    profile: UserSegmentProfile,
)
    ensures
        ({
            let d = resolve_spec(flag, user_id, None, existing, now, profile);
            &&& d.reason == EvaluationReason::AbTest && existing is Some ==> d.variant == existing
                && d.assignment is None
            &&& d.reason == EvaluationReason::AbTest && existing is None ==> d.assignment
                == d.variant
            &&& d.reason != EvaluationReason::AbTest ==> d.assignment is None
        }),
{
}

/// Evaluating the same flag for the same user with the same inputs gives the
/// same result.
pub proof fn law_evaluation_deterministic(
    flag: FeatureFlag,
    user_id: u128,
    over: Option<FlagOverride>,
    existing: Option<Seq<char>>,
    now: Timestamp,
    profile: UserSegmentProfile,
)
    ensures
        resolve_spec(flag, user_id, over, existing, now, profile) == resolve_spec(
            flag,
            user_id,
            over,
            existing,
            now,
            profile,
        ),
{
}

/// No targeting means every user matches.
pub proof fn law_empty_segments_match_everyone(profile: UserSegmentProfile)
    ensures
        matches_any_segment_spec(Seq::empty(), profile),
{
}

// ─── Seasons ────────────────────────────────────────────────────────────────

/// Decay never leaves a rating below 800, and moves it toward 1200 without
/// passing it: ratings above 1200 come down, ratings below go up, and 1200
/// stays.
pub proof fn law_decay_toward_baseline(c: i32)
    ensures
        decay_spec(c) >= 800,
        c >= 1200 ==> 1200 <= decay_spec(c) <= c,
        c <= 1200 ==> c <= decay_spec(c) <= 1200,
        decay_spec(1200) == 1200,
{
}

/// A snapshot never records negative losses.
pub proof fn law_snapshot_losses_nonnegative(row: TopRow)
    requires
        i32::MIN <= row.3 - row.4 <= i32::MAX,
    ensures
        snapshot_of(row).losses >= 0,
        snapshot_of(row).wins == row.4,
        snapshot_of(row).matches_played == row.3,
{
}

// ─── Background workers ─────────────────────────────────────────────────────

/// Once the poller holds the lock, it runs the three polls in order and
/// releases the lock, whatever each poll returns.
pub proof fn law_lock_always_released(advanced: bool, settled: bool, cleaned: bool)
    ensures
        run_poll(
            PollPhase::Idle,
            seq![
                PollEvent::Tick,
                PollEvent::LockResult(true),
                PollEvent::StepFinished(advanced),
                PollEvent::StepFinished(settled),
                PollEvent::StepFinished(cleaned),
                PollEvent::Unlocked,
            ],
        ) == Some((
            PollPhase::Idle,
            seq![
                PollAction::TryLock,
                PollAction::PollStaleRounds,
                PollAction::PollUnfinalized,
                PollAction::PollCleanup,
                PollAction::ReleaseLock,
                PollAction::AwaitTick,
            ],
        )),
{
    reveal_with_fuel(run_poll, 7);
}

/// When another instance holds the lock, the tick does no work.
pub proof fn law_lock_refused_skips_tick()
    ensures
        run_poll(PollPhase::Idle, seq![PollEvent::Tick, PollEvent::LockResult(false)]) == Some(
            (PollPhase::Idle, seq![PollAction::TryLock, PollAction::AwaitTick]),
        ),
{
    reveal_with_fuel(run_poll, 3);
}

/// A job whose processing fails has its retry state updated and is then
/// recorded as a dead letter, whatever the update returned.
pub proof fn law_failed_job_dead_lettered()
    ensures
        run_jobs(
            JobPhase::Idle,
            seq![
                JobEvent::Tick,
                JobEvent::Claimed(true),
                JobEvent::Processed(false),
                JobEvent::MarkedFailed,
                JobEvent::DeadLettered,
            ],
        ) == Some((
            JobPhase::Idle,
            seq![
                JobAction::ClaimNext,
                JobAction::Process,
                JobAction::MarkFailed,
                JobAction::RecordDeadLetter,
                JobAction::AwaitTick,
            ],
        )),
{
    reveal_with_fuel(run_jobs, 6);
}

/// A job that succeeds is neither marked failed nor dead-lettered, and a
/// tick that claims no job processes nothing.
pub proof fn law_only_failed_jobs_dead_lettered()
    ensures
        run_jobs(JobPhase::Idle, seq![JobEvent::Tick, JobEvent::Claimed(true), JobEvent::Processed(true)])
            == Some((JobPhase::Idle, seq![JobAction::ClaimNext, JobAction::Process, JobAction::AwaitTick])),
        run_jobs(JobPhase::Idle, seq![JobEvent::Tick, JobEvent::Claimed(false)]) == Some(
            (JobPhase::Idle, seq![JobAction::ClaimNext, JobAction::AwaitTick]),
        ),
{
    reveal_with_fuel(run_jobs, 4);
}

/// The poller never returns to waiting for a tick while it still holds the
/// lock: from any phase after the lock was taken and before its release was
/// asked for, every run of events that ends idle asks for the release.
pub proof fn law_idle_only_after_release(phase: PollPhase, events: Seq<PollEvent>)
    requires
        phase == PollPhase::AdvancingRounds || phase == PollPhase::SettlingPayouts
            || phase == PollPhase::CleaningUp,
        run_poll(phase, events) matches Some((last, _)) && last == PollPhase::Idle,
    ensures
        run_poll(phase, events)->Some_0.1.contains(PollAction::ReleaseLock),
    decreases events.len(),
{
    let (next, action) = poll_step_spec(phase, events[0])->Some_0;
    let (_, rest) = run_poll(next, events.drop_first())->Some_0;
    if phase == PollPhase::CleaningUp {
        assert((seq![action] + rest)[0] == PollAction::ReleaseLock);
    } else {
        law_idle_only_after_release(next, events.drop_first());
        let k = choose|k: int| 0 <= k < rest.len() && rest[k] == PollAction::ReleaseLock;
        assert((seq![action] + rest)[k + 1] == PollAction::ReleaseLock);
    }
}

/// Once a job's processing has failed, the worker does not go back to
/// waiting for a tick before it has asked for the dead-letter record.
pub proof fn law_failed_job_always_dead_lettered(events: Seq<JobEvent>)
    requires
        run_jobs(JobPhase::MarkingFailed, events) matches Some((last, _)) && last == JobPhase::Idle,
    ensures
        run_jobs(JobPhase::MarkingFailed, events)->Some_0.1.contains(JobAction::RecordDeadLetter),
{
    let (next, action) = job_step_spec(JobPhase::MarkingFailed, events[0])->Some_0;
    let (_, rest) = run_jobs(next, events.drop_first())->Some_0;
    assert((seq![action] + rest)[0] == JobAction::RecordDeadLetter);
}

// ─── Evaluation order, A/B salt, signatures, targeting, keys ────────────────

/// Without an active override, an enabled flag evaluated for a user outside
/// its rollout is off with reason `NotInRollout`, whatever its target
/// segments and the user's profile: the rollout is checked before the
/// segments. Conversely, a segment mismatch is only ever reported for a user
/// inside the rollout.
pub proof fn law_rollout_checked_before_segments(
    flag: FeatureFlag,
    user_id: u128,
    over: Option<FlagOverride>,
    existing: Option<Seq<char>>,
    now: Timestamp,
    profile: UserSegmentProfile,
)
    requires
        !(over is Some && override_active(over->0, now)),
        flag.enabled,
    ensures
        ({
            let d = resolve_spec(flag, user_id, over, existing, now, profile);
            let pct = flag.rollout_percentage;
            let outside = pct <= 0 || (pct < 100 && bucket_spec(user_id, flag.flag_key@) as int >= pct);
            &&& outside ==> d.reason == EvaluationReason::NotInRollout && !d.enabled
                && d.variant == opt_str(flag.default_variant) && d.assignment is None
            &&& d.reason == EvaluationReason::SegmentMismatch ==> !outside
        }),
{
}

proof fn lemma_weight_sum_prefix_step(s: Seq<(Seq<char>, i32)>, k: int)
    requires
        0 <= k < s.len(),
    ensures
        weight_sum(s.take(k + 1)) == nonneg(s[0].1) + weight_sum(s.drop_first().take(k)),
{
    lemma_weight_sum_first(s.take(k + 1));
    assert(s.take(k + 1).drop_first() =~= s.drop_first().take(k));
}

proof fn lemma_pick_range(s: Seq<(Seq<char>, i32)>, pick: int)
    requires
        0 <= pick < weight_sum(s),
    ensures
        exists|k: int|
            0 <= k < s.len() && weight_sum(s.take(k)) <= pick < weight_sum(#[trigger] s.take(k + 1))
                && pick_variant(s, pick) == Some(s[k].0),
    decreases s.len(),
{
    if s.len() == 0 {
        assert(weight_sum(s) == 0);
    } else {
        lemma_weight_sum_first(s);
        if pick < nonneg(s[0].1) {
            lemma_weight_sum_prefix_step(s, 0);
            assert(s.drop_first().take(0).len() == 0);
            assert(weight_sum(s.drop_first().take(0)) == 0);
            assert(s.take(0).len() == 0);
            assert(weight_sum(s.take(0)) == 0);
            assert(weight_sum(s.take(1int)) == nonneg(s[0].1));
        } else {
            let d = s.drop_first();
            lemma_pick_range(d, pick - nonneg(s[0].1));
            let k = choose|k: int|
                0 <= k < d.len() && weight_sum(d.take(k)) <= pick - nonneg(s[0].1) < weight_sum(
                    #[trigger] d.take(k + 1),
                ) && pick_variant(d, pick - nonneg(s[0].1)) == Some(d[k].0);
            lemma_weight_sum_prefix_step(s, k);
            lemma_weight_sum_prefix_step(s, k + 1);
            assert(s[k + 1] == d[k]);
            assert(weight_sum(s.take((k + 1) + 1)) == nonneg(s[0].1) + weight_sum(d.take(k + 1)));
        }
    }
}

/// The A/B pick is SHA-256 of the bytes of `"ab:"` followed by the flag key,
/// a zero byte and the id's 16 bytes, its first four bytes read big-endian,
/// reduced modulo the total weight; the variant picked is the one whose
/// cumulative weight range (in iteration order) holds that pick.
pub proof fn law_ab_pick_hashes_ab_salt(
    user_id: u128,
    flag_key: Seq<char>,
    entries: Seq<(Seq<char>, i32)>,
    default_variant: Option<Seq<char>>,
)
    requires
        weight_sum(entries) > 0,
    ensures
        ({
            let d = sha256_digest(encode_utf8("ab:"@ + flag_key) + seq![0u8] + uuid_bytes(user_id));
            let pick = (d[0] as int * 16777216 + d[1] as int * 65536 + d[2] as int * 256
                + d[3] as int) % weight_sum(entries);
            exists|k: int|
                0 <= k < entries.len() && weight_sum(entries.take(k)) <= pick < weight_sum(
                    #[trigger] entries.take(k + 1),
                ) && assign_spec(user_id, flag_key, entries, default_variant) == Some(entries[k].0)
        }),
{
    let d = sha256_digest(encode_utf8("ab:"@ + flag_key) + seq![0u8] + uuid_bytes(user_id));
    let raw = d[0] as int * 16777216 + d[1] as int * 65536 + d[2] as int * 256 + d[3] as int;
    assert(0 <= raw <= 4294967295) by (nonlinear_arith)
        requires
            raw == d[0] as int * 16777216 + d[1] as int * 65536 + d[2] as int * 256 + d[3] as int,
            0 <= d[0] < 256,
            0 <= d[1] < 256,
            0 <= d[2] < 256,
            0 <= d[3] < 256,
    ;
    assert(crate::flags::salted_hash(crate::flags::ab_salt(flag_key), user_id) as int == raw);
    let pick = raw % weight_sum(entries);
    lemma_pick_range(entries, pick);
}

/// A body that passes the signature check for one accepted image type fails
/// it for every other accepted type: the three signatures exclude each other.
pub proof fn law_signatures_exclusive(t1: Seq<char>, t2: Seq<char>, bytes: Seq<u8>)
    requires
        is_allowed_content_type(t1),
        is_allowed_content_type(t2),
        magic_matches(t1, bytes),
        magic_matches(t2, bytes),
    ensures
        t1 == t2,
{
    if t1 != t2 {
        assert(bytes.len() >= 3);
        if t1 == "image/png"@ || t2 == "image/png"@ {
            assert(bytes.take(8)[0] == bytes[0]);
        }
        if (t1 == "image/jpeg"@ && t1 != "image/png"@) || (t2 == "image/jpeg"@ && t2 != "image/png"@) {
            assert(bytes.take(3)[0] == bytes[0]);
        }
        if (t1 == "image/webp"@ && t1 != "image/png"@ && t1 != "image/jpeg"@) || (t2 == "image/webp"@
            && t2 != "image/png"@ && t2 != "image/jpeg"@) {
            assert(bytes.subrange(0, 4)[0] == bytes[0]);
        }
    }
}

/// A body declared `image/png` passes the signature check only when it
/// begins with the 8-byte PNG signature 89 50 4E 47 0D 0A 1A 0A.
pub proof fn law_png_needs_png_signature(bytes: Seq<u8>)
    requires
        magic_matches("image/png"@, bytes),
    ensures
        bytes.len() >= 8,
        bytes[0] == 0x89 && bytes[1] == 0x50 && bytes[2] == 0x4E && bytes[3] == 0x47,
        bytes[4] == 0x0D && bytes[5] == 0x0A && bytes[6] == 0x1A && bytes[7] == 0x0A,
{
    let t = bytes.take(8);
    assert(t[0] == bytes[0] && t[1] == bytes[1] && t[2] == bytes[2] && t[3] == bytes[3]);
    assert(t[4] == bytes[4] && t[5] == bytes[5] && t[6] == bytes[6] && t[7] == bytes[7]);
}

/// For a non-empty target list, a user matches exactly when some listed
/// segment matches: one matching segment is enough.
pub proof fn law_one_matching_segment_suffices(
    segments: Seq<Seq<char>>,
    profile: UserSegmentProfile,
    i: int,
)
    requires
        0 <= i < segments.len(),
        matches_segment_spec(segments[i], profile),
    ensures
        matches_any_segment_spec(segments, profile),
{
}

/// A non-empty target list that no listed segment matches is a mismatch.
pub proof fn law_no_matching_segment_mismatches(segments: Seq<Seq<char>>, profile: UserSegmentProfile)
    requires
        segments.len() > 0,
        forall|i: int| 0 <= i < segments.len() ==> !matches_segment_spec(#[trigger] segments[i], profile),
    ensures
        !matches_any_segment_spec(segments, profile),
{
}

/// Adding a segment to a non-empty target list never turns a match into a
/// mismatch.
pub proof fn law_adding_segment_keeps_match(
    segments: Seq<Seq<char>>,
    extra: Seq<char>,
    profile: UserSegmentProfile,
)
    requires
        segments.len() > 0,
        matches_any_segment_spec(segments, profile),
    ensures
        matches_any_segment_spec(segments.push(extra), profile),
{
    let i = choose|i: int| 0 <= i < segments.len() && #[trigger] matches_segment_spec(segments[i], profile);
    assert(segments.push(extra)[i] == segments[i]);
}

/// A flag key holding any character other than a lower-case ASCII letter, an
/// ASCII digit, `_` or `-` (an upper-case letter, say), at whatever position,
/// is refused; so is one that starts with `_` or `-`.
pub proof fn law_flag_key_charset(key: Seq<char>, i: int)
    requires
        0 <= i < key.len(),
    ensures
        !(('a' <= key[i] <= 'z') || ('0' <= key[i] <= '9') || key[i] == '_' || key[i] == '-')
            ==> !valid_flag_key(key),
        ('A' <= key[i] <= 'Z') ==> !valid_flag_key(key),
        (key[0] == '_' || key[0] == '-') ==> !valid_flag_key(key),
{
}

/// The rollout bucket is SHA-256 of the bytes of the bare flag key, a zero
/// byte and the id's 16 bytes, its first four bytes read big-endian, modulo
/// 100; a rollout of `p` percent (1–99) admits exactly the buckets below `p`.
pub proof fn law_rollout_bucket_hashes_key(user_id: u128, flag_key: Seq<char>, percentage: i32)
    ensures
        ({
            let d = sha256_digest(encode_utf8(flag_key) + seq![0u8] + uuid_bytes(user_id));
            let raw = d[0] as int * 16777216 + d[1] as int * 65536 + d[2] as int * 256 + d[3] as int;
            &&& bucket_spec(user_id, flag_key) as int == raw % 100
            &&& 0 < percentage < 100 ==> (in_rollout_spec(user_id, flag_key, percentage) <==> raw
                % 100 < percentage)
        }),
{
    let d = sha256_digest(encode_utf8(flag_key) + seq![0u8] + uuid_bytes(user_id));
    let raw = d[0] as int * 16777216 + d[1] as int * 65536 + d[2] as int * 256 + d[3] as int;
    assert(0 <= raw <= 4294967295) by (nonlinear_arith)
        requires
            raw == d[0] as int * 16777216 + d[1] as int * 65536 + d[2] as int * 256 + d[3] as int,
            0 <= d[0] < 256,
            0 <= d[1] < 256,
            0 <= d[2] < 256,
            0 <= d[3] < 256,
    ;
    assert(crate::flags::salted_hash(encode_utf8(flag_key), user_id) as int == raw);
}

/// `country:<c>` matches a user whose country code is `c`, and never a user
/// without one; `stake_tier:<t>` likewise for the stake tier;
/// `beta_tester:true` matches exactly the beta testers.
pub proof fn law_segment_kinds(c: Seq<char>, profile: UserSegmentProfile)
    ensures
        (profile.country_code matches Some(cc) && cc@ == c) ==> matches_segment_spec(
            "country:"@ + c,
            profile,
        ),
        profile.country_code is None ==> !matches_segment_spec("country:"@ + c, profile),
        (profile.stake_tier matches Some(t) && t@ == c) ==> matches_segment_spec(
            "stake_tier:"@ + c,
            profile,
        ),
        profile.stake_tier is None ==> !matches_segment_spec("stake_tier:"@ + c, profile),
        matches_segment_spec("beta_tester:true"@, profile) <==> profile.is_beta_tester,
{
    reveal_strlit("country:");
    reveal_strlit("stake_tier:");
    reveal_strlit("beta_tester:");
    reveal_strlit("beta_tester:true");
    reveal_strlit("true");
    let a = "country:"@ + c;
    assert(a.take(8) =~= "country:"@);
    assert(a.skip(8) =~= c);
    let b = "stake_tier:"@ + c;
    assert(b.take(11) =~= "stake_tier:"@);
    assert(b.skip(11) =~= c);
    assert(b.take(8)[0] == 's');
    let e = "beta_tester:true"@;
    assert(e.take(12) =~= "beta_tester:"@);
    assert(e.skip(12) =~= "true"@);
    assert(e.take(8)[0] == 'b');
    assert(e.take(11)[0] == 'b');
}

} // verus!
