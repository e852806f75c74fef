//! Segment targeting: a flag may be restricted to users matching at least one
//! of its target segments (`country:NG`, `stake_tier:gold`,
//! `beta_tester:true`). An empty list matches everyone.
use vstd::prelude::*;
use crate::error::ApiError;
use crate::text::{
    chars_of, eq_ignore_ascii_case_from, eq_ignore_ascii_case_spec, find_char_from, has_prefix,
    index_of_or_len, owned, starts_with_chars,
};

verus! {

/// Segment attributes of a user relevant to flag targeting.
#[derive(Debug)]
pub struct UserSegmentProfile {
    pub country_code: Option<String>,
    pub stake_tier: Option<String>,
    pub is_beta_tester: bool,
}

impl Default for UserSegmentProfile {
    /// No country, no stake tier, not a beta tester.
    fn default() -> (r: Self)
        ensures
            r.country_code is None,
            r.stake_tier is None,
            !r.is_beta_tester,
    {
        UserSegmentProfile { country_code: None, stake_tier: None, is_beta_tester: false }
    }
}

/// Does `segment` match `profile`? Country and stake tier compare ignoring
/// ASCII case; `beta_tester:<v>` matches when the user's flag equals
/// `v == "true"` (ignoring case). Unknown prefixes never match.
pub open spec fn matches_segment_spec(segment: Seq<char>, profile: UserSegmentProfile) -> bool {
    if has_prefix(segment, "country:"@) {
        match profile.country_code {
            Some(c) => eq_ignore_ascii_case_spec(segment.skip("country:"@.len() as int), c@),
            None => false,
        }
    } else if has_prefix(segment, "stake_tier:"@) {
        match profile.stake_tier {
            Some(t) => eq_ignore_ascii_case_spec(segment.skip("stake_tier:"@.len() as int), t@),
            None => false,
        }
    } else if has_prefix(segment, "beta_tester:"@) {
        profile.is_beta_tester == eq_ignore_ascii_case_spec(
            segment.skip("beta_tester:"@.len() as int),
            "true"@,
        )
    } else {
        false
    }
}

/// The views of a list of strings.
pub open spec fn views(v: Seq<String>) -> Seq<Seq<char>> {
    v.map_values(|s: String| s@)
}

/// No targeting, or at least one listed segment matches.
pub open spec fn matches_any_segment_spec(segments: Seq<Seq<char>>, profile: UserSegmentProfile) -> bool {
    segments.len() == 0 || exists|i: int|
        0 <= i < segments.len() && #[trigger] matches_segment_spec(segments[i], profile)
}

/// `segment` starts with one of the three known prefixes.
pub open spec fn has_known_prefix(segment: Seq<char>) -> bool {
    has_prefix(segment, "country:"@) || has_prefix(segment, "stake_tier:"@) || has_prefix(
        segment,
        "beta_tester:"@,
    )
}

/// What follows the first `:` of `segment` (empty without one).
pub open spec fn after_first_colon(segment: Seq<char>) -> Seq<char> {
    let i = index_of_or_len(segment, ':');
    if i < segment.len() {
        segment.skip(i + 1)
    } else {
        Seq::empty()
    }
}

/// A segment that can be stored: a known prefix and a non-empty value.
pub open spec fn segment_valid(segment: Seq<char>) -> bool {
    has_known_prefix(segment) && after_first_colon(segment).len() > 0
}

/// The message for an unsupported segment.
pub open spec fn unsupported_segment_message(segment: Seq<char>) -> Seq<char> {
    "Unsupported segment '"@ + segment
        + "': expected country:<CODE>, stake_tier:<tier>, or beta_tester:<true|false>"@
}

/// Does `segment` match this user's profile?
pub fn matches_segment(segment: &str, profile: &UserSegmentProfile) -> (r: bool)
    ensures
        r == matches_segment_spec(segment@, *profile),
{
    let v = chars_of(segment);
    let country = chars_of("country:");
    if starts_with_chars(&v, &country) {
        return match &profile.country_code {
            Some(c) => {
                let cv = chars_of(c.as_str());
                eq_ignore_ascii_case_from(&v, country.len(), &cv)
            },
            None => false,
        };
    }
    let tier = chars_of("stake_tier:");
    if starts_with_chars(&v, &tier) {
        return match &profile.stake_tier {
            Some(t) => {
                let tv = chars_of(t.as_str());
                eq_ignore_ascii_case_from(&v, tier.len(), &tv)
            },
            None => false,
        };
    }
    let beta = chars_of("beta_tester:");
    if starts_with_chars(&v, &beta) {
        let yes = chars_of("true");
        let wants_beta = eq_ignore_ascii_case_from(&v, beta.len(), &yes);
        return profile.is_beta_tester == wants_beta;
    }
    false
}

/// A user matches when `segments` is empty or when they match at least one.
pub fn matches_any_segment(segments: &[String], profile: &UserSegmentProfile) -> (r: bool)
    ensures
        r == matches_any_segment_spec(views(segments@), *profile),
{
    if segments.len() == 0 {
        return true;
    }
    let mut i: usize = 0;
    while i < segments.len()
        invariant
            i <= segments@.len(),
            forall|j: int| 0 <= j < i ==> !matches_segment_spec(#[trigger] segments@[j]@, *profile),
        decreases segments.len() - i,
    {
        if matches_segment(segments[i].as_str(), profile) {
            assert(views(segments@)[i as int] == segments@[i as int]@);
            return true;
        }
        i = i + 1;
    }
    assert forall|j: int| 0 <= j < views(segments@).len() implies !#[trigger] matches_segment_spec(
        views(segments@)[j],
        *profile,
    ) by {
        assert(views(segments@)[j] == segments@[j]@);
    }
    false
}

/// Is `segment` a storable segment?
fn segment_is_valid(segment: &String) -> (r: bool)
    ensures
        r == segment_valid(segment@),
{
    let v = chars_of(segment.as_str());
    let known = starts_with_chars(&v, &chars_of("country:")) || starts_with_chars(
        &v,
        &chars_of("stake_tier:"),
    ) || starts_with_chars(&v, &chars_of("beta_tester:"));
    let k = find_char_from(&v, 0, ':');
    assert(v@.skip(0) =~= v@);
    let value_len: usize = if k < v.len() {
        v.len() - (k + 1)
    } else {
        0
    };
    known && value_len > 0
}

/// Every segment must be `country:<CODE>`, `stake_tier:<tier>` or
/// `beta_tester:<true|false>` with a non-empty value; the first one that is
/// not is reported.
pub fn validate_segments(segments: &[String]) -> (r: Result<(), ApiError>)
    ensures
        r is Ok <==> forall|i: int| 0 <= i < segments@.len() ==> segment_valid(#[trigger] segments@[i]@),
        r matches Err(e) ==> exists|i: int|
            0 <= i < segments@.len() && !segment_valid(#[trigger] segments@[i]@) && (forall|j: int|
                0 <= j < i ==> segment_valid(#[trigger] segments@[j]@)) && (e matches ApiError::BadRequest(m)
                && m@ == unsupported_segment_message(segments@[i]@)),
{
    let mut i: usize = 0;
    while i < segments.len()
        invariant
            i <= segments@.len(),
            forall|j: int| 0 <= j < i ==> segment_valid(#[trigger] segments@[j]@),
        decreases segments.len() - i,
    {
        if !segment_is_valid(&segments[i]) {
            let mut m = owned("Unsupported segment '");
            m.append(segments[i].as_str());
            m.append("': expected country:<CODE>, stake_tier:<tier>, or beta_tester:<true|false>");
            let e = ApiError::BadRequest(m);
            assert(!segment_valid(segments@[i as int]@));
            return Err(e);
        }
        i = i + 1;
    }
    Ok(())
}

} // verus!
