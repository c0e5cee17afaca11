//! Version requirements and version order, and the choice of the latest
//! release that meets a requirement.
use crate::validator::LogState;
use vstd::prelude::*;

verus! {

/// Whether `version` parses as a semantic version that the requirement
/// `req` (which must parse too) accepts.
pub uninterp spec fn semver_matches(req: Seq<char>, version: Seq<char>) -> bool;

/// Whether both texts parse as semantic versions and `a` precedes `b`.
pub uninterp spec fn semver_lt(a: Seq<char>, b: Seq<char>) -> bool;

/// Relies on `semver::VersionReq::matches`, after `VersionReq::parse` and
/// `Version::parse`: text that does not parse matches nothing.
#[verifier::external_body]
fn version_matches(req: &str, version: &str) -> (r: bool)
    ensures
        r == semver_matches(req@, version@),
{
    match (semver::VersionReq::parse(req), semver::Version::parse(version)) {
        (Ok(q), Ok(v)) => q.matches(&v),
        _ => false,
    }
}

/// Relies on the order of `semver::Version` (`Ord`), after
/// `Version::parse`: text that does not parse precedes nothing.
#[verifier::external_body]
fn version_lt(a: &str, b: &str) -> (r: bool)
    ensures
        r == semver_lt(a@, b@),
{
    match (semver::Version::parse(a), semver::Version::parse(b)) {
        (Ok(x), Ok(y)) => x < y,
        _ => false,
    }
}

/// A release is a candidate when it is not yanked and meets the requirement.
pub open spec fn candidate(r: (Seq<char>, Option<Seq<char>>), req: Seq<char>) -> bool {
    r.1 is Some && semver_matches(req, r.0)
}

/// The position of the latest candidate release: scanning in order, a
/// candidate replaces the best so far unless it precedes it (so of equal
/// versions the last one wins).
pub open spec fn latest_candidate(rs: Seq<(Seq<char>, Option<Seq<char>>)>, req: Seq<char>) -> Option<int>
    decreases rs.len(),
{
    if rs.len() == 0 {
        None
    } else {
        let best = latest_candidate(rs.drop_last(), req);
        let i = rs.len() - 1;
        if !candidate(rs[i], req) {
            best
        } else {
            match best {
                None => Some(i),
                Some(b) => if semver_lt(rs[i].0, rs[b].0) {
                    Some(b)
                } else {
                    Some(i)
                },
            }
        }
    }
}

/// The latest candidate is a candidate.
pub proof fn lemma_latest_is_candidate(rs: Seq<(Seq<char>, Option<Seq<char>>)>, req: Seq<char>)
    ensures
        latest_candidate(rs, req) matches Some(i) ==> 0 <= i < rs.len() && candidate(rs[i], req),
    decreases rs.len(),
{
    if rs.len() > 0 {
        lemma_latest_is_candidate(rs.drop_last(), req);
    }
}

/// The version and content digest of the latest release of the log that
/// meets the requirement, if any.
pub fn latest_release(state: &LogState, requirement: &String) -> (r: Option<(String, String)>)
    ensures
        latest_candidate(state@.releases, requirement@) is None ==> r is None,
        latest_candidate(state@.releases, requirement@) matches Some(i) ==> (r matches Some(
            p,
        ) && p.0@ == state@.releases[i].0 && Some(p.1@) == state@.releases[i].1),
{
    let rs = &state.releases;
    let ghost s = state@.releases;
    let mut best: Option<usize> = None;
    let mut i: usize = 0;
    while i < rs.len()
        invariant
            i <= rs@.len(),
            s == state@.releases,
            s.len() == rs@.len(),
            rs == &state.releases,
            latest_candidate(s.take(i as int), requirement@) == match best {
                Some(b) => Some(b as int),
                None => None::<int>,
            },
            best matches Some(b) ==> b < i,
        decreases rs@.len() - i,
    {
        assert(s.take(i + 1).drop_last() =~= s.take(i as int));
        assert(s.take(i + 1)[i as int] == s[i as int]);
        let live = match &rs[i].content {
            Some(_) => version_matches(requirement.as_str(), rs[i].version.as_str()),
            None => false,
        };
        if live {
            best = match best {
                None => Some(i),
                Some(b) => if version_lt(rs[i].version.as_str(), rs[b].version.as_str()) {
                    Some(b)
                } else {
                    Some(i)
                },
            };
        }
        i = i + 1;
    }
    assert(s.take(s.len() as int) =~= s);
    proof {
        lemma_latest_is_candidate(s, requirement@);
    }
    match best {
        Some(b) => match &rs[b].content {
            Some(d) => Some((rs[b].version.clone(), d.clone())),
            None => None,
        },
        None => None,
    }
}

} // verus!
