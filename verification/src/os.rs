//! The platform that this build runs on.

use vstd::prelude::*;

use crate::detect::resolve::{found_models, resolve_all, resolved_each, Lookups, ResolvedCandidate};
use crate::detect::types::{candidate_models, CandidateProcess};
use crate::linux::engine::{config_root, config_root_below};
use crate::linux::scan::{candidates_of, scan, RawProcess};

verus! {

/// Root of the private OBS configuration of this user.
pub fn obs_config_root() -> (r: Result<Vec<u8>, String>)
    ensures
        match r {
            Ok(root) => exists|d: Seq<u8>| root@ == #[trigger] config_root_below(d),
            Err(e) => e@ == "cannot resolve XDG data dir"@,
        },
{
    config_root()
}

/// Running processes that may be games.
pub fn detect_candidates(processes: &Vec<RawProcess>) -> (r: Vec<CandidateProcess>)
    ensures
        candidate_models(r@) == candidates_of(processes@),
{
    scan(processes)
}

/// Titles and identities of running processes.
pub fn resolve_candidates(candidates: &Vec<CandidateProcess>, lookups: &Lookups) -> (r: Vec<
    ResolvedCandidate,
>)
    ensures
        found_models(r@) == resolved_each(candidate_models(candidates@), lookups@),
{
    resolve_all(candidates, lookups)
}

} // verus!
