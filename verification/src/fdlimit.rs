//! How many files the process may keep open.

use vstd::prelude::*;

verus! {

/// The limit that is asked for at most. No realistic project runs out of it, and
/// it stays below what platforms allow a single process.
pub const DESIRED_NOFILE: u64 = 8192;

/// The limit that is aimed at below a hard limit. The greatest number stands for no
/// hard limit at all.
pub open spec fn aimed_at(hard: u64) -> u64 {
    if hard < DESIRED_NOFILE {
        hard
    } else {
        DESIRED_NOFILE
    }
}

/// The soft limit to be set in place of `soft`, if any.
pub open spec fn limit_to_set(soft: u64, hard: u64) -> Option<u64> {
    if aimed_at(hard) > soft {
        Some(aimed_at(hard))
    } else {
        None
    }
}

/// The soft limit to be set, if any.
pub fn nofile_target(soft: u64, hard: u64) -> (r: Option<u64>)
    ensures
        r == limit_to_set(soft, hard),
        r == (if aimed_at(hard) > soft {
            Some(aimed_at(hard))
        } else {
            None
        }),
{
    let target: u64 = if hard == u64::MAX {
        DESIRED_NOFILE
    } else if hard < DESIRED_NOFILE {
        hard
    } else {
        DESIRED_NOFILE
    };
    if target > soft {
        Some(target)
    } else {
        None
    }
}

/// The soft limit is never lowered, and never goes above the hard one or above what
/// is asked for.
pub proof fn law_limit_only_rises(soft: u64, hard: u64)
    ensures
        aimed_at(hard) > soft ==> soft < aimed_at(hard) <= hard && aimed_at(hard)
            <= DESIRED_NOFILE,
{
}

/// The soft limit is raised as far as the hard one allows, to 8192 at most, and left
/// alone where it is that high already.
pub proof fn law_limit_is_raised(soft: u64, hard: u64)
    ensures
        match limit_to_set(soft, hard) {
            Some(limit) => {
                &&& soft < limit
                &&& limit <= hard
                &&& limit <= 8192
                &&& limit == hard || limit == 8192
            },
            None => soft >= hard || soft >= 8192,
        },
{
}

} // verus!
