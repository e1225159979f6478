//! Waiting for the structure jobs an assistant tool started: a search, the
//! choice of a structure, or a path calculation.
use vstd::prelude::*;
use crate::text::{matches_at, occurs_at};

verus! {

/// The structure job a tool waits for.
#[derive(Clone, Copy, Debug, PartialEq, Eq, Structural)]
pub enum StructureJob {
    Search,
    Choose,
    Calculate,
}

/// What the studio reports of its structure jobs.
pub struct StructureStatus {
    pub search_running: bool,
    pub fetch_running: bool,
    pub paths_running: bool,
    /// The last structure search's error.
    pub search_error: Option<String>,
    /// The studio's status line.
    pub status: String,
    pub has_paths: bool,
    pub structure_loaded: bool,
}

/// The outcome of a structure job once it stopped running: `None` while it
/// runs; then a search error, a failed or empty path calculation (reported
/// by the status line) or a structure that did not load is an error, and
/// anything else succeeds.
pub open spec fn structure_outcome_of(job: StructureJob, s: StructureStatus) -> Option<Result<(), Seq<char>>> {
    let running = match job {
        StructureJob::Search => s.search_running,
        StructureJob::Choose => s.fetch_running,
        StructureJob::Calculate => s.paths_running,
    };
    if running {
        None
    } else {
        Some(
            match s.search_error {
                Some(e) => Err(e@),
                None => if job == StructureJob::Calculate && (occurs_at(
                    s.status@,
                    "Path calculation failed"@,
                    0,
                ) || !s.has_paths) {
                    Err(s.status@)
                } else if job == StructureJob::Choose && !s.structure_loaded {
                    Err("Structure could not be loaded"@)
                } else {
                    Ok(())
                },
            },
        )
    }
}

/// The outcome of a structure job (see [`structure_outcome_of`]).
pub fn structure_outcome(job: StructureJob, s: &StructureStatus) -> (r: Option<Result<(), String>>)
    ensures
        match r {
            None => structure_outcome_of(job, *s) is None,
            Some(Ok(_)) => structure_outcome_of(job, *s) == Some(Ok::<(), Seq<char>>(())),
            Some(Err(e)) => structure_outcome_of(job, *s) == Some(Err::<(), Seq<char>>(e@)),
        },
{
    let running = match job {
        StructureJob::Search => s.search_running,
        StructureJob::Choose => s.fetch_running,
        StructureJob::Calculate => s.paths_running,
    };
    if running {
        return None;
    }
    match &s.search_error {
        Some(e) => Some(Err(e.clone())),
        None => {
            if job == StructureJob::Calculate && (matches_at(
                s.status.as_str(),
                "Path calculation failed",
                0,
            ) || !s.has_paths) {
                Some(Err(s.status.clone()))
            } else if job == StructureJob::Choose && !s.structure_loaded {
                Some(Err(String::from_str("Structure could not be loaded")))
            } else {
                Some(Ok(()))
            }
        },
    }
}

/// A job has no outcome while it runs. Once stopped, a search error fails
/// it with that error; otherwise a search succeeds, a structure choice
/// succeeds exactly when the structure loaded, and a path calculation
/// succeeds exactly when it produced paths and the status line does not
/// report a failure (the failure is then the status line).
pub proof fn law_structure_jobs_succeed_only_when_done(job: StructureJob, s: StructureStatus)
    ensures
        (job == StructureJob::Search && s.search_running || job == StructureJob::Choose && s.fetch_running
            || job == StructureJob::Calculate && s.paths_running) <==> structure_outcome_of(job, s) is None,
        structure_outcome_of(job, s) is Some && s.search_error is Some ==> structure_outcome_of(job, s)
            == Some(Err::<(), Seq<char>>(s.search_error->Some_0@)),
        structure_outcome_of(job, s) is Some && s.search_error is None ==> {
            &&& job == StructureJob::Search ==> structure_outcome_of(job, s) == Some(Ok::<(), Seq<char>>(()))
            &&& job == StructureJob::Choose ==> (structure_outcome_of(job, s) == Some(Ok::<(), Seq<char>>(()))
                <==> s.structure_loaded)
            &&& job == StructureJob::Calculate ==> (structure_outcome_of(job, s) == Some(Ok::<(), Seq<char>>(()))
                <==> (s.has_paths && !occurs_at(s.status@, "Path calculation failed"@, 0)))
            &&& job == StructureJob::Calculate && !(structure_outcome_of(job, s) == Some(Ok::<(), Seq<char>>(())))
                ==> structure_outcome_of(job, s) == Some(Err::<(), Seq<char>>(s.status@))
        },
{
}

} // verus!
