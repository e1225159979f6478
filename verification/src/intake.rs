//! Status of a spectrum intake batch as the assistant reads it: queued files
//! and mapping requests are never reported as imported.
use vstd::prelude::*;
use crate::json::{Json, JsonView, copy, object, object_value};
use crate::text::{decimal, decimal_text, str_eq, views};

verus! {

/// One source file of an intake batch: whether it waits for channel or
/// column review, whether it failed, and the groups it created.
pub struct IntakeSource {
    pub pending: bool,
    pub failed: bool,
    pub created: Vec<String>,
}

/// An intake batch: its sources in order, whether intake finished or was
/// stopped, and its receipt.
pub struct IntakeBatch {
    pub sources: Vec<IntakeSource>,
    pub finished: bool,
    pub stopped: bool,
    pub receipt: Json,
}

/// How many sources wait for review.
pub open spec fn pending_count(sources: Seq<IntakeSource>) -> nat
    decreases sources.len(),
{
    if sources.len() == 0 {
        0
    } else {
        pending_count(sources.drop_last()) + if sources.last().pending {
            1nat
        } else {
            0nat
        }
    }
}

/// How many sources failed.
pub open spec fn failed_count(sources: Seq<IntakeSource>) -> nat
    decreases sources.len(),
{
    if sources.len() == 0 {
        0
    } else {
        failed_count(sources.drop_last()) + if sources.last().failed {
            1nat
        } else {
            0nat
        }
    }
}

/// The groups created by all sources, in order.
pub open spec fn created_groups(sources: Seq<IntakeSource>) -> Seq<Seq<char>>
    decreases sources.len(),
{
    if sources.len() == 0 {
        seq![]
    } else {
        created_groups(sources.drop_last()) + views(sources.last().created@)
    }
}

/// At most this many group ids are listed.
pub const LISTED_GROUPS: usize = 100;

/// What the assistant should do next.
pub open spec fn next_step(pending: nat, finished: bool) -> Seq<char> {
    if pending > 0 {
        "Review channels and column mappings in the rexafs import panel."@
    } else if !finished {
        "Intake is still running or queued; check again before claiming completion."@
    } else {
        "Use the overview to inspect available spectra and their processing state."@
    }
}

/// Queued files and open mapping requests are never reported as imported:
/// while a source waits for review or intake has not finished, the report
/// says so and never sends the assistant on to the finished overview.
pub proof fn law_unfinished_intake_is_not_reported_complete(pending: nat, finished: bool)
    requires
        pending > 0 || !finished,
    ensures
        next_step(pending, finished) != next_step(0, true),
{
    reveal_strlit("Review channels and column mappings in the rexafs import panel.");
    reveal_strlit("Intake is still running or queued; check again before claiming completion.");
    reveal_strlit("Use the overview to inspect available spectra and their processing state.");
    assert(next_step(pending, finished)[0] != next_step(0, true)[0]);
}

/// The status report of batch `id`, members in key order.
pub open spec fn status_of(batch: IntakeBatch, id: nat) -> JsonView {
    let created = created_groups(batch.sources@);
    let listed = if created.len() <= LISTED_GROUPS {
        created
    } else {
        created.take(LISTED_GROUPS as int)
    };
    object(
        seq![
            ("batch_id"@, JsonView::Number(decimal(id))),
            ("created_groups"@, JsonView::Number(decimal(created.len()))),
            ("failed_files"@, JsonView::Number(decimal(failed_count(batch.sources@)))),
            ("group_ids"@, JsonView::Array(listed.map_values(|g: Seq<char>| JsonView::Str(g)))),
            ("intake_finished"@, JsonView::Bool(batch.finished)),
            ("needs_review"@, JsonView::Number(decimal(pending_count(batch.sources@)))),
            ("next_step"@, JsonView::Str(next_step(pending_count(batch.sources@), batch.finished))),
            ("stopped"@, JsonView::Bool(batch.stopped)),
            ("summary"@, batch.receipt@),
        ],
    )
}

/// Counts of pending and failed sources and the created group ids.
fn tally(sources: &Vec<IntakeSource>) -> (r: (usize, usize, Vec<String>))
    ensures
        r.0 == pending_count(sources@),
        r.1 == failed_count(sources@),
        views(r.2@) == created_groups(sources@),
{
    let mut pending: usize = 0;
    let mut failed: usize = 0;
    let mut created: Vec<String> = Vec::new();
    let n = sources.len();
    let mut i: usize = 0;
    while i < n
        invariant
            n == sources@.len(),
            i <= n,
            pending == pending_count(sources@.take(i as int)),
            failed == failed_count(sources@.take(i as int)),
            views(created@) == created_groups(sources@.take(i as int)),
            pending <= i,
            failed <= i,
        decreases n - i,
    {
        let ghost t = sources@.take(i + 1);
        assert(t.drop_last() =~= sources@.take(i as int));
        assert(t.last() == sources@[i as int]);
        if sources[i].pending {
            pending = pending + 1;
        }
        if sources[i].failed {
            failed = failed + 1;
        }
        let ghost before = views(created@);
        let ids = &sources[i].created;
        let m = ids.len();
        let mut k: usize = 0;
        while k < m
            invariant
                m == ids@.len(),
                k <= m,
                views(created@) == before + views(ids@).take(k as int),
            decreases m - k,
        {
            let ghost prior = created@;
            let c = ids[k].clone();
            created.push(c);
            assert(created@ == prior.push(c));
            assert(views(created@) =~= views(prior).push(ids@[k as int]@));
            assert(views(ids@).take(k + 1) =~= views(ids@).take(k as int).push(ids@[k as int]@));
            assert(views(created@) =~= before + views(ids@).take(k + 1));
            k = k + 1;
        }
        assert(views(ids@).take(m as int) =~= views(ids@));
        i = i + 1;
    }
    assert(sources@.take(n as int) =~= sources@);
    (pending, failed, created)
}

/// The status of intake batch `id` of `history`; an unknown id is refused.
pub fn batch_status(history: &Vec<IntakeBatch>, id: usize) -> (r: Result<Json, String>)
    ensures
        match r {
            Ok(v) => id < history@.len() && v@ == status_of(history@[id as int], id as nat),
            Err(e) => id >= history@.len() && e@ == "Unknown import batch_id"@,
        },
{
    if id >= history.len() {
        return Err(String::from_str("Unknown import batch_id"));
    }
    let batch = &history[id];
    let (pending, failed, created) = tally(&batch.sources);
    let shown = if created.len() <= LISTED_GROUPS {
        created.len()
    } else {
        LISTED_GROUPS
    };
    let mut ids: Vec<Json> = Vec::new();
    let mut k: usize = 0;
    while k < shown
        invariant
            shown <= created@.len(),
            k <= shown,
            ids@.len() == k,
            forall|j: int| 0 <= j < k ==> #[trigger] ids@[j]@ == JsonView::Str(created@[j]@),
        decreases shown - k,
    {
        ids.push(Json::Str(created[k].clone()));
        k = k + 1;
    }
    let next = if pending > 0 {
        "Review channels and column mappings in the rexafs import panel."
    } else if !batch.finished {
        "Intake is still running or queued; check again before claiming completion."
    } else {
        "Use the overview to inspect available spectra and their processing state."
    };
    let group_ids = Json::Array(ids);
    let ghost listed = if views(created@).len() <= LISTED_GROUPS {
        views(created@)
    } else {
        views(created@).take(LISTED_GROUPS as int)
    };
    proof {
        match group_ids@ {
            JsonView::Array(a) => {
                assert(a.len() == listed.len());
                assert forall|j: int| 0 <= j < a.len() implies a[j] == listed.map_values(
                    |g: Seq<char>| JsonView::Str(g),
                )[j] by {
                    assert(ids@[j]@ == JsonView::Str(created@[j]@));
                    assert(listed[j] == created@[j]@);
                }
                assert(a =~= listed.map_values(|g: Seq<char>| JsonView::Str(g)));
            },
            _ => {},
        }
    }
    let mut members: Vec<(String, Json)> = Vec::new();
    members.push((String::from_str("batch_id"), Json::Number(decimal_text(id as u64))));
    members.push((String::from_str("created_groups"), Json::Number(decimal_text(created.len() as u64))));
    members.push((String::from_str("failed_files"), Json::Number(decimal_text(failed as u64))));
    members.push((String::from_str("group_ids"), group_ids));
    members.push((String::from_str("intake_finished"), Json::Bool(batch.finished)));
    members.push((String::from_str("needs_review"), Json::Number(decimal_text(pending as u64))));
    members.push((String::from_str("next_step"), Json::Str(String::from_str(next))));
    members.push((String::from_str("stopped"), Json::Bool(batch.stopped)));
    members.push((String::from_str("summary"), copy(&batch.receipt)));
    let r = object_value(members);
    assert(Seq::new(members@.len(), |i: int| (members@[i].0@, members@[i].1@)) =~= seq![
        ("batch_id"@, JsonView::Number(decimal(id as nat))),
        ("created_groups"@, JsonView::Number(decimal(created_groups(batch.sources@).len()))),
        ("failed_files"@, JsonView::Number(decimal(failed_count(batch.sources@)))),
        ("group_ids"@, JsonView::Array(listed.map_values(|g: Seq<char>| JsonView::Str(g)))),
        ("intake_finished"@, JsonView::Bool(batch.finished)),
        ("needs_review"@, JsonView::Number(decimal(pending_count(batch.sources@)))),
        ("next_step"@, JsonView::Str(next_step(pending_count(batch.sources@), batch.finished))),
        ("stopped"@, JsonView::Bool(batch.stopped)),
        ("summary"@, batch.receipt@),
    ]);
    Ok(r)
}

/// How a reader source's signal column becomes the absorption signal.
#[derive(Clone, Copy, Debug, PartialEq, Eq, Structural)]
pub enum SignalMapping {
    /// Stored as the signal itself.
    Direct,
    /// Transmission, from incident and transmitted intensities.
    Transmission,
    /// A fluorescence or yield ratio.
    Ratio,
}

/// The label of a signal candidate named `name` with this mapping: the
/// standard channels by their name, any other by its mapping and name.
pub open spec fn signal_text(name: Seq<char>, mapping: SignalMapping) -> Seq<char> {
    if name == "reference"@ {
        "Reference"@
    } else if name == "transmission"@ {
        "Transmission"@
    } else if name == "fluorescence"@ {
        "Fluorescence"@
    } else {
        let mode = match mapping {
            SignalMapping::Direct => "Stored signal"@,
            SignalMapping::Transmission => "Transmission"@,
            SignalMapping::Ratio => "Fluorescence / yield"@,
        };
        mode + " · "@ + name
    }
}

/// The label of a signal candidate.
pub fn signal_label(name: &str, mapping: SignalMapping) -> (r: String)
    ensures
        r@ == signal_text(name@, mapping),
{
    if str_eq(name, "reference") {
        return String::from_str("Reference");
    }
    if str_eq(name, "transmission") {
        return String::from_str("Transmission");
    }
    if str_eq(name, "fluorescence") {
        return String::from_str("Fluorescence");
    }
    let mode = match mapping {
        SignalMapping::Direct => "Stored signal",
        SignalMapping::Transmission => "Transmission",
        SignalMapping::Ratio => "Fluorescence / yield",
    };
    String::from_str(mode).concat(" · ").concat(name)
}

/// The review and failure counts are the numbers of sources that wait for
/// review and that failed, and the created groups are every source's
/// groups in order, so there are at least as many as any one source made.
pub proof fn law_intake_counts_its_sources(sources: Seq<IntakeSource>)
    ensures
        pending_count(sources) == sources.filter(|x: IntakeSource| x.pending).len(),
        failed_count(sources) == sources.filter(|x: IntakeSource| x.failed).len(),
        pending_count(sources) <= sources.len(),
        failed_count(sources) <= sources.len(),
        forall|i: int| 0 <= i < sources.len() ==> created_groups(sources).len() >= (#[trigger] sources[i]).created@.len(),
    decreases sources.len(),
{
    reveal(Seq::filter);
    if sources.len() > 0 {
        let init = sources.drop_last();
        law_intake_counts_its_sources(init);
        assert forall|i: int| 0 <= i < sources.len() implies created_groups(sources).len() >= (#[trigger] sources[i]).created@.len() by {
            if i < init.len() {
                assert(init[i] == sources[i]);
            }
        }
    }
}

} // verus!
