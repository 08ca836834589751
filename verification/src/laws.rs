//! Run-level guarantees of the pipeline, proved over the scan and
//! consume-loop state machines that the drivers' contracts are stated with.

use vstd::prelude::*;
use vstd::multiset::Multiset;
use crate::cursor::{scan_from, scan_init, scan_of, scan_step, lemma_scan_from_frozen};
use crate::orchestrator::{
    lemma_run_from_frozen, lemma_run_from_snoc, run_active, run_from, run_init, run_step,
    HaltKind, RunState,
};
use crate::tasks::{NonCriticalError, OrphanRecord, TaskOutput, TaskStatus};

verus! {

/// An empty first page ends the scan at once: one query, no orphan counted,
/// no extraction task dispatched — so the run returns an empty error list
/// and nothing downstream is ever dispatched.
pub proof fn lemma_empty_first_page(pages: Seq<Seq<OrphanRecord>>)
    requires
        pages.len() > 0,
        pages[0].len() == 0,
    ensures
        scan_of(pages).queries == 1,
        scan_of(pages).count == 0,
        scan_of(pages).dispatched.len() == 0,
{
    let after = scan_step(scan_init(), pages[0]);
    assert(scan_of(pages) == scan_from(after, pages.drop_first()));
    lemma_scan_from_frozen(after, pages.drop_first());
}

/// A scan over non-empty pages consumes them all: each is dispatched, in
/// order, with one query per page, and the cursor is still live.
proof fn lemma_scan_all_full(s: crate::cursor::ScanState, pages: Seq<Seq<OrphanRecord>>)
    requires
        !s.exhausted,
        forall|k: int| 0 <= k < pages.len() ==> pages[k].len() > 0,
    ensures
        scan_from(s, pages).exhausted == false,
        scan_from(s, pages).queries == s.queries + pages.len(),
        scan_from(s, pages).dispatched == s.dispatched + pages,
        scan_from(s, pages).count >= s.count,
    decreases pages.len(),
{
    if pages.len() == 0 {
        assert(s.dispatched + pages =~= s.dispatched);
    } else {
        let s1 = scan_step(s, pages[0]);
        assert(s1.dispatched == s.dispatched.push(pages[0]));
        lemma_scan_all_full(s1, pages.drop_first());
        assert(s.dispatched.push(pages[0]) + pages.drop_first() =~= s.dispatched + pages);
    }
}

/// N non-empty pages followed by one empty page: exactly N extraction tasks
/// are dispatched, one per page in page order, and the cursor issues exactly
/// N + 1 queries, the last being the empty confirming one.
pub proof fn lemma_full_scan(pages: Seq<Seq<OrphanRecord>>, n: int)
    requires
        0 <= n,
        pages.len() == n + 1,
        forall|k: int| 0 <= k < n ==> pages[k].len() > 0,
        pages[n].len() == 0,
    ensures
        scan_of(pages).dispatched == pages.take(n),
        scan_of(pages).dispatched.len() == n,
        scan_of(pages).queries == n + 1,
        scan_of(pages).exhausted,
{
    let front = pages.take(n);
    crate::cursor::lemma_scan_from_concat(scan_init(), front, pages.skip(n));
    assert(front + pages.skip(n) =~= pages);
    lemma_scan_all_full(scan_init(), front);
    assert(Seq::<Seq<OrphanRecord>>::empty() + front =~= front);
    let mid = scan_from(scan_init(), front);
    assert(pages.skip(n)[0] == pages[n]);
    let after = scan_step(mid, pages[n]);
    assert(scan_from(mid, pages.skip(n)) == scan_from(after, pages.skip(n).drop_first()));
    lemma_scan_from_frozen(after, pages.skip(n).drop_first());
}

/// Record identifiers strictly ascend within each dispatched page and from
/// each page to every later one: no record is dispatched twice in one run.
pub open spec fn batches_ascending(batches: Seq<Seq<OrphanRecord>>) -> bool {
    &&& forall|b: int| 0 <= b < batches.len() ==> crate::cursor::page_sorted(#[trigger] batches[b])
    &&& forall|a: int, b: int, i: int, j: int|
        0 <= a < b < batches.len() && 0 <= i < batches[a].len() && 0 <= j < batches[b].len()
            ==> (#[trigger] batches[a][i]).id < (#[trigger] batches[b][j]).id
}

/// Every record dispatched so far sits at or before the cursor position.
pub open spec fn batches_below(batches: Seq<Seq<OrphanRecord>>, last_id: Option<i32>) -> bool {
    match last_id {
        None => batches.len() == 0,
        Some(l) => forall|b: int, i: int|
            0 <= b < batches.len() && 0 <= i < batches[b].len() ==> (#[trigger] batches[b][i]).id
                <= l,
    }
}

proof fn lemma_scan_no_dup_from(s: crate::cursor::ScanState, location_id: i32, pages: Seq<Seq<OrphanRecord>>)
    requires
        crate::cursor::pages_ok_from(s.last_id, location_id, pages),
        !s.exhausted,
        batches_ascending(s.dispatched),
        batches_below(s.dispatched, s.last_id),
        forall|b: int, i: int|
            0 <= b < s.dispatched.len() && 0 <= i < s.dispatched[b].len() ==> (
            #[trigger] s.dispatched[b][i]).location_id == location_id,
    ensures
        batches_ascending(scan_from(s, pages).dispatched),
        forall|b: int, i: int|
            0 <= b < scan_from(s, pages).dispatched.len() && 0 <= i < scan_from(
                s,
                pages,
            ).dispatched[b].len() ==> (#[trigger] scan_from(s, pages).dispatched[b][i]).location_id
                == location_id,
    decreases pages.len(),
{
    if pages.len() > 0 {
        let page = pages[0];
        let s1 = scan_step(s, page);
        if page.len() == 0 {
            lemma_scan_from_frozen(s1, pages.drop_first());
        } else {
            assert(s1.dispatched == s.dispatched.push(page));
            assert forall|a: int, b: int, i: int, j: int|
                0 <= a < b < s1.dispatched.len() && 0 <= i < s1.dispatched[a].len() && 0 <= j
                    < s1.dispatched[b].len() implies (#[trigger] s1.dispatched[a][i]).id < (
            #[trigger] s1.dispatched[b][j]).id by {
                if b < s1.dispatched.len() - 1 {
                    assert(s1.dispatched[a] == s.dispatched[a]);
                    assert(s1.dispatched[b] == s.dispatched[b]);
                } else {
                    assert(s1.dispatched[b] == page);
                    assert(s1.dispatched[a] == s.dispatched[a]);
                    assert(s.dispatched[a][i].id <= s.last_id->Some_0);
                }
            }
            assert(crate::cursor::page_sorted(page));
            assert forall|b: int, i: int|
                0 <= b < s1.dispatched.len() && 0 <= i < s1.dispatched[b].len() implies (
            #[trigger] s1.dispatched[b][i]).id <= page.last().id by {
                if b < s1.dispatched.len() - 1 {
                    assert(s1.dispatched[b] == s.dispatched[b]);
                    assert(s.dispatched[b][i].id <= s.last_id->Some_0);
                    assert(page[0].id > s.last_id->Some_0);
                    assert(page[page.len() - 1] == page.last());
                } else {
                    assert(s1.dispatched[b] == page);
                    assert(page[page.len() - 1] == page.last());
                }
            }
            lemma_scan_no_dup_from(s1, location_id, pages.drop_first());
        }
    }
}

/// No record is missed back over and none is seen twice: the pages a scan
/// dispatches hold records in strictly ascending identifier order, across
/// pages as well as within them, all belonging to the scanned location.
pub proof fn lemma_scan_no_duplicates(location_id: i32, pages: Seq<Seq<OrphanRecord>>)
    requires
        crate::cursor::pages_ok_from(None, location_id, pages),
    ensures
        batches_ascending(scan_of(pages).dispatched),
        forall|b: int, i: int|
            0 <= b < scan_of(pages).dispatched.len() && 0 <= i < scan_of(
                pages,
            ).dispatched[b].len() ==> (#[trigger] scan_of(pages).dispatched[b][i]).location_id
                == location_id,
{
    lemma_scan_no_dup_from(scan_init(), location_id, pages);
}

/// The non-critical errors one completion contributes: those of a completed
/// extraction task's output, nothing from any other status.
pub open spec fn errors_of_status(status: TaskStatus) -> Seq<NonCriticalError> {
    match status {
        TaskStatus::Done(TaskOutput::Extraction(out)) => out.errors@,
        _ => Seq::empty(),
    }
}

/// The concatenation of every completion's non-critical errors, in
/// completion order.
pub open spec fn all_errors(completions: Seq<TaskStatus>) -> Seq<NonCriticalError>
    decreases completions.len(),
{
    if completions.len() == 0 {
        Seq::empty()
    } else {
        errors_of_status(completions[0]) + all_errors(completions.drop_first())
    }
}

/// The loop observes every one of these completions: it is still active when
/// each arrives.
pub open spec fn fully_active(s: RunState, completions: Seq<TaskStatus>) -> bool
    decreases completions.len(),
{
    completions.len() == 0 || {
        &&& run_active(s)
        &&& fully_active(run_step(s, completions[0]), completions.drop_first())
    }
}

/// A loop that observes every completion accumulates exactly the
/// concatenation of their non-critical error lists on top of what it held.
proof fn lemma_errors_accumulate(s: RunState, completions: Seq<TaskStatus>)
    requires
        fully_active(s, completions),
    ensures
        run_from(s, completions).errors == s.errors + all_errors(completions),
    decreases completions.len(),
{
    if completions.len() == 0 {
        assert(s.errors + all_errors(completions) =~= s.errors);
    } else {
        let s1 = run_step(s, completions[0]);
        lemma_errors_accumulate(s1, completions.drop_first());
        assert(s1.errors == s.errors + errors_of_status(completions[0]));
        assert(s.errors + errors_of_status(completions[0]) + all_errors(completions.drop_first())
            =~= s.errors + (errors_of_status(completions[0]) + all_errors(
            completions.drop_first(),
        )));
    }
}

/// Each completion's errors sit inside the concatenation of them all.
proof fn lemma_all_errors_contains(completions: Seq<TaskStatus>, k: int, e: NonCriticalError)
    requires
        0 <= k < completions.len(),
        errors_of_status(completions[k]).contains(e),
    ensures
        all_errors(completions).contains(e),
    decreases completions.len(),
{
    if k == 0 {
        let j = choose|j: int|
            0 <= j < errors_of_status(completions[0]).len() && errors_of_status(completions[0])[j]
                == e;
        assert(all_errors(completions)[j] == e);
    } else {
        lemma_all_errors_contains(completions.drop_first(), k - 1, e);
        let rest = all_errors(completions.drop_first());
        let j = choose|j: int| 0 <= j < rest.len() && rest[j] == e;
        assert(all_errors(completions)[errors_of_status(completions[0]).len() + j] == e);
    }
}

/// Order-independence of error accumulation: however the completions are
/// ordered, a run that observes all of them and is not halted ends with
/// exactly the concatenation of their per-task non-critical errors, so every
/// error any extraction task reported is present in the final list.
pub proof fn lemma_errors_order_independent(
    in_flight: nat,
    completions: Seq<TaskStatus>,
    k: int,
)
    requires
        fully_active(run_init(in_flight), completions),
        0 <= k < completions.len(),
    ensures
        run_from(run_init(in_flight), completions).errors == all_errors(completions),
        forall|e: NonCriticalError|
            errors_of_status(completions[k]).contains(e) ==> run_from(
                run_init(in_flight),
                completions,
            ).errors.contains(e),
{
    lemma_errors_accumulate(run_init(in_flight), completions);
    assert(Seq::<NonCriticalError>::empty() + all_errors(completions) =~= all_errors(
        completions,
    ));
    assert forall|e: NonCriticalError|
        errors_of_status(completions[k]).contains(e) implies run_from(
        run_init(in_flight),
        completions,
    ).errors.contains(e) by {
        lemma_all_errors_contains(completions, k, e);
    }
}

/// The bag of every completion's non-critical errors, with no order left.
pub open spec fn errors_multiset(completions: Seq<TaskStatus>) -> Multiset<NonCriticalError>
    decreases completions.len(),
{
    if completions.len() == 0 {
        Multiset::empty()
    } else {
        errors_of_status(completions[0]).to_multiset().add(
            errors_multiset(completions.drop_first()),
        )
    }
}

/// The concatenation of the per-completion error lists carries exactly that
/// bag.
proof fn lemma_all_errors_to_multiset(completions: Seq<TaskStatus>)
    ensures
        all_errors(completions).to_multiset() == errors_multiset(completions),
    decreases completions.len(),
{
    broadcast use vstd::seq_lib::group_to_multiset_ensures;

    if completions.len() == 0 {
        assert(all_errors(completions).to_multiset() =~= Multiset::<NonCriticalError>::empty());
    } else {
        lemma_all_errors_to_multiset(completions.drop_first());
        vstd::seq_lib::lemma_multiset_commutative(
            errors_of_status(completions[0]),
            all_errors(completions.drop_first()),
        );
    }
}

/// Taking any one completion out takes exactly its errors out of the bag.
proof fn lemma_errors_multiset_remove(completions: Seq<TaskStatus>, j: int)
    requires
        0 <= j < completions.len(),
    ensures
        errors_multiset(completions) == errors_of_status(completions[j]).to_multiset().add(
            errors_multiset(completions.remove(j)),
        ),
    decreases j,
{
    if j == 0 {
        assert(completions.remove(0) =~= completions.drop_first());
    } else {
        assert(completions.remove(j)[0] == completions[0]);
        assert(completions.remove(j).drop_first() =~= completions.drop_first().remove(j - 1));
        assert(completions.drop_first()[j - 1] == completions[j]);
        lemma_errors_multiset_remove(completions.drop_first(), j - 1);
        assert(errors_of_status(completions[0]).to_multiset().add(
            errors_of_status(completions[j]).to_multiset().add(
                errors_multiset(completions.drop_first().remove(j - 1)),
            ),
        ) =~= errors_of_status(completions[j]).to_multiset().add(
            errors_of_status(completions[0]).to_multiset().add(
                errors_multiset(completions.drop_first().remove(j - 1)),
            ),
        ));
    }
}

/// The bag of errors depends only on which completions arrived, not on their
/// order.
proof fn lemma_errors_multiset_permutation(cs1: Seq<TaskStatus>, cs2: Seq<TaskStatus>)
    requires
        cs1.to_multiset() == cs2.to_multiset(),
    ensures
        errors_multiset(cs1) == errors_multiset(cs2),
    decreases cs1.len(),
{
    broadcast use vstd::seq_lib::group_to_multiset_ensures;

    assert(cs1.to_multiset().len() == cs1.len());
    assert(cs2.to_multiset().len() == cs2.len());
    if cs1.len() == 0 {
        assert(cs2.len() == 0);
    } else {
        let status = cs1[0];
        assert(cs1.to_multiset().contains(status));
        assert(cs2.contains(status));
        let j = choose|j: int| 0 <= j < cs2.len() && cs2[j] == status;
        assert(cs1.remove(0).to_multiset() == cs1.to_multiset().remove(status));
        assert(cs2.remove(j).to_multiset() == cs2.to_multiset().remove(status));
        assert(cs1.remove(0) =~= cs1.drop_first());
        lemma_errors_multiset_permutation(cs1.drop_first(), cs2.remove(j));
        lemma_errors_multiset_remove(cs2, j);
    }
}

/// Commutativity of error accumulation: two runs whose completion scripts are
/// permutations of one another, each observing every completion, end with the
/// same collection of non-critical errors, order set aside.
pub proof fn lemma_errors_commutative(
    in_flight_1: nat,
    cs1: Seq<TaskStatus>,
    in_flight_2: nat,
    cs2: Seq<TaskStatus>,
)
    requires
        fully_active(run_init(in_flight_1), cs1),
        fully_active(run_init(in_flight_2), cs2),
        cs1.to_multiset() == cs2.to_multiset(),
    ensures
        run_from(run_init(in_flight_1), cs1).errors.to_multiset() == run_from(
            run_init(in_flight_2),
            cs2,
        ).errors.to_multiset(),
{
    lemma_errors_accumulate(run_init(in_flight_1), cs1);
    lemma_errors_accumulate(run_init(in_flight_2), cs2);
    assert(Seq::<NonCriticalError>::empty() + all_errors(cs1) =~= all_errors(cs1));
    assert(Seq::<NonCriticalError>::empty() + all_errors(cs2) =~= all_errors(cs2));
    lemma_all_errors_to_multiset(cs1);
    lemma_all_errors_to_multiset(cs2);
    lemma_errors_multiset_permutation(cs1, cs2);
}

/// A task-level `Error` is fatal: the first one observed halts the run with
/// exactly that error, and nothing after it is consumed or dispatched — the
/// run's state, its object-processor dispatches included, is the state at the
/// moment the error was observed.
pub proof fn lemma_error_is_fatal(in_flight: nat, completions: Seq<TaskStatus>, k: int)
    requires
        0 <= k < completions.len(),
        run_active(run_from(run_init(in_flight), completions.take(k))),
        completions[k] matches TaskStatus::Error(_),
    ensures
        run_from(run_init(in_flight), completions) == run_from(
            run_init(in_flight),
            completions.take(k + 1),
        ),
        run_from(run_init(in_flight), completions).halted matches Some(HaltKind::Failed(e))
            && completions[k] == TaskStatus::Error(e),
        run_from(run_init(in_flight), completions).batches == run_from(
            run_init(in_flight),
            completions.take(k),
        ).batches,
{
    let before = run_from(run_init(in_flight), completions.take(k));
    assert(completions.take(k + 1) =~= completions.take(k).push(completions[k]));
    lemma_run_from_snoc(run_init(in_flight), completions.take(k), completions[k]);
    let at = run_step(before, completions[k]);
    assert(completions.take(k + 1) + completions.skip(k + 1) =~= completions);
    crate::orchestrator::lemma_run_from_concat(
        run_init(in_flight),
        completions.take(k + 1),
        completions.skip(k + 1),
    );
    lemma_run_from_frozen(at, completions.skip(k + 1));
}

/// `Shutdown`, `Canceled` and `ForcedAbortion` end the run cleanly: the first
/// one observed halts it as `Stopped` — which the drivers turn into an empty
/// error list, discarding whatever non-critical errors had accumulated — and
/// nothing after it is consumed or dispatched.
pub proof fn lemma_interruption_stops_cleanly(
    in_flight: nat,
    completions: Seq<TaskStatus>,
    k: int,
)
    requires
        0 <= k < completions.len(),
        run_active(run_from(run_init(in_flight), completions.take(k))),
        completions[k] is Shutdown || completions[k] is Canceled || completions[k]
            is ForcedAbortion,
    ensures
        run_from(run_init(in_flight), completions) == run_from(
            run_init(in_flight),
            completions.take(k + 1),
        ),
        run_from(run_init(in_flight), completions).halted == Some(HaltKind::Stopped),
        run_from(run_init(in_flight), completions).errors == run_from(
            run_init(in_flight),
            completions.take(k),
        ).errors,
        run_from(run_init(in_flight), completions).batches == run_from(
            run_init(in_flight),
            completions.take(k),
        ).batches,
{
    let before = run_from(run_init(in_flight), completions.take(k));
    assert(completions.take(k + 1) =~= completions.take(k).push(completions[k]));
    lemma_run_from_snoc(run_init(in_flight), completions.take(k), completions[k]);
    let at = run_step(before, completions[k]);
    assert(completions.take(k + 1) + completions.skip(k + 1) =~= completions);
    crate::orchestrator::lemma_run_from_concat(
        run_init(in_flight),
        completions.take(k + 1),
        completions.skip(k + 1),
    );
    lemma_run_from_frozen(at, completions.skip(k + 1));
}

} // verus!
