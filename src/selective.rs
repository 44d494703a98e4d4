//! What a selective traversal yields when the storage engine's planner
//! answers for each file, and the proofs about it.
use vstd::prelude::*;

use crate::fetch::{
    lemma_plan_entry_len, lemma_plan_len, lemma_total_nonneg, lemma_total_prefix_bounds, plan_of,
    reply_fits, total,
};
use crate::reads::{
    cursor_start, cursor_step, cursor_wf, decoded, entered_with, opened_with, resume, Action, CursorState,
    Event, Wait,
};
use crate::readbatch::{batch_resume, batch_step, batch_wf, handed_out};
use crate::reads::batch_at;
use crate::traversal::{batch_run, files_start, flat_batches, run};

verus! {

/// The answers of a storage engine whose planner replies `replies[f]` for
/// file `f`. The row count of an opened batch is not read in this mode.
pub open spec fn fetch_answers(replies: Seq<Event>) -> spec_fn(Action) -> Event {
    |a: Action|
        match a {
            Action::PlanFetch { file } => replies[file as int],
            Action::OpenBatch { .. } => Event::BatchOpened(0),
            Action::DecodeRow { .. } => Event::RowDecoded,
            _ => Event::Resume,
        }
}

/// Whether a reply is a planner reply that the cursor accepts.
pub open spec fn reply_usable(ev: Event) -> bool {
    match ev {
        Event::Planned { rows_per_batch, batch_rows, located } => located == 0 || reply_fits(
            rows_per_batch@,
            batch_rows@,
            located as int,
        ),
        _ => false,
    }
}

/// The fetch path a planner reply gives.
pub open spec fn reply_plan(ev: Event) -> Seq<(usize, Seq<u32>)> {
    match ev {
        Event::Planned { rows_per_batch, batch_rows, located } => if located == 0 {
            seq![]
        } else {
            plan_of(rows_per_batch@, batch_rows@)
        },
        _ => seq![],
    }
}

/// The rows of one planned batch of file `f`, from its `from`-th entry on.
pub open spec fn entry_rows(f: usize, e: (usize, Seq<u32>), from: int) -> Seq<(usize, usize, usize)> {
    Seq::new((e.1.len() - from) as nat, |i: int| (f, e.0, e.1[from + i] as usize))
}

/// The rows of the planned batches `i..` of file `f`.
pub open spec fn plan_rows_from(f: usize, path: Seq<(usize, Seq<u32>)>, i: int) -> Seq<(usize, usize, usize)>
    decreases path.len() - i,
{
    if i < 0 || i >= path.len() {
        seq![]
    } else {
        entry_rows(f, path[i], 0) + plan_rows_from(f, path, i + 1)
    }
}

/// The rows fetched from files `f..`.
pub open spec fn fetched_from(replies: Seq<Event>, f: int) -> Seq<(usize, usize, usize)>
    decreases replies.len() - f,
{
    if f < 0 || f >= replies.len() {
        seq![]
    } else {
        plan_rows_from(f as usize, reply_plan(replies[f]), 0) + fetched_from(replies, f + 1)
    }
}

/// The number of planned batches of files `f..`.
pub open spec fn plans_from(replies: Seq<Event>, f: int) -> int
    decreases replies.len() - f,
{
    if f < 0 || f >= replies.len() {
        0
    } else {
        reply_plan(replies[f]).len() + plans_from(replies, f + 1)
    }
}

/// A bound on the calls a selective traversal takes.
pub open spec fn fetch_bound(replies: Seq<Event>) -> nat {
    (fetched_from(replies, 0).len() + 2 * plans_from(replies, 0) + 2 * replies.len() + 1) as nat
}

/// A selective cursor over files whose planner replies are `replies`.
pub open spec fn fetch_agrees(s: CursorState, replies: Seq<Event>) -> bool {
    &&& s.fetch_mode
    &&& s.n_files == replies.len()
    &&& forall|f: int| 0 <= f < replies.len() ==> #[trigger] reply_usable(replies[f])
    &&& forall|i: int| 0 <= i < s.path.len() ==> #[trigger] s.path[i].1.len() <= u32::MAX
}

/// The rows a selective cursor in state `s` has still to hand out.
pub open spec fn fetch_remaining(s: CursorState, replies: Seq<Event>) -> Seq<(usize, usize, usize)> {
    let cur = if s.open {
        entry_rows(s.file, s.path[s.next_batch - 1], s.row as int)
    } else {
        seq![]
    };
    let rest = if s.entered {
        plan_rows_from(s.file, s.path, s.next_batch as int)
    } else {
        seq![]
    };
    cur + rest + fetched_from(replies, files_start(s))
}

/// The calls a selective cursor in state `s` has still to take, at most.
pub open spec fn fetch_cost(s: CursorState, replies: Seq<Event>) -> int {
    let batches_left = (if s.entered {
        s.batch_count - s.next_batch
    } else {
        0
    }) + plans_from(replies, files_start(s));
    fetch_remaining(s, replies).len() + 2 * batches_left + 2 * (s.n_files - files_start(s)) + (
    if s.open {
        1int
    } else {
        0
    }) + 1
}

proof fn lemma_plans_from_nonneg(replies: Seq<Event>, f: int)
    ensures
        plans_from(replies, f) >= 0,
    decreases replies.len() - f,
{
    if 0 <= f < replies.len() {
        lemma_plans_from_nonneg(replies, f + 1);
    }
}

/// From a state that waits for nothing, a selective cursor hands out exactly
/// the rows it has still to hand out, and finishes.
proof fn lemma_fetch_run_remaining(s: CursorState, replies: Seq<Event>, fuel: nat)
    requires
        cursor_wf(s),
        s.wait == Wait::Nothing,
        fetch_agrees(s, replies),
        fuel >= fetch_cost(s, replies),
    ensures
        run(s, Event::Resume, fetch_answers(replies), fuel) == Some(fetch_remaining(s, replies)),
    decreases fuel,
{
    lemma_plans_from_nonneg(replies, files_start(s) + 1);
    lemma_plans_from_nonneg(replies, files_start(s));
    let ans = fetch_answers(replies);
    let (s2, a) = resume(s);
    assert(cursor_step(s, Event::Resume) == Some(resume(s)));
    if s.open && s.row >= s.batch_rows {
        assert(ans(a) == Event::Resume);
        assert(fetch_remaining(s2, replies) =~= fetch_remaining(s, replies));
        lemma_fetch_run_remaining(s2, replies, (fuel - 1) as nat);
    } else if s.open {
        let e = s.path[s.next_batch - 1];
        assert(entry_rows(s.file, e, s.row as int) =~= seq![(s.file, e.0, e.1[s.row as int] as usize)]
            + entry_rows(s.file, e, s.row + 1));
        let s3 = decoded(s2);
        assert(ans(a) == Event::RowDecoded);
        assert(cursor_step(s2, Event::RowDecoded) == Some(resume(s3)));
        assert(cursor_step(s3, Event::Resume) == Some(resume(s3)));
        assert(fetch_remaining(s, replies) =~= seq![(s.file, e.0, e.1[s.row as int] as usize)]
            + fetch_remaining(s3, replies));
        lemma_fetch_run_remaining(s3, replies, (fuel - 1) as nat);
        assert(run(s2, Event::RowDecoded, ans, (fuel - 1) as nat) == run(s3, Event::Resume, ans, (fuel - 1) as nat));
    } else if s.entered && s.next_batch < s.batch_count {
        let s3 = opened_with(s2, 0);
        assert(ans(a) == Event::BatchOpened(0));
        assert(cursor_step(s2, Event::BatchOpened(0)) == Some(resume(s3)));
        assert(cursor_step(s3, Event::Resume) == Some(resume(s3)));
        assert(entry_rows(s.file, s.path[s.next_batch as int], 0) =~= entry_rows(
            s3.file,
            s3.path[s3.next_batch - 1],
            s3.row as int,
        ));
        assert(fetch_remaining(s3, replies) =~= fetch_remaining(s, replies));
        lemma_fetch_run_remaining(s3, replies, (fuel - 1) as nat);
        assert(run(s2, Event::BatchOpened(0), ans, (fuel - 1) as nat) == run(
            s3,
            Event::Resume,
            ans,
            (fuel - 1) as nat,
        ));
    } else {
        let f = files_start(s);
        if s.entered {
            assert(plan_rows_from(s.file, s.path, s.next_batch as int) =~= seq![]);
        }
        if f >= s.n_files {
            assert(fetch_remaining(s, replies) =~= seq![]);
        } else {
            let ev = replies[f];
            assert(reply_usable(replies[f]));
            assert(ans(a) == ev);
            let p = reply_plan(ev);
            match ev {
                Event::Planned { rows_per_batch, batch_rows, located } => {
                    lemma_plan_len(rows_per_batch@, batch_rows@);
                    if located != 0 {
                        lemma_plan_entry_len(rows_per_batch@, batch_rows@);
                    }
                    assert(rows_per_batch@.len() == rows_per_batch.len());
                },
                _ => {},
            }
            let s3 = entered_with(s2, p.len() as usize, p);
            assert(cursor_step(s2, ev) == Some(resume(s3)));
            assert(cursor_step(s3, Event::Resume) == Some(resume(s3)));
            assert(fetch_remaining(s3, replies) =~= fetch_remaining(s, replies));
            lemma_fetch_run_remaining(s3, replies, (fuel - 1) as nat);
            assert(run(s2, ev, ans, (fuel - 1) as nat) == run(s3, Event::Resume, ans, (fuel - 1) as nat));
        }
    }
}

/// Selective traversal hands out the planned rows of every file, file by
/// file, each planned batch in plan order and its rows in planner order, and
/// then finishes.
pub proof fn lemma_selective_traversal(replies: Seq<Event>)
    requires
        replies.len() <= usize::MAX,
        forall|f: int| 0 <= f < replies.len() ==> #[trigger] reply_usable(replies[f]),
    ensures
        run(cursor_start(replies.len() as usize, true), Event::Resume, fetch_answers(replies), fetch_bound(replies))
            == Some(fetched_from(replies, 0)),
{
    let s = cursor_start(replies.len() as usize, true);
    assert(fetch_remaining(s, replies) =~= fetched_from(replies, 0));
    lemma_fetch_run_remaining(s, replies, fetch_bound(replies));
}

proof fn lemma_nothing_located(replies: Seq<Event>, f: int)
    requires
        forall|g: int| 0 <= g < replies.len() ==> (#[trigger] replies[g] matches Event::Planned { located, .. } && located == 0),
    ensures
        fetched_from(replies, f) == Seq::<(usize, usize, usize)>::empty(),
    decreases replies.len() - f,
{
    if 0 <= f < replies.len() {
        lemma_nothing_located(replies, f + 1);
        assert(reply_plan(replies[f]) =~= seq![]);
        assert(fetched_from(replies, f) =~= seq![]);
    }
}

/// When the planner locates none of the requested ids in any file, selective
/// traversal hands out no row, and finishes.
pub proof fn lemma_selective_none_located(replies: Seq<Event>)
    requires
        replies.len() <= usize::MAX,
        forall|f: int| 0 <= f < replies.len() ==> (#[trigger] replies[f] matches Event::Planned { located, .. } && located == 0),
    ensures
        run(cursor_start(replies.len() as usize, true), Event::Resume, fetch_answers(replies), fetch_bound(replies))
            == Some(Seq::<(usize, usize, usize)>::empty()),
{
    assert forall|f: int| 0 <= f < replies.len() implies #[trigger] reply_usable(replies[f]) by {
        assert(replies[f] matches Event::Planned { located, .. } && located == 0);
    }
    lemma_nothing_located(replies, 0);
    lemma_selective_traversal(replies);
}


/// The rows that a planner reply lists for batch `b`.
pub open spec fn reply_slice(counts: Seq<u32>, rows: Seq<u32>, b: int) -> Seq<u32> {
    rows.subrange(total(counts.take(b)), total(counts.take(b)) + counts[b])
}

/// Whether a planner reply truthfully answers a request for the ids in
/// `want` over a file whose batch `b` holds rows with ids `ids[b]`: one hit
/// count per batch, counts that add up to the located ids and fit the row
/// buffer, and for each batch, without repetition and in any order, exactly
/// its rows whose ids are requested.
pub open spec fn honest_reply(ids: Seq<Seq<u128>>, want: Set<u128>, ev: Event) -> bool {
    match ev {
        Event::Planned { rows_per_batch, batch_rows, located } => {
            &&& rows_per_batch@.len() == ids.len()
            &&& reply_fits(rows_per_batch@, batch_rows@, located as int)
            &&& forall|b: int|
                0 <= b < ids.len() ==> (#[trigger] reply_slice(rows_per_batch@, batch_rows@, b)).no_duplicates()
            &&& forall|b: int, x: u32|
                0 <= b < ids.len() ==> (#[trigger] reply_slice(rows_per_batch@, batch_rows@, b).contains(x) <==> (
                x < ids[b].len() && want.contains(ids[b][x as int])))
        },
        _ => false,
    }
}

/// Within the buffer, the rows listed for batch `b` number `counts[b]`.
proof fn lemma_slice_len(counts: Seq<u32>, rows: Seq<u32>, b: int)
    requires
        0 <= b < counts.len(),
        total(counts) <= rows.len(),
    ensures
        reply_slice(counts, rows, b).len() == counts[b],
        total(counts.take(b)) >= 0,
{
    lemma_total_nonneg(counts.take(b));
    lemma_total_prefix_bounds(counts, b + 1);
    assert(counts.take(b + 1).drop_last() =~= counts.take(b));
}

proof fn lemma_zero_counts(counts: Seq<u32>)
    requires
        forall|b: int| 0 <= b < counts.len() ==> counts[b] == 0,
    ensures
        total(counts) == 0,
    decreases counts.len(),
{
    if counts.len() > 0 {
        lemma_zero_counts(counts.drop_last());
    }
}

/// An honest planner asked for ids that a file does not hold locates none.
pub proof fn lemma_honest_absent(ids: Seq<Seq<u128>>, want: Set<u128>, ev: Event)
    requires
        honest_reply(ids, want, ev),
        forall|b: int, r: int| 0 <= b < ids.len() && 0 <= r < ids[b].len() ==> !want.contains(#[trigger] ids[b][r]),
    ensures
        ev matches Event::Planned { located, .. } && located == 0,
{
    match ev {
        Event::Planned { rows_per_batch, batch_rows, located } => {
            let counts = rows_per_batch@;
            assert forall|b: int| 0 <= b < counts.len() implies counts[b] == 0 by {
                lemma_slice_len(counts, batch_rows@, b);
                let sl = reply_slice(counts, batch_rows@, b);
                if counts[b] > 0 {
                    assert(sl.contains(sl[0]));
                    assert(want.contains(ids[b][sl[0] as int]));
                }
            }
            lemma_zero_counts(counts);
        },
        _ => {},
    }
}

/// Selective traversal over files that hold none of the requested ids, with
/// every planner reply honest, hands out no row, and finishes.
pub proof fn lemma_selective_absent_ids(data: Seq<Seq<Seq<u128>>>, want: Set<u128>, replies: Seq<Event>)
    requires
        replies.len() == data.len(),
        data.len() <= usize::MAX,
        forall|f: int| 0 <= f < data.len() ==> #[trigger] honest_reply(data[f], want, replies[f]),
        forall|f: int, b: int, r: int|
            0 <= f < data.len() && 0 <= b < data[f].len() && 0 <= r < data[f][b].len() ==> !want.contains(
                #[trigger] data[f][b][r],
            ),
    ensures
        run(cursor_start(replies.len() as usize, true), Event::Resume, fetch_answers(replies), fetch_bound(replies))
            == Some(Seq::<(usize, usize, usize)>::empty()),
{
    assert forall|f: int| 0 <= f < replies.len() implies (#[trigger] replies[f] matches Event::Planned {
        located,
        ..
    } && located == 0) by {
        assert(honest_reply(data[f], want, replies[f]));
        assert forall|b: int, r: int| 0 <= b < data[f].len() && 0 <= r < data[f][b].len() implies !want.contains(
            #[trigger] data[f][b][r],
        ) by {
            assert(!want.contains(data[f][b][r]));
        }
        lemma_honest_absent(data[f], want, replies[f]);
    }
    lemma_selective_none_located(replies);
}


/// The plan lists batch `b` exactly when it has hits, with the rows the
/// reply gives for it, in increasing batch order.
proof fn lemma_plan_structure(counts: Seq<u32>, rows: Seq<u32>)
    requires
        total(counts) <= rows.len(),
        counts.len() <= usize::MAX,
    ensures
        forall|j: int|
            0 <= j < plan_of(counts, rows).len() ==> {
                &&& (#[trigger] plan_of(counts, rows)[j]).0 < counts.len()
                &&& counts[plan_of(counts, rows)[j].0 as int] > 0
                &&& plan_of(counts, rows)[j].1 == reply_slice(counts, rows, plan_of(counts, rows)[j].0 as int)
            },
        forall|j1: int, j2: int|
            0 <= j1 < j2 < plan_of(counts, rows).len() ==> (#[trigger] plan_of(counts, rows)[j1]).0 < (
            #[trigger] plan_of(counts, rows)[j2]).0,
        forall|b: int|
            0 <= b < counts.len() && #[trigger] counts[b] > 0 ==> exists|j: int|
                0 <= j < plan_of(counts, rows).len() && plan_of(counts, rows)[j].0 == b,
    decreases counts.len(),
{
    if counts.len() > 0 {
        let prev = counts.drop_last();
        let k = counts.len() - 1;
        lemma_total_nonneg(prev);
        lemma_plan_structure(prev, rows);
        let pp = plan_of(prev, rows);
        let p = plan_of(counts, rows);
        assert(counts.take(k) =~= prev);
        if counts.last() == 0 {
            assert(p == pp);
        } else {
            assert(p == pp.push((k as usize, reply_slice(counts, rows, k))));
        }
        assert forall|b: int| 0 <= b < prev.len() implies reply_slice(prev, rows, b) == reply_slice(counts, rows, b) by {
            assert(prev.take(b) =~= counts.take(b));
        }
        assert forall|j: int| 0 <= j < p.len() implies {
            &&& (#[trigger] p[j]).0 < counts.len()
            &&& counts[p[j].0 as int] > 0
            &&& p[j].1 == reply_slice(counts, rows, p[j].0 as int)
        } by {
            if j < pp.len() {
                assert(p[j] == pp[j]);
            }
        }
        assert forall|j1: int, j2: int| 0 <= j1 < j2 < p.len() implies (#[trigger] p[j1]).0 < (#[trigger] p[j2]).0 by {
            assert(p[j1] == pp[j1]);
            if j2 < pp.len() {
                assert(p[j2] == pp[j2]);
            }
        }
        assert forall|b: int| 0 <= b < counts.len() && #[trigger] counts[b] > 0 implies exists|j: int|
            0 <= j < p.len() && p[j].0 == b by {
            if b < k {
                assert(prev[b] > 0);
                let j = choose|j: int| 0 <= j < pp.len() && pp[j].0 == b;
                assert(p[j] == pp[j]);
            } else {
                assert(p[pp.len() as int].0 == b);
            }
        }
    }
}

/// What an honest reply's plan holds: duplicate-free rows of the right
/// batches, requested ids only, every requested row of the file, and
/// increasing batch indices.
proof fn lemma_honest_plan(ids: Seq<Seq<u128>>, want: Set<u128>, ev: Event)
    requires
        honest_reply(ids, want, ev),
        forall|b: int| 0 <= b < ids.len() ==> #[trigger] ids[b].len() <= u32::MAX,
    ensures
        reply_usable(ev),
        forall|j: int|
            0 <= j < reply_plan(ev).len() ==> {
                &&& (#[trigger] reply_plan(ev)[j]).1.no_duplicates()
                &&& reply_plan(ev)[j].0 < ids.len()
                &&& forall|k: int|
                    0 <= k < reply_plan(ev)[j].1.len() ==> {
                        &&& (#[trigger] reply_plan(ev)[j].1[k]) < ids[reply_plan(ev)[j].0 as int].len()
                        &&& want.contains(ids[reply_plan(ev)[j].0 as int][reply_plan(ev)[j].1[k] as int])
                    }
            },
        forall|j1: int, j2: int|
            0 <= j1 < j2 < reply_plan(ev).len() ==> (#[trigger] reply_plan(ev)[j1]).0 < (
            #[trigger] reply_plan(ev)[j2]).0,
        forall|b: int, r: int|
            0 <= b < ids.len() && 0 <= r < ids[b].len() && want.contains(#[trigger] ids[b][r]) ==> exists|
                j: int,
                k: int,
            |
                0 <= j < reply_plan(ev).len() && 0 <= k < reply_plan(ev)[j].1.len() && reply_plan(ev)[j].0 == b
                    && reply_plan(ev)[j].1[k] == r,
{
    match ev {
        Event::Planned { rows_per_batch, batch_rows, located } => {
            let counts = rows_per_batch@;
            let rows = batch_rows@;
            let p = reply_plan(ev);
            assert(counts.len() == rows_per_batch.len());
            lemma_plan_structure(counts, rows);
            assert forall|b: int, r: int| 0 <= b < ids.len() && 0 <= r < ids[b].len() && want.contains(
                #[trigger] ids[b][r],
            ) implies exists|j: int, k: int|
                0 <= j < p.len() && 0 <= k < p[j].1.len() && p[j].0 == b && p[j].1[k] == r by {
                let sl = reply_slice(counts, rows, b);
                let x = r as u32;
                assert(x < ids[b].len() && want.contains(ids[b][x as int]));
                assert(sl.contains(x));
                let k = choose|k: int| 0 <= k < sl.len() && sl[k] == x;
                lemma_slice_len(counts, rows, b);
                if located == 0 {
                    lemma_total_prefix_bounds(counts, b + 1);
                    assert(counts.take(b + 1).drop_last() =~= counts.take(b));
                    assert(false);
                }
                let j = choose|j: int| 0 <= j < plan_of(counts, rows).len() && plan_of(counts, rows)[j].0 == b;
                assert(p[j].1 == sl);
            }
            assert forall|j: int| 0 <= j < p.len() implies {
                &&& (#[trigger] p[j]).1.no_duplicates()
                &&& p[j].0 < ids.len()
                &&& forall|k: int|
                    0 <= k < p[j].1.len() ==> {
                        &&& (#[trigger] p[j].1[k]) < ids[p[j].0 as int].len()
                        &&& want.contains(ids[p[j].0 as int][p[j].1[k] as int])
                    }
            } by {
                let b = p[j].0 as int;
                assert(reply_slice(counts, rows, b).no_duplicates());
                assert forall|k: int| 0 <= k < p[j].1.len() implies {
                    &&& (#[trigger] p[j].1[k]) < ids[b].len()
                    &&& want.contains(ids[b][p[j].1[k] as int])
                } by {
                    assert(reply_slice(counts, rows, b).contains(p[j].1[k]));
                }
            }
        },
        _ => {},
    }
}

/// Where the rows of a file's plan come from, and that each planned row is
/// among them.
proof fn lemma_plan_rows_members(f: usize, p: Seq<(usize, Seq<u32>)>, i: int)
    requires
        0 <= i,
    ensures
        forall|t: (usize, usize, usize)|
            #[trigger] plan_rows_from(f, p, i).contains(t) ==> exists|j: int, k: int|
                i <= j < p.len() && 0 <= k < p[j].1.len() && t == (f, p[j].0, p[j].1[k] as usize),
        forall|j: int, k: int|
            i <= j < p.len() && 0 <= k < p[j].1.len() ==> plan_rows_from(f, p, i).contains(
                (f, p[j].0, #[trigger] p[j].1[k] as usize),
            ),
    decreases p.len() - i,
{
    if i < p.len() {
        lemma_plan_rows_members(f, p, i + 1);
        let a = entry_rows(f, p[i], 0);
        let b = plan_rows_from(f, p, i + 1);
        let c = plan_rows_from(f, p, i);
        assert(c == a + b);
        assert forall|t: (usize, usize, usize)| #[trigger] c.contains(t) implies exists|j: int, k: int|
            i <= j < p.len() && 0 <= k < p[j].1.len() && t == (f, p[j].0, p[j].1[k] as usize) by {
            let m = choose|m: int| 0 <= m < c.len() && c[m] == t;
            if m < a.len() {
                assert(t == (f, p[i].0, p[i].1[m] as usize));
            } else {
                assert(b[m - a.len()] == t);
                assert(b.contains(t));
            }
        }
        assert forall|j: int, k: int| i <= j < p.len() && 0 <= k < p[j].1.len() implies c.contains(
            (f, p[j].0, #[trigger] p[j].1[k] as usize),
        ) by {
            let t = (f, p[j].0, p[j].1[k] as usize);
            if j == i {
                assert(c[k] == t);
            } else {
                assert(b.contains(t));
                let m = choose|m: int| 0 <= m < b.len() && b[m] == t;
                assert(c[a.len() + m] == t);
            }
        }
    }
}

/// The rows of a file's plan are distinct when each planned batch lists
/// distinct rows and batch indices increase.
proof fn lemma_plan_rows_no_dup(f: usize, p: Seq<(usize, Seq<u32>)>, i: int)
    requires
        0 <= i,
        forall|j: int| 0 <= j < p.len() ==> (#[trigger] p[j]).1.no_duplicates(),
        forall|j1: int, j2: int| 0 <= j1 < j2 < p.len() ==> (#[trigger] p[j1]).0 < (#[trigger] p[j2]).0,
    ensures
        plan_rows_from(f, p, i).no_duplicates(),
    decreases p.len() - i,
{
    if i < p.len() {
        lemma_plan_rows_no_dup(f, p, i + 1);
        lemma_plan_rows_members(f, p, i + 1);
        let a = entry_rows(f, p[i], 0);
        let b = plan_rows_from(f, p, i + 1);
        assert(p[i].1.no_duplicates());
        assert forall|m1: int, m2: int| 0 <= m1 < a.len() && 0 <= m2 < a.len() && m1 != m2 implies a[m1] != a[m2] by {
            assert(p[i].1[m1] != p[i].1[m2]);
        }
        assert forall|m1: int, m2: int| 0 <= m1 < a.len() && 0 <= m2 < b.len() implies a[m1] != b[m2] by {
            assert(b.contains(b[m2]));
            let (j, k) = choose|j: int, k: int|
                i + 1 <= j < p.len() && 0 <= k < p[j].1.len() && b[m2] == (f, p[j].0, p[j].1[k] as usize);
            assert(p[i].0 < p[j].0);
        }
        vstd::seq_lib::lemma_no_dup_in_concat(a, b);
    }
}

/// The rows fetched from files `g..`: where each comes from, and that every
/// planned row of those files is among them.
proof fn lemma_fetched_members(replies: Seq<Event>, g: int)
    requires
        0 <= g,
        replies.len() <= usize::MAX,
    ensures
        forall|t: (usize, usize, usize)|
            #[trigger] fetched_from(replies, g).contains(t) ==> exists|f: int|
                g <= f < replies.len() && plan_rows_from(f as usize, reply_plan(replies[f]), 0).contains(t),
        forall|f: int, t: (usize, usize, usize)|
            g <= f < replies.len() && #[trigger] plan_rows_from(f as usize, reply_plan(replies[f]), 0).contains(t)
                ==> fetched_from(replies, g).contains(t),
    decreases replies.len() - g,
{
    if g < replies.len() {
        lemma_fetched_members(replies, g + 1);
        let a = plan_rows_from(g as usize, reply_plan(replies[g]), 0);
        let b = fetched_from(replies, g + 1);
        let c = fetched_from(replies, g);
        assert(c == a + b);
        assert forall|t: (usize, usize, usize)| #[trigger] c.contains(t) implies exists|f: int|
            g <= f < replies.len() && plan_rows_from(f as usize, reply_plan(replies[f]), 0).contains(t) by {
            let m = choose|m: int| 0 <= m < c.len() && c[m] == t;
            if m < a.len() {
                assert(a[m] == t);
                assert(a.contains(t));
            } else {
                assert(b[m - a.len()] == t);
                assert(b.contains(t));
            }
        }
        assert forall|f: int, t: (usize, usize, usize)|
            g <= f < replies.len() && #[trigger] plan_rows_from(f as usize, reply_plan(replies[f]), 0).contains(t)
            implies c.contains(t) by {
            if f == g {
                let m = choose|m: int| 0 <= m < a.len() && a[m] == t;
                assert(c[m] == t);
            } else {
                assert(b.contains(t));
                let m = choose|m: int| 0 <= m < b.len() && b[m] == t;
                assert(c[a.len() + m] == t);
            }
        }
    }
}

/// The rows fetched from files `g..` are distinct when each file's plan is.
proof fn lemma_fetched_no_dup(replies: Seq<Event>, g: int)
    requires
        0 <= g,
        replies.len() <= usize::MAX,
        forall|f: int| 0 <= f < replies.len() ==> (#[trigger] plan_rows_from(f as usize, reply_plan(replies[f]), 0)).no_duplicates(),
    ensures
        fetched_from(replies, g).no_duplicates(),
    decreases replies.len() - g,
{
    if g < replies.len() {
        lemma_fetched_no_dup(replies, g + 1);
        lemma_fetched_members(replies, g + 1);
        let pg = reply_plan(replies[g]);
        lemma_plan_rows_members(g as usize, pg, 0);
        let a = plan_rows_from(g as usize, pg, 0);
        let b = fetched_from(replies, g + 1);
        assert(a.no_duplicates());
        assert forall|m1: int, m2: int| 0 <= m1 < a.len() && 0 <= m2 < b.len() implies a[m1] != b[m2] by {
            assert(a.contains(a[m1]));
            assert(b.contains(b[m2]));
            let f = choose|f: int| g + 1 <= f < replies.len() && plan_rows_from(f as usize, reply_plan(replies[f]), 0).contains(b[m2]);
            lemma_plan_rows_members(f as usize, reply_plan(replies[f]), 0);
            assert(b[m2].0 == f as usize);
            assert(a[m1].0 == g as usize);
        }
        vstd::seq_lib::lemma_no_dup_in_concat(a, b);
    }
}

/// The ids of the rows a traversal hands out.
pub open spec fn fetched_ids(data: Seq<Seq<Seq<u128>>>, rows: Seq<(usize, usize, usize)>) -> Seq<u128> {
    rows.map_values(|t: (usize, usize, usize)| data[t.0 as int][t.1 as int][t.2 as int])
}

/// Selective traversal for ids that the files all hold, with every planner
/// reply honest and every id held by one row only, hands out exactly the
/// requested ids, each once (in the planner's order, not the request's), and
/// finishes.
pub proof fn lemma_selective_present_ids(data: Seq<Seq<Seq<u128>>>, want: Set<u128>, replies: Seq<Event>)
    requires
        replies.len() == data.len(),
        data.len() <= usize::MAX,
        forall|f: int, b: int| 0 <= f < data.len() && 0 <= b < data[f].len() ==> #[trigger] data[f][b].len() <= u32::MAX,
        forall|f: int| 0 <= f < data.len() ==> #[trigger] honest_reply(data[f], want, replies[f]),
        forall|f1: int, b1: int, r1: int, f2: int, b2: int, r2: int|
            0 <= f1 < data.len() && 0 <= b1 < data[f1].len() && 0 <= r1 < data[f1][b1].len() && 0 <= f2
                < data.len() && 0 <= b2 < data[f2].len() && 0 <= r2 < data[f2][b2].len() && #[trigger] data[f1][b1][r1]
                == #[trigger] data[f2][b2][r2] ==> f1 == f2 && b1 == b2 && r1 == r2,
        forall|x: u128|
            #[trigger] want.contains(x) ==> exists|f: int, b: int, r: int|
                0 <= f < data.len() && 0 <= b < data[f].len() && 0 <= r < data[f][b].len() && data[f][b][r] == x,
    ensures
        run(cursor_start(replies.len() as usize, true), Event::Resume, fetch_answers(replies), fetch_bound(replies))
            == Some(fetched_from(replies, 0)),
        fetched_ids(data, fetched_from(replies, 0)).no_duplicates(),
        fetched_ids(data, fetched_from(replies, 0)).to_set() == want,
{
    let out = fetched_from(replies, 0);
    assert forall|f: int| 0 <= f < data.len() implies {
        &&& #[trigger] reply_usable(replies[f])
        &&& plan_rows_from(f as usize, reply_plan(replies[f]), 0).no_duplicates()
    } by {
        assert(honest_reply(data[f], want, replies[f]));
        assert forall|b: int| 0 <= b < data[f].len() implies #[trigger] data[f][b].len() <= u32::MAX by {
            assert(data[f][b].len() <= u32::MAX);
        }
        lemma_honest_plan(data[f], want, replies[f]);
        lemma_plan_rows_no_dup(f as usize, reply_plan(replies[f]), 0);
    }
    assert forall|f: int| 0 <= f < replies.len() implies (#[trigger] plan_rows_from(
        f as usize,
        reply_plan(replies[f]),
        0,
    )).no_duplicates() by {
        assert(reply_usable(replies[f]));
    }
    lemma_selective_traversal(replies);
    lemma_fetched_no_dup(replies, 0);
    lemma_fetched_members(replies, 0);
    // every handed-out row lies in its file and holds a requested id
    assert forall|m: int| 0 <= m < out.len() implies {
        &&& (#[trigger] out[m]).0 < data.len()
        &&& out[m].1 < data[out[m].0 as int].len()
        &&& out[m].2 < data[out[m].0 as int][out[m].1 as int].len()
        &&& want.contains(data[out[m].0 as int][out[m].1 as int][out[m].2 as int])
    } by {
        let t = out[m];
        assert(out.contains(t));
        let f = choose|f: int| 0 <= f < replies.len() && plan_rows_from(f as usize, reply_plan(replies[f]), 0).contains(t);
        let p = reply_plan(replies[f]);
        lemma_plan_rows_members(f as usize, p, 0);
        let (j, k) = choose|j: int, k: int| 0 <= j < p.len() && 0 <= k < p[j].1.len() && t == (f as usize, p[j].0, p[j].1[k] as usize);
        assert forall|b: int| 0 <= b < data[f].len() implies #[trigger] data[f][b].len() <= u32::MAX by {
            assert(data[f][b].len() <= u32::MAX);
        }
        lemma_honest_plan(data[f], want, replies[f]);
        assert(p[j].1[k] < data[f][p[j].0 as int].len());
    }
    let ids = fetched_ids(data, out);
    assert forall|m1: int, m2: int| 0 <= m1 < ids.len() && 0 <= m2 < ids.len() && m1 != m2 implies ids[m1] != ids[m2] by {
        assert(out[m1] != out[m2]);
        assert(out[m1].0 < data.len());
        assert(out[m2].0 < data.len());
    }
    assert forall|x: u128| ids.to_set().contains(x) <==> want.contains(x) by {
        if ids.contains(x) {
            let m = choose|m: int| 0 <= m < ids.len() && ids[m] == x;
            assert(out[m].0 < data.len());
        }
        if want.contains(x) {
            let (f, b, r) = choose|f: int, b: int, r: int|
                0 <= f < data.len() && 0 <= b < data[f].len() && 0 <= r < data[f][b].len() && data[f][b][r] == x;
            let p = reply_plan(replies[f]);
            assert forall|bb: int| 0 <= bb < data[f].len() implies #[trigger] data[f][bb].len() <= u32::MAX by {
                assert(data[f][bb].len() <= u32::MAX);
            }
            lemma_honest_plan(data[f], want, replies[f]);
            let (j, k) = choose|j: int, k: int| 0 <= j < p.len() && 0 <= k < p[j].1.len() && p[j].0 == b && p[j].1[k] == r;
            lemma_plan_rows_members(f as usize, p, 0);
            let t = (f as usize, p[j].0, p[j].1[k] as usize);
            assert(plan_rows_from(f as usize, p, 0).contains(t));
            assert(out.contains(t));
            let m = choose|m: int| 0 <= m < out.len() && out[m] == t;
            assert(ids[m] == x);
            assert(ids.contains(x));
        }
    }
    assert(ids.to_set() =~= want);
}


/// A bound on the calls a selective batch traversal takes.
pub open spec fn batch_fetch_bound(replies: Seq<Event>) -> nat {
    (3 * plans_from(replies, 0) + 2 * replies.len() + 1) as nat
}

/// The rows a selective batch cursor in state `s` has still to hand out.
pub open spec fn batch_remaining(s: CursorState, replies: Seq<Event>) -> Seq<(usize, usize, usize)> {
    let rest = if s.entered {
        plan_rows_from(s.file, s.path, s.next_batch as int)
    } else {
        seq![]
    };
    rest + fetched_from(replies, files_start(s))
}

/// The batches it has still to hand out.
pub open spec fn batches_left(s: CursorState, replies: Seq<Event>) -> int {
    (if s.entered {
        s.batch_count - s.next_batch
    } else {
        0
    }) + plans_from(replies, files_start(s))
}

proof fn lemma_batch_run_remaining(s: CursorState, replies: Seq<Event>, fuel: nat)
    requires
        batch_wf(s),
        s.wait == Wait::Nothing,
        fetch_agrees(s, replies),
        fuel >= 3 * batches_left(s, replies) + 2 * (s.n_files - files_start(s)) + (if s.open {
            1int
        } else {
            0
        }) + 1,
    ensures
        batch_run(s, Event::Resume, fetch_answers(replies), fuel) matches Some(out) && flat_batches(out)
            == batch_remaining(s, replies) && out.len() == batches_left(s, replies),
    decreases fuel,
{
    lemma_plans_from_nonneg(replies, files_start(s) + 1);
    lemma_plans_from_nonneg(replies, files_start(s));
    let ans = fetch_answers(replies);
    let (s2, a) = batch_resume(s);
    assert(batch_step(s, Event::Resume) == Some(batch_resume(s)));
    if s.open {
        assert(ans(a) == Event::Resume);
        lemma_batch_run_remaining(s2, replies, (fuel - 1) as nat);
    } else if s.entered && s.next_batch < s.batch_count {
        assert(ans(a) == Event::BatchOpened(0));
        let s3 = handed_out(s2);
        let e = (s.file, batch_at(s2, s2.next_batch as int), 0usize, s2.path[s2.next_batch as int].1);
        lemma_batch_run_remaining(s3, replies, (fuel - 2) as nat);
        let rest = batch_run(s3, Event::Resume, ans, (fuel - 2) as nat)->Some_0;
        assert(batch_run(s2, Event::BatchOpened(0), ans, (fuel - 1) as nat) == Some(seq![e] + rest));
        assert((seq![e] + rest).drop_first() =~= rest);
        assert(Seq::new(e.3.len(), |i: int| (e.0, e.1, e.3[i] as usize)) =~= entry_rows(
            s.file,
            s.path[s.next_batch as int],
            0,
        ));
        assert(batch_remaining(s, replies) =~= entry_rows(s.file, s.path[s.next_batch as int], 0)
            + batch_remaining(s3, replies));
    } else {
        let f = files_start(s);
        if s.entered {
            assert(plan_rows_from(s.file, s.path, s.next_batch as int) =~= seq![]);
        }
        if f >= s.n_files {
            assert(batch_remaining(s, replies) =~= seq![]);
        } else {
            let ev = replies[f];
            assert(reply_usable(replies[f]));
            assert(ans(a) == ev);
            let p = reply_plan(ev);
            match ev {
                Event::Planned { rows_per_batch, batch_rows, located } => {
                    lemma_plan_len(rows_per_batch@, batch_rows@);
                    if located != 0 {
                        lemma_plan_entry_len(rows_per_batch@, batch_rows@);
                    }
                    assert(rows_per_batch@.len() == rows_per_batch.len());
                },
                _ => {},
            }
            let s3 = entered_with(s2, p.len() as usize, p);
            assert(batch_step(s2, ev) == Some(batch_resume(s3)));
            assert(batch_step(s3, Event::Resume) == Some(batch_resume(s3)));
            assert(batch_remaining(s3, replies) =~= batch_remaining(s, replies));
            lemma_batch_run_remaining(s3, replies, (fuel - 1) as nat);
            assert(batch_run(s2, ev, ans, (fuel - 1) as nat) == batch_run(s3, Event::Resume, ans, (fuel - 1) as nat));
        }
    }
}

/// Selective batch traversal hands out one batch per planned batch, and the
/// rows it asks to project, batch after batch, are exactly the rows the row
/// cursor hands out; then it finishes.
pub proof fn lemma_batch_selective_traversal(replies: Seq<Event>)
    requires
        replies.len() <= usize::MAX,
        forall|f: int| 0 <= f < replies.len() ==> #[trigger] reply_usable(replies[f]),
    ensures
        batch_run(cursor_start(replies.len() as usize, true), Event::Resume, fetch_answers(replies), batch_fetch_bound(replies))
            matches Some(out) && flat_batches(out) == fetched_from(replies, 0) && out.len() == plans_from(replies, 0),
{
    let s = cursor_start(replies.len() as usize, true);
    assert(batch_remaining(s, replies) =~= fetched_from(replies, 0));
    lemma_batch_run_remaining(s, replies, batch_fetch_bound(replies));
}


proof fn lemma_no_plans(replies: Seq<Event>, f: int)
    requires
        forall|g: int| 0 <= g < replies.len() ==> (#[trigger] replies[g] matches Event::Planned { located, .. } && located == 0),
    ensures
        plans_from(replies, f) == 0,
    decreases replies.len() - f,
{
    if 0 <= f < replies.len() {
        lemma_no_plans(replies, f + 1);
        assert(reply_plan(replies[f]) =~= seq![]);
    }
}

/// Selective batch traversal over files that hold none of the requested
/// ids, with every planner reply honest, hands out no batch, and finishes.
pub proof fn lemma_batch_selective_absent_ids(data: Seq<Seq<Seq<u128>>>, want: Set<u128>, replies: Seq<Event>)
    requires
        replies.len() == data.len(),
        data.len() <= usize::MAX,
        forall|f: int| 0 <= f < data.len() ==> #[trigger] honest_reply(data[f], want, replies[f]),
        forall|f: int, b: int, r: int|
            0 <= f < data.len() && 0 <= b < data[f].len() && 0 <= r < data[f][b].len() ==> !want.contains(
                #[trigger] data[f][b][r],
            ),
    ensures
        batch_run(cursor_start(replies.len() as usize, true), Event::Resume, fetch_answers(replies), batch_fetch_bound(replies))
            == Some(Seq::<(usize, usize, usize, Seq<u32>)>::empty()),
{
    assert forall|f: int| 0 <= f < replies.len() implies (#[trigger] replies[f] matches Event::Planned {
        located,
        ..
    } && located == 0) by {
        assert(honest_reply(data[f], want, replies[f]));
        assert forall|b: int, r: int| 0 <= b < data[f].len() && 0 <= r < data[f][b].len() implies !want.contains(
            #[trigger] data[f][b][r],
        ) by {
            assert(!want.contains(data[f][b][r]));
        }
        lemma_honest_absent(data[f], want, replies[f]);
    }
    assert forall|f: int| 0 <= f < replies.len() implies #[trigger] reply_usable(replies[f]) by {
        assert(replies[f] matches Event::Planned { located, .. } && located == 0);
    }
    lemma_no_plans(replies, 0);
    lemma_batch_selective_traversal(replies);
    let out = batch_run(
        cursor_start(replies.len() as usize, true),
        Event::Resume,
        fetch_answers(replies),
        batch_fetch_bound(replies),
    )->Some_0;
    assert(out =~= Seq::<(usize, usize, usize, Seq<u32>)>::empty());
}

/// Selective batch traversal for ids that the files all hold, with every
/// planner reply honest and every id held by one row only, hands out batches
/// whose fetched rows hold exactly the requested ids, each once, and
/// finishes.
pub proof fn lemma_batch_selective_present_ids(data: Seq<Seq<Seq<u128>>>, want: Set<u128>, replies: Seq<Event>)
    requires
        replies.len() == data.len(),
        data.len() <= usize::MAX,
        forall|f: int, b: int| 0 <= f < data.len() && 0 <= b < data[f].len() ==> #[trigger] data[f][b].len() <= u32::MAX,
        forall|f: int| 0 <= f < data.len() ==> #[trigger] honest_reply(data[f], want, replies[f]),
        forall|f1: int, b1: int, r1: int, f2: int, b2: int, r2: int|
            0 <= f1 < data.len() && 0 <= b1 < data[f1].len() && 0 <= r1 < data[f1][b1].len() && 0 <= f2
                < data.len() && 0 <= b2 < data[f2].len() && 0 <= r2 < data[f2][b2].len() && #[trigger] data[f1][b1][r1]
                == #[trigger] data[f2][b2][r2] ==> f1 == f2 && b1 == b2 && r1 == r2,
        forall|x: u128|
            #[trigger] want.contains(x) ==> exists|f: int, b: int, r: int|
                0 <= f < data.len() && 0 <= b < data[f].len() && 0 <= r < data[f][b].len() && data[f][b][r] == x,
    ensures
        batch_run(cursor_start(replies.len() as usize, true), Event::Resume, fetch_answers(replies), batch_fetch_bound(replies))
            matches Some(out) && fetched_ids(data, flat_batches(out)).no_duplicates() && fetched_ids(
            data,
            flat_batches(out),
        ).to_set() == want,
{
    lemma_selective_present_ids(data, want, replies);
    assert forall|f: int| 0 <= f < replies.len() implies #[trigger] reply_usable(replies[f]) by {
        assert(honest_reply(data[f], want, replies[f]));
        assert forall|b: int| 0 <= b < data[f].len() implies #[trigger] data[f][b].len() <= u32::MAX by {
            assert(data[f][b].len() <= u32::MAX);
        }
        lemma_honest_plan(data[f], want, replies[f]);
    }
    lemma_batch_selective_traversal(replies);
}

} // verus!
