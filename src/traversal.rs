//! What a traversal yields when the storage engine answers every request
//! truthfully, and the proof that sequential traversal visits each row once,
//! in order.
use vstd::prelude::*;

use crate::readbatch::{batch_resume, batch_step, batch_wf, handed_out};
use crate::reader::{sum_counts, FileHandle};
use crate::reads::{
    batch_at, cursor_start, cursor_step, cursor_wf, decoded, entered_with, opened_with, resume, Action, CursorState,
    Event, Wait,
};

verus! {

/// Files described by the row counts of their batches: `layout[f][b]` is the
/// number of rows of batch `b` of file `f`.
pub open spec fn layout_fits(layout: Seq<Seq<usize>>) -> bool {
    &&& layout.len() <= usize::MAX
    &&& forall|f: int| 0 <= f < layout.len() ==> #[trigger] layout[f].len() <= usize::MAX
}

/// The answer of a storage engine holding files laid out as `layout`.
pub open spec fn answer(layout: Seq<Seq<usize>>, a: Action) -> Event {
    match a {
        Action::CountBatches { file } => Event::BatchCount(layout[file as int].len() as usize),
        Action::OpenBatch { file, batch } => Event::BatchOpened(layout[file as int][batch as int]),
        Action::DecodeRow { .. } => Event::RowDecoded,
        _ => Event::Resume,
    }
}

/// The answers of a storage engine holding files laid out as `layout`.
pub open spec fn answers(layout: Seq<Seq<usize>>) -> spec_fn(Action) -> Event {
    |a: Action| answer(layout, a)
}

/// The rows (file, batch, row) a row cursor in state `s` hands out from event
/// `ev` on, each request answered by `ans`, when it finishes within `fuel`
/// calls; `None` when it does not.
pub open spec fn run(s: CursorState, ev: Event, ans: spec_fn(Action) -> Event, fuel: nat) -> Option<
    Seq<(usize, usize, usize)>,
>
    decreases fuel,
{
    if fuel == 0 {
        None
    } else {
        match cursor_step(s, ev) {
            None => None,
            Some(t) => match t.1 {
                Action::DecodeRow { file, batch, row } => match run(
                    t.0,
                    ans(t.1),
                    ans,
                    (fuel - 1) as nat,
                ) {
                    Some(rest) => Some(seq![(file, batch, row)] + rest),
                    None => None,
                },
                Action::Finished => Some(seq![]),
                Action::Failed(_) => None,
                Action::Rejected => None,
                Action::EmitBatch(_) => None,
                _ => run(t.0, ans(t.1), ans, (fuel - 1) as nat),
            },
        }
    }
}

/// Rows `r..n` of batch `b` of file `f`.
pub open spec fn batch_rows_from(f: usize, b: usize, n: usize, r: usize) -> Seq<(usize, usize, usize)> {
    Seq::new((n - r) as nat, |i: int| (f, b, (r + i) as usize))
}

/// The rows of batches `b..` of file `f`.
pub open spec fn file_rows_from(layout: Seq<Seq<usize>>, f: int, b: int) -> Seq<(usize, usize, usize)>
    decreases layout[f].len() - b,
{
    if b < 0 || b >= layout[f].len() {
        seq![]
    } else {
        batch_rows_from(f as usize, b as usize, layout[f][b], 0) + file_rows_from(layout, f, b + 1)
    }
}

/// The rows of files `f..`.
pub open spec fn files_rows_from(layout: Seq<Seq<usize>>, f: int) -> Seq<(usize, usize, usize)>
    decreases layout.len() - f,
{
    if f < 0 || f >= layout.len() {
        seq![]
    } else {
        file_rows_from(layout, f, 0) + files_rows_from(layout, f + 1)
    }
}

/// Every row of every file: file by file in order, batch by batch, row by row.
pub open spec fn all_rows(layout: Seq<Seq<usize>>) -> Seq<(usize, usize, usize)> {
    files_rows_from(layout, 0)
}

/// The number of rows of batches `b..` of file `f`.
pub open spec fn file_total_from(layout: Seq<Seq<usize>>, f: int, b: int) -> int
    decreases layout[f].len() - b,
{
    if b < 0 || b >= layout[f].len() {
        0
    } else {
        layout[f][b] + file_total_from(layout, f, b + 1)
    }
}

/// The number of rows of files `f..`: the sum of their row counts.
pub open spec fn total_from(layout: Seq<Seq<usize>>, f: int) -> int
    decreases layout.len() - f,
{
    if f < 0 || f >= layout.len() {
        0
    } else {
        file_total_from(layout, f, 0) + total_from(layout, f + 1)
    }
}

/// The number of batches of files `f..`.
pub open spec fn batches_from(layout: Seq<Seq<usize>>, f: int) -> int
    decreases layout.len() - f,
{
    if f < 0 || f >= layout.len() {
        0
    } else {
        layout[f].len() + batches_from(layout, f + 1)
    }
}

/// A bound on the calls a sequential traversal of `layout` takes.
pub open spec fn traversal_bound(layout: Seq<Seq<usize>>) -> nat {
    (total_from(layout, 0) + 2 * batches_from(layout, 0) + 2 * layout.len() + 1) as nat
}

/// A sequential cursor whose knowledge agrees with `layout`.
pub open spec fn agrees(s: CursorState, layout: Seq<Seq<usize>>) -> bool {
    &&& !s.fetch_mode
    &&& s.n_files == layout.len()
    &&& s.entered ==> s.batch_count == layout[s.file as int].len()
    &&& s.open ==> s.batch_rows == layout[s.file as int][s.next_batch - 1]
}

/// The first file the cursor has not entered yet.
pub open spec fn files_start(s: CursorState) -> int {
    if s.entered {
        s.file + 1
    } else {
        s.file as int
    }
}

/// The rows a cursor in state `s` has still to hand out.
pub open spec fn remaining(s: CursorState, layout: Seq<Seq<usize>>) -> Seq<(usize, usize, usize)> {
    let cur = if s.open {
        batch_rows_from(s.file, (s.next_batch - 1) as usize, s.batch_rows, s.row)
    } else {
        seq![]
    };
    let rest = if s.entered {
        file_rows_from(layout, s.file as int, s.next_batch as int)
    } else {
        seq![]
    };
    cur + rest + files_rows_from(layout, files_start(s))
}

/// The calls a cursor in state `s` has still to take, at most.
pub open spec fn cost(s: CursorState, layout: Seq<Seq<usize>>) -> int {
    let batches_left = (if s.entered {
        s.batch_count - s.next_batch
    } else {
        0
    }) + batches_from(layout, files_start(s));
    remaining(s, layout).len() + 2 * batches_left + 2 * (s.n_files - files_start(s)) + (if s.open {
        1int
    } else {
        0
    }) + 1
}

proof fn lemma_file_rows_len(layout: Seq<Seq<usize>>, f: int, b: int)
    requires
        0 <= b,
    ensures
        file_rows_from(layout, f, b).len() == file_total_from(layout, f, b),
    decreases layout[f].len() - b,
{
    if b < layout[f].len() {
        lemma_file_rows_len(layout, f, b + 1);
    }
}

proof fn lemma_files_rows_len(layout: Seq<Seq<usize>>, f: int)
    requires
        0 <= f,
    ensures
        files_rows_from(layout, f).len() == total_from(layout, f),
    decreases layout.len() - f,
{
    if f < layout.len() {
        lemma_file_rows_len(layout, f, 0);
        lemma_files_rows_len(layout, f + 1);
    }
}

proof fn lemma_batches_from_nonneg(layout: Seq<Seq<usize>>, f: int)
    ensures
        batches_from(layout, f) >= 0,
    decreases layout.len() - f,
{
    if 0 <= f < layout.len() {
        lemma_batches_from_nonneg(layout, f + 1);
    }
}

/// From a state that waits for nothing, the cursor hands out exactly the rows
/// it has still to hand out, and finishes.
proof fn lemma_run_remaining(s: CursorState, layout: Seq<Seq<usize>>, fuel: nat)
    requires
        cursor_wf(s),
        s.wait == Wait::Nothing,
        agrees(s, layout),
        layout_fits(layout),
        fuel >= cost(s, layout),
    ensures
        run(s, Event::Resume, answers(layout), fuel) == Some(remaining(s, layout)),
    decreases fuel,
{
    lemma_batches_from_nonneg(layout, files_start(s) + 1);
    lemma_batches_from_nonneg(layout, files_start(s));
    let (s2, a) = resume(s);
    assert(cursor_step(s, Event::Resume) == Some(resume(s)));
    assert(answers(layout)(a) == answer(layout, a));
    if s.open && s.row >= s.batch_rows {
        assert(remaining(s2, layout) =~= remaining(s, layout));
        lemma_run_remaining(s2, layout, (fuel - 1) as nat);
    } else if s.open {
        let b = (s.next_batch - 1) as usize;
        assert(batch_rows_from(s.file, b, s.batch_rows, s.row) =~= seq![(s.file, b, s.row)]
            + batch_rows_from(s.file, b, s.batch_rows, (s.row + 1) as usize));
        let s3 = decoded(s2);
        assert(answer(layout, a) == Event::RowDecoded);
        assert(cursor_step(s2, Event::RowDecoded) == Some(resume(s3)));
        assert(cursor_step(s3, Event::Resume) == Some(resume(s3)));
        assert(remaining(s, layout) =~= seq![(s.file, b, s.row)] + remaining(s3, layout));
        lemma_run_remaining(s3, layout, (fuel - 1) as nat);
        assert(run(s2, Event::RowDecoded, answers(layout), (fuel - 1) as nat) == run(
            s3,
            Event::Resume,
            answers(layout),
            (fuel - 1) as nat,
        ));
    } else if s.entered && s.next_batch < s.batch_count {
        let n = layout[s.file as int][s.next_batch as int];
        let s3 = opened_with(s2, n);
        assert(answer(layout, a) == Event::BatchOpened(n));
        assert(cursor_step(s2, Event::BatchOpened(n)) == Some(resume(s3)));
        assert(cursor_step(s3, Event::Resume) == Some(resume(s3)));
        assert(remaining(s3, layout) =~= remaining(s, layout));
        lemma_run_remaining(s3, layout, (fuel - 1) as nat);
        assert(run(s2, Event::BatchOpened(n), answers(layout), (fuel - 1) as nat) == run(
            s3,
            Event::Resume,
            answers(layout),
            (fuel - 1) as nat,
        ));
    } else {
        let f = files_start(s);
        if s.entered {
            assert(file_rows_from(layout, s.file as int, s.next_batch as int) =~= seq![]);
        }
        if f >= s.n_files {
            assert(remaining(s, layout) =~= seq![]);
        } else {
            let m = layout[f].len() as usize;
            let s3 = entered_with(s2, m, s2.path);
            assert(answer(layout, a) == Event::BatchCount(m));
            assert(cursor_step(s2, Event::BatchCount(m)) == Some(resume(s3)));
            assert(cursor_step(s3, Event::Resume) == Some(resume(s3)));
            assert(remaining(s3, layout) =~= remaining(s, layout));
            lemma_run_remaining(s3, layout, (fuel - 1) as nat);
            assert(run(s2, Event::BatchCount(m), answers(layout), (fuel - 1) as nat) == run(
                s3,
                Event::Resume,
                answers(layout),
                (fuel - 1) as nat,
            ));
        }
    }
}

/// The rows of batches `b..` of file `f` lie in that file, at batch `b` or
/// later, and are distinct.
proof fn lemma_file_rows_distinct(layout: Seq<Seq<usize>>, f: int, b: int)
    requires
        layout_fits(layout),
        0 <= f < layout.len(),
        0 <= b,
    ensures
        forall|m: int|
            0 <= m < file_rows_from(layout, f, b).len() ==> {
                &&& (#[trigger] file_rows_from(layout, f, b)[m]).0 == f
                &&& b <= file_rows_from(layout, f, b)[m].1 < layout[f].len()
            },
        file_rows_from(layout, f, b).no_duplicates(),
    decreases layout[f].len() - b,
{
    if b < layout[f].len() {
        assert(layout[f].len() <= usize::MAX);
        lemma_file_rows_distinct(layout, f, b + 1);
        let a = batch_rows_from(f as usize, b as usize, layout[f][b], 0);
        let rest = file_rows_from(layout, f, b + 1);
        assert(file_rows_from(layout, f, b) == a + rest);
        assert forall|m1: int, m2: int| 0 <= m1 < a.len() && 0 <= m2 < rest.len() implies a[m1] != rest[m2] by {
            assert(rest[m2].1 >= b + 1);
        }
        vstd::seq_lib::lemma_no_dup_in_concat(a, rest);
        let c = file_rows_from(layout, f, b);
        assert forall|m: int| 0 <= m < c.len() implies {
            &&& (#[trigger] c[m]).0 == f
            &&& b <= c[m].1 < layout[f].len()
        } by {
            if m >= a.len() {
                assert(c[m] == rest[m - a.len()]);
            }
        }
    }
}

/// The rows of files `g..` lie in those files and are distinct.
proof fn lemma_files_rows_distinct(layout: Seq<Seq<usize>>, g: int)
    requires
        layout_fits(layout),
        0 <= g,
    ensures
        forall|m: int|
            0 <= m < files_rows_from(layout, g).len() ==> g <= (#[trigger] files_rows_from(layout, g)[m]).0
                < layout.len(),
        files_rows_from(layout, g).no_duplicates(),
    decreases layout.len() - g,
{
    if g < layout.len() {
        lemma_files_rows_distinct(layout, g + 1);
        lemma_file_rows_distinct(layout, g, 0);
        let a = file_rows_from(layout, g, 0);
        let rest = files_rows_from(layout, g + 1);
        assert(files_rows_from(layout, g) == a + rest);
        assert forall|m1: int, m2: int| 0 <= m1 < a.len() && 0 <= m2 < rest.len() implies a[m1] != rest[m2] by {
            assert(a[m1].0 == g);
            assert(rest[m2].0 >= g + 1);
        }
        vstd::seq_lib::lemma_no_dup_in_concat(a, rest);
        let c = files_rows_from(layout, g);
        assert forall|m: int| 0 <= m < c.len() implies g <= (#[trigger] c[m]).0 < layout.len() by {
            if m < a.len() {
                assert(c[m] == a[m]);
            } else {
                assert(c[m] == rest[m - a.len()]);
            }
        }
    }
}

/// A row cursor never reads a released batch: after a release no batch is
/// open; a row is decoded only from the batch opened last; and while no
/// batch is open, no row is decoded unless the event reports a batch that
/// has just been opened.
pub proof fn lemma_no_stale_rows(s: CursorState, ev: Event)
    requires
        cursor_wf(s),
    ensures
        cursor_step(s, ev) matches Some(t) ==> {
            &&& t.1 is ReleaseBatch ==> !t.0.open
            &&& t.1 matches Action::DecodeRow { file, batch, .. } ==> {
                &&& t.0.open
                &&& file == t.0.file
                &&& batch == crate::reads::batch_at(t.0, t.0.next_batch - 1)
            }
            &&& !s.open && !(ev is BatchOpened) ==> !(t.1 is DecodeRow)
            &&& s.open && t.1 is DecodeRow ==> t.0.next_batch == s.next_batch && t.0.file == s.file
        },
{
}

/// A failed native call does not move the cursor, and going on afterwards
/// issues the same request again: a row whose decode failed is asked for
/// again, not skipped.
pub proof fn lemma_failure_keeps_position(s: CursorState, e: crate::error::Error)
    requires
        cursor_wf(s),
    ensures
        cursor_step(s, Event::NativeError(e)) == Some((s, Action::Failed(e))),
        s.wait != Wait::Nothing ==> cursor_step(s, Event::Resume) == Some((s, crate::reads::pending_action(s))),
        s.wait == Wait::Decode ==> crate::reads::pending_action(s) == (Action::DecodeRow {
            file: s.file,
            batch: crate::reads::batch_at(s, s.next_batch - 1),
            row: crate::reads::row_at(s),
        }),
{
}

/// Sequential traversal, with every request answered truthfully, hands out
/// every row of every file exactly in file order, batch order and row order,
/// as many rows as the files hold together, and then finishes.
pub proof fn lemma_sequential_traversal(layout: Seq<Seq<usize>>)
    requires
        layout_fits(layout),
    ensures
        run(cursor_start(layout.len() as usize, false), Event::Resume, answers(layout), traversal_bound(layout))
            == Some(all_rows(layout)),
        all_rows(layout).len() == total_from(layout, 0),
        all_rows(layout).no_duplicates(),
{
    lemma_files_rows_distinct(layout, 0);
    let s = cursor_start(layout.len() as usize, false);
    lemma_files_rows_len(layout, 0);
    assert(remaining(s, layout) =~= all_rows(layout));
    lemma_run_remaining(s, layout, traversal_bound(layout));
}


proof fn lemma_counts_prefix(files: Seq<FileHandle>, layout: Seq<Seq<usize>>, n: int)
    requires
        files.len() == layout.len(),
        0 <= n <= files.len(),
        forall|f: int| 0 <= f < files.len() ==> #[trigger] files[f].spec_count() == file_total_from(layout, f, 0),
    ensures
        sum_counts(files.take(n)) == total_from(layout, 0) - total_from(layout, n),
    decreases n,
{
    if n > 0 {
        lemma_counts_prefix(files, layout, n - 1);
        assert(files.take(n).drop_last() =~= files.take(n - 1));
        assert(files.take(n).last() == files[n - 1]);
    }
}

/// When every open file holds as many rows as its batches do, sequential
/// traversal hands out exactly as many rows as the reader counts.
pub proof fn lemma_traversal_matches_count(files: Seq<FileHandle>, layout: Seq<Seq<usize>>)
    requires
        layout_fits(layout),
        files.len() == layout.len(),
        forall|f: int| 0 <= f < files.len() ==> #[trigger] files[f].spec_count() == file_total_from(layout, f, 0),
    ensures
        all_rows(layout).len() == sum_counts(files),
{
    lemma_counts_prefix(files, layout, files.len() as int);
    assert(files.take(files.len() as int) =~= files);
    lemma_files_rows_len(layout, 0);
}


/// The batches a batch cursor in state `s` hands out from event `ev` on,
/// each as (file, batch, row count, rows fetched from it in a selective
/// traversal), each request answered by `ans`, when it finishes within
/// `fuel` calls; `None` when it does not.
pub open spec fn batch_run(s: CursorState, ev: Event, ans: spec_fn(Action) -> Event, fuel: nat) -> Option<
    Seq<(usize, usize, usize, Seq<u32>)>,
>
    decreases fuel,
{
    if fuel == 0 {
        None
    } else if ev is BatchOpened && s.wait == Wait::Rows {
        let rows = if s.fetch_mode {
            s.path[s.next_batch as int].1
        } else {
            seq![]
        };
        let e = (s.file, batch_at(s, s.next_batch as int), ev->BatchOpened_0, rows);
        match batch_run(handed_out(s), Event::Resume, ans, (fuel - 1) as nat) {
            Some(rest) => Some(seq![e] + rest),
            None => None,
        }
    } else {
        match batch_step(s, ev) {
            None => None,
            Some(t) => match t.1 {
                Action::Finished => Some(seq![]),
                Action::Failed(_) => None,
                Action::Rejected => None,
                Action::EmitBatch(_) => None,
                Action::DecodeRow { .. } => None,
                _ => batch_run(t.0, ans(t.1), ans, (fuel - 1) as nat),
            },
        }
    }
}

/// The rows of a sequence of handed-out batches, batch after batch.
pub open spec fn flat_batches(b: Seq<(usize, usize, usize, Seq<u32>)>) -> Seq<(usize, usize, usize)>
    decreases b.len(),
{
    if b.len() == 0 {
        seq![]
    } else {
        Seq::new(b[0].3.len(), |i: int| (b[0].0, b[0].1, b[0].3[i] as usize)) + flat_batches(b.drop_first())
    }
}



/// The batches `b..` of file `f`, each as (file, batch, row count).
pub open spec fn file_batches_from(layout: Seq<Seq<usize>>, f: int, b: int) -> Seq<(usize, usize, usize)>
    decreases layout[f].len() - b,
{
    if b < 0 || b >= layout[f].len() {
        seq![]
    } else {
        seq![(f as usize, b as usize, layout[f][b])] + file_batches_from(layout, f, b + 1)
    }
}

/// The batches of files `f..`, file by file.
pub open spec fn files_batches_from(layout: Seq<Seq<usize>>, f: int) -> Seq<(usize, usize, usize)>
    decreases layout.len() - f,
{
    if f < 0 || f >= layout.len() {
        seq![]
    } else {
        file_batches_from(layout, f, 0) + files_batches_from(layout, f + 1)
    }
}

/// The (file, batch, row count) of each handed-out batch.
pub open spec fn batch_heads(out: Seq<(usize, usize, usize, Seq<u32>)>) -> Seq<(usize, usize, usize)> {
    out.map_values(|e: (usize, usize, usize, Seq<u32>)| (e.0, e.1, e.2))
}

/// A sequential batch cursor whose knowledge agrees with `layout`.
pub open spec fn batch_agrees(s: CursorState, layout: Seq<Seq<usize>>) -> bool {
    &&& !s.fetch_mode
    &&& s.n_files == layout.len()
    &&& s.entered ==> s.batch_count == layout[s.file as int].len()
}

/// The batches a sequential batch cursor in state `s` has still to hand out.
pub open spec fn batches_remaining(s: CursorState, layout: Seq<Seq<usize>>) -> Seq<(usize, usize, usize)> {
    (if s.entered {
        file_batches_from(layout, s.file as int, s.next_batch as int)
    } else {
        seq![]
    }) + files_batches_from(layout, files_start(s))
}

proof fn lemma_batch_seq_run(s: CursorState, layout: Seq<Seq<usize>>, fuel: nat)
    requires
        batch_wf(s),
        s.wait == Wait::Nothing,
        batch_agrees(s, layout),
        layout_fits(layout),
        fuel >= 3 * ((if s.entered {
            s.batch_count - s.next_batch
        } else {
            0
        }) + batches_from(layout, files_start(s))) + 2 * (s.n_files - files_start(s)) + (if s.open {
            1int
        } else {
            0
        }) + 1,
    ensures
        batch_run(s, Event::Resume, answers(layout), fuel) matches Some(out) && batch_heads(out)
            == batches_remaining(s, layout) && forall|i: int| 0 <= i < out.len() ==> (#[trigger] out[i]).3
            == Seq::<u32>::empty(),
    decreases fuel,
{
    lemma_batches_from_nonneg(layout, files_start(s) + 1);
    lemma_batches_from_nonneg(layout, files_start(s));
    let ans = answers(layout);
    let (s2, a) = batch_resume(s);
    assert(batch_step(s, Event::Resume) == Some(batch_resume(s)));
    assert(ans(a) == answer(layout, a));
    if s.open {
        assert(batches_remaining(s2, layout) =~= batches_remaining(s, layout));
        lemma_batch_seq_run(s2, layout, (fuel - 1) as nat);
    } else if s.entered && s.next_batch < s.batch_count {
        let n = layout[s.file as int][s.next_batch as int];
        assert(ans(a) == Event::BatchOpened(n));
        let s3 = handed_out(s2);
        let e = (s.file, s.next_batch, n, Seq::<u32>::empty());
        lemma_batch_seq_run(s3, layout, (fuel - 2) as nat);
        let rest = batch_run(s3, Event::Resume, ans, (fuel - 2) as nat)->Some_0;
        assert(batch_run(s2, Event::BatchOpened(n), ans, (fuel - 1) as nat) == Some(seq![e] + rest));
        let out = seq![e] + rest;
        assert(batch_heads(out) =~= seq![(e.0, e.1, e.2)] + batch_heads(rest));
        assert(batches_remaining(s, layout) =~= seq![(e.0, e.1, e.2)] + batches_remaining(s3, layout));
        assert forall|i: int| 0 <= i < out.len() implies (#[trigger] out[i]).3 == Seq::<u32>::empty() by {
            if i > 0 {
                assert(out[i] == rest[i - 1]);
            }
        }
    } else {
        let f = files_start(s);
        if s.entered {
            assert(file_batches_from(layout, s.file as int, s.next_batch as int) =~= seq![]);
        }
        if f >= s.n_files {
            assert(batches_remaining(s, layout) =~= seq![]);
        } else {
            let m = layout[f].len() as usize;
            let s3 = entered_with(s2, m, s2.path);
            assert(ans(a) == Event::BatchCount(m));
            assert(batch_step(s2, Event::BatchCount(m)) == Some(batch_resume(s3)));
            assert(batch_step(s3, Event::Resume) == Some(batch_resume(s3)));
            assert(batches_remaining(s3, layout) =~= batches_remaining(s, layout));
            lemma_batch_seq_run(s3, layout, (fuel - 1) as nat);
            assert(batch_run(s2, Event::BatchCount(m), ans, (fuel - 1) as nat) == batch_run(
                s3,
                Event::Resume,
                ans,
                (fuel - 1) as nat,
            ));
        }
    }
}

/// Sequential batch traversal, with every request answered truthfully, hands
/// out every batch of every file, file by file and batch by batch, each
/// with its row count and no fetched-row list, and then finishes.
pub proof fn lemma_batch_sequential_traversal(layout: Seq<Seq<usize>>)
    requires
        layout_fits(layout),
    ensures
        batch_run(
            cursor_start(layout.len() as usize, false),
            Event::Resume,
            answers(layout),
            (3 * batches_from(layout, 0) + 2 * layout.len() + 1) as nat,
        ) matches Some(out) && batch_heads(out) == files_batches_from(layout, 0) && forall|i: int|
            0 <= i < out.len() ==> (#[trigger] out[i]).3 == Seq::<u32>::empty(),
{
    let s = cursor_start(layout.len() as usize, false);
    lemma_batches_from_nonneg(layout, 0);
    assert(batches_remaining(s, layout) =~= files_batches_from(layout, 0));
    lemma_batch_seq_run(s, layout, (3 * batches_from(layout, 0) + 2 * layout.len() + 1) as nat);
}

} // verus!
