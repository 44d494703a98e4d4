//! The batch cursor: hands out whole batches instead of rows.
use vstd::prelude::*;

use crate::error::Error;
use crate::fetch::{lemma_plan_len, path_view, plan_fetch_path, plan_of, reply_fits, FetchPath};
use crate::reads::{batch_at, entered_with, pending_action, resume, Action, CursorState, Event, Wait};

verus! {

/// One batch handed out by the batch cursor: where it lies, how many rows it
/// holds, and, for a selective traversal, which of its rows were asked for.
#[derive(Debug, Clone, PartialEq)]
pub struct BatchRecord {
    pub file: usize,
    pub batch: usize,
    pub row_count: usize,
    pub fetch_rows: Option<Vec<u32>>,
}

impl BatchRecord {
    /// The rows to project: the fetched rows in planner order, or every row
    /// of the batch in order.
    pub fn rows_to_take(&self) -> (r: Vec<usize>)
        ensures
            self.fetch_rows matches Some(v) ==> r@ == v@.map_values(|x: u32| x as usize),
            self.fetch_rows is None ==> r@ == Seq::new(self.row_count as nat, |i: int| i as usize),
    {
        let mut out: Vec<usize> = Vec::new();
        match &self.fetch_rows {
            Some(v) => {
                let mut i: usize = 0;
                while i < v.len()
                    invariant
                        i <= v@.len(),
                        out@ =~= v@.take(i as int).map_values(|x: u32| x as usize),
                    decreases v@.len() - i,
                {
                    out.push(v[i] as usize);
                    i = i + 1;
                }
                proof {
                    assert(v@.take(i as int) =~= v@);
                }
            },
            None => {
                let mut i: usize = 0;
                while i < self.row_count
                    invariant
                        i <= self.row_count,
                        out@ =~= Seq::new(i as nat, |k: int| k as usize),
                    decreases self.row_count - i,
                {
                    out.push(i);
                    i = i + 1;
                }
            },
        }
        out
    }
}

/// The batch cursor's invariant. `open` means a batch has been handed out
/// and not yet released.
pub open spec fn batch_wf(s: CursorState) -> bool {
    &&& s.file <= s.n_files
    &&& s.entered ==> s.file < s.n_files
    &&& s.next_batch <= s.batch_count
    &&& !s.entered ==> s.next_batch == 0 && s.batch_count == 0 && !s.open
    &&& s.open ==> 0 < s.next_batch
    &&& s.row == 0 && s.batch_rows == 0
    &&& s.entered && s.fetch_mode ==> s.batch_count == s.path.len()
    &&& s.wait != Wait::Nothing ==> !s.open
    &&& s.wait != Wait::Decode
    &&& s.wait == Wait::Rows ==> s.entered && s.next_batch < s.batch_count
    &&& s.wait == Wait::Count ==> !s.entered && s.file < s.n_files && !s.fetch_mode
    &&& s.wait == Wait::Plan ==> !s.entered && s.file < s.n_files && s.fetch_mode
}

/// One move of a batch cursor that waits for nothing: release the batch it
/// handed out, else move on as the row cursor does with no batch open.
pub open spec fn batch_resume(s: CursorState) -> (CursorState, Action) {
    if s.open {
        (
            CursorState { open: false, ..s },
            Action::ReleaseBatch { file: s.file, batch: batch_at(s, s.next_batch - 1) },
        )
    } else {
        resume(s)
    }
}

/// The state once the batch being opened has been handed out.
pub open spec fn handed_out(s: CursorState) -> CursorState {
    CursorState { open: true, next_batch: (s.next_batch + 1) as usize, wait: Wait::Nothing, ..s }
}

/// The transition of the batch cursor on an event. `None` stands for the two
/// moves that are not a plain state change and action: a planner reply that
/// does not fit together, and the answer to an opening, which hands the batch
/// out (see `handed_out` and `BatchRecordIter::next`).
pub open spec fn batch_step(s: CursorState, ev: Event) -> Option<(CursorState, Action)> {
    match ev {
        Event::NativeError(e) => Some((s, Action::Failed(e))),
        Event::Resume => if s.wait == Wait::Nothing {
            Some(batch_resume(s))
        } else {
            Some((s, pending_action(s)))
        },
        Event::BatchCount(n) => if s.wait == Wait::Count {
            Some(batch_resume(entered_with(s, n, s.path)))
        } else {
            Some((s, Action::Rejected))
        },
        Event::Planned { rows_per_batch, batch_rows, located } => if s.wait == Wait::Plan {
            if located == 0 {
                Some(batch_resume(entered_with(s, 0, seq![])))
            } else if reply_fits(rows_per_batch@, batch_rows@, located as int) {
                let p = plan_of(rows_per_batch@, batch_rows@);
                Some(batch_resume(entered_with(s, p.len() as usize, p)))
            } else {
                None
            }
        } else {
            Some((s, Action::Rejected))
        },
        Event::BatchOpened(_) => if s.wait == Wait::Rows {
            None
        } else {
            Some((s, Action::Rejected))
        },
        Event::RowDecoded => Some((s, Action::Rejected)),
    }
}

/// The batch cursor never holds two batches: it asks for a batch to be
/// opened only while it holds none, and a release leaves it holding none.
pub proof fn lemma_one_batch_held(s: CursorState, ev: Event)
    requires
        batch_wf(s),
    ensures
        batch_step(s, ev) matches Some(t) ==> {
            &&& t.1 is OpenBatch ==> !s.open && !t.0.open
            &&& t.1 is ReleaseBatch ==> s.open && !t.0.open
        },
{
}

/// Sequential or selective traversal of the batches of a set of files.
pub struct BatchRecordIter {
    n_files: usize,
    fetch: Option<Vec<u128>>,
    file: usize,
    entered: bool,
    batch_count: usize,
    path: FetchPath,
    next_batch: usize,
    open: bool,
    wait: Wait,
}

impl View for BatchRecordIter {
    type V = CursorState;

    closed spec fn view(&self) -> CursorState {
        CursorState {
            n_files: self.n_files,
            fetch_mode: self.fetch is Some,
            file: self.file,
            entered: self.entered,
            batch_count: self.batch_count,
            path: path_view(self.path@),
            next_batch: self.next_batch,
            open: self.open,
            batch_rows: 0,
            row: 0,
            wait: self.wait,
        }
    }
}

impl BatchRecordIter {
    /// A batch cursor over `n_files` files: every batch when `fetch` is
    /// `None`, else the batches holding the rows whose ids are in `fetch`.
    pub fn new(n_files: usize, fetch: Option<Vec<u128>>) -> (r: BatchRecordIter)
        ensures
            r@ == crate::reads::cursor_start(n_files, fetch is Some),
            r.requested() == fetch,
            batch_wf(r@),
    {
        let r = BatchRecordIter {
            n_files,
            fetch,
            file: 0,
            entered: false,
            batch_count: 0,
            path: Vec::new(),
            next_batch: 0,
            open: false,
            wait: Wait::Nothing,
        };
        assert(r@.path =~= seq![]);
        r
    }

    /// The ids a selective traversal asks for.
    pub closed spec fn requested(&self) -> Option<Vec<u128>> {
        self.fetch
    }

    /// The ids a selective traversal asks for, to hand to the planner.
    pub fn fetch_ids(&self) -> (r: &Option<Vec<u128>>)
        ensures
            *r == self.requested(),
    {
        &self.fetch
    }

    fn batch_at(&self, i: usize) -> (r: usize)
        requires
            self@.fetch_mode ==> i < self.path.len(),
        ensures
            r == batch_at(self@, i as int),
    {
        if self.fetch.is_some() {
            self.path[i].0
        } else {
            i
        }
    }

    fn resume(&mut self) -> (r: Action)
        requires
            batch_wf(old(self)@),
            old(self)@.wait == Wait::Nothing,
        ensures
            (final(self)@, r) == batch_resume(old(self)@),
            batch_wf(final(self)@),
            final(self).requested() == old(self).requested(),
    {
        if self.open {
            self.open = false;
            Action::ReleaseBatch { file: self.file, batch: self.batch_at(self.next_batch - 1) }
        } else if self.entered && self.next_batch < self.batch_count {
            self.wait = Wait::Rows;
            Action::OpenBatch { file: self.file, batch: self.batch_at(self.next_batch) }
        } else {
            let f: usize = if self.entered {
                self.file + 1
            } else {
                self.file
            };
            let a = if self.fetch.is_some() {
                Action::PlanFetch { file: f }
            } else {
                Action::CountBatches { file: f }
            };
            self.file = f;
            self.entered = false;
            self.batch_count = 0;
            self.next_batch = 0;
            if f >= self.n_files {
                Action::Finished
            } else {
                self.wait = if self.fetch.is_some() {
                    Wait::Plan
                } else {
                    Wait::Count
                };
                a
            }
        }
    }

    /// One transition: takes the answer to the last request and returns the
    /// next thing the driver must do. The batch handed out last is released
    /// before another is opened.
    pub fn next(&mut self, ev: Event) -> (r: Action)
        requires
            batch_wf(old(self)@),
        ensures
            batch_wf(final(self)@),
            final(self).requested() == old(self).requested(),
            batch_step(old(self)@, ev) matches Some(t) ==> (final(self)@, r) == t,
            ev is Planned && batch_step(old(self)@, ev) is None ==> final(self)@ == old(self)@ && r matches Action::Failed(
                Error::IndexError(_),
            ),
            ev is BatchOpened && old(self)@.wait == Wait::Rows ==> {
                &&& final(self)@ == handed_out(old(self)@)
                &&& r matches Action::EmitBatch(rec)
                &&& rec.file == old(self)@.file
                &&& rec.batch == batch_at(old(self)@, old(self)@.next_batch as int)
                &&& rec.row_count == ev->BatchOpened_0
                &&& old(self)@.fetch_mode ==> (rec.fetch_rows matches Some(v) && v@ == old(
                    self,
                )@.path[old(self)@.next_batch as int].1)
                &&& !old(self)@.fetch_mode ==> rec.fetch_rows is None
            },
    {
        match ev {
            Event::NativeError(e) => Action::Failed(e),
            Event::Resume => {
                if self.wait == Wait::Nothing {
                    self.resume()
                } else if self.wait == Wait::Rows {
                    Action::OpenBatch { file: self.file, batch: self.batch_at(self.next_batch) }
                } else if self.fetch.is_some() {
                    Action::PlanFetch { file: self.file }
                } else {
                    Action::CountBatches { file: self.file }
                }
            },
            Event::BatchCount(n) => {
                if self.wait == Wait::Count {
                    self.entered = true;
                    self.batch_count = n;
                    self.next_batch = 0;
                    self.wait = Wait::Nothing;
                    self.resume()
                } else {
                    Action::Rejected
                }
            },
            Event::Planned { rows_per_batch, batch_rows, located } => {
                if self.wait == Wait::Plan {
                    match plan_fetch_path(&rows_per_batch, &batch_rows, located) {
                        Ok(None) => {
                            self.path = Vec::new();
                            proof {
                                assert(path_view(self.path@) =~= seq![]);
                            }
                        },
                        Ok(Some(p)) => {
                            proof {
                                lemma_plan_len(rows_per_batch@, batch_rows@);
                            }
                            self.path = p;
                        },
                        Err(e) => {
                            return Action::Failed(e);
                        },
                    }
                    self.entered = true;
                    self.batch_count = self.path.len();
                    self.next_batch = 0;
                    self.wait = Wait::Nothing;
                    self.resume()
                } else {
                    Action::Rejected
                }
            },
            Event::RowDecoded => Action::Rejected,
            Event::BatchOpened(n) => {
                if self.wait == Wait::Rows {
                    let i = self.next_batch;
                    let batch = self.batch_at(i);
                    let fetch_rows = if self.fetch.is_some() {
                        Some(self.path[i].1.clone())
                    } else {
                        None
                    };
                    self.open = true;
                    self.next_batch = i + 1;
                    self.wait = Wait::Nothing;
                    Action::EmitBatch(BatchRecord { file: self.file, batch, row_count: n, fetch_rows })
                } else {
                    Action::Rejected
                }
            },
        }
    }
}

} // verus!
