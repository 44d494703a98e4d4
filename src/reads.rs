//! The row cursor: a state machine that walks every file, every batch (or every
//! planned batch) and every row, one transition per call.
//!
//! The cursor never touches the storage engine itself. Each call to
//! [`Reads::next`] takes the answer to the request the cursor made last (an
//! [`Event`]) and returns what the driver must do next (an [`Action`]): count a
//! file's batches, plan a selective fetch, open or release a batch, decode and
//! hand out a row, or stop.
use vstd::prelude::*;

use crate::error::Error;
use crate::readbatch::BatchRecord;
use crate::fetch::{lemma_plan_len, path_view, plan_fetch_path, plan_of, reply_fits, FetchPath};

verus! {

/// What the driver must do after a call to the cursor.
#[derive(Debug, Clone, PartialEq)]
pub enum Action {
    /// Query the number of batches of a file; answer with `Event::BatchCount`.
    CountBatches { file: usize },
    /// Run the storage engine's traversal planner for the requested ids on a
    /// file; answer with `Event::Planned`.
    PlanFetch { file: usize },
    /// Open a batch of a file; answer with `Event::BatchOpened`.
    OpenBatch { file: usize, batch: usize },
    /// Release the open batch, then answer with `Event::Resume`.
    ReleaseBatch { file: usize, batch: usize },
    /// Decode this row of the open batch and hand it out; answer with
    /// `Event::RowDecoded` when the next item is wanted, or with
    /// `Event::NativeError` when the decode failed.
    DecodeRow { file: usize, batch: usize, row: usize },
    /// Hand out this whole batch, which stays open until the cursor asks for
    /// its release; answer with `Event::Resume`.
    EmitBatch(BatchRecord),
    /// Every file has been walked; further calls keep returning this.
    Finished,
    /// The last native call failed; the cursor did not move.
    Failed(Error),
    /// The event did not answer the pending request; the cursor did not move.
    Rejected,
}

/// The answer to the cursor's last request.
#[derive(Debug, Clone, PartialEq)]
pub enum Event {
    /// Go on (also: re-issue a pending request after a failure).
    Resume,
    /// The number of batches of the file being entered.
    BatchCount(usize),
    /// The traversal planner's reply: hit counts per batch, the flat row
    /// buffer, and how many of the requested ids it located.
    Planned { rows_per_batch: Vec<u32>, batch_rows: Vec<u32>, located: usize },
    /// The batch was opened; it holds this many rows.
    BatchOpened(usize),
    /// The row asked for was decoded and handed out.
    RowDecoded,
    /// The native call for the pending request failed.
    NativeError(Error),
}

/// Which answer the cursor is waiting for.
#[derive(Debug, Clone, Copy, PartialEq, Eq, Structural)]
pub enum Wait {
    Nothing,
    Count,
    Plan,
    Rows,
    Decode,
}

/// The cursor's state as plain values.
pub struct CursorState {
    pub n_files: usize,
    pub fetch_mode: bool,
    pub file: usize,
    pub entered: bool,
    pub batch_count: usize,
    pub path: Seq<(usize, Seq<u32>)>,
    pub next_batch: usize,
    pub open: bool,
    pub batch_rows: usize,
    pub row: usize,
    pub wait: Wait,
}

/// The cursor's invariant.
pub open spec fn cursor_wf(s: CursorState) -> bool {
    &&& s.file <= s.n_files
    &&& s.entered ==> s.file < s.n_files
    &&& s.next_batch <= s.batch_count
    &&& !s.entered ==> s.next_batch == 0 && s.batch_count == 0 && !s.open
    &&& s.open ==> 0 < s.next_batch && s.row <= s.batch_rows
    &&& !s.open ==> s.row == 0 && s.batch_rows == 0
    &&& s.entered && s.fetch_mode ==> s.batch_count == s.path.len()
    &&& s.open && s.fetch_mode ==> s.batch_rows == s.path[s.next_batch - 1].1.len()
    &&& (s.wait == Wait::Count || s.wait == Wait::Plan || s.wait == Wait::Rows) ==> !s.open
    &&& s.wait == Wait::Decode ==> s.open && s.row < s.batch_rows
    &&& s.wait == Wait::Rows ==> s.entered && s.next_batch < s.batch_count
    &&& s.wait == Wait::Count ==> !s.entered && s.file < s.n_files && !s.fetch_mode
    &&& s.wait == Wait::Plan ==> !s.entered && s.file < s.n_files && s.fetch_mode
}

/// The state of a fresh cursor over `n_files` files.
pub open spec fn cursor_start(n_files: usize, fetch_mode: bool) -> CursorState {
    CursorState {
        n_files,
        fetch_mode,
        file: 0,
        entered: false,
        batch_count: 0,
        path: seq![],
        next_batch: 0,
        open: false,
        batch_rows: 0,
        row: 0,
        wait: Wait::Nothing,
    }
}

/// The batch index of the `i`-th batch to visit in the current file.
pub open spec fn batch_at(s: CursorState, i: int) -> usize {
    if s.fetch_mode {
        s.path[i].0
    } else {
        i as usize
    }
}

/// The row index, within the open batch, of the next row to hand out.
pub open spec fn row_at(s: CursorState) -> usize {
    if s.fetch_mode {
        s.path[s.next_batch - 1].1[s.row as int] as usize
    } else {
        s.row
    }
}

/// The request that enters file `f`.
pub open spec fn enter_action(s: CursorState, f: usize) -> Action {
    if s.fetch_mode {
        Action::PlanFetch { file: f }
    } else {
        Action::CountBatches { file: f }
    }
}

/// The request the cursor is waiting on, issued again.
pub open spec fn pending_action(s: CursorState) -> Action {
    match s.wait {
        Wait::Rows => Action::OpenBatch { file: s.file, batch: batch_at(s, s.next_batch as int) },
        Wait::Decode => Action::DecodeRow {
            file: s.file,
            batch: batch_at(s, s.next_batch - 1),
            row: row_at(s),
        },
        _ => enter_action(s, s.file),
    }
}

/// One move of a cursor that waits for nothing: release an exhausted batch,
/// hand out the next row, open the next batch, or enter the next file.
pub open spec fn resume(s: CursorState) -> (CursorState, Action) {
    if s.open && s.row >= s.batch_rows {
        (
            CursorState { open: false, row: 0, batch_rows: 0, ..s },
            Action::ReleaseBatch { file: s.file, batch: batch_at(s, s.next_batch - 1) },
        )
    } else if s.open {
        (
            CursorState { wait: Wait::Decode, ..s },
            Action::DecodeRow { file: s.file, batch: batch_at(s, s.next_batch - 1), row: row_at(s) },
        )
    } else if s.entered && s.next_batch < s.batch_count {
        (
            CursorState { wait: Wait::Rows, ..s },
            Action::OpenBatch { file: s.file, batch: batch_at(s, s.next_batch as int) },
        )
    } else {
        let f: usize = if s.entered {
            (s.file + 1) as usize
        } else {
            s.file
        };
        let left = CursorState { file: f, entered: false, batch_count: 0, next_batch: 0, ..s };
        if f >= s.n_files {
            (left, Action::Finished)
        } else {
            (
                CursorState { wait: if s.fetch_mode { Wait::Plan } else { Wait::Count }, ..left },
                enter_action(s, f),
            )
        }
    }
}

/// The state once a file has been entered with this many batches to visit.
pub open spec fn entered_with(s: CursorState, batch_count: usize, path: Seq<(usize, Seq<u32>)>) -> CursorState {
    CursorState { entered: true, batch_count, path, next_batch: 0, wait: Wait::Nothing, ..s }
}

/// The state once the next batch has been opened with `n` rows.
pub open spec fn opened_with(s: CursorState, n: usize) -> CursorState {
    CursorState {
        open: true,
        batch_rows: if s.fetch_mode {
            s.path[s.next_batch as int].1.len() as usize
        } else {
            n
        },
        row: 0,
        next_batch: (s.next_batch + 1) as usize,
        wait: Wait::Nothing,
        ..s
    }
}

/// The state once the row asked for has been decoded.
pub open spec fn decoded(s: CursorState) -> CursorState {
    CursorState { row: (s.row + 1) as usize, wait: Wait::Nothing, ..s }
}

/// The transition of the cursor on an event. `None` stands for a planner
/// reply that does not fit together, on which the cursor fails without moving.
pub open spec fn cursor_step(s: CursorState, ev: Event) -> Option<(CursorState, Action)> {
    match ev {
        Event::NativeError(e) => Some((s, Action::Failed(e))),
        Event::Resume => if s.wait == Wait::Nothing {
            Some(resume(s))
        } else {
            Some((s, pending_action(s)))
        },
        Event::BatchCount(n) => if s.wait == Wait::Count {
            Some(resume(entered_with(s, n, s.path)))
        } else {
            Some((s, Action::Rejected))
        },
        Event::Planned { rows_per_batch, batch_rows, located } => if s.wait == Wait::Plan {
            if located == 0 {
                Some(resume(entered_with(s, 0, seq![])))
            } else if reply_fits(rows_per_batch@, batch_rows@, located as int) {
                let p = plan_of(rows_per_batch@, batch_rows@);
                Some(resume(entered_with(s, p.len() as usize, p)))
            } else {
                None
            }
        } else {
            Some((s, Action::Rejected))
        },
        Event::BatchOpened(n) => if s.wait == Wait::Rows {
            Some(resume(opened_with(s, n)))
        } else {
            Some((s, Action::Rejected))
        },
        Event::RowDecoded => if s.wait == Wait::Decode {
            Some(resume(decoded(s)))
        } else {
            Some((s, Action::Rejected))
        },
    }
}

/// Sequential or selective traversal of the rows of a set of files.
pub struct Reads {
    n_files: usize,
    fetch: Option<Vec<u128>>,
    file: usize,
    entered: bool,
    batch_count: usize,
    path: FetchPath,
    next_batch: usize,
    open: bool,
    batch_rows: usize,
    row: usize,
    wait: Wait,
}

impl View for Reads {
    type V = CursorState;

    closed spec fn view(&self) -> CursorState {
        CursorState {
            n_files: self.n_files,
            fetch_mode: self.fetch is Some,
            file: self.file,
            entered: self.entered,
            batch_count: self.batch_count,
            path: path_view(self.path@),
            next_batch: self.next_batch,
            open: self.open,
            batch_rows: self.batch_rows,
            row: self.row,
            wait: self.wait,
        }
    }
}

impl Reads {
    /// A cursor over `n_files` files: every row of every file when `fetch` is
    /// `None`, else the rows whose ids are in `fetch`.
    pub fn new(n_files: usize, fetch: Option<Vec<u128>>) -> (r: Reads)
        ensures
            r@ == cursor_start(n_files, fetch is Some),
            r.requested() == fetch,
            cursor_wf(r@),
    {
        let r = Reads {
            n_files,
            fetch,
            file: 0,
            entered: false,
            batch_count: 0,
            path: Vec::new(),
            next_batch: 0,
            open: false,
            batch_rows: 0,
            row: 0,
            wait: Wait::Nothing,
        };
        assert(r@.path =~= seq![]);
        r
    }

    /// The ids a selective traversal asks for.
    pub closed spec fn requested(&self) -> Option<Vec<u128>> {
        self.fetch
    }

    /// The ids a selective traversal asks for, to hand to the planner.
    pub fn fetch_ids(&self) -> (r: &Option<Vec<u128>>)
        ensures
            *r == self.requested(),
    {
        &self.fetch
    }

    fn batch_at(&self, i: usize) -> (r: usize)
        requires
            self@.fetch_mode ==> i < self.path.len(),
        ensures
            r == batch_at(self@, i as int),
    {
        if self.fetch.is_some() {
            self.path[i].0
        } else {
            i
        }
    }

    fn row_at(&self) -> (r: usize)
        requires
            cursor_wf(self@),
            self@.open,
            self@.row < self@.batch_rows,
        ensures
            r == row_at(self@),
    {
        if self.fetch.is_some() {
            self.path[self.next_batch - 1].1[self.row] as usize
        } else {
            self.row
        }
    }

    fn enter_action(&self, f: usize) -> (r: Action)
        ensures
            r == enter_action(self@, f),
    {
        if self.fetch.is_some() {
            Action::PlanFetch { file: f }
        } else {
            Action::CountBatches { file: f }
        }
    }

    fn resume(&mut self) -> (r: Action)
        requires
            cursor_wf(old(self)@),
            old(self)@.wait == Wait::Nothing,
        ensures
            (final(self)@, r) == resume(old(self)@),
            cursor_wf(final(self)@),
            final(self).requested() == old(self).requested(),
    {
        if self.open && self.row >= self.batch_rows {
            let batch = self.batch_at(self.next_batch - 1);
            self.open = false;
            self.row = 0;
            self.batch_rows = 0;
            Action::ReleaseBatch { file: self.file, batch }
        } else if self.open {
            let batch = self.batch_at(self.next_batch - 1);
            self.wait = Wait::Decode;
            Action::DecodeRow { file: self.file, batch, row: self.row_at() }
        } else if self.entered && self.next_batch < self.batch_count {
            self.wait = Wait::Rows;
            Action::OpenBatch { file: self.file, batch: self.batch_at(self.next_batch) }
        } else {
            let f: usize = if self.entered {
                self.file + 1
            } else {
                self.file
            };
            let a = self.enter_action(f);
            self.file = f;
            self.entered = false;
            self.batch_count = 0;
            self.next_batch = 0;
            if f >= self.n_files {
                Action::Finished
            } else {
                self.wait = if self.fetch.is_some() {
                    Wait::Plan
                } else {
                    Wait::Count
                };
                a
            }
        }
    }

    /// One transition: takes the answer to the last request and returns the
    /// next thing the driver must do.
    pub fn next(&mut self, ev: Event) -> (r: Action)
        requires
            cursor_wf(old(self)@),
        ensures
            cursor_wf(final(self)@),
            final(self).requested() == old(self).requested(),
            cursor_step(old(self)@, ev) matches Some(t) ==> (final(self)@, r) == t,
            cursor_step(old(self)@, ev) is None ==> final(self)@ == old(self)@ && r matches Action::Failed(
                Error::IndexError(_),
            ),
    {
        match ev {
            Event::NativeError(e) => Action::Failed(e),
            Event::Resume => {
                if self.wait == Wait::Nothing {
                    self.resume()
                } else if self.wait == Wait::Rows {
                    Action::OpenBatch { file: self.file, batch: self.batch_at(self.next_batch) }
                } else if self.wait == Wait::Decode {
                    Action::DecodeRow {
                        file: self.file,
                        batch: self.batch_at(self.next_batch - 1),
                        row: self.row_at(),
                    }
                } else {
                    self.enter_action(self.file)
                }
            },
            Event::RowDecoded => {
                if self.wait == Wait::Decode {
                    self.row = self.row + 1;
                    self.wait = Wait::Nothing;
                    self.resume()
                } else {
                    Action::Rejected
                }
            },
            Event::BatchCount(n) => {
                if self.wait == Wait::Count {
                    self.entered = true;
                    self.batch_count = n;
                    self.next_batch = 0;
                    self.wait = Wait::Nothing;
                    self.resume()
                } else {
                    Action::Rejected
                }
            },
            Event::Planned { rows_per_batch, batch_rows, located } => {
                if self.wait == Wait::Plan {
                    match plan_fetch_path(&rows_per_batch, &batch_rows, located) {
                        Ok(None) => {
                            self.path = Vec::new();
                            proof {
                                assert(path_view(self.path@) =~= seq![]);
                            }
                        },
                        Ok(Some(p)) => {
                            proof {
                                lemma_plan_len(rows_per_batch@, batch_rows@);
                            }
                            self.path = p;
                        },
                        Err(e) => {
                            return Action::Failed(e);
                        },
                    }
                    self.entered = true;
                    self.batch_count = self.path.len();
                    self.next_batch = 0;
                    self.wait = Wait::Nothing;
                    self.resume()
                } else {
                    Action::Rejected
                }
            },
            Event::BatchOpened(n) => {
                if self.wait == Wait::Rows {
                    self.batch_rows = if self.fetch.is_some() {
                        self.path[self.next_batch].1.len()
                    } else {
                        n
                    };
                    self.open = true;
                    self.row = 0;
                    self.next_batch = self.next_batch + 1;
                    self.wait = Wait::Nothing;
                    self.resume()
                } else {
                    Action::Rejected
                }
            },
        }
    }
}

} // verus!
