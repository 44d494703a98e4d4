//! Open files and the multi-file reader over them.
use vstd::prelude::*;

use crate::error::Error;
use crate::fileinfo::FileInfo;
use crate::readbatch::BatchRecordIter;
use crate::reads::Reads;
use crate::runinfo::RunInfoIter;

verus! {

/// Options for opening a file.
#[derive(Debug, Clone, Copy, PartialEq, Eq, Structural)]
pub struct ReaderOptions {
    pub force_disable_file_mapping: bool,
}

impl ReaderOptions {
    /// Options that may turn file mapping off.
    pub fn new(force_disable_file_mapping: bool) -> (r: ReaderOptions)
        ensures
            r.force_disable_file_mapping == force_disable_file_mapping,
    {
        ReaderOptions { force_disable_file_mapping }
    }
}

/// One open file: what the storage engine reported of it when it was opened,
/// and its signal compression flag, probed once and kept.
#[derive(Debug, Clone)]
pub struct FileHandle {
    read_ids: Vec<u128>,
    run_info_count: u16,
    info: FileInfo,
    has_compressed_signal: bool,
}

impl FileHandle {
    /// A handle over an opened file with `count` rows, whose ids are
    /// `read_ids`, with `run_info_count` run info records.
    pub fn new(
        count: usize,
        read_ids: Vec<u128>,
        run_info_count: u16,
        info: FileInfo,
        has_compressed_signal: bool,
    ) -> (r: FileHandle)
        requires
            read_ids@.len() == count,
        ensures
            r.spec_count() == count,
            r.spec_read_ids() == read_ids@,
            r.spec_run_info_count() == run_info_count,
            r.spec_info() == info,
            r.spec_has_compressed_signal() == has_compressed_signal,
    {
        FileHandle { read_ids, run_info_count, info, has_compressed_signal }
    }

    /// A file's row count is the number of its ids.
    pub closed spec fn spec_count(&self) -> usize {
        self.read_ids@.len() as usize
    }

    pub closed spec fn spec_read_ids(&self) -> Seq<u128> {
        self.read_ids@
    }

    /// The row count is the length of the id list.
    pub proof fn lemma_count_is_ids_len(&self)
        ensures
            self.spec_read_ids().len() == self.spec_count(),
    {
        assert(self.read_ids@.len() == self.read_ids.len());
    }

    pub closed spec fn spec_run_info_count(&self) -> u16 {
        self.run_info_count
    }

    pub closed spec fn spec_info(&self) -> FileInfo {
        self.info
    }

    pub closed spec fn spec_has_compressed_signal(&self) -> bool {
        self.has_compressed_signal
    }

    /// Number of rows in the file.
    pub fn count(&self) -> (r: usize)
        ensures
            r == self.spec_count(),
    {
        self.read_ids.len()
    }

    /// The ids of the rows of the file.
    pub fn read_ids(&self) -> (r: &Vec<u128>)
        ensures
            r@ == self.spec_read_ids(),
            r@.len() == self.spec_count(),
    {
        proof {
            self.lemma_count_is_ids_len();
        }
        &self.read_ids
    }

    /// Number of run info records of the file.
    pub fn run_info_count(&self) -> (r: u16)
        ensures
            r == self.spec_run_info_count(),
    {
        self.run_info_count
    }

    /// The file's identifier and version.
    pub fn info(&self) -> (r: FileInfo)
        ensures
            r == self.spec_info(),
    {
        self.info
    }

    /// Whether the file stores its signal compressed.
    pub fn has_compressed_signal(&self) -> (r: bool)
        ensures
            r == self.spec_has_compressed_signal(),
    {
        self.has_compressed_signal
    }
}

/// The sum of the row counts of a sequence of files.
pub open spec fn sum_counts(files: Seq<FileHandle>) -> int
    decreases files.len(),
{
    if files.len() == 0 {
        0
    } else {
        sum_counts(files.drop_last()) + files.last().spec_count()
    }
}

/// The ids of a sequence of files, file after file.
pub open spec fn all_ids(files: Seq<FileHandle>) -> Seq<u128>
    decreases files.len(),
{
    if files.len() == 0 {
        seq![]
    } else {
        all_ids(files.drop_last()) + files.last().spec_read_ids()
    }
}

/// Each file's ids number its rows, so all ids number all rows.
pub proof fn lemma_all_ids_len(files: Seq<FileHandle>)
    ensures
        all_ids(files).len() == sum_counts(files),
    decreases files.len(),
{
    if files.len() > 0 {
        lemma_all_ids_len(files.drop_last());
        assert(files.last().spec_read_ids().len() == files.last().spec_count()) by {
            files.last().lemma_count_is_ids_len();
        }
    }
}

proof fn lemma_sum_counts_monotone(files: Seq<FileHandle>, n: int)
    requires
        0 <= n <= files.len(),
    ensures
        sum_counts(files.take(n)) <= sum_counts(files),
    decreases files.len() - n,
{
    if n < files.len() {
        lemma_sum_counts_monotone(files, n + 1);
        assert(files.take(n + 1).drop_last() =~= files.take(n));
    } else {
        assert(files.take(n) =~= files);
    }
}

/// An ordered set of open files. The order is fixed when the reader is built
/// and is the order of every traversal.
pub struct Reader {
    inner: Vec<FileHandle>,
}

impl View for Reader {
    type V = Seq<FileHandle>;

    closed spec fn view(&self) -> Seq<FileHandle> {
        self.inner@
    }
}

impl Reader {
    /// A reader over these files, in this order.
    pub fn from_handles(files: Vec<FileHandle>) -> (r: Reader)
        ensures
            r@ == files@,
    {
        Reader { inner: files }
    }

    /// Number of open files.
    pub fn num_files(&self) -> (r: usize)
        ensures
            r == self@.len(),
    {
        self.inner.len()
    }

    /// The `i`-th open file.
    pub fn file(&self, i: usize) -> (r: &FileHandle)
        requires
            i < self@.len(),
        ensures
            *r == self@[i as int],
    {
        &self.inner[i]
    }

    /// Total number of rows over all open files: the sum of the per-file
    /// counts, or a `CapacityError` when that sum does not fit in `usize`.
    pub fn count(&self) -> (r: Result<usize, Error>)
        ensures
            sum_counts(self@) <= usize::MAX ==> r == Ok::<usize, Error>(sum_counts(self@) as usize),
            sum_counts(self@) > usize::MAX ==> r matches Err(Error::CapacityError(_)),
    {
        let mut acc: usize = 0;
        let mut i: usize = 0;
        while i < self.inner.len()
            invariant
                i <= self@.len(),
                acc as int == sum_counts(self@.take(i as int)),
            decreases self@.len() - i,
        {
            proof {
                assert(self@.take(i as int + 1).drop_last() =~= self@.take(i as int));
            }
            let c = self.inner[i].count();
            if c > usize::MAX - acc {
                proof {
                    lemma_sum_counts_monotone(self@, i as int + 1);
                }
                return Err(Error::CapacityError("total row count overflows".to_string()));
            }
            acc = acc + c;
            i = i + 1;
        }
        proof {
            assert(self@.take(i as int) =~= self@);
        }
        Ok(acc)
    }

    /// The ids of every row of every open file, file after file.
    pub fn read_ids(&self) -> (r: Vec<u128>)
        ensures
            r@ == all_ids(self@),
            r@.len() == sum_counts(self@),
    {
        proof {
            lemma_all_ids_len(self@);
        }
        let mut out: Vec<u128> = Vec::new();
        let mut i: usize = 0;
        while i < self.inner.len()
            invariant
                i <= self@.len(),
                out@ == all_ids(self@.take(i as int)),
            decreases self@.len() - i,
        {
            proof {
                assert(self@.take(i as int + 1).drop_last() =~= self@.take(i as int));
            }
            let ids = self.inner[i].read_ids();
            let ghost before = out@;
            let mut k: usize = 0;
            while k < ids.len()
                invariant
                    k <= ids@.len(),
                    out@ =~= before + ids@.take(k as int),
                decreases ids@.len() - k,
            {
                out.push(ids[k]);
                k = k + 1;
            }
            proof {
                assert(ids@.take(k as int) =~= ids@);
            }
            i = i + 1;
        }
        proof {
            assert(self@.take(i as int) =~= self@);
        }
        out
    }

    /// The identifier and version of each open file, in file order.
    pub fn info(&self) -> (r: Vec<FileInfo>)
        ensures
            r@.len() == self@.len(),
            forall|i: int| 0 <= i < self@.len() ==> r@[i] == self@[i].spec_info(),
    {
        let mut out: Vec<FileInfo> = Vec::new();
        let mut i: usize = 0;
        while i < self.inner.len()
            invariant
                i <= self@.len(),
                out@.len() == i,
                forall|j: int| 0 <= j < i ==> out@[j] == self@[j].spec_info(),
            decreases self@.len() - i,
        {
            out.push(self.inner[i].info());
            i = i + 1;
        }
        out
    }

    /// A cursor over the rows of every open file: all of them when `fetch`
    /// is `None`, else those whose ids are in `fetch`.
    pub fn reads_iter(&self, fetch: Option<Vec<u128>>) -> (r: Reads)
        ensures
            r@ == crate::reads::cursor_start(self@.len() as usize, fetch is Some),
            r.requested() == fetch,
            crate::reads::cursor_wf(r@),
    {
        Reads::new(self.inner.len(), fetch)
    }

    /// A cursor over the batches of every open file: all of them when
    /// `fetch` is `None`, else those holding the rows whose ids are in
    /// `fetch`.
    pub fn batch_records_iter(&self, fetch: Option<Vec<u128>>) -> (r: BatchRecordIter)
        ensures
            r@ == crate::reads::cursor_start(self@.len() as usize, fetch is Some),
            r.requested() == fetch,
            crate::readbatch::batch_wf(r@),
    {
        BatchRecordIter::new(self.inner.len(), fetch)
    }

    /// A cursor over the run info records of every open file, each file
    /// with its own run info count.
    pub fn run_info_iter(&self) -> (r: RunInfoIter)
        ensures
            r.spec_counts().len() == self@.len(),
            forall|i: int| 0 <= i < self@.len() ==> r.spec_counts()[i] == self@[i].spec_run_info_count(),
            r.spec_file() == 0,
            r.spec_row() == 0,
    {
        let mut counts: Vec<u16> = Vec::new();
        let mut i: usize = 0;
        while i < self.inner.len()
            invariant
                i <= self@.len(),
                counts@.len() == i,
                forall|j: int| 0 <= j < i ==> counts@[j] == self@[j].spec_run_info_count(),
            decreases self@.len() - i,
        {
            counts.push(self.inner[i].run_info_count());
            i = i + 1;
        }
        RunInfoIter::new(counts)
    }
}

} // verus!
