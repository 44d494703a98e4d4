use decapod::fetch::plan_fetch_path;
use decapod::fileinfo::FileInfo;
use decapod::reader::{FileHandle, Reader};
use decapod::reads::{Action, Event, Reads};

/// A simulated storage engine: `files[f][b][r]` is the id of row `r` of
/// batch `b` of file `f`. Returns the (file, batch, row) of every row handed
/// out, and checks that each decoded row lies in the batch that is open.
fn drive(reads: &mut Reads, files: &[Vec<Vec<u128>>]) -> (Vec<(usize, usize, usize)>, usize) {
    let mut out = Vec::new();
    let mut open: Option<(usize, usize)> = None;
    let mut releases = 0usize;
    let mut ev = Event::Resume;
    let mut steps = 0usize;
    loop {
        steps += 1;
        assert!(steps < 10_000);
        match reads.next(ev) {
            Action::CountBatches { file } => ev = Event::BatchCount(files[file].len()),
            Action::PlanFetch { file } => {
                let wanted = reads.fetch_ids().clone().unwrap();
                let mut counts = Vec::new();
                let mut rows = Vec::new();
                for batch in &files[file] {
                    let mut c = 0u32;
                    for (r, id) in batch.iter().enumerate() {
                        if wanted.contains(id) {
                            rows.push(r as u32);
                            c += 1;
                        }
                    }
                    counts.push(c);
                }
                let located = rows.len();
                ev = Event::Planned { rows_per_batch: counts, batch_rows: rows, located };
            }
            Action::OpenBatch { file, batch } => {
                assert_eq!(open, None);
                open = Some((file, batch));
                ev = Event::BatchOpened(files[file][batch].len());
            }
            Action::ReleaseBatch { file, batch } => {
                assert_eq!(open, Some((file, batch)));
                open = None;
                releases += 1;
                ev = Event::Resume;
            }
            Action::DecodeRow { file, batch, row } => {
                assert_eq!(open, Some((file, batch)));
                out.push((file, batch, row));
                ev = Event::RowDecoded;
            }
            Action::Finished => break,
            other => panic!("unexpected action {:?}", other),
        }
    }
    assert_eq!(open, None);
    (out, releases)
}

fn ids_of(files: &[Vec<Vec<u128>>], rows: &[(usize, usize, usize)]) -> Vec<u128> {
    rows.iter().map(|&(f, b, r)| files[f][b][r]).collect()
}

fn example_file() -> Vec<Vec<u128>> {
    vec![vec![10, 11, 12], vec![20, 21]]
}

#[test]
fn sequential_two_batches_of_three_and_two() {
    let files = vec![example_file()];
    let mut reads = Reads::new(1, None);
    let (rows, releases) = drive(&mut reads, &files);
    assert_eq!(rows, vec![(0, 0, 0), (0, 0, 1), (0, 0, 2), (0, 1, 0), (0, 1, 1)]);
    assert_eq!(releases, 2);
}

#[test]
fn selective_rows_of_second_batch() {
    let files = vec![example_file()];
    let plan = plan_fetch_path(&vec![0, 2], &vec![0, 1], 2).unwrap().unwrap();
    assert_eq!(plan, vec![(1usize, vec![0u32, 1])]);
    let mut reads = Reads::new(1, Some(vec![20, 21]));
    let (rows, _) = drive(&mut reads, &files);
    assert_eq!(rows, vec![(0, 1, 0), (0, 1, 1)]);
    assert!(rows.iter().all(|&(_, b, _)| b == 1));
}

#[test]
fn sequential_visits_every_row_of_every_file_in_order() {
    let files = vec![vec![vec![1, 2], vec![], vec![3]], vec![], vec![vec![4, 5, 6]]];
    let mut reads = Reads::new(3, None);
    let (rows, _) = drive(&mut reads, &files);
    assert_eq!(rows, vec![(0, 0, 0), (0, 0, 1), (0, 2, 0), (2, 0, 0), (2, 0, 1), (2, 0, 2)]);
    assert_eq!(ids_of(&files, &rows), vec![1, 2, 3, 4, 5, 6]);
}

#[test]
fn selective_yields_exactly_the_requested_ids() {
    let files = vec![vec![vec![1, 2], vec![3]], vec![vec![4, 5, 6]]];
    let wanted = vec![6u128, 1, 3];
    let mut reads = Reads::new(2, Some(wanted.clone()));
    let (rows, _) = drive(&mut reads, &files);
    let mut got = ids_of(&files, &rows);
    got.sort();
    assert_eq!(got, vec![1, 3, 6]);
}

#[test]
fn selective_with_no_id_present_yields_nothing() {
    let files = vec![vec![vec![1, 2], vec![3]], vec![vec![4]]];
    let mut reads = Reads::new(2, Some(vec![99, 100]));
    let (rows, releases) = drive(&mut reads, &files);
    assert!(rows.is_empty());
    assert_eq!(releases, 0);
}

#[test]
fn finished_cursor_stays_finished() {
    let files = vec![example_file()];
    let mut reads = Reads::new(1, None);
    drive(&mut reads, &files);
    assert_eq!(reads.next(Event::Resume), Action::Finished);
    assert_eq!(reads.next(Event::Resume), Action::Finished);
}

#[test]
fn failed_native_call_leaves_the_cursor_where_it_was() {
    let mut reads = Reads::new(1, None);
    assert_eq!(reads.next(Event::Resume), Action::CountBatches { file: 0 });
    let e = decapod::error::Error::IOError("disk".to_string());
    assert_eq!(reads.next(Event::NativeError(e.clone())), Action::Failed(e));
    assert_eq!(reads.next(Event::Resume), Action::CountBatches { file: 0 });
    assert_eq!(reads.next(Event::BatchCount(1)), Action::OpenBatch { file: 0, batch: 0 });
    assert_eq!(reads.next(Event::BatchOpened(2)), Action::DecodeRow { file: 0, batch: 0, row: 0 });
    assert_eq!(reads.next(Event::RowDecoded), Action::DecodeRow { file: 0, batch: 0, row: 1 });
    let bad = decapod::error::Error::InvalidError("decode".to_string());
    assert_eq!(reads.next(Event::NativeError(bad.clone())), Action::Failed(bad));
    assert_eq!(reads.next(Event::Resume), Action::DecodeRow { file: 0, batch: 0, row: 1 });
    assert_eq!(reads.next(Event::RowDecoded), Action::ReleaseBatch { file: 0, batch: 0 });
}

#[test]
fn answer_to_another_request_is_rejected() {
    let mut reads = Reads::new(1, None);
    assert_eq!(reads.next(Event::Resume), Action::CountBatches { file: 0 });
    assert_eq!(reads.next(Event::BatchOpened(4)), Action::Rejected);
    assert_eq!(reads.next(Event::BatchCount(0)), Action::Finished);
}

#[test]
fn released_batch_is_never_read_again() {
    let files = vec![vec![vec![1], vec![2], vec![3]]];
    let mut reads = Reads::new(1, None);
    assert_eq!(reads.next(Event::Resume), Action::CountBatches { file: 0 });
    assert_eq!(reads.next(Event::BatchCount(3)), Action::OpenBatch { file: 0, batch: 0 });
    assert_eq!(reads.next(Event::BatchOpened(1)), Action::DecodeRow { file: 0, batch: 0, row: 0 });
    assert_eq!(reads.next(Event::RowDecoded), Action::ReleaseBatch { file: 0, batch: 0 });
    assert_eq!(reads.next(Event::Resume), Action::OpenBatch { file: 0, batch: 1 });
    assert_eq!(reads.next(Event::BatchOpened(1)), Action::DecodeRow { file: 0, batch: 1, row: 0 });
    assert_eq!(reads.next(Event::RowDecoded), Action::ReleaseBatch { file: 0, batch: 1 });
    assert_eq!(reads.next(Event::Resume), Action::OpenBatch { file: 0, batch: 2 });
    assert_eq!(reads.next(Event::BatchOpened(files[0][2].len())), Action::DecodeRow { file: 0, batch: 2, row: 0 });
    assert_eq!(reads.next(Event::RowDecoded), Action::ReleaseBatch { file: 0, batch: 2 });
    assert_eq!(reads.next(Event::Resume), Action::Finished);
}

#[test]
fn inconsistent_plan_fails_without_moving() {
    let mut reads = Reads::new(1, Some(vec![1]));
    assert_eq!(reads.next(Event::Resume), Action::PlanFetch { file: 0 });
    let bad = Event::Planned { rows_per_batch: vec![3], batch_rows: vec![0], located: 1 };
    assert!(matches!(reads.next(bad), Action::Failed(decapod::error::Error::IndexError(_))));
    assert_eq!(reads.next(Event::Resume), Action::PlanFetch { file: 0 });
}

#[test]
fn traversal_through_reader_visits_count_rows() {
    let files = vec![vec![vec![1, 2], vec![3]], vec![vec![4], vec![5, 6, 7]]];
    let info = FileInfo { file_identifier: 0, major: 0, minor: 0, revision: 0 };
    let handles: Vec<FileHandle> = files
        .iter()
        .map(|f| {
            let ids: Vec<u128> = f.iter().flatten().copied().collect();
            FileHandle::new(ids.len(), ids, 0, info, true)
        })
        .collect();
    let reader = Reader::from_handles(handles);
    let mut reads = reader.reads_iter(None);
    let (rows, releases) = drive(&mut reads, &files);
    assert_eq!(Ok(rows.len()), reader.count());
    assert_eq!(ids_of(&files, &rows), reader.read_ids());
    assert_eq!(releases, 4);
}
