use std::sync::Arc;

use arrow::datatypes::{DataType, Field as ArrowField, Schema};
use arrow::ipc::writer::FileWriter;
use decapod::error::Error;
use decapod::fileinfo::FileInfo;
use decapod::probe::{compression_from_fields, detect_signal_compression, footer_bytes};
use decapod::readbatch::BatchRecordIter;
use decapod::reader::{FileHandle, Reader};
use decapod::reads::{Action, Event};
use decapod::runinfo::RunInfoIter;

fn info() -> FileInfo {
    FileInfo { file_identifier: 1, major: 0, minor: 3, revision: 1 }
}

fn handle(ids: Vec<u128>, run_infos: u16) -> FileHandle {
    FileHandle::new(ids.len(), ids, run_infos, info(), false)
}

fn ipc_block(fields: Vec<ArrowField>) -> Vec<u8> {
    let schema = Schema::new(fields);
    let mut buf = Vec::new();
    {
        let mut w = FileWriter::try_new(&mut buf, &schema).unwrap();
        w.finish().unwrap();
    }
    buf
}

#[test]
fn total_count_is_the_sum_of_file_counts() {
    let reader = Reader::from_handles(vec![handle(vec![1, 2, 3], 1), handle(vec![], 0), handle(vec![4, 5], 2)]);
    assert_eq!(reader.count(), Ok(5));
    assert_eq!(reader.file(2).count(), 2);
    assert_eq!(reader.num_files(), 3);
}

#[test]
fn read_ids_in_file_order() {
    let reader = Reader::from_handles(vec![handle(vec![9, 8], 0), handle(vec![7], 0)]);
    assert_eq!(reader.read_ids(), vec![9, 8, 7]);
    assert_eq!(reader.read_ids().len(), reader.count().unwrap());
    assert_eq!(reader.info(), vec![info(), info()]);
}

#[test]
fn large_binary_signal_means_compressed() {
    let block = ipc_block(vec![ArrowField::new("signal", DataType::LargeBinary, true)]);
    assert_eq!(detect_signal_compression(&block), Ok(true));
    assert_eq!(detect_signal_compression(&block), Ok(true));
}

#[test]
fn other_signal_type_means_uncompressed() {
    let block = ipc_block(vec![
        ArrowField::new("read_id", DataType::FixedSizeBinary(16), false),
        ArrowField::new("signal", DataType::LargeList(Arc::new(ArrowField::new("item", DataType::Int16, true))), true),
    ]);
    assert_eq!(detect_signal_compression(&block), Ok(false));
}

#[test]
fn missing_signal_field_is_a_compression_error() {
    let block = ipc_block(vec![ArrowField::new("samples", DataType::Int16, true)]);
    assert!(matches!(detect_signal_compression(&block), Err(Error::ArrowCompressionError(_))));
    assert!(matches!(detect_signal_compression(&vec![1, 2, 3]), Err(Error::ArrowCompressionError(_))));
    let msg = Error::ArrowCompressionError("unable to determine signal compression".to_string());
    assert_eq!(detect_signal_compression(&vec![]), Err(msg.clone()));
    assert_eq!(compression_from_fields(None), Err(msg.clone()));
    let other = vec![("samples".to_string(), true, false)];
    assert_eq!(compression_from_fields(Some(other)), Err(msg));
}

#[test]
fn first_signal_field_decides_the_flag() {
    let fields = vec![
        ("read_id".to_string(), false, false),
        ("signal".to_string(), true, false),
        ("signal".to_string(), false, false),
    ];
    assert_eq!(compression_from_fields(Some(fields)), Ok(true));
    let dictionary = vec![("signal".to_string(), true, true)];
    assert_eq!(compression_from_fields(Some(dictionary)), Ok(false));
}

#[test]
fn footer_is_found_by_the_trailer() {
    let mut block = vec![9u8, 9, 1, 2, 3];
    block.extend_from_slice(&[3, 0, 0, 0]);
    block.extend_from_slice(b"ARROW1");
    assert_eq!(footer_bytes(&block), Some(vec![1, 2, 3]));
    let mut too_long = vec![1u8, 2];
    too_long.extend_from_slice(&[3, 0, 0, 0]);
    too_long.extend_from_slice(b"ARROW1");
    assert_eq!(footer_bytes(&too_long), None);
    let mut negative = vec![1u8, 2, 3];
    negative.extend_from_slice(&[0xff, 0xff, 0xff, 0xff]);
    negative.extend_from_slice(b"ARROW1");
    assert_eq!(footer_bytes(&negative), None);
    assert_eq!(footer_bytes(&b"ARROW1".to_vec()), None);
    let mut bad_magic = vec![0u8, 0, 0, 0];
    bad_magic.extend_from_slice(b"ARROW2");
    assert_eq!(footer_bytes(&bad_magic), None);
    let block = ipc_block(vec![ArrowField::new("signal", DataType::LargeBinary, true)]);
    assert!(footer_bytes(&block).is_some());
}

#[test]
fn run_info_positions_skip_files_without_records() {
    let reader = Reader::from_handles(vec![handle(vec![], 2), handle(vec![], 0), handle(vec![], 1)]);
    let mut it = reader.run_info_iter();
    assert_eq!(it.next(), Some((0, 0)));
    assert_eq!(it.next(), Some((0, 1)));
    assert_eq!(it.next(), Some((2, 0)));
    assert_eq!(it.next(), None);
    assert_eq!(it.next(), None);
    let mut empty = RunInfoIter::new(vec![]);
    assert_eq!(empty.next(), None);
}

#[test]
fn batch_cursor_releases_before_opening_the_next() {
    let reader = Reader::from_handles(vec![handle(vec![1, 2, 3, 4, 5], 0)]);
    let mut it: BatchRecordIter = reader.batch_records_iter(None);
    assert_eq!(it.next(Event::Resume), Action::CountBatches { file: 0 });
    assert_eq!(it.next(Event::BatchCount(2)), Action::OpenBatch { file: 0, batch: 0 });
    let first = match it.next(Event::BatchOpened(3)) {
        Action::EmitBatch(b) => b,
        other => panic!("{:?}", other),
    };
    assert_eq!((first.file, first.batch, first.row_count, first.fetch_rows.clone()), (0, 0, 3, None));
    assert_eq!(first.rows_to_take(), vec![0, 1, 2]);
    assert_eq!(it.next(Event::Resume), Action::ReleaseBatch { file: 0, batch: 0 });
    assert_eq!(it.next(Event::Resume), Action::OpenBatch { file: 0, batch: 1 });
    assert!(matches!(it.next(Event::BatchOpened(2)), Action::EmitBatch(_)));
    assert_eq!(it.next(Event::Resume), Action::ReleaseBatch { file: 0, batch: 1 });
    assert_eq!(it.next(Event::Resume), Action::Finished);
}

#[test]
fn selective_batch_cursor_carries_the_fetched_rows() {
    let reader = Reader::from_handles(vec![handle(vec![1, 2, 3, 4, 5], 0)]);
    let mut it = reader.batch_records_iter(Some(vec![4, 5]));
    assert_eq!(it.fetch_ids(), &Some(vec![4, 5]));
    assert_eq!(it.next(Event::Resume), Action::PlanFetch { file: 0 });
    let plan = Event::Planned { rows_per_batch: vec![0, 2], batch_rows: vec![1, 0], located: 2 };
    assert_eq!(it.next(plan), Action::OpenBatch { file: 0, batch: 1 });
    let rec = match it.next(Event::BatchOpened(2)) {
        Action::EmitBatch(b) => b,
        other => panic!("{:?}", other),
    };
    assert_eq!(rec.batch, 1);
    assert_eq!(rec.fetch_rows, Some(vec![1, 0]));
    assert_eq!(rec.rows_to_take(), vec![1, 0]);
    assert_eq!(it.next(Event::Resume), Action::ReleaseBatch { file: 0, batch: 1 });
    assert_eq!(it.next(Event::Resume), Action::Finished);
}
