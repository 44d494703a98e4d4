use decapod::endreason::EndReason;
use decapod::error::{check_status, Error};
use decapod::fileinfo::FileInfo;
use decapod::project::{build_column, project, select_fields, ColumnData, Field};
use decapod::read::Read;
use decapod::runinfo::RunInfo;

fn row(id: u128, channel: u16, end_reason: i16) -> Read {
    Read {
        read_id: id,
        read_number: 7,
        start_sample: 1000,
        calibration_offset_bits: 1.5f32.to_bits(),
        calibration_scale_bits: 0.25f32.to_bits(),
        channel,
        median_before_bits: 200.0f32.to_bits(),
        well: 2,
        pore_type: -1,
        end_reason,
        end_reason_forced: 1,
        run_info: 3,
        signal_row_count: 4,
        num_reads_since_mux_change: 9,
        num_minknow_events: 11,
        num_samples: 4000,
        tracked_scaling_scale_bits: 1.0f32.to_bits(),
        tracked_scaling_shift_bits: 2.0f32.to_bits(),
        predicted_scaling_scale_bits: 3.0f32.to_bits(),
        predicted_scaling_shift_bits: 4.0f32.to_bits(),
        time_since_mux_change_bits: 5.0f32.to_bits(),
        table_ver: 3,
        file: 0,
        batch: 0,
        batch_row: 0,
        has_compression: true,
    }
}

const ID: u128 = 0xa1a2a3a4b1b2c1c2d1d2d3d4d5d6d7d8;

#[test]
fn error_codes_map_to_kinds() {
    let m = || "m".to_string();
    assert_eq!(Error::from_error_code(1, m()), Error::MemoryError(m()));
    assert_eq!(Error::from_error_code(2, m()), Error::KeyError(m()));
    assert_eq!(Error::from_error_code(3, m()), Error::TypeError(m()));
    assert_eq!(Error::from_error_code(4, m()), Error::InvalidError(m()));
    assert_eq!(Error::from_error_code(5, m()), Error::IOError(m()));
    assert_eq!(Error::from_error_code(6, m()), Error::CapacityError(m()));
    assert_eq!(Error::from_error_code(7, m()), Error::IndexError(m()));
    assert_eq!(Error::from_error_code(8, m()), Error::CancelledError(m()));
    assert_eq!(Error::from_error_code(9, m()), Error::UnknownError(m()));
    assert_eq!(Error::from_error_code(10, m()), Error::NotImplementedError(m()));
    assert_eq!(Error::from_error_code(11, m()), Error::SerialisationError(m()));
    assert_eq!(Error::from_error_code(12, m()), Error::StringLengthError(m()));
    assert_eq!(Error::from_error_code(99, m()), Error::UnknownError(m()));
}

#[test]
fn status_ok_passes_the_value_through() {
    assert_eq!(check_status(0, "x".to_string(), 5u32), Ok(5));
    assert_eq!(check_status(5, "gone".to_string(), 5u32), Err(Error::IOError("gone".to_string())));
}

#[test]
fn end_reason_codes_and_names() {
    assert_eq!(EndReason::end_reason_from_code(1), EndReason::MuxChange);
    assert_eq!(EndReason::end_reason_from_code(4), EndReason::SignalPositive);
    assert_eq!(EndReason::end_reason_from_code(8), EndReason::AnalysisConfigChange);
    assert_eq!(EndReason::end_reason_from_code(0), EndReason::Unknown);
    assert_eq!(EndReason::end_reason_from_code(-3), EndReason::Unknown);
    assert_eq!(EndReason::APIRequest.name(), "APIRequest");
    assert_eq!(EndReason::DataServiceUnblockMuxChange.name(), "DataServiceUnblockMuxChange");
}

#[test]
fn read_id_text_is_hyphenated_lower_case() {
    assert_eq!(row(ID, 1, 0).read_id_string(), "a1a2a3a4-b1b2-c1c2-d1d2-d3d4d5d6d7d8");
    assert_eq!(row(0, 1, 0).read_id_string(), "00000000-0000-0000-0000-000000000000");
}

#[test]
fn read_accessors() {
    let r = row(ID, 42, 6);
    assert_eq!(r.uuid(), ID);
    assert_eq!(r.channel(), 42);
    assert_eq!(r.well(), 2);
    assert_eq!(r.end_reason(), EndReason::APIRequest);
    assert!(r.end_reason_forced());
    assert_eq!(r.run_info_num(), 3);
    assert_eq!(r.num_samples(), 4000);
    assert_eq!(r.signal_row_count(), 4);
}

#[test]
fn file_info_versions() {
    let info = FileInfo { file_identifier: ID, major: 1, minor: 2, revision: 3 };
    assert_eq!(info.major_version(), 1);
    assert_eq!(info.minor_version(), 2);
    assert_eq!(info.revision_version(), 3);
    assert_eq!(info.file_identifier(), ID);
}

#[test]
fn project_read_id_and_channel_over_three_rows() {
    let rows = vec![row(ID, 1, 0), row(1, 2, 1), row(2, 3, 2)];
    let fields = Some(vec!["read_id".to_string(), "channel".to_string()]);
    let table = project(&rows, &fields);
    assert_eq!(table.len(), 2);
    assert_eq!(table[0].name, "read_id");
    assert_eq!(table[1].name, "channel");
    match &table[0].data {
        ColumnData::Text(v) => {
            assert_eq!(v.len(), 3);
            assert_eq!(v[0], "a1a2a3a4-b1b2-c1c2-d1d2-d3d4d5d6d7d8");
            assert_eq!(v[1], "00000000-0000-0000-0000-000000000001");
        }
        other => panic!("read_id column is {:?}", other),
    }
    assert_eq!(table[1].data, ColumnData::U16(vec![1, 2, 3]));
}

#[test]
fn project_ignores_unknown_and_repeated_names() {
    let rows = vec![row(ID, 1, 2)];
    let fields = Some(vec![
        "end_reason".to_string(),
        "no_such_field".to_string(),
        "signal".to_string(),
        "end_reason".to_string(),
        "well".to_string(),
    ]);
    let table = project(&rows, &fields);
    assert_eq!(table.len(), 2);
    assert_eq!(table[0].data, ColumnData::Text(vec!["UnblockMuxChange".to_string()]));
    assert_eq!(table[1].data, ColumnData::U8(vec![2]));
}

#[test]
fn project_all_fields_by_default() {
    let rows = vec![row(ID, 1, 0), row(5, 2, 0)];
    let table = project(&rows, &None);
    assert_eq!(table.len(), 21);
    assert_eq!(table[0].name, "read_id");
    assert_eq!(table[20].name, "num_samples");
    assert_eq!(table[3].data, ColumnData::F32Bits(vec![200.0f32.to_bits(); 2]));
    assert_eq!(table[10].data, ColumnData::Bool(vec![true, true]));
    assert_eq!(table[6].data, ColumnData::I16(vec![-1, -1]));
}

#[test]
fn project_over_no_rows_gives_empty_columns() {
    let table = project(&vec![], &Some(vec!["num_samples".to_string()]));
    assert_eq!(table.len(), 1);
    assert_eq!(table[0].data, ColumnData::U64(vec![]));
}

#[test]
fn select_fields_keeps_first_mention_order() {
    let names = vec!["well".to_string(), "read_id".to_string(), "well".to_string()];
    assert_eq!(select_fields(&names), vec![Field::Well, Field::ReadId]);
    assert_eq!(build_column(Field::ReadNumber, &vec![row(1, 1, 0)]), ColumnData::U32(vec![7]));
}

#[test]
fn run_info_text_of_failed_decode() {
    assert_eq!(RunInfo::handle_result(Ok("flow".to_string())), "flow");
    assert_eq!(RunInfo::handle_result(Err(Error::StringError("x".to_string()))), "<invalid UTF-8>");
}

#[test]
fn calibration_extra_values_are_fetched_once_then_kept() {
    let r = row(ID, 1, 0);
    let mut cal = r.calibration();
    assert_eq!(cal.offset(), 1.5f32.to_bits());
    assert_eq!(cal.scale(), 0.25f32.to_bits());
    assert!(cal.needs_extra());
    assert_eq!(cal.digitisation(), None);
    cal.fill_extra(8192, 1500.0f32.to_bits());
    assert!(!cal.needs_extra());
    cal.fill_extra(1, 1);
    assert_eq!(cal.digitisation(), Some(8192));
    assert_eq!(cal.range(), Some(1500.0f32.to_bits()));
}

fn run_info() -> RunInfo {
    let s = |x: &str| x.to_string();
    RunInfo {
        acquisition_id: s("acq"),
        acquisition_start_time_ms: 10,
        adc_max: 4095,
        adc_min: -4096,
        context_tags: vec![(s("k"), s("v"))],
        experiment_name: s("exp"),
        flow_cell_id: s("FC1"),
        flow_cell_product_code: s("FLO"),
        protocol_name: s("proto"),
        protocol_run_id: s("run"),
        protocol_start_time_ms: 20,
        sample_id: s("sample"),
        sample_rate: 4000,
        sequencing_kit: s("kit"),
        sequencer_position: s("X1"),
        sequencer_position_type: s("pos"),
        software: s("sw"),
        system_name: s("sys"),
        system_type: s("type"),
        tracking_id: vec![(s("a"), s("b"))],
    }
}

#[test]
fn run_info_accessors() {
    let r = run_info();
    assert_eq!(r.acquisition_id(), "acq");
    assert_eq!(r.flow_cell_id(), "FC1");
    assert_eq!(r.sequencer_position_type(), "pos");
    assert_eq!(r.adc_min(), -4096);
    assert_eq!(r.sample_rate(), 4000);
    assert_eq!(r.context_tags(), &vec![("k".to_string(), "v".to_string())]);
    assert_eq!(r.tracking_id().len(), 1);
}

#[test]
fn tags_keep_each_key_once_with_its_last_value() {
    let s = |x: &str| x.to_string();
    let pairs = vec![(s("a"), s("1")), (s("b"), s("2")), (s("a"), s("3"))];
    assert_eq!(decapod::runinfo::tags_from_pairs(&pairs), vec![(s("a"), s("3")), (s("b"), s("2"))]);
    assert_eq!(decapod::runinfo::tags_from_pairs(&vec![]), vec![]);
}
