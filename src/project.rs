//! Projection of decoded rows into named, type-homogeneous columns.
use vstd::prelude::*;

use crate::endreason::{end_reason_name, end_reason_of, EndReason};
use crate::read::Read;
use crate::text::{hyphenated, uuid_text};
use indexmap::IndexMap;

verus! {

/// A field that can be projected out of a read record.
#[derive(Debug, Clone, Copy, PartialEq, Eq, Structural)]
pub enum Field {
    ReadId,
    ReadNumber,
    StartSample,
    MedianBefore,
    Channel,
    Well,
    PoreType,
    CalibrationOffset,
    CalibrationScale,
    EndReason,
    EndReasonForced,
    RunInfo,
    NumMinknowEvents,
    TrackedScalingScale,
    TrackedScalingShift,
    PredictedScalingScale,
    PredictedScalingShift,
    NumReadsSinceMuxChange,
    TimeSinceMuxChange,
    SignalRowCount,
    NumSamples,
}

/// The values of one column.
#[derive(Debug, Clone, PartialEq)]
pub enum ColumnData {
    Text(Vec<String>),
    Bool(Vec<bool>),
    U8(Vec<u8>),
    U16(Vec<u16>),
    U32(Vec<u32>),
    U64(Vec<u64>),
    I16(Vec<i16>),
    I64(Vec<i64>),
    /// IEEE-754 single-precision values, as their bit patterns.
    F32Bits(Vec<u32>),
}

/// A named column.
#[derive(Debug, Clone, PartialEq)]
pub struct Column {
    pub name: String,
    pub data: ColumnData,
}

/// The name a field is asked for by.
pub open spec fn field_name(f: Field) -> Seq<char> {
    match f {
        Field::ReadId => "read_id"@,
        Field::ReadNumber => "read_number"@,
        Field::StartSample => "start_sample"@,
        Field::MedianBefore => "median_before"@,
        Field::Channel => "channel"@,
        Field::Well => "well"@,
        Field::PoreType => "pore_type"@,
        Field::CalibrationOffset => "calibration_offset"@,
        Field::CalibrationScale => "calibration_scale"@,
        Field::EndReason => "end_reason"@,
        Field::EndReasonForced => "end_reason_forced"@,
        Field::RunInfo => "run_info"@,
        Field::NumMinknowEvents => "num_minknow_events"@,
        Field::TrackedScalingScale => "tracked_scaling_scale"@,
        Field::TrackedScalingShift => "tracked_scaling_shift"@,
        Field::PredictedScalingScale => "predicted_scaling_scale"@,
        Field::PredictedScalingShift => "predicted_scaling_shift"@,
        Field::NumReadsSinceMuxChange => "num_reads_since_mux_change"@,
        Field::TimeSinceMuxChange => "time_since_mux_change"@,
        Field::SignalRowCount => "signal_row_count"@,
        Field::NumSamples => "num_samples"@,
    }
}

/// Every projectable field, in the order used when none are named.
pub open spec fn all_fields() -> Seq<Field> {
    seq![
        Field::ReadId,
        Field::ReadNumber,
        Field::StartSample,
        Field::MedianBefore,
        Field::Channel,
        Field::Well,
        Field::PoreType,
        Field::CalibrationOffset,
        Field::CalibrationScale,
        Field::EndReason,
        Field::EndReasonForced,
        Field::RunInfo,
        Field::NumMinknowEvents,
        Field::TrackedScalingScale,
        Field::TrackedScalingShift,
        Field::PredictedScalingScale,
        Field::PredictedScalingShift,
        Field::NumReadsSinceMuxChange,
        Field::TimeSinceMuxChange,
        Field::SignalRowCount,
        Field::NumSamples,
    ]
}

/// A field's position in `all_fields()`, its key among the selected columns.
pub open spec fn field_code(f: Field) -> u64 {
    match f {
        Field::ReadId => 0,
        Field::ReadNumber => 1,
        Field::StartSample => 2,
        Field::MedianBefore => 3,
        Field::Channel => 4,
        Field::Well => 5,
        Field::PoreType => 6,
        Field::CalibrationOffset => 7,
        Field::CalibrationScale => 8,
        Field::EndReason => 9,
        Field::EndReasonForced => 10,
        Field::RunInfo => 11,
        Field::NumMinknowEvents => 12,
        Field::TrackedScalingScale => 13,
        Field::TrackedScalingShift => 14,
        Field::PredictedScalingScale => 15,
        Field::PredictedScalingShift => 16,
        Field::NumReadsSinceMuxChange => 17,
        Field::TimeSinceMuxChange => 18,
        Field::SignalRowCount => 19,
        Field::NumSamples => 20,
    }
}

/// The field a name stands for, if any.
pub open spec fn field_of_name(n: Seq<char>) -> Option<Field> {
    if exists|i: int| 0 <= i < all_fields().len() && field_name(all_fields()[i]) == n {
        Some(all_fields()[choose|i: int| 0 <= i < all_fields().len() && field_name(all_fields()[i]) == n])
    } else {
        None
    }
}

/// No two fields share a name.
proof fn lemma_field_names_distinct()
    ensures
        forall|i: int, j: int|
            0 <= i < all_fields().len() && 0 <= j < all_fields().len() && field_name(all_fields()[i])
                == field_name(all_fields()[j]) ==> i == j,
{
    reveal_strlit("read_id");
    reveal_strlit("read_number");
    reveal_strlit("start_sample");
    reveal_strlit("median_before");
    reveal_strlit("channel");
    reveal_strlit("well");
    reveal_strlit("pore_type");
    reveal_strlit("calibration_offset");
    reveal_strlit("calibration_scale");
    reveal_strlit("end_reason");
    reveal_strlit("end_reason_forced");
    reveal_strlit("run_info");
    reveal_strlit("num_minknow_events");
    reveal_strlit("tracked_scaling_scale");
    reveal_strlit("tracked_scaling_shift");
    reveal_strlit("predicted_scaling_scale");
    reveal_strlit("predicted_scaling_shift");
    reveal_strlit("num_reads_since_mux_change");
    reveal_strlit("time_since_mux_change");
    reveal_strlit("signal_row_count");
    reveal_strlit("num_samples");
    assert forall|i: int, j: int|
        0 <= i < all_fields().len() && 0 <= j < all_fields().len() && field_name(all_fields()[i])
            == field_name(all_fields()[j]) implies i == j by {
        let a = field_name(all_fields()[i]);
        let b = field_name(all_fields()[j]);
        assert(a.len() == b.len());
        assert(a[0] == b[0]);
        assert(a[a.len() - 1] == b[b.len() - 1]);
        assert(a[1] == b[1]);
        assert(a[4] == b[4]);
        assert(a[5] == b[5]);
        assert(a[6] == b[6]);
        assert(a[10] == b[10]);
    }
}

/// The fields that a list of names selects: the recognized names, each
/// field once, at its first mention, in the order given.
pub open spec fn selected_fields(names: Seq<Seq<char>>) -> Seq<Field>
    decreases names.len(),
{
    if names.len() == 0 {
        seq![]
    } else {
        let prev = selected_fields(names.drop_last());
        match field_of_name(names.last()) {
            Some(f) => if prev.contains(f) {
                prev
            } else {
                prev.push(f)
            },
            None => prev,
        }
    }
}

/// The value of an unsigned 32-bit field, bit patterns of floats included.
pub open spec fn u32_value(f: Field, r: Read) -> u32 {
    match f {
        Field::ReadNumber => r.read_number,
        Field::NumReadsSinceMuxChange => r.num_reads_since_mux_change,
        Field::MedianBefore => r.median_before_bits,
        Field::CalibrationOffset => r.calibration_offset_bits,
        Field::CalibrationScale => r.calibration_scale_bits,
        Field::TrackedScalingScale => r.tracked_scaling_scale_bits,
        Field::TrackedScalingShift => r.tracked_scaling_shift_bits,
        Field::PredictedScalingScale => r.predicted_scaling_scale_bits,
        Field::PredictedScalingShift => r.predicted_scaling_shift_bits,
        _ => r.time_since_mux_change_bits,
    }
}

/// The value of an unsigned 64-bit field.
pub open spec fn u64_value(f: Field, r: Read) -> u64 {
    match f {
        Field::StartSample => r.start_sample,
        Field::NumMinknowEvents => r.num_minknow_events,
        _ => r.num_samples,
    }
}

/// The value of a signed 16-bit field.
pub open spec fn i16_value(f: Field, r: Read) -> i16 {
    match f {
        Field::PoreType => r.pore_type,
        _ => r.run_info,
    }
}

/// The text of a text field.
pub open spec fn text_value(f: Field, r: Read) -> Seq<char> {
    match f {
        Field::ReadId => hyphenated(r.read_id),
        _ => end_reason_name(end_reason_of(r.end_reason)),
    }
}

/// Whether `data` is the column of field `f` over `rows`, one value per row,
/// in row order.
pub open spec fn column_matches(f: Field, data: ColumnData, rows: Seq<Read>) -> bool {
    match f {
        Field::ReadId | Field::EndReason => data matches ColumnData::Text(v) && v@.len() == rows.len()
            && forall|i: int| 0 <= i < rows.len() ==> #[trigger] v@[i]@ == text_value(f, rows[i]),
        Field::EndReasonForced => data matches ColumnData::Bool(v) && v@ == rows.map_values(
            |r: Read| r.end_reason_forced == 1,
        ),
        Field::Well => data matches ColumnData::U8(v) && v@ == rows.map_values(|r: Read| r.well),
        Field::Channel => data matches ColumnData::U16(v) && v@ == rows.map_values(|r: Read| r.channel),
        Field::SignalRowCount => data matches ColumnData::I64(v) && v@ == rows.map_values(
            |r: Read| r.signal_row_count,
        ),
        Field::StartSample | Field::NumMinknowEvents | Field::NumSamples => data matches ColumnData::U64(
            v,
        ) && v@ == rows.map_values(|r: Read| u64_value(f, r)),
        Field::PoreType | Field::RunInfo => data matches ColumnData::I16(v) && v@ == rows.map_values(
            |r: Read| i16_value(f, r),
        ),
        Field::ReadNumber | Field::NumReadsSinceMuxChange => data matches ColumnData::U32(v) && v@
            == rows.map_values(|r: Read| u32_value(f, r)),
        _ => data matches ColumnData::F32Bits(v) && v@ == rows.map_values(|r: Read| u32_value(f, r)),
    }
}

impl Field {
    /// The field's key among the selected columns.
    pub fn code(&self) -> (r: u64)
        ensures
            r == field_code(*self),
    {
        match self {
            Field::ReadId => 0,
            Field::ReadNumber => 1,
            Field::StartSample => 2,
            Field::MedianBefore => 3,
            Field::Channel => 4,
            Field::Well => 5,
            Field::PoreType => 6,
            Field::CalibrationOffset => 7,
            Field::CalibrationScale => 8,
            Field::EndReason => 9,
            Field::EndReasonForced => 10,
            Field::RunInfo => 11,
            Field::NumMinknowEvents => 12,
            Field::TrackedScalingScale => 13,
            Field::TrackedScalingShift => 14,
            Field::PredictedScalingScale => 15,
            Field::PredictedScalingShift => 16,
            Field::NumReadsSinceMuxChange => 17,
            Field::TimeSinceMuxChange => 18,
            Field::SignalRowCount => 19,
            Field::NumSamples => 20,
        }
    }

    /// The name the field is asked for by.
    pub fn name(&self) -> (r: String)
        ensures
            r@ == field_name(*self),
    {
        match self {
            Field::ReadId => "read_id".to_string(),
            Field::ReadNumber => "read_number".to_string(),
            Field::StartSample => "start_sample".to_string(),
            Field::MedianBefore => "median_before".to_string(),
            Field::Channel => "channel".to_string(),
            Field::Well => "well".to_string(),
            Field::PoreType => "pore_type".to_string(),
            Field::CalibrationOffset => "calibration_offset".to_string(),
            Field::CalibrationScale => "calibration_scale".to_string(),
            Field::EndReason => "end_reason".to_string(),
            Field::EndReasonForced => "end_reason_forced".to_string(),
            Field::RunInfo => "run_info".to_string(),
            Field::NumMinknowEvents => "num_minknow_events".to_string(),
            Field::TrackedScalingScale => "tracked_scaling_scale".to_string(),
            Field::TrackedScalingShift => "tracked_scaling_shift".to_string(),
            Field::PredictedScalingScale => "predicted_scaling_scale".to_string(),
            Field::PredictedScalingShift => "predicted_scaling_shift".to_string(),
            Field::NumReadsSinceMuxChange => "num_reads_since_mux_change".to_string(),
            Field::TimeSinceMuxChange => "time_since_mux_change".to_string(),
            Field::SignalRowCount => "signal_row_count".to_string(),
            Field::NumSamples => "num_samples".to_string(),
        }
    }
}

/// Every projectable field, in the default order.
pub fn all_fields_vec() -> (r: Vec<Field>)
    ensures
        r@ == all_fields(),
{
    let r = vec![
        Field::ReadId,
        Field::ReadNumber,
        Field::StartSample,
        Field::MedianBefore,
        Field::Channel,
        Field::Well,
        Field::PoreType,
        Field::CalibrationOffset,
        Field::CalibrationScale,
        Field::EndReason,
        Field::EndReasonForced,
        Field::RunInfo,
        Field::NumMinknowEvents,
        Field::TrackedScalingScale,
        Field::TrackedScalingShift,
        Field::PredictedScalingScale,
        Field::PredictedScalingShift,
        Field::NumReadsSinceMuxChange,
        Field::TimeSinceMuxChange,
        Field::SignalRowCount,
        Field::NumSamples,
    ];
    assert(r@ =~= all_fields());
    r
}

/// The field a name stands for; names of no field give `None`.
pub fn field_from_name(name: &String) -> (r: Option<Field>)
    ensures
        r == field_of_name(name@),
{
    let all = all_fields_vec();
    let mut i: usize = 0;
    while i < all.len()
        invariant
            i <= all@.len(),
            all@ == all_fields(),
            forall|j: int| 0 <= j < i ==> field_name(all_fields()[j]) != name@,
        decreases all@.len() - i,
    {
        let n = all[i].name();
        if *name == n {
            proof {
                lemma_field_names_distinct();
                let k = choose|k: int| 0 <= k < all_fields().len() && field_name(all_fields()[k]) == name@;
                assert(k == i);
            }
            return Some(all[i]);
        }
        i = i + 1;
    }
    None
}

fn u32_of(f: Field, r: &Read) -> (v: u32)
    ensures
        v == u32_value(f, *r),
{
    match f {
        Field::ReadNumber => r.read_number,
        Field::NumReadsSinceMuxChange => r.num_reads_since_mux_change,
        Field::MedianBefore => r.median_before_bits,
        Field::CalibrationOffset => r.calibration_offset_bits,
        Field::CalibrationScale => r.calibration_scale_bits,
        Field::TrackedScalingScale => r.tracked_scaling_scale_bits,
        Field::TrackedScalingShift => r.tracked_scaling_shift_bits,
        Field::PredictedScalingScale => r.predicted_scaling_scale_bits,
        Field::PredictedScalingShift => r.predicted_scaling_shift_bits,
        _ => r.time_since_mux_change_bits,
    }
}

fn u64_of(f: Field, r: &Read) -> (v: u64)
    ensures
        v == u64_value(f, *r),
{
    match f {
        Field::StartSample => r.start_sample,
        Field::NumMinknowEvents => r.num_minknow_events,
        _ => r.num_samples,
    }
}

fn i16_of(f: Field, r: &Read) -> (v: i16)
    ensures
        v == i16_value(f, *r),
{
    match f {
        Field::PoreType => r.pore_type,
        _ => r.run_info,
    }
}

fn text_of(f: Field, r: &Read) -> (v: String)
    ensures
        v@ == text_value(f, *r),
{
    match f {
        Field::ReadId => uuid_text(r.read_id),
        _ => EndReason::end_reason_from_code(r.end_reason).name(),
    }
}

/// The column of field `f` over `rows`.
pub fn build_column(f: Field, rows: &Vec<Read>) -> (r: ColumnData)
    ensures
        column_matches(f, r, rows@),
{
    match f {
        Field::ReadId | Field::EndReason => {
            let mut v: Vec<String> = Vec::new();
            let mut i: usize = 0;
            while i < rows.len()
                invariant
                    i <= rows@.len(),
                    v@.len() == i,
                    forall|j: int| 0 <= j < i ==> #[trigger] v@[j]@ == text_value(f, rows@[j]),
                decreases rows@.len() - i,
            {
                v.push(text_of(f, &rows[i]));
                i = i + 1;
            }
            ColumnData::Text(v)
        },
        Field::EndReasonForced => {
            let mut v: Vec<bool> = Vec::new();
            let mut i: usize = 0;
            while i < rows.len()
                invariant
                    i <= rows@.len(),
                    v@ =~= rows@.take(i as int).map_values(|r: Read| r.end_reason_forced == 1),
                decreases rows@.len() - i,
            {
                let r = &rows[i];
                v.push(r.end_reason_forced == 1);
                i = i + 1;
            }
            proof {
                assert(rows@.take(i as int) =~= rows@);
            }
            ColumnData::Bool(v)
        },
        Field::Well => {
            let mut v: Vec<u8> = Vec::new();
            let mut i: usize = 0;
            while i < rows.len()
                invariant
                    i <= rows@.len(),
                    v@ =~= rows@.take(i as int).map_values(|r: Read| r.well),
                decreases rows@.len() - i,
            {
                let r = &rows[i];
                v.push(r.well);
                i = i + 1;
            }
            proof {
                assert(rows@.take(i as int) =~= rows@);
            }
            ColumnData::U8(v)
        },
        Field::Channel => {
            let mut v: Vec<u16> = Vec::new();
            let mut i: usize = 0;
            while i < rows.len()
                invariant
                    i <= rows@.len(),
                    v@ =~= rows@.take(i as int).map_values(|r: Read| r.channel),
                decreases rows@.len() - i,
            {
                let r = &rows[i];
                v.push(r.channel);
                i = i + 1;
            }
            proof {
                assert(rows@.take(i as int) =~= rows@);
            }
            ColumnData::U16(v)
        },
        Field::SignalRowCount => {
            let mut v: Vec<i64> = Vec::new();
            let mut i: usize = 0;
            while i < rows.len()
                invariant
                    i <= rows@.len(),
                    v@ =~= rows@.take(i as int).map_values(|r: Read| r.signal_row_count),
                decreases rows@.len() - i,
            {
                let r = &rows[i];
                v.push(r.signal_row_count);
                i = i + 1;
            }
            proof {
                assert(rows@.take(i as int) =~= rows@);
            }
            ColumnData::I64(v)
        },
        Field::StartSample | Field::NumMinknowEvents | Field::NumSamples => {
            let mut v: Vec<u64> = Vec::new();
            let mut i: usize = 0;
            while i < rows.len()
                invariant
                    i <= rows@.len(),
                    v@ =~= rows@.take(i as int).map_values(|r: Read| u64_value(f, r)),
                decreases rows@.len() - i,
            {
                let r = &rows[i];
                v.push(u64_of(f, r));
                i = i + 1;
            }
            proof {
                assert(rows@.take(i as int) =~= rows@);
            }
            ColumnData::U64(v)
        },
        Field::PoreType | Field::RunInfo => {
            let mut v: Vec<i16> = Vec::new();
            let mut i: usize = 0;
            while i < rows.len()
                invariant
                    i <= rows@.len(),
                    v@ =~= rows@.take(i as int).map_values(|r: Read| i16_value(f, r)),
                decreases rows@.len() - i,
            {
                let r = &rows[i];
                v.push(i16_of(f, r));
                i = i + 1;
            }
            proof {
                assert(rows@.take(i as int) =~= rows@);
            }
            ColumnData::I16(v)
        },
        Field::ReadNumber | Field::NumReadsSinceMuxChange => {
            let mut v: Vec<u32> = Vec::new();
            let mut i: usize = 0;
            while i < rows.len()
                invariant
                    i <= rows@.len(),
                    v@ =~= rows@.take(i as int).map_values(|r: Read| u32_value(f, r)),
                decreases rows@.len() - i,
            {
                let r = &rows[i];
                v.push(u32_of(f, r));
                i = i + 1;
            }
            proof {
                assert(rows@.take(i as int) =~= rows@);
            }
            ColumnData::U32(v)
        },
        _ => {
            let mut v: Vec<u32> = Vec::new();
            let mut i: usize = 0;
            while i < rows.len()
                invariant
                    i <= rows@.len(),
                    v@ =~= rows@.take(i as int).map_values(|r: Read| u32_value(f, r)),
                decreases rows@.len() - i,
            {
                let r = &rows[i];
                v.push(u32_of(f, r));
                i = i + 1;
            }
            proof {
                assert(rows@.take(i as int) =~= rows@);
            }
            ColumnData::F32Bits(v)
        },
    }
}

/// The names of a list of strings as plain values.
pub open spec fn names_view(names: Seq<String>) -> Seq<Seq<char>> {
    names.map_values(|s: String| s@)
}

/// The fields a projection yields: all of them, in the default order, when
/// none are named; else those that the names select.
pub open spec fn projected_fields(fields: Option<Vec<String>>) -> Seq<Field> {
    match fields {
        None => all_fields(),
        Some(names) => selected_fields(names_view(names@)),
    }
}

#[verifier::external_type_specification]
#[verifier::external_body]
#[verifier::reject_recursive_types(K)]
#[verifier::reject_recursive_types(V)]
#[verifier::reject_recursive_types(S)]
pub struct ExIndexMap<K, V, S>(IndexMap<K, V, S>);

/// The keys of an insertion-ordered map of column keys, in their order.
pub uninterp spec fn map_keys(m: IndexMap<u64, ()>) -> Seq<u64>;

/// Relies on `IndexMap::new`: a new map is empty.
#[verifier::external_body]
fn column_map_new() -> (r: IndexMap<u64, ()>)
    ensures
        map_keys(r) == Seq::<u64>::empty(),
{
    IndexMap::new()
}

/// Relies on `IndexMap::insert`: a key already present keeps its place in
/// the order; a new key goes last.
#[verifier::external_body]
fn column_map_insert(m: &mut IndexMap<u64, ()>, key: u64)
    ensures
        map_keys(*old(m)).contains(key) ==> map_keys(*final(m)) == map_keys(*old(m)),
        !map_keys(*old(m)).contains(key) ==> map_keys(*final(m)) == map_keys(*old(m)).push(key),
{
    m.insert(key, ());
}

/// Relies on `IndexMap::keys`: the keys in their order.
#[verifier::external_body]
fn column_map_keys(m: &IndexMap<u64, ()>) -> (r: Vec<u64>)
    ensures
        r@ == map_keys(*m),
{
    m.keys().copied().collect()
}

/// The keys of a sequence of fields.
pub open spec fn codes(fields: Seq<Field>) -> Seq<u64> {
    fields.map_values(|f: Field| field_code(f))
}

proof fn lemma_codes_contains(fields: Seq<Field>, f: Field)
    ensures
        codes(fields).contains(field_code(f)) == fields.contains(f),
{
    if fields.contains(f) {
        let i = choose|i: int| 0 <= i < fields.len() && fields[i] == f;
        assert(codes(fields)[i] == field_code(f));
    }
    if codes(fields).contains(field_code(f)) {
        let i = choose|i: int| 0 <= i < codes(fields).len() && codes(fields)[i] == field_code(f);
        assert(fields[i] == f);
    }
}

/// The fields that `names` select, each once, in order of first mention;
/// names of no field are ignored. The selection is kept as an
/// insertion-ordered map keyed by field, so a repeated name keeps the place
/// of its first mention.
pub fn select_fields(names: &Vec<String>) -> (r: Vec<Field>)
    ensures
        r@ == selected_fields(names_view(names@)),
{
    let mut map = column_map_new();
    let mut i: usize = 0;
    proof {
        assert(codes(selected_fields(names_view(names@.take(0)))) =~= Seq::<u64>::empty());
    }
    while i < names.len()
        invariant
            i <= names@.len(),
            map_keys(map) == codes(selected_fields(names_view(names@.take(i as int)))),
        decreases names@.len() - i,
    {
        proof {
            let t = names_view(names@.take(i as int + 1));
            assert(t.drop_last() =~= names_view(names@.take(i as int)));
            assert(t.last() == names@[i as int]@);
        }
        let ghost prev = selected_fields(names_view(names@.take(i as int)));
        match field_from_name(&names[i]) {
            Some(f) => {
                proof {
                    lemma_codes_contains(prev, f);
                    assert(codes(prev.push(f)) =~= codes(prev).push(field_code(f)));
                }
                column_map_insert(&mut map, f.code());
            },
            None => {},
        }
        i = i + 1;
    }
    proof {
        assert(names@.take(i as int) =~= names@);
    }
    let keys = column_map_keys(&map);
    let ghost sel = selected_fields(names_view(names@));
    let all = all_fields_vec();
    let mut out: Vec<Field> = Vec::new();
    let mut k: usize = 0;
    while k < keys.len()
        invariant
            k <= keys@.len(),
            keys@ == codes(sel),
            all@ == all_fields(),
            out@ =~= sel.take(k as int),
        decreases keys@.len() - k,
    {
        proof {
            assert(keys@[k as int] == field_code(sel[k as int]));
        }
        out.push(all[keys[k] as usize]);
        k = k + 1;
    }
    proof {
        assert(sel.take(k as int) =~= sel);
    }
    out
}

/// Projects `rows` onto the named fields (all fields when `fields` is
/// `None`): one column per selected field, in the order the fields were
/// named, each holding that field of every row in row order. Unknown names
/// are ignored.
pub fn project(rows: &Vec<Read>, fields: &Option<Vec<String>>) -> (r: Vec<Column>)
    ensures
        r@.len() == projected_fields(*fields).len(),
        forall|j: int|
            0 <= j < r@.len() ==> {
                &&& #[trigger] r@[j].name@ == field_name(projected_fields(*fields)[j])
                &&& column_matches(projected_fields(*fields)[j], r@[j].data, rows@)
            },
{
    let sel = match fields {
        None => all_fields_vec(),
        Some(names) => select_fields(names),
    };
    let mut cols: Vec<Column> = Vec::new();
    let mut j: usize = 0;
    while j < sel.len()
        invariant
            j <= sel@.len(),
            sel@ == projected_fields(*fields),
            cols@.len() == j,
            forall|k: int|
                0 <= k < j ==> {
                    &&& #[trigger] cols@[k].name@ == field_name(sel@[k])
                    &&& column_matches(sel@[k], cols@[k].data, rows@)
                },
        decreases sel@.len() - j,
    {
        let f = sel[j];
        cols.push(Column { name: f.name(), data: build_column(f, rows) });
        j = j + 1;
    }
    cols
}

} // verus!
