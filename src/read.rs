//! One decoded row: a read record.
use vstd::prelude::*;

use crate::endreason::{end_reason_of, EndReason};
use crate::text::{hyphenated, uuid_text};

verus! {

/// A read record: a value copy of one row of a batch, with the coordinates it
/// was decoded from. Floating-point fields are kept as their IEEE-754 bit
/// patterns.
#[derive(Debug, Clone, Copy, PartialEq, Eq, Structural)]
pub struct Read {
    pub read_id: u128,
    pub read_number: u32,
    pub start_sample: u64,
    pub calibration_offset_bits: u32,
    pub calibration_scale_bits: u32,
    pub channel: u16,
    pub median_before_bits: u32,
    pub well: u8,
    pub pore_type: i16,
    pub end_reason: i16,
    pub end_reason_forced: u8,
    pub run_info: i16,
    pub signal_row_count: i64,
    pub num_reads_since_mux_change: u32,
    pub num_minknow_events: u64,
    pub num_samples: u64,
    pub tracked_scaling_scale_bits: u32,
    pub tracked_scaling_shift_bits: u32,
    pub predicted_scaling_scale_bits: u32,
    pub predicted_scaling_shift_bits: u32,
    pub time_since_mux_change_bits: u32,
    pub table_ver: u16,
    /// The file the row was decoded from.
    pub file: usize,
    /// The batch of that file.
    pub batch: usize,
    /// The row index within that batch.
    pub batch_row: usize,
    /// The file's signal compression flag.
    pub has_compression: bool,
}

/// Calibration of a read: offset and scale from the row itself, and the
/// extra values (digitisation and range) that the storage engine is asked
/// for only when first wanted, then kept. Floats are bit patterns.
#[derive(Debug, Clone, Copy, PartialEq, Eq)]
pub struct Calibration {
    pub offset_bits: u32,
    pub scale_bits: u32,
    pub extra: Option<(u16, u32)>,
}

impl Calibration {
    /// Calibration offset.
    pub fn offset(&self) -> (r: u32)
        ensures
            r == self.offset_bits,
    {
        self.offset_bits
    }

    /// Calibration scale.
    pub fn scale(&self) -> (r: u32)
        ensures
            r == self.scale_bits,
    {
        self.scale_bits
    }

    /// Whether the extra values have still to be fetched.
    pub fn needs_extra(&self) -> (r: bool)
        ensures
            r == (self.extra is None),
    {
        self.extra.is_none()
    }

    /// Keeps fetched extra values; values kept earlier stay as they are.
    pub fn fill_extra(&mut self, digitisation: u16, range_bits: u32)
        ensures
            old(self).extra is None ==> final(self).extra == Some((digitisation, range_bits)),
            old(self).extra is Some ==> final(self).extra == old(self).extra,
            final(self).offset_bits == old(self).offset_bits,
            final(self).scale_bits == old(self).scale_bits,
    {
        if self.extra.is_none() {
            self.extra = Some((digitisation, range_bits));
        }
    }

    /// The digitisation, once fetched.
    pub fn digitisation(&self) -> (r: Option<u16>)
        ensures
            self.extra matches Some(e) ==> r == Some(e.0),
            self.extra is None ==> r is None,
    {
        match self.extra {
            Some(e) => Some(e.0),
            None => None,
        }
    }

    /// The range, once fetched.
    pub fn range(&self) -> (r: Option<u32>)
        ensures
            self.extra matches Some(e) ==> r == Some(e.1),
            self.extra is None ==> r is None,
    {
        match self.extra {
            Some(e) => Some(e.1),
            None => None,
        }
    }
}

impl Read {
    /// The read's calibration, with nothing fetched yet.
    pub fn calibration(&self) -> (r: Calibration)
        ensures
            r.offset_bits == self.calibration_offset_bits,
            r.scale_bits == self.calibration_scale_bits,
            r.extra is None,
    {
        Calibration { offset_bits: self.calibration_offset_bits, scale_bits: self.calibration_scale_bits, extra: None }
    }

    /// The read id, as the 128-bit big-endian value of its 16 bytes.
    pub fn uuid(&self) -> (r: u128)
        ensures
            r == self.read_id,
    {
        self.read_id
    }

    /// The read id in its canonical text form: lower-case, hyphenated 8-4-4-4-12.
    pub fn read_id_string(&self) -> (r: String)
        ensures
            r@ == hyphenated(self.read_id),
    {
        uuid_text(self.read_id)
    }

    /// The read number.
    pub fn read_number(&self) -> (r: u32)
        ensures
            r == self.read_number,
    {
        self.read_number
    }

    /// Number of samples in the channel before the read was taken.
    pub fn start_sample(&self) -> (r: u64)
        ensures
            r == self.start_sample,
    {
        self.start_sample
    }

    /// 1-indexed channel.
    pub fn channel(&self) -> (r: u16)
        ensures
            r == self.channel,
    {
        self.channel
    }

    /// 1-indexed well.
    pub fn well(&self) -> (r: u8)
        ensures
            r == self.well,
    {
        self.well
    }

    /// The raw pore type code.
    pub fn pore_type(&self) -> (r: i16)
        ensures
            r == self.pore_type,
    {
        self.pore_type
    }

    /// Why the read ended.
    pub fn end_reason(&self) -> (r: EndReason)
        ensures
            r == end_reason_of(self.end_reason),
    {
        EndReason::end_reason_from_code(self.end_reason)
    }

    /// True when the read was ended by force.
    pub fn end_reason_forced(&self) -> (r: bool)
        ensures
            r == (self.end_reason_forced == 1),
    {
        self.end_reason_forced == 1
    }

    /// The index of the run info record the read belongs to.
    pub fn run_info_num(&self) -> (r: i16)
        ensures
            r == self.run_info,
    {
        self.run_info
    }

    /// Number of events the acquisition software recorded for the read.
    pub fn num_minknow_events(&self) -> (r: u64)
        ensures
            r == self.num_minknow_events,
    {
        self.num_minknow_events
    }

    /// Number of reads since the last mux change.
    pub fn num_reads_since_mux_change(&self) -> (r: u32)
        ensures
            r == self.num_reads_since_mux_change,
    {
        self.num_reads_since_mux_change
    }

    /// Number of signal rows.
    pub fn signal_row_count(&self) -> (r: i64)
        ensures
            r == self.signal_row_count,
    {
        self.signal_row_count
    }

    /// Number of signal samples.
    pub fn num_samples(&self) -> (r: u64)
        ensures
            r == self.num_samples,
    {
        self.num_samples
    }
}

} // verus!
