//! Why the acquisition of a read ended.
use vstd::prelude::*;

verus! {

/// The reason a read ended, decoded from its numeric code.
#[derive(Debug, Clone, Copy, PartialEq, Eq, Structural)]
pub enum EndReason {
    Unknown,
    MuxChange,
    UnblockMuxChange,
    DataServiceUnblockMuxChange,
    SignalPositive,
    SignalNegative,
    APIRequest,
    DeviceDataError,
    AnalysisConfigChange,
}

/// The end reason that a numeric code stands for; unlisted codes are `Unknown`.
pub open spec fn end_reason_of(code: i16) -> EndReason {
    if code == 1 {
        EndReason::MuxChange
    } else if code == 2 {
        EndReason::UnblockMuxChange
    } else if code == 3 {
        EndReason::DataServiceUnblockMuxChange
    } else if code == 4 {
        EndReason::SignalPositive
    } else if code == 5 {
        EndReason::SignalNegative
    } else if code == 6 {
        EndReason::APIRequest
    } else if code == 7 {
        EndReason::DeviceDataError
    } else if code == 8 {
        EndReason::AnalysisConfigChange
    } else {
        EndReason::Unknown
    }
}

/// The symbolic name of an end reason, as the variant is written.
pub open spec fn end_reason_name(e: EndReason) -> Seq<char> {
    match e {
        EndReason::Unknown => "Unknown"@,
        EndReason::MuxChange => "MuxChange"@,
        EndReason::UnblockMuxChange => "UnblockMuxChange"@,
        EndReason::DataServiceUnblockMuxChange => "DataServiceUnblockMuxChange"@,
        EndReason::SignalPositive => "SignalPositive"@,
        EndReason::SignalNegative => "SignalNegative"@,
        EndReason::APIRequest => "APIRequest"@,
        EndReason::DeviceDataError => "DeviceDataError"@,
        EndReason::AnalysisConfigChange => "AnalysisConfigChange"@,
    }
}

impl EndReason {
    /// Decodes a numeric end-reason code.
    pub fn end_reason_from_code(code: i16) -> (r: EndReason)
        ensures
            r == end_reason_of(code),
    {
        match code {
            1 => EndReason::MuxChange,
            2 => EndReason::UnblockMuxChange,
            3 => EndReason::DataServiceUnblockMuxChange,
            4 => EndReason::SignalPositive,
            5 => EndReason::SignalNegative,
            6 => EndReason::APIRequest,
            7 => EndReason::DeviceDataError,
            8 => EndReason::AnalysisConfigChange,
            _ => EndReason::Unknown,
        }
    }

    /// The symbolic name, used wherever an end reason is shown as text.
    pub fn name(&self) -> (r: String)
        ensures
            r@ == end_reason_name(*self),
    {
        match self {
            EndReason::Unknown => "Unknown".to_string(),
            EndReason::MuxChange => "MuxChange".to_string(),
            EndReason::UnblockMuxChange => "UnblockMuxChange".to_string(),
            EndReason::DataServiceUnblockMuxChange => "DataServiceUnblockMuxChange".to_string(),
            EndReason::SignalPositive => "SignalPositive".to_string(),
            EndReason::SignalNegative => "SignalNegative".to_string(),
            EndReason::APIRequest => "APIRequest".to_string(),
            EndReason::DeviceDataError => "DeviceDataError".to_string(),
            EndReason::AnalysisConfigChange => "AnalysisConfigChange".to_string(),
        }
    }
}

} // verus!
