//! What the recorder needs to know of an input device: the encoding of its
//! samples, and why it could not be opened.

use crate::error::PipelineError;
use vstd::prelude::*;

verus! {

/// The encodings in which a device may deliver its samples.
#[derive(Clone, Copy, Debug, PartialEq, Eq, Structural)]
pub enum DeviceFormat {
    I8,
    I16,
    I32,
    I64,
    U8,
    U16,
    U32,
    U64,
    F32,
    F64,
}

/// The encodings that the recorder takes blocks in.
#[derive(Clone, Copy, Debug, PartialEq, Eq, Structural)]
pub enum CaptureFormat {
    Float,
    Signed,
    Unsigned,
}

/// Why a device could not be opened.
#[derive(Clone, Copy, Debug, PartialEq, Eq, Structural)]
pub enum DeviceFault {
    /// The system has no default input device.
    NoInputDevice,
    /// The device went away while it was being opened.
    DeviceLost,
    /// The system refused the configuration, or the stream did not start.
    Refused,
}

/// The encoding in which the recorder takes the blocks of a device, where it
/// handles the device's encoding: binary32 and the two 16-bit ones.
pub open spec fn capture_format_of(native: DeviceFormat) -> Option<CaptureFormat> {
    match native {
        DeviceFormat::F32 => Some(CaptureFormat::Float),
        DeviceFormat::I16 => Some(CaptureFormat::Signed),
        DeviceFormat::U16 => Some(CaptureFormat::Unsigned),
        _ => None,
    }
}

/// Chooses the encoding of the stream's blocks from the device's own, or
/// refuses the device.
pub fn capture_format(native: DeviceFormat) -> (r: Result<CaptureFormat, PipelineError>)
    ensures
        match capture_format_of(native) {
            Some(format) => r == Ok::<CaptureFormat, PipelineError>(format),
            None => r == Err::<CaptureFormat, PipelineError>(
                PipelineError::UnsupportedSampleFormat,
            ),
        },
{
    match native {
        DeviceFormat::F32 => Ok(CaptureFormat::Float),
        DeviceFormat::I16 => Ok(CaptureFormat::Signed),
        DeviceFormat::U16 => Ok(CaptureFormat::Unsigned),
        _ => Err(PipelineError::UnsupportedSampleFormat),
    }
}

/// The error that a start reports for a fault: a device that is absent or
/// gone is unavailable, anything else is a stream that could not be built.
pub open spec fn fault_error(fault: DeviceFault) -> PipelineError {
    match fault {
        DeviceFault::NoInputDevice => PipelineError::DeviceUnavailable,
        DeviceFault::DeviceLost => PipelineError::DeviceUnavailable,
        DeviceFault::Refused => PipelineError::StreamConstructionFailed,
    }
}

/// The error that a start reports for a fault.
pub fn device_error(fault: DeviceFault) -> (e: PipelineError)
    ensures
        e == fault_error(fault),
{
    match fault {
        DeviceFault::NoInputDevice => PipelineError::DeviceUnavailable,
        DeviceFault::DeviceLost => PipelineError::DeviceUnavailable,
        DeviceFault::Refused => PipelineError::StreamConstructionFailed,
    }
}

} // verus!
