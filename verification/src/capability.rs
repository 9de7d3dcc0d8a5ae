//! Startup capability negotiation against the audio backend.
//!
//! The pipeline needs a single-channel stream of signed 16-bit
//! little-endian samples at 44100 Hz. The backend reports whether the
//! input device supports each of these; a device that lacks any of them
//! is rejected before a stream is opened.

use vstd::prelude::*;

verus! {

/// The capability whose absence makes startup fail, checked in the order
/// mono layout, then sample format, then sample rate.
#[derive(Clone, Copy, PartialEq, Eq, Structural, Debug)]
pub enum CapabilityError {
    /// The device does not support a single-channel (mono) layout.
    MonoUnsupported,
    /// The device does not support signed 16-bit little-endian samples.
    FormatUnsupported,
    /// The device does not support a 44100 Hz sample rate.
    SampleRateUnsupported,
}

impl CapabilityError {
    /// The startup error message naming the unmet capability.
    pub fn message(&self) -> (m: &'static str)
        ensures
            *self is MonoUnsupported ==> m@ == "Device doesn't support mono"@,
            *self is FormatUnsupported ==> m@ == "Device doesn't support S16LE"@,
            *self is SampleRateUnsupported ==> m@ == "Device doesn't 44.1 kHz"@,
    {
        match self {
            CapabilityError::MonoUnsupported => "Device doesn't support mono",
            CapabilityError::FormatUnsupported => "Device doesn't support S16LE",
            CapabilityError::SampleRateUnsupported => "Device doesn't 44.1 kHz",
        }
    }
}

/// What the audio backend reports about an input device.
#[derive(Clone, Copy, PartialEq, Eq, Structural, Debug)]
pub struct DeviceCapabilities {
    /// The device supports a single-channel (mono) layout.
    pub supports_mono: bool,
    /// The device supports signed 16-bit little-endian samples.
    pub supports_s16le: bool,
    /// The device supports a 44100 Hz sample rate.
    pub supports_rate_44100: bool,
}

/// The startup decision: the first missing capability, in the order mono
/// layout, sample format, sample rate, or success when all are present.
pub open spec fn capability_check_spec(caps: DeviceCapabilities) -> Result<(), CapabilityError> {
    if !caps.supports_mono {
        Result::Err(CapabilityError::MonoUnsupported)
    } else if !caps.supports_s16le {
        Result::Err(CapabilityError::FormatUnsupported)
    } else if !caps.supports_rate_44100 {
        Result::Err(CapabilityError::SampleRateUnsupported)
    } else {
        Result::Ok(())
    }
}

/// Decide whether a stream may be opened on a device with the reported
/// capabilities: `Ok` exactly when the device supports mono, S16LE and
/// 44100 Hz, and otherwise the error naming the first missing capability.
pub fn check_capabilities(caps: &DeviceCapabilities) -> (r: Result<(), CapabilityError>)
    ensures
        r == capability_check_spec(*caps),
        r is Ok <==> caps.supports_mono && caps.supports_s16le && caps.supports_rate_44100,
{
    if !caps.supports_mono {
        Result::Err(CapabilityError::MonoUnsupported)
    } else if !caps.supports_s16le {
        Result::Err(CapabilityError::FormatUnsupported)
    } else if !caps.supports_rate_44100 {
        Result::Err(CapabilityError::SampleRateUnsupported)
    } else {
        Result::Ok(())
    }
}

} // verus!
