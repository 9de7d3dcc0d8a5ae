use pitch_tracker::capability::CapabilityError;
use pitch_tracker::capability::DeviceCapabilities;
use pitch_tracker::capability::check_capabilities;

fn device(mono: bool, s16le: bool, rate: bool) -> DeviceCapabilities {
    DeviceCapabilities { supports_mono: mono, supports_s16le: s16le, supports_rate_44100: rate }
}

#[test]
fn capability_all_supported() {
    assert_eq!(check_capabilities(&device(true, true, true)), Ok(()));
}

#[test]
fn capability_missing_mono() {
    let r = check_capabilities(&device(false, true, true));
    assert_eq!(r, Err(CapabilityError::MonoUnsupported));
    assert_eq!(r.unwrap_err().message(), "Device doesn't support mono");
}

#[test]
fn capability_missing_format() {
    let r = check_capabilities(&device(true, false, true));
    assert_eq!(r, Err(CapabilityError::FormatUnsupported));
    assert_eq!(r.unwrap_err().message(), "Device doesn't support S16LE");
}

#[test]
fn capability_missing_rate() {
    let r = check_capabilities(&device(true, true, false));
    assert_eq!(r, Err(CapabilityError::SampleRateUnsupported));
    assert_eq!(r.unwrap_err().message(), "Device doesn't 44.1 kHz");
}

#[test]
fn capability_mono_reported_first() {
    let r = check_capabilities(&device(false, false, false));
    assert_eq!(r, Err(CapabilityError::MonoUnsupported));
}
