use vstd::prelude::*;

verus! {

/// Why an engine operation failed.
#[derive(Debug, Clone, PartialEq, Eq)]
pub enum AudioError {
    /// No device with this identifier is present.
    DeviceNotFound(String),
    /// The platform refused to build a stream with the requested configuration.
    StreamBuild(String),
    /// The platform refused to start a stream.
    StreamPlay(String),
    /// Another failure reported by the platform's audio layer.
    Cpal(String),
    /// No audio device is present at all.
    NoDevice,
    /// No VB-Cable device is present.
    NoVBCableDevice,
    /// Reading or writing a file failed.
    Io(String),
    /// Persisted settings are malformed.
    Config(String),
}

/// The human-readable message for `e`.
pub open spec fn message_of(e: AudioError) -> Seq<char> {
    match e {
        AudioError::DeviceNotFound(id) => "Device not found: "@ + id@,
        AudioError::StreamBuild(d) => "Failed to build stream: "@ + d@,
        AudioError::StreamPlay(d) => "Failed to start stream: "@ + d@,
        AudioError::Cpal(d) => "CPAL error: "@ + d@,
        AudioError::NoDevice => "No device found"@,
        AudioError::NoVBCableDevice => "No VB-Cable device found"@,
        AudioError::Io(d) => "IO error: "@ + d@,
        AudioError::Config(d) => "Configuration error: "@ + d@,
    }
}

fn prefixed(prefix: &str, detail: &String) -> (r: String)
    ensures
        r@ == prefix@ + detail@,
{
    let mut r = prefix.to_owned();
    r.append(detail.as_str());
    r
}

impl AudioError {
    /// The message shown to the user for this error.
    pub fn message(&self) -> (r: String)
        ensures
            r@ == message_of(*self),
    {
        match self {
            AudioError::DeviceNotFound(id) => prefixed("Device not found: ", id),
            AudioError::StreamBuild(d) => prefixed("Failed to build stream: ", d),
            AudioError::StreamPlay(d) => prefixed("Failed to start stream: ", d),
            AudioError::Cpal(d) => prefixed("CPAL error: ", d),
            AudioError::NoDevice => "No device found".to_owned(),
            AudioError::NoVBCableDevice => "No VB-Cable device found".to_owned(),
            AudioError::Io(d) => prefixed("IO error: ", d),
            AudioError::Config(d) => prefixed("Configuration error: ", d),
        }
    }
}

} // verus!
