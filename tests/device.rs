use audio_flow::{find_device_by_id, generate_device_id, is_vb_cable, text_contains, AudioError, DeviceInfo};

#[test]
fn device_ids_name_the_side() {
    assert_eq!(generate_device_id("Microphone", true), "Microphone_input");
    assert_eq!(generate_device_id("Speakers", false), "Speakers_output");
    assert_eq!(generate_device_id("", true), "_input");
}

#[test]
fn vb_cable_is_recognised_by_name() {
    assert!(is_vb_cable("CABLE Input (VB-Audio Virtual Cable)"));
    assert!(is_vb_cable("VB Audio Cable A"));
    assert!(!is_vb_cable("Speakers (Realtek)"));
    assert!(!is_vb_cable("cable output"));
}

#[test]
fn text_search_edges() {
    assert!(text_contains("abc", ""));
    assert!(text_contains("abc", "abc"));
    assert!(text_contains("xxabcx", "bc"));
    assert!(!text_contains("ab", "abc"));
    assert!(!text_contains("", "a"));
    assert!(text_contains("声卡 Cable", "Cable"));
}

#[test]
fn device_info_describes_one_side() {
    let info = DeviceInfo::new("Line In (VB-Audio Cable)".to_string(), true, 48000, 2);
    assert_eq!(info.id, "Line In (VB-Audio Cable)_input");
    assert_eq!(info.name, "Line In (VB-Audio Cable)");
    assert!(info.is_input);
    assert!(!info.is_output);
    assert_eq!(info.sample_rate, 48000);
    assert_eq!(info.channels, 2);
    assert!(info.is_vb_cable);

    let out = DeviceInfo::new("Headphones".to_string(), false, 44100, 1);
    assert_eq!(out.id, "Headphones_output");
    assert!(!out.is_input);
    assert!(out.is_output);
    assert!(!out.is_vb_cable);
}

#[test]
fn find_device_picks_the_first_match() {
    let names = vec!["Mic".to_string(), "Speakers".to_string(), "Speakers".to_string()];
    assert_eq!(find_device_by_id(&names, false, "Speakers_output"), Ok(1));
    assert_eq!(find_device_by_id(&names, true, "Mic_input"), Ok(0));
}

#[test]
fn find_device_reports_a_missing_id() {
    let names = vec!["Mic".to_string()];
    assert_eq!(
        find_device_by_id(&names, false, "Mic_input"),
        Err(AudioError::DeviceNotFound("Mic_input".to_string()))
    );
    assert_eq!(
        find_device_by_id(&[].to_vec(), true, "x"),
        Err(AudioError::DeviceNotFound("x".to_string()))
    );
}

#[test]
fn error_messages_are_readable() {
    assert_eq!(AudioError::DeviceNotFound("Mic_input".to_string()).message(), "Device not found: Mic_input");
    assert_eq!(AudioError::StreamBuild("bad rate".to_string()).message(), "Failed to build stream: bad rate");
    assert_eq!(AudioError::StreamPlay("busy".to_string()).message(), "Failed to start stream: busy");
    assert_eq!(AudioError::Cpal("gone".to_string()).message(), "CPAL error: gone");
    assert_eq!(AudioError::NoDevice.message(), "No device found");
    assert_eq!(AudioError::NoVBCableDevice.message(), "No VB-Cable device found");
    assert_eq!(AudioError::Io("denied".to_string()).message(), "IO error: denied");
    assert_eq!(AudioError::Config("bad toml".to_string()).message(), "Configuration error: bad toml");
}
