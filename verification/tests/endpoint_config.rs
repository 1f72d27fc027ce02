use oaat::config::{
    announced_capabilities, apply_overrides, endpoint_announcement, endpoint_capabilities,
    endpoint_id_path, endpoint_slug, stored_endpoint_id, CapabilitiesSection, DacSection,
    EndpointFileConfig, EndpointSection,
};
use oaat::format::AudioFormat;

#[test]
fn defaults_are_sane() {
    let cfg = EndpointFileConfig::default();
    assert_eq!(cfg.endpoint.name, "OAAT Endpoint");
    assert_eq!(cfg.endpoint.port, 9740);
    assert_eq!(cfg.capabilities.pcm_max_rate, 192000);
    assert_eq!(cfg.capabilities.pcm_max_bits, 24);
    assert_eq!(cfg.capabilities.channels_max, 2);
    assert_eq!(cfg.logging.level, "info");
}

#[test]
fn remaining_defaults() {
    let cfg = EndpointFileConfig::default();
    assert_eq!(cfg.endpoint.audio_device, None);
    assert!(!cfg.endpoint.tls);
    assert!(!cfg.capabilities.dsd);
    assert!(cfg.capabilities.flac);
    assert!(!cfg.dac.hardware_volume);
    assert_eq!(cfg.dac.card, 0);
    assert_eq!(cfg.dac.fir_filter, None);
}

#[test]
fn command_line_overrides_file_values() {
    let file = EndpointSection {
        name: "Kitchen".into(),
        port: 9750,
        audio_device: Some("hw:1,0".into()),
        tls: false,
    };
    let s = apply_overrides(file, Some("Den".into()), None, None, true);
    assert_eq!(s.name, "Den");
    assert_eq!(s.port, 9750);
    assert_eq!(s.audio_device.as_deref(), Some("hw:1,0"));
    assert!(s.tls);

    let file = EndpointSection { name: "Kitchen".into(), port: 9750, audio_device: None, tls: true };
    let s = apply_overrides(file, None, Some(9800), Some("default".into()), false);
    assert_eq!(s.name, "Kitchen");
    assert_eq!(s.port, 9800);
    assert_eq!(s.audio_device.as_deref(), Some("default"));
    assert!(s.tls);
}

#[test]
fn negotiated_capabilities_follow_the_config() {
    let caps = CapabilitiesSection::default();
    let c = endpoint_capabilities(&caps);
    assert_eq!(c.pcm_max_rate, 192000);
    assert_eq!(c.dsd_max_rate, None);
    assert_eq!(
        c.formats,
        vec![AudioFormat::PcmS16le, AudioFormat::PcmS24le, AudioFormat::PcmS32le, AudioFormat::Flac]
    );
    assert!(c.gapless && c.seek && c.volume.is_none());

    let caps = CapabilitiesSection { pcm_max_rate: 384000, pcm_max_bits: 32, channels_max: 8, dsd: true, flac: false };
    let c = endpoint_capabilities(&caps);
    assert_eq!(c.dsd_max_rate, Some(64));
    assert_eq!(c.channels_max, 8);
    assert_eq!(
        c.formats,
        vec![
            AudioFormat::PcmS16le,
            AudioFormat::PcmS24le,
            AudioFormat::PcmS32le,
            AudioFormat::DsdU8,
            AudioFormat::DsdU16le,
            AudioFormat::DsdU32le
        ]
    );
}

#[test]
fn announced_capabilities_round_the_rate_down() {
    let caps = CapabilitiesSection { pcm_max_rate: 44100, pcm_max_bits: 16, channels_max: 2, dsd: true, flac: true };
    let c = announced_capabilities(&caps);
    assert_eq!(c.pcm_max_rate_khz, 44);
    assert_eq!(c.pcm_max_bits, 16);
    assert_eq!(c.dsd_max_multiplier, Some(64));
    assert!(c.flac && !c.opus && !c.truehd && !c.eac3);
}

#[test]
fn announcement_reports_volume_type_and_vendor() {
    let caps = CapabilitiesSection::default();
    let hw = DacSection { hardware_volume: true, card: 1, fir_filter: None };
    let a = endpoint_announcement("Den".into(), 9740, "id-1".into(), &caps, &hw, "0.3.0".into());
    assert_eq!(a.volume_type.as_deref(), Some("hw"));
    assert_eq!(a.vendor.as_deref(), Some("MozAIk Labs"));
    assert_eq!(a.firmware.as_deref(), Some("0.3.0"));
    assert_eq!(a.model, None);
    assert_eq!(a.capabilities.pcm_max_rate_khz, 192);
    let sw = DacSection::default();
    let a = endpoint_announcement("Den".into(), 9740, "id-1".into(), &caps, &sw, "0.3.0".into());
    assert_eq!(a.volume_type.as_deref(), Some("sw"));
}

#[test]
fn slug_lowercases_and_replaces_punctuation() {
    assert_eq!(endpoint_slug("Living Room DAC"), "living_room_dac");
    assert_eq!(endpoint_slug("Küche-2"), "küche_2");
    assert_eq!(endpoint_id_path("My DAC"), "/var/tmp/oaat-my_dac.id");
}

#[test]
fn stored_id_is_trimmed_and_must_not_be_empty() {
    assert_eq!(stored_endpoint_id("  abc-123\n").as_deref(), Some("abc-123"));
    assert_eq!(stored_endpoint_id(" \n\t "), None);
    assert_eq!(stored_endpoint_id(""), None);
}
