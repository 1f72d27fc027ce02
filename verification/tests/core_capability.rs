use oaat::capability::Capabilities;

#[test]
fn parse_pcm_only() {
    let caps = Capabilities::parse("pcm:192/24").unwrap();
    assert_eq!(caps.pcm_max_rate_khz, 192);
    assert_eq!(caps.pcm_max_bits, 24);
    assert_eq!(caps.dsd_max_multiplier, None);
    assert!(!caps.flac);
}

#[test]
fn parse_full() {
    let caps = Capabilities::parse("pcm:768/32,dsd:256,flac,opus").unwrap();
    assert_eq!(caps.pcm_max_rate_khz, 768);
    assert_eq!(caps.pcm_max_bits, 32);
    assert_eq!(caps.dsd_max_multiplier, Some(256));
    assert!(caps.flac);
    assert!(caps.opus);
}

#[test]
fn roundtrip() {
    let text = "pcm:768/32,dsd:256,flac";
    let caps = Capabilities::parse(text).unwrap();
    assert_eq!(caps.to_string(), text);
}

#[test]
fn invalid() {
    assert!(Capabilities::parse("dsd:256").is_err());
    assert!(Capabilities::parse("garbage").is_err());
}

#[test]
fn parse_tolerates_spaces_plus_signs_and_unknown_parts() {
    let caps = Capabilities::parse(" pcm:+96/24 , future , truehd,eac3 ").unwrap();
    assert_eq!(caps.pcm_max_rate_khz, 96);
    assert_eq!(caps.pcm_max_bits, 24);
    assert!(caps.truehd);
    assert!(caps.eac3);
    assert!(!caps.flac);
}

#[test]
fn parse_errors_carry_the_input() {
    for bad in ["pcm:192", "pcm:x/24", "pcm:192/256", "pcm:192/24,dsd:70000", "pcm:0/16", ""] {
        match Capabilities::parse(bad) {
            Err(oaat::error::OaatError::InvalidCapabilityString(s)) => assert_eq!(s, bad),
            other => panic!("{bad:?} gave {other:?}"),
        }
    }
}

#[test]
fn canonical_string_reads_back() {
    let caps = Capabilities {
        pcm_max_rate_khz: 384,
        pcm_max_bits: 32,
        dsd_max_multiplier: Some(512),
        flac: true,
        opus: true,
        truehd: true,
        eac3: true,
    };
    let s = caps.to_string();
    assert_eq!(s, "pcm:384/32,dsd:512,flac,opus,truehd,eac3");
    assert_eq!(Capabilities::parse(&s).unwrap(), caps);
    assert_eq!(caps.pcm_max_rate_hz(), 384_000);
}
