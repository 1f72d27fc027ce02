//! The endpoint daemon's settings: the sections of its TOML file with their
//! defaults, how command-line values override them, and what the endpoint
//! announces and negotiates with as a result. Reading the file is done by
//! the caller.

use crate::capability::Capabilities;
use crate::format::AudioFormat;
use crate::message::EndpointCapabilities;
use crate::protocol::EndpointAnnouncement;
use crate::text::{push_char, push_chars, str_chars, trim, trim_range, string_from_range};
use vstd::prelude::*;

verus! {

/// The whole configuration file.
#[derive(Debug, Clone)]
pub struct EndpointFileConfig {
    pub endpoint: EndpointSection,
    pub capabilities: CapabilitiesSection,
    pub dac: DacSection,
    pub logging: LoggingSection,
}

/// `[endpoint]`: identity, control port, output device, TLS.
#[derive(Debug, Clone)]
pub struct EndpointSection {
    pub name: String,
    pub port: u16,
    pub audio_device: Option<String>,
    pub tls: bool,
}

/// `[capabilities]`: what the endpoint accepts.
#[derive(Debug, Clone)]
pub struct CapabilitiesSection {
    pub pcm_max_rate: u32,
    pub pcm_max_bits: u8,
    pub channels_max: u8,
    pub dsd: bool,
    pub flac: bool,
}

/// `[logging]`.
#[derive(Debug, Clone)]
pub struct LoggingSection {
    pub level: String,
}

/// `[dac]`: hardware volume through the ALSA mixer of `card`, and the DAC's
/// FIR filter.
#[derive(Debug, Clone)]
pub struct DacSection {
    pub hardware_volume: bool,
    pub card: u32,
    pub fir_filter: Option<String>,
}

pub open spec fn is_default_endpoint_section(s: EndpointSection) -> bool {
    &&& s.name@ == "OAAT Endpoint"@
    &&& s.port == 9740
    &&& s.audio_device is None
    &&& !s.tls
}

pub open spec fn is_default_capabilities_section(s: CapabilitiesSection) -> bool {
    &&& s.pcm_max_rate == 192000
    &&& s.pcm_max_bits == 24
    &&& s.channels_max == 2
    &&& !s.dsd
    &&& s.flac
}

pub open spec fn is_default_dac_section(s: DacSection) -> bool {
    !s.hardware_volume && s.card == 0 && s.fir_filter is None
}

impl Default for EndpointSection {
    fn default() -> (s: Self)
        ensures
            is_default_endpoint_section(s),
    {
        EndpointSection { name: "OAAT Endpoint".to_owned(), port: 9740, audio_device: None, tls: false }
    }
}

impl Default for CapabilitiesSection {
    fn default() -> (s: Self)
        ensures
            is_default_capabilities_section(s),
    {
        CapabilitiesSection {
            pcm_max_rate: 192000,
            pcm_max_bits: 24,
            channels_max: 2,
            dsd: false,
            flac: true,
        }
    }
}

impl Default for LoggingSection {
    fn default() -> (s: Self)
        ensures
            s.level@ == "info"@,
    {
        LoggingSection { level: "info".to_owned() }
    }
}

impl Default for DacSection {
    fn default() -> (s: Self)
        ensures
            is_default_dac_section(s),
    {
        DacSection { hardware_volume: false, card: 0, fir_filter: None }
    }
}

impl Default for EndpointFileConfig {
    fn default() -> (c: Self)
        ensures
            is_default_endpoint_section(c.endpoint),
            is_default_capabilities_section(c.capabilities),
            is_default_dac_section(c.dac),
            c.logging.level@ == "info"@,
    {
        EndpointFileConfig {
            endpoint: EndpointSection::default(),
            capabilities: CapabilitiesSection::default(),
            dac: DacSection::default(),
            logging: LoggingSection::default(),
        }
    }
}

/// Command-line values win over the file's: name, port and device when
/// given, TLS when either asks for it.
pub fn apply_overrides(
    file: EndpointSection,
    name: Option<String>,
    port: Option<u16>,
    audio_device: Option<String>,
    tls: bool,
) -> (s: EndpointSection)
    ensures
        s.name == (match name {
            Some(n) => n,
            None => file.name,
        }),
        s.port == (match port {
            Some(p) => p,
            None => file.port,
        }),
        s.audio_device == (match audio_device {
            Some(d) => Some(d),
            None => file.audio_device,
        }),
        s.tls == (tls || file.tls),
{
    let name = match name {
        Some(n) => n,
        None => file.name,
    };
    let port = match port {
        Some(p) => p,
        None => file.port,
    };
    let audio_device = match audio_device {
        Some(d) => Some(d),
        None => file.audio_device,
    };
    EndpointSection { name, port, audio_device, tls: tls || file.tls }
}

/// The formats an endpoint accepts: 16, 24 and 32 bit PCM, FLAC when
/// enabled, the three DSD layouts when enabled.
pub open spec fn spec_config_formats(caps: CapabilitiesSection) -> Seq<AudioFormat> {
    seq![AudioFormat::PcmS16le, AudioFormat::PcmS24le, AudioFormat::PcmS32le] + (if caps.flac {
        seq![AudioFormat::Flac]
    } else {
        Seq::empty()
    }) + (if caps.dsd {
        seq![AudioFormat::DsdU8, AudioFormat::DsdU16le, AudioFormat::DsdU32le]
    } else {
        Seq::empty()
    })
}

/// What the endpoint offers in its handshake: the configured limits, DSD64
/// when DSD is enabled, gapless and seek, no volume capability.
pub fn endpoint_capabilities(caps: &CapabilitiesSection) -> (c: EndpointCapabilities)
    ensures
        c.pcm_max_rate == caps.pcm_max_rate,
        c.pcm_max_bits == caps.pcm_max_bits,
        c.dsd_max_rate == (if caps.dsd {
            Some(64u16)
        } else {
            None
        }),
        c.channels_max == caps.channels_max,
        c.formats@ == spec_config_formats(*caps),
        c.volume is None,
        c.gapless,
        c.seek,
{
    let mut formats: Vec<AudioFormat> = vec![
        AudioFormat::PcmS16le,
        AudioFormat::PcmS24le,
        AudioFormat::PcmS32le,
    ];
    if caps.flac {
        formats.push(AudioFormat::Flac);
    }
    if caps.dsd {
        formats.push(AudioFormat::DsdU8);
        formats.push(AudioFormat::DsdU16le);
        formats.push(AudioFormat::DsdU32le);
    }
    assert(formats@ =~= spec_config_formats(*caps));
    EndpointCapabilities {
        pcm_max_rate: caps.pcm_max_rate,
        pcm_max_bits: caps.pcm_max_bits,
        dsd_max_rate: if caps.dsd {
            Some(64)
        } else {
            None
        },
        channels_max: caps.channels_max,
        formats,
        volume: None,
        gapless: true,
        seek: true,
    }
}

/// The capability summary announced over DNS-SD: the rate in kHz (rounded
/// down), DSD64 and FLAC as configured, no Opus or bitstream formats.
pub fn announced_capabilities(caps: &CapabilitiesSection) -> (c: Capabilities)
    ensures
        c.pcm_max_rate_khz == caps.pcm_max_rate / 1000,
        c.pcm_max_bits == caps.pcm_max_bits,
        c.dsd_max_multiplier == (if caps.dsd {
            Some(64u16)
        } else {
            None
        }),
        c.flac == caps.flac,
        !c.opus && !c.truehd && !c.eac3,
{
    Capabilities {
        pcm_max_rate_khz: caps.pcm_max_rate / 1000,
        pcm_max_bits: caps.pcm_max_bits,
        dsd_max_multiplier: if caps.dsd {
            Some(64)
        } else {
            None
        },
        flac: caps.flac,
        opus: false,
        truehd: false,
        eac3: false,
    }
}

/// The vendor an endpoint of this project announces.
pub const ENDPOINT_VENDOR: &'static str = "MozAIk Labs";

/// The DNS-SD announcement of an endpoint: volume type `hw` with a hardware
/// mixer, `sw` otherwise; no model; this project's vendor; the given
/// firmware version.
pub fn endpoint_announcement(
    name: String,
    port: u16,
    endpoint_id: String,
    caps: &CapabilitiesSection,
    dac: &DacSection,
    firmware: String,
) -> (a: EndpointAnnouncement)
    ensures
        a.instance_name == name,
        a.port == port,
        a.endpoint_id == endpoint_id,
        a.capabilities == (Capabilities {
            pcm_max_rate_khz: caps.pcm_max_rate / 1000,
            pcm_max_bits: caps.pcm_max_bits,
            dsd_max_multiplier: if caps.dsd {
                Some(64u16)
            } else {
                None
            },
            flac: caps.flac,
            opus: false,
            truehd: false,
            eac3: false,
        }),
        a.channels_max == caps.channels_max,
        a.volume_type matches Some(v) && v@ == (if dac.hardware_volume {
            "hw"@
        } else {
            "sw"@
        }),
        a.model is None,
        a.vendor matches Some(v) && v@ == ENDPOINT_VENDOR@,
        a.firmware == Some(firmware),
{
    let vol = if dac.hardware_volume {
        "hw".to_owned()
    } else {
        "sw".to_owned()
    };
    EndpointAnnouncement {
        instance_name: name,
        port,
        endpoint_id,
        capabilities: announced_capabilities(caps),
        channels_max: caps.channels_max,
        volume_type: Some(vol),
        model: None,
        vendor: Some(ENDPOINT_VENDOR.to_owned()),
        firmware: Some(firmware),
    }
}

// -------------------------------------------------------------- endpoint id

/// Whether `char::is_alphanumeric` holds of a character (Unicode
/// `Alphabetic` or `Numeric`).
pub uninterp spec fn spec_is_alphanumeric(c: char) -> bool;

/// `char::is_alphanumeric`; its result is the named Unicode property of
/// the character and nothing more is claimed.
#[verifier::external_body]
fn is_alphanumeric(c: char) -> (b: bool)
    ensures
        b == spec_is_alphanumeric(c),
{
    c.is_alphanumeric()
}

/// `char::to_ascii_lowercase`: ASCII capitals to small letters, everything
/// else unchanged.
pub open spec fn ascii_lower(c: char) -> char {
    if 'A' <= c <= 'Z' {
        ((c as u32) + 32) as char
    } else {
        c
    }
}

fn ascii_lower_exec(c: char) -> (r: char)
    ensures
        r == ascii_lower(c),
{
    if 'A' <= c && c <= 'Z' {
        let u: u32 = (c as u32) + 32;
        assert(0x61 <= u <= 0x7A);
        proof {
            assert(u < 0xD800);
        }
        char_from_ascii(u)
    } else {
        c
    }
}

/// The character with a code below 0x80.
fn char_from_ascii(u: u32) -> (c: char)
    requires
        u < 0x80,
    ensures
        c == u as char,
{
    let b: u8 = u as u8;
    b as char
}

/// One character of an id slug: alphanumerics lower-cased, anything else
/// an underscore.
pub open spec fn slug_char(c: char) -> char {
    if spec_is_alphanumeric(c) {
        ascii_lower(c)
    } else {
        '_'
    }
}

pub open spec fn spec_slug(name: Seq<char>) -> Seq<char> {
    name.map_values(|c: char| slug_char(c))
}

/// The name an endpoint's persistent id is filed under.
pub fn endpoint_slug(name: &str) -> (s: String)
    ensures
        s@ == spec_slug(name@),
{
    let cs = str_chars(name);
    let mut s = String::new();
    let mut i: usize = 0;
    while i < cs.len()
        invariant
            i <= cs@.len(),
            cs@ == name@,
            s@ =~= spec_slug(name@).take(i as int),
        decreases cs@.len() - i,
    {
        let c = cs[i];
        let out = if is_alphanumeric(c) {
            ascii_lower_exec(c)
        } else {
            '_'
        };
        push_char(&mut s, out);
        i += 1;
    }
    assert(spec_slug(name@).take(i as int) =~= spec_slug(name@));
    s
}

pub open spec fn spec_id_path(slug: Seq<char>) -> Seq<char> {
    "/var/tmp/oaat-"@ + slug + ".id"@
}

/// Where the persistent id of an endpoint with this name is kept.
pub fn endpoint_id_path(name: &str) -> (p: String)
    ensures
        p@ == spec_id_path(spec_slug(name@)),
{
    let slug = endpoint_slug(name);
    let mut p = String::new();
    let prefix = str_chars("/var/tmp/oaat-");
    push_chars(&mut p, prefix.as_slice());
    let sc = str_chars(slug.as_str());
    push_chars(&mut p, sc.as_slice());
    let suffix = str_chars(".id");
    push_chars(&mut p, suffix.as_slice());
    p
}

/// The id kept in an id file, when the file holds one: its contents
/// trimmed, unless nothing is left.
pub fn stored_endpoint_id(contents: &str) -> (id: Option<String>)
    ensures
        trim(contents@).len() == 0 ==> id is None,
        trim(contents@).len() > 0 ==> (id matches Some(s) && s@ == trim(contents@)),
{
    let cs = str_chars(contents);
    let (a, b) = trim_range(&cs, 0, cs.len());
    assert(cs@.subrange(0, cs@.len() as int) =~= contents@);
    if a == b {
        None
    } else {
        Some(string_from_range(&cs, a, b))
    }
}

} // verus!
