//! The rules of the endpoint conformance test: what a handshake answer must
//! hold, which formats the negotiation probes use, and the tally of
//! verdicts. Talking to the endpoint is done by the caller.

use crate::format::AudioFormat;
use crate::message::HelloAck;
use crate::text::str_chars;
use crate::PROTOCOL_VERSION;
use vstd::prelude::*;

verus! {

/// Passed, failed and skipped checks so far.
#[derive(Debug, Clone, Copy, PartialEq, Eq, Structural)]
pub struct ConformanceTally {
    pub passed: u32,
    pub failed: u32,
    pub skipped: u32,
}

impl ConformanceTally {
    pub fn new() -> (t: Self)
        ensures
            t.passed == 0 && t.failed == 0 && t.skipped == 0,
    {
        ConformanceTally { passed: 0, failed: 0, skipped: 0 }
    }

    pub fn pass(&mut self)
        requires
            old(self).passed < u32::MAX,
        ensures
            *final(self) == (ConformanceTally { passed: (old(self).passed + 1) as u32, ..*old(self) }),
    {
        self.passed = self.passed + 1;
    }

    pub fn fail(&mut self)
        requires
            old(self).failed < u32::MAX,
        ensures
            *final(self) == (ConformanceTally { failed: (old(self).failed + 1) as u32, ..*old(self) }),
    {
        self.failed = self.failed + 1;
    }

    pub fn skip(&mut self)
        requires
            old(self).skipped < u32::MAX,
        ensures
            *final(self) == (ConformanceTally { skipped: (old(self).skipped + 1) as u32, ..*old(self) }),
    {
        self.skipped = self.skipped + 1;
    }

    /// All checks run.
    pub fn total(&self) -> (n: u32)
        requires
            self.passed + self.failed + self.skipped <= u32::MAX,
        ensures
            n == self.passed + self.failed + self.skipped,
    {
        self.passed + self.failed + self.skipped
    }

    /// An endpoint conforms when no check failed (skips do not count).
    pub fn is_conformant(&self) -> (b: bool)
        ensures
            b == (self.failed == 0),
    {
        self.failed == 0
    }
}

/// The verdicts on a handshake answer, in the order the test reports them:
/// protocol version, endpoint id present, endpoint name present, PCM rate
/// at least 44.1 kHz, at least 16 bits, at least stereo, 16-bit PCM offered.
pub open spec fn spec_handshake_verdicts(ack: HelloAck) -> Seq<bool> {
    seq![
        ack.protocol_version == PROTOCOL_VERSION,
        ack.endpoint_id@.len() > 0,
        ack.endpoint_name@.len() > 0,
        ack.capabilities.pcm_max_rate >= 44100,
        ack.capabilities.pcm_max_bits >= 16,
        ack.capabilities.channels_max >= 2,
        ack.capabilities.formats@.contains(AudioFormat::PcmS16le),
    ]
}

fn offers(formats: &Vec<AudioFormat>, f: AudioFormat) -> (b: bool)
    ensures
        b == formats@.contains(f),
{
    let mut i: usize = 0;
    while i < formats.len()
        invariant
            i <= formats@.len(),
            forall|j: int| 0 <= j < i ==> formats@[j] != f,
        decreases formats@.len() - i,
    {
        if formats[i] == f {
            return true;
        }
        i += 1;
    }
    false
}

pub fn handshake_verdicts(ack: &HelloAck) -> (v: Vec<bool>)
    ensures
        v@ == spec_handshake_verdicts(*ack),
{
    let mut v: Vec<bool> = Vec::new();
    v.push(ack.protocol_version == PROTOCOL_VERSION);
    v.push(str_chars(ack.endpoint_id.as_str()).len() > 0);
    v.push(str_chars(ack.endpoint_name.as_str()).len() > 0);
    v.push(ack.capabilities.pcm_max_rate >= 44100);
    v.push(ack.capabilities.pcm_max_bits >= 16);
    v.push(ack.capabilities.channels_max >= 2);
    v.push(offers(&ack.capabilities.formats, AudioFormat::PcmS16le));
    assert(v@ =~= spec_handshake_verdicts(*ack));
    v
}

/// The rate proposed to provoke a counter-proposal: twice the endpoint's
/// maximum, and at least 768 kHz.
pub fn counter_probe_rate(max_rate: u32) -> (r: u32)
    requires
        max_rate * 2 <= u32::MAX,
    ensures
        r == (if max_rate * 2 > 768000 {
            max_rate * 2
        } else {
            768000
        }),
{
    let twice = max_rate * 2;
    if twice > 768000 {
        twice
    } else {
        768000
    }
}

/// The format proposed to provoke a rejection: Opus, or 32-bit DSD when the
/// endpoint offers Opus.
pub fn reject_probe_format(formats: &Vec<AudioFormat>) -> (f: AudioFormat)
    ensures
        f == (if formats@.contains(AudioFormat::Opus) {
            AudioFormat::DsdU32le
        } else {
            AudioFormat::Opus
        }),
{
    if offers(formats, AudioFormat::Opus) {
        AudioFormat::DsdU32le
    } else {
        AudioFormat::Opus
    }
}

} // verus!
