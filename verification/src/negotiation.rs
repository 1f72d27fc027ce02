//! The endpoint's answers to the controller's stream proposals: a
//! `FormatPropose` is accepted when the endpoint can render it as is,
//! countered with the highest rate of the same family within the endpoint's
//! limit when only the rate is too high, and rejected otherwise; a
//! `NextTrackPrepare` is `ready` when the next track keeps the current
//! format and `reformat` when it changes it.

use crate::format::{spec_family_of, spec_family_rates, AudioFormat, ChannelLayout, SampleRateFamily};
use crate::message::{
    EndpointCapabilities, FormatAccept, FormatCounter, FormatPropose, FormatReject, Message,
    NextTrackPrepare, NextTrackReady, NextTrackReformat,
};
use crate::protocol::EndpointEvent;
use vstd::prelude::*;

verus! {

/// What of the endpoint's capabilities a proposal is judged against.
pub struct FormatLimits {
    pub pcm_max_rate: u32,
    pub pcm_max_bits: u8,
    /// Highest DSD multiplier, when DSD is supported at all.
    pub dsd_max_rate: Option<u16>,
    pub channels_max: u8,
    pub formats: Vec<AudioFormat>,
}

/// The shape of a stream: what must stay equal for playback to continue
/// without a format boundary.
#[derive(Debug, Clone, Copy, PartialEq, Eq, Structural)]
pub struct StreamShape {
    pub format: AudioFormat,
    pub sample_rate: u32,
    pub channels: u8,
    pub channel_layout: ChannelLayout,
    pub bits_per_sample: u8,
}

/// Why a proposal is rejected.
#[derive(Debug, Clone, Copy, PartialEq, Eq, Structural)]
pub enum RejectReason {
    Format,
    Channels,
    BitDepth,
    SampleRate,
}

/// The endpoint's decision on a proposal.
#[derive(Debug, Clone, Copy, PartialEq, Eq, Structural)]
pub enum Verdict {
    Accept,
    /// Counter with this sample rate, everything else as proposed.
    Counter(u32),
    Reject(RejectReason),
}

pub open spec fn spec_reject_text(r: RejectReason) -> Seq<char> {
    match r {
        RejectReason::Format => "unsupported format"@,
        RejectReason::Channels => "unsupported channel count"@,
        RejectReason::BitDepth => "unsupported bit depth"@,
        RejectReason::SampleRate => "unsupported sample rate"@,
    }
}

pub open spec fn is_dsd_format(f: AudioFormat) -> bool {
    f is DsdU8 || f is DsdU16le || f is DsdU32le
}

/// The DSD multiplier of a proposal: its `dsd_rate`, or else its one-bit
/// rate over 44 100 Hz.
pub open spec fn spec_proposed_dsd_multiplier(fp: FormatPropose) -> int {
    match fp.dsd_rate {
        Some(m) => m as int,
        None => fp.sample_rate as int / 44100,
    }
}

/// The last rate of an ascending list that is at most `max`.
pub open spec fn highest_at_most(rates: Seq<u32>, max: u32) -> Option<u32>
    decreases rates.len(),
{
    if rates.len() == 0 {
        None
    } else if rates.last() <= max {
        Some(rates.last())
    } else {
        highest_at_most(rates.drop_last(), max)
    }
}

/// The highest rate of `rate`'s family that is at most `max`; none for a
/// rate outside both families.
pub open spec fn spec_family_fallback(rate: u32, max: u32) -> Option<u32> {
    match spec_family_of(rate) {
        Some(f) => highest_at_most(spec_family_rates(f), max),
        None => None,
    }
}

/// The decision on a proposal. A format the endpoint does not list, more
/// channels than it has, DSD beyond its multiplier (or with no DSD at all)
/// and a bit depth beyond its limit are rejected; a rate within the limit
/// is accepted; a rate above it is countered with the highest rate of the
/// same family within the limit, and rejected when there is none.
pub open spec fn spec_verdict(limits: FormatLimits, fp: FormatPropose) -> Verdict {
    if !limits.formats@.contains(fp.format) {
        Verdict::Reject(RejectReason::Format)
    } else if fp.channels > limits.channels_max {
        Verdict::Reject(RejectReason::Channels)
    } else if is_dsd_format(fp.format) {
        match limits.dsd_max_rate {
            Some(m) => if spec_proposed_dsd_multiplier(fp) <= m {
                Verdict::Accept
            } else {
                Verdict::Reject(RejectReason::SampleRate)
            },
            None => Verdict::Reject(RejectReason::SampleRate),
        }
    } else if fp.bits_per_sample > limits.pcm_max_bits {
        Verdict::Reject(RejectReason::BitDepth)
    } else if fp.sample_rate <= limits.pcm_max_rate {
        Verdict::Accept
    } else {
        match spec_family_fallback(fp.sample_rate, limits.pcm_max_rate) {
            Some(r) => Verdict::Counter(r),
            None => Verdict::Reject(RejectReason::SampleRate),
        }
    }
}

/// The highest family rate within a limit is a rate of the family, within
/// the limit, and no rate of the family within the limit is higher.
proof fn lemma_family_fallback(rate: u32, max: u32)
    ensures
        spec_family_fallback(rate, max) matches Some(r) ==> {
            &&& spec_family_of(rate) matches Some(f)
            &&& spec_family_rates(f).contains(r)
            &&& r <= max
            &&& forall|x: u32| spec_family_rates(f).contains(x) && x <= max ==> x <= r
        },
        spec_family_fallback(rate, max) is None && spec_family_of(rate) is Some ==> {
            forall|x: u32| #[trigger]
                spec_family_rates(spec_family_of(rate)->0).contains(x) ==> x > max
        },
{
    reveal_with_fuel(highest_at_most, 6);
    match spec_family_of(rate) {
        Some(f) => {
            let s = spec_family_rates(f);
            assert(s.len() == 5);
            assert(s.drop_last().drop_last().drop_last().drop_last().drop_last().len() == 0);
            assert forall|x: u32| s.contains(x) implies exists|i: int|
                0 <= i < 5 && s[i] == x by {}
        },
        None => {},
    }
}

/// What the decision promises, whatever the proposal:
/// - a format the endpoint does not list is rejected as such;
/// - more channels than the endpoint has are always refused, DSD included;
/// - an accepted proposal is within every limit: a listed format, no more
///   channels than the endpoint has, and for DSD a multiplier within the
///   endpoint's DSD limit, otherwise a rate and bit depth within its PCM
///   limits;
/// - a PCM proposal within every limit is accepted;
/// - a counter-offer is for a listed PCM format, at a rate of the proposed
///   rate's family that is within the limit, below the proposed rate, and
///   the highest such rate.
pub proof fn lemma_verdict_respects_limits(limits: FormatLimits, fp: FormatPropose)
    ensures
        !limits.formats@.contains(fp.format) ==> spec_verdict(limits, fp)
            == Verdict::Reject(RejectReason::Format),
        fp.channels > limits.channels_max ==> spec_verdict(limits, fp) is Reject,
        spec_verdict(limits, fp) is Accept ==> {
            &&& limits.formats@.contains(fp.format)
            &&& fp.channels <= limits.channels_max
            &&& is_dsd_format(fp.format) ==> (limits.dsd_max_rate matches Some(m)
                && spec_proposed_dsd_multiplier(fp) <= m)
            &&& !is_dsd_format(fp.format) ==> fp.sample_rate <= limits.pcm_max_rate
                && fp.bits_per_sample <= limits.pcm_max_bits
        },
        (limits.formats@.contains(fp.format) && !is_dsd_format(fp.format) && fp.channels
            <= limits.channels_max && fp.sample_rate <= limits.pcm_max_rate && fp.bits_per_sample
            <= limits.pcm_max_bits) ==> spec_verdict(limits, fp) is Accept,
        spec_verdict(limits, fp) matches Verdict::Counter(r) ==> {
            &&& limits.formats@.contains(fp.format)
            &&& !is_dsd_format(fp.format)
            &&& fp.channels <= limits.channels_max
            &&& fp.bits_per_sample <= limits.pcm_max_bits
            &&& r <= limits.pcm_max_rate < fp.sample_rate
            &&& spec_family_of(fp.sample_rate) matches Some(f)
            &&& spec_family_rates(f).contains(r)
            &&& forall|x: u32|
                spec_family_rates(f).contains(x) && x <= limits.pcm_max_rate ==> x <= r
        },
{
    lemma_family_fallback(fp.sample_rate, limits.pcm_max_rate);
}

pub open spec fn shape_of_proposal(fp: FormatPropose) -> StreamShape {
    StreamShape {
        format: fp.format,
        sample_rate: fp.sample_rate,
        channels: fp.channels,
        channel_layout: fp.channel_layout,
        bits_per_sample: fp.bits_per_sample,
    }
}

pub open spec fn shape_of_next(n: NextTrackPrepare) -> StreamShape {
    StreamShape {
        format: n.format,
        sample_rate: n.sample_rate,
        channels: n.channels,
        channel_layout: n.channel_layout,
        bits_per_sample: n.bits_per_sample,
    }
}

/// The reply and the events that answer a proposal: on accept,
/// `FormatAccept` with `FormatAccepted` then `FormatProposed`; on counter,
/// `FormatCounter` at the fallback rate with `FormatProposed` alone; on
/// reject, `FormatReject` with `FormatRejected` then `FormatProposed`.
pub open spec fn answers_proposal(
    limits: FormatLimits,
    fp: FormatPropose,
    events: Seq<EndpointEvent>,
    reply: Option<Message>,
) -> bool {
    match spec_verdict(limits, fp) {
        Verdict::Accept => {
            &&& reply matches Some(Message::FormatAccept(a))
            &&& a.stream_id == fp.stream_id
            &&& events.len() == 2
            &&& events[0] matches EndpointEvent::FormatAccepted { stream_id }
            &&& stream_id == fp.stream_id
            &&& events[1] == EndpointEvent::FormatProposed(fp)
        },
        Verdict::Counter(rate) => {
            &&& reply matches Some(Message::FormatCounter(c))
            &&& c.stream_id == fp.stream_id
            &&& c.format == fp.format
            &&& c.sample_rate == rate
            &&& c.channels == fp.channels
            &&& c.channel_layout == fp.channel_layout
            &&& c.bits_per_sample == fp.bits_per_sample
            &&& c.dsd_rate == fp.dsd_rate
            &&& events == seq![EndpointEvent::FormatProposed(fp)]
        },
        Verdict::Reject(why) => {
            &&& reply matches Some(Message::FormatReject(j))
            &&& j.stream_id == fp.stream_id
            &&& j.reason@ == spec_reject_text(why)
            &&& events.len() == 2
            &&& events[0] matches EndpointEvent::FormatRejected { stream_id, reason }
            &&& stream_id == fp.stream_id
            &&& reason@ == spec_reject_text(why)
            &&& events[1] == EndpointEvent::FormatProposed(fp)
        },
    }
}

/// The reply and the event that answer a next-track preparation: `ready`
/// when its shape is the current one, `reformat` (with its format and
/// rate) otherwise, also when no format is current yet.
pub open spec fn answers_next_track(
    current: Option<StreamShape>,
    n: NextTrackPrepare,
    events: Seq<EndpointEvent>,
    reply: Option<Message>,
) -> bool {
    if current == Some(shape_of_next(n)) {
        &&& reply matches Some(Message::NextTrackReady(x))
        &&& x.stream_id == n.stream_id
        &&& events.len() == 1
        &&& events[0] matches EndpointEvent::NextTrackReady { stream_id }
        &&& stream_id == n.stream_id
    } else {
        &&& reply matches Some(Message::NextTrackReformat(x))
        &&& x.stream_id == n.stream_id
        &&& x.format == n.format
        &&& x.sample_rate == n.sample_rate
        &&& events.len() == 1
        &&& events[0] matches EndpointEvent::NextTrackReformat { stream_id, format, sample_rate }
        &&& stream_id == n.stream_id
        &&& format == n.format
        &&& sample_rate == n.sample_rate
    }
}

fn copy_formats(v: &Vec<AudioFormat>) -> (r: Vec<AudioFormat>)
    ensures
        r@ == v@,
{
    let mut r: Vec<AudioFormat> = Vec::new();
    let mut i: usize = 0;
    while i < v.len()
        invariant
            i <= v.len(),
            r@ == v@.subrange(0, i as int),
        decreases v.len() - i,
    {
        r.push(v[i]);
        i = i + 1;
    }
    assert(r@ =~= v@);
    r
}

impl FormatLimits {
    /// The limits the capabilities announce.
    pub fn of(caps: &EndpointCapabilities) -> (l: Self)
        ensures
            l.pcm_max_rate == caps.pcm_max_rate,
            l.pcm_max_bits == caps.pcm_max_bits,
            l.dsd_max_rate == caps.dsd_max_rate,
            l.channels_max == caps.channels_max,
            l.formats@ == caps.formats@,
    {
        FormatLimits {
            pcm_max_rate: caps.pcm_max_rate,
            pcm_max_bits: caps.pcm_max_bits,
            dsd_max_rate: caps.dsd_max_rate,
            channels_max: caps.channels_max,
            formats: copy_formats(&caps.formats),
        }
    }
}

fn lists_format(v: &Vec<AudioFormat>, f: AudioFormat) -> (b: bool)
    ensures
        b == v@.contains(f),
{
    let mut i: usize = 0;
    while i < v.len()
        invariant
            i <= v.len(),
            forall|j: int| 0 <= j < i ==> v@[j] != f,
        decreases v.len() - i,
    {
        if v[i] == f {
            assert(v@[i as int] == f);
            return true;
        }
        i = i + 1;
    }
    false
}

fn highest_rate_at_most(rates: &Vec<u32>, max: u32) -> (r: Option<u32>)
    ensures
        r == highest_at_most(rates@, max),
{
    let mut n: usize = rates.len();
    assert(rates@.subrange(0, n as int) =~= rates@);
    while n > 0
        invariant
            n <= rates@.len(),
            highest_at_most(rates@, max) == highest_at_most(rates@.subrange(0, n as int), max),
        decreases n,
    {
        let ghost s = rates@.subrange(0, n as int);
        assert(s.drop_last() =~= rates@.subrange(0, n - 1));
        if rates[n - 1] <= max {
            return Some(rates[n - 1]);
        }
        n = n - 1;
    }
    assert(rates@.subrange(0, 0).len() == 0);
    None
}

/// The decision on a proposal, as `spec_verdict` states it.
pub fn verdict(limits: &FormatLimits, fp: &FormatPropose) -> (v: Verdict)
    ensures
        v == spec_verdict(*limits, *fp),
{
    if !lists_format(&limits.formats, fp.format) {
        Verdict::Reject(RejectReason::Format)
    } else if fp.channels > limits.channels_max {
        Verdict::Reject(RejectReason::Channels)
    } else if fp.format.is_dsd() {
        let multiplier: u32 = match fp.dsd_rate {
            Some(m) => m as u32,
            None => fp.sample_rate / 44100,
        };
        match limits.dsd_max_rate {
            Some(m) => if multiplier <= m as u32 {
                Verdict::Accept
            } else {
                Verdict::Reject(RejectReason::SampleRate)
            },
            None => Verdict::Reject(RejectReason::SampleRate),
        }
    } else if fp.bits_per_sample > limits.pcm_max_bits {
        Verdict::Reject(RejectReason::BitDepth)
    } else if fp.sample_rate <= limits.pcm_max_rate {
        Verdict::Accept
    } else {
        let fallback = match SampleRateFamily::of(fp.sample_rate) {
            Some(f) => highest_rate_at_most(&f.rates(), limits.pcm_max_rate),
            None => None,
        };
        match fallback {
            Some(r) => Verdict::Counter(r),
            None => Verdict::Reject(RejectReason::SampleRate),
        }
    }
}

fn reject_text(r: RejectReason) -> (s: String)
    ensures
        s@ == spec_reject_text(r),
{
    match r {
        RejectReason::Format => "unsupported format".to_owned(),
        RejectReason::Channels => "unsupported channel count".to_owned(),
        RejectReason::BitDepth => "unsupported bit depth".to_owned(),
        RejectReason::SampleRate => "unsupported sample rate".to_owned(),
    }
}

/// The answer to a proposal: the reply for the controller and the events
/// for the application, as `answers_proposal` states, with the verdict.
pub fn answer_proposal(limits: &FormatLimits, fp: FormatPropose) -> (r: (
    Verdict,
    Vec<EndpointEvent>,
    Message,
))
    ensures
        r.0 == spec_verdict(*limits, fp),
        answers_proposal(*limits, fp, r.1@, Some(r.2)),
{
    let v = verdict(limits, &fp);
    let mut events: Vec<EndpointEvent> = Vec::new();
    let reply = match v {
        Verdict::Accept => {
            events.push(EndpointEvent::FormatAccepted { stream_id: fp.stream_id.clone() });
            Message::FormatAccept(FormatAccept { stream_id: fp.stream_id.clone() })
        },
        Verdict::Counter(rate) => Message::FormatCounter(
            FormatCounter {
                stream_id: fp.stream_id.clone(),
                format: fp.format,
                sample_rate: rate,
                channels: fp.channels,
                channel_layout: fp.channel_layout,
                bits_per_sample: fp.bits_per_sample,
                dsd_rate: fp.dsd_rate,
            },
        ),
        Verdict::Reject(why) => {
            events.push(
                EndpointEvent::FormatRejected {
                    stream_id: fp.stream_id.clone(),
                    reason: reject_text(why),
                },
            );
            Message::FormatReject(
                FormatReject { stream_id: fp.stream_id.clone(), reason: reject_text(why) },
            )
        },
    };
    events.push(EndpointEvent::FormatProposed(fp));
    (v, events, reply)
}

/// The answer to a next-track preparation, as `answers_next_track` states.
pub fn answer_next_track(current: Option<StreamShape>, n: NextTrackPrepare) -> (r: (
    Vec<EndpointEvent>,
    Message,
))
    ensures
        answers_next_track(current, n, r.0@, Some(r.1)),
{
    let next = StreamShape {
        format: n.format,
        sample_rate: n.sample_rate,
        channels: n.channels,
        channel_layout: n.channel_layout,
        bits_per_sample: n.bits_per_sample,
    };
    let same = match current {
        Some(c) => c == next,
        None => false,
    };
    let mut events: Vec<EndpointEvent> = Vec::new();
    if same {
        events.push(EndpointEvent::NextTrackReady { stream_id: n.stream_id.clone() });
        (events, Message::NextTrackReady(NextTrackReady { stream_id: n.stream_id }))
    } else {
        events.push(
            EndpointEvent::NextTrackReformat {
                stream_id: n.stream_id.clone(),
                format: n.format,
                sample_rate: n.sample_rate,
            },
        );
        (
            events,
            Message::NextTrackReformat(
                NextTrackReformat {
                    stream_id: n.stream_id,
                    format: n.format,
                    sample_rate: n.sample_rate,
                },
            ),
        )
    }
}

} // verus!
