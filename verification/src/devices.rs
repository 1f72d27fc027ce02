//! Choosing an audio output device from the names the host reports.

use crate::text::{
    contains_seq, decimal, decimal_string, find_char, has_prefix, lemma_lines_step, lines_of,
    push_chars, push_decimal, range_equals, str_chars, string_from_range, strip_cr,
};
use vstd::prelude::*;

verus! {

/// What `str::to_lowercase` makes of a string (Unicode lower-case mapping).
pub uninterp spec fn spec_lowercase(s: Seq<char>) -> Seq<char>;

/// `str::to_lowercase`; its result is named, not restated.
#[verifier::external_body]
fn to_lowercase(s: &str) -> (r: String)
    ensures
        r@ == spec_lowercase(s@),
{
    s.to_lowercase()
}

/// Whether `needle` occurs in `hay`.
pub fn contains_chars(hay: &Vec<char>, needle: &Vec<char>) -> (b: bool)
    ensures
        b == contains_seq(hay@, needle@),
{
    if needle.len() > hay.len() {
        proof {
            if contains_seq(hay@, needle@) {
                let i = choose|i: int|
                    0 <= i && i + needle@.len() <= hay@.len() && #[trigger] hay@.subrange(
                        i,
                        i + needle@.len(),
                    ) == needle@;
            }
        }
        return false;
    }
    if needle.len() == 0 {
        assert(hay@.subrange(0, 0 + needle@.len() as int) =~= needle@);
        return true;
    }
    let hl = hay.len();
    let nl = needle.len();
    let mut i: usize = 0;
    while i <= hl - nl
        invariant
            hl == hay@.len(),
            nl == needle@.len(),
            1 <= nl <= hl,
            i <= hl - nl + 1,
            forall|j: int|
                0 <= j < i ==> #[trigger] hay@.subrange(j, j + needle@.len()) != needle@,
        decreases hl - i,
    {
        if range_equals(hay, i, i + nl, needle.as_slice()) {
            assert(hay@.subrange(i as int, i + needle@.len()) == needle@);
            return true;
        }
        i += 1;
    }
    proof {
        if contains_seq(hay@, needle@) {
            let k = choose|k: int|
                0 <= k && k + needle@.len() <= hay@.len() && #[trigger] hay@.subrange(
                    k,
                    k + needle@.len(),
                ) == needle@;
            assert(k < i);
        }
    }
    false
}

fn lower_contains(lower: &Vec<char>, kw: &str) -> (b: bool)
    ensures
        b == contains_seq(lower@, kw@),
{
    let k = str_chars(kw);
    contains_chars(lower, &k)
}

/// Names that mark a built-in or onboard device.
pub open spec fn builtin_keywords() -> Seq<Seq<char>> {
    seq![
        "built-in"@,
        "speakers"@,
        "realtek"@,
        "internal"@,
        "hdmi"@,
        "displayport"@,
        "macbook"@,
    ]
}

pub open spec fn mentions_usb_or_dac(lower: Seq<char>) -> bool {
    contains_seq(lower, "usb"@) || contains_seq(lower, "dac"@)
}

pub open spec fn mentions_builtin(lower: Seq<char>) -> bool {
    exists|k: int| 0 <= k < builtin_keywords().len() && contains_seq(lower, #[trigger] builtin_keywords()[k])
}

/// A name looks like a USB DAC or external device when, lower-cased, it
/// mentions "usb" or "dac", or mentions none of the built-in keywords
/// (unknown names are preferred over built-in audio).
pub open spec fn spec_is_usb_dac(name: Seq<char>) -> bool {
    let l = spec_lowercase(name);
    mentions_usb_or_dac(l) || !mentions_builtin(l)
}

fn builtin_mentioned(lower: &Vec<char>) -> (b: bool)
    ensures
        b == mentions_builtin(lower@),
{
    let r = lower_contains(lower, "built-in") || lower_contains(lower, "speakers")
        || lower_contains(lower, "realtek") || lower_contains(lower, "internal")
        || lower_contains(lower, "hdmi") || lower_contains(lower, "displayport")
        || lower_contains(lower, "macbook");
    proof {
        let kws = builtin_keywords();
        if r {
            if contains_seq(lower@, "built-in"@) {
                assert(contains_seq(lower@, kws[0]));
            } else if contains_seq(lower@, "speakers"@) {
                assert(contains_seq(lower@, kws[1]));
            } else if contains_seq(lower@, "realtek"@) {
                assert(contains_seq(lower@, kws[2]));
            } else if contains_seq(lower@, "internal"@) {
                assert(contains_seq(lower@, kws[3]));
            } else if contains_seq(lower@, "hdmi"@) {
                assert(contains_seq(lower@, kws[4]));
            } else if contains_seq(lower@, "displayport"@) {
                assert(contains_seq(lower@, kws[5]));
            } else {
                assert(contains_seq(lower@, kws[6]));
            }
        } else {
            if mentions_builtin(lower@) {
                let k = choose|k: int| 0 <= k < kws.len() && contains_seq(lower@, #[trigger] kws[k]);
                assert(0 <= k < 7);
            }
        }
    }
    r
}

/// Classifies a device name (see `spec_is_usb_dac`).
pub fn is_usb_dac(name: &str) -> (b: bool)
    ensures
        b == spec_is_usb_dac(name@),
{
    let lower = to_lowercase(name);
    let l = str_chars(lower.as_str());
    if lower_contains(&l, "usb") || lower_contains(&l, "dac") {
        return true;
    }
    !builtin_mentioned(&l)
}

/// Picks the first device that looks like a USB DAC; `None` tells the
/// caller to fall back to the system default.
pub fn choose_usb_dac(devices: &Vec<String>) -> (r: Option<String>)
    ensures
        r is None <==> forall|i: int| 0 <= i < devices@.len() ==> !spec_is_usb_dac(
            #[trigger] devices@[i]@,
        ),
        r matches Some(name) ==> exists|i: int|
            0 <= i < devices@.len() && name@ == devices@[i]@ && spec_is_usb_dac(devices@[i]@)
                && forall|j: int| 0 <= j < i ==> !spec_is_usb_dac(#[trigger] devices@[j]@),
{
    let mut i: usize = 0;
    while i < devices.len()
        invariant
            i <= devices@.len(),
            forall|j: int| 0 <= j < i ==> !spec_is_usb_dac(#[trigger] devices@[j]@),
        decreases devices@.len() - i,
    {
        if is_usb_dac(devices[i].as_str()) {
            return Some(devices[i].clone());
        }
        i += 1;
    }
    None
}

// ------------------------------------------------------------ ALSA devices

pub open spec fn is_sysdefault(d: Seq<char>) -> bool {
    "sysdefault:CARD="@.len() <= d.len() && d.take("sysdefault:CARD="@.len() as int)
        == "sysdefault:CARD="@
}

pub open spec fn alsa_fallback_ok(d: Seq<char>) -> bool {
    let l = spec_lowercase(d);
    is_sysdefault(d) && !contains_seq(l, "hdmi"@) && !contains_seq(l, "builtin"@)
}

pub open spec fn count_sysdefault(ds: Seq<Seq<char>>) -> nat
    decreases ds.len(),
{
    if ds.len() == 0 {
        0
    } else {
        count_sysdefault(ds.drop_last()) + if is_sysdefault(ds.last()) {
            1nat
        } else {
            0nat
        }
    }
}

fn starts_with_sysdefault(d: &str) -> (b: bool)
    ensures
        b == is_sysdefault(d@),
{
    let v = str_chars(d);
    let p = str_chars("sysdefault:CARD=");
    let r = has_prefix(&v, 0, v.len(), p.as_slice());
    assert(v@.subrange(0, v@.len() as int) =~= v@);
    r
}

/// ALSA device choice among the names `aplay` listed: the first whose
/// lower-cased name mentions "usb" or "dac"; else the only
/// `sysdefault:CARD=` device if there is exactly one; else the first such
/// device that is neither HDMI nor built-in; else none.
pub fn choose_alsa_usb_dac(devices: &Vec<String>) -> (r: Option<String>)
    ensures
        (exists|i: int|
            0 <= i < devices@.len() && mentions_usb_or_dac(spec_lowercase(#[trigger] devices@[i]@)))
            ==> (r matches Some(name) && exists|i: int|
            0 <= i < devices@.len() && name@ == devices@[i]@ && mentions_usb_or_dac(
                spec_lowercase(devices@[i]@),
            ) && forall|j: int|
                0 <= j < i ==> !mentions_usb_or_dac(spec_lowercase(#[trigger] devices@[j]@))),
        (forall|i: int|
            0 <= i < devices@.len() ==> !mentions_usb_or_dac(spec_lowercase(#[trigger] devices@[i]@)))
            ==> (if count_sysdefault(devices@.map_values(|d: String| d@)) == 1 {
            r matches Some(name) && exists|i: int|
                0 <= i < devices@.len() && name@ == devices@[i]@ && is_sysdefault(devices@[i]@)
        } else {
            match r {
                Some(name) => exists|i: int|
                    0 <= i < devices@.len() && name@ == devices@[i]@ && alsa_fallback_ok(
                        devices@[i]@,
                    ) && forall|j: int|
                        0 <= j < i ==> !alsa_fallback_ok(#[trigger] devices@[j]@),
                None => forall|i: int|
                    0 <= i < devices@.len() ==> !alsa_fallback_ok(#[trigger] devices@[i]@),
            }
        }),
{
    let ghost names = devices@.map_values(|d: String| d@);
    let mut i: usize = 0;
    while i < devices.len()
        invariant
            i <= devices@.len(),
            forall|j: int|
                0 <= j < i ==> !mentions_usb_or_dac(spec_lowercase(#[trigger] devices@[j]@)),
        decreases devices@.len() - i,
    {
        let lower = to_lowercase(devices[i].as_str());
        let l = str_chars(lower.as_str());
        if lower_contains(&l, "usb") || lower_contains(&l, "dac") {
            return Some(devices[i].clone());
        }
        i += 1;
    }
    // count the sysdefault devices, remembering the last one seen
    let mut count: usize = 0;
    let mut last: usize = 0;
    let mut k: usize = 0;
    while k < devices.len()
        invariant
            k <= devices@.len(),
            names == devices@.map_values(|d: String| d@),
            count == count_sysdefault(names.take(k as int)),
            count <= k,
            count > 0 ==> last < k && is_sysdefault(devices@[last as int]@),
            forall|j: int|
                0 <= j < devices@.len() ==> !mentions_usb_or_dac(spec_lowercase(#[trigger] devices@[j]@)),
        decreases devices@.len() - k,
    {
        proof {
            assert(names.take(k + 1).drop_last() =~= names.take(k as int));
            assert(names.take(k + 1).last() == devices@[k as int]@);
        }
        if starts_with_sysdefault(devices[k].as_str()) {
            count += 1;
            last = k;
        }
        k += 1;
    }
    assert(names.take(k as int) =~= names);
    if count == 1 {
        return Some(devices[last].clone());
    }
    let mut m: usize = 0;
    while m < devices.len()
        invariant
            m <= devices@.len(),
            forall|j: int| 0 <= j < m ==> !alsa_fallback_ok(#[trigger] devices@[j]@),
            forall|j: int|
                0 <= j < devices@.len() ==> !mentions_usb_or_dac(spec_lowercase(#[trigger] devices@[j]@)),
            count != 1,
            names == devices@.map_values(|d: String| d@),
            count == count_sysdefault(names),
        decreases devices@.len() - m,
    {
        if starts_with_sysdefault(devices[m].as_str()) {
            let lower = to_lowercase(devices[m].as_str());
            let l = str_chars(lower.as_str());
            if !lower_contains(&l, "hdmi") && !lower_contains(&l, "builtin") {
                return Some(devices[m].clone());
            }
        }
        m += 1;
    }
    None
}

/// The ALSA device to open: a name given in `hw:`, `plughw:`, `default…`
/// or `sysdefault:` form is used as is, anything else falls back to
/// "default".
pub open spec fn spec_alsa_device(name: Option<Seq<char>>) -> Seq<char> {
    match name {
        Some(d) => if starts_with_spec(d, "hw:"@) || starts_with_spec(d, "plughw:"@)
            || starts_with_spec(d, "default"@) || starts_with_spec(d, "sysdefault:"@) {
            d
        } else {
            "default"@
        },
        None => "default"@,
    }
}

pub open spec fn starts_with_spec(d: Seq<char>, p: Seq<char>) -> bool {
    p.len() <= d.len() && d.take(p.len() as int) == p
}

fn starts_with_lit(v: &Vec<char>, p: &str) -> (b: bool)
    ensures
        b == starts_with_spec(v@, p@),
{
    let pc = str_chars(p);
    let r = has_prefix(v, 0, v.len(), pc.as_slice());
    assert(v@.subrange(0, v@.len() as int) =~= v@);
    r
}

pub fn alsa_device(name: Option<&str>) -> (d: String)
    ensures
        d@ == spec_alsa_device(
            match name {
                Some(n) => Some(n@),
                None => None,
            },
        ),
{
    match name {
        Some(n) => {
            let v = str_chars(n);
            if starts_with_lit(&v, "hw:") || starts_with_lit(&v, "plughw:") || starts_with_lit(
                &v,
                "default",
            ) || starts_with_lit(&v, "sysdefault:") {
                n.to_owned()
            } else {
                "default".to_owned()
            }
        },
        None => "default".to_owned(),
    }
}

/// Sample format the FLAC decoding pipe produces: 32-bit for up to two
/// channels, 16-bit above.
pub fn flac_pipe_format(channels: u8) -> (r: (&'static str, &'static str))
    ensures
        channels <= 2 ==> r.0@ == "s32le"@ && r.1@ == "S32_LE"@,
        channels > 2 ==> r.0@ == "s16le"@ && r.1@ == "S16_LE"@,
{
    if channels <= 2 {
        ("s32le", "S32_LE")
    } else {
        ("s16le", "S16_LE")
    }
}

/// A line of `aplay -l` that names a card (English or French output).
pub open spec fn is_card_line(l: Seq<char>) -> bool {
    starts_with_spec(l, "card "@) || starts_with_spec(l, "carte "@)
}

/// The card lines of `aplay -l` output, in order.
pub open spec fn spec_card_lines(output: Seq<char>) -> Seq<Seq<char>> {
    lines_of(output).filter(|l: Seq<char>| is_card_line(l))
}

proof fn lemma_filter_cons(x: Seq<char>, rest: Seq<Seq<char>>)
    ensures
        (seq![x] + rest).filter(|l: Seq<char>| is_card_line(l)) == (if is_card_line(x) {
            seq![x] + rest.filter(|l: Seq<char>| is_card_line(l))
        } else {
            rest.filter(|l: Seq<char>| is_card_line(l))
        }),
{
    rest.lemma_filter_prepend(x, |l: Seq<char>| is_card_line(l));
    if is_card_line(x) {
    } else {
        assert(Seq::<Seq<char>>::empty() + rest.filter(|l: Seq<char>| is_card_line(l)) =~= rest.filter(
            |l: Seq<char>| is_card_line(l),
        ));
    }
}

/// The lines of `aplay -l` output that name a card.
pub fn alsa_card_lines(output: &str) -> (r: Vec<String>)
    ensures
        r@.map_values(|d: String| d@) == spec_card_lines(output@),
{
    let v = str_chars(output);
    let mut out: Vec<String> = Vec::new();
    let mut pos: usize = 0;
    assert(v@.skip(0) =~= v@);
    assert(out@.map_values(|d: String| d@) =~= Seq::<Seq<char>>::empty());
    loop
        invariant
            v@ == output@,
            pos <= v@.len(),
            spec_card_lines(output@) == out@.map_values(|d: String| d@) + lines_of(
                v@.skip(pos as int),
            ).filter(|l: Seq<char>| is_card_line(l)),
        decreases v@.len() - pos,
    {
        let k = find_char(&v, pos, v.len(), '\n');
        proof {
            lemma_lines_step(v@, pos as int, k as int);
        }
        if k == v.len() && pos == k {
            proof {
                assert(Seq::<Seq<char>>::empty().filter(|l: Seq<char>| is_card_line(l)) =~= Seq::<
                    Seq<char>,
                >::empty());
                assert(out@.map_values(|d: String| d@) + Seq::<Seq<char>>::empty() =~= out@.map_values(
                    |d: String| d@,
                ));
            }
            return out;
        }
        let end = if k < v.len() && k > pos && v[k - 1] == '\r' {
            k - 1
        } else {
            k
        };
        let ghost line = v@.subrange(pos as int, end as int);
        let ghost rest = if k < v@.len() {
            lines_of(v@.skip(k + 1))
        } else {
            Seq::<Seq<char>>::empty()
        };
        proof {
            if k < v@.len() {
                assert(strip_cr(v@.subrange(pos as int, k as int)) =~= line);
            } else {
                assert(seq![line] =~= seq![line] + rest);
            }
            assert(lines_of(v@.skip(pos as int)) == seq![line] + rest);
            lemma_filter_cons(line, rest);
        }
        let ghost before = out@.map_values(|d: String| d@);
        let c1 = str_chars("card ");
        let c2 = str_chars("carte ");
        let card = has_prefix(&v, pos, end, c1.as_slice()) || has_prefix(&v, pos, end, c2.as_slice());
        if card {
            out.push(string_from_range(&v, pos, end));
            assert(out@.map_values(|d: String| d@) =~= before + seq![line]);
        }
        proof {
            if k == v@.len() {
                assert(rest.filter(|l: Seq<char>| is_card_line(l)) =~= Seq::<Seq<char>>::empty());
            }
        }
        if k == v.len() {
            assert(out@.map_values(|d: String| d@) + Seq::<Seq<char>>::empty() =~= out@.map_values(
                |d: String| d@,
            ));
            return out;
        }
        pos = k + 1;
    }
}


// ------------------------------------------------------- output processes

/// Arguments of the `aplay` process that plays raw PCM.
pub open spec fn spec_aplay_args(device: Seq<char>, alsa_fmt: Seq<char>, sample_rate: u32, channels: u8) -> Seq<Seq<char>> {
    seq![
        "-D"@,
        device,
        "-f"@,
        alsa_fmt,
        "-r"@,
        decimal(sample_rate as nat),
        "-c"@,
        decimal(channels as nat),
        "-t"@,
        "raw"@,
        "-q"@,
        "--buffer-time"@,
        "500000"@,
    ]
}

fn push_arg(v: &mut Vec<String>, a: &str)
    ensures
        final(v)@.map_values(|s: String| s@) == old(v)@.map_values(|s: String| s@).push(a@),
{
    v.push(a.to_owned());
    assert(v@.map_values(|s: String| s@) =~= old(v)@.map_values(|s: String| s@).push(a@));
}

pub fn aplay_args(device: &str, alsa_fmt: &str, sample_rate: u32, channels: u8) -> (r: Vec<String>)
    ensures
        r@.map_values(|s: String| s@) == spec_aplay_args(device@, alsa_fmt@, sample_rate, channels),
{
    let mut v: Vec<String> = Vec::new();
    push_arg(&mut v, "-D");
    push_arg(&mut v, device);
    push_arg(&mut v, "-f");
    push_arg(&mut v, alsa_fmt);
    push_arg(&mut v, "-r");
    let rate = decimal_string(sample_rate as u64);
    push_arg(&mut v, rate.as_str());
    push_arg(&mut v, "-c");
    let ch = decimal_string(channels as u64);
    push_arg(&mut v, ch.as_str());
    push_arg(&mut v, "-t");
    push_arg(&mut v, "raw");
    push_arg(&mut v, "-q");
    push_arg(&mut v, "--buffer-time");
    push_arg(&mut v, "500000");
    assert(v@.map_values(|s: String| s@) =~= spec_aplay_args(device@, alsa_fmt@, sample_rate, channels));
    v
}

/// The shell pipeline that decodes a FLAC stream with `ffmpeg` and plays
/// it with `aplay`, in the sample format `flac_pipe_format` picks.
pub open spec fn spec_flac_pipe_command(device: Seq<char>, sample_rate: u32, channels: u8) -> Seq<char> {
    let rate = decimal(sample_rate as nat);
    let ch = decimal(channels as nat);
    let (bits, alsa_fmt) = if channels <= 2 {
        ("s32le"@, "S32_LE"@)
    } else {
        ("s16le"@, "S16_LE"@)
    };
    "ffmpeg -hide_banner -loglevel warning -err_detect ignore_err -f flac -i /dev/stdin -f "@ + bits
        + " -ar "@ + rate + " -ac "@ + ch + " - | aplay -D "@ + device + " -f "@ + alsa_fmt + " -r "@
        + rate + " -c "@ + ch + " -t raw -q --buffer-time 500000"@
}

fn push_str(s: &mut String, a: &str)
    ensures
        final(s)@ == old(s)@ + a@,
{
    let cs = str_chars(a);
    push_chars(s, cs.as_slice());
}

pub fn flac_pipe_command(device: &str, sample_rate: u32, channels: u8) -> (c: String)
    ensures
        c@ == spec_flac_pipe_command(device@, sample_rate, channels),
{
    let (bits, alsa_fmt) = flac_pipe_format(channels);
    let mut s = String::new();
    push_str(&mut s, "ffmpeg -hide_banner -loglevel warning -err_detect ignore_err -f flac -i /dev/stdin -f ");
    push_str(&mut s, bits);
    push_str(&mut s, " -ar ");
    push_decimal(&mut s, sample_rate as u64);
    push_str(&mut s, " -ac ");
    push_decimal(&mut s, channels as u64);
    push_str(&mut s, " - | aplay -D ");
    push_str(&mut s, device);
    push_str(&mut s, " -f ");
    push_str(&mut s, alsa_fmt);
    push_str(&mut s, " -r ");
    push_decimal(&mut s, sample_rate as u64);
    push_str(&mut s, " -c ");
    push_decimal(&mut s, channels as u64);
    push_str(&mut s, " -t raw -q --buffer-time 500000");
    assert(s@ =~= spec_flac_pipe_command(device@, sample_rate, channels));
    s
}

} // verus!
