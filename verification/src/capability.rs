//! The compact capability string announced in mDNS TXT records:
//! `pcm:<max_rate_khz>/<max_bits>[,dsd:<max_multiplier>][,flac][,opus][,truehd][,eac3]`.

use crate::error::OaatError;
use crate::text::{
    decimal, find_char, has_prefix, index_of, lemma_decimal_chars, lemma_index_of_is,
    lemma_parse_decimal, lemma_split_cons, lemma_split_single, lemma_split_step, lemma_trim_no_ws,
    parse_unsigned, parse_unsigned_range, push_char, push_chars, push_decimal, range_equals,
    split_on, split_once, str_chars, strip_prefix, trim, trim_range,
};
use vstd::prelude::*;

verus! {

/// What an endpoint can play, as announced before any connection.
#[derive(Debug, Clone, PartialEq, Eq, Structural)]
pub struct Capabilities {
    pub pcm_max_rate_khz: u32,
    pub pcm_max_bits: u8,
    pub dsd_max_multiplier: Option<u16>,
    pub flac: bool,
    pub opus: bool,
    pub truehd: bool,
    pub eac3: bool,
}

pub open spec fn lit_pcm() -> Seq<char> {
    seq!['p', 'c', 'm', ':']
}

pub open spec fn lit_dsd() -> Seq<char> {
    seq!['d', 's', 'd', ':']
}

pub open spec fn lit_flac() -> Seq<char> {
    seq!['f', 'l', 'a', 'c']
}

pub open spec fn lit_opus() -> Seq<char> {
    seq!['o', 'p', 'u', 's']
}

pub open spec fn lit_truehd() -> Seq<char> {
    seq!['t', 'r', 'u', 'e', 'h', 'd']
}

pub open spec fn lit_eac3() -> Seq<char> {
    seq!['e', 'a', 'c', '3']
}

/// Nothing announced yet.
pub open spec fn caps_init() -> Capabilities {
    Capabilities {
        pcm_max_rate_khz: 0,
        pcm_max_bits: 0,
        dsd_max_multiplier: None,
        flac: false,
        opus: false,
        truehd: false,
        eac3: false,
    }
}

/// The effect of one comma-separated part (before trimming) on what has
/// been read so far; `None` is a malformed `pcm:` or `dsd:` part. Unknown
/// parts are ignored, and a later part overrides an earlier one.
pub open spec fn caps_step(acc: Capabilities, raw: Seq<char>) -> Option<Capabilities> {
    let part = trim(raw);
    match strip_prefix(part, lit_pcm()) {
        Some(pcm) => match split_once(pcm, '/') {
            None => None,
            Some((r, b)) => match parse_unsigned(r, u32::MAX as nat) {
                None => None,
                Some(rv) => match parse_unsigned(b, u8::MAX as nat) {
                    None => None,
                    Some(bv) => Some(
                        Capabilities {
                            pcm_max_rate_khz: rv as u32,
                            pcm_max_bits: bv as u8,
                            dsd_max_multiplier: acc.dsd_max_multiplier,
                            flac: acc.flac,
                            opus: acc.opus,
                            truehd: acc.truehd,
                            eac3: acc.eac3,
                        },
                    ),
                },
            },
        },
        None => match strip_prefix(part, lit_dsd()) {
            Some(d) => match parse_unsigned(d, u16::MAX as nat) {
                None => None,
                Some(dv) => Some(
                    Capabilities {
                        pcm_max_rate_khz: acc.pcm_max_rate_khz,
                        pcm_max_bits: acc.pcm_max_bits,
                        dsd_max_multiplier: Some(dv as u16),
                        flac: acc.flac,
                        opus: acc.opus,
                        truehd: acc.truehd,
                        eac3: acc.eac3,
                    },
                ),
            },
            None => if part == lit_flac() {
                Some(
                    Capabilities {
                        pcm_max_rate_khz: acc.pcm_max_rate_khz,
                        pcm_max_bits: acc.pcm_max_bits,
                        dsd_max_multiplier: acc.dsd_max_multiplier,
                        flac: true,
                        opus: acc.opus,
                        truehd: acc.truehd,
                        eac3: acc.eac3,
                    },
                )
            } else if part == lit_opus() {
                Some(
                    Capabilities {
                        pcm_max_rate_khz: acc.pcm_max_rate_khz,
                        pcm_max_bits: acc.pcm_max_bits,
                        dsd_max_multiplier: acc.dsd_max_multiplier,
                        flac: acc.flac,
                        opus: true,
                        truehd: acc.truehd,
                        eac3: acc.eac3,
                    },
                )
            } else if part == lit_truehd() {
                Some(
                    Capabilities {
                        pcm_max_rate_khz: acc.pcm_max_rate_khz,
                        pcm_max_bits: acc.pcm_max_bits,
                        dsd_max_multiplier: acc.dsd_max_multiplier,
                        flac: acc.flac,
                        opus: acc.opus,
                        truehd: true,
                        eac3: acc.eac3,
                    },
                )
            } else if part == lit_eac3() {
                Some(
                    Capabilities {
                        pcm_max_rate_khz: acc.pcm_max_rate_khz,
                        pcm_max_bits: acc.pcm_max_bits,
                        dsd_max_multiplier: acc.dsd_max_multiplier,
                        flac: acc.flac,
                        opus: acc.opus,
                        truehd: acc.truehd,
                        eac3: true,
                    },
                )
            } else {
                Some(acc)
            },
        },
    }
}

/// The parts read in order; the first malformed part stops everything.
pub open spec fn caps_fold(parts: Seq<Seq<char>>, acc: Capabilities) -> Option<Capabilities>
    decreases parts.len(),
{
    if parts.len() == 0 {
        Some(acc)
    } else {
        match caps_step(acc, parts[0]) {
            Some(a) => caps_fold(parts.drop_first(), a),
            None => None,
        }
    }
}

/// What a capability string parses to: every part read, and a PCM rate
/// must have been given (a zero rate is refused too).
pub open spec fn spec_parse_caps(s: Seq<char>) -> Option<Capabilities> {
    match caps_fold(split_on(s, ','), caps_init()) {
        Some(c) => if c.pcm_max_rate_khz != 0 {
            Some(c)
        } else {
            None
        },
        None => None,
    }
}

pub open spec fn pcm_part(c: Capabilities) -> Seq<char> {
    lit_pcm() + decimal(c.pcm_max_rate_khz as nat) + seq!['/'] + decimal(c.pcm_max_bits as nat)
}

pub open spec fn dsd_part(d: u16) -> Seq<char> {
    lit_dsd() + decimal(d as nat)
}

pub open spec fn opt_dsd(c: Capabilities) -> Seq<Seq<char>> {
    match c.dsd_max_multiplier {
        Some(d) => seq![dsd_part(d)],
        None => Seq::<Seq<char>>::empty(),
    }
}

pub open spec fn opt_flag(flag: bool, name: Seq<char>) -> Seq<Seq<char>> {
    if flag {
        seq![name]
    } else {
        Seq::<Seq<char>>::empty()
    }
}

/// The optional parts, in the order they are written.
pub open spec fn optional_parts(c: Capabilities) -> Seq<Seq<char>> {
    opt_dsd(c) + opt_flag(c.flac, lit_flac()) + opt_flag(c.opus, lit_opus()) + opt_flag(
        c.truehd,
        lit_truehd(),
    ) + opt_flag(c.eac3, lit_eac3())
}

/// Each part preceded by a comma.
pub open spec fn comma_join(parts: Seq<Seq<char>>) -> Seq<char>
    decreases parts.len(),
{
    if parts.len() == 0 {
        Seq::<char>::empty()
    } else {
        seq![','] + parts[0] + comma_join(parts.drop_first())
    }
}

/// The canonical capability string.
pub open spec fn spec_caps_string(c: Capabilities) -> Seq<char> {
    pcm_part(c) + comma_join(optional_parts(c))
}

fn caps_step_exec(acc: &Capabilities, v: &Vec<char>, lo: usize, hi: usize) -> (r: Option<
    Capabilities,
>)
    requires
        lo <= hi <= v@.len(),
    ensures
        r == caps_step(*acc, v@.subrange(lo as int, hi as int)),
{
    let (a, b) = trim_range(v, lo, hi);
    let ghost part = v@.subrange(a as int, b as int);
    let pcm_lit = ['p', 'c', 'm', ':'];
    let dsd_lit = ['d', 's', 'd', ':'];
    let flac_lit = ['f', 'l', 'a', 'c'];
    let opus_lit = ['o', 'p', 'u', 's'];
    let truehd_lit = ['t', 'r', 'u', 'e', 'h', 'd'];
    let eac3_lit = ['e', 'a', 'c', '3'];
    assert(pcm_lit@ =~= lit_pcm());
    assert(dsd_lit@ =~= lit_dsd());
    assert(flac_lit@ =~= lit_flac());
    assert(opus_lit@ =~= lit_opus());
    assert(truehd_lit@ =~= lit_truehd());
    assert(eac3_lit@ =~= lit_eac3());
    if has_prefix(v, a, b, pcm_lit.as_slice()) {
        let ghost pcm = part.skip(4);
        assert(pcm =~= v@.subrange(a + 4, b as int));
        let j = find_char(v, a + 4, b, '/');
        if j == b {
            return None;
        }
        assert(pcm.take(j - a - 4) =~= v@.subrange(a + 4, j as int));
        assert(pcm.skip(j - a - 4 + 1) =~= v@.subrange(j + 1, b as int));
        let rate = match parse_unsigned_range(v, a + 4, j, 0xffff_ffff) {
            Some(x) => x,
            None => {
                return None;
            },
        };
        let bits = match parse_unsigned_range(v, j + 1, b, 0xff) {
            Some(x) => x,
            None => {
                return None;
            },
        };
        Some(
            Capabilities {
                pcm_max_rate_khz: rate as u32,
                pcm_max_bits: bits as u8,
                dsd_max_multiplier: acc.dsd_max_multiplier,
                flac: acc.flac,
                opus: acc.opus,
                truehd: acc.truehd,
                eac3: acc.eac3,
            },
        )
    } else if has_prefix(v, a, b, dsd_lit.as_slice()) {
        assert(part.skip(4) =~= v@.subrange(a + 4, b as int));
        match parse_unsigned_range(v, a + 4, b, 0xffff) {
            Some(d) => Some(
                Capabilities {
                    pcm_max_rate_khz: acc.pcm_max_rate_khz,
                    pcm_max_bits: acc.pcm_max_bits,
                    dsd_max_multiplier: Some(d as u16),
                    flac: acc.flac,
                    opus: acc.opus,
                    truehd: acc.truehd,
                    eac3: acc.eac3,
                },
            ),
            None => None,
        }
    } else if range_equals(v, a, b, flac_lit.as_slice()) {
        Some(
            Capabilities {
                pcm_max_rate_khz: acc.pcm_max_rate_khz,
                pcm_max_bits: acc.pcm_max_bits,
                dsd_max_multiplier: acc.dsd_max_multiplier,
                flac: true,
                opus: acc.opus,
                truehd: acc.truehd,
                eac3: acc.eac3,
            },
        )
    } else if range_equals(v, a, b, opus_lit.as_slice()) {
        Some(
            Capabilities {
                pcm_max_rate_khz: acc.pcm_max_rate_khz,
                pcm_max_bits: acc.pcm_max_bits,
                dsd_max_multiplier: acc.dsd_max_multiplier,
                flac: acc.flac,
                opus: true,
                truehd: acc.truehd,
                eac3: acc.eac3,
            },
        )
    } else if range_equals(v, a, b, truehd_lit.as_slice()) {
        Some(
            Capabilities {
                pcm_max_rate_khz: acc.pcm_max_rate_khz,
                pcm_max_bits: acc.pcm_max_bits,
                dsd_max_multiplier: acc.dsd_max_multiplier,
                flac: acc.flac,
                opus: acc.opus,
                truehd: true,
                eac3: acc.eac3,
            },
        )
    } else if range_equals(v, a, b, eac3_lit.as_slice()) {
        Some(
            Capabilities {
                pcm_max_rate_khz: acc.pcm_max_rate_khz,
                pcm_max_bits: acc.pcm_max_bits,
                dsd_max_multiplier: acc.dsd_max_multiplier,
                flac: acc.flac,
                opus: acc.opus,
                truehd: acc.truehd,
                eac3: true,
            },
        )
    } else {
        Some(
            Capabilities {
                pcm_max_rate_khz: acc.pcm_max_rate_khz,
                pcm_max_bits: acc.pcm_max_bits,
                dsd_max_multiplier: acc.dsd_max_multiplier,
                flac: acc.flac,
                opus: acc.opus,
                truehd: acc.truehd,
                eac3: acc.eac3,
            },
        )
    }
}

impl Capabilities {
    /// Parses a capability string; the error carries the whole input.
    pub fn parse(s: &str) -> (r: Result<Self, OaatError>)
        ensures
            match spec_parse_caps(s@) {
                Some(c) => r == Ok::<Capabilities, OaatError>(c),
                None => r matches Err(OaatError::InvalidCapabilityString(t)) && t@ == s@,
            },
    {
        let v = str_chars(s);
        let mut acc = Capabilities {
            pcm_max_rate_khz: 0,
            pcm_max_bits: 0,
            dsd_max_multiplier: None,
            flac: false,
            opus: false,
            truehd: false,
            eac3: false,
        };
        let mut pos: usize = 0;
        let mut done = false;
        assert(v@.skip(0) =~= v@);
        while !done
            invariant
                v@ == s@,
                pos <= v@.len(),
                done ==> caps_fold(split_on(v@, ','), caps_init()) == Some(acc),
                !done ==> caps_fold(split_on(v@, ','), caps_init()) == caps_fold(
                    split_on(v@.skip(pos as int), ','),
                    acc,
                ),
            decreases (if done {
                0
            } else {
                v@.len() - pos + 1
            }),
        {
            let k = find_char(&v, pos, v.len(), ',');
            let ghost parts = split_on(v@.skip(pos as int), ',');
            let ghost sub = v@.subrange(pos as int, k as int);
            proof {
                lemma_split_step(v@, ',', pos as int, k as int);
                assert(parts[0] == sub);
                if k < v@.len() {
                    assert(parts.drop_first() =~= split_on(v@.skip(k + 1), ','));
                } else {
                    assert(parts.drop_first() =~= Seq::<Seq<char>>::empty());
                }
            }
            match caps_step_exec(&acc, &v, pos, k) {
                None => {
                    return Err(OaatError::InvalidCapabilityString(s.to_owned()));
                },
                Some(a) => {
                    acc = a;
                },
            }
            proof {
                if k == v@.len() {
                    assert(caps_fold(parts.drop_first(), acc) == Some(acc));
                }
            }
            if k == v.len() {
                done = true;
            } else {
                pos = k + 1;
            }
        }
        if acc.pcm_max_rate_khz == 0 {
            return Err(OaatError::InvalidCapabilityString(s.to_owned()));
        }
        Ok(acc)
    }

    /// The PCM rate limit in Hz.
    pub fn pcm_max_rate_hz(&self) -> (hz: u32)
        requires
            self.pcm_max_rate_khz * 1000 <= u32::MAX,
        ensures
            hz == self.pcm_max_rate_khz * 1000,
    {
        self.pcm_max_rate_khz * 1000
    }

    /// The canonical capability string (parts in a fixed order).
    pub fn to_string(&self) -> (s: String)
        ensures
            s@ == spec_caps_string(*self),
    {
        let ghost c = *self;
        let mut s = String::new();
        let pcm = ['p', 'c', 'm', ':'];
        assert(pcm@ =~= lit_pcm());
        push_chars(&mut s, pcm.as_slice());
        push_decimal(&mut s, self.pcm_max_rate_khz as u64);
        push_char(&mut s, '/');
        push_decimal(&mut s, self.pcm_max_bits as u64);
        assert(s@ =~= pcm_part(c));
        push_dsd_part(&mut s, self.dsd_max_multiplier);
        let flac = ['f', 'l', 'a', 'c'];
        assert(flac@ =~= lit_flac());
        push_flag_part(&mut s, self.flac, flac.as_slice());
        let opus = ['o', 'p', 'u', 's'];
        assert(opus@ =~= lit_opus());
        push_flag_part(&mut s, self.opus, opus.as_slice());
        let truehd = ['t', 'r', 'u', 'e', 'h', 'd'];
        assert(truehd@ =~= lit_truehd());
        push_flag_part(&mut s, self.truehd, truehd.as_slice());
        let eac3 = ['e', 'a', 'c', '3'];
        assert(eac3@ =~= lit_eac3());
        push_flag_part(&mut s, self.eac3, eac3.as_slice());
        proof {
            lemma_caps_string_shape(c);
        }
        s
    }
}

fn push_flag_part(s: &mut String, flag: bool, name: &[char])
    ensures
        final(s)@ == old(s)@ + comma_join(opt_flag(flag, name@)),
{
    proof {
        lemma_comma_join_opt(opt_flag(flag, name@));
    }
    if flag {
        push_char(s, ',');
        push_chars(s, name);
        assert(s@ =~= old(s)@ + (seq![','] + name@));
    } else {
        assert(s@ =~= old(s)@ + Seq::<char>::empty());
    }
}

fn push_dsd_part(s: &mut String, dsd: Option<u16>)
    ensures
        final(s)@ == old(s)@ + comma_join(
            match dsd {
                Some(d) => seq![dsd_part(d)],
                None => Seq::<Seq<char>>::empty(),
            },
        ),
{
    let ghost o = match dsd {
        Some(d) => seq![dsd_part(d)],
        None => Seq::<Seq<char>>::empty(),
    };
    proof {
        lemma_comma_join_opt(o);
    }
    if let Some(d) = dsd {
        let lit = [',', 'd', 's', 'd', ':'];
        assert(lit@ =~= seq![','] + lit_dsd());
        push_chars(s, lit.as_slice());
        push_decimal(s, d as u64);
        assert(s@ =~= old(s)@ + (seq![','] + dsd_part(d)));
    } else {
        assert(s@ =~= old(s)@ + Seq::<char>::empty());
    }
}

// ---------------------------------------------------------------- lemmas

proof fn lemma_comma_join_opt(p: Seq<Seq<char>>)
    requires
        p.len() <= 1,
    ensures
        p.len() == 1 ==> comma_join(p) == seq![','] + p[0],
        p.len() == 0 ==> comma_join(p) == Seq::<char>::empty(),
{
    if p.len() == 1 {
        let e = p.drop_first();
        assert(e =~= Seq::<Seq<char>>::empty());
        assert(comma_join(e) == Seq::<char>::empty());
        assert(comma_join(p) == seq![','] + p[0] + comma_join(e));
        assert(comma_join(p) =~= seq![','] + p[0]);
    }
}

proof fn lemma_caps_string_shape(c: Capabilities)
    ensures
        spec_caps_string(c) == pcm_part(c) + comma_join(opt_dsd(c)) + comma_join(
            opt_flag(c.flac, lit_flac()),
        ) + comma_join(opt_flag(c.opus, lit_opus())) + comma_join(
            opt_flag(c.truehd, lit_truehd()),
        ) + comma_join(opt_flag(c.eac3, lit_eac3())),
{
    lemma_optional_join(c);
    let a = comma_join(opt_dsd(c));
    let b = comma_join(opt_flag(c.flac, lit_flac()));
    let d = comma_join(opt_flag(c.opus, lit_opus()));
    let e = comma_join(opt_flag(c.truehd, lit_truehd()));
    let f = comma_join(opt_flag(c.eac3, lit_eac3()));
    assert(pcm_part(c) + (a + b + d + e + f) =~= pcm_part(c) + a + b + d + e + f);
}

proof fn lemma_optional_join(c: Capabilities)
    ensures
        comma_join(optional_parts(c)) == comma_join(opt_dsd(c)) + comma_join(
            opt_flag(c.flac, lit_flac()),
        ) + comma_join(opt_flag(c.opus, lit_opus())) + comma_join(
            opt_flag(c.truehd, lit_truehd()),
        ) + comma_join(opt_flag(c.eac3, lit_eac3())),
{
    let a = opt_dsd(c);
    let b = opt_flag(c.flac, lit_flac());
    let d = opt_flag(c.opus, lit_opus());
    let e = opt_flag(c.truehd, lit_truehd());
    let f = opt_flag(c.eac3, lit_eac3());
    lemma_comma_join_concat(a, b);
    lemma_comma_join_concat(a + b, d);
    lemma_comma_join_concat(a + b + d, e);
    lemma_comma_join_concat(a + b + d + e, f);
}

proof fn lemma_comma_join_concat(a: Seq<Seq<char>>, b: Seq<Seq<char>>)
    ensures
        comma_join(a + b) == comma_join(a) + comma_join(b),
    decreases a.len(),
{
    if a.len() == 0 {
        assert(a + b =~= b);
        assert(comma_join(a) + comma_join(b) =~= comma_join(b));
    } else {
        assert((a + b).drop_first() =~= a.drop_first() + b);
        lemma_comma_join_concat(a.drop_first(), b);
        assert(comma_join(a + b) =~= comma_join(a) + comma_join(b));
    }
}

spec fn no_comma_parts(ps: Seq<Seq<char>>) -> bool {
    forall|i: int| 0 <= i < ps.len() ==> !(#[trigger] ps[i]).contains(',')
}

proof fn lemma_split_comma_join(a: Seq<char>, ps: Seq<Seq<char>>)
    requires
        !a.contains(','),
        no_comma_parts(ps),
    ensures
        split_on(a + comma_join(ps), ',') == seq![a] + ps,
    decreases ps.len(),
{
    if ps.len() == 0 {
        assert(a + comma_join(ps) =~= a);
        lemma_split_single(a, ',');
        assert(seq![a] + ps =~= seq![a]);
    } else {
        let rest = ps.drop_first();
        assert(no_comma_parts(rest)) by {
            assert forall|i: int| 0 <= i < rest.len() implies !(#[trigger] rest[i]).contains(
                ',',
            ) by {
                assert(rest[i] == ps[i + 1]);
            }
        }
        assert(!ps[0].contains(','));
        assert(a + comma_join(ps) =~= a + seq![','] + (ps[0] + comma_join(rest)));
        lemma_split_cons(a, ',', ps[0] + comma_join(rest));
        lemma_split_comma_join(ps[0], rest);
        assert(seq![a] + (seq![ps[0]] + rest) =~= seq![a] + ps);
    }
}

proof fn lemma_caps_fold_concat(x: Seq<Seq<char>>, y: Seq<Seq<char>>, acc: Capabilities)
    ensures
        caps_fold(x + y, acc) == match caps_fold(x, acc) {
            Some(m) => caps_fold(y, m),
            None => None,
        },
    decreases x.len(),
{
    if x.len() == 0 {
        assert(x + y =~= y);
    } else {
        assert((x + y)[0] == x[0]);
        assert((x + y).drop_first() =~= x.drop_first() + y);
        match caps_step(acc, x[0]) {
            Some(a) => lemma_caps_fold_concat(x.drop_first(), y, a),
            None => {},
        }
    }
}

proof fn lemma_fold_opt(p: Seq<Seq<char>>, acc: Capabilities)
    requires
        p.len() <= 1,
    ensures
        p.len() == 0 ==> caps_fold(p, acc) == Some(acc),
        p.len() == 1 ==> caps_fold(p, acc) == caps_step(acc, p[0]),
{
    if p.len() == 1 {
        assert(p.drop_first() =~= Seq::<Seq<char>>::empty());
        match caps_step(acc, p[0]) {
            Some(a) => {
                assert(caps_fold(p.drop_first(), a) == Some(a));
            },
            None => {},
        }
    }
}

proof fn lemma_not_prefix(s: Seq<char>, p: Seq<char>, i: int)
    requires
        0 <= i < p.len(),
        i < s.len(),
        s[i] != p[i],
    ensures
        strip_prefix(s, p) is None,
{
    if p.len() <= s.len() && s.take(p.len() as int) == p {
        assert(s.take(p.len() as int)[i] == s[i]);
    }
}

proof fn lemma_pcm_part(c: Capabilities)
    ensures
        !pcm_part(c).contains(','),
        caps_step(caps_init(), pcm_part(c)) == Some(
            Capabilities {
                pcm_max_rate_khz: c.pcm_max_rate_khz,
                pcm_max_bits: c.pcm_max_bits,
                ..caps_init()
            },
        ),
{
    let r = decimal(c.pcm_max_rate_khz as nat);
    let b = decimal(c.pcm_max_bits as nat);
    lemma_decimal_chars(c.pcm_max_rate_khz as nat);
    lemma_decimal_chars(c.pcm_max_bits as nat);
    let pp = pcm_part(c);
    assert(!pp.contains(',')) by {
        if pp.contains(',') {
            let i = choose|i: int| 0 <= i < pp.len() && pp[i] == ',';
            if i < 4 {
            } else if i < 4 + r.len() {
                assert(pp[i] == r[i - 4]);
                assert(r.contains(','));
            } else if i == 4 + r.len() {
            } else {
                assert(pp[i] == b[i - 5 - r.len()]);
                assert(b.contains(','));
            }
        }
    }
    lemma_trim_no_ws(pp);
    let rest_pcm = r + seq!['/'] + b;
    assert(pp.take(4) =~= lit_pcm());
    assert(pp.skip(4) =~= rest_pcm);
    assert forall|j: int| 0 <= j < r.len() implies rest_pcm[j] != '/' by {
        assert(rest_pcm[j] == r[j]);
        if r[j] == '/' {
            assert(r.contains('/'));
        }
    }
    lemma_index_of_is(rest_pcm, '/', r.len() as int);
    assert(rest_pcm.take(r.len() as int) =~= r);
    assert(rest_pcm.skip(r.len() as int + 1) =~= b);
    lemma_parse_decimal(c.pcm_max_rate_khz as nat, u32::MAX as nat);
    lemma_parse_decimal(c.pcm_max_bits as nat, u8::MAX as nat);
}

proof fn lemma_opts_no_comma(c: Capabilities)
    ensures
        no_comma_parts(optional_parts(c)),
{
    let opts = optional_parts(c);
    if let Some(d) = c.dsd_max_multiplier {
        lemma_decimal_chars(d as nat);
    }
    assert forall|i: int| 0 <= i < opts.len() implies !(#[trigger] opts[i]).contains(',') by {
        let p = opts[i];
        if p.contains(',') {
            let j = choose|j: int| 0 <= j < p.len() && p[j] == ',';
            if let Some(d) = c.dsd_max_multiplier {
                if i == 0 {
                    let dd = decimal(d as nat);
                    assert(p == dsd_part(d));
                    if j >= 4 {
                        assert(p[j] == dd[j - 4]);
                        assert(dd.contains(','));
                    }
                }
            }
        }
    }
}

proof fn lemma_step_dsd(acc: Capabilities, d: u16)
    ensures
        caps_step(acc, dsd_part(d)) == Some(Capabilities { dsd_max_multiplier: Some(d), ..acc }),
{
    let dp = dsd_part(d);
    let dd = decimal(d as nat);
    lemma_decimal_chars(d as nat);
    lemma_trim_no_ws(dp);
    lemma_not_prefix(dp, lit_pcm(), 0);
    assert(dp.take(4) =~= lit_dsd());
    assert(dp.skip(4) =~= dd);
    lemma_parse_decimal(d as nat, u16::MAX as nat);
}

proof fn lemma_step_flac(acc: Capabilities)
    ensures
        caps_step(acc, lit_flac()) == Some(Capabilities { flac: true, ..acc }),
{
    lemma_trim_no_ws(lit_flac());
    lemma_not_prefix(lit_flac(), lit_pcm(), 0);
    lemma_not_prefix(lit_flac(), lit_dsd(), 0);
}

proof fn lemma_step_opus(acc: Capabilities)
    ensures
        caps_step(acc, lit_opus()) == Some(Capabilities { opus: true, ..acc }),
{
    lemma_trim_no_ws(lit_opus());
    lemma_not_prefix(lit_opus(), lit_pcm(), 0);
    lemma_not_prefix(lit_opus(), lit_dsd(), 0);
    assert(lit_opus()[0] != lit_flac()[0]);
}

proof fn lemma_step_truehd(acc: Capabilities)
    ensures
        caps_step(acc, lit_truehd()) == Some(Capabilities { truehd: true, ..acc }),
{
    lemma_trim_no_ws(lit_truehd());
    lemma_not_prefix(lit_truehd(), lit_pcm(), 0);
    lemma_not_prefix(lit_truehd(), lit_dsd(), 0);
    assert(lit_truehd()[0] != lit_flac()[0]);
    assert(lit_truehd()[0] != lit_opus()[0]);
}

proof fn lemma_step_eac3(acc: Capabilities)
    ensures
        caps_step(acc, lit_eac3()) == Some(Capabilities { eac3: true, ..acc }),
{
    lemma_trim_no_ws(lit_eac3());
    lemma_not_prefix(lit_eac3(), lit_pcm(), 0);
    lemma_not_prefix(lit_eac3(), lit_dsd(), 0);
    assert(lit_eac3()[0] != lit_flac()[0]);
    assert(lit_eac3()[0] != lit_opus()[0]);
    assert(lit_eac3()[0] != lit_truehd()[0]);
}

proof fn lemma_fold_optional(c: Capabilities)
    ensures
        caps_fold(
            optional_parts(c),
            Capabilities {
                pcm_max_rate_khz: c.pcm_max_rate_khz,
                pcm_max_bits: c.pcm_max_bits,
                ..caps_init()
            },
        ) == Some(c),
{
    let a1 = Capabilities {
        pcm_max_rate_khz: c.pcm_max_rate_khz,
        pcm_max_bits: c.pcm_max_bits,
        ..caps_init()
    };
    let a2 = Capabilities { dsd_max_multiplier: c.dsd_max_multiplier, ..a1 };
    let a3 = Capabilities { flac: c.flac, ..a2 };
    let a4 = Capabilities { opus: c.opus, ..a3 };
    let a5 = Capabilities { truehd: c.truehd, ..a4 };
    let od = opt_dsd(c);
    let of = opt_flag(c.flac, lit_flac());
    let oo = opt_flag(c.opus, lit_opus());
    let ot = opt_flag(c.truehd, lit_truehd());
    let oe = opt_flag(c.eac3, lit_eac3());
    lemma_fold_opt(od, a1);
    if let Some(d) = c.dsd_max_multiplier {
        lemma_step_dsd(a1, d);
    }
    assert(caps_fold(od, a1) == Some(a2));
    lemma_fold_opt(of, a2);
    lemma_step_flac(a2);
    assert(caps_fold(of, a2) == Some(a3));
    lemma_fold_opt(oo, a3);
    lemma_step_opus(a3);
    assert(caps_fold(oo, a3) == Some(a4));
    lemma_fold_opt(ot, a4);
    lemma_step_truehd(a4);
    assert(caps_fold(ot, a4) == Some(a5));
    lemma_fold_opt(oe, a5);
    lemma_step_eac3(a5);
    assert(caps_fold(oe, a5) == Some(c));
    lemma_caps_fold_concat(od, of, a1);
    lemma_caps_fold_concat(od + of, oo, a1);
    lemma_caps_fold_concat(od + of + oo, ot, a1);
    lemma_caps_fold_concat(od + of + oo + ot, oe, a1);
}

/// Reading the canonical string back: parsing what `to_string` writes gives
/// the same capabilities, for every value with a non-zero PCM rate.
pub proof fn lemma_caps_roundtrip(c: Capabilities)
    requires
        c.pcm_max_rate_khz != 0,
    ensures
        spec_parse_caps(spec_caps_string(c)) == Some(c),
{
    let pp = pcm_part(c);
    let opts = optional_parts(c);
    lemma_pcm_part(c);
    lemma_opts_no_comma(c);
    lemma_split_comma_join(pp, opts);
    let single = seq![pp];
    lemma_fold_opt(single, caps_init());
    lemma_caps_fold_concat(single, opts, caps_init());
    lemma_fold_optional(c);
}

} // verus!
