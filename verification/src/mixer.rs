//! Hardware mixer of ALSA DACs, driven through `amixer`: the commands to
//! run and the reading of their output. Running them is the caller's job.

use crate::text::{
    decimal, decimal_string, find_char, has_prefix, lemma_lines_step, lines_of, parse_unsigned,
    parse_unsigned_range, range_equals, str_chars, strip_cr, strip_prefix, trim, trim_range,
};
use crate::devices::contains_chars;
use crate::text::contains_seq;
use vstd::prelude::*;

verus! {

/// Mixer of one ALSA card.
#[derive(Debug, Clone, Copy)]
pub struct AlsaMixer {
    pub card: u32,
}

/// An `amixer` invocation: its argument list.
#[derive(Debug, Clone)]
pub struct AmixerCommand {
    pub args: Vec<String>,
}

pub open spec fn args_view(c: AmixerCommand) -> Seq<Seq<char>> {
    c.args@.map_values(|a: String| a@)
}

/// `amixer -c <card> cset <control> <value>`.
pub open spec fn spec_cset(card: u32, control: Seq<char>, value: Seq<char>) -> Seq<Seq<char>> {
    seq!["-c"@, decimal(card as nat), "cset"@, control, value]
}

/// `amixer -c <card> cget <control>`.
pub open spec fn spec_cget(card: u32, control: Seq<char>) -> Seq<Seq<char>> {
    seq!["-c"@, decimal(card as nat), "cget"@, control]
}

/// FIR filter names of ESS 9038 DACs, by index.
pub open spec fn fir_names() -> Seq<Seq<char>> {
    seq![
        "brick wall"@,
        "corrected minimum phase fast"@,
        "minimum phase slow"@,
        "minimum phase fast"@,
        "linear phase slow"@,
        "linear phase fast"@,
        "apodizing fast"@,
    ]
}

/// Index of a FIR filter given by name, or by an index no greater than 6.
pub open spec fn spec_fir_index(name: Seq<char>) -> Option<nat> {
    if exists|i: int| 0 <= i < 7 && fir_names()[i] == name {
        Some((choose|i: int| 0 <= i < 7 && fir_names()[i] == name) as nat)
    } else {
        match parse_unsigned(name, u32::MAX as nat) {
            Some(n) => if n <= 6 {
                Some(n)
            } else {
                None
            },
            None => None,
        }
    }
}

/// First line whose trimmed text starts with `: values=`, if any, and what
/// follows that prefix.
pub open spec fn first_values(lines: Seq<Seq<char>>) -> Option<Seq<char>>
    decreases lines.len(),
{
    if lines.len() == 0 {
        None
    } else {
        match strip_prefix(trim(lines[0]), ": values="@) {
            Some(rest) => Some(rest),
            None => first_values(lines.drop_first()),
        }
    }
}

/// The integer `amixer cget` reports on its first `: values=` line (parsed
/// as `u32`); none when that line does not parse or there is no such line.
pub open spec fn spec_int_value(output: Seq<char>) -> Option<nat> {
    match first_values(lines_of(output)) {
        Some(rest) => parse_unsigned(rest, u32::MAX as nat),
        None => None,
    }
}

fn cmd(card: u32, verb: &str, control: &str, value: Option<&str>) -> (c: AmixerCommand)
    ensures
        value is Some ==> args_view(c) == seq!["-c"@, decimal(card as nat), verb@, control@]
            + seq![value->0@],
        value is None ==> args_view(c) == seq!["-c"@, decimal(card as nat), verb@, control@],
{
    let mut args: Vec<String> = Vec::new();
    args.push("-c".to_owned());
    args.push(decimal_string(card as u64));
    args.push(verb.to_owned());
    args.push(control.to_owned());
    if let Some(v) = value {
        args.push(v.to_owned());
    }
    let c = AmixerCommand { args };
    assert(args_view(c) =~= (if value is Some {
        seq!["-c"@, decimal(card as nat), verb@, control@] + seq![value->0@]
    } else {
        seq!["-c"@, decimal(card as nat), verb@, control@]
    }));
    c
}

fn cset(card: u32, control: &str, value: &str) -> (c: AmixerCommand)
    ensures
        args_view(c) == spec_cset(card, control@, value@),
{
    let c = cmd(card, "cset", control, Some(value));
    assert(args_view(c) =~= spec_cset(card, control@, value@));
    c
}

fn cget(card: u32, control: &str) -> (c: AmixerCommand)
    ensures
        args_view(c) == spec_cget(card, control@),
{
    let c = cmd(card, "cget", control, None);
    assert(args_view(c) =~= spec_cget(card, control@));
    c
}

impl AlsaMixer {
    pub fn new(card: u32) -> (m: Self)
        ensures
            m.card == card,
    {
        Self { card }
    }

    /// Sets the hardware volume (control 1), capped at 100.
    pub fn set_volume(&self, level: u8) -> (c: AmixerCommand)
        ensures
            args_view(c) == spec_cset(
                self.card,
                "numid=1"@,
                decimal(
                    (if level > 100 {
                        100
                    } else {
                        level
                    }) as nat,
                ),
            ),
    {
        let level = if level > 100 {
            100
        } else {
            level
        };
        let v = decimal_string(level as u64);
        cset(self.card, "numid=1", v.as_str())
    }

    /// Mutes (`off`) or unmutes (`on`) the output switch (control 2).
    pub fn set_mute(&self, muted: bool) -> (c: AmixerCommand)
        ensures
            args_view(c) == spec_cset(
                self.card,
                "numid=2"@,
                if muted {
                    "off"@
                } else {
                    "on"@
                },
            ),
    {
        let val = if muted {
            "off"
        } else {
            "on"
        };
        cset(self.card, "numid=2", val)
    }

    /// Selects a FIR filter (control 3) by name or index; `None` when the
    /// name is unknown or the index is above 6.
    pub fn set_fir_filter(&self, filter_name: &str) -> (c: Option<AmixerCommand>)
        ensures
            match spec_fir_index(filter_name@) {
                Some(i) => c matches Some(cc) && args_view(cc) == spec_cset(
                    self.card,
                    "numid=3"@,
                    decimal(i),
                ),
                None => c is None,
            },
    {
        let idx = match fir_index(filter_name) {
            Some(i) => i,
            None => {
                return None;
            },
        };
        let v = decimal_string(idx as u64);
        Some(cset(self.card, "numid=3", v.as_str()))
    }

    /// The query whose output `get_volume` reads.
    pub fn volume_query(&self) -> (c: AmixerCommand)
        ensures
            args_view(c) == spec_cget(self.card, "numid=1"@),
    {
        cget(self.card, "numid=1")
    }

    /// The query whose output `get_mute` reads.
    pub fn mute_query(&self) -> (c: AmixerCommand)
        ensures
            args_view(c) == spec_cget(self.card, "numid=2"@),
    {
        cget(self.card, "numid=2")
    }

    /// Volume read from the output of `volume_query`, capped at 100.
    pub fn get_volume(output: &str) -> (v: Option<u8>)
        ensures
            match spec_int_value(output@) {
                Some(n) => v == Some((if n > 100 {
                    100
                } else {
                    n
                }) as u8),
                None => v is None,
            },
    {
        match parse_int_value(output) {
            Some(n) => Some(
                if n > 100 {
                    100
                } else {
                    n as u8
                },
            ),
            None => None,
        }
    }

    /// Mute state read from the output of `mute_query`: `values=off` means
    /// muted, `values=on` unmuted.
    pub fn get_mute(output: &str) -> (m: Option<bool>)
        ensures
            contains_seq(output@, "values=off"@) ==> m == Some(true),
            !contains_seq(output@, "values=off"@) && contains_seq(output@, "values=on"@) ==> m
                == Some(false),
            !contains_seq(output@, "values=off"@) && !contains_seq(output@, "values=on"@) ==> m
                is None,
    {
        let v = str_chars(output);
        let off = str_chars("values=off");
        let on = str_chars("values=on");
        if contains_chars(&v, &off) {
            Some(true)
        } else if contains_chars(&v, &on) {
            Some(false)
        } else {
            None
        }
    }

    /// Commands that prepare the DAC: unmute, then the FIR filter when one
    /// is configured and valid, then the volume query (for reporting).
    pub fn init(&self, fir_filter: Option<&str>) -> (cs: Vec<AmixerCommand>)
        ensures
            cs@.len() >= 2,
            args_view(cs@[0]) == spec_cset(self.card, "numid=2"@, "on"@),
            args_view(cs@.last()) == spec_cget(self.card, "numid=1"@),
            cs@.len() == 3 <==> (fir_filter matches Some(f) && spec_fir_index(f@) is Some),
            cs@.len() == 3 ==> args_view(cs@[1]) == spec_cset(
                self.card,
                "numid=3"@,
                decimal(spec_fir_index(fir_filter->0@)->0),
            ),
    {
        let mut cs: Vec<AmixerCommand> = Vec::new();
        cs.push(self.set_mute(false));
        if let Some(f) = fir_filter {
            if let Some(c) = self.set_fir_filter(f) {
                cs.push(c);
            }
        }
        cs.push(self.volume_query());
        cs
    }
}

fn fir_index(name: &str) -> (r: Option<u32>)
    ensures
        match spec_fir_index(name@) {
            Some(i) => r == Some(i as u32),
            None => r is None,
        },
{
    let v = str_chars(name);
    let names: [&str; 7] = [
        "brick wall",
        "corrected minimum phase fast",
        "minimum phase slow",
        "minimum phase fast",
        "linear phase slow",
        "linear phase fast",
        "apodizing fast",
    ];
    let mut i: usize = 0;
    while i < 7
        invariant
            i <= 7,
            v@ == name@,
            forall|k: int| 0 <= k < 7 ==> (#[trigger] names@[k])@ == fir_names()[k],
            forall|k: int| 0 <= k < i ==> fir_names()[k] != name@,
        decreases 7 - i,
    {
        let n = str_chars(names[i]);
        if range_equals(&v, 0, v.len(), n.as_slice()) {
            proof {
                assert(v@.subrange(0, v@.len() as int) =~= v@);
                assert(fir_names()[i as int] == name@);
                let c = choose|k: int| 0 <= k < 7 && fir_names()[k] == name@;
                lemma_fir_names_distinct(c, i as int);
            }
            return Some(i as u32);
        }
        assert(v@.subrange(0, v@.len() as int) =~= v@);
        i += 1;
    }
    match parse_unsigned_range(&v, 0, v.len(), 0xffff_ffff) {
        Some(n) => {
            assert(v@.subrange(0, v@.len() as int) =~= v@);
            if n <= 6 {
                Some(n as u32)
            } else {
                None
            }
        },
        None => {
            assert(v@.subrange(0, v@.len() as int) =~= v@);
            None
        },
    }
}

proof fn lemma_fir_names_distinct(a: int, b: int)
    requires
        0 <= a < 7,
        0 <= b < 7,
        fir_names()[a] == fir_names()[b],
    ensures
        a == b,
{
    reveal_strlit("brick wall");
    reveal_strlit("corrected minimum phase fast");
    reveal_strlit("minimum phase slow");
    reveal_strlit("minimum phase fast");
    reveal_strlit("linear phase slow");
    reveal_strlit("linear phase fast");
    reveal_strlit("apodizing fast");
    let x = fir_names()[a];
    let y = fir_names()[b];
    if a != b {
        assert(x.len() != y.len() || x[0] != y[0] || x[9] != y[9] || x[15] != y[15]);
    }
}

/// The integer on the first `: values=` line of `amixer cget` output.
pub fn parse_int_value(output: &str) -> (r: Option<u32>)
    ensures
        match spec_int_value(output@) {
            Some(n) => r == Some(n as u32),
            None => r is None,
        },
{
    let v = str_chars(output);
    let prefix = str_chars(": values=");
    proof {
        reveal_strlit(": values=");
    }
    assert(prefix@.len() == 9);
    let mut pos: usize = 0;
    assert(v@.skip(0) =~= v@);
    loop
        invariant
            v@ == output@,
            prefix@ == ": values="@,
            prefix@.len() == 9,
            pos <= v@.len(),
            first_values(lines_of(v@)) == first_values(lines_of(v@.skip(pos as int))),
        decreases v@.len() - pos,
    {
        let k = find_char(&v, pos, v.len(), '\n');
        proof {
            lemma_lines_step(v@, pos as int, k as int);
        }
        if k == v.len() && pos == k {
            return None;
        }
        let end = if k < v.len() && k > pos && v[k - 1] == '\r' {
            k - 1
        } else {
            k
        };
        let ghost line = v@.subrange(pos as int, end as int);
        proof {
            if k < v@.len() {
                assert(strip_cr(v@.subrange(pos as int, k as int)) =~= line);
            } else {
                assert(line == v@.subrange(pos as int, k as int));
            }
            let ls = lines_of(v@.skip(pos as int));
            assert(ls[0] == line);
        }
        let (a, b) = trim_range(&v, pos, end);
        if has_prefix(&v, a, b, prefix.as_slice()) {
            proof {
                assert(v@.subrange(a as int, b as int).skip(9) =~= v@.subrange(a + 9, b as int));
            }
            return match parse_unsigned_range(&v, a + 9, b, 0xffff_ffff) {
                Some(n) => Some(n as u32),
                None => None,
            };
        }
        proof {
            let ls = lines_of(v@.skip(pos as int));
            if k < v@.len() {
                assert(ls.drop_first() =~= lines_of(v@.skip(k + 1)));
            } else {
                assert(ls.drop_first() =~= Seq::<Seq<char>>::empty());
                assert(first_values(ls.drop_first()) == None::<Seq<char>>);
            }
        }
        if k == v.len() {
            return None;
        }
        pos = k + 1;
    }
}

} // verus!
