//! The endpoint's status page service: the status it shows, its JSON form,
//! the routes it answers and the device-switch request it accepts. Serving
//! HTTP and drawing the HTML page are done by the caller.

use crate::text::{
    find_char, index_of, push_char, push_chars, push_decimal, str_chars, string_from_range, trim,
    trim_range, decimal, str_eq,
};
use vstd::prelude::*;

verus! {

/// The version the status page reports.
pub const BRIDGE_VERSION: &'static str = "0.3.0";

/// What the status page shows.
#[derive(Debug, Clone)]
pub struct BridgeStatus {
    pub bridge_name: String,
    pub version: String,
    pub current_device: String,
    pub available_devices: Vec<String>,
    pub connected: bool,
    pub controller_name: Option<String>,
    pub stream_format: Option<String>,
    pub stream_sample_rate: Option<u32>,
    pub stream_bits: Option<u8>,
    pub stream_channels: Option<u8>,
    pub track_title: Option<String>,
    pub track_artist: Option<String>,
    pub track_album: Option<String>,
    pub artwork_url: Option<String>,
    pub volume: u8,
    pub playing: bool,
}

impl Default for BridgeStatus {
    fn default() -> (s: Self)
        ensures
            s.bridge_name@ == "Tune Bridge"@,
            s.version@ == BRIDGE_VERSION@,
            s.current_device@ == Seq::<char>::empty(),
            s.available_devices@.len() == 0,
            !s.connected,
            s.controller_name is None,
            s.stream_format is None,
            s.stream_sample_rate is None,
            s.stream_bits is None,
            s.stream_channels is None,
            s.track_title is None,
            s.track_artist is None,
            s.track_album is None,
            s.artwork_url is None,
            s.volume == 100,
            !s.playing,
    {
        BridgeStatus {
            bridge_name: "Tune Bridge".to_owned(),
            version: BRIDGE_VERSION.to_owned(),
            current_device: String::new(),
            available_devices: Vec::new(),
            connected: false,
            controller_name: None,
            stream_format: None,
            stream_sample_rate: None,
            stream_bits: None,
            stream_channels: None,
            track_title: None,
            track_artist: None,
            track_album: None,
            artwork_url: None,
            volume: 100,
            playing: false,
        }
    }
}

// ------------------------------------------------------------------- JSON

/// `"` written as `\"`; nothing else is changed.
pub open spec fn escape_quotes(s: Seq<char>) -> Seq<char>
    decreases s.len(),
{
    if s.len() == 0 {
        Seq::empty()
    } else {
        escape_quotes(s.drop_last()) + if s.last() == '"' {
            seq!['\\', '"']
        } else {
            seq![s.last()]
        }
    }
}

pub open spec fn quoted(s: Seq<char>) -> Seq<char> {
    seq!['"'] + escape_quotes(s) + seq!['"']
}

/// A JSON string, or `null`.
pub open spec fn json_opt(o: Option<String>) -> Seq<char> {
    match o {
        Some(v) => quoted(v@),
        None => "null"@,
    }
}

pub open spec fn json_bool(b: bool) -> Seq<char> {
    if b {
        "true"@
    } else {
        "false"@
    }
}

/// Quoted names separated by commas.
pub open spec fn json_names(ds: Seq<String>) -> Seq<char>
    decreases ds.len(),
{
    if ds.len() == 0 {
        Seq::empty()
    } else if ds.len() == 1 {
        quoted(ds[0]@)
    } else {
        json_names(ds.drop_last()) + seq![','] + quoted(ds.last()@)
    }
}

pub open spec fn opt_num(o: Option<u32>) -> nat {
    match o {
        Some(v) => v as nat,
        None => 0,
    }
}

pub open spec fn opt_small(o: Option<u8>) -> nat {
    match o {
        Some(v) => v as nat,
        None => 0,
    }
}

/// The body of `GET /api/status`: the fields in a fixed order, names and
/// device names with quotes escaped, the version as it is, absent numbers
/// as 0 and absent texts as `null`.
pub open spec fn spec_status_json(s: BridgeStatus) -> Seq<char> {
    "{\"bridge_name\":"@ + quoted(s.bridge_name@) + ",\"version\":\""@ + s.version@
        + "\",\"current_device\":"@ + quoted(s.current_device@) + ",\"available_devices\":["@
        + json_names(s.available_devices@) + "],\"connected\":"@ + json_bool(s.connected)
        + ",\"controller_name\":"@ + json_opt(s.controller_name) + ",\"playing\":"@ + json_bool(
        s.playing,
    ) + ",\"volume\":"@ + decimal(s.volume as nat) + ",\"track_title\":"@ + json_opt(
        s.track_title,
    ) + ",\"track_artist\":"@ + json_opt(s.track_artist) + ",\"track_album\":"@ + json_opt(
        s.track_album,
    ) + ",\"artwork_url\":"@ + json_opt(s.artwork_url) + ",\"stream_format\":"@ + json_opt(
        s.stream_format,
    ) + ",\"stream_sample_rate\":"@ + decimal(opt_num(s.stream_sample_rate))
        + ",\"stream_bits\":"@ + decimal(opt_small(s.stream_bits)) + ",\"stream_channels\":"@
        + decimal(opt_small(s.stream_channels)) + "}"@
}

fn push_lit(s: &mut String, lit: &str)
    ensures
        final(s)@ == old(s)@ + lit@,
{
    let cs = str_chars(lit);
    push_chars(s, cs.as_slice());
}

fn push_quoted(s: &mut String, v: &str)
    ensures
        final(s)@ == old(s)@ + quoted(v@),
{
    let cs = str_chars(v);
    let ghost start = s@;
    push_char(s, '"');
    let mut i: usize = 0;
    while i < cs.len()
        invariant
            i <= cs@.len(),
            cs@ == v@,
            s@ == start + seq!['"'] + escape_quotes(v@.take(i as int)),
        decreases cs@.len() - i,
    {
        proof {
            assert(v@.take(i + 1).drop_last() =~= v@.take(i as int));
            assert(v@.take(i + 1).last() == cs@[i as int]);
        }
        if cs[i] == '"' {
            push_char(s, '\\');
            push_char(s, '"');
        } else {
            push_char(s, cs[i]);
        }
        assert(s@ =~= start + seq!['"'] + escape_quotes(v@.take(i + 1)));
        i += 1;
    }
    assert(v@.take(i as int) =~= v@);
    push_char(s, '"');
    assert(s@ =~= start + quoted(v@));
}

fn push_json_opt(s: &mut String, o: &Option<String>)
    ensures
        final(s)@ == old(s)@ + json_opt(*o),
{
    match o {
        Some(v) => push_quoted(s, v.as_str()),
        None => push_lit(s, "null"),
    }
}

fn push_bool(s: &mut String, b: bool)
    ensures
        final(s)@ == old(s)@ + json_bool(b),
{
    if b {
        push_lit(s, "true")
    } else {
        push_lit(s, "false")
    }
}

fn push_names(s: &mut String, ds: &Vec<String>)
    ensures
        final(s)@ == old(s)@ + json_names(ds@),
{
    let ghost start = s@;
    let mut i: usize = 0;
    while i < ds.len()
        invariant
            i <= ds@.len(),
            s@ == start + json_names(ds@.take(i as int)),
        decreases ds@.len() - i,
    {
        proof {
            assert(ds@.take(i + 1).drop_last() =~= ds@.take(i as int));
            assert(ds@.take(i + 1).last() == ds@[i as int]);
        }
        if i > 0 {
            push_char(s, ',');
        }
        push_quoted(s, ds[i].as_str());
        proof {
            if i == 0 {
                assert(s@ =~= start + json_names(ds@.take(1)));
            } else {
                assert(s@ =~= start + json_names(ds@.take(i + 1)));
            }
        }
        i += 1;
    }
    assert(ds@.take(i as int) =~= ds@);
}

/// The JSON status document (see `spec_status_json`).
pub fn render_status_json(status: &BridgeStatus) -> (j: String)
    ensures
        j@ == spec_status_json(*status),
{
    let mut s = String::new();
    push_lit(&mut s, "{\"bridge_name\":");
    push_quoted(&mut s, status.bridge_name.as_str());
    push_lit(&mut s, ",\"version\":\"");
    push_lit(&mut s, status.version.as_str());
    push_lit(&mut s, "\",\"current_device\":");
    push_quoted(&mut s, status.current_device.as_str());
    push_lit(&mut s, ",\"available_devices\":[");
    push_names(&mut s, &status.available_devices);
    push_lit(&mut s, "],\"connected\":");
    push_bool(&mut s, status.connected);
    push_lit(&mut s, ",\"controller_name\":");
    push_json_opt(&mut s, &status.controller_name);
    push_lit(&mut s, ",\"playing\":");
    push_bool(&mut s, status.playing);
    push_lit(&mut s, ",\"volume\":");
    push_decimal(&mut s, status.volume as u64);
    push_lit(&mut s, ",\"track_title\":");
    push_json_opt(&mut s, &status.track_title);
    push_lit(&mut s, ",\"track_artist\":");
    push_json_opt(&mut s, &status.track_artist);
    push_lit(&mut s, ",\"track_album\":");
    push_json_opt(&mut s, &status.track_album);
    push_lit(&mut s, ",\"artwork_url\":");
    push_json_opt(&mut s, &status.artwork_url);
    push_lit(&mut s, ",\"stream_format\":");
    push_json_opt(&mut s, &status.stream_format);
    push_lit(&mut s, ",\"stream_sample_rate\":");
    let rate: u64 = match status.stream_sample_rate {
        Some(r) => r as u64,
        None => 0,
    };
    push_decimal(&mut s, rate);
    push_lit(&mut s, ",\"stream_bits\":");
    let bits: u64 = match status.stream_bits {
        Some(b) => b as u64,
        None => 0,
    };
    push_decimal(&mut s, bits);
    push_lit(&mut s, ",\"stream_channels\":");
    let ch: u64 = match status.stream_channels {
        Some(c) => c as u64,
        None => 0,
    };
    push_decimal(&mut s, ch);
    push_lit(&mut s, "}");
    assert(s@ =~= spec_status_json(*status));
    s
}

// ----------------------------------------------------------------- routes

/// What a request to the status service asks for.
#[derive(Debug, Clone, Copy, PartialEq, Eq, Structural)]
pub enum Route {
    Page,
    Status,
    SwitchDevice,
    NotFound,
}

/// `GET /` and `GET /index.html` give the page, `GET /api/status` the JSON,
/// `POST /api/device` switches the device; anything else is not found.
pub open spec fn spec_route(method: Seq<char>, path: Seq<char>) -> Route {
    if method == "GET"@ && (path == "/"@ || path == "/index.html"@) {
        Route::Page
    } else if method == "GET"@ && path == "/api/status"@ {
        Route::Status
    } else if method == "POST"@ && path == "/api/device"@ {
        Route::SwitchDevice
    } else {
        Route::NotFound
    }
}

pub fn route(method: &str, path: &str) -> (r: Route)
    ensures
        r == spec_route(method@, path@),
{
    if str_eq(method, "GET") && (str_eq(path, "/") || str_eq(path, "/index.html")) {
        Route::Page
    } else if str_eq(method, "GET") && str_eq(path, "/api/status") {
        Route::Status
    } else if str_eq(method, "POST") && str_eq(path, "/api/device") {
        Route::SwitchDevice
    } else {
        Route::NotFound
    }
}

// ------------------------------------------------------- device switching

pub open spec fn strip_quotes_start(s: Seq<char>) -> Seq<char>
    decreases s.len(),
{
    if s.len() > 0 && s[0] == '"' {
        strip_quotes_start(s.drop_first())
    } else {
        s
    }
}

pub open spec fn strip_quotes_end(s: Seq<char>) -> Seq<char>
    decreases s.len(),
{
    if s.len() > 0 && s.last() == '"' {
        strip_quotes_end(s.drop_last())
    } else {
        s
    }
}

/// The second `:`-separated field of `s`, when there is one.
pub open spec fn second_field(s: Seq<char>) -> Option<Seq<char>> {
    let i = index_of(s, ':');
    if i < s.len() {
        let rest = s.skip(i + 1);
        Some(rest.take(index_of(rest, ':')))
    } else {
        None
    }
}

/// The device a `POST /api/device` body names: the body (trimmed) must be
/// wrapped in braces; the value is the text after the first colon (up to a
/// second one), trimmed and without surrounding quotes; an empty value
/// names nothing.
pub open spec fn spec_requested_device(body: Seq<char>) -> Option<Seq<char>> {
    let t = trim(body);
    if t.len() >= 2 && t[0] == '{' && t.last() == '}' {
        match second_field(t.subrange(1, t.len() - 1)) {
            Some(f) => {
                let v = strip_quotes_end(strip_quotes_start(trim(f)));
                if v.len() > 0 {
                    Some(v)
                } else {
                    None
                }
            },
            None => None,
        }
    } else {
        None
    }
}

/// Bounds within `cs` of `strip_quotes_end(strip_quotes_start(cs[lo..hi]))`.
fn strip_quotes_range(cs: &Vec<char>, lo: usize, hi: usize) -> (r: (usize, usize))
    requires
        lo <= hi <= cs@.len(),
    ensures
        lo <= r.0 <= r.1 <= hi,
        cs@.subrange(r.0 as int, r.1 as int) == strip_quotes_end(
            strip_quotes_start(cs@.subrange(lo as int, hi as int)),
        ),
{
    let mut p = lo;
    while p < hi && cs[p] == '"'
        invariant
            lo <= p <= hi <= cs@.len(),
            strip_quotes_start(cs@.subrange(lo as int, hi as int)) == strip_quotes_start(
                cs@.subrange(p as int, hi as int),
            ),
        decreases hi - p,
    {
        assert(cs@.subrange(p as int, hi as int).drop_first() =~= cs@.subrange(p + 1, hi as int));
        p += 1;
    }
    let mut q = hi;
    while q > p && cs[q - 1] == '"'
        invariant
            lo <= p <= q <= hi <= cs@.len(),
            strip_quotes_end(cs@.subrange(p as int, hi as int)) == strip_quotes_end(
                cs@.subrange(p as int, q as int),
            ),
        decreases q - p,
    {
        assert(cs@.subrange(p as int, q as int).drop_last() =~= cs@.subrange(p as int, q - 1));
        q -= 1;
    }
    (p, q)
}

/// Bounds within `cs` of `second_field(cs[lo..hi])`.
fn second_field_range(cs: &Vec<char>, lo: usize, hi: usize) -> (r: Option<(usize, usize)>)
    requires
        lo <= hi <= cs@.len(),
    ensures
        match second_field(cs@.subrange(lo as int, hi as int)) {
            Some(f) => r matches Some((p, q)) && lo <= p <= q <= hi && cs@.subrange(
                p as int,
                q as int,
            ) == f,
            None => r is None,
        },
{
    let ghost inner = cs@.subrange(lo as int, hi as int);
    let k1 = find_char(cs, lo, hi, ':');
    if k1 == hi {
        return None;
    }
    let k2 = find_char(cs, k1 + 1, hi, ':');
    proof {
        let i = index_of(inner, ':');
        assert(i == k1 - lo);
        let rest = inner.skip(i + 1);
        assert(rest =~= cs@.subrange(k1 + 1, hi as int));
        assert(rest.take(index_of(rest, ':')) =~= cs@.subrange(k1 + 1, k2 as int));
    }
    Some((k1 + 1, k2))
}

pub fn requested_device(body: &str) -> (r: Option<String>)
    ensures
        match spec_requested_device(body@) {
            Some(v) => r matches Some(s) && s@ == v,
            None => r is None,
        },
{
    let cs = str_chars(body);
    let n = cs.len();
    let (a0, b0) = trim_range(&cs, 0, n);
    assert(cs@.subrange(0, n as int) =~= body@);
    let ghost t = trim(body@);
    assert(t == cs@.subrange(a0 as int, b0 as int));
    if !(b0 - a0 >= 2 && cs[a0] == '{' && cs[b0 - 1] == '}') {
        proof {
            if t.len() >= 2 && t[0] == '{' && t.last() == '}' {
                assert(t[0] == cs@[a0 as int]);
                assert(t.last() == cs@[b0 - 1]);
            }
        }
        return None;
    }
    assert(t.subrange(1, t.len() - 1) =~= cs@.subrange(a0 + 1, b0 - 1));
    match second_field_range(&cs, a0 + 1, b0 - 1) {
        None => None,
        Some((f0, f1)) => {
            let (p0, q0) = trim_range(&cs, f0, f1);
            let (p, q) = strip_quotes_range(&cs, p0, q0);
            if p == q {
                None
            } else {
                Some(string_from_range(&cs, p, q))
            }
        },
    }
}

/// The answer to an accepted device switch.
pub fn device_switch_ok_body(name: &str) -> (b: String)
    ensures
        b@ == "{\"ok\":true,\"device\":\""@ + name@ + "\"}"@,
{
    let mut s = String::new();
    push_lit(&mut s, "{\"ok\":true,\"device\":\"");
    push_lit(&mut s, name);
    push_lit(&mut s, "\"}");
    s
}

/// The answer to a device switch that names no device.
pub const DEVICE_SWITCH_ERROR_BODY: &'static str = "{\"ok\":false,\"error\":\"missing device name\"}";

} // verus!
