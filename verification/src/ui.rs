//! Terminal UI text helpers and `host:port` server address parsing.
use vstd::prelude::*;

use crate::i18n::{fill, reps_view, Translator};
use crate::text::{
    is_digit, lemma_decimal_digits, lemma_parse_u16_decimal, trim_end, trim_start,
};
use crate::text::{
    append_chars, chars_of, decimal, decimal_chars, last_pos, parse_u16, parse_u16_chars,
    rfind_char, slice_chars, starts_with, starts_with_at, string_of, strip_all_prefix,
    strip_all_prefix_chars, strip_all_suffix, strip_all_suffix_chars, trim, trim_chars,
};

verus! {

pub const DONE: &'static str = "+";

pub const ARROW: &'static str = ">";

/// Why a server address was refused.
#[derive(Debug, Clone, PartialEq, Eq)]
pub enum AddrError {
    /// Nothing but whitespace was entered.
    AddressRequired,
    /// The host part is empty.
    InvalidHost,
    /// The text after the last `:` is not a port number.
    InvalidPort { port: String },
}

impl AddrError {
    /// The message shown for this error, in the current language.
    pub fn message(&self, tr: &Translator) -> (r: String)
        ensures
            *self == AddrError::AddressRequired ==> r@ == tr.text("error.address_required"@),
            *self == AddrError::InvalidHost ==> r@ == tr.text("error.invalid_host"@),
            self matches AddrError::InvalidPort { port } ==> r@ == fill(
                tr.text("error.invalid_port"@),
                seq![("port"@, port@)],
            ),
    {
        match self {
            AddrError::AddressRequired => tr.t("error.address_required"),
            AddrError::InvalidHost => tr.t("error.invalid_host"),
            AddrError::InvalidPort { port } => {
                let reps = [("port", port.as_str())];
                assert(reps_view(reps@) =~= seq![("port"@, port@)]);
                tr.t_fmt("error.invalid_port", &reps)
            },
        }
    }
}

/// `? {title} >` heading of a menu section.
pub fn section(title: &str) -> (r: String)
    ensures
        r@ == seq!['?', ' '] + title@ + seq![' ', '>'],
{
    let mut v: Vec<char> = vec!['?', ' '];
    let t = chars_of(title);
    append_chars(&mut v, &t);
    v.push(' ');
    v.push('>');
    assert(v@ =~= seq!['?', ' '] + title@ + seq![' ', '>']);
    string_of(&v)
}

/// `+ {label} · {value}` line after a completed step.
pub fn done_line(label: &str, value: &str) -> (r: String)
    ensures
        r@ == seq!['+', ' '] + label@ + seq![' ', '\u{b7}', ' '] + value@,
{
    let mut v: Vec<char> = vec!['+', ' '];
    let l = chars_of(label);
    append_chars(&mut v, &l);
    v.push(' ');
    v.push('\u{b7}');
    v.push(' ');
    let x = chars_of(value);
    append_chars(&mut v, &x);
    assert(v@ =~= seq!['+', ' '] + label@ + seq![' ', '\u{b7}', ' '] + value@);
    string_of(&v)
}

/// `host:port` of a `ws://` / `wss://` URL; any other text trimmed.
pub open spec fn spec_server_addr(url: Seq<char>) -> Seq<char> {
    let s = trim(url);
    if starts_with(s, "ws://"@) || starts_with(s, "wss://"@) {
        strip_all_suffix(
            strip_all_suffix(strip_all_prefix(strip_all_prefix(s, "ws://"@), "wss://"@), "/ws"@),
            "/"@,
        )
    } else {
        s
    }
}

/// The `host:port` of a server URL.
pub fn server_addr_from_url(url: &str) -> (r: String)
    ensures
        r@ == spec_server_addr(url@),
{
    let v = chars_of(url);
    let s = trim_chars(&v);
    let ws = chars_of("ws://");
    let wss = chars_of("wss://");
    let sws = chars_of("/ws");
    let sl = chars_of("/");
    proof {
        reveal_strlit("ws://");
        reveal_strlit("wss://");
        reveal_strlit("/ws");
        reveal_strlit("/");
    }
    assert(s@.skip(0) =~= s@);
    if starts_with_at(&s, 0, &ws) || starts_with_at(&s, 0, &wss) {
        let a = strip_all_prefix_chars(&s, &ws);
        let b = strip_all_prefix_chars(&a, &wss);
        let c = strip_all_suffix_chars(&b, &sws);
        let d = strip_all_suffix_chars(&c, &sl);
        string_of(&d)
    } else {
        string_of(&s)
    }
}

/// Same as `server_addr_from_url`.
pub fn host_from_url(url: &str) -> (r: String)
    ensures
        r@ == spec_server_addr(url@),
{
    server_addr_from_url(url)
}

/// The accepted `host:port` for an address, if it is accepted.
pub open spec fn spec_addr_ok(input: Seq<char>) -> Option<Seq<char>> {
    let n = spec_server_addr(input);
    let k = last_pos(n, ':');
    if trim(input).len() == 0 {
        None
    } else if k == 0 {
        None
    } else if k > 0 {
        match parse_u16(n.skip(k + 1)) {
            Some(p) => Some(n.take(k) + seq![':'] + decimal(p as nat)),
            None => None,
        }
    } else if n.len() == 0 {
        None
    } else {
        Some(n + seq![':', '8', '0', '8', '0'])
    }
}

/// Whether `e` is the error an address is refused with.
pub open spec fn addr_err_for(input: Seq<char>, e: AddrError) -> bool {
    let n = spec_server_addr(input);
    let k = last_pos(n, ':');
    match e {
        AddrError::AddressRequired => trim(input).len() == 0,
        AddrError::InvalidHost => trim(input).len() > 0 && (k == 0 || (k < 0 && n.len() == 0)),
        AddrError::InvalidPort { port } => trim(input).len() > 0 && k > 0 && parse_u16(
            n.skip(k + 1),
        ) is None && port@ == n.skip(k + 1),
    }
}

/// A validated `host:port` (port 8080 when none is given).
pub fn parse_server_addr(input: &str) -> (r: Result<String, AddrError>)
    ensures
        r is Ok <==> spec_addr_ok(input@) is Some,
        r matches Ok(v) ==> v@ == spec_addr_ok(input@)->0,
        r matches Err(e) ==> addr_err_for(input@, e),
{
    let v = chars_of(input);
    let t = trim_chars(&v);
    if t.len() == 0 {
        return Err(AddrError::AddressRequired);
    }
    let normalized_s = server_addr_from_url(input);
    let n = chars_of(normalized_s.as_str());
    let mut out: Vec<char>;
    match rfind_char(&n, ':') {
        Some(k) => {
            if k == 0 {
                return Err(AddrError::InvalidHost);
            }
            let port_str = slice_chars(&n, k + 1, n.len());
            assert(port_str@ =~= n@.skip(k + 1));
            let port = match parse_u16_chars(&port_str) {
                Some(p) => p,
                None => {
                    return Err(AddrError::InvalidPort { port: string_of(&port_str) });
                },
            };
            out = slice_chars(&n, 0, k);
            assert(out@ =~= n@.take(k as int));
            out.push(':');
            let d = decimal_chars(port as u64);
            append_chars(&mut out, &d);
        },
        None => {
            if n.len() == 0 {
                return Err(AddrError::InvalidHost);
            }
            out = slice_chars(&n, 0, n.len());
            assert(out@ =~= n@);
            out.push(':');
            out.push('8');
            out.push('0');
            out.push('8');
            out.push('0');
            assert(out@ =~= n@ + seq![':', '8', '0', '8', '0']);
        },
    }
    Ok(string_of(&out))
}

/// `wss://{host:port}/ws` for a server address.
pub fn wss_url_from_server_addr(addr: &str) -> (r: Result<String, AddrError>)
    ensures
        r is Ok <==> spec_addr_ok(addr@) is Some,
        r matches Ok(u) ==> u@ == "wss://"@ + spec_addr_ok(addr@)->0 + "/ws"@,
        r matches Err(e) ==> addr_err_for(addr@, e),
{
    let a = match parse_server_addr(addr) {
        Ok(a) => a,
        Err(e) => {
            return Err(e);
        },
    };
    let mut v = chars_of("wss://");
    let av = chars_of(a.as_str());
    append_chars(&mut v, &av);
    let tail = chars_of("/ws");
    append_chars(&mut v, &tail);
    Ok(string_of(&v))
}

/// Removing every leading `p` leaves a text that does not start with `p`.
proof fn lemma_strip_prefix_done(s: Seq<char>, p: Seq<char>)
    requires
        p.len() > 0,
    ensures
        !starts_with(strip_all_prefix(s, p), p),
    decreases s.len(),
{
    if p.len() <= s.len() && s.take(p.len() as int) == p {
        lemma_strip_prefix_done(s.skip(p.len() as int), p);
    }
}

/// Removing trailing `p`s leaves a prefix of the text.
proof fn lemma_strip_suffix_prefix(s: Seq<char>, p: Seq<char>)
    ensures
        strip_all_suffix(s, p).len() <= s.len(),
        s.take(strip_all_suffix(s, p).len() as int) == strip_all_suffix(s, p),
    decreases s.len(),
{
    if p.len() > 0 && p.len() <= s.len() && s.skip(s.len() - p.len()) == p {
        let t = s.take(s.len() - p.len());
        lemma_strip_suffix_prefix(t, p);
        let r = strip_all_suffix(t, p);
        assert(s.take(r.len() as int) =~= t.take(r.len() as int));
    } else {
        assert(s.take(s.len() as int) =~= s);
    }
}

/// The last `c` of `a + [c] + d` is the added one when `d` holds no `c`.
proof fn lemma_last_pos_after(a: Seq<char>, c: char, d: Seq<char>)
    requires
        forall|i: int| 0 <= i < d.len() ==> d[i] != c,
    ensures
        last_pos(a + seq![c] + d, c) == a.len(),
    decreases d.len(),
{
    let t = a + seq![c] + d;
    if d.len() == 0 {
        assert(t.last() == c);
    } else {
        assert(t.last() == d.last());
        assert(t.drop_last() =~= a + seq![c] + d.drop_last());
        lemma_last_pos_after(a, c, d.drop_last());
    }
}

/// The last position of `c` lies inside the text (or is -1).
proof fn lemma_last_pos_bound(s: Seq<char>, c: char)
    ensures
        -1 <= last_pos(s, c) < s.len(),
    decreases s.len(),
{
    if s.len() > 0 {
        lemma_last_pos_bound(s.drop_last(), c);
    }
}

/// An accepted address has a non-empty host, `:`, and the decimal port.
proof fn lemma_addr_shape(input: Seq<char>) -> (hp: (Seq<char>, u16))
    requires
        spec_addr_ok(input) is Some,
    ensures
        spec_addr_ok(input)->0 == hp.0 + seq![':'] + decimal(hp.1 as nat),
        hp.0.len() > 0,
        hp.0.len() >= 6 ==> hp.0.take(6) != "wss://"@,
{
    reveal_strlit("wss://");
    reveal_strlit("ws://");
    let n = spec_server_addr(input);
    let k = last_pos(n, ':');
    lemma_last_pos_bound(n, ':');
    let s = trim(input);
    // `n` never starts with `wss://`.
    if starts_with(s, "ws://"@) || starts_with(s, "wss://"@) {
        let p1 = strip_all_prefix(s, "ws://"@);
        let p2 = strip_all_prefix(p1, "wss://"@);
        let q = strip_all_suffix(p2, "/ws"@);
        lemma_strip_prefix_done(p1, "wss://"@);
        lemma_strip_suffix_prefix(p2, "/ws"@);
        lemma_strip_suffix_prefix(q, "/"@);
        if n.len() >= 6 {
            assert(n.take(6) =~= p2.take(6));
        }
    }
    assert(n.len() >= 6 ==> n.take(6) != "wss://"@);
    if k > 0 {
        let head = n.take(k);
        let port = parse_u16(n.skip(k + 1))->0;
        if head.len() >= 6 {
            assert(head.take(6) =~= n.take(6));
        }
        (head, port)
    } else {
        reveal_with_fuel(decimal, 5);
        assert(decimal(8080) =~= seq!['8', '0', '8', '0']);
        assert(n + seq![':', '8', '0', '8', '0'] =~= n + seq![':'] + decimal(8080));
        (n, 8080u16)
    }
}

/// Parsing the `wss://…/ws` URL built from an accepted address gives back the
/// same address.
pub proof fn law_wss_url_round_trip(input: Seq<char>)
    requires
        spec_addr_ok(input) is Some,
    ensures
        spec_addr_ok("wss://"@ + spec_addr_ok(input)->0 + "/ws"@) == spec_addr_ok(input),
{
    reveal_strlit("wss://");
    reveal_strlit("ws://");
    reveal_strlit("/ws");
    reveal_strlit("/");
    let x = spec_addr_ok(input)->0;
    let (head, port) = lemma_addr_shape(input);
    let d = decimal(port as nat);
    lemma_decimal_digits(port as nat);
    lemma_parse_u16_decimal(port);
    let xx = x + "/ws"@;
    let u = "wss://"@ + x + "/ws"@;
    let h = head.len() as int;
    assert(x[h] == ':');
    assert(x.last() == d.last());
    assert(is_digit(d.last()));
    assert(is_digit(d[0]));
    assert(x[h + 1] == d[0]);
    // `x` (and so `xx`) does not start with `wss://`.
    if xx.len() >= 6 && xx.take(6) == "wss://"@ {
        if h >= 6 {
            assert(head.take(6) =~= xx.take(6));
        } else if h == 3 {
            assert(xx.take(6)[4] == xx[4]);
        } else {
            assert(xx.take(6)[h] == xx[h]);
        }
    }
    assert(!starts_with(xx, "wss://"@));
    // The server address of `u` is `x`.
    assert(u[0] == 'w');
    assert(u.last() == 's');
    assert(trim_start(u) == u);
    assert(trim_end(u) == u);
    assert(trim(u) == u);
    assert(u.take(6) =~= "wss://"@);
    assert(u.take(5)[2] != "ws://"@[2]);
    assert(strip_all_prefix(u, "ws://"@) == u);
    assert(u.skip(6) =~= xx);
    assert(strip_all_prefix(xx, "wss://"@) == xx);
    assert(strip_all_prefix(u, "wss://"@) == xx);
    assert(xx.skip(xx.len() - 3) =~= "/ws"@);
    assert(xx.take(xx.len() - 3) =~= x);
    if x.len() >= 3 {
        assert(x.skip(x.len() - 3)[2] == x.last());
    }
    assert(strip_all_suffix(x, "/ws"@) == x);
    assert(strip_all_suffix(xx, "/ws"@) == x);
    assert(x.skip(x.len() - 1)[0] == x.last());
    assert(strip_all_suffix(x, "/"@) == x);
    assert(spec_server_addr(u) == x);
    // Its last `:` is the one before the port.
    assert forall|i: int| 0 <= i < d.len() implies d[i] != ':' by {
        assert(is_digit(d[i]));
    }
    lemma_last_pos_after(head, ':', d);
    assert(x.skip(h + 1) =~= d);
    assert(x.take(h) =~= head);
}

} // verus!
