//! Bound sockets, from the `/proc/net/{tcp,udp}{,6}` tables.

use vstd::prelude::*;
use vstd::string::StringExecFns;

use crate::diagnostics::{lemma_lex_lt_asymmetric, lemma_lex_lt_total, lemma_lex_lt_transitive, lex_lt, lex_lt_exec};
use crate::snapshot::ListeningPort;
use crate::text::{
    char_views, chars_eq, chars_of, decimal, filter_map, join, lemma_filter_map_step, lines, lit,
    push_char, push_decimal, push_str, split_lines, split_once, split_once_chars, split_tokens,
    string_from_chars, tokens,
};

verus! {

/// The value of a hexadecimal digit.
pub open spec fn hex_digit(c: char) -> Option<nat> {
    if '0' <= c && c <= '9' {
        Some((c as nat - '0' as nat) as nat)
    } else if 'a' <= c && c <= 'f' {
        Some((c as nat - 'a' as nat + 10) as nat)
    } else if 'A' <= c && c <= 'F' {
        Some((c as nat - 'A' as nat + 10) as nat)
    } else {
        None
    }
}

/// `s` is made of hexadecimal digits only.
pub open spec fn all_hex(s: Seq<char>) -> bool {
    forall|i: int| 0 <= i < s.len() ==> (#[trigger] hex_digit(s[i])) is Some
}

/// The value of a string of hexadecimal digits.
pub open spec fn hex_value(s: Seq<char>) -> nat
    decreases s.len(),
{
    if s.len() == 0 {
        0
    } else {
        hex_value(s.drop_last()) * 16 + match hex_digit(s.last()) {
            Some(d) => d,
            None => 0,
        }
    }
}

/// What `from_str_radix(s, 16)` gives for an unsigned type whose largest
/// value is `max`: an optional `+`, then one or more hexadecimal digits
/// whose value is at most `max`.
pub open spec fn parse_hex(s: Seq<char>, max: nat) -> Option<nat> {
    let d = if s.len() > 0 && s[0] == '+' {
        s.drop_first()
    } else {
        s
    };
    if d.len() > 0 && all_hex(d) && hex_value(d) <= max {
        Some(hex_value(d))
    } else {
        None
    }
}

proof fn lemma_hex_value_grows(s: Seq<char>, i: int)
    requires
        0 <= i <= s.len(),
        all_hex(s),
    ensures
        hex_value(s.take(i)) <= hex_value(s),
    decreases s.len() - i,
{
    if i < s.len() {
        lemma_hex_value_grows(s, i + 1);
        assert(s.take(i + 1).drop_last() == s.take(i));
    } else {
        assert(s.take(i) == s);
    }
}

fn hex_digit_exec(c: char) -> (r: Option<u64>)
    ensures
        match hex_digit(c) {
            Some(d) => r == Some(d as u64),
            None => r is None,
        },
{
    if '0' <= c && c <= '9' {
        Some((c as u32 - '0' as u32) as u64)
    } else if 'a' <= c && c <= 'f' {
        Some((c as u32 - 'a' as u32 + 10) as u64)
    } else if 'A' <= c && c <= 'F' {
        Some((c as u32 - 'A' as u32 + 10) as u64)
    } else {
        None
    }
}

/// Parse `s` as [`parse_hex`] says.
pub fn parse_hex_exec(s: &Vec<char>, max: u64) -> (r: Option<u64>)
    ensures
        match parse_hex(s@, max as nat) {
            Some(v) => r == Some(v as u64),
            None => r is None,
        },
{
    let n = s.len();
    let start: usize = if n > 0 && s[0] == '+' {
        1
    } else {
        0
    };
    let ghost d = if s@.len() > 0 && s@[0] == '+' {
        s@.drop_first()
    } else {
        s@
    };
    assert(d == s@.subrange(start as int, n as int));
    if start == n {
        return None;
    }
    let mut v: u64 = 0;
    for i in start..n
        invariant
            n == s@.len(),
            start < n,
            d == s@.subrange(start as int, n as int),
            d == (if s@.len() > 0 && s@[0] == '+' {
                s@.drop_first()
            } else {
                s@
            }),
            all_hex(d.take(i - start)),
            v == hex_value(d.take(i - start)),
            v <= max,
    {
        let c = s[i];
        proof {
            let t = d.take(i - start + 1);
            assert(t.drop_last() == d.take(i - start));
            assert(t.last() == c);
        }
        let digit = match hex_digit_exec(c) {
            Some(x) => x,
            None => {
                assert(!all_hex(d)) by {
                    assert(d[i - start] == c);
                    assert(hex_digit(d[i - start]) is None);
                }
                return None;
            },
        };
        assert(hex_value(d.take(i - start + 1)) == v * 16 + digit);
        if digit > max || v > (max - digit) / 16 {
            proof {
                assert(v * 16 + digit > max) by (nonlinear_arith)
                    requires
                        digit > max || v > (max - digit) / 16,
                        digit <= 15,
                ;
                assert(all_hex(d.take(i - start + 1)));
                if all_hex(d) {
                    lemma_hex_value_grows(d, i - start + 1);
                }
            }
            return None;
        }
        assert(v * 16 + digit <= max) by (nonlinear_arith)
            requires
                v <= (max - digit) / 16,
                digit <= max,
        ;
        v = v * 16 + digit;
    }
    assert(d.take(n - start) == d);
    Some(v)
}

/// The four octets of a little-endian 32-bit word, in memory order.
pub open spec fn octets(w: nat) -> Seq<nat> {
    seq![w % 256, (w / 256) % 256, (w / 65536) % 256, (w / 16777216) % 256]
}

/// Dotted-quad text for four octets.
pub open spec fn dotted(o: Seq<nat>) -> Seq<char> {
    decimal(o[0]) + "."@ + decimal(o[1]) + "."@ + decimal(o[2]) + "."@ + decimal(o[3])
}

/// A `/proc/net` IPv4 address (hex of a little-endian word) as text and
/// whether it is loopback (127.x.x.x); text that does not parse is kept as
/// it is, and counts as not loopback.
pub open spec fn decode_v4(hex: Seq<char>) -> (Seq<char>, bool) {
    match parse_hex(hex, 0xFFFF_FFFF) {
        Some(w) => (dotted(octets(w)), octets(w)[0] == 127),
        None => (hex, false),
    }
}

fn push_octets(out: &mut String, w: u64)
    requires
        w <= 0xFFFF_FFFF,
    ensures
        final(out)@ == old(out)@ + dotted(octets(w as nat)),
{
    push_decimal(out, w % 256);
    push_str(out, ".");
    push_decimal(out, (w / 256) % 256);
    push_str(out, ".");
    push_decimal(out, (w / 65536) % 256);
    push_str(out, ".");
    push_decimal(out, (w / 16777216) % 256);
}

fn decode_v4_exec(hex: &Vec<char>) -> (r: (String, bool))
    ensures
        (r.0@, r.1) == decode_v4(hex@),
{
    match parse_hex_exec(hex, 0xFFFF_FFFF) {
        Some(w) => {
            let mut s = String::new();
            push_octets(&mut s, w);
            (s, w % 256 == 127)
        },
        None => (string_from_chars(hex), false),
    }
}

/// The 16 bytes of a `/proc/net` IPv6 address: four little-endian words.
pub open spec fn v6_bytes(words: Seq<nat>) -> Seq<nat> {
    octets(words[0]) + octets(words[1]) + octets(words[2]) + octets(words[3])
}

/// The eight 16-bit groups of 16 bytes, big-endian.
pub open spec fn groups(b: Seq<nat>) -> Seq<nat> {
    Seq::new(8, |i: int| b[2 * i] * 256 + b[2 * i + 1])
}

/// A 16-bit group in lowercase hexadecimal without leading zeros.
pub open spec fn hex_group(n: nat) -> Seq<char>
    decreases n,
{
    if n < 16 {
        seq![hex_char(n)]
    } else {
        hex_group(n / 16).push(hex_char(n % 16))
    }
}

/// The lowercase hexadecimal digit for `d` (0..=15).
pub open spec fn hex_char(d: nat) -> char {
    if d < 10 {
        (('0' as nat) + d) as char
    } else {
        (('a' as nat) + d - 10) as char
    }
}

/// Groups joined with colons.
pub open spec fn groups_text(g: Seq<nat>) -> Seq<char> {
    join(g.map_values(|n: nat| hex_group(n)), ":"@)
}

/// The longest run of zero groups at or after `i` given the run in
/// progress and the longest so far, scanning left to right; a later run
/// replaces the longest only when strictly longer.
pub open spec fn zero_span_from(
    g: Seq<nat>,
    i: int,
    cur: (int, int),
    best: (int, int),
) -> (int, int)
    decreases g.len() - i,
{
    if i < 0 || i >= g.len() {
        best
    } else if g[i] == 0 {
        let c = if cur.1 == 0 {
            (i, 1int)
        } else {
            (cur.0, cur.1 + 1)
        };
        zero_span_from(
            g,
            i + 1,
            c,
            if c.1 > best.1 {
                c
            } else {
                best
            },
        )
    } else {
        zero_span_from(g, i + 1, (0, 0), best)
    }
}

/// The first longest run of zero groups, as (start, length).
pub open spec fn zero_span(g: Seq<nat>) -> (int, int) {
    zero_span_from(g, 0, (0, 0), (0, 0))
}

/// The address an IPv6 address maps, when it is `::ffff:a.b.c.d`.
pub open spec fn is_v4_mapped(g: Seq<nat>) -> bool {
    g[0] == 0 && g[1] == 0 && g[2] == 0 && g[3] == 0 && g[4] == 0 && g[5] == 0xffff
}

/// An IPv6 address as text (RFC 5952): a v4-mapped address as
/// `::ffff:a.b.c.d`; otherwise the groups in lowercase hex, with the first
/// longest run of two or more zero groups written as `::`.
pub open spec fn v6_text(b: Seq<nat>) -> Seq<char> {
    let g = groups(b);
    if is_v4_mapped(g) {
        "::ffff:"@ + dotted(b.subrange(12, 16))
    } else {
        let (st, ln) = zero_span(g);
        if ln > 1 {
            groups_text(g.take(st)) + "::"@ + groups_text(g.skip(st + ln))
        } else {
            groups_text(g)
        }
    }
}

/// Whether an IPv6 address is loopback: `::1`, or a v4-mapped 127.x.x.x.
pub open spec fn v6_loopback(b: Seq<nat>) -> bool {
    let g = groups(b);
    (g[0] == 0 && g[1] == 0 && g[2] == 0 && g[3] == 0 && g[4] == 0 && g[5] == 0 && g[6] == 0
        && g[7] == 1) || (is_v4_mapped(g) && b[12] == 127)
}

/// The four words of a 32-character hex address, if each parses.
pub open spec fn v6_words(hex: Seq<char>) -> Option<Seq<nat>> {
    if hex.len() != 32 {
        None
    } else {
        match (
            parse_hex(hex.subrange(0, 8), 0xFFFF_FFFF),
            parse_hex(hex.subrange(8, 16), 0xFFFF_FFFF),
            parse_hex(hex.subrange(16, 24), 0xFFFF_FFFF),
            parse_hex(hex.subrange(24, 32), 0xFFFF_FFFF),
        ) {
            (Some(a), Some(b), Some(c), Some(d)) => Some(seq![a, b, c, d]),
            _ => None,
        }
    }
}

/// A `/proc/net` IPv6 address as text and whether it is loopback; text
/// that is not 32 hex digits is kept as it is, and counts as not loopback.
pub open spec fn decode_v6(hex: Seq<char>) -> (Seq<char>, bool) {
    match v6_words(hex) {
        Some(w) => (v6_text(v6_bytes(w)), v6_loopback(v6_bytes(w))),
        None => (hex, false),
    }
}

/// The values of a list of unsigned integers.
pub open spec fn nats(v: Seq<u64>) -> Seq<nat> {
    v.map_values(|x: u64| x as nat)
}

fn hex_char_exec(d: u64) -> (c: char)
    requires
        d < 16,
    ensures
        c == hex_char(d as nat),
{
    let t: [char; 16] = ['0', '1', '2', '3', '4', '5', '6', '7', '8', '9', 'a', 'b', 'c', 'd', 'e', 'f'];
    proof {
        assert(t@[d as int] == hex_char(d as nat)) by {
            if d < 10 {
                assert(t@[d as int] == (('0' as nat) + d) as char);
            } else {
                assert(t@[d as int] == (('a' as nat) + d - 10) as char);
            }
        }
    }
    t[d as usize]
}

fn push_hex_group(out: &mut String, n: u64)
    ensures
        final(out)@ == old(out)@ + hex_group(n as nat),
    decreases n,
{
    if n < 16 {
        push_char(out, hex_char_exec(n));
    } else {
        push_hex_group(out, n / 16);
        push_char(out, hex_char_exec(n % 16));
    }
}

/// Append `g[a..b]` as colon-separated groups.
fn push_groups(out: &mut String, g: &Vec<u64>, a: usize, b: usize)
    requires
        a <= b <= g@.len(),
    ensures
        final(out)@ == old(out)@ + groups_text(nats(g@).subrange(a as int, b as int)),
{
    let ghost start = out@;
    for i in a..b
        invariant
            b <= g@.len(),
            out@ == start + groups_text(nats(g@).subrange(a as int, i as int)),
    {
        proof {
            let ps = nats(g@).subrange(a as int, i + 1).map_values(|n: nat| hex_group(n));
            let qs = nats(g@).subrange(a as int, i as int).map_values(|n: nat| hex_group(n));
            assert(ps.drop_last() =~= qs);
            assert(ps.last() == hex_group(g@[i as int] as nat));
            if i == a {
                assert(ps.len() == 1);
            }
        }
        if i > a {
            push_str(out, ":");
        }
        push_hex_group(out, g[i]);
    }
}

fn decode_v6_exec(hex: &Vec<char>) -> (r: (String, bool))
    ensures
        (r.0@, r.1) == decode_v6(hex@),
{
    if hex.len() != 32 {
        return (string_from_chars(hex), false);
    }
    let mut words: Vec<u64> = Vec::new();
    for k in 0..4
        invariant
            hex@.len() == 32,
            words@.len() == k,
            forall|j: int|
                0 <= j < k ==> parse_hex(hex@.subrange(8 * j, 8 * j + 8), 0xFFFF_FFFF) == Some(
                    #[trigger] words@[j] as nat,
                ),
    {
        let part = crate::text::slice_chars(hex, 8 * k, 8 * k + 8);
        match parse_hex_exec(&part, 0xFFFF_FFFF) {
            Some(w) => words.push(w),
            None => {
                assert(v6_words(hex@) is None);
                return (string_from_chars(hex), false);
            },
        }
    }
    let ghost ws = seq![words@[0] as nat, words@[1] as nat, words@[2] as nat, words@[3] as nat];
    assert(v6_words(hex@) == Some(ws));
    let mut bytes: Vec<u64> = Vec::new();
    for k in 0..4
        invariant
            words@.len() == 4,
            forall|j: int| 0 <= j < 4 ==> #[trigger] words@[j] <= 0xFFFF_FFFF,
            bytes@.len() == 4 * k,
            forall|j: int| 0 <= j < 4 * k ==> #[trigger] bytes@[j] < 256,
            forall|m: int, q: int|
                0 <= m < k && 0 <= q < 4 ==> bytes@[4 * m + q] as nat == #[trigger] octets(
                    words@[m] as nat,
                )[q],
    {
        let w = words[k];
        bytes.push(w % 256);
        bytes.push((w / 256) % 256);
        bytes.push((w / 65536) % 256);
        bytes.push((w / 16777216) % 256);
    }
    assert(nats(bytes@) =~= v6_bytes(ws)) by {
        assert forall|j: int| 0 <= j < 16 implies nats(bytes@)[j] == v6_bytes(ws)[j] by {
            let m = j / 4;
            let q = j % 4;
            assert(j == 4 * m + q);
            assert(bytes@[4 * m + q] as nat == octets(words@[m] as nat)[q]);
        }
    }
    let ghost b = v6_bytes(ws);
    let mut g: Vec<u64> = Vec::new();
    for i in 0..8
        invariant
            bytes@.len() == 16,
            nats(bytes@) == b,
            forall|j: int| 0 <= j < 16 ==> #[trigger] bytes@[j] < 256,
            g@.len() == i,
            nats(g@) == groups(b).take(i as int),
    {
        let ghost before = g@;
        assert(b[2 * i as int] == bytes@[2 * i as int] as nat);
        assert(b[2 * i as int + 1] == bytes@[2 * i as int + 1] as nat);
        let x = bytes[2 * i] * 256 + bytes[2 * i + 1];
        g.push(x);
        assert(groups(b)[i as int] == b[2 * i as int] * 256 + b[2 * i as int + 1]);
        assert(nats(g@)[i as int] == x as nat);
        assert(nats(g@) =~= groups(b).take(i + 1)) by {
            assert forall|j: int| 0 <= j < i + 1 implies nats(g@)[j] == groups(b).take(i + 1)[j] by {
                if j < i {
                    assert(nats(g@)[j] == nats(before)[j]);
                }
            }
        }
    }
    assert(groups(b).take(8) =~= groups(b));
    let ghost gs = groups(b);
    let loopback = (g[0] == 0 && g[1] == 0 && g[2] == 0 && g[3] == 0 && g[4] == 0 && g[5] == 0
        && g[6] == 0 && g[7] == 1) || (g[0] == 0 && g[1] == 0 && g[2] == 0 && g[3] == 0 && g[4]
        == 0 && g[5] == 0xffff && bytes[12] == 127);
    let mut s = String::new();
    if g[0] == 0 && g[1] == 0 && g[2] == 0 && g[3] == 0 && g[4] == 0 && g[5] == 0xffff {
        push_str(&mut s, "::ffff:");
        let w3 = words[3];
        push_octets(&mut s, w3);
        assert(b.subrange(12, 16) =~= octets(ws[3]));
        return (s, loopback);
    }
    let mut cur_s: usize = 0;
    let mut cur_l: usize = 0;
    let mut best_s: usize = 0;
    let mut best_l: usize = 0;
    for i in 0..8
        invariant
            g@.len() == 8,
            nats(g@) == gs,
            cur_s + cur_l <= i,
            best_s + best_l <= 8,
            zero_span_from(gs, i as int, (cur_s as int, cur_l as int), (best_s as int, best_l as int))
                == zero_span(gs),
    {
        if g[i] == 0 {
            if cur_l == 0 {
                cur_s = i;
                cur_l = 1;
            } else {
                cur_l = cur_l + 1;
            }
            if cur_l > best_l {
                best_s = cur_s;
                best_l = cur_l;
            }
        } else {
            cur_s = 0;
            cur_l = 0;
        }
    }
    if best_l > 1 {
        push_groups(&mut s, &g, 0, best_s);
        push_str(&mut s, "::");
        push_groups(&mut s, &g, best_s + best_l, 8);
        assert(nats(g@).subrange(0, best_s as int) =~= gs.take(best_s as int));
        assert(nats(g@).subrange(best_s + best_l, 8) =~= gs.skip(best_s + best_l));
    } else {
        push_groups(&mut s, &g, 0, 8);
        assert(nats(g@).subrange(0, 8) =~= gs);
    }
    (s, loopback)
}

/// What one row of a `/proc/net` table says: protocol, address, port and
/// whether it is reachable from the network.
pub type PortView = (Seq<char>, Seq<char>, nat, bool);

/// What a listening port says.
pub open spec fn port_view(p: ListeningPort) -> PortView {
    (p.proto@, p.address@, p.port as nat, p.exposed)
}

/// The socket a table row describes: its local address (second column)
/// split at `:` into address and hex port, for TCP only when the state
/// (fourth column) is `0A` (listening); nothing for port 0, an unbound
/// socket.
pub open spec fn row_port(line: Seq<char>, proto: Seq<char>, v6: bool, listening_only: bool) -> Option<
    PortView,
> {
    let cols = tokens(line);
    if cols.len() < 4 {
        None
    } else if listening_only && cols[3] != "0A"@ {
        None
    } else {
        match split_once(cols[1], ':') {
            Some((addr, hport)) => match parse_hex(hport, 0xFFFF) {
                Some(port) => if port == 0 {
                    None
                } else {
                    let (text, loopback) = if v6 {
                        decode_v6(addr)
                    } else {
                        decode_v4(addr)
                    };
                    Some((proto, text, port, !loopback))
                },
                None => None,
            },
            None => None,
        }
    }
}

/// [`row_port`] as a function value.
pub open spec fn row_fn(proto: Seq<char>, v6: bool, listening_only: bool) -> spec_fn(
    Seq<char>,
) -> Option<PortView> {
    |l: Seq<char>| row_port(l, proto, v6, listening_only)
}

/// The sockets a table lists, after its header line.
pub open spec fn table_ports(content: Seq<char>, proto: Seq<char>, v6: bool, listening_only: bool) -> Seq<
    PortView,
> {
    let ls = lines(content);
    filter_map(
        if ls.len() > 0 {
            ls.drop_first()
        } else {
            ls
        },
        row_fn(proto, v6, listening_only),
    )
}

fn row_exec(line: &Vec<char>, proto: &'static str, v6: bool, listening_only: bool) -> (r: Option<
    ListeningPort,
>)
    ensures
        match r {
            Some(p) => row_port(line@, proto@, v6, listening_only) == Some(port_view(p)),
            None => row_port(line@, proto@, v6, listening_only) is None,
        },
{
    let cols = split_tokens(line);
    if cols.len() < 4 {
        return None;
    }
    assert(char_views(cols@)[3] == cols@[3]@);
    assert(char_views(cols@)[1] == cols@[1]@);
    if listening_only && !crate::text::chars_eq(&cols[3], &lit("0A")) {
        return None;
    }
    let (addr, hport) = match split_once_chars(&cols[1], ':') {
        Some(parts) => parts,
        None => return None,
    };
    let port = match parse_hex_exec(&hport, 0xFFFF) {
        Some(p) => p,
        None => return None,
    };
    if port == 0 {
        return None;
    }
    let (address, loopback) = if v6 {
        decode_v6_exec(&addr)
    } else {
        decode_v4_exec(&addr)
    };
    Some(ListeningPort { proto, address, port: port as u16, exposed: !loopback })
}

fn parse_proc_net(content: &str, proto: &'static str, v6: bool, listening_only: bool) -> (r: Vec<
    ListeningPort,
>)
    ensures
        r@.map_values(|p: ListeningPort| port_view(p)) == table_ports(
            content@,
            proto@,
            v6,
            listening_only,
        ),
{
    let all = split_lines(&chars_of(content));
    let ghost ls = lines(content@);
    let ghost body = if ls.len() > 0 {
        ls.drop_first()
    } else {
        ls
    };
    let ghost f = row_fn(proto@, v6, listening_only);
    let mut r: Vec<ListeningPort> = Vec::new();
    if all.len() == 0 {
        assert(r@.map_values(|p: ListeningPort| port_view(p)) =~= Seq::<PortView>::empty());
        return r;
    }
    for i in 1..all.len()
        invariant
            char_views(all@) == ls,
            ls.len() > 0,
            body == ls.drop_first(),
            f == row_fn(proto@, v6, listening_only),
            r@.map_values(|p: ListeningPort| port_view(p)) == filter_map(body.take(i - 1), f),
    {
        proof {
            lemma_filter_map_step(body, f, i - 1);
            assert(body[i - 1] == all@[i as int]@);
        }
        match row_exec(&all[i], proto, v6, listening_only) {
            Some(p) => {
                let ghost before = r@;
                r.push(p);
                assert(r@.map_values(|p: ListeningPort| port_view(p)) =~= before.map_values(
                    |p: ListeningPort| port_view(p),
                ).push(port_view(p)));
            },
            None => {},
        }
    }
    assert(body.take(all@.len() - 1) =~= body);
    r
}

/// Listening sockets from `/proc/net/tcp` or `/proc/net/tcp6`.
pub fn parse_proc_net_tcp(content: &str, proto: &'static str, v6: bool) -> (r: Vec<ListeningPort>)
    ensures
        r@.map_values(|p: ListeningPort| port_view(p)) == table_ports(content@, proto@, v6, true),
{
    parse_proc_net(content, proto, v6, true)
}

/// Bound sockets from `/proc/net/udp` or `/proc/net/udp6`: UDP has no
/// listening state, and every row is a socket bound to a local port.
pub fn parse_proc_net_udp(content: &str, proto: &'static str, v6: bool) -> (r: Vec<ListeningPort>)
    ensures
        r@.map_values(|p: ListeningPort| port_view(p)) == table_ports(content@, proto@, v6, false),
{
    parse_proc_net(content, proto, v6, false)
}

// ----- one row per socket kind -----

/// Two sockets of the same kind: same port, protocol and exposure.
pub open spec fn same_kind(a: ListeningPort, b: ListeningPort) -> bool {
    a.port == b.port && a.proto@ == b.proto@ && a.exposed == b.exposed
}

/// The order of the listing: by port, then protocol, then loopback-only
/// before exposed.
pub open spec fn kind_before(a: ListeningPort, b: ListeningPort) -> bool {
    a.port < b.port || (a.port == b.port && (lex_lt(a.proto@, b.proto@) || (a.proto@ == b.proto@
        && !a.exposed && b.exposed)))
}

/// `a`'s address is `b`'s or sorts before it.
pub open spec fn address_at_most(a: ListeningPort, b: ListeningPort) -> bool {
    a.address@ == b.address@ || lex_lt(a.address@, b.address@)
}

/// Sockets listed in [`kind_before`] order, hence one per kind.
pub open spec fn sorted_kinds(r: Seq<ListeningPort>) -> bool {
    forall|i: int, j: int| 0 <= i < j < r.len() ==> kind_before(#[trigger] r[i], #[trigger] r[j])
}

/// Every socket of `r` is one of `input`.
pub open spec fn drawn_from(r: Seq<ListeningPort>, input: Seq<ListeningPort>) -> bool {
    forall|i: int| 0 <= i < r.len() ==> input.contains(#[trigger] r[i])
}

/// Every socket of `input` has one of its kind in `r`, at an address that
/// is its own or sorts before it.
pub open spec fn covers(r: Seq<ListeningPort>, input: Seq<ListeningPort>) -> bool {
    forall|k: int| 0 <= k < input.len() ==> has_cover(r, #[trigger] input[k])
}

/// `r` has a socket of `q`'s kind at an address that is `q`'s or sorts
/// before it.
pub open spec fn has_cover(r: Seq<ListeningPort>, q: ListeningPort) -> bool {
    exists|i: int| 0 <= i < r.len() && same_kind(#[trigger] r[i], q) && address_at_most(r[i], q)
}

/// What the port listing keeps of `input`: one socket per kind, the one
/// whose address sorts first, listed in [`kind_before`] order.
pub open spec fn deduplicated(r: Seq<ListeningPort>, input: Seq<ListeningPort>) -> bool {
    sorted_kinds(r) && drawn_from(r, input) && covers(r, input)
}

proof fn lemma_kind_order(a: ListeningPort, b: ListeningPort, c: ListeningPort)
    ensures
        kind_before(a, b) && kind_before(b, c) ==> kind_before(a, c),
        !(kind_before(a, b) && kind_before(b, a)),
        !kind_before(a, a),
        !same_kind(a, b) ==> kind_before(a, b) || kind_before(b, a),
        same_kind(a, b) ==> !kind_before(a, b),
        kind_before(a, b) && same_kind(b, c) ==> kind_before(a, c),
        same_kind(a, b) && kind_before(b, c) ==> kind_before(a, c),
{
    lemma_lex_lt_total(a.proto@, b.proto@);
    lemma_lex_lt_total(b.proto@, a.proto@);
    lemma_lex_lt_asymmetric(a.proto@, b.proto@);
    if lex_lt(a.proto@, b.proto@) && lex_lt(b.proto@, c.proto@) {
        lemma_lex_lt_transitive(a.proto@, b.proto@, c.proto@);
    }
}

fn port_kind_before(a: &ListeningPort, b: &ListeningPort) -> (r: bool)
    ensures
        r == kind_before(*a, *b),
{
    if a.port != b.port {
        return a.port < b.port;
    }
    let pa = chars_of(a.proto);
    let pb = chars_of(b.proto);
    if lex_lt_exec(&pa, &pb) {
        return true;
    }
    if chars_eq(&pa, &pb) {
        !a.exposed && b.exposed
    } else {
        false
    }
}

fn port_same_kind(a: &ListeningPort, b: &ListeningPort) -> (r: bool)
    ensures
        r == same_kind(*a, *b),
{
    a.port == b.port && crate::text::str_eq(a.proto, b.proto) && a.exposed == b.exposed
}

proof fn lemma_drawn_push(r: Seq<ListeningPort>, seen: Seq<ListeningPort>, x: ListeningPort)
    requires
        drawn_from(r, seen),
    ensures
        drawn_from(r, seen.push(x)),
{
    assert forall|i: int| 0 <= i < r.len() implies seen.push(x).contains(#[trigger] r[i]) by {
        let k = choose|k: int| 0 <= k < seen.len() && seen[k] == r[i];
        assert(seen.push(x)[k] == r[i]);
    }
}

proof fn lemma_sorted_replace(before: Seq<ListeningPort>, x: ListeningPort, p: int)
    requires
        sorted_kinds(before),
        0 <= p < before.len(),
        same_kind(before[p], x),
    ensures
        sorted_kinds(before.update(p, x)),
{
    let r = before.update(p, x);
    assert forall|i: int, j: int| 0 <= i < j < r.len() implies kind_before(#[trigger] r[i], #[trigger] r[j]) by {
        assert(kind_before(before[i], before[j]));
        if i == p {
            lemma_kind_order(x, before[p], before[j]);
        }
        if j == p {
            lemma_kind_order(before[i], before[p], x);
        }
    }
}

proof fn lemma_drawn_replace(before: Seq<ListeningPort>, seen: Seq<ListeningPort>, x: ListeningPort, p: int)
    requires
        drawn_from(before, seen),
        0 <= p < before.len(),
    ensures
        drawn_from(before.update(p, x), seen.push(x)),
{
    let r = before.update(p, x);
    let seen2 = seen.push(x);
    lemma_drawn_push(before, seen, x);
    assert forall|i: int| 0 <= i < r.len() implies seen2.contains(#[trigger] r[i]) by {
        if i == p {
            assert(seen2[seen.len() as int] == x);
        } else {
            assert(seen2.contains(before[i]));
        }
    }
}

proof fn lemma_covers_replace(before: Seq<ListeningPort>, seen: Seq<ListeningPort>, x: ListeningPort, p: int, r: Seq<ListeningPort>)
    requires
        r == before.update(p, x),
        covers(before, seen),
        0 <= p < before.len(),
        same_kind(before[p], x),
        lex_lt(x.address@, before[p].address@),
    ensures
        covers(r, seen.push(x)),
{
    let seen2 = seen.push(x);
    let old_p = before[p];
    assert forall|k: int| 0 <= k < seen2.len() implies has_cover(r, #[trigger] seen2[k]) by {
        if k == seen.len() {
            assert(same_kind(r[p], seen2[k]) && address_at_most(r[p], seen2[k]));
        } else {
            assert(seen2[k] == seen[k]);
            assert(has_cover(before, seen[k]));
            let i = choose|i: int|
                0 <= i < before.len() && same_kind(#[trigger] before[i], seen[k]) && address_at_most(before[i], seen[k]);
            if i == p {
                if lex_lt(old_p.address@, seen[k].address@) {
                    lemma_lex_lt_transitive(x.address@, old_p.address@, seen[k].address@);
                }
                assert(same_kind(r[p], seen2[k]) && address_at_most(r[p], seen2[k]));
            } else {
                assert(r[i] == before[i]);
                assert(same_kind(r[i], seen2[k]) && address_at_most(r[i], seen2[k]));
            }
        }
    }

}

proof fn lemma_covers_keep(before: Seq<ListeningPort>, seen: Seq<ListeningPort>, x: ListeningPort, p: int)
    requires
        covers(before, seen),
        0 <= p < before.len(),
        same_kind(before[p], x),
        !lex_lt(x.address@, before[p].address@),
    ensures
        covers(before, seen.push(x)),
{
    let seen2 = seen.push(x);
    assert forall|k: int| 0 <= k < seen2.len() implies has_cover(before, #[trigger] seen2[k]) by {
        if k == seen.len() {
            lemma_lex_lt_total(x.address@, before[p].address@);
            assert(same_kind(before[p], seen2[k]) && address_at_most(before[p], seen2[k]));
        } else {
            assert(seen2[k] == seen[k]);
        }
    }

}

proof fn lemma_sorted_insert(before: Seq<ListeningPort>, x: ListeningPort, p: int)
    requires
        sorted_kinds(before),
        0 <= p <= before.len(),
        forall|k: int| 0 <= k < p ==> kind_before(#[trigger] before[k], x),
        p < before.len() ==> kind_before(x, before[p]),
    ensures
        sorted_kinds(before.insert(p, x)),
{
    let r = before.insert(p, x);
    assert forall|i: int, j: int| 0 <= i < j < r.len() implies kind_before(#[trigger] r[i], #[trigger] r[j]) by {
        if j < p {
            assert(r[i] == before[i] && r[j] == before[j]);
        } else if j == p {
            assert(r[i] == before[i]);
        } else if i < p {
            assert(r[i] == before[i] && r[j] == before[j - 1]);
            assert(kind_before(before[i], before[j - 1]));
        } else if i == p {
            assert(r[j] == before[j - 1]);
            if j - 1 > p {
                assert(kind_before(before[p], before[j - 1]));
                lemma_kind_order(x, before[p], before[j - 1]);
            }
        } else {
            assert(r[i] == before[i - 1] && r[j] == before[j - 1]);
            assert(kind_before(before[i - 1], before[j - 1]));
        }
    }
}

proof fn lemma_drawn_insert(before: Seq<ListeningPort>, seen: Seq<ListeningPort>, x: ListeningPort, p: int)
    requires
        drawn_from(before, seen),
        0 <= p <= before.len(),
    ensures
        drawn_from(before.insert(p, x), seen.push(x)),
{
    let r = before.insert(p, x);
    let seen2 = seen.push(x);
    lemma_drawn_push(before, seen, x);
    assert forall|i: int| 0 <= i < r.len() implies seen2.contains(#[trigger] r[i]) by {
        if i == p {
            assert(seen2[seen.len() as int] == x);
        } else {
            let bi = if i < p { i } else { i - 1 };
            assert(r[i] == before[bi]);
            assert(seen2.contains(before[bi]));
        }
    }
}

proof fn lemma_covers_insert(before: Seq<ListeningPort>, seen: Seq<ListeningPort>, x: ListeningPort, p: int, r: Seq<ListeningPort>)
    requires
        r == before.insert(p, x),
        covers(before, seen),
        0 <= p <= before.len(),
    ensures
        covers(r, seen.push(x)),
{
    let seen2 = seen.push(x);
    assert forall|k: int| 0 <= k < seen2.len() implies has_cover(r, #[trigger] seen2[k]) by {
        if k == seen.len() {
            assert(r[p] == x);
            assert(same_kind(r[p], seen2[k]) && address_at_most(r[p], seen2[k]));
        } else {
            assert(seen2[k] == seen[k]);
            assert(has_cover(before, seen[k]));
            let i = choose|i: int|
                0 <= i < before.len() && same_kind(#[trigger] before[i], seen[k]) && address_at_most(before[i], seen[k]);
            let ri = if i < p { i } else { i + 1 };
            assert(r[ri] == before[i]);
            assert(same_kind(r[ri], seen2[k]) && address_at_most(r[ri], seen2[k]));
        }
    }

}

fn insert_port(r: &mut Vec<ListeningPort>, x: ListeningPort, Ghost(seen): Ghost<Seq<ListeningPort>>)
    requires
        deduplicated(old(r)@, seen),
    ensures
        deduplicated(final(r)@, seen.push(x)),
{
    let ghost before = r@;
    let mut p: usize = 0;
    while p < r.len() && port_kind_before(&r[p], &x)
        invariant
            p <= r@.len(),
            r@ == before,
            forall|k: int| 0 <= k < p ==> kind_before(#[trigger] r@[k], x),
        decreases r@.len() - p,
    {
        p = p + 1;
    }
    if p < r.len() && port_same_kind(&r[p], &x) {
        let ax = chars_of(x.address.as_str());
        let ar = chars_of(r[p].address.as_str());
        if lex_lt_exec(&ax, &ar) {
            proof {
                lemma_sorted_replace(before, x, p as int);
                lemma_drawn_replace(before, seen, x, p as int);
            }
            r.set(p, x);
            proof {
                lemma_covers_replace(before, seen, x, p as int, r@);
            }
        } else {
            proof {
                lemma_drawn_push(before, seen, x);
                lemma_covers_keep(before, seen, x, p as int);
            }
        }
    } else {
        proof {
            if p < before.len() {
                lemma_kind_order(before[p as int], x, x);
            }
            lemma_sorted_insert(before, x, p as int);
            lemma_drawn_insert(before, seen, x, p as int);
        }
        r.insert(p, x);
        proof {
            lemma_covers_insert(before, seen, x, p as int, r@);
        }
    }
}

/// The sockets of `ports`, one per kind (see [`deduplicated`]): sorting on
/// the whole row and keeping the first of each kind makes the listing
/// independent of the order the kernel reported them in.
pub fn dedup_ports(ports: Vec<ListeningPort>) -> (r: Vec<ListeningPort>)
    ensures
        deduplicated(r@, ports@),
{
    let ghost all = ports@;
    let total = ports.len();
    let mut r: Vec<ListeningPort> = Vec::new();
    let mut rest = ports;
    let mut consumed: usize = 0;
    assert(rest@ == all.skip(0));
    while rest.len() > 0
        invariant
            consumed + rest@.len() == all.len(),
            all.len() == total,
            rest@ == all.skip(consumed as int),
            deduplicated(r@, all.take(consumed as int)),
        decreases rest@.len(),
    {
        let x = rest.remove(0);
        assert(x == all[consumed as int]);
        assert(all.take(consumed + 1) == all.take(consumed as int).push(x));
        insert_port(&mut r, x, Ghost(all.take(consumed as int)));
        consumed = consumed + 1;
        assert(rest@ =~= all.skip(consumed as int));
    }
    assert(all.take(all.len() as int) == all);
    r
}

} // verus!
