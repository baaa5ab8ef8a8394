//! The wire protocol spoken with the remapper over its control socket: UTF-8
//! JSON, one message per write, with exactly one outbound and one inbound
//! message shape.
//!
//! Outbound command:      `{"ChangeLayer":{"new":"<layer>"}}`
//! Inbound notification:  `{"LayerChange":{"new":"<layer>"}}`
//!
//! A layer name is an arbitrary string; inside the message it stands in the
//! canonical JSON string encoding (quote, backslash and control characters
//! escaped, all other characters literal). Any inbound text that is not
//! exactly the canonical encoding of a notification is a protocol violation.

use vstd::arithmetic::div_mod::lemma_fundamental_div_mod;
use vstd::prelude::*;

use crate::text::chars_of;
use crate::text::string_from_chars;

verus! {

/// A notification the remapper sends: it has changed to layer `new`.
#[derive(Debug, PartialEq, Eq)]
pub enum ServerMessage {
    LayerChange { new: String },
}

/// A command sent to the remapper: change to layer `new`.
#[derive(Debug, PartialEq, Eq)]
pub enum ClientMessage {
    ChangeLayer { new: String },
}

/// The one unrecoverable wire fault: inbound text that is not a well-formed
/// notification. The remapper promises well-formed messages, so this is a
/// broken peer contract, not a condition to retry.
#[derive(Clone, Copy, Debug, PartialEq, Eq, Structural)]
pub enum ProtocolError {
    Malformed,
}

/// The lower-case hex digit for a value below 16.
pub open spec fn hex_digit(n: nat) -> char {
    if n == 0 {
        '0'
    } else if n == 1 {
        '1'
    } else if n == 2 {
        '2'
    } else if n == 3 {
        '3'
    } else if n == 4 {
        '4'
    } else if n == 5 {
        '5'
    } else if n == 6 {
        '6'
    } else if n == 7 {
        '7'
    } else if n == 8 {
        '8'
    } else if n == 9 {
        '9'
    } else if n == 10 {
        'a'
    } else if n == 11 {
        'b'
    } else if n == 12 {
        'c'
    } else if n == 13 {
        'd'
    } else if n == 14 {
        'e'
    } else {
        'f'
    }
}

/// Whether `c` is a lower-case hex digit.
pub open spec fn is_hex_lower(c: char) -> bool {
    ('0' <= c && c <= '9') || ('a' <= c && c <= 'f')
}

/// The value of a lower-case hex digit.
pub open spec fn hex_value(c: char) -> nat {
    if '0' <= c && c <= '9' {
        (c as u32 - '0' as u32) as nat
    } else {
        (c as u32 - 'a' as u32 + 10) as nat
    }
}

/// The control characters that have a short escape of their own.
pub open spec fn has_short_escape(v: nat) -> bool {
    v == 8 || v == 9 || v == 10 || v == 12 || v == 13
}

/// The canonical JSON encoding of one character inside a string: quote and
/// backslash escaped, the five short-escape control characters in their short
/// form, every other control character as `\u00` and two lower-case hex
/// digits, everything else literal.
pub open spec fn escape_char(c: char) -> Seq<char> {
    if c == '"' {
        seq!['\\', '"']
    } else if c == '\\' {
        seq!['\\', '\\']
    } else if c == '\u{8}' {
        seq!['\\', 'b']
    } else if c == '\t' {
        seq!['\\', 't']
    } else if c == '\n' {
        seq!['\\', 'n']
    } else if c == '\u{c}' {
        seq!['\\', 'f']
    } else if c == '\r' {
        seq!['\\', 'r']
    } else if (c as u32) < 0x20 {
        seq!['\\', 'u', '0', '0', hex_digit((c as u32 / 16) as nat), hex_digit((c as u32 % 16) as nat)]
    } else {
        seq![c]
    }
}

/// The canonical JSON encoding of a whole string body.
pub open spec fn escape_string(s: Seq<char>) -> Seq<char>
    decreases s.len(),
{
    if s.len() == 0 {
        Seq::empty()
    } else {
        escape_char(s[0]) + escape_string(s.drop_first())
    }
}

/// The exact text of an outbound command on the wire.
pub open spec fn client_message_text(m: ClientMessage) -> Seq<char> {
    "{\"ChangeLayer\":{\"new\":\""@ + escape_string(m->ChangeLayer_new@) + "\"}}"@
}

/// The exact text of an inbound notification on the wire.
pub open spec fn server_message_text(m: ServerMessage) -> Seq<char> {
    "{\"LayerChange\":{\"new\":\""@ + escape_string(m->LayerChange_new@) + "\"}}"@
}

proof fn lemma_escape_string_push(s: Seq<char>, c: char)
    ensures
        escape_string(s.push(c)) == escape_string(s) + escape_char(c),
    decreases s.len(),
{
    if s.len() == 0 {
        assert(s.push(c)[0] == c);
        assert(s.push(c).drop_first() =~= Seq::<char>::empty());
        assert(escape_char(c) + escape_string(Seq::empty()) =~= escape_char(c));
        assert(escape_string(s) + escape_char(c) =~= escape_char(c));
    } else {
        assert(s.push(c)[0] == s[0]);
        assert(s.push(c).drop_first() =~= s.drop_first().push(c));
        lemma_escape_string_push(s.drop_first(), c);
        assert(escape_char(s[0]) + (escape_string(s.drop_first()) + escape_char(c)) =~= (escape_char(
            s[0],
        ) + escape_string(s.drop_first())) + escape_char(c));
    }
}

/// The lower-case hex digit of a value below 16.
fn hex_digit_exec(v: u8) -> (c: char)
    requires
        v < 16,
    ensures
        c == hex_digit(v as nat),
{
    match v {
        0 => '0',
        1 => '1',
        2 => '2',
        3 => '3',
        4 => '4',
        5 => '5',
        6 => '6',
        7 => '7',
        8 => '8',
        9 => '9',
        10 => 'a',
        11 => 'b',
        12 => 'c',
        13 => 'd',
        14 => 'e',
        _ => 'f',
    }
}

/// The canonical JSON encoding of the characters of a string body.
fn escape_chars(s: &Vec<char>) -> (r: Vec<char>)
    ensures
        r@ == escape_string(s@),
{
    let mut r: Vec<char> = Vec::new();
    let mut i: usize = 0;
    proof {
        assert(s@.take(0) =~= Seq::<char>::empty());
    }
    while i < s.len()
        invariant
            i <= s@.len(),
            r@ == escape_string(s@.take(i as int)),
        decreases s@.len() - i,
    {
        let c = s[i];
        proof {
            assert(s@.take(i + 1) =~= s@.take(i as int).push(c));
            lemma_escape_string_push(s@.take(i as int), c);
        }
        let ghost r_pre = r@;
        if c == '"' {
            r.push('\\');
            r.push('"');
        } else if c == '\\' {
            r.push('\\');
            r.push('\\');
        } else if c == '\u{8}' {
            r.push('\\');
            r.push('b');
        } else if c == '\t' {
            r.push('\\');
            r.push('t');
        } else if c == '\n' {
            r.push('\\');
            r.push('n');
        } else if c == '\u{c}' {
            r.push('\\');
            r.push('f');
        } else if c == '\r' {
            r.push('\\');
            r.push('r');
        } else if (c as u32) < 0x20 {
            let v = c as u32;
            r.push('\\');
            r.push('u');
            r.push('0');
            r.push('0');
            r.push(hex_digit_exec((v / 16) as u8));
            r.push(hex_digit_exec((v % 16) as u8));
        } else {
            r.push(c);
        }
        proof {
            assert(r@ =~= r_pre + escape_char(c));
        }
        i = i + 1;
    }
    proof {
        assert(s@.take(s@.len() as int) =~= s@);
    }
    r
}

/// `Some(seq![c] + t)` when `rest` is `Some(t)`, else `None`.
pub open spec fn prepend(c: char, rest: Option<Seq<char>>) -> Option<Seq<char>> {
    match rest {
        Some(t) => Some(seq![c] + t),
        None => None,
    }
}

/// The code a canonical `\u00xy` escape denotes.
pub open spec fn hex_code(hi: char, lo: char) -> nat {
    16 * hex_value(hi) + hex_value(lo)
}

/// The inverse of [`escape_string`]: the string body a canonically escaped
/// text denotes, or `None` when the text is not the canonical encoding of any
/// body (a bare quote, backslash or control character; an unknown or
/// non-canonical escape).
pub open spec fn unescape(s: Seq<char>) -> Option<Seq<char>>
    decreases s.len(),
{
    if s.len() == 0 {
        Some(Seq::empty())
    } else if s[0] == '\\' {
        if s.len() >= 2 && s[1] == '"' {
            prepend('"', unescape(s.skip(2)))
        } else if s.len() >= 2 && s[1] == '\\' {
            prepend('\\', unescape(s.skip(2)))
        } else if s.len() >= 2 && s[1] == 'b' {
            prepend('\u{8}', unescape(s.skip(2)))
        } else if s.len() >= 2 && s[1] == 't' {
            prepend('\t', unescape(s.skip(2)))
        } else if s.len() >= 2 && s[1] == 'n' {
            prepend('\n', unescape(s.skip(2)))
        } else if s.len() >= 2 && s[1] == 'f' {
            prepend('\u{c}', unescape(s.skip(2)))
        } else if s.len() >= 2 && s[1] == 'r' {
            prepend('\r', unescape(s.skip(2)))
        } else if s.len() >= 6 && s[1] == 'u' && s[2] == '0' && s[3] == '0' && is_hex_lower(s[4])
            && is_hex_lower(s[5]) && hex_code(s[4], s[5]) < 0x20 && !has_short_escape(
            hex_code(s[4], s[5]),
        ) {
            prepend(hex_code(s[4], s[5]) as char, unescape(s.skip(6)))
        } else {
            None
        }
    } else if (s[0] as u32) < 0x20 || s[0] == '"' {
        None
    } else {
        prepend(s[0], unescape(s.skip(1)))
    }
}

/// A control code cast to `char` keeps its value. The solver only knows the
/// cast of a value it can name as a `char`, so the table names each one.
proof fn lemma_low_char_cast(v: nat)
    requires
        v < 0x20,
    ensures
        (v as char) as u32 == v,
{
    let c: char = if v == 0x0 {
        '\u{0}'
    } else if v == 0x1 {
        '\u{1}'
    } else if v == 0x2 {
        '\u{2}'
    } else if v == 0x3 {
        '\u{3}'
    } else if v == 0x4 {
        '\u{4}'
    } else if v == 0x5 {
        '\u{5}'
    } else if v == 0x6 {
        '\u{6}'
    } else if v == 0x7 {
        '\u{7}'
    } else if v == 0x8 {
        '\u{8}'
    } else if v == 0x9 {
        '\u{9}'
    } else if v == 0xa {
        '\u{a}'
    } else if v == 0xb {
        '\u{b}'
    } else if v == 0xc {
        '\u{c}'
    } else if v == 0xd {
        '\u{d}'
    } else if v == 0xe {
        '\u{e}'
    } else if v == 0xf {
        '\u{f}'
    } else if v == 0x10 {
        '\u{10}'
    } else if v == 0x11 {
        '\u{11}'
    } else if v == 0x12 {
        '\u{12}'
    } else if v == 0x13 {
        '\u{13}'
    } else if v == 0x14 {
        '\u{14}'
    } else if v == 0x15 {
        '\u{15}'
    } else if v == 0x16 {
        '\u{16}'
    } else if v == 0x17 {
        '\u{17}'
    } else if v == 0x18 {
        '\u{18}'
    } else if v == 0x19 {
        '\u{19}'
    } else if v == 0x1a {
        '\u{1a}'
    } else if v == 0x1b {
        '\u{1b}'
    } else if v == 0x1c {
        '\u{1c}'
    } else if v == 0x1d {
        '\u{1d}'
    } else if v == 0x1e {
        '\u{1e}'
    } else {
        '\u{1f}'
    };
    assert(c as u32 == v);
    vstd::utf8::char_u32_cast(c, v as u32);
}

proof fn lemma_hex_roundtrip(n: nat)
    requires
        n < 16,
    ensures
        is_hex_lower(hex_digit(n)),
        hex_value(hex_digit(n)) == n,
{
}

proof fn lemma_hex_digit_of_value(c: char)
    requires
        is_hex_lower(c),
    ensures
        hex_value(c) < 16,
        hex_digit(hex_value(c)) == c,
{
}

/// Law: unescaping the canonical escape of any string body yields that body
/// back: every string has a wire form, and it decodes to itself.
pub proof fn lemma_unescape_escape(s: Seq<char>)
    ensures
        unescape(escape_string(s)) == Some(s),
    decreases s.len(),
{
    if s.len() == 0 {
        assert(escape_string(s) =~= Seq::<char>::empty());
    } else {
        let c = s[0];
        let e = escape_char(c);
        let rest = escape_string(s.drop_first());
        let x = escape_string(s);
        assert(x == e + rest);
        lemma_unescape_escape(s.drop_first());
        assert(x.skip(e.len() as int) =~= rest);
        assert(seq![c] + s.drop_first() =~= s);
        if c == '"' || c == '\\' || c == '\u{8}' || c == '\t' || c == '\n' || c == '\u{c}' || c
            == '\r' {
            assert(unescape(x) == prepend(c, unescape(rest)));
        } else if (c as u32) < 0x20 {
            let v = c as u32;
            lemma_hex_roundtrip((v / 16) as nat);
            lemma_hex_roundtrip((v % 16) as nat);
            lemma_fundamental_div_mod(v as int, 16);
            assert(hex_code(x[4], x[5]) == v);
            vstd::utf8::char_u32_cast(c, v);
            assert(v as char == c);
            assert(unescape(x) == prepend(c, unescape(rest)));
        } else {
            assert(x[0] == c);
            assert(unescape(x) == prepend(c, unescape(rest)));
        }
    }
}

/// Law: a text that unescapes to some string body is exactly that body's
/// canonical escape: the wire form of a layer name is unique.
pub proof fn lemma_escape_unescape(x: Seq<char>, s: Seq<char>)
    requires
        unescape(x) == Some(s),
    ensures
        x == escape_string(s),
    decreases x.len(),
{
    if x.len() == 0 {
        assert(x =~= escape_string(s));
    } else if x[0] == '\\' {
        if x.len() >= 2 && (x[1] == '"' || x[1] == '\\' || x[1] == 'b' || x[1] == 't' || x[1]
            == 'n' || x[1] == 'f' || x[1] == 'r') {
            let c: char = if x[1] == '"' {
                '"'
            } else if x[1] == '\\' {
                '\\'
            } else if x[1] == 'b' {
                '\u{8}'
            } else if x[1] == 't' {
                '\t'
            } else if x[1] == 'n' {
                '\n'
            } else if x[1] == 'f' {
                '\u{c}'
            } else {
                '\r'
            };
            let t = unescape(x.skip(2))->0;
            assert(s == seq![c] + t);
            assert(s[0] == c);
            assert(s.drop_first() =~= t);
            lemma_escape_unescape(x.skip(2), t);
            assert(escape_char(c) =~= seq![x[0], x[1]]);
            assert(x =~= escape_char(c) + x.skip(2));
        } else if x.len() >= 6 && x[1] == 'u' && x[2] == '0' && x[3] == '0' && is_hex_lower(x[4])
            && is_hex_lower(x[5]) && hex_code(x[4], x[5]) < 0x20 && !has_short_escape(
            hex_code(x[4], x[5]),
        ) {
            let v = hex_code(x[4], x[5]);
            let c = v as char;
            let t = unescape(x.skip(6))->0;
            assert(s == seq![c] + t);
            assert(s[0] == c);
            assert(s.drop_first() =~= t);
            lemma_escape_unescape(x.skip(6), t);
            lemma_low_char_cast(v);
            assert(c as u32 == v);
            lemma_hex_digit_of_value(x[4]);
            lemma_hex_digit_of_value(x[5]);
            assert(hex_value(x[5]) < 16);
            lemma_fundamental_div_mod(v as int, 16);
            assert(v / 16 == hex_value(x[4]));
            assert(v % 16 == hex_value(x[5]));
            assert(escape_char(c) =~= seq![x[0], x[1], x[2], x[3], x[4], x[5]]);
            assert(x =~= escape_char(c) + x.skip(6));
        } else {
            assert(unescape(x) is None);
        }
    } else if (x[0] as u32) < 0x20 || x[0] == '"' {
        assert(unescape(x) is None);
    } else {
        let c = x[0];
        let t = unescape(x.skip(1))->0;
        assert(s == seq![c] + t);
        assert(s[0] == c);
        assert(s.drop_first() =~= t);
        lemma_escape_unescape(x.skip(1), t);
        assert(escape_char(c) =~= seq![c]);
        assert(x =~= escape_char(c) + x.skip(1));
    }
}

/// Law: the wire text determines the message: two notifications with the same
/// text carry the same layer name.
pub proof fn lemma_server_message_text_injective(m1: ServerMessage, m2: ServerMessage)
    requires
        server_message_text(m1) == server_message_text(m2),
    ensures
        m1->LayerChange_new@ == m2->LayerChange_new@,
{
    let p = "{\"LayerChange\":{\"new\":\""@;
    let q = "\"}}"@;
    let e1 = escape_string(m1->LayerChange_new@);
    let e2 = escape_string(m2->LayerChange_new@);
    assert(server_message_text(m1) == p + e1 + q);
    assert(server_message_text(m2) == p + e2 + q);
    assert((p + e1 + q).len() == p.len() + e1.len() + q.len());
    assert((p + e2 + q).len() == p.len() + e2.len() + q.len());
    assert(e1.len() == e2.len());
    assert(e1 =~= e2) by {
        assert forall|i: int| 0 <= i < e1.len() implies e1[i] == e2[i] by {
            assert(server_message_text(m1)[p.len() + i] == e1[i]);
            assert(server_message_text(m2)[p.len() + i] == e2[i]);
        }
    }
    lemma_unescape_escape(m1->LayerChange_new@);
    lemma_unescape_escape(m2->LayerChange_new@);
}

/// `Some(prefix + t)` when `rest` is `Some(t)`, else `None`: the part of the
/// body already decoded, in front of what the rest of the text denotes.
spec fn opt_prepend(prefix: Seq<char>, rest: Option<Seq<char>>) -> Option<Seq<char>> {
    match rest {
        Some(t) => Some(prefix + t),
        None => None,
    }
}

/// Whether `c` is a lower-case hex digit.
fn is_hex_lower_exec(c: char) -> (r: bool)
    ensures
        r == is_hex_lower(c),
{
    ('0' <= c && c <= '9') || ('a' <= c && c <= 'f')
}

/// The value of a lower-case hex digit.
fn hex_value_exec(c: char) -> (r: u8)
    requires
        is_hex_lower(c),
    ensures
        r as nat == hex_value(c),
        r < 16,
{
    let u = c as u32;
    if '0' <= c && c <= '9' {
        (u - 48) as u8
    } else {
        (u - 97 + 10) as u8
    }
}

/// Decodes a canonically escaped string body, or reports that the text is not
/// the canonical encoding of any body.
fn unescape_chars(s: &Vec<char>) -> (r: Option<Vec<char>>)
    ensures
        match r {
            Some(out) => unescape(s@) == Some(out@),
            None => unescape(s@) is None,
        },
{
    let n = s.len();
    let mut out: Vec<char> = Vec::new();
    let mut i: usize = 0;
    proof {
        assert(s@.skip(0) =~= s@);
        if unescape(s@) is Some {
            assert(Seq::<char>::empty() + unescape(s@)->0 =~= unescape(s@)->0);
        }
    }
    while i < n
        invariant
            n == s@.len(),
            i <= n,
            unescape(s@) == opt_prepend(out@, unescape(s@.skip(i as int))),
        decreases n - i,
    {
        let ghost tail = s@.skip(i as int);
        let ghost out_pre = out@;
        proof {
            assert(tail[0] == s@[i as int]);
        }
        let c = s[i];
        let step: usize;
        if c == '\\' {
            if n - i < 2 {
                proof {
                    assert(unescape(tail) is None);
                }
                return None;
            }
            proof {
                assert(tail[1] == s@[i + 1]);
            }
            let e = s[i + 1];
            if e == '"' {
                out.push('"');
                step = 2;
            } else if e == '\\' {
                out.push('\\');
                step = 2;
            } else if e == 'b' {
                out.push('\u{8}');
                step = 2;
            } else if e == 't' {
                out.push('\t');
                step = 2;
            } else if e == 'n' {
                out.push('\n');
                step = 2;
            } else if e == 'f' {
                out.push('\u{c}');
                step = 2;
            } else if e == 'r' {
                out.push('\r');
                step = 2;
            } else if e == 'u' {
                if n - i < 6 {
                    proof {
                        assert(unescape(tail) is None);
                    }
                    return None;
                }
                proof {
                    assert(tail[2] == s@[i + 2]);
                    assert(tail[3] == s@[i + 3]);
                    assert(tail[4] == s@[i + 4]);
                    assert(tail[5] == s@[i + 5]);
                }
                let h2 = s[i + 2];
                let h3 = s[i + 3];
                let h4 = s[i + 4];
                let h5 = s[i + 5];
                if !(h2 == '0' && h3 == '0' && is_hex_lower_exec(h4) && is_hex_lower_exec(h5)) {
                    proof {
                        assert(unescape(tail) is None);
                    }
                    return None;
                }
                let v: u8 = 16 * hex_value_exec(h4) + hex_value_exec(h5);
                proof {
                    assert(v as nat == hex_code(tail[4], tail[5]));
                }
                if !(v < 0x20 && v != 8 && v != 9 && v != 10 && v != 12 && v != 13) {
                    proof {
                        assert(unescape(tail) is None);
                    }
                    return None;
                }
                out.push(v as char);
                step = 6;
            } else {
                proof {
                    assert(unescape(tail) is None);
                }
                return None;
            }
        } else if (c as u32) < 0x20 || c == '"' {
            proof {
                assert(unescape(tail) is None);
            }
            return None;
        } else {
            out.push(c);
            step = 1;
        }
        proof {
            let cc = out@[out@.len() - 1];
            assert(out@ =~= out_pre + seq![cc]);
            assert(tail.skip(step as int) =~= s@.skip(i + step));
            assert(unescape(tail) == prepend(cc, unescape(s@.skip(i + step))));
            if unescape(s@.skip(i + step)) is Some {
                let t = unescape(s@.skip(i + step))->0;
                assert(out_pre + (seq![cc] + t) =~= (out_pre + seq![cc]) + t);
            }
        }
        i = i + step;
    }
    proof {
        assert(s@.skip(n as int) =~= Seq::<char>::empty());
        assert(out@ + Seq::<char>::empty() =~= out@);
    }
    Some(out)
}

/// Whether `pat` stands in `cs` at `offset`.
fn match_at(cs: &Vec<char>, pat: &Vec<char>, offset: usize) -> (r: bool)
    requires
        offset + pat@.len() <= cs@.len(),
    ensures
        r == (cs@.subrange(offset as int, offset + pat@.len()) == pat@),
{
    let total = cs.len();
    let m = pat.len();
    let mut j: usize = 0;
    while j < m
        invariant
            m == pat@.len(),
            total == cs@.len(),
            offset + m <= total,
            j <= m,
            forall|k: int| 0 <= k < j ==> cs@[offset + k] == pat@[k],
        decreases m - j,
    {
        if cs[offset + j] != pat[j] {
            proof {
                assert(cs@.subrange(offset as int, offset + pat@.len())[j as int] != pat@[j as int]);
            }
            return false;
        }
        j = j + 1;
    }
    proof {
        assert(cs@.subrange(offset as int, offset + pat@.len()) =~= pat@);
    }
    true
}

/// How an inbound notification's text decomposes: its fixed frame around the
/// canonically escaped layer name, which decodes back to that name.
proof fn lemma_text_shape(m: ServerMessage, t: Seq<char>)
    requires
        t == server_message_text(m),
    ensures
        t.len() >= 26,
        t.subrange(0, 23) == "{\"LayerChange\":{\"new\":\""@,
        t.subrange(t.len() - 3, t.len() as int) == "\"}}"@,
        unescape(t.subrange(23, t.len() - 3)) == Some(m->LayerChange_new@),
{
    reveal_strlit("{\"LayerChange\":{\"new\":\"");
    reveal_strlit("\"}}");
    let p = "{\"LayerChange\":{\"new\":\""@;
    let q = "\"}}"@;
    let e = escape_string(m->LayerChange_new@);
    assert(p.len() == 23);
    assert(q.len() == 3);
    assert(t.len() == 26 + e.len());
    assert(t.subrange(0, 23) =~= p);
    assert(t.subrange(t.len() - 3, t.len() as int) =~= q);
    assert(t.subrange(23, t.len() - 3) =~= e);
    lemma_unescape_escape(m->LayerChange_new@);
}

/// Parses one inbound message. Exact: `Ok(m)` when `s` is the wire text of
/// the notification `m`, and `Err` when `s` is the wire text of no
/// notification at all.
pub fn parse_server_message(s: &str) -> (r: Result<ServerMessage, ProtocolError>)
    ensures
        match r {
            Ok(m) => s@ == server_message_text(m),
            Err(_) => forall|m: ServerMessage| s@ != server_message_text(m),
        },
{
    let cs = chars_of(s);
    let pre = chars_of("{\"LayerChange\":{\"new\":\"");
    let suf = chars_of("\"}}");
    proof {
        reveal_strlit("{\"LayerChange\":{\"new\":\"");
        reveal_strlit("\"}}");
        assert(pre@.len() == 23);
        assert(suf@.len() == 3);
    }
    if cs.len() < pre.len() + suf.len() {
        proof {
            assert forall|m: ServerMessage| s@ != server_message_text(m) by {
                if s@ == server_message_text(m) {
                    lemma_text_shape(m, s@);
                }
            }
        }
        return Err(ProtocolError::Malformed);
    }
    if !match_at(&cs, &pre, 0) {
        proof {
            assert forall|m: ServerMessage| s@ != server_message_text(m) by {
                if s@ == server_message_text(m) {
                    lemma_text_shape(m, s@);
                }
            }
        }
        return Err(ProtocolError::Malformed);
    }
    let body_end = cs.len() - suf.len();
    if !match_at(&cs, &suf, body_end) {
        proof {
            assert forall|m: ServerMessage| s@ != server_message_text(m) by {
                if s@ == server_message_text(m) {
                    lemma_text_shape(m, s@);
                }
            }
        }
        return Err(ProtocolError::Malformed);
    }
    let mut mid: Vec<char> = Vec::new();
    let mut j: usize = pre.len();
    proof {
        assert(cs@.subrange(23, 23) =~= mid@);
    }
    while j < body_end
        invariant
            23 <= j <= body_end,
            body_end == cs@.len() - 3,
            body_end <= cs@.len(),
            mid@ == cs@.subrange(23, j as int),
        decreases body_end - j,
    {
        proof {
            assert(cs@.subrange(23, j + 1) =~= cs@.subrange(23, j as int).push(cs@[j as int]));
        }
        mid.push(cs[j]);
        j = j + 1;
    }
    match unescape_chars(&mid) {
        Some(name_chars) => {
            let new = string_from_chars(&name_chars);
            let msg = ServerMessage::LayerChange { new };
            proof {
                lemma_escape_unescape(mid@, name_chars@);
                assert(s@ =~= cs@.subrange(0, 23) + cs@.subrange(23, body_end as int)
                    + cs@.subrange(body_end as int, cs@.len() as int));
                assert(server_message_text(msg) == pre@ + escape_string(msg->LayerChange_new@)
                    + suf@);
            }
            Ok(msg)
        },
        None => {
            proof {
                assert forall|m: ServerMessage| s@ != server_message_text(m) by {
                    if s@ == server_message_text(m) {
                        lemma_text_shape(m, s@);
                        assert(mid@ == s@.subrange(23, s@.len() - 3));
                    }
                }
            }
            Err(ProtocolError::Malformed)
        },
    }
}

impl ServerMessage {
    /// Parses one inbound message, as [`parse_server_message`] does: exact in
    /// both directions.
    pub fn from_str(s: &str) -> (r: Result<ServerMessage, ProtocolError>)
        ensures
            match r {
                Ok(m) => s@ == server_message_text(m),
                Err(_) => forall|m: ServerMessage| s@ != server_message_text(m),
            },
    {
        parse_server_message(s)
    }
}

/// Serializes an outbound command to its exact wire text.
pub fn encode_client_message(m: &ClientMessage) -> (r: String)
    ensures
        r@ == client_message_text(*m),
{
    match m {
        ClientMessage::ChangeLayer { new } => {
            let name_chars = chars_of(new.as_str());
            let escaped = escape_chars(&name_chars);
            let escaped_str = string_from_chars(&escaped);
            let mut out = String::from_str("{\"ChangeLayer\":{\"new\":\"");
            out.append(escaped_str.as_str());
            out.append("\"}}");
            out
        },
    }
}

} // verus!
