//! The JSON building blocks shared by the log formats: string escaping
//! (quote, backslash and the short control escapes, other control
//! characters as lowercase `\u00..`), a writer for escaped strings, and
//! parsers that read exactly what the writers emit, proved to invert
//! them.

use vstd::prelude::*;
use crate::strutil::push_char;

verus! {

/// The lowercase hex digit for a value below sixteen.
pub open spec fn spec_hex_digit(n: nat) -> char {
    if n == 0 {
        '0'
    } else if n == 1 {
        '1'
    } else if n == 2 {
        '2'
    } else if n == 3 {
        '3'
    } else if n == 4 {
        '4'
    } else if n == 5 {
        '5'
    } else if n == 6 {
        '6'
    } else if n == 7 {
        '7'
    } else if n == 8 {
        '8'
    } else if n == 9 {
        '9'
    } else if n == 10 {
        'a'
    } else if n == 11 {
        'b'
    } else if n == 12 {
        'c'
    } else if n == 13 {
        'd'
    } else if n == 14 {
        'e'
    } else {
        'f'
    }
}

/// The value of a lowercase hex digit character, if it is one.
pub open spec fn spec_hex_val(c: char) -> Option<u32> {
    if '0' <= c && c <= '9' {
        Some((c as u32 - '0' as u32) as u32)
    } else if 'a' <= c && c <= 'f' {
        Some((c as u32 - 'a' as u32 + 10) as u32)
    } else {
        None
    }
}

/// How one character is written inside a JSON string: itself, a two-
/// character escape, or `\u00..` for the remaining control characters.
pub open spec fn esc_char(c: char) -> Seq<char> {
    if c == '"' {
        seq!['\\', '"']
    } else if c == '\\' {
        seq!['\\', '\\']
    } else if c == '\u{8}' {
        seq!['\\', 'b']
    } else if c == '\t' {
        seq!['\\', 't']
    } else if c == '\n' {
        seq!['\\', 'n']
    } else if c == '\u{c}' {
        seq!['\\', 'f']
    } else if c == '\r' {
        seq!['\\', 'r']
    } else if (c as u32) < 0x20 {
        seq!['\\', 'u', '0', '0', spec_hex_digit((c as u32 / 16) as nat), spec_hex_digit(
            (c as u32 % 16) as nat,
        )]
    } else {
        seq![c]
    }
}

/// A string's characters, each escaped.
pub open spec fn esc(s: Seq<char>) -> Seq<char>
    decreases s.len(),
{
    if s.len() == 0 {
        Seq::empty()
    } else {
        esc_char(s[0]) + esc(s.drop_first())
    }
}

/// A whole JSON string token: quote, escaped characters, quote.
pub open spec fn jstr(s: Seq<char>) -> Seq<char> {
    seq!['"'] + esc(s) + seq!['"']
}

/// Escaping distributes over concatenation.
pub proof fn lemma_esc_add(a: Seq<char>, b: Seq<char>)
    ensures
        esc(a + b) == esc(a) + esc(b),
    decreases a.len(),
{
    if a.len() == 0 {
        assert(a + b =~= b);
        assert(esc(a) + esc(b) =~= esc(b));
    } else {
        assert((a + b).drop_first() =~= a.drop_first() + b);
        lemma_esc_add(a.drop_first(), b);
        assert(esc_char((a + b)[0]) + (esc(a.drop_first()) + esc(b)) =~= (esc_char(a[0]) + esc(
            a.drop_first(),
        )) + esc(b));
    }
}

/// Escaping one more character appends its escape.
pub proof fn lemma_esc_push(s: Seq<char>, c: char)
    ensures
        esc(s.push(c)) == esc(s) + esc_char(c),
{
    assert(s.push(c) =~= s + seq![c]);
    lemma_esc_add(s, seq![c]);
    assert(seq![c].drop_first() =~= Seq::<char>::empty());
    assert(esc(seq![c]) == esc_char(c) + esc(Seq::<char>::empty()));
    assert(esc_char(c) + Seq::<char>::empty() =~= esc_char(c));
}

/// The character a short escape code stands for.
pub open spec fn short_unescape(c: char) -> char {
    if c == '"' {
        '"'
    } else if c == '\\' {
        '\\'
    } else if c == 'b' {
        '\u{8}'
    } else if c == 't' {
        '\t'
    } else if c == 'n' {
        '\n'
    } else if c == 'f' {
        '\u{c}'
    } else {
        '\r'
    }
}

/// Reads a JSON string body up to its closing quote: the decoded
/// characters and what follows the quote. Accepts exactly what `esc`
/// emits: plain characters, the short escapes, and `\u00..` below 0x20.
pub open spec fn p_jstr_body(s: Seq<char>) -> Option<(Seq<char>, Seq<char>)>
    decreases s.len(),
{
    if s.len() == 0 {
        None
    } else if s[0] == '"' {
        Some((Seq::empty(), s.drop_first()))
    } else if s[0] == '\\' {
        if s.len() < 2 {
            None
        } else {
            let c2 = s[1];
            if c2 == '"' || c2 == '\\' || c2 == 'b' || c2 == 't' || c2 == 'n' || c2 == 'f' || c2
                == 'r' {
                match p_jstr_body(s.skip(2)) {
                    Some(p) => Some((seq![short_unescape(c2)] + p.0, p.1)),
                    None => None,
                }
            } else if c2 == 'u' {
                if s.len() < 6 {
                    None
                } else if s[2] == '0' && s[3] == '0' && spec_hex_val(s[4]) is Some && spec_hex_val(
                    s[5],
                ) is Some {
                    let v = spec_hex_val(s[4])->Some_0 * 16 + spec_hex_val(s[5])->Some_0;
                    if v < 0x20 {
                        match p_jstr_body(s.skip(6)) {
                            Some(p) => Some((seq![(v as u32) as char] + p.0, p.1)),
                            None => None,
                        }
                    } else {
                        None
                    }
                } else {
                    None
                }
            } else {
                None
            }
        }
    } else if (s[0] as u32) >= 0x20 {
        match p_jstr_body(s.drop_first()) {
            Some(p) => Some((seq![s[0]] + p.0, p.1)),
            None => None,
        }
    } else {
        None
    }
}

/// Reads a whole JSON string token: an opening quote, then the body.
pub open spec fn p_jstr(s: Seq<char>) -> Option<(Seq<char>, Seq<char>)> {
    if s.len() > 0 && s[0] == '"' {
        p_jstr_body(s.drop_first())
    } else {
        None
    }
}

/// Reads an exact literal prefix; what follows it on success.
pub open spec fn p_lit(s: Seq<char>, lit: Seq<char>) -> Option<Seq<char>> {
    if lit.len() <= s.len() && s.take(lit.len() as int) == lit {
        Some(s.skip(lit.len() as int))
    } else {
        None
    }
}

pub proof fn lemma_p_lit(lit: Seq<char>, rest: Seq<char>)
    ensures
        p_lit(lit + rest, lit) == Some(rest),
{
    assert((lit + rest).take(lit.len() as int) =~= lit);
    assert((lit + rest).skip(lit.len() as int) =~= rest);
}

/// Hex digits decode to the value they were written from.
pub proof fn lemma_hex_round_trip(n: nat)
    requires
        n < 16,
    ensures
        spec_hex_val(spec_hex_digit(n)) == Some(n as u32),
{
}

/// The string-body parser inverts the escape writer: an escaped string,
/// its closing quote and anything after parse back to the string itself.
pub proof fn lemma_p_body(a: Seq<char>, rest: Seq<char>)
    ensures
        p_jstr_body(esc(a) + seq!['"'] + rest) == Some((a, rest)),
    decreases a.len(),
{
    let s = esc(a) + seq!['"'] + rest;
    if a.len() == 0 {
        assert(esc(a) =~= Seq::<char>::empty());
        assert(s =~= seq!['"'] + rest);
        assert(s[0] == '"');
        assert(s.drop_first() =~= rest);
    } else {
        let c = a[0];
        let a2 = a.drop_first();
        let s2 = esc(a2) + seq!['"'] + rest;
        assert(esc(a) == esc_char(c) + esc(a2));
        assert(s =~= esc_char(c) + s2);
        lemma_p_body(a2, rest);
        assert(seq![c] + a2 =~= a);
        if c == '"' || c == '\\' || c == '\u{8}' || c == '\t' || c == '\n' || c == '\u{c}' || c
            == '\r' {
            assert(s[0] == '\\');
            assert(s.len() >= 2);
            let c2 = s[1];
            assert(c2 == esc_char(c)[1]);
            assert(short_unescape(c2) == c);
            assert(s.skip(2) =~= s2);
        } else if (c as u32) < 0x20 {
            assert(s[0] == '\\');
            assert(s.len() >= 6);
            assert(s[1] == 'u');
            assert(s[2] == '0');
            assert(s[3] == '0');
            assert(s[4] == spec_hex_digit((c as u32 / 16) as nat));
            assert(s[5] == spec_hex_digit((c as u32 % 16) as nat));
            lemma_hex_round_trip((c as u32 / 16) as nat);
            lemma_hex_round_trip((c as u32 % 16) as nat);
            let v = spec_hex_val(s[4])->Some_0 * 16 + spec_hex_val(s[5])->Some_0;
            assert(v == c as u32);
            assert((v as u32) as char == c) by {
                vstd::utf8::char_u32_cast(c, c as u32);
            }
            assert(s.skip(6) =~= s2);
        } else {
            assert(s[0] == c);
            assert(c != '"' && c != '\\');
            assert(s.drop_first() =~= s2);
        }
    }
}

/// The string parser inverts the string writer.
pub proof fn lemma_p_jstr(a: Seq<char>, rest: Seq<char>)
    ensures
        p_jstr(jstr(a) + rest) == Some((a, rest)),
{
    let s = jstr(a) + rest;
    assert(s[0] == '"');
    assert(s.drop_first() =~= esc(a) + seq!['"'] + rest);
    lemma_p_body(a, rest);
}

fn hex_digit(n: u32) -> (c: char)
    requires
        n < 16,
    ensures
        c == spec_hex_digit(n as nat),
{
    if n == 0 {
        '0'
    } else if n == 1 {
        '1'
    } else if n == 2 {
        '2'
    } else if n == 3 {
        '3'
    } else if n == 4 {
        '4'
    } else if n == 5 {
        '5'
    } else if n == 6 {
        '6'
    } else if n == 7 {
        '7'
    } else if n == 8 {
        '8'
    } else if n == 9 {
        '9'
    } else if n == 10 {
        'a'
    } else if n == 11 {
        'b'
    } else if n == 12 {
        'c'
    } else if n == 13 {
        'd'
    } else if n == 14 {
        'e'
    } else {
        'f'
    }
}

fn hex_val(c: char) -> (r: Option<u32>)
    ensures
        r == spec_hex_val(c),
{
    let u = c as u32;
    if 48 <= u && u <= 57 {
        Some(u - 48)
    } else if 97 <= u && u <= 102 {
        Some(u - 97 + 10)
    } else {
        None
    }
}

fn short_unescape_exec(c: char) -> (r: char)
    requires
        c == '"' || c == '\\' || c == 'b' || c == 't' || c == 'n' || c == 'f' || c == 'r',
    ensures
        r == short_unescape(c),
{
    if c == '"' {
        '"'
    } else if c == '\\' {
        '\\'
    } else if c == 'b' {
        '\u{8}'
    } else if c == 't' {
        '\t'
    } else if c == 'n' {
        '\n'
    } else if c == 'f' {
        '\u{c}'
    } else {
        '\r'
    }
}

/// Appends `s` to `out` as a JSON string token, escaped as `jstr` has it.
pub fn write_json_string(out: &mut String, s: &str)
    ensures
        final(out)@ == old(out)@ + jstr(s@),
{
    push_char(out, '"');
    let n = s.unicode_len();
    let mut i: usize = 0;
    proof {
        assert(esc(s@.take(0)) =~= Seq::<char>::empty());
        assert(out@ =~= old(out)@ + seq!['"'] + esc(s@.take(0)));
    }
    while i < n
        invariant
            i <= n,
            n == s@.len(),
            out@ == old(out)@ + seq!['"'] + esc(s@.take(i as int)),
        decreases n - i,
    {
        let c = s.get_char(i);
        let ghost pre = out@;
        proof {
            assert(s@.take(i as int).push(c) =~= s@.take(i + 1));
            lemma_esc_push(s@.take(i as int), c);
        }
        let u = c as u32;
        if c == '"' {
            push_char(out, '\\');
            push_char(out, '"');
        } else if c == '\\' {
            push_char(out, '\\');
            push_char(out, '\\');
        } else if c == '\u{8}' {
            push_char(out, '\\');
            push_char(out, 'b');
        } else if c == '\t' {
            push_char(out, '\\');
            push_char(out, 't');
        } else if c == '\n' {
            push_char(out, '\\');
            push_char(out, 'n');
        } else if c == '\u{c}' {
            push_char(out, '\\');
            push_char(out, 'f');
        } else if c == '\r' {
            push_char(out, '\\');
            push_char(out, 'r');
        } else if u < 0x20 {
            push_char(out, '\\');
            push_char(out, 'u');
            push_char(out, '0');
            push_char(out, '0');
            let h1 = hex_digit(u / 16);
            let h2 = hex_digit(u % 16);
            push_char(out, h1);
            push_char(out, h2);
        } else {
            push_char(out, c);
        }
        proof {
            assert(out@ =~= pre + esc_char(c));
        }
        i = i + 1;
    }
    push_char(out, '"');
    proof {
        assert(s@.take(n as int) =~= s@);
        assert(out@ =~= old(out)@ + jstr(s@));
    }
}

/// Reads the exact literal `lit` at position `pos` of `s`; the position
/// after it on success.
pub fn e_lit(s: &str, pos: usize, lit: &str) -> (r: Option<usize>)
    requires
        pos <= s@.len(),
    ensures
        match r {
            Some(j) => pos <= j <= s@.len() && j - pos == lit@.len() && p_lit(
                s@.skip(pos as int),
                lit@,
            ) == Some(s@.skip(j as int)),
            None => p_lit(s@.skip(pos as int), lit@) is None,
        },
{
    let n = s.unicode_len();
    let m = lit.unicode_len();
    if m > n - pos {
        return None;
    }
    let mut k: usize = 0;
    while k < m
        invariant
            k <= m,
            pos + m <= n,
            m == lit@.len(),
            n == s@.len(),
            forall|t: int| 0 <= t < k ==> s@[pos + t] == lit@[t],
        decreases m - k,
    {
        if s.get_char(pos + k) != lit.get_char(k) {
            proof {
                assert(s@.skip(pos as int).take(m as int)[k as int] == s@[pos + k]);
            }
            return None;
        }
        k = k + 1;
    }
    proof {
        assert(s@.skip(pos as int).take(m as int) =~= lit@);
        assert(s@.skip(pos as int).skip(m as int) =~= s@.skip(pos + m));
    }
    Some(pos + m)
}

/// Reads a JSON string token at position `pos` of `s`: the decoded string
/// and the position after the closing quote.
pub fn e_jstr(s: &str, pos: usize) -> (r: Option<(String, usize)>)
    requires
        pos <= s@.len(),
    ensures
        match r {
            Some(p) => pos < p.1 <= s@.len() && p_jstr(s@.skip(pos as int)) == Some(
                (p.0@, s@.skip(p.1 as int)),
            ),
            None => p_jstr(s@.skip(pos as int)) is None,
        },
{
    let n = s.unicode_len();
    if pos == n || s.get_char(pos) != '"' {
        return None;
    }
    let ghost body0 = s@.skip(pos + 1);
    proof {
        assert(s@.skip(pos as int)[0] == s@[pos as int]);
        assert(s@.skip(pos as int).drop_first() =~= body0);
    }
    let mut acc = String::new();
    let mut i: usize = pos + 1;
    loop
        invariant
            pos + 1 <= i <= n,
            n == s@.len(),
            pos < n,
            s@[pos as int] == '"',
            body0 == s@.skip(pos + 1),
            s@.skip(pos as int).drop_first() == body0,
            (match p_jstr_body(s@.skip(i as int)) {
                Some(p) => p_jstr_body(body0) == Some((acc@ + p.0, p.1)),
                None => p_jstr_body(body0) is None,
            }),
        decreases n - i,
    {
        let ghost cur = s@.skip(i as int);
        if i == n {
            proof {
                assert(cur.len() == 0);
            }
            return None;
        }
        let c = s.get_char(i);
        proof {
            assert(cur[0] == c);
            assert(cur.drop_first() =~= s@.skip(i + 1));
        }
        if c == '"' {
            proof {
                assert(p_jstr_body(cur) == Some((Seq::<char>::empty(), s@.skip(i + 1))));
                assert(acc@ + Seq::<char>::empty() =~= acc@);
            }
            return Some((acc, i + 1));
        }
        if c == '\\' {
            if i + 1 == n {
                proof {
                    assert(cur.len() < 2);
                }
                return None;
            }
            let c2 = s.get_char(i + 1);
            proof {
                assert(cur[1] == c2);
                assert(cur.skip(2) =~= s@.skip(i + 2));
            }
            if c2 == '"' || c2 == '\\' || c2 == 'b' || c2 == 't' || c2 == 'n' || c2 == 'f' || c2
                == 'r' {
                let d = short_unescape_exec(c2);
                let ghost acc0 = acc@;
                push_char(&mut acc, d);
                proof {
                    if p_jstr_body(s@.skip(i + 2)) is Some {
                        let p = p_jstr_body(s@.skip(i + 2))->Some_0;
                        assert(acc0 + (seq![d] + p.0) =~= acc@ + p.0);
                    }
                }
                i = i + 2;
            } else if c2 == 'u' {
                if n - i < 6 {
                    proof {
                        assert(cur.len() < 6);
                    }
                    return None;
                }
                let c3 = s.get_char(i + 2);
                let c4 = s.get_char(i + 3);
                let h1 = s.get_char(i + 4);
                let h2 = s.get_char(i + 5);
                proof {
                    assert(cur[2] == c3);
                    assert(cur[3] == c4);
                    assert(cur[4] == h1);
                    assert(cur[5] == h2);
                    assert(cur.skip(6) =~= s@.skip(i + 6));
                }
                if c3 != '0' || c4 != '0' {
                    return None;
                }
                let v1 = hex_val(h1);
                let v2 = hex_val(h2);
                match (v1, v2) {
                    (Some(a), Some(b)) => {
                        let v = a * 16 + b;
                        if v >= 0x20 {
                            return None;
                        }
                        let d = (v as u8) as char;
                        proof {
                            assert(d as u32 == v);
                            vstd::utf8::char_u32_cast(d, v);
                            assert(d == (v as u32) as char);
                        }
                        let ghost acc0 = acc@;
                        push_char(&mut acc, d);
                        proof {
                            if p_jstr_body(s@.skip(i + 6)) is Some {
                                let p = p_jstr_body(s@.skip(i + 6))->Some_0;
                                assert(acc0 + (seq![d] + p.0) =~= acc@ + p.0);
                            }
                        }
                        i = i + 6;
                    },
                    _ => {
                        return None;
                    },
                }
            } else {
                return None;
            }
        } else {
            let u = c as u32;
            if u >= 0x20 {
                let ghost acc0 = acc@;
                push_char(&mut acc, c);
                proof {
                    if p_jstr_body(s@.skip(i + 1)) is Some {
                        let p = p_jstr_body(s@.skip(i + 1))->Some_0;
                        assert(acc0 + (seq![c] + p.0) =~= acc@ + p.0);
                    }
                }
                i = i + 1;
            } else {
                return None;
            }
        }
    }
}

} // verus!
