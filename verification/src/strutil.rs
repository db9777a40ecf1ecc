//! Small verified string utilities: padding, decimal rendering, searching
//! and splitting, and parsing of small decimal numbers.

use vstd::prelude::*;

verus! {

/// `n` space characters.
pub open spec fn spec_spaces(n: nat) -> Seq<char>
    decreases n,
{
    if n == 0 {
        Seq::empty()
    } else {
        spec_spaces((n - 1) as nat).push(' ')
    }
}

/// `s` padded with spaces on the right up to `width` characters; a string
/// already that wide is unchanged.
pub open spec fn spec_pad(s: Seq<char>, width: nat) -> Seq<char> {
    if s.len() >= width {
        s
    } else {
        s + spec_spaces((width - s.len()) as nat)
    }
}

/// Relies on `String::push` of std: appends the given character to the end
/// of the string.
#[verifier::external_body]
pub fn push_char(s: &mut String, c: char)
    ensures
        final(s)@ == old(s)@.push(c),
{
    s.push(c);
}

pub fn spaces(n: usize) -> (r: String)
    ensures
        r@ == spec_spaces(n as nat),
{
    let mut r = String::new();
    let mut i: usize = 0;
    while i < n
        invariant
            i <= n,
            r@ == spec_spaces(i as nat),
        decreases n - i,
    {
        push_char(&mut r, ' ');
        i = i + 1;
    }
    r
}

pub fn pad_to_width(s: &str, width: usize) -> (r: String)
    ensures
        r@ == spec_pad(s@, width as nat),
{
    let len = s.unicode_len();
    let mut r = s.to_owned();
    if len < width {
        let sp = spaces(width - len);
        r.append(sp.as_str());
    }
    r
}

/// The decimal digit character for a value below ten.
pub open spec fn spec_digit(d: nat) -> char {
    if d == 0 {
        '0'
    } else if d == 1 {
        '1'
    } else if d == 2 {
        '2'
    } else if d == 3 {
        '3'
    } else if d == 4 {
        '4'
    } else if d == 5 {
        '5'
    } else if d == 6 {
        '6'
    } else if d == 7 {
        '7'
    } else if d == 8 {
        '8'
    } else {
        '9'
    }
}

/// The decimal rendering of `n`, most significant digit first.
pub open spec fn spec_dec(n: nat) -> Seq<char>
    decreases n,
{
    if n < 10 {
        seq![spec_digit(n)]
    } else {
        spec_dec(n / 10).push(spec_digit(n % 10))
    }
}

fn digit_char(d: u32) -> (c: char)
    requires
        d < 10,
    ensures
        c == spec_digit(d as nat),
{
    if d == 0 {
        '0'
    } else if d == 1 {
        '1'
    } else if d == 2 {
        '2'
    } else if d == 3 {
        '3'
    } else if d == 4 {
        '4'
    } else if d == 5 {
        '5'
    } else if d == 6 {
        '6'
    } else if d == 7 {
        '7'
    } else if d == 8 {
        '8'
    } else {
        '9'
    }
}

pub fn u32_to_string(n: u32) -> (r: String)
    ensures
        r@ == spec_dec(n as nat),
    decreases n,
{
    if n < 10 {
        let mut r = String::new();
        let c = digit_char(n);
        push_char(&mut r, c);
        proof {
            assert(r@ =~= seq![spec_digit(n as nat)]);
        }
        r
    } else {
        let mut r = u32_to_string(n / 10);
        let c = digit_char(n % 10);
        push_char(&mut r, c);
        r
    }
}

pub fn u128_to_string(n: u128) -> (r: String)
    ensures
        r@ == spec_dec(n as nat),
    decreases n,
{
    if n < 10 {
        let mut r = String::new();
        let c = digit_char(n as u32);
        push_char(&mut r, c);
        proof {
            assert(r@ =~= seq![spec_digit(n as nat)]);
        }
        r
    } else {
        let mut r = u128_to_string(n / 10);
        let c = digit_char((n % 10) as u32);
        push_char(&mut r, c);
        r
    }
}

/// The position of the first occurrence of `c` in `s`, if any.
pub open spec fn spec_find(s: Seq<char>, c: char) -> Option<int>
    decreases s.len(),
{
    if s.len() == 0 {
        None
    } else if s[0] == c {
        Some(0int)
    } else {
        match spec_find(s.drop_first(), c) {
            Some(i) => Some(i + 1),
            None => None,
        }
    }
}

pub proof fn lemma_spec_find(s: Seq<char>, c: char)
    ensures
        match spec_find(s, c) {
            Some(i) => 0 <= i < s.len() && s[i] == c && forall|j: int| 0 <= j < i ==> s[j] != c,
            None => forall|j: int| 0 <= j < s.len() ==> s[j] != c,
        },
    decreases s.len(),
{
    if s.len() > 0 && s[0] != c {
        lemma_spec_find(s.drop_first(), c);
        match spec_find(s.drop_first(), c) {
            Some(i) => {
                assert(s[i + 1] == s.drop_first()[i]);
                assert forall|j: int| 0 <= j < i + 1 implies s[j] != c by {
                    if j > 0 {
                        assert(s[j] == s.drop_first()[j - 1]);
                    }
                }
            },
            None => {
                assert forall|j: int| 0 <= j < s.len() implies s[j] != c by {
                    if j > 0 {
                        assert(s[j] == s.drop_first()[j - 1]);
                    }
                }
            },
        }
    }
}

/// The first occurrence determines `spec_find` and the other way round.
pub proof fn lemma_spec_find_at(s: Seq<char>, c: char, i: int)
    requires
        0 <= i < s.len(),
        s[i] == c,
        forall|j: int| 0 <= j < i ==> s[j] != c,
    ensures
        spec_find(s, c) == Some(i),
    decreases i,
{
    if i > 0 {
        lemma_spec_find_at(s.drop_first(), c, i - 1);
    }
}

pub fn str_eq(a: &str, b: &str) -> (r: bool)
    ensures
        r == (a@ == b@),
{
    let n = a.unicode_len();
    if n != b.unicode_len() {
        return false;
    }
    let mut i: usize = 0;
    while i < n
        invariant
            i <= n,
            n == a@.len(),
            n == b@.len(),
            forall|j: int| 0 <= j < i ==> a@[j] == b@[j],
        decreases n - i,
    {
        if a.get_char(i) != b.get_char(i) {
            return false;
        }
        i = i + 1;
    }
    proof {
        assert(a@ =~= b@);
    }
    true
}

/// The view of each string in a sequence of strings.
pub open spec fn views(v: Seq<String>) -> Seq<Seq<char>> {
    v.map_values(|s: String| s@)
}

/// The pieces of `s` between occurrences of the separator `c`: always at
/// least one piece, and a trailing separator yields a trailing empty piece,
/// as `str::split` has it.
pub open spec fn spec_split(s: Seq<char>, c: char) -> Seq<Seq<char>>
    decreases s.len(),
{
    match spec_find(s, c) {
        None => seq![s],
        Some(i) => if 0 <= i < s.len() {
            seq![s.take(i)] + spec_split(s.skip(i + 1), c)
        } else {
            seq![s]
        },
    }
}

pub proof fn lemma_split_nonempty(s: Seq<char>, c: char)
    ensures
        spec_split(s, c).len() >= 1,
{
}

/// A segment with its trailing carriage return removed, if it has one.
pub open spec fn spec_strip_cr(s: Seq<char>) -> Seq<char> {
    if s.len() > 0 && s[s.len() - 1] == '\r' {
        s.drop_last()
    } else {
        s
    }
}

/// The lines of `s`, split as `str::lines` splits them: at `'\n'`, with a
/// `'\r'` directly before the `'\n'` removed, and with no empty final line
/// when `s` ends in a line break.
pub open spec fn spec_lines(s: Seq<char>) -> Seq<Seq<char>>
    decreases s.len(),
{
    if s.len() == 0 {
        Seq::empty()
    } else {
        match spec_find(s, '\n') {
            None => seq![s],
            Some(i) => if 0 <= i < s.len() {
                seq![spec_strip_cr(s.take(i))] + spec_lines(s.skip(i + 1))
            } else {
                seq![s]
            },
        }
    }
}

pub fn find_char(s: &str, from: usize, c: char) -> (r: Option<usize>)
    requires
        from <= s@.len(),
    ensures
        match r {
            Some(i) => from <= i < s@.len() && spec_find(s@.skip(from as int), c) == Some(
                i - from,
            ),
            None => spec_find(s@.skip(from as int), c) is None,
        },
{
    let n = s.unicode_len();
    let mut i: usize = from;
    while i < n
        invariant
            from <= i <= n,
            n == s@.len(),
            forall|j: int| from <= j < i ==> s@[j] != c,
        decreases n - i,
    {
        if s.get_char(i) == c {
            proof {
                assert forall|j: int| 0 <= j < i - from implies s@.skip(from as int)[j] != c by {
                    assert(s@.skip(from as int)[j] == s@[from + j]);
                }
                assert(s@.skip(from as int)[i - from] == s@[i as int]);
                lemma_spec_find_at(s@.skip(from as int), c, i - from);
            }
            return Some(i);
        }
        i = i + 1;
    }
    proof {
        lemma_spec_find(s@.skip(from as int), c);
        if spec_find(s@.skip(from as int), c) is Some {
            let k = spec_find(s@.skip(from as int), c)->Some_0;
            assert(s@.skip(from as int)[k] == s@[from + k]);
        }
    }
    None
}

pub fn split_on_char(s: &str, c: char) -> (r: Vec<String>)
    ensures
        views(r@) == spec_split(s@, c),
        r@.len() >= 1,
{
    let n = s.unicode_len();
    let mut r: Vec<String> = Vec::new();
    let mut pos: usize = 0;
    proof {
        assert(s@.skip(0) =~= s@);
        assert(views(r@) + spec_split(s@, c) =~= spec_split(s@, c));
    }
    loop
        invariant_except_break
            pos <= n,
            n == s@.len(),
            spec_split(s@, c) =~= views(r@) + spec_split(s@.skip(pos as int), c),
        ensures
            views(r@) =~= spec_split(s@, c),
        decreases n - pos,
    {
        let ghost tail = s@.skip(pos as int);
        match find_char(s, pos, c) {
            Some(i) => {
                let piece = s.substring_char(pos, i).to_owned();
                proof {
                    assert(tail.take(i - pos) =~= s@.subrange(pos as int, i as int));
                    assert(tail.skip(i - pos + 1) =~= s@.skip(i + 1));
                    assert(spec_split(tail, c) =~= seq![piece@] + spec_split(
                        s@.skip(i + 1),
                        c,
                    ));
                    assert(views(r@.push(piece)) =~= views(r@) + seq![piece@]);
                }
                r.push(piece);
                pos = i + 1;
            },
            None => {
                let piece = s.substring_char(pos, n).to_owned();
                proof {
                    assert(piece@ =~= tail);
                    assert(spec_split(tail, c) =~= seq![tail]);
                    assert(views(r@.push(piece)) =~= views(r@) + seq![piece@]);
                }
                r.push(piece);
                break;
            },
        }
    }
    proof {
        lemma_split_nonempty(s@, c);
        assert(r@.len() == views(r@).len());
    }
    r
}

pub fn split_lines(s: &str) -> (r: Vec<String>)
    ensures
        views(r@) == spec_lines(s@),
{
    let n = s.unicode_len();
    let mut r: Vec<String> = Vec::new();
    let mut pos: usize = 0;
    proof {
        assert(s@.skip(0) =~= s@);
        assert(views(r@) + spec_lines(s@) =~= spec_lines(s@));
    }
    while pos < n
        invariant
            pos <= n,
            n == s@.len(),
            spec_lines(s@) =~= views(r@) + spec_lines(s@.skip(pos as int)),
        decreases n - pos,
    {
        let ghost tail = s@.skip(pos as int);
        match find_char(s, pos, '\n') {
            Some(i) => {
                let mut endx = i;
                if endx > pos && s.get_char(endx - 1) == '\r' {
                    endx = endx - 1;
                }
                let piece = s.substring_char(pos, endx).to_owned();
                proof {
                    assert(tail.take(i - pos) =~= s@.subrange(pos as int, i as int));
                    assert(tail.skip(i - pos + 1) =~= s@.skip(i + 1));
                    if i > pos && s@[i - 1] == '\r' {
                        assert(tail.take(i - pos)[i - pos - 1] == s@[i - 1]);
                        assert(spec_strip_cr(tail.take(i - pos)) =~= s@.subrange(
                            pos as int,
                            i - 1,
                        ));
                    } else {
                        if i - pos > 0 {
                            assert(tail.take(i - pos)[i - pos - 1] == s@[i - 1]);
                        }
                        assert(spec_strip_cr(tail.take(i - pos)) =~= s@.subrange(
                            pos as int,
                            i as int,
                        ));
                    }
                    assert(spec_lines(tail) =~= seq![piece@] + spec_lines(s@.skip(i + 1)));
                    assert(views(r@.push(piece)) =~= views(r@) + seq![piece@]);
                }
                r.push(piece);
                pos = i + 1;
            },
            None => {
                let piece = s.substring_char(pos, n).to_owned();
                proof {
                    assert(piece@ =~= tail);
                    assert(spec_lines(tail) =~= seq![tail]);
                    assert(views(r@.push(piece)) =~= views(r@) + seq![piece@]);
                    assert(s@.skip(n as int) =~= Seq::<char>::empty());
                }
                r.push(piece);
                pos = n;
            },
        }
    }
    proof {
        assert(s@.skip(pos as int) =~= Seq::<char>::empty());
        assert(views(r@) + spec_lines(Seq::<char>::empty()) =~= views(r@));
    }
    r
}

/// A decimal digit character.
pub open spec fn is_digit(c: char) -> bool {
    ('0' as u32) <= (c as u32) && (c as u32) <= ('9' as u32)
}

/// The numeric value of a digit character.
pub open spec fn digit_val(c: char) -> nat
    recommends
        is_digit(c),
{
    ((c as u32) - ('0' as u32)) as nat
}

pub open spec fn all_digits(s: Seq<char>) -> bool {
    forall|i: int| 0 <= i < s.len() ==> is_digit(#[trigger] s[i])
}

/// The value of a digit string, most significant digit first.
pub open spec fn digits_val(s: Seq<char>) -> nat
    decreases s.len(),
{
    if s.len() == 0 {
        0
    } else {
        digits_val(s.drop_last()) * 10 + digit_val(s.last())
    }
}

/// A digit string is worth at least any of its prefixes.
proof fn lemma_digits_val_prefix(s: Seq<char>, k: int)
    requires
        0 <= k <= s.len(),
    ensures
        digits_val(s.take(k)) <= digits_val(s),
    decreases s.len() - k,
{
    if k == s.len() {
        assert(s.take(k) =~= s);
    } else {
        assert(s.take(k + 1).drop_last() =~= s.take(k));
        assert(digits_val(s.take(k)) <= digits_val(s.take(k + 1)));
        lemma_digits_val_prefix(s, k + 1);
    }
}

/// What is left of a number string after an optional leading `'+'`.
pub open spec fn spec_num_body(s: Seq<char>) -> Seq<char> {
    if s.len() >= 1 && s[0] == '+' {
        s.drop_first()
    } else {
        s
    }
}

/// How `str::parse::<u8>` reads a string: an optional leading `'+'`, then
/// one or more decimal digits, with a value of at most 255.
pub open spec fn spec_parse_u8(s: Seq<char>) -> Option<u8> {
    let body = spec_num_body(s);
    if body.len() >= 1 && all_digits(body) && digits_val(body) <= 255 {
        Some(digits_val(body) as u8)
    } else {
        None
    }
}

pub fn parse_u8(s: &str) -> (r: Option<u8>)
    ensures
        r == spec_parse_u8(s@),
{
    let n = s.unicode_len();
    let start: usize = if n >= 1 && s.get_char(0) == '+' {
        1
    } else {
        0
    };
    let ghost body = spec_num_body(s@);
    proof {
        assert(body =~= s@.skip(start as int));
    }
    if n == start {
        return None;
    }
    let mut val: u32 = 0;
    let mut i: usize = start;
    while i < n
        invariant
            start <= i <= n,
            n == s@.len(),
            start <= 1,
            body == spec_num_body(s@),
            body == s@.skip(start as int),
            all_digits(body.take(i - start)),
            val == digits_val(body.take(i - start)),
            val <= 255,
        decreases n - i,
    {
        let c = s.get_char(i);
        let cu = c as u32;
        proof {
            assert(body[i - start] == s@[i as int]);
        }
        if cu < 48 || cu > 57 {
            proof {
                assert(!is_digit(body[i - start]));
                assert(!all_digits(body));
            }
            return None;
        }
        let d = cu - 48;
        let newval = val * 10 + d;
        proof {
            assert(body.take(i - start + 1).drop_last() =~= body.take(i - start));
            assert(body.take(i - start + 1).last() == c);
        }
        if newval > 255 {
            proof {
                assert(digits_val(body.take(i - start + 1)) == newval);
                lemma_digits_val_prefix(body, i - start + 1);
                assert(digits_val(body) > 255);
            }
            return None;
        }
        val = newval;
        i = i + 1;
    }
    proof {
        assert(body.take(n - start) =~= body);
    }
    Some(val as u8)
}

} // verus!
