//! Small text utilities shared by the compiler phases.
use vstd::prelude::*;

verus! {

/// Appends `c` to the end of `s`.
///
/// Trusted: calls `String::push`, which std documents as appending the char
/// to the end of the string.
#[verifier::external_body]
pub fn string_push(s: &mut String, c: char)
    ensures
        final(s)@ == old(s)@.push(c),
{
    s.push(c);
}

/// Builds a `String` holding exactly the given chars.
pub fn string_from_chars(v: &Vec<char>) -> (r: String)
    ensures
        r@ == v@,
{
    let mut r = String::new();
    let mut i: usize = 0;
    while i < v.len()
        invariant
            0 <= i <= v.len(),
            r@ == v@.take(i as int),
        decreases v.len() - i,
    {
        string_push(&mut r, v[i]);
        assert(v@.take(i + 1) =~= v@.take(i as int).push(v@[i as int]));
        i += 1;
    }
    assert(v@.take(v.len() as int) =~= v@);
    r
}

/// The chars of a string slice, in order.
pub fn chars_of(s: &str) -> (v: Vec<char>)
    ensures
        v@ == s@,
{
    let mut v: Vec<char> = Vec::new();
    for c in it: s.chars()
        invariant
            v@ == it.seq().take(it.index()),
    {
        v.push(c);
    }
    v
}

/// Whether `w` holds exactly the chars of `lit`.
pub fn chars_eq(w: &Vec<char>, lit: &[char]) -> (r: bool)
    ensures
        r == (w@ == lit@),
{
    if w.len() != lit.len() {
        return false;
    }
    let mut i: usize = 0;
    while i < w.len()
        invariant
            0 <= i <= w.len(),
            w.len() == lit.len(),
            forall|k: int| 0 <= k < i ==> w@[k] == lit@[k],
        decreases w.len() - i,
    {
        if w[i] != lit[i] {
            return false;
        }
        i += 1;
    }
    assert(w@ =~= lit@);
    true
}

/// What Rust's `Debug` formatting of a string slice writes: the text in
/// double quotes, with quotes, backslashes and control characters escaped.
pub uninterp spec fn debug_quoted(s: Seq<char>) -> Seq<char>;

/// The `Debug` text of `s`.
///
/// Trusted: formats `s` with `{:?}`, std's `Debug` for `str`, whose output
/// depends on the text alone; the contract only names that output.
#[verifier::external_body]
pub fn str_debug(s: &str) -> (r: String)
    ensures
        r@ == debug_quoted(s@),
{
    format!("{:?}", s)
}

} // verus!

verus! {

/// A `String` holding the chars of `s`.
///
/// Trusted: calls `String::from`, which std documents as copying the string slice.
#[verifier::external_body]
pub fn string_from(s: &str) -> (r: String)
    ensures
        r@ == s@,
{
    String::from(s)
}

} // verus!

verus! {

/// Appends the chars of `t` to `s`.
///
/// Trusted: calls `String::push_str`, which std documents as appending the
/// string slice to the end of the string.
#[verifier::external_body]
pub fn string_push_str(s: &mut String, t: &str)
    ensures
        final(s)@ == old(s)@ + t@,
{
    s.push_str(t);
}

} // verus!

verus! {

/// The decimal digits of `n`, without leading zeros.
pub open spec fn digits_text(n: nat) -> Seq<char>
    decreases n,
{
    if n < 10 {
        seq![digit_char(n)]
    } else {
        digits_text(n / 10).push(digit_char(n % 10))
    }
}

/// The digit of `d` (below 16), in lower case.
pub open spec fn digit_char(d: nat) -> char {
    if d < 10 {
        (('0' as u8) + (d as u8)) as char
    } else {
        (('a' as u8) + ((d - 10) as u8)) as char
    }
}

/// The lower-case hexadecimal digits of `n`, without leading zeros.
pub open spec fn hex_text(n: nat) -> Seq<char>
    decreases n,
{
    if n < 16 {
        seq![digit_char(n)]
    } else {
        hex_text(n / 16).push(digit_char(n % 16))
    }
}

/// `n` in decimal, with a minus sign when it is negative.
pub open spec fn int_text(n: int) -> Seq<char> {
    if n < 0 {
        seq!['-'] + digits_text((-n) as nat)
    } else {
        digits_text(n as nat)
    }
}

fn digit_of(d: u128) -> (c: char)
    requires
        d < 16,
    ensures
        c == digit_char(d as nat),
{
    if d < 10 {
        ((('0' as u8) + (d as u8)) as char)
    } else {
        ((('a' as u8) + ((d - 10) as u8)) as char)
    }
}

/// The digits of `n` in base `radix` (10 or 16).
fn radix_digits(n: u128, radix: u128) -> (r: String)
    requires
        radix == 10 || radix == 16,
    ensures
        radix == 10 ==> r@ == digits_text(n as nat),
        radix == 16 ==> r@ == hex_text(n as nat),
    decreases n,
{
    if n < radix {
        let mut r = String::new();
        string_push(&mut r, digit_of(n));
        r
    } else {
        let mut r = radix_digits(n / radix, radix);
        string_push(&mut r, digit_of(n % radix));
        r
    }
}

/// The decimal text of a signed integer.
pub fn isize_text(i: isize) -> (r: String)
    ensures
        r@ == int_text(i as int),
{
    let m: i128 = i as i128;
    if m < 0 {
        let mut r = String::new();
        string_push(&mut r, '-');
        let digits = radix_digits((-m) as u128, 10);
        string_push_str(&mut r, digits.as_str());
        r
    } else {
        radix_digits(m as u128, 10)
    }
}

/// The decimal text of an unsigned integer.
pub fn usize_text(u: usize) -> (r: String)
    ensures
        r@ == digits_text(u as nat),
{
    radix_digits(u as u128, 10)
}

/// The lower-case hexadecimal text of an unsigned integer.
pub fn hex_digits(u: u32) -> (r: String)
    ensures
        r@ == hex_text(u as nat),
{
    radix_digits(u as u128, 16)
}

/// Whether `s` starts with `p`.
pub fn has_prefix(s: &str, p: &str) -> (r: bool)
    ensures
        r == (p@.len() <= s@.len() && s@.take(p@.len() as int) == p@),
{
    let sc = chars_of(s);
    let pc = chars_of(p);
    if pc.len() > sc.len() {
        return false;
    }
    let mut i: usize = 0;
    while i < pc.len()
        invariant
            i <= pc.len(),
            pc.len() <= sc.len(),
            sc@ == s@,
            pc@ == p@,
            forall|k: int| 0 <= k < i ==> sc@[k] == pc@[k],
        decreases pc.len() - i,
    {
        if sc[i] != pc[i] {
            assert(s@.take(p@.len() as int)[i as int] != p@[i as int]);
            return false;
        }
        i = i + 1;
    }
    assert(s@.take(p@.len() as int) =~= p@);
    true
}

/// `s` with each `c` replaced by `rep`.
pub open spec fn replace_char(s: Seq<char>, c: char, rep: Seq<char>) -> Seq<char>
    decreases s.len(),
{
    if s.len() == 0 {
        Seq::empty()
    } else {
        replace_char(s.drop_last(), c, rep) + if s.last() == c {
            rep
        } else {
            seq![s.last()]
        }
    }
}

/// `s` with each `c` replaced by `rep`.
pub fn replace_all(s: &str, c: char, rep: &str) -> (r: String)
    ensures
        r@ == replace_char(s@, c, rep@),
{
    let sc = chars_of(s);
    let mut r = String::new();
    let mut i: usize = 0;
    while i < sc.len()
        invariant
            i <= sc.len(),
            sc@ == s@,
            r@ == replace_char(sc@.take(i as int), c, rep@),
        decreases sc.len() - i,
    {
        assert(sc@.take(i + 1).drop_last() == sc@.take(i as int));
        if sc[i] == c {
            string_push_str(&mut r, rep);
        } else {
            string_push(&mut r, sc[i]);
        }
        i = i + 1;
    }
    assert(sc@.take(sc.len() as int) == sc@);
    r
}

/// The pieces of `items`, with `sep` between each two.
pub open spec fn joined(items: Seq<Seq<char>>, sep: Seq<char>) -> Seq<char>
    decreases items.len(),
{
    if items.len() == 0 {
        Seq::empty()
    } else if items.len() == 1 {
        items[0]
    } else {
        joined(items.drop_last(), sep) + sep + items.last()
    }
}

/// The views of a list of strings.
pub open spec fn texts(v: Seq<String>) -> Seq<Seq<char>> {
    Seq::new(v.len(), |i: int| v[i]@)
}

/// One more string: its text comes after the others'.
pub proof fn lemma_texts_push(v: Seq<String>, x: String)
    ensures
        texts(v.push(x)) == texts(v).push(x@),
{
    assert(texts(v.push(x)) =~= texts(v).push(x@));
}

/// The strings of `v`, with `sep` between each two.
pub fn join_strings(v: &Vec<String>, sep: &str) -> (r: String)
    ensures
        r@ == joined(texts(v@), sep@),
{
    let mut r = String::new();
    let mut i: usize = 0;
    while i < v.len()
        invariant
            i <= v.len(),
            r@ == joined(texts(v@.take(i as int)), sep@),
        decreases v.len() - i,
    {
        if i > 0 {
            string_push_str(&mut r, sep);
        }
        string_push_str(&mut r, v[i].as_str());
        proof {
            let t = texts(v@.take(i + 1));
            assert(t.drop_last() =~= texts(v@.take(i as int)));
            assert(t.last() == v@[i as int]@);
        }
        i = i + 1;
    }
    assert(v@.take(v.len() as int) == v@);
    r
}

/// The lines of `s` as `str::lines` gives them: the text split at each
/// `\n`, a `\r` before it dropped, and no empty last line after a final `\n`.
pub open spec fn lines_spec(s: Seq<char>) -> Seq<Seq<char>>
    decreases s.len(),
{
    if s.len() == 0 {
        Seq::empty()
    } else {
        let k = first_newline(s, 0);
        proof {
            lemma_first_newline(s, 0);
        }
        if k == s.len() {
            seq![strip_cr(s)]
        } else {
            seq![strip_cr(s.take(k))] + lines_spec(s.skip(k + 1))
        }
    }
}

/// The index of the first `\n` of `s` at or after `i`, or the length of `s`.
pub open spec fn first_newline(s: Seq<char>, i: int) -> int
    decreases s.len() - i,
{
    if i >= s.len() {
        s.len() as int
    } else if s[i] == '\n' {
        i
    } else {
        first_newline(s, i + 1)
    }
}

pub proof fn lemma_first_newline(s: Seq<char>, i: int)
    requires
        0 <= i <= s.len(),
    ensures
        i <= first_newline(s, i) <= s.len(),
        first_newline(s, i) < s.len() ==> s[first_newline(s, i)] == '\n',
        forall|k: int| i <= k < first_newline(s, i) ==> s[k] != '\n',
    decreases s.len() - i,
{
    if i < s.len() && s[i] != '\n' {
        lemma_first_newline(s, i + 1);
    }
}

/// `s` without a final `\r`.
pub open spec fn strip_cr(s: Seq<char>) -> Seq<char> {
    if s.len() > 0 && s.last() == '\r' {
        s.drop_last()
    } else {
        s
    }
}

/// The lines of `s`, as `str::lines` gives them.
pub fn lines_of(s: &str) -> (r: Vec<String>)
    ensures
        texts(r@) == lines_spec(s@),
{
    let sc = chars_of(s);
    let mut r: Vec<String> = Vec::new();
    let mut start: usize = 0;
    let ghost whole = sc@;
    assert(whole.skip(0) =~= whole);
    assert(texts(r@) =~= Seq::<Seq<char>>::empty());
    assert(texts(r@) + lines_spec(whole.skip(0)) =~= lines_spec(whole));
    while start < sc.len()
        invariant
            start <= sc.len(),
            sc@ == s@,
            whole == s@,
            lines_spec(whole) == texts(r@) + lines_spec(whole.skip(start as int)),
        decreases sc.len() - start,
    {
        let ghost rest = whole.skip(start as int);
        let mut end: usize = start;
        while end < sc.len() && sc[end] != '\n'
            invariant
                start <= end <= sc.len(),
                forall|k: int| start <= k < end ==> sc@[k] != '\n',
            decreases sc.len() - end,
        {
            end = end + 1;
        }
        let mut stop: usize = end;
        if stop > start && sc[stop - 1] == '\r' {
            stop = stop - 1;
        }
        let mut line = String::new();
        let mut k: usize = start;
        while k < stop
            invariant
                start <= k <= stop,
                stop <= sc.len(),
                line@ == sc@.subrange(start as int, k as int),
            decreases stop - k,
        {
            string_push(&mut line, sc[k]);
            assert(sc@.subrange(start as int, k + 1) == sc@.subrange(start as int, k as int).push(sc@[k as int]));
            k = k + 1;
        }
        proof {
            lemma_first_newline(rest, 0);
            assert forall|j: int| 0 <= j < end - start implies rest[j] != '\n' by {
                assert(rest[j] == sc@[start + j]);
            }
            if end < sc.len() {
                assert(rest[end - start] == '\n');
            }
            assert(first_newline(rest, 0) == end - start) by {
                lemma_first_newline_at(rest, 0, end - start);
            }
            assert(rest.take(end - start) =~= sc@.subrange(start as int, end as int));
            assert(strip_cr(rest.take(end - start)) =~= line@);
            if end < sc.len() {
                assert(rest.skip(end - start + 1) =~= whole.skip(end + 1));
            }
        }
        let ghost before = r@;
        r.push(line);
        proof {
            assert(texts(r@) =~= texts(before).push(line@));
            if end < sc.len() {
                assert(lines_spec(rest) == seq![line@] + lines_spec(whole.skip(end + 1)));
                assert(texts(r@) + lines_spec(whole.skip(end + 1)) =~= texts(before) + lines_spec(rest));
            } else {
                assert(lines_spec(rest) == seq![line@]);
                assert(whole.skip(sc.len() as int) =~= Seq::<char>::empty());
                assert(texts(r@) + lines_spec(whole.skip(sc.len() as int)) =~= texts(before) + lines_spec(rest));
            }
        }
        if end < sc.len() {
            start = end + 1;
        } else {
            start = end;
        }
    }
    proof {
        assert(whole.skip(start as int) =~= Seq::<char>::empty());
        assert(texts(r@) + Seq::<Seq<char>>::empty() =~= texts(r@));
    }
    r
}

pub proof fn lemma_first_newline_at(s: Seq<char>, i: int, k: int)
    requires
        0 <= i <= k <= s.len(),
        forall|j: int| i <= j < k ==> s[j] != '\n',
        k < s.len() ==> s[k] == '\n',
    ensures
        first_newline(s, i) == k,
    decreases k - i,
{
    if i < k {
        lemma_first_newline_at(s, i + 1, k);
    }
}

} // verus!

verus! {

/// What `char::escape_default` writes for `c`.
pub open spec fn escape_char(c: char) -> Seq<char> {
    if c == '\t' {
        seq!['\\', 't']
    } else if c == '\r' {
        seq!['\\', 'r']
    } else if c == '\n' {
        seq!['\\', 'n']
    } else if c == '\'' || c == '"' || c == '\\' {
        seq!['\\', c]
    } else if 0x20 <= (c as u32) <= 0x7e {
        seq![c]
    } else {
        seq!['\\', 'u', '{'] + hex_text(c as u32 as nat) + seq!['}']
    }
}

/// What `str::escape_default` writes for `s`: each char escaped in turn.
pub open spec fn escape_text(s: Seq<char>) -> Seq<char>
    decreases s.len(),
{
    if s.len() == 0 {
        Seq::empty()
    } else {
        escape_text(s.drop_last()) + escape_char(s.last())
    }
}

/// The number of bytes of `c` in UTF-8.
pub open spec fn utf8_width(c: char) -> nat {
    if (c as u32) < 0x80 {
        1
    } else if (c as u32) < 0x800 {
        2
    } else if (c as u32) < 0x10000 {
        3
    } else {
        4
    }
}

/// The number of bytes of `s` in UTF-8.
pub open spec fn utf8_len(s: Seq<char>) -> nat
    decreases s.len(),
{
    if s.len() == 0 {
        0
    } else {
        utf8_len(s.drop_last()) + utf8_width(s.last())
    }
}

/// `s` escaped as `str::escape_default` escapes it.
pub fn escape_default_text(s: &str) -> (r: String)
    ensures
        r@ == escape_text(s@),
{
    let sc = chars_of(s);
    let mut r = String::new();
    let mut i: usize = 0;
    while i < sc.len()
        invariant
            i <= sc.len(),
            sc@ == s@,
            r@ == escape_text(sc@.take(i as int)),
        decreases sc.len() - i,
    {
        let c = sc[i];
        assert(sc@.take(i + 1).drop_last() == sc@.take(i as int));
        if c == '\t' {
            string_push(&mut r, '\\');
            string_push(&mut r, 't');
        } else if c == '\r' {
            string_push(&mut r, '\\');
            string_push(&mut r, 'r');
        } else if c == '\n' {
            string_push(&mut r, '\\');
            string_push(&mut r, 'n');
        } else if c == '\'' || c == '"' || c == '\\' {
            string_push(&mut r, '\\');
            string_push(&mut r, c);
        } else if 0x20 <= (c as u32) && (c as u32) <= 0x7e {
            string_push(&mut r, c);
        } else {
            string_push(&mut r, '\\');
            string_push(&mut r, 'u');
            string_push(&mut r, '{');
            let h = hex_digits(c as u32);
            string_push_str(&mut r, h.as_str());
            string_push(&mut r, '}');
        }
        i = i + 1;
    }
    assert(sc@.take(sc.len() as int) == sc@);
    r
}

/// The number of bytes of `s`.
///
/// Trusted: calls `str::len`, which std documents as the length of the
/// string in bytes, that is of its UTF-8 encoding.
#[verifier::external_body]
pub fn str_byte_len(s: &str) -> (r: usize)
    ensures
        r == utf8_len(s@),
{
    s.len()
}

/// The pieces one after another.
pub open spec fn flat(parts: Seq<Seq<char>>) -> Seq<char>
    decreases parts.len(),
{
    if parts.len() == 0 {
        Seq::empty()
    } else {
        flat(parts.drop_last()) + parts.last()
    }
}

/// The views of a list of string slices.
pub open spec fn slice_texts(v: Seq<&str>) -> Seq<Seq<char>> {
    Seq::new(v.len(), |i: int| v[i]@)
}

/// The pieces one after another.
pub fn concat(parts: &Vec<&str>) -> (r: String)
    ensures
        r@ == flat(slice_texts(parts@)),
        parts@.len() == 2 ==> r@ == parts@[0]@ + parts@[1]@,
        parts@.len() == 3 ==> r@ == parts@[0]@ + parts@[1]@ + parts@[2]@,
        parts@.len() == 4 ==> r@ == parts@[0]@ + parts@[1]@ + parts@[2]@ + parts@[3]@,
        parts@.len() == 5 ==> r@ == parts@[0]@ + parts@[1]@ + parts@[2]@ + parts@[3]@ + parts@[4]@,
        parts@.len() == 6 ==> r@ == parts@[0]@ + parts@[1]@ + parts@[2]@ + parts@[3]@ + parts@[4]@ + parts@[5]@,
        parts@.len() == 7 ==> r@ == parts@[0]@ + parts@[1]@ + parts@[2]@ + parts@[3]@ + parts@[4]@ + parts@[5]@
            + parts@[6]@,
{
    let mut r = String::new();
    let mut i: usize = 0;
    while i < parts.len()
        invariant
            i <= parts.len(),
            r@ == flat(slice_texts(parts@.take(i as int))),
        decreases parts.len() - i,
    {
        string_push_str(&mut r, parts[i]);
        proof {
            assert(slice_texts(parts@.take(i + 1)).drop_last() =~= slice_texts(parts@.take(i as int)));
        }
        i = i + 1;
    }
    assert(parts@.take(parts.len() as int) == parts@);
    proof {
        lemma_flat_small(slice_texts(parts@));
    }
    r
}

/// `flat` of a few pieces, written out.
proof fn lemma_flat_small(p: Seq<Seq<char>>)
    ensures
        p.len() == 2 ==> flat(p) == p[0] + p[1],
        p.len() == 3 ==> flat(p) == p[0] + p[1] + p[2],
        p.len() == 4 ==> flat(p) == p[0] + p[1] + p[2] + p[3],
        p.len() == 5 ==> flat(p) == p[0] + p[1] + p[2] + p[3] + p[4],
        p.len() == 6 ==> flat(p) == p[0] + p[1] + p[2] + p[3] + p[4] + p[5],
        p.len() == 7 ==> flat(p) == p[0] + p[1] + p[2] + p[3] + p[4] + p[5] + p[6],
{
    reveal_with_fuel(flat, 8);
    if p.len() == 2 {
        assert(p.drop_last().drop_last() =~= Seq::<Seq<char>>::empty());
        assert(flat(p) =~= p[0] + p[1]);
    } else if p.len() == 3 {
        assert(p.drop_last().drop_last().drop_last() =~= Seq::<Seq<char>>::empty());
        assert(flat(p) =~= p[0] + p[1] + p[2]);
    } else if p.len() == 4 {
        assert(p.drop_last().drop_last().drop_last().drop_last() =~= Seq::<Seq<char>>::empty());
        assert(flat(p) =~= p[0] + p[1] + p[2] + p[3]);
    } else if p.len() == 5 {
        assert(p.drop_last().drop_last().drop_last().drop_last().drop_last() =~= Seq::<Seq<char>>::empty());
        assert(flat(p) =~= p[0] + p[1] + p[2] + p[3] + p[4]);
    } else if p.len() == 6 {
        assert(p.drop_last().drop_last().drop_last().drop_last().drop_last().drop_last() =~= Seq::<
            Seq<char>,
        >::empty());
        assert(flat(p) =~= p[0] + p[1] + p[2] + p[3] + p[4] + p[5]);
    } else if p.len() == 7 {
        assert(p.drop_last().drop_last().drop_last().drop_last().drop_last().drop_last().drop_last()
            =~= Seq::<Seq<char>>::empty());
        assert(flat(p) =~= p[0] + p[1] + p[2] + p[3] + p[4] + p[5] + p[6]);
    }
}

} // verus!

verus! {

/// Joined pieces start with the first piece.
pub proof fn lemma_joined_first(items: Seq<Seq<char>>, sep: Seq<char>)
    requires
        items.len() > 0,
    ensures
        items[0].len() <= joined(items, sep).len(),
        joined(items, sep).take(items[0].len() as int) == items[0],
    decreases items.len(),
{
    if items.len() > 1 {
        lemma_joined_first(items.drop_last(), sep);
        let j = joined(items.drop_last(), sep);
        assert(items.drop_last()[0] == items[0]);
        assert((j + sep + items.last()).take(items[0].len() as int) =~= j.take(items[0].len() as int));
    }
}

} // verus!

verus! {

/// The decimal text of an integer that fits in 64 bits.
pub fn i128_text(v: i128) -> (r: String)
    requires
        i64::MIN <= v <= u64::MAX,
    ensures
        r@ == int_text(v as int),
{
    if v < 0 {
        let mut r = String::new();
        string_push(&mut r, '-');
        let digits = radix_digits((-v) as u128, 10);
        string_push_str(&mut r, digits.as_str());
        r
    } else {
        radix_digits(v as u128, 10)
    }
}

} // verus!
