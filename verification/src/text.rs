//! Text helpers shared by the ledger format and the descriptor renderer:
//! conversion between strings and character vectors, splitting, joining,
//! placeholder substitution, and the number formats used in both artifacts.

use vstd::prelude::*;
use vstd::string::*;

verus! {

/// Appends one character to a string. Calls `String::push`, of which the
/// standard library documents exactly this: the character is appended to the
/// end of the string.
#[verifier::external_body]
fn push_char(s: &mut String, c: char)
    ensures
        final(s)@ == old(s)@.push(c),
{
    s.push(c);
}

/// The characters of `s`, in order.
pub fn chars_of(s: &str) -> (v: Vec<char>)
    ensures
        v@ == s@,
{
    broadcast use vstd::string::group_string_axioms;

    let mut v: Vec<char> = Vec::new();
    for c in it: s.chars()
        invariant
            it.seq() == s@,
            v@ == it.seq().take(it.index()),
    {
        v.push(c);
    }
    assert(v@ =~= s@);
    v
}

/// The string made of the characters of `v`, in order.
pub fn string_of(v: &Vec<char>) -> (s: String)
    ensures
        s@ == v@,
{
    let mut s = String::new();
    let mut i: usize = 0;
    while i < v.len()
        invariant
            i <= v.len(),
            s@ == v@.take(i as int),
        decreases v.len() - i,
    {
        push_char(&mut s, v[i]);
        i += 1;
        assert(v@.take(i as int) =~= v@.take(i - 1).push(v@[i - 1]));
    }
    assert(v@.take(v.len() as int) =~= v@);
    s
}

/// Appends the characters of `tail` to `out`.
pub fn extend_chars(out: &mut Vec<char>, tail: &Vec<char>)
    ensures
        final(out)@ == old(out)@ + tail@,
{
    let mut i: usize = 0;
    while i < tail.len()
        invariant
            i <= tail.len(),
            out@ == old(out)@ + tail@.take(i as int),
        decreases tail.len() - i,
    {
        out.push(tail[i]);
        i += 1;
        assert(tail@.take(i as int) =~= tail@.take(i - 1).push(tail@[i - 1]));
        assert(out@ =~= old(out)@ + tail@.take(i as int));
    }
    assert(tail@.take(tail.len() as int) =~= tail@);
}

/// Appends the characters of the string `tail` to `out`.
pub fn extend_str(out: &mut Vec<char>, tail: &str)
    ensures
        final(out)@ == old(out)@ + tail@,
{
    let t = chars_of(tail);
    extend_chars(out, &t);
}

/// A copy of the characters `v[from..to]`.
pub fn slice_chars(v: &Vec<char>, from: usize, to: usize) -> (r: Vec<char>)
    requires
        from <= to <= v.len(),
    ensures
        r@ == v@.subrange(from as int, to as int),
{
    let mut r: Vec<char> = Vec::new();
    let mut i: usize = from;
    while i < to
        invariant
            from <= i <= to <= v.len(),
            r@ == v@.subrange(from as int, i as int),
        decreases to - i,
    {
        r.push(v[i]);
        i += 1;
        assert(v@.subrange(from as int, i as int) =~= v@.subrange(from as int, i - 1).push(
            v@[i - 1],
        ));
    }
    r
}

/// Whether two character vectors hold the same text.
pub fn same_chars(a: &Vec<char>, b: &Vec<char>) -> (r: bool)
    ensures
        r == (a@ == b@),
{
    if a.len() != b.len() {
        return false;
    }
    let mut i: usize = 0;
    while i < a.len()
        invariant
            i <= a.len(),
            a.len() == b.len(),
            a@.take(i as int) == b@.take(i as int),
        decreases a.len() - i,
    {
        if a[i] != b[i] {
            return false;
        }
        i += 1;
        assert(a@.take(i as int) =~= a@.take(i - 1).push(a@[i - 1]));
        assert(b@.take(i as int) =~= b@.take(i - 1).push(b@[i - 1]));
    }
    assert(a@.take(a.len() as int) =~= a@);
    assert(b@.take(b.len() as int) =~= b@);
    true
}

/// `pat` occurs in `s` starting at index `i`.
pub open spec fn occurs_at(s: Seq<char>, pat: Seq<char>, i: int) -> bool {
    &&& 0 <= i
    &&& i + pat.len() <= s.len()
    &&& s.subrange(i, i + pat.len()) == pat
}

/// Whether `pat` occurs in `s` starting at index `i`.
pub fn occurs_at_index(s: &Vec<char>, pat: &Vec<char>, i: usize) -> (r: bool)
    requires
        i <= s.len(),
    ensures
        r == occurs_at(s@, pat@, i as int),
{
    if pat.len() > s.len() - i {
        return false;
    }
    let mut k: usize = 0;
    while k < pat.len()
        invariant
            k <= pat.len(),
            i + pat.len() <= s.len(),
            s@.subrange(i as int, i + k) == pat@.take(k as int),
        decreases pat.len() - k,
    {
        if s[i + k] != pat[k] {
            assert(s@.subrange(i as int, i + pat.len())[k as int] != pat@[k as int]);
            return false;
        }
        k += 1;
        assert(s@.subrange(i as int, i + k) =~= s@.subrange(i as int, i + k - 1).push(
            s@[i + k - 1],
        ));
        assert(pat@.take(k as int) =~= pat@.take(k - 1).push(pat@[k - 1]));
    }
    assert(pat@.take(pat.len() as int) =~= pat@);
    true
}

/// `s` with every occurrence of `from` replaced by `to`, scanning from the
/// left and never matching inside text that was already replaced.
pub open spec fn substituted(s: Seq<char>, from: Seq<char>, to: Seq<char>) -> Seq<char>
    decreases s.len(),
{
    if from.len() == 0 || s.len() < from.len() {
        s
    } else if s.take(from.len() as int) == from {
        to + substituted(s.skip(from.len() as int), from, to)
    } else {
        seq![s[0]] + substituted(s.skip(1), from, to)
    }
}

/// Replaces every occurrence of `from` in `s` by `to`.
pub fn substitute(s: &Vec<char>, from: &Vec<char>, to: &Vec<char>) -> (r: Vec<char>)
    ensures
        r@ == substituted(s@, from@, to@),
{
    let mut out: Vec<char> = Vec::new();
    if from.len() == 0 {
        extend_chars(&mut out, s);
        assert(out@ =~= s@);
        return out;
    }
    let mut i: usize = 0;
    assert(s@.skip(0) =~= s@);
    assert(out@ + substituted(s@, from@, to@) =~= substituted(s@, from@, to@));
    while i < s.len() && s.len() - i >= from.len()
        invariant
            i <= s.len(),
            from.len() > 0,
            substituted(s@, from@, to@) == out@ + substituted(s@.skip(i as int), from@, to@),
        decreases s.len() - i,
    {
        let ghost rest = s@.skip(i as int);
        let hit = occurs_at_index(s, from, i);
        assert(rest.take(from.len() as int) =~= s@.subrange(i as int, i + from.len()));
        if hit {
            let ghost before = out@;
            extend_chars(&mut out, to);
            i += from.len();
            assert(rest.skip(from.len() as int) =~= s@.skip(i as int));
            assert(out@ + substituted(s@.skip(i as int), from@, to@) =~= before + (to@
                + substituted(rest.skip(from.len() as int), from@, to@)));
        } else {
            let ghost before = out@;
            out.push(s[i]);
            i += 1;
            assert(rest.skip(1) =~= s@.skip(i as int));
            assert(out@ + substituted(s@.skip(i as int), from@, to@) =~= before + (seq![rest[0]]
                + substituted(rest.skip(1), from@, to@)));
        }
    }
    let ghost before = out@;
    let tail = slice_chars(s, i, s.len());
    extend_chars(&mut out, &tail);
    assert(tail@ =~= s@.skip(i as int));
    out
}

/// The pieces of `s` between occurrences of the separator `sep`, as
/// `str::split` yields them: a text without the separator is one piece, and
/// two separators in a row enclose an empty piece.
pub open spec fn split_on(s: Seq<char>, sep: Seq<char>) -> Seq<Seq<char>>
    decreases s.len(),
{
    if sep.len() == 0 || s.len() < sep.len() {
        seq![s]
    } else if s.take(sep.len() as int) == sep {
        seq![Seq::<char>::empty()] + split_on(s.skip(sep.len() as int), sep)
    } else {
        let rest = split_on(s.skip(1), sep);
        seq![seq![s[0]] + rest[0]] + rest.skip(1)
    }
}

/// Splitting always yields at least one piece.
pub proof fn lemma_split_nonempty(s: Seq<char>, sep: Seq<char>)
    ensures
        split_on(s, sep).len() >= 1,
    decreases s.len(),
{
    if sep.len() == 0 || s.len() < sep.len() {
    } else if s.take(sep.len() as int) == sep {
        lemma_split_nonempty(s.skip(sep.len() as int), sep);
    } else {
        lemma_split_nonempty(s.skip(1), sep);
    }
}

/// The view of a vector of character vectors.
pub open spec fn pieces_view(v: Seq<Vec<char>>) -> Seq<Seq<char>> {
    v.map_values(|p: Vec<char>| p@)
}

/// Splits `s` at every occurrence of `sep`.
pub fn split(s: &Vec<char>, sep: &Vec<char>) -> (r: Vec<Vec<char>>)
    ensures
        pieces_view(r@) == split_on(s@, sep@),
        r.len() >= 1,
{
    let mut done: Vec<Vec<char>> = Vec::new();
    let mut cur: Vec<char> = Vec::new();
    if sep.len() == 0 {
        extend_chars(&mut cur, s);
        done.push(cur);
        assert(pieces_view(done@) =~= split_on(s@, sep@));
        return done;
    }
    let mut i: usize = 0;
    proof {
        let all = split_on(s@, sep@);
        lemma_split_nonempty(s@, sep@);
        assert(s@.skip(0) =~= s@);
        assert(cur@ + all[0] =~= all[0]);
        assert(pieces_view(done@) + (seq![all[0]] + all.skip(1)) =~= all);
    }
    while i < s.len() && s.len() - i >= sep.len()
        invariant
            i <= s.len(),
            sep.len() > 0,
            split_on(s@, sep@) == pieces_view(done@) + (seq![
                cur@ + split_on(s@.skip(i as int), sep@)[0],
            ] + split_on(s@.skip(i as int), sep@).skip(1)),
        decreases s.len() - i,
    {
        let ghost rest = s@.skip(i as int);
        let hit = occurs_at_index(s, sep, i);
        assert(rest.take(sep.len() as int) =~= s@.subrange(i as int, i + sep.len()));
        if hit {
            let ghost before = pieces_view(done@);
            let ghost piece = cur@;
            let mut fresh: Vec<char> = Vec::new();
            std::mem::swap(&mut cur, &mut fresh);
            done.push(fresh);
            i += sep.len();
            proof {
                let after = split_on(s@.skip(i as int), sep@);
                lemma_split_nonempty(s@.skip(i as int), sep@);
                assert(rest.skip(sep.len() as int) =~= s@.skip(i as int));
                assert(split_on(rest, sep@) =~= seq![Seq::<char>::empty()] + after);
                assert(piece + split_on(rest, sep@)[0] =~= piece);
                assert(split_on(rest, sep@).skip(1) =~= after);
                assert(pieces_view(done@) =~= before.push(piece));
                assert(cur@ + after[0] =~= after[0]);
                assert(seq![cur@ + after[0]] + after.skip(1) =~= after);
                assert(before + (seq![piece] + after) =~= before.push(piece) + after);
            }
        } else {
            let ghost piece = cur@;
            cur.push(s[i]);
            i += 1;
            proof {
                let after = split_on(s@.skip(i as int), sep@);
                lemma_split_nonempty(s@.skip(i as int), sep@);
                assert(rest.skip(1) =~= s@.skip(i as int));
                assert(split_on(rest, sep@) =~= seq![seq![rest[0]] + after[0]] + after.skip(1));
                assert(piece + split_on(rest, sep@)[0] =~= cur@ + after[0]);
                assert(split_on(rest, sep@).skip(1) =~= after.skip(1));
            }
        }
    }
    let tail = slice_chars(s, i, s.len());
    extend_chars(&mut cur, &tail);
    proof {
        let rest = s@.skip(i as int);
        assert(tail@ =~= rest);
        assert(split_on(rest, sep@) =~= seq![rest]);
        assert(split_on(rest, sep@).skip(1) =~= Seq::<Seq<char>>::empty());
    }
    let ghost before = pieces_view(done@);
    done.push(cur);
    assert(pieces_view(done@) =~= before.push(cur@));
    assert(pieces_view(done@) =~= split_on(s@, sep@));
    done
}

/// The pieces of `parts` joined with `sep` between them.
pub open spec fn joined(parts: Seq<Seq<char>>, sep: Seq<char>) -> Seq<char>
    decreases parts.len(),
{
    if parts.len() == 0 {
        Seq::<char>::empty()
    } else if parts.len() == 1 {
        parts[0]
    } else {
        joined(parts.drop_last(), sep) + sep + parts.last()
    }
}

/// Joins `parts` with `sep` between them.
pub fn join(parts: &Vec<Vec<char>>, sep: &Vec<char>) -> (r: Vec<char>)
    ensures
        r@ == joined(pieces_view(parts@), sep@),
{
    let mut out: Vec<char> = Vec::new();
    let mut i: usize = 0;
    while i < parts.len()
        invariant
            i <= parts.len(),
            out@ == joined(pieces_view(parts@).take(i as int), sep@),
        decreases parts.len() - i,
    {
        let ghost before = pieces_view(parts@).take(i as int);
        if i > 0 {
            extend_chars(&mut out, sep);
        }
        extend_chars(&mut out, &parts[i]);
        i += 1;
        proof {
            let now = pieces_view(parts@).take(i as int);
            assert(now.drop_last() =~= before);
            assert(now.last() == parts@[i - 1]@);
            if i == 1 {
                assert(out@ =~= now[0]);
            }
        }
    }
    assert(pieces_view(parts@).take(parts.len() as int) =~= pieces_view(parts@));
    out
}

/// The hexadecimal digit, in lower case, for a value below sixteen.
pub open spec fn hex_digit(d: int) -> char {
    if d == 0 {
        '0'
    } else if d == 1 {
        '1'
    } else if d == 2 {
        '2'
    } else if d == 3 {
        '3'
    } else if d == 4 {
        '4'
    } else if d == 5 {
        '5'
    } else if d == 6 {
        '6'
    } else if d == 7 {
        '7'
    } else if d == 8 {
        '8'
    } else if d == 9 {
        '9'
    } else if d == 10 {
        'a'
    } else if d == 11 {
        'b'
    } else if d == 12 {
        'c'
    } else if d == 13 {
        'd'
    } else if d == 14 {
        'e'
    } else {
        'f'
    }
}

/// The digits of `n` in base sixteen, most significant first, without
/// leading zeros (zero is the single digit `0`).
pub open spec fn hex_digits(n: nat) -> Seq<char>
    decreases n,
{
    if n < 16 {
        seq![hex_digit(n as int)]
    } else {
        hex_digits(n / 16).push(hex_digit((n % 16) as int))
    }
}

/// `n` as a hexadecimal literal: `0x` and its digits.
pub open spec fn hex_literal(n: nat) -> Seq<char> {
    seq!['0', 'x'] + hex_digits(n)
}

/// The digits of `n` in base ten, most significant first.
pub open spec fn dec_digits(n: nat) -> Seq<char>
    decreases n,
{
    if n < 10 {
        seq![hex_digit(n as int)]
    } else {
        dec_digits(n / 10).push(hex_digit((n % 10) as int))
    }
}

/// `i` in base ten, with a minus sign in front of a negative number.
pub open spec fn dec_text(i: int) -> Seq<char> {
    if i < 0 {
        seq!['-'] + dec_digits((-i) as nat)
    } else {
        dec_digits(i as nat)
    }
}

fn digit_char(d: u64) -> (c: char)
    requires
        d < 16,
    ensures
        c == hex_digit(d as int),
{
    if d == 0 {
        '0'
    } else if d == 1 {
        '1'
    } else if d == 2 {
        '2'
    } else if d == 3 {
        '3'
    } else if d == 4 {
        '4'
    } else if d == 5 {
        '5'
    } else if d == 6 {
        '6'
    } else if d == 7 {
        '7'
    } else if d == 8 {
        '8'
    } else if d == 9 {
        '9'
    } else if d == 10 {
        'a'
    } else if d == 11 {
        'b'
    } else if d == 12 {
        'c'
    } else if d == 13 {
        'd'
    } else if d == 14 {
        'e'
    } else {
        'f'
    }
}

/// The digits of `n` in base sixteen.
pub fn hex_digit_chars(n: u64) -> (r: Vec<char>)
    ensures
        r@ == hex_digits(n as nat),
    decreases n,
{
    if n < 16 {
        let mut r: Vec<char> = Vec::new();
        r.push(digit_char(n));
        assert(r@ =~= seq![hex_digit(n as int)]);
        r
    } else {
        let mut r = hex_digit_chars(n / 16);
        r.push(digit_char(n % 16));
        r
    }
}

/// The digits of `n` in base ten.
pub fn dec_digit_chars(n: u64) -> (r: Vec<char>)
    ensures
        r@ == dec_digits(n as nat),
    decreases n,
{
    if n < 10 {
        let mut r: Vec<char> = Vec::new();
        r.push(digit_char(n));
        assert(r@ =~= seq![hex_digit(n as int)]);
        r
    } else {
        let mut r = dec_digit_chars(n / 10);
        r.push(digit_char(n % 10));
        r
    }
}

/// The digits of a wide number in base ten.
pub fn dec_digit_chars_wide(n: u128) -> (r: Vec<char>)
    ensures
        r@ == dec_digits(n as nat),
    decreases n,
{
    if n < 10 {
        let mut r: Vec<char> = Vec::new();
        r.push(digit_char(n as u64));
        assert(r@ =~= seq![hex_digit(n as int)]);
        r
    } else {
        let mut r = dec_digit_chars_wide(n / 10);
        r.push(digit_char((n % 10) as u64));
        r
    }
}

/// `n` as a hexadecimal literal, such as `0x7f8f0000`.
pub fn hex_chars(n: u64) -> (r: Vec<char>)
    ensures
        r@ == hex_literal(n as nat),
{
    let mut r: Vec<char> = Vec::new();
    r.push('0');
    r.push('x');
    let d = hex_digit_chars(n);
    extend_chars(&mut r, &d);
    assert(r@ =~= hex_literal(n as nat));
    r
}

/// `n` as a hexadecimal literal, such as `0x7f8f0000`.
pub fn hex_text(n: u64) -> (s: String)
    ensures
        s@ == hex_literal(n as nat),
{
    let r = hex_chars(n);
    string_of(&r)
}

/// `i` in base ten.
pub fn dec_chars(i: i64) -> (r: Vec<char>)
    ensures
        r@ == dec_text(i as int),
{
    if i < 0 {
        let mut r: Vec<char> = Vec::new();
        r.push('-');
        let m: u64 = if i == i64::MIN {
            9223372036854775808u64
        } else {
            (-i) as u64
        };
        let d = dec_digit_chars(m);
        extend_chars(&mut r, &d);
        assert(r@ =~= dec_text(i as int));
        r
    } else {
        dec_digit_chars(i as u64)
    }
}

/// `i` in base ten.
pub fn dec_string(i: i64) -> (s: String)
    ensures
        s@ == dec_text(i as int),
{
    let r = dec_chars(i);
    string_of(&r)
}

/// The value of a hexadecimal digit of either case.
pub open spec fn hex_digit_value(c: char) -> Option<int> {
    if c == '0' {
        Some(0)
    } else if c == '1' {
        Some(1)
    } else if c == '2' {
        Some(2)
    } else if c == '3' {
        Some(3)
    } else if c == '4' {
        Some(4)
    } else if c == '5' {
        Some(5)
    } else if c == '6' {
        Some(6)
    } else if c == '7' {
        Some(7)
    } else if c == '8' {
        Some(8)
    } else if c == '9' {
        Some(9)
    } else if c == 'a' || c == 'A' {
        Some(10)
    } else if c == 'b' || c == 'B' {
        Some(11)
    } else if c == 'c' || c == 'C' {
        Some(12)
    } else if c == 'd' || c == 'D' {
        Some(13)
    } else if c == 'e' || c == 'E' {
        Some(14)
    } else if c == 'f' || c == 'F' {
        Some(15)
    } else {
        None
    }
}

/// The value of a digit in the given base (ten or sixteen), if it is one.
pub open spec fn digit_value(c: char, base: int) -> Option<int> {
    match hex_digit_value(c) {
        Some(d) => if d < base {
            Some(d)
        } else {
            None
        },
        None => None,
    }
}

fn digit_of(c: char, base: u64) -> (r: Option<u64>)
    ensures
        match r {
            Some(d) => digit_value(c, base as int) == Some(d as int) && d < 16,
            None => digit_value(c, base as int) is None,
        },
{
    let d: u64 = if c == '0' {
        0
    } else if c == '1' {
        1
    } else if c == '2' {
        2
    } else if c == '3' {
        3
    } else if c == '4' {
        4
    } else if c == '5' {
        5
    } else if c == '6' {
        6
    } else if c == '7' {
        7
    } else if c == '8' {
        8
    } else if c == '9' {
        9
    } else if c == 'a' || c == 'A' {
        10
    } else if c == 'b' || c == 'B' {
        11
    } else if c == 'c' || c == 'C' {
        12
    } else if c == 'd' || c == 'D' {
        13
    } else if c == 'e' || c == 'E' {
        14
    } else if c == 'f' || c == 'F' {
        15
    } else {
        return None;
    };
    if d < base {
        Some(d)
    } else {
        None
    }
}

/// Every character of `s` is a digit of the base.
pub open spec fn all_digits(s: Seq<char>, base: int) -> bool {
    forall|i: int| 0 <= i < s.len() ==> (#[trigger] digit_value(s[i], base)) is Some
}

/// The number that the digits `s` denote in the base, most significant
/// digit first.
pub open spec fn digits_value(s: Seq<char>, base: int) -> int
    decreases s.len(),
{
    if s.len() == 0 {
        0
    } else {
        match digit_value(s.last(), base) {
            Some(d) => digits_value(s.drop_last(), base) * base + d,
            None => 0,
        }
    }
}

/// What an unsigned number reads as: an optional `+`, then at least one
/// digit of the base, the value being at most `max`.
pub open spec fn unsigned_value(s: Seq<char>, base: int, max: int) -> Option<int> {
    let digits = if s.len() > 0 && s[0] == '+' {
        s.skip(1)
    } else {
        s
    };
    if digits.len() > 0 && all_digits(digits, base) && digits_value(digits, base) <= max {
        Some(digits_value(digits, base))
    } else {
        None
    }
}

proof fn lemma_digits_value_nonneg(s: Seq<char>, base: int)
    requires
        base > 0,
    ensures
        digits_value(s, base) >= 0,
    decreases s.len(),
{
    if s.len() > 0 {
        lemma_digits_value_nonneg(s.drop_last(), base);
        assert(digits_value(s.drop_last(), base) * base >= 0) by (nonlinear_arith)
            requires
                digits_value(s.drop_last(), base) >= 0,
                base > 0,
        ;
    }
}

proof fn lemma_digits_value_grows(s: Seq<char>, k: int, base: int)
    requires
        base > 1,
        0 <= k <= s.len(),
        all_digits(s, base),
    ensures
        digits_value(s.take(k), base) <= digits_value(s, base),
    decreases s.len() - k,
{
    if k < s.len() {
        lemma_digits_value_grows(s, k + 1, base);
        let t = s.take(k + 1);
        assert(t.drop_last() =~= s.take(k));
        assert(t.last() == s[k]);
        assert(digit_value(s[k], base) is Some);
        lemma_digits_value_nonneg(s.take(k), base);
        let v = digits_value(s.take(k), base);
        assert(v <= v * base) by (nonlinear_arith)
            requires
                v >= 0,
                base > 1,
        ;
    } else {
        assert(s.take(k) =~= s);
    }
}

/// Reads an unsigned number in base ten or sixteen from `s[from..]`.
pub fn read_unsigned(s: &Vec<char>, from: usize, base: u64, max: u64) -> (r: Option<u64>)
    requires
        from <= s.len(),
        base == 10 || base == 16,
        max <= u64::MAX / 16 - 1 || max == u64::MAX,
    ensures
        match r {
            Some(v) => unsigned_value(s@.skip(from as int), base as int, max as int) == Some(
                v as int,
            ),
            None => unsigned_value(s@.skip(from as int), base as int, max as int) is None,
        },
{
    let ghost text = s@.skip(from as int);
    let mut i: usize = from;
    if i < s.len() && s[i] == '+' {
        i += 1;
    }
    let start: usize = i;
    let ghost digits = s@.skip(start as int);
    assert(digits =~= if text.len() > 0 && text[0] == '+' {
        text.skip(1)
    } else {
        text
    });
    if i == s.len() {
        return None;
    }
    let mut acc: u64 = 0;
    while i < s.len()
        invariant
            start <= i <= s.len(),
            base == 10 || base == 16,
            digits == s@.skip(start as int),
            text == s@.skip(from as int),
            digits == if text.len() > 0 && text[0] == '+' {
                text.skip(1)
            } else {
                text
            },
            all_digits(digits.take(i - start), base as int),
            acc == digits_value(digits.take(i - start), base as int),
            acc <= max,
            max <= u64::MAX / 16 - 1 || max == u64::MAX,
        decreases s.len() - i,
    {
        let ghost seen = digits.take(i - start);
        let ghost next = digits.take(i - start + 1);
        proof {
            assert(next.drop_last() =~= seen);
            assert(next.last() == s@[i as int]);
        }
        match digit_of(s[i], base) {
            None => {
                assert(digit_value(digits[i - start], base as int) is None);
                return None;
            },
            Some(d) => {
                proof {
                    assert forall|k: int| 0 <= k < next.len() implies (#[trigger] digit_value(
                        next[k],
                        base as int,
                    )) is Some by {
                        if k < seen.len() {
                            assert(next[k] == seen[k]);
                        }
                    }
                    assert(digits_value(next, base as int) == acc * base + d);
                }
                let too_big = if max == u64::MAX {
                    acc > (u64::MAX - d) / base
                } else {
                    acc * base + d > max
                };
                if too_big {
                    proof {
                        assert(acc * base + d > max) by (nonlinear_arith)
                            requires
                                too_big,
                                max == u64::MAX ==> acc > (u64::MAX - d) / (base as int),
                                max != u64::MAX ==> acc * base + d > max,
                                base == 10 || base == 16,
                                d < 16,
                        ;
                        assert forall|k: int| 0 <= k < digits.len() && !((#[trigger] digit_value(
                            digits[k],
                            base as int,
                        )) is Some) implies !all_digits(digits, base as int) by {}
                        if all_digits(digits, base as int) {
                            lemma_digits_value_grows(digits, i - start + 1, base as int);
                        }
                    }
                    return None;
                }
                proof {
                    assert(acc * base + d <= u64::MAX) by (nonlinear_arith)
                        requires
                            !too_big,
                            max == u64::MAX ==> acc <= (u64::MAX - d) / (base as int),
                            max != u64::MAX ==> acc * base + d <= max,
                            base == 10 || base == 16,
                            d < 16,
                            max <= u64::MAX,
                    ;
                }
                acc = acc * base + d;
                i += 1;
            },
        }
    }
    assert(digits.take(i - start) =~= digits);
    Some(acc)
}

/// What `text` denotes as a hexadecimal address: any `0x` prefixes are
/// dropped, then an unsigned hexadecimal number that fits 64 bits follows.
pub open spec fn hex_value(text: Seq<char>) -> Option<u64> {
    match unsigned_value(without_0x(text), 16, u64::MAX as int) {
        Some(v) => Some(v as u64),
        None => None,
    }
}

/// `text` without the `0x` prefixes that it starts with.
pub open spec fn without_0x(text: Seq<char>) -> Seq<char>
    decreases text.len(),
{
    if text.len() >= 2 && text[0] == '0' && text[1] == 'x' {
        without_0x(text.skip(2))
    } else {
        text
    }
}

/// Reads a hexadecimal address such as `0x70000000`.
pub fn parse_hex_chars(s: &Vec<char>) -> (r: Option<u64>)
    ensures
        r == hex_value(s@),
{
    let mut i: usize = 0;
    assert(s@.skip(0) =~= s@);
    while i < s.len() && s.len() - i >= 2 && s[i] == '0' && s[i + 1] == 'x'
        invariant
            i <= s.len(),
            without_0x(s@) == without_0x(s@.skip(i as int)),
        decreases s.len() - i,
    {
        assert(s@.skip(i as int).skip(2) =~= s@.skip(i + 2));
        assert(s@.skip(i as int)[0] == '0' && s@.skip(i as int)[1] == 'x');
        i += 2;
    }
    assert(without_0x(s@.skip(i as int)) == s@.skip(i as int));
    match read_unsigned(s, i, 16, u64::MAX) {
        Some(v) => Some(v),
        None => None,
    }
}

/// Reads a hexadecimal address such as `0x70000000`.
pub fn parse_hex(s: &str) -> (r: Option<u64>)
    ensures
        r == hex_value(s@),
{
    let v = chars_of(s);
    parse_hex_chars(&v)
}

/// What `text` denotes as a small identifier: an unsigned decimal number of
/// at most 127.
pub open spec fn id_value(text: Seq<char>) -> Option<i8> {
    match unsigned_value(text, 10, 127) {
        Some(v) => Some(v as i8),
        None => None,
    }
}

/// Reads a small identifier in base ten.
pub fn parse_id_chars(s: &Vec<char>) -> (r: Option<i8>)
    ensures
        r == id_value(s@),
{
    assert(s@.skip(0) =~= s@);
    match read_unsigned(s, 0, 10, 127) {
        Some(v) => Some(v as i8),
        None => None,
    }
}

/// What `text` denotes as a count: an unsigned decimal number that fits 64
/// bits.
pub open spec fn count_value(text: Seq<char>) -> Option<u64> {
    match unsigned_value(text, 10, u64::MAX as int) {
        Some(v) => Some(v as u64),
        None => None,
    }
}

/// Reads an unsigned decimal number.
pub fn parse_count_chars(s: &Vec<char>) -> (r: Option<u64>)
    ensures
        r == count_value(s@),
{
    assert(s@.skip(0) =~= s@);
    match read_unsigned(s, 0, 10, u64::MAX) {
        Some(v) => Some(v),
        None => None,
    }
}

/// White space as `str::trim` understands it.
pub open spec fn is_space(c: char) -> bool {
    ||| c == ' '
    ||| ('\u{9}' <= c && c <= '\u{d}')
    ||| c == '\u{85}'
    ||| c == '\u{a0}'
    ||| c == '\u{1680}'
    ||| ('\u{2000}' <= c && c <= '\u{200a}')
    ||| c == '\u{2028}'
    ||| c == '\u{2029}'
    ||| c == '\u{202f}'
    ||| c == '\u{205f}'
    ||| c == '\u{3000}'
}

/// Whether the character is white space.
pub fn space(c: char) -> (r: bool)
    ensures
        r == is_space(c),
{
    c == ' ' || ('\u{9}' <= c && c <= '\u{d}') || c == '\u{85}' || c == '\u{a0}' || c
        == '\u{1680}' || ('\u{2000}' <= c && c <= '\u{200a}') || c == '\u{2028}' || c
        == '\u{2029}' || c == '\u{202f}' || c == '\u{205f}' || c == '\u{3000}'
}

/// `s` without the white space it starts with.
pub open spec fn trimmed_start(s: Seq<char>) -> Seq<char>
    decreases s.len(),
{
    if s.len() > 0 && is_space(s[0]) {
        trimmed_start(s.skip(1))
    } else {
        s
    }
}

/// `s` without the white space it ends with.
pub open spec fn trimmed_end(s: Seq<char>) -> Seq<char>
    decreases s.len(),
{
    if s.len() > 0 && is_space(s.last()) {
        trimmed_end(s.drop_last())
    } else {
        s
    }
}

/// `s` without white space at either end.
pub open spec fn trimmed(s: Seq<char>) -> Seq<char> {
    trimmed_end(trimmed_start(s))
}

/// Removes white space at both ends.
pub fn trim(s: &Vec<char>) -> (r: Vec<char>)
    ensures
        r@ == trimmed(s@),
{
    let mut from: usize = 0;
    assert(s@.skip(0) =~= s@);
    while from < s.len() && space(s[from])
        invariant
            from <= s.len(),
            trimmed_start(s@) == trimmed_start(s@.skip(from as int)),
        decreases s.len() - from,
    {
        assert(s@.skip(from as int).skip(1) =~= s@.skip(from + 1));
        from += 1;
    }
    assert(trimmed_start(s@) == s@.skip(from as int));
    assert(s@.skip(from as int) =~= s@.subrange(from as int, s.len() as int));
    let mut to: usize = s.len();
    while to > from && space(s[to - 1])
        invariant
            from <= to <= s.len(),
            trimmed_end(s@.skip(from as int)) == trimmed_end(s@.subrange(from as int, to as int)),
        decreases to,
    {
        assert(s@.subrange(from as int, to as int).drop_last() =~= s@.subrange(
            from as int,
            to - 1,
        ));
        to -= 1;
    }
    slice_chars(s, from, to)
}


/// A hexadecimal digit has the value it was written for.
pub proof fn lemma_hex_digit_value(d: int)
    requires
        0 <= d < 16,
    ensures
        hex_digit_value(hex_digit(d)) == Some(d),
        digit_value(hex_digit(d), 16) == Some(d),
        hex_digit(d) != 'x',
        hex_digit(d) != '+',
{
}

/// The digits of a number are digits, and denote the number.
pub proof fn lemma_hex_digits_value(n: nat)
    ensures
        hex_digits(n).len() >= 1,
        all_digits(hex_digits(n), 16),
        digits_value(hex_digits(n), 16) == n,
        forall|i: int| 0 <= i < hex_digits(n).len() ==> (#[trigger] hex_digits(n)[i]) != 'x',
        hex_digits(n)[0] != '+',
    decreases n,
{
    let s = hex_digits(n);
    if n < 16 {
        lemma_hex_digit_value(n as int);
        assert(s =~= seq![hex_digit(n as int)]);
        assert(s.drop_last() =~= Seq::<char>::empty());
        assert(digits_value(s.drop_last(), 16) == 0);
        assert(s.last() == hex_digit(n as int));
    } else {
        let head = hex_digits(n / 16);
        let d = (n % 16) as int;
        lemma_hex_digits_value(n / 16);
        lemma_hex_digit_value(d);
        assert(s == head.push(hex_digit(d)));
        assert(s.drop_last() =~= head);
        assert(s.last() == hex_digit(d));
        assert forall|i: int| 0 <= i < s.len() implies (#[trigger] digit_value(s[i], 16)) is Some by {
            if i < head.len() {
                assert(s[i] == head[i]);
                assert(digit_value(head[i], 16) is Some);
            }
        }
        assert forall|i: int| 0 <= i < s.len() implies (#[trigger] s[i]) != 'x' by {
            if i < head.len() {
                assert(s[i] == head[i]);
            }
        }
        assert(s[0] == head[0]);
        assert(digits_value(s, 16) == digits_value(head, 16) * 16 + d);
        assert((n / 16) * 16 + n % 16 == n) by (nonlinear_arith);
    }
}

/// A hexadecimal literal reads as the number it was written for.
pub proof fn lemma_hex_round_trip(n: u64)
    ensures
        hex_value(hex_literal(n as nat)) == Some(n),
{
    let digits = hex_digits(n as nat);
    let text = hex_literal(n as nat);
    lemma_hex_digits_value(n as nat);
    assert(text.skip(2) =~= digits);
    assert(text[0] == '0' && text[1] == 'x');
    assert(without_0x(text) == without_0x(digits));
    if digits.len() >= 2 {
        assert(digits[1] != 'x');
    }
    assert(without_0x(digits) == digits);
}

/// The words of a text: what stands between its stretches of white space.
pub open spec fn words_of(s: Seq<char>) -> Seq<Seq<char>>
    decreases s.len(),
{
    if s.len() == 0 {
        Seq::<Seq<char>>::empty()
    } else if is_space(s.last()) {
        words_of(s.drop_last())
    } else if s.len() == 1 || is_space(s[s.len() - 2]) {
        words_of(s.drop_last()).push(seq![s.last()])
    } else {
        words_of(s.drop_last()).drop_last().push(words_of(s.drop_last()).last().push(s.last()))
    }
}

/// Splits a text into its words.
pub fn words(s: &Vec<char>) -> (r: Vec<Vec<char>>)
    ensures
        pieces_view(r@) == words_of(s@),
{
    let mut done: Vec<Vec<char>> = Vec::new();
    let mut cur: Vec<char> = Vec::new();
    let mut i: usize = 0;
    assert(s@.take(0) =~= Seq::<char>::empty());
    assert(pieces_view(done@) =~= Seq::<Seq<char>>::empty());
    while i < s.len()
        invariant
            i <= s.len(),
            cur.len() > 0 ==> i > 0 && !is_space(s@[i - 1]) && words_of(s@.take(i as int))
                == pieces_view(done@).push(cur@),
            cur.len() == 0 ==> (i > 0 ==> is_space(s@[i - 1])) && words_of(s@.take(i as int))
                == pieces_view(done@),
        decreases s.len() - i,
    {
        let ghost before = s@.take(i as int);
        let ghost now = s@.take(i + 1);
        let ghost seen = pieces_view(done@);
        let ghost word = cur@;
        proof {
            assert(now.drop_last() =~= before);
            assert(now.last() == s@[i as int]);
            if i > 0 {
                assert(now[now.len() - 2] == s@[i - 1]);
            }
        }
        if space(s[i]) {
            if cur.len() > 0 {
                let mut fresh: Vec<char> = Vec::new();
                std::mem::swap(&mut cur, &mut fresh);
                done.push(fresh);
                assert(pieces_view(done@) =~= seen.push(word));
            }
        } else {
            cur.push(s[i]);
            proof {
                if word.len() == 0 {
                    assert(cur@ =~= seq![s@[i as int]]);
                } else {
                    assert(seen.push(word).drop_last() =~= seen);
                    assert(seen.push(word).last() == word);
                }
            }
        }
        i += 1;
    }
    assert(s@.take(s.len() as int) =~= s@);
    if cur.len() > 0 {
        let ghost seen = pieces_view(done@);
        let ghost word = cur@;
        done.push(cur);
        assert(pieces_view(done@) =~= seen.push(word));
    }
    done
}

/// What a text denotes as a whole number: decimal digits with or without a
/// sign in front, the value fitting 64 bits with a sign.
pub open spec fn integer_value(text: Seq<char>) -> Option<i64> {
    if text.len() > 0 && text[0] == '-' {
        if text.len() > 1 && text[1] != '+' {
            match unsigned_value(text.skip(1), 10, u64::MAX as int) {
                Some(v) => if v <= 0x8000_0000_0000_0000 {
                    Some((-v) as i64)
                } else {
                    None
                },
                None => None,
            }
        } else {
            None
        }
    } else {
        match unsigned_value(text, 10, u64::MAX as int) {
            Some(v) => if v <= i64::MAX {
                Some(v as i64)
            } else {
                None
            },
            None => None,
        }
    }
}

/// Reads a whole number in base ten.
pub fn parse_integer_chars(s: &Vec<char>) -> (r: Option<i64>)
    ensures
        r == integer_value(s@),
{
    if s.len() > 0 && s[0] == '-' {
        if s.len() > 1 && s[1] != '+' {
            match read_unsigned(s, 1, 10, u64::MAX) {
                Some(v) => {
                    if v == 0x8000_0000_0000_0000 {
                        Some(i64::MIN)
                    } else if v < 0x8000_0000_0000_0000 {
                        Some(-(v as i64))
                    } else {
                        None
                    }
                },
                None => None,
            }
        } else {
            None
        }
    } else {
        assert(s@.skip(0) =~= s@);
        match read_unsigned(s, 0, 10, u64::MAX) {
            Some(v) => {
                if v <= 0x7fff_ffff_ffff_ffff {
                    Some(v as i64)
                } else {
                    None
                }
            },
            None => None,
        }
    }
}

} // verus!
