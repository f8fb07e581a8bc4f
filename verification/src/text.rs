//! Character-level building blocks: decimal and hexadecimal digit strings,
//! their numeric values, and splitting a string on a separator character.

use vstd::prelude::*;

verus! {

// ---------------------------------------------------------------------------
// Decimal digits
// ---------------------------------------------------------------------------

/// `c` is an ASCII decimal digit.
pub open spec fn is_digit(c: char) -> bool {
    '0' as int <= c as int && c as int <= '9' as int
}

/// Numeric value of a decimal digit.
pub open spec fn digit_val(c: char) -> int {
    c as int - '0' as int
}

/// Every character of `s` is a decimal digit.
pub open spec fn all_digits(s: Seq<char>) -> bool {
    forall|i: int| 0 <= i < s.len() ==> is_digit(#[trigger] s[i])
}

/// Value of `s` read as a decimal numeral (most significant digit first).
pub open spec fn dec_val(s: Seq<char>) -> int
    decreases s.len(),
{
    if s.len() == 0 {
        0
    } else {
        dec_val(s.drop_last()) * 10 + digit_val(s.last())
    }
}

/// A non-empty string of decimal digits.
pub open spec fn is_dec_string(s: Seq<char>) -> bool {
    s.len() >= 1 && all_digits(s)
}

/// Appending a digit multiplies the value by ten and adds the digit.
pub proof fn lemma_dec_val_push(s: Seq<char>, c: char)
    ensures
        dec_val(s.push(c)) == dec_val(s) * 10 + digit_val(c),
{
    assert(s.push(c).drop_last() =~= s);
    assert(s.push(c).last() == c);
}

/// A value already past a nonnegative bound stays past it when digits follow.
pub proof fn lemma_dec_val_grows(s: Seq<char>, c: char, bound: int)
    requires
        all_digits(s),
        is_digit(c),
        bound >= 0,
        dec_val(s) > bound,
    ensures
        dec_val(s.push(c)) > bound,
{
    lemma_dec_val_push(s, c);
}

// ---------------------------------------------------------------------------
// Hexadecimal digits
// ---------------------------------------------------------------------------

/// `c` is an ASCII hexadecimal digit (either case).
pub open spec fn is_hex_digit(c: char) -> bool {
    is_digit(c)
        || ('a' as int <= c as int && c as int <= 'f' as int)
        || ('A' as int <= c as int && c as int <= 'F' as int)
}

/// Numeric value of a hexadecimal digit.
pub open spec fn hex_digit_val(c: char) -> int {
    if is_digit(c) {
        c as int - '0' as int
    } else if 'a' as int <= c as int && c as int <= 'f' as int {
        c as int - 'a' as int + 10
    } else {
        c as int - 'A' as int + 10
    }
}

/// Every character of `s` is a hexadecimal digit.
pub open spec fn all_hex_digits(s: Seq<char>) -> bool {
    forall|i: int| 0 <= i < s.len() ==> is_hex_digit(#[trigger] s[i])
}

/// Value of `s` read as a hexadecimal numeral.
pub open spec fn hex_val(s: Seq<char>) -> int
    decreases s.len(),
{
    if s.len() == 0 {
        0
    } else {
        hex_val(s.drop_last()) * 16 + hex_digit_val(s.last())
    }
}

pub proof fn lemma_hex_val_push(s: Seq<char>, c: char)
    ensures
        hex_val(s.push(c)) == hex_val(s) * 16 + hex_digit_val(c),
{
    assert(s.push(c).drop_last() =~= s);
    assert(s.push(c).last() == c);
}

/// A hexadecimal numeral of at most four digits stays below 2^16.
pub proof fn lemma_hex_val_bound(s: Seq<char>)
    requires
        all_hex_digits(s),
        s.len() <= 4,
    ensures
        0 <= hex_val(s),
        hex_val(s) < 65536,
        s.len() <= 3 ==> hex_val(s) < 4096,
        s.len() <= 2 ==> hex_val(s) < 256,
        s.len() <= 1 ==> hex_val(s) < 16,
    decreases s.len(),
{
    if s.len() > 0 {
        assert(all_hex_digits(s.drop_last())) by {
            assert(forall|i: int|
                0 <= i < s.drop_last().len() ==> s.drop_last()[i] == s[i]);
        }
        lemma_hex_val_bound(s.drop_last());
        assert(0 <= hex_digit_val(s.last()) < 16);
    }
}

// ---------------------------------------------------------------------------
// Executable digit tests
// ---------------------------------------------------------------------------

pub fn char_is_digit(c: char) -> (b: bool)
    ensures
        b == is_digit(c),
{
    let u = c as u32;
    48 <= u && u <= 57
}

pub fn char_is_hex_digit(c: char) -> (b: bool)
    ensures
        b == is_hex_digit(c),
{
    let u = c as u32;
    (48 <= u && u <= 57) || (97 <= u && u <= 102) || (65 <= u && u <= 70)
}

pub fn char_hex_val(c: char) -> (v: u8)
    requires
        is_hex_digit(c),
    ensures
        v as int == hex_digit_val(c),
{
    let u = c as u32;
    if 48 <= u && u <= 57 {
        (u - 48) as u8
    } else if 97 <= u && u <= 102 {
        (u - 97 + 10) as u8
    } else {
        (u - 65 + 10) as u8
    }
}

// ---------------------------------------------------------------------------
// Decimal parsing
// ---------------------------------------------------------------------------

/// Whether `s` is a non-empty run of decimal digits.
pub fn is_dec_str(s: &str) -> (b: bool)
    ensures
        b == is_dec_string(s@),
{
    let n = s.unicode_len();
    if n == 0 {
        return false;
    }
    let mut i: usize = 0;
    while i < n
        invariant
            0 <= i <= n,
            n == s@.len(),
            forall|j: int| 0 <= j < i ==> is_digit(#[trigger] s@[j]),
        decreases n - i,
    {
        if !char_is_digit(s.get_char(i)) {
            return false;
        }
        i = i + 1;
    }
    true
}

/// Reads `s` as a decimal numeral of value at most 65535.  Returns `None`
/// when `s` is not a digit string or its value does not fit.
pub fn dec_u16(s: &str) -> (r: Option<u16>)
    ensures
        match r {
            Some(v) => is_dec_string(s@) && dec_val(s@) == v as int,
            None => !is_dec_string(s@) || dec_val(s@) > 65535,
        },
{
    let n = s.unicode_len();
    if n == 0 {
        return None;
    }
    let mut acc: u32 = 0;
    let mut too_big = false;
    let mut i: usize = 0;
    while i < n
        invariant
            0 < n,
            n == s@.len(),
            0 <= i <= n,
            forall|j: int| 0 <= j < i ==> is_digit(#[trigger] s@[j]),
            !too_big ==> acc as int == dec_val(s@.subrange(0, i as int)) && acc <= 65535,
            too_big ==> dec_val(s@.subrange(0, i as int)) > 65535,
        decreases n - i,
    {
        let ghost pre = s@.subrange(0, i as int);
        let c = s.get_char(i);
        if !char_is_digit(c) {
            return None;
        }
        proof {
            assert(s@.subrange(0, i as int + 1) =~= pre.push(s@[i as int]));
            lemma_dec_val_push(pre, s@[i as int]);
            if too_big {
                lemma_dec_val_grows(pre, s@[i as int], 65535);
            }
        }
        if !too_big {
            let d = (c as u32) - 48;
            acc = acc * 10 + d;
            if acc > 65535 {
                too_big = true;
            }
        }
        i = i + 1;
    }
    proof {
        assert(s@.subrange(0, n as int) =~= s@);
    }
    if too_big {
        None
    } else {
        Some(acc as u16)
    }
}

// ---------------------------------------------------------------------------
// Splitting on a separator
// ---------------------------------------------------------------------------

/// The parts of `s` between occurrences of `sep`, in order.  The empty
/// string has one empty part; `n` separators give `n + 1` parts.
pub open spec fn split_on(s: Seq<char>, sep: char) -> Seq<Seq<char>>
    decreases s.len(),
{
    if s.len() == 0 {
        seq![Seq::empty()]
    } else if s[0] == sep {
        seq![Seq::<char>::empty()] + split_on(s.drop_first(), sep)
    } else {
        let rest = split_on(s.drop_first(), sep);
        seq![seq![s[0]] + rest[0]] + rest.drop_first()
    }
}

pub proof fn lemma_split_on_len(s: Seq<char>, sep: char)
    ensures
        split_on(s, sep).len() >= 1,
    decreases s.len(),
{
    if s.len() > 0 {
        lemma_split_on_len(s.drop_first(), sep);
    }
}

/// A split result with `pre` prepended to its first part.
pub open spec fn shift_first(pre: Seq<char>, ps: Seq<Seq<char>>) -> Seq<Seq<char>> {
    seq![pre + ps[0]] + ps.drop_first()
}

/// Splits `s` on `sep`, returning the parts as string slices.
pub fn split_str<'a>(s: &'a str, sep: char) -> (parts: Vec<&'a str>)
    ensures
        parts@.map_values(|p: &str| p@) == split_on(s@, sep),
{
    let n = s.unicode_len();
    let mut parts: Vec<&'a str> = Vec::new();
    let mut start: usize = 0;
    let mut i: usize = 0;
    proof {
        lemma_split_on_len(s@, sep);
        assert(s@.subrange(0, n as int) =~= s@);
        assert(s@.subrange(0, 0) =~= Seq::<char>::empty());
        assert(parts@.map_values(|p: &str| p@) =~= Seq::<Seq<char>>::empty());
        assert(Seq::<char>::empty() + split_on(s@, sep)[0] =~= split_on(s@, sep)[0]);
        assert(seq![split_on(s@, sep)[0]] + split_on(s@, sep).drop_first() =~~= split_on(
            s@,
            sep,
        ));
        assert(split_on(s@, sep) =~~= parts@.map_values(|p: &str| p@) + shift_first(
            s@.subrange(0, 0),
            split_on(s@.subrange(0, n as int), sep),
        ));
    }
    while i < n
        invariant
            0 <= start <= i <= n,
            n == s@.len(),
            forall|j: int| start <= j < i ==> s@[j] != sep,
            split_on(s@, sep) == parts@.map_values(|p: &str| p@)
                + shift_first(s@.subrange(start as int, i as int),
                    split_on(s@.subrange(i as int, n as int), sep)),
        decreases n - i,
    {
        let ghost pre = parts@.map_values(|p: &str| p@);
        let ghost cur = s@.subrange(start as int, i as int);
        let ghost tail = split_on(s@.subrange(i as int, n as int), sep);
        let ghost tail1 = split_on(s@.subrange(i as int + 1, n as int), sep);
        proof {
            lemma_split_on_len(s@.subrange(i as int, n as int), sep);
            lemma_split_on_len(s@.subrange(i as int + 1, n as int), sep);
            assert(s@.subrange(i as int, n as int) =~=
                seq![s@[i as int]] + s@.subrange(i as int + 1, n as int));
            assert((seq![s@[i as int]] + s@.subrange(i as int + 1, n as int)).drop_first()
                =~= s@.subrange(i as int + 1, n as int));
        }
        let c = s.get_char(i);
        if c == sep {
            // tail == [empty] + tail1, so cur absorbs the empty first part.
            proof {
                assert(tail =~~= seq![Seq::<char>::empty()] + tail1);
                assert(shift_first(cur, tail) =~~= seq![cur] + tail1);
                assert(shift_first(Seq::empty(), tail1) =~~= tail1);
            }
            let part = s.substring_char(start, i);
            parts.push(part);
            proof {
                assert(parts@.map_values(|p: &str| p@) =~~= pre + seq![cur]);
                assert(s@.subrange(i as int + 1, i as int + 1) =~= Seq::<char>::empty());
                assert(split_on(s@, sep) =~~= parts@.map_values(|p: &str| p@)
                    + shift_first(s@.subrange(i as int + 1, i as int + 1), tail1));
            }
            start = i + 1;
            i = i + 1;
        } else {
            // tail == [[c] + tail1[0]] + tail1.drop_first(), so cur grows by c.
            proof {
                assert(tail =~~= seq![seq![s@[i as int]] + tail1[0]] + tail1.drop_first());
                assert(cur + tail[0] =~= s@.subrange(start as int, i as int + 1) + tail1[0]);
                assert(tail.drop_first() =~~= tail1.drop_first());
                assert(shift_first(cur, tail)
                    =~~= shift_first(s@.subrange(start as int, i as int + 1), tail1));
            }
            i = i + 1;
        }
    }
    proof {
        assert(s@.subrange(i as int, n as int) =~= Seq::<char>::empty());
        assert(shift_first(s@.subrange(start as int, i as int),
            split_on(Seq::empty(), sep))
            =~~= seq![s@.subrange(start as int, i as int)]);
    }
    let last = s.substring_char(start, n);
    parts.push(last);
    proof {
        assert(parts@.map_values(|p: &str| p@) =~~= split_on(s@, sep));
    }
    parts
}

// ---------------------------------------------------------------------------
// Containment tests
// ---------------------------------------------------------------------------

/// `s` contains the character `c`.
pub open spec fn contains_char(s: Seq<char>, c: char) -> bool {
    exists|i: int| 0 <= i < s.len() && s[i] == c
}

pub fn str_contains_char(s: &str, c: char) -> (b: bool)
    ensures
        b == contains_char(s@, c),
{
    let n = s.unicode_len();
    let mut i: usize = 0;
    while i < n
        invariant
            0 <= i <= n,
            n == s@.len(),
            forall|j: int| 0 <= j < i ==> s@[j] != c,
        decreases n - i,
    {
        if s.get_char(i) == c {
            return true;
        }
        i = i + 1;
    }
    false
}

} // verus!
