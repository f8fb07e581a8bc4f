//! IP addresses as plain data, and verified parsers for the literal
//! address grammars: dotted-quad IPv4 and colon-grouped IPv6 with an
//! optional `::` elision and an optional embedded IPv4 tail.

use vstd::prelude::*;

use crate::text::{
    all_digits, all_hex_digits, char_hex_val, char_is_digit, char_is_hex_digit, contains_char,
    dec_u16, dec_val, hex_val, is_digit, is_hex_digit, lemma_hex_val_bound,
    lemma_hex_val_push, lemma_split_on_len, split_on, split_str, str_contains_char,
};

verus! {

/// An IP address: four octets, or eight 16-bit groups.
#[derive(Clone, Copy, Debug, PartialEq, Eq)]
pub enum IpAddress {
    V4([u8; 4]),
    V6([u16; 8]),
}

impl IpAddress {
    pub open spec fn is_v4(self) -> bool {
        self matches IpAddress::V4(_)
    }

    pub open spec fn is_v6(self) -> bool {
        self matches IpAddress::V6(_)
    }
}

/// `a` is the IPv4 unspecified address 0.0.0.0.
pub open spec fn is_unspecified_v4(a: IpAddress) -> bool {
    a matches IpAddress::V4(o) && o@ == seq![0u8, 0u8, 0u8, 0u8]
}

/// `a` is the IPv6 unspecified address `::`.
pub open spec fn is_unspecified_v6(a: IpAddress) -> bool {
    a matches IpAddress::V6(g) && g@ == seq![0u16, 0u16, 0u16, 0u16, 0u16, 0u16, 0u16, 0u16]
}

/// The IPv4 unspecified address 0.0.0.0.
pub fn unspecified_v4() -> (a: IpAddress)
    ensures
        is_unspecified_v4(a),
{
    let a = IpAddress::V4([0, 0, 0, 0]);
    proof {
        assert(a matches IpAddress::V4(o) && o@ =~= seq![0u8, 0u8, 0u8, 0u8]);
    }
    a
}

/// The IPv6 unspecified address `::`.
pub fn unspecified_v6() -> (a: IpAddress)
    ensures
        is_unspecified_v6(a),
{
    let a = IpAddress::V6([0, 0, 0, 0, 0, 0, 0, 0]);
    proof {
        assert(a matches IpAddress::V6(g) && g@ =~= seq![
            0u16, 0u16, 0u16, 0u16, 0u16, 0u16, 0u16, 0u16,
        ]);
    }
    a
}

// ---------------------------------------------------------------------------
// IPv4 literals
// ---------------------------------------------------------------------------

/// A dotted-quad component: one to three digits, no leading zero, at most 255.
pub open spec fn is_octet_str(p: Seq<char>) -> bool {
    &&& 1 <= p.len() <= 3
    &&& all_digits(p)
    &&& dec_val(p) <= 255
    &&& p.len() > 1 ==> p[0] != '0'
}

/// `s` is a dotted-quad IPv4 literal.
pub open spec fn is_ipv4_literal(s: Seq<char>) -> bool {
    let ps = split_on(s, '.');
    ps.len() == 4 && (forall|i: int| 0 <= i < 4 ==> is_octet_str(#[trigger] ps[i]))
}

/// The four octet values of an IPv4 literal.
pub open spec fn ipv4_octets(s: Seq<char>) -> Seq<int> {
    split_on(s, '.').map_values(|p: Seq<char>| dec_val(p))
}

/// Digits and dots only, with at least one dot: a string that is meant as
/// an IPv4 literal, well-formed or not.
pub open spec fn is_v4_shaped(s: Seq<char>) -> bool {
    &&& s.len() > 0
    &&& forall|i: int| 0 <= i < s.len() ==> is_digit(#[trigger] s[i]) || s[i] == '.'
    &&& contains_char(s, '.')
}

/// A string containing a colon is meant as an IPv6 literal.
pub open spec fn is_v6_shaped(s: Seq<char>) -> bool {
    contains_char(s, ':')
}

pub fn v4_shaped(s: &str) -> (b: bool)
    ensures
        b == is_v4_shaped(s@),
{
    let n = s.unicode_len();
    if n == 0 {
        return false;
    }
    let mut i: usize = 0;
    let mut seen_dot = false;
    while i < n
        invariant
            0 <= i <= n,
            n == s@.len(),
            forall|j: int| 0 <= j < i ==> is_digit(#[trigger] s@[j]) || s@[j] == '.',
            seen_dot == exists|j: int| 0 <= j < i && s@[j] == '.',
        decreases n - i,
    {
        let c = s.get_char(i);
        if c == '.' {
            seen_dot = true;
        } else if !char_is_digit(c) {
            return false;
        }
        i = i + 1;
    }
    seen_dot
}

/// Parses one dotted-quad component.
pub fn parse_octet(p: &str) -> (r: Option<u8>)
    ensures
        match r {
            Some(v) => is_octet_str(p@) && dec_val(p@) == v as int,
            None => !is_octet_str(p@),
        },
{
    let n = p.unicode_len();
    if n == 0 || n > 3 {
        return None;
    }
    if n > 1 && p.get_char(0) == '0' {
        return None;
    }
    match dec_u16(p) {
        Some(v) => {
            if v <= 255 {
                Some(v as u8)
            } else {
                None
            }
        },
        None => None,
    }
}

/// Parses a dotted-quad IPv4 literal.
pub fn parse_ipv4(s: &str) -> (r: Option<[u8; 4]>)
    ensures
        match r {
            Some(o) => is_ipv4_literal(s@) && o@.map_values(|x: u8| x as int) == ipv4_octets(s@),
            None => !is_ipv4_literal(s@),
        },
{
    let parts = split_str(s, '.');
    let ghost ps = split_on(s@, '.');
    if parts.len() != 4 {
        return None;
    }
    proof {
        assert(ps.len() == 4);
        assert(ps[0] == parts@.map_values(|p: &str| p@)[0]);
        assert(ps[1] == parts@.map_values(|p: &str| p@)[1]);
        assert(ps[2] == parts@.map_values(|p: &str| p@)[2]);
        assert(ps[3] == parts@.map_values(|p: &str| p@)[3]);
    }
    let o0 = match parse_octet(parts[0]) {
        Some(v) => v,
        None => {
            return None;
        },
    };
    let o1 = match parse_octet(parts[1]) {
        Some(v) => v,
        None => {
            return None;
        },
    };
    let o2 = match parse_octet(parts[2]) {
        Some(v) => v,
        None => {
            return None;
        },
    };
    let o3 = match parse_octet(parts[3]) {
        Some(v) => v,
        None => {
            return None;
        },
    };
    let o = [o0, o1, o2, o3];
    proof {
        assert(forall|i: int| 0 <= i < 4 ==> is_octet_str(#[trigger] ps[i])) by {
            assert(is_octet_str(ps[0]) && is_octet_str(ps[1]) && is_octet_str(ps[2])
                && is_octet_str(ps[3]));
        }
        assert(o@.map_values(|x: u8| x as int) =~= ipv4_octets(s@));
    }
    Some(o)
}

// ---------------------------------------------------------------------------
// IPv6 literals
// ---------------------------------------------------------------------------

/// Index of the first place where `c` occurs twice in a row in `s`.
pub open spec fn find_pair(s: Seq<char>, c: char) -> Option<int>
    decreases s.len(),
{
    if s.len() < 2 {
        None
    } else if s[0] == c && s[1] == c {
        Some(0)
    } else {
        match find_pair(s.drop_first(), c) {
            Some(i) => Some(i + 1),
            None => None,
        }
    }
}

/// `find_pair` returns the first doubled occurrence, or rules them all out.
pub proof fn lemma_find_pair(s: Seq<char>, c: char)
    ensures
        match find_pair(s, c) {
            Some(i) => 0 <= i && i + 1 < s.len() && s[i] == c && s[i + 1] == c && (forall|j: int|
                0 <= j < i ==> !(#[trigger] s[j] == c && s[j + 1] == c)),
            None => forall|j: int|
                0 <= j && j + 1 < s.len() ==> !(#[trigger] s[j] == c && s[j + 1] == c),
        },
    decreases s.len(),
{
    if s.len() < 2 {
    } else if s[0] == c && s[1] == c {
    } else {
        lemma_find_pair(s.drop_first(), c);
        let d = s.drop_first();
        assert(forall|j: int| 0 <= j < d.len() ==> #[trigger] d[j] == s[j + 1]);
        match find_pair(d, c) {
            Some(i) => {
                assert(find_pair(s, c) == Some(i + 1));
                assert(s[i + 1] == d[i]);
                assert(s[i + 2] == d[i + 1]);
                assert forall|j: int| 0 <= j < i + 1 implies !(#[trigger] s[j] == c && s[j + 1] == c) by {
                    if j >= 1 {
                        assert(d[j - 1] == s[j]);
                        assert(d[j] == s[j + 1]);
                        assert(!(d[j - 1] == c && d[j] == c));
                    }
                }
            },
            None => {
                assert forall|j: int|
                    0 <= j && j + 1 < s.len() implies !(#[trigger] s[j] == c && s[j + 1]
                    == c) by {
                    if j >= 1 {
                        assert(d[j - 1] == s[j]);
                        assert(d[j] == s[j + 1]);
                        assert(!(d[j - 1] == c && d[j] == c));
                    }
                }
            },
        }
    }
}

/// A hexadecimal group: one to four hex digits.
pub open spec fn is_hex_group(p: Seq<char>) -> bool {
    1 <= p.len() <= 4 && all_hex_digits(p)
}

pub open spec fn all_hex_groups(ps: Seq<Seq<char>>) -> bool {
    forall|i: int| 0 <= i < ps.len() ==> is_hex_group(#[trigger] ps[i])
}

/// The group values of a run of hexadecimal groups.
pub open spec fn group_vals(ps: Seq<Seq<char>>) -> Seq<int> {
    ps.map_values(|p: Seq<char>| hex_val(p))
}

/// The two group values contributed by an embedded IPv4 tail.
pub open spec fn v4_tail_groups(p: Seq<char>) -> Seq<int> {
    let o = ipv4_octets(p);
    seq![o[0] * 256 + o[1], o[2] * 256 + o[3]]
}

/// The group values denoted by a colon-separated run of parts, where the
/// last part may be an embedded IPv4 literal.  `None` if a part is neither
/// a hexadecimal group nor (last only) an IPv4 literal.
pub open spec fn spec_group_run(ps: Seq<Seq<char>>) -> Option<Seq<int>> {
    if ps.len() == 0 {
        Some(Seq::empty())
    } else if is_ipv4_literal(ps.last()) {
        if all_hex_groups(ps.drop_last()) {
            Some(group_vals(ps.drop_last()) + v4_tail_groups(ps.last()))
        } else {
            None
        }
    } else if all_hex_groups(ps) {
        Some(group_vals(ps))
    } else {
        None
    }
}

/// The eight group values of an IPv6 literal, or `None` if `s` is not one.
/// Without `::` the groups must number exactly eight; with one `::` the
/// remaining groups number at most seven and the gap is filled with zeros.
pub open spec fn spec_ipv6_groups(s: Seq<char>) -> Option<Seq<int>> {
    match find_pair(s, ':') {
        None => match spec_group_run(split_on(s, ':')) {
            Some(g) => if g.len() == 8 {
                Some(g)
            } else {
                None
            },
            None => None,
        },
        Some(i) => {
            let left = s.subrange(0, i);
            let right = s.subrange(i + 2, s.len() as int);
            let lps = if left.len() == 0 {
                Seq::empty()
            } else {
                split_on(left, ':')
            };
            let rps = if right.len() == 0 {
                Seq::empty()
            } else {
                split_on(right, ':')
            };
            if all_hex_groups(lps) {
                match spec_group_run(rps) {
                    Some(rv) => {
                        let lv = group_vals(lps);
                        if lv.len() <= 7 && rv.len() <= 7 - lv.len() {
                            Some(
                                lv + Seq::new((8 - lv.len() - rv.len()) as nat, |j: int| 0int)
                                    + rv,
                            )
                        } else {
                            None
                        }
                    },
                    None => None,
                }
            } else {
                None
            }
        },
    }
}

/// Parses one hexadecimal group.
pub fn parse_hex_group(p: &str) -> (r: Option<u16>)
    ensures
        match r {
            Some(v) => is_hex_group(p@) && hex_val(p@) == v as int,
            None => !is_hex_group(p@),
        },
{
    let n = p.unicode_len();
    if n == 0 || n > 4 {
        return None;
    }
    let mut acc: u32 = 0;
    let mut i: usize = 0;
    while i < n
        invariant
            0 < n <= 4,
            n == p@.len(),
            0 <= i <= n,
            forall|j: int| 0 <= j < i ==> is_hex_digit(#[trigger] p@[j]),
            acc as int == hex_val(p@.subrange(0, i as int)),
            acc < 65536,
        decreases n - i,
    {
        let ghost pre = p@.subrange(0, i as int);
        let c = p.get_char(i);
        if !char_is_hex_digit(c) {
            return None;
        }
        proof {
            assert(p@.subrange(0, i as int + 1) =~= pre.push(p@[i as int]));
            lemma_hex_val_push(pre, p@[i as int]);
            lemma_hex_val_bound(p@.subrange(0, i as int + 1));
        }
        let d = char_hex_val(c);
        acc = acc * 16 + (d as u32);
        i = i + 1;
    }
    proof {
        assert(p@.subrange(0, n as int) =~= p@);
    }
    Some(acc as u16)
}

/// Parses the first `count` parts as hexadecimal groups.
fn parse_hex_groups(parts: &Vec<&str>, count: usize) -> (r: Option<Vec<u16>>)
    requires
        count <= parts@.len(),
    ensures
        ({
            let ps = parts@.map_values(|p: &str| p@);
            match r {
                Some(v) => v@.len() == count && (forall|j: int|
                    0 <= j < count ==> is_hex_group(#[trigger] ps[j])) && (forall|j: int|
                    0 <= j < count ==> v@.map_values(|x: u16| x as int)[j] == hex_val(
                    #[trigger] ps[j])),
                None => exists|j: int| 0 <= j < count && !is_hex_group(#[trigger] ps[j]),
            }
        }),
{
    let ghost ps = parts@.map_values(|p: &str| p@);
    let mut vals: Vec<u16> = Vec::new();
    let mut i: usize = 0;
    while i < count
        invariant
            0 <= i <= count <= parts@.len(),
            ps == parts@.map_values(|p: &str| p@),
            vals@.len() == i,
            forall|j: int| 0 <= j < i ==> is_hex_group(#[trigger] ps[j]),
            forall|j: int| 0 <= j < i ==> vals@.map_values(|x: u16| x as int)[j] == hex_val(
                #[trigger] ps[j]),
        decreases count - i,
    {
        match parse_hex_group(parts[i]) {
            Some(v) => {
                vals.push(v);
            },
            None => {
                proof {
                    assert(!is_hex_group(ps[i as int]));
                    assert(exists|j: int| 0 <= j < count && !is_hex_group(#[trigger] ps[j]));
                }
                return None;
            },
        }
        i = i + 1;
    }
    Some(vals)
}

/// Parses a colon-separated run of parts, the last of which may be an
/// embedded IPv4 literal, into group values.
fn parse_group_run(parts: &Vec<&str>) -> (r: Option<Vec<u16>>)
    ensures
        ({
            let ps = parts@.map_values(|p: &str| p@);
            match r {
                Some(v) => spec_group_run(ps) == Some(v@.map_values(|x: u16| x as int)),
                None => spec_group_run(ps) is None,
            }
        }),
{
    let ghost ps = parts@.map_values(|p: &str| p@);
    let n = parts.len();
    if n == 0 {
        proof {
            assert(Seq::<u16>::empty().map_values(|x: u16| x as int) =~= Seq::<int>::empty());
        }
        return Some(Vec::new());
    }
    let last = parts[n - 1];
    let has_dot = str_contains_char(last, '.');
    if has_dot {
        // The last part can only be an embedded IPv4 literal: a dot rules
        // out a hexadecimal group.
        proof {
            let k = choose|k: int| 0 <= k < last@.len() && last@[k] == '.';
            assert(!is_hex_digit(last@[k]));
            assert(!is_hex_group(ps.last()));
            assert(!all_hex_groups(ps));
        }
        match parse_ipv4(last) {
            Some(o) => {
                match parse_hex_groups(parts, n - 1) {
                    Some(mut vals) => {
                        let g6 = (o[0] as u16) * 256 + (o[1] as u16);
                        let g7 = (o[2] as u16) * 256 + (o[3] as u16);
                        vals.push(g6);
                        vals.push(g7);
                        proof {
                            assert(is_ipv4_literal(ps.last()));
                            assert(all_hex_groups(ps.drop_last())) by {
                                assert(forall|j: int|
                                    0 <= j < ps.drop_last().len() ==> ps.drop_last()[j]
                                        == ps[j]);
                            }
                            let o_spec = ipv4_octets(ps.last());
                            assert(o@.map_values(|x: u8| x as int) == o_spec);
                            assert(o@[0] as int == o@.map_values(|x: u8| x as int)[0]);
                            assert(o@[1] as int == o@.map_values(|x: u8| x as int)[1]);
                            assert(o@[2] as int == o@.map_values(|x: u8| x as int)[2]);
                            assert(o@[3] as int == o@.map_values(|x: u8| x as int)[3]);
                            assert(vals@.map_values(|x: u16| x as int) =~= group_vals(
                                ps.drop_last()) + v4_tail_groups(ps.last())) by {
                                assert(group_vals(ps.drop_last()).len() == (n - 1) as int);
                                assert(forall|j: int|
                                    0 <= j < n - 1 ==> group_vals(ps.drop_last())[j] == hex_val(
                                        #[trigger] ps.drop_last()[j]));
                                assert(forall|j: int|
                                    0 <= j < n - 1 ==> ps.drop_last()[j] == ps[j]);
                            }
                        }
                        Some(vals)
                    },
                    None => {
                        proof {
                            let j = choose|j: int|
                                0 <= j < n - 1 && !is_hex_group(#[trigger] ps[j]);
                            assert(ps.drop_last()[j] == ps[j]);
                            assert(!all_hex_groups(ps.drop_last()));
                        }
                        None
                    },
                }
            },
            None => {
                // Neither an IPv4 literal nor a hexadecimal group.
                None
            },
        }
    } else {
        proof {
            assert(!is_ipv4_literal(ps.last())) by {
                if is_ipv4_literal(last@) {
                    lemma_ipv4_literal_has_dot(last@);
                }
            }
        }
        match parse_hex_groups(parts, n) {
            Some(vals) => {
                proof {
                    assert(all_hex_groups(ps));
                    assert(vals@.map_values(|x: u16| x as int) =~= group_vals(ps));
                }
                Some(vals)
            },
            None => {
                proof {
                    assert(!all_hex_groups(ps));
                }
                None
            },
        }
    }
}

/// Finds the first doubled occurrence of `c` in `s`.
pub fn find_pair_str(s: &str, c: char) -> (r: Option<usize>)
    ensures
        match r {
            Some(i) => find_pair(s@, c) == Some(i as int),
            None => find_pair(s@, c) is None,
        },
{
    proof {
        lemma_find_pair(s@, c);
    }
    let n = s.unicode_len();
    if n < 2 {
        return None;
    }
    let mut i: usize = 0;
    while i < n - 1
        invariant
            n == s@.len(),
            2 <= n,
            0 <= i <= n,
            forall|j: int| 0 <= j < i ==> !(#[trigger] s@[j] == c && s@[j + 1] == c),
            match find_pair(s@, c) {
                Some(k) => 0 <= k && k + 1 < s@.len() && s@[k] == c && s@[k + 1] == c && (
                forall|j: int| 0 <= j < k ==> !(#[trigger] s@[j] == c && s@[j + 1] == c)),
                None => forall|j: int|
                    0 <= j && j + 1 < s@.len() ==> !(#[trigger] s@[j] == c && s@[j + 1] == c),
            },
        decreases n - i,
    {
        if s.get_char(i) == c && s.get_char(i + 1) == c {
            proof {
                if let Some(k) = find_pair(s@, c) {
                    assert(k == i as int);
                } else {
                    assert(false);
                }
            }
            return Some(i);
        }
        i = i + 1;
    }
    proof {
        if let Some(k) = find_pair(s@, c) {
            assert(false);
        }
    }
    None
}

/// Parses an IPv6 literal into its eight groups.
pub fn parse_ipv6(s: &str) -> (r: Option<[u16; 8]>)
    ensures
        match r {
            Some(g) => spec_ipv6_groups(s@) == Some(g@.map_values(|x: u16| x as int)),
            None => spec_ipv6_groups(s@) is None,
        },
{
    let n = s.unicode_len();
    match find_pair_str(s, ':') {
        None => {
            let parts = split_str(s, ':');
            match parse_group_run(&parts) {
                Some(v) => {
                    if v.len() == 8 {
                        let mut g: [u16; 8] = [0, 0, 0, 0, 0, 0, 0, 0];
                        let mut j: usize = 0;
                        while j < 8
                            invariant
                                v@.len() == 8,
                                0 <= j <= 8,
                                g@.len() == 8,
                                forall|k: int| 0 <= k < j ==> g@[k] == v@[k],
                            decreases 8 - j,
                        {
                            g[j] = v[j];
                            j = j + 1;
                        }
                        proof {
                            assert(g@.map_values(|x: u16| x as int) =~= v@.map_values(
                                |x: u16| x as int));
                        }
                        Some(g)
                    } else {
                        None
                    }
                },
                None => None,
            }
        },
        Some(i) => {
            proof {
                lemma_find_pair(s@, ':');
            }
            let left = s.substring_char(0, i);
            let right = s.substring_char(i + 2, n);
            let lparts: Vec<&str> = if left.unicode_len() == 0 {
                Vec::new()
            } else {
                split_str(left, ':')
            };
            let ghost lps = if left@.len() == 0 {
                Seq::<Seq<char>>::empty()
            } else {
                split_on(left@, ':')
            };
            let rparts: Vec<&str> = if right.unicode_len() == 0 {
                Vec::new()
            } else {
                split_str(right, ':')
            };
            let ghost rps = if right@.len() == 0 {
                Seq::<Seq<char>>::empty()
            } else {
                split_on(right@, ':')
            };
            proof {
                assert(lparts@.map_values(|p: &str| p@) == lps);
                assert(rparts@.map_values(|p: &str| p@) == rps);
            }
            let lv = match parse_hex_groups(&lparts, lparts.len()) {
                Some(v) => v,
                None => {
                    proof {
                        assert(!all_hex_groups(lps));
                    }
                    return None;
                },
            };
            proof {
                assert(all_hex_groups(lps));
                assert(lv@.map_values(|x: u16| x as int) =~= group_vals(lps));
            }
            let rv = match parse_group_run(&rparts) {
                Some(v) => v,
                None => {
                    return None;
                },
            };
            if lv.len() <= 7 && rv.len() <= 7 - lv.len() {
                let lc = lv.len();
                let rc = rv.len();
                let mut g: [u16; 8] = [0, 0, 0, 0, 0, 0, 0, 0];
                let mut j: usize = 0;
                while j < lc
                    invariant
                        lv@.len() == lc,
                        lc + rc <= 7,
                        0 <= j <= lc,
                        g@.len() == 8,
                        forall|k: int| 0 <= k < j ==> g@[k] == lv@[k],
                        forall|k: int| j <= k < 8 ==> g@[k] == 0u16,
                    decreases lc - j,
                {
                    g[j] = lv[j];
                    j = j + 1;
                }
                let mut k: usize = 0;
                while k < rc
                    invariant
                        lv@.len() == lc,
                        rv@.len() == rc,
                        lc + rc <= 7,
                        0 <= k <= rc,
                        g@.len() == 8,
                        forall|m: int| 0 <= m < lc ==> g@[m] == lv@[m],
                        forall|m: int| lc <= m < 8 - rc ==> g@[m] == 0u16,
                        forall|m: int| 0 <= m < k ==> #[trigger] g@[8 - rc + m] == rv@[m],
                        forall|m: int| k <= m < rc ==> #[trigger] g@[8 - rc + m] == 0u16,
                    decreases rc - k,
                {
                    g[8 - rc + k] = rv[k];
                    k = k + 1;
                }
                proof {
                    let lvals = group_vals(lps);
                    let rvals = rv@.map_values(|x: u16| x as int);
                    let mid = Seq::new((8 - lvals.len() - rvals.len()) as nat, |j: int| 0int);
                    assert(lvals.len() == lc as int);
                    assert(rvals.len() == rc as int);
                    assert(mid.len() == 8 - lc - rc);
                    assert forall|m: int|
                        0 <= m < 8 implies g@.map_values(|x: u16| x as int)[m] == (lvals + mid
                        + rvals)[m] by {
                        if m < lc {
                            assert(g@[m] == lv@[m]);
                            assert(lvals[m] == lv@.map_values(|x: u16| x as int)[m]);
                        } else if m < 8 - rc {
                            assert(g@[m] == 0u16);
                        } else {
                            let mm = m - (8 - rc);
                            assert(g@[8 - rc + mm] == rv@[mm]);
                            assert((lvals + mid + rvals)[m] == rvals[mm]);
                        }
                    }
                    assert(g@.map_values(|x: u16| x as int) =~= lvals + mid + rvals);
                }
                Some(g)
            } else {
                None
            }
        },
    }
}

/// An IPv4 literal contains a dot.
pub proof fn lemma_ipv4_literal_has_dot(s: Seq<char>)
    requires
        is_ipv4_literal(s),
    ensures
        contains_char(s, '.'),
{
    if !contains_char(s, '.') {
        lemma_split_on_no_sep(s, '.');
    }
}

/// Without the separator the split is the whole string.
pub proof fn lemma_split_on_no_sep(s: Seq<char>, sep: char)
    requires
        forall|i: int| 0 <= i < s.len() ==> s[i] != sep,
    ensures
        split_on(s, sep) =~~= seq![s],
    decreases s.len(),
{
    if s.len() > 0 {
        lemma_split_on_no_sep(s.drop_first(), sep);
        assert(seq![s[0]] + s.drop_first() =~= s);
    }
}

} // verus!
