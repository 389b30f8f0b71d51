//! Type-name text utilities.
//!
//! Runtime type names differ in spelling more than in meaning: a fully
//! qualified name and its final path segment stand for the same type. Two
//! names are taken as compatible when they are equal, their final segments
//! are equal, or either name contains the other's final segment (which
//! also covers a parameterized container name carried inside a fully
//! qualified one).

use vstd::prelude::*;

verus! {

/// Where the final path segment of a name starts: just after the last
/// `::`, or 0 when there is none.
pub open spec fn spec_seg_start(s: Seq<char>) -> int
    decreases s.len(),
{
    if s.len() < 2 {
        0
    } else if s[s.len() - 2] == ':' && s[s.len() - 1] == ':' {
        s.len() as int
    } else {
        spec_seg_start(s.take(s.len() - 1))
    }
}

/// The final path segment of a name.
pub open spec fn spec_last_segment(s: Seq<char>) -> Seq<char> {
    s.subrange(spec_seg_start(s), s.len() as int)
}

/// One sequence occurs inside another.
pub open spec fn spec_contains_seq(hay: Seq<char>, needle: Seq<char>) -> bool {
    exists|i: int|
        0 <= i && i + needle.len() <= hay.len() && #[trigger] hay.subrange(i, i + needle.len())
            == needle
}

/// Two type names stand for the same type.
pub open spec fn spec_names_compatible(a: Seq<char>, b: Seq<char>) -> bool {
    ||| a == b
    ||| spec_last_segment(a) == spec_last_segment(b)
    ||| spec_contains_seq(a, spec_last_segment(b))
    ||| spec_contains_seq(b, spec_last_segment(a))
}

/// The segment start lies inside the name.
pub proof fn lemma_seg_start_bounds(s: Seq<char>)
    ensures
        0 <= spec_seg_start(s) <= s.len(),
    decreases s.len(),
{
    if s.len() >= 2 && !(s[s.len() - 2] == ':' && s[s.len() - 1] == ':') {
        lemma_seg_start_bounds(s.take(s.len() - 1));
    }
}

/// Where the final path segment of a name starts.
pub fn seg_start(s: &str) -> (r: usize)
    ensures
        r == spec_seg_start(s@),
        r <= s@.len(),
{
    let n = s.unicode_len();
    let mut i: usize = n;
    proof {
        assert(s@.take(n as int) =~= s@);
    }
    while i >= 2
        invariant
            i <= n,
            n == s@.len(),
            spec_seg_start(s@) == spec_seg_start(s@.take(i as int)),
        decreases i,
    {
        let c1 = s.get_char(i - 2);
        let c2 = s.get_char(i - 1);
        proof {
            assert(s@.take(i as int)[i - 2] == s@[i - 2]);
            assert(s@.take(i as int)[i - 1] == s@[i - 1]);
        }
        if c1 == ':' && c2 == ':' {
            return i;
        }
        proof {
            assert(s@.take(i as int).take(i - 1) =~= s@.take(i - 1));
        }
        i -= 1;
    }
    0
}

/// The final path segment of a name.
pub fn last_segment(s: &str) -> (r: &str)
    ensures
        r@ == spec_last_segment(s@),
{
    let start = seg_start(s);
    let n = s.unicode_len();
    s.substring_char(start, n)
}

/// True iff `needle` occurs inside `hay`.
pub fn contains_chars(hay: &str, needle: &str) -> (r: bool)
    ensures
        r == spec_contains_seq(hay@, needle@),
{
    let hn = hay.unicode_len();
    let nn = needle.unicode_len();
    if nn > hn {
        proof {
            assert(!spec_contains_seq(hay@, needle@));
        }
        return false;
    }
    let mut i: usize = 0;
    while i <= hn - nn
        invariant
            nn <= hn,
            hn == hay@.len(),
            nn == needle@.len(),
            i <= hn - nn + 1,
            forall|w: int|
                0 <= w < i ==> #[trigger] hay@.subrange(w, w + needle@.len() as int) != needle@,
        decreases hn + 1 - nn - i,
    {
        let mut j: usize = 0;
        let mut matches_here = true;
        while j < nn
            invariant
                nn == needle@.len(),
                hn == hay@.len(),
                i + nn <= hn,
                j <= nn,
                matches_here == (forall|w: int|
                    0 <= w < j ==> hay@[i + w] == #[trigger] needle@[w]),
            decreases nn - j,
        {
            let hc = hay.get_char(i + j);
            let nc = needle.get_char(j);
            if hc != nc {
                matches_here = false;
                proof {
                    assert(hay@[i + j as int] != needle@[j as int]);
                }
                j = nn;
            } else {
                proof {
                    if matches_here {
                        assert(forall|w: int|
                            0 <= w < j + 1 ==> hay@[i + w] == #[trigger] needle@[w]);
                    } else {
                        let bad = choose|w: int|
                            0 <= w < j && hay@[i + w] != #[trigger] needle@[w];
                        assert(hay@[i + bad] != needle@[bad]);
                    }
                }
                j += 1;
            }
        }
        if matches_here {
            proof {
                assert(hay@.subrange(i as int, i + needle@.len() as int) =~= needle@);
            }
            return true;
        }
        proof {
            if hay@.subrange(i as int, i + needle@.len() as int) == needle@ {
                assert forall|w: int| 0 <= w < nn implies hay@[i + w] == needle@[w] by {
                    assert(hay@.subrange(i as int, i + needle@.len() as int)[w] == hay@[i + w]);
                }
            }
        }
        i += 1;
    }
    proof {
        assert forall|w: int|
            0 <= w && w + needle@.len() <= hay@.len() implies #[trigger] hay@.subrange(
            w,
            w + needle@.len() as int,
        ) != needle@ by {
            assert(w < i);
        }
    }
    false
}

/// Compare two type names for compatibility: equal, equal final segments,
/// or either contains the other's final segment.
pub fn compare_type_names(a: &str, b: &str) -> (r: bool)
    ensures
        r == spec_names_compatible(a@, b@),
{
    if crate::prim::str_eq(a, b) {
        return true;
    }
    let a_simple = last_segment(a);
    let b_simple = last_segment(b);
    if crate::prim::str_eq(a_simple, b_simple) {
        return true;
    }
    if contains_chars(a, b_simple) {
        return true;
    }
    if contains_chars(b, a_simple) {
        return true;
    }
    false
}

/// The decimal digits of a number, most significant first.
pub open spec fn spec_decimal(n: u64) -> Seq<char>
    decreases n,
{
    let digit = ((n % 10) + 48) as u8 as char;
    if n < 10 {
        seq![digit]
    } else {
        spec_decimal(n / 10).push(digit)
    }
}

/// Render a number in decimal.
pub fn decimal_string(n: u64) -> (r: String)
    ensures
        r@ == spec_decimal(n),
    decreases n,
{
    let digit_strs = [
        "0", "1", "2", "3", "4", "5", "6", "7", "8", "9",
    ];
    let d = (n % 10) as usize;
    let digit: &str = digit_strs[d];
    proof {
        reveal_strlit("0");
        reveal_strlit("1");
        reveal_strlit("2");
        reveal_strlit("3");
        reveal_strlit("4");
        reveal_strlit("5");
        reveal_strlit("6");
        reveal_strlit("7");
        reveal_strlit("8");
        reveal_strlit("9");
        assert(digit@ =~= seq![((n % 10) + 48) as u8 as char]);
    }
    if n < 10 {
        digit.to_owned()
    } else {
        let mut s = decimal_string(n / 10);
        s.append(digit);
        proof {
            assert(s@ =~= spec_decimal(n));
        }
        s
    }
}

/// The decimal rendering of a signed number: a minus sign and the
/// magnitude.
pub open spec fn spec_decimal_i64(v: i64) -> Seq<char> {
    if v >= 0 {
        spec_decimal(v as u64)
    } else {
        "-"@ + spec_decimal((-(v as int)) as u64)
    }
}

/// Render a signed number in decimal.
pub fn decimal_string_i64(v: i64) -> (r: String)
    ensures
        r@ == spec_decimal_i64(v),
{
    if v >= 0 {
        decimal_string(v as u64)
    } else {
        let magnitude = ((-(v as i128)) as u128) as u64;
        let mut s = String::from_str("-");
        let m = decimal_string(magnitude);
        s.append(m.as_str());
        s
    }
}

} // verus!
