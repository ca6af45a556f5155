//! String helpers shared by the whole crate: decimal rendering of integers,
//! digit parsing, and a raw (code-point) lexicographic comparator.

use vstd::prelude::*;

verus! {

/// The decimal digit character for a value below ten.
pub open spec fn digit_char(d: nat) -> char {
    if d == 0 {
        '0'
    } else if d == 1 {
        '1'
    } else if d == 2 {
        '2'
    } else if d == 3 {
        '3'
    } else if d == 4 {
        '4'
    } else if d == 5 {
        '5'
    } else if d == 6 {
        '6'
    } else if d == 7 {
        '7'
    } else if d == 8 {
        '8'
    } else {
        '9'
    }
}

/// Decimal representation of `n`, most significant digit first, no leading
/// zeroes (a single `'0'` for zero).
pub open spec fn dec_digits(n: nat) -> Seq<char>
    decreases n,
{
    if n < 10 {
        seq![digit_char(n)]
    } else {
        dec_digits(n / 10).push(digit_char(n % 10))
    }
}

/// Decimal representation of `n`, left-padded with zeroes to at least three
/// digits, as `format!("{:03}", n)` renders it.
pub open spec fn sp_pad3(n: nat) -> Seq<char> {
    if n < 10 {
        seq!['0', '0'] + dec_digits(n)
    } else if n < 100 {
        seq!['0'] + dec_digits(n)
    } else {
        dec_digits(n)
    }
}

fn digit_str(d: u64) -> (r: &'static str)
    requires
        d < 10,
    ensures
        r@ =~= seq![digit_char(d as nat)],
{
    proof {
        reveal_strlit("0");
        reveal_strlit("1");
        reveal_strlit("2");
        reveal_strlit("3");
        reveal_strlit("4");
        reveal_strlit("5");
        reveal_strlit("6");
        reveal_strlit("7");
        reveal_strlit("8");
        reveal_strlit("9");
    }
    if d == 0 {
        "0"
    } else if d == 1 {
        "1"
    } else if d == 2 {
        "2"
    } else if d == 3 {
        "3"
    } else if d == 4 {
        "4"
    } else if d == 5 {
        "5"
    } else if d == 6 {
        "6"
    } else if d == 7 {
        "7"
    } else if d == 8 {
        "8"
    } else {
        "9"
    }
}

/// Renders `n` in decimal.
pub fn to_dec_string(n: u64) -> (r: String)
    ensures
        r@ == dec_digits(n as nat),
    decreases n,
{
    if n < 10 {
        digit_str(n).to_owned()
    } else {
        let mut s = to_dec_string(n / 10);
        s.append(digit_str(n % 10));
        proof {
            assert(s@ =~= dec_digits(n as nat));
        }
        s
    }
}

/// Renders `n` in decimal, zero-padded to at least three digits.
pub fn pad3_string(n: u64) -> (r: String)
    ensures
        r@ == sp_pad3(n as nat),
{
    if n < 10 {
        proof {
            reveal_strlit("00");
        }
        let mut s: String = "00".to_owned();
        s.append(to_dec_string(n).as_str());
        proof {
            assert(s@ =~= sp_pad3(n as nat));
        }
        s
    } else if n < 100 {
        proof {
            reveal_strlit("0");
        }
        let mut s: String = "0".to_owned();
        s.append(to_dec_string(n).as_str());
        proof {
            assert(s@ =~= sp_pad3(n as nat));
        }
        s
    } else {
        to_dec_string(n)
    }
}

/// True of the ten ASCII digit characters.
pub open spec fn is_digit(c: char) -> bool {
    48 <= c as u32 && c as u32 <= 57
}

/// Numeric value of a digit character.
pub open spec fn digit_val(c: char) -> nat
    recommends
        is_digit(c),
{
    (c as u32 - 48) as nat
}

/// Value of a digit string read in base ten.
pub open spec fn digits_val(s: Seq<char>) -> nat
    decreases s.len(),
{
    if s.len() == 0 {
        0
    } else {
        digits_val(s.drop_last()) * 10 + digit_val(s.last())
    }
}

/// The string with every carriage return and line feed removed.
pub open spec fn sp_strip_newlines(s: Seq<char>) -> Seq<char>
    decreases s.len(),
{
    if s.len() == 0 {
        s
    } else {
        let rest = sp_strip_newlines(s.drop_last());
        if s.last() == '\r' || s.last() == '\n' {
            rest
        } else {
            rest.push(s.last())
        }
    }
}

/// Removes every carriage return and line feed.
pub fn strip_newlines(s: &str) -> (r: String)
    ensures
        r@ == sp_strip_newlines(s@),
{
    let n: usize = s.unicode_len();
    let mut out = String::new();
    let mut i: usize = 0;
    proof {
        assert(s@.take(0) =~= Seq::<char>::empty());
    }
    while i < n
        invariant
            0 <= i <= n,
            n == s@.len(),
            out@ == sp_strip_newlines(s@.take(i as int)),
        decreases n - i,
    {
        let c = s.get_char(i);
        proof {
            assert(s@.take(i + 1).drop_last() =~= s@.take(i as int));
            assert(s@.take(i + 1).last() == s@[i as int]);
        }
        if c != '\r' && c != '\n' {
            out.append(s.substring_char(i, i + 1));
            proof {
                assert(s@.subrange(i as int, i + 1) =~= seq![s@[i as int]]);
                assert(out@ =~= sp_strip_newlines(s@.take(i as int)).push(s@[i as int]));
            }
        }
        i = i + 1;
    }
    proof {
        assert(s@.take(n as int) =~= s@);
    }
    out
}

/// True when ASCII-lowercasing `s` yields exactly `t`, compared by code
/// points so that no character needs to be constructed.
pub open spec fn sp_lower_matches(s: Seq<char>, t: Seq<char>) -> bool {
    s.len() == t.len() && forall|i: int|
        0 <= i < s.len() ==> crate::glib::lower_val(s[i]) == #[trigger] t[i] as u32
}

/// Decides whether ASCII-lowercasing `s` yields exactly `t`.
pub fn lower_matches(s: &str, t: &str) -> (r: bool)
    ensures
        r == sp_lower_matches(s@, t@),
{
    let n: usize = s.unicode_len();
    if n != t.unicode_len() {
        return false;
    }
    let mut i: usize = 0;
    while i < n
        invariant
            0 <= i <= n,
            n == s@.len(),
            n == t@.len(),
            forall|k: int| 0 <= k < i ==> crate::glib::lower_val(s@[k]) == #[trigger] t@[k] as u32,
        decreases n - i,
    {
        let c = s.get_char(i);
        let v: u32 = c as u32;
        let lv: u32 = if 65 <= v && v <= 90 {
            v + 32
        } else {
            v
        };
        if lv != t.get_char(i) as u32 {
            return false;
        }
        i = i + 1;
    }
    true
}

/// True when `s` begins with `prefix`.
pub fn str_starts_with(s: &str, prefix: &str) -> (r: bool)
    ensures
        r == (prefix@.len() <= s@.len() && s@.take(prefix@.len() as int) == prefix@),
{
    let pn: usize = prefix.unicode_len();
    let n: usize = s.unicode_len();
    if pn > n {
        return false;
    }
    let mut i: usize = 0;
    while i < pn
        invariant
            0 <= i <= pn,
            pn <= n,
            pn == prefix@.len(),
            n == s@.len(),
            forall|k: int| 0 <= k < i ==> s@[k] == #[trigger] prefix@[k],
        decreases pn - i,
    {
        if s.get_char(i) != prefix.get_char(i) {
            proof {
                assert(s@.take(pn as int)[i as int] == s@[i as int]);
            }
            return false;
        }
        i = i + 1;
    }
    proof {
        assert(s@.take(pn as int) =~= prefix@);
    }
    true
}

/// Raw lexicographic comparison of two strings by code point, with the
/// shorter string first on a tie.
pub open spec fn sp_str_cmp(s1: Seq<char>, s2: Seq<char>) -> core::cmp::Ordering
    decreases s1.len(),
{
    if s1.len() == 0 && s2.len() == 0 {
        core::cmp::Ordering::Equal
    } else if s1.len() == 0 {
        core::cmp::Ordering::Less
    } else if s2.len() == 0 {
        core::cmp::Ordering::Greater
    } else if (s1[0] as u32) < (s2[0] as u32) {
        core::cmp::Ordering::Less
    } else if (s1[0] as u32) > (s2[0] as u32) {
        core::cmp::Ordering::Greater
    } else {
        sp_str_cmp(s1.drop_first(), s2.drop_first())
    }
}

/// `s1` sorts at or before `s2` in raw lexicographic order.
pub open spec fn sp_str_le(s1: Seq<char>, s2: Seq<char>) -> bool {
    sp_str_cmp(s1, s2) != core::cmp::Ordering::Greater
}

pub proof fn lemma_str_cmp_prefix_reduce(p: Seq<char>, a: Seq<char>, b: Seq<char>)
    ensures
        sp_str_cmp(p + a, p + b) == sp_str_cmp(a, b),
    decreases p.len(),
{
    if p.len() == 0 {
        assert(p + a =~= a);
        assert(p + b =~= b);
    } else {
        assert((p + a)[0] == p[0]);
        assert((p + b)[0] == p[0]);
        assert((p + a).len() > 0 && (p + b).len() > 0);
        assert((p + a).drop_first() =~= p.drop_first() + a);
        assert((p + b).drop_first() =~= p.drop_first() + b);
        lemma_str_cmp_prefix_reduce(p.drop_first(), a, b);
    }
}

/// A string that sorts between two extensions of `g` starts with `g`.
pub proof fn lemma_str_le_sandwich_prefix(g: Seq<char>, a: Seq<char>, b: Seq<char>, u: Seq<char>)
    requires
        sp_str_le(g + a, u),
        sp_str_le(u, g + b),
    ensures
        u.len() >= g.len(),
        u.take(g.len() as int) == g,
    decreases g.len(),
{
    if g.len() == 0 {
        assert(u.take(0) =~= g);
    } else {
        assert((g + a).len() > 0);
        if u.len() == 0 {
            assert(sp_str_cmp(g + a, u) == core::cmp::Ordering::Greater);
            assert(false);
        }
        assert((g + a)[0] == g[0]);
        assert((g + b)[0] == g[0]);
        if (g[0] as u32) > (u[0] as u32) {
            assert(sp_str_cmp(g + a, u) == core::cmp::Ordering::Greater);
            assert(false);
        }
        if (g[0] as u32) < (u[0] as u32) {
            assert(sp_str_cmp(u, g + b) == core::cmp::Ordering::Greater);
            assert(false);
        }
        vstd::utf8::char_u32_cast(g[0], g[0] as u32);
        vstd::utf8::char_u32_cast(u[0], u[0] as u32);
        assert(u[0] == g[0]);
        assert((g + a).drop_first() =~= g.drop_first() + a);
        assert((g + b).drop_first() =~= g.drop_first() + b);
        assert(sp_str_cmp(g + a, u) == sp_str_cmp(g.drop_first() + a, u.drop_first()));
        assert(sp_str_cmp(u, g + b) == sp_str_cmp(u.drop_first(), g.drop_first() + b));
        lemma_str_le_sandwich_prefix(g.drop_first(), a, b, u.drop_first());
        assert(u.take(g.len() as int) =~= g) by {
            assert(forall|t: int|
                0 <= t < g.len() - 1 ==> u.drop_first().take(g.len() - 1)[t] == #[trigger] u.drop_first()[t]);
            assert(forall|t: int|
                1 <= t < g.len() ==> u[t] == u.drop_first()[t - 1]);
            assert(forall|t: int| 1 <= t < g.len() ==> u[t] == g.drop_first()[t - 1]);
        }
    }
}

pub proof fn lemma_dec_digits_are_digits(n: nat)
    ensures
        forall|i: int| 0 <= i < dec_digits(n).len() ==> is_digit(#[trigger] dec_digits(n)[i]),
    decreases n,
{
    if n < 10 {
        assert(dec_digits(n)[0] == digit_char(n));
        assert(is_digit(digit_char(n)));
    } else {
        lemma_dec_digits_are_digits(n / 10);
        assert(is_digit(digit_char(n % 10)));
        assert(forall|i: int|
            0 <= i < dec_digits(n).len() - 1 ==> #[trigger] dec_digits(n)[i] == dec_digits(
                n / 10,
            )[i]);
        assert(dec_digits(n).last() == digit_char(n % 10));
    }
}

pub proof fn lemma_pad3_are_digits(n: nat)
    ensures
        forall|i: int| 0 <= i < sp_pad3(n).len() ==> is_digit(#[trigger] sp_pad3(n)[i]),
{
    lemma_dec_digits_are_digits(n);
}

/// Compares two strings by raw code points, as `str::cmp` orders them.
pub fn str_cmp(s1: &str, s2: &str) -> (r: core::cmp::Ordering)
    ensures
        r == sp_str_cmp(s1@, s2@),
{
    let n1: usize = s1.unicode_len();
    let n2: usize = s2.unicode_len();
    let min: usize = if n1 < n2 {
        n1
    } else {
        n2
    };
    let mut i: usize = 0;
    proof {
        assert(s1@.skip(0) =~= s1@);
        assert(s2@.skip(0) =~= s2@);
    }
    while i < min
        invariant
            0 <= i <= min,
            min == if n1 < n2 { n1 } else { n2 },
            n1 == s1@.len(),
            n2 == s2@.len(),
            sp_str_cmp(s1@, s2@) == sp_str_cmp(s1@.skip(i as int), s2@.skip(i as int)),
        decreases min - i,
    {
        let c1 = s1.get_char(i);
        let c2 = s2.get_char(i);
        proof {
            assert(s1@.skip(i as int)[0] == s1@[i as int]);
            assert(s2@.skip(i as int)[0] == s2@[i as int]);
            assert(s1@.skip(i as int).drop_first() =~= s1@.skip(i + 1));
            assert(s2@.skip(i as int).drop_first() =~= s2@.skip(i + 1));
        }
        if (c1 as u32) < (c2 as u32) {
            return core::cmp::Ordering::Less;
        }
        if (c1 as u32) > (c2 as u32) {
            return core::cmp::Ordering::Greater;
        }
        i = i + 1;
    }
    proof {
        assert(s1@.skip(min as int).len() == 0 || s2@.skip(min as int).len() == 0);
    }
    if n1 < n2 {
        core::cmp::Ordering::Less
    } else if n1 > n2 {
        core::cmp::Ordering::Greater
    } else {
        proof {
            assert(s1@.skip(min as int).len() == 0 && s2@.skip(min as int).len() == 0);
        }
        core::cmp::Ordering::Equal
    }
}

} // verus!
