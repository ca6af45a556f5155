//! Key derivation: a headword may end in a disambiguating ordinal
//! (`<lemma><single space><digits>` anchored at the end of the string,
//! where a digit is one of the ten ASCII digits). The group key strips that
//! ordinal; the sort key re-inserts it zero-padded to three digits so that
//! homonyms of one lemma sort in ordinal order. A trailing run of non-ASCII
//! numerals is not an ordinal and leaves the headword unchanged.

use crate::strutil::{digits_val, is_digit, pad3_string, sp_pad3};
use vstd::prelude::*;

verus! {

/// Start of the maximal run of digit characters that ends the string
/// (`s.len()` when the string does not end in a digit).
pub open spec fn digit_run_start(s: Seq<char>) -> int
    decreases s.len(),
{
    if s.len() == 0 {
        0
    } else if !is_digit(s.last()) {
        s.len() as int
    } else {
        digit_run_start(s.drop_last())
    }
}

pub proof fn lemma_digit_run_start(s: Seq<char>)
    ensures
        0 <= digit_run_start(s) <= s.len(),
        forall|j: int| digit_run_start(s) <= j < s.len() ==> is_digit(#[trigger] s[j]),
        digit_run_start(s) > 0 ==> !is_digit(s[digit_run_start(s) - 1]),
    decreases s.len(),
{
    if s.len() > 0 && is_digit(s.last()) {
        lemma_digit_run_start(s.drop_last());
        assert(forall|j: int|
            digit_run_start(s) <= j < s.len() - 1 ==> is_digit(#[trigger] s.drop_last()[j]));
        assert(forall|j: int| 0 <= j < s.len() - 1 ==> s.drop_last()[j] == s[j]);
    }
}

/// The headword ends in a space followed by at least one digit.
pub open spec fn sp_has_ordinal(s: Seq<char>) -> bool {
    let t = digit_run_start(s);
    t < s.len() && 1 <= t && s[t - 1] == ' '
}

/// The headword with a trailing ordinal removed entirely; headwords sharing
/// a group key are senses of one dictionary entry.
pub open spec fn sp_group_key(s: Seq<char>) -> Seq<char> {
    if sp_has_ordinal(s) {
        s.take(digit_run_start(s) - 1)
    } else {
        s
    }
}

/// Value of the trailing ordinal; digits that overflow a 32-bit signed
/// integer fall back to zero (documented best effort, not an error).
pub open spec fn sp_ordinal(s: Seq<char>) -> nat {
    let d = digits_val(s.skip(digit_run_start(s)));
    if d <= 2147483647 {
        d
    } else {
        0
    }
}

/// The headword with its trailing ordinal re-inserted zero-padded to three
/// digits; unchanged when there is no ordinal.
pub open spec fn sp_sort_key(s: Seq<char>) -> Seq<char> {
    if sp_has_ordinal(s) {
        sp_group_key(s) + seq![' '] + sp_pad3(sp_ordinal(s))
    } else {
        s
    }
}

fn digit_run_start_exec(s: &str) -> (t: usize)
    ensures
        t as int == digit_run_start(s@),
        t <= s@.len(),
{
    let n: usize = s.unicode_len();
    let mut i: usize = n;
    let mut done: bool = false;
    proof {
        assert(s@.take(n as int) =~= s@);
    }
    while !done && i > 0
        invariant
            0 <= i <= n,
            n == s@.len(),
            digit_run_start(s@) == digit_run_start(s@.take(i as int)),
            done ==> i > 0 && !is_digit(s@[i - 1]),
        decreases i + if done { 0int } else { 1int },
    {
        let c = s.get_char(i - 1);
        let v: u32 = c as u32;
        if 48 <= v && v <= 57 {
            proof {
                assert(s@.take(i as int).last() == s@[i - 1]);
                assert(s@.take(i as int).drop_last() =~= s@.take(i - 1));
            }
            i = i - 1;
        } else {
            proof {
                assert(s@.take(i as int).last() == s@[i - 1]);
            }
            done = true;
        }
    }
    proof {
        if i == 0 {
            assert(s@.take(0).len() == 0);
        } else {
            assert(s@.take(i as int).last() == s@[i - 1]);
            assert(digit_run_start(s@.take(i as int)) == i);
        }
    }
    i
}

/// Derives the group key: the headword with a trailing ` <digits>` ordinal
/// removed entirely, or the headword unchanged when it has none.
pub fn make_group_id(id: &str) -> (r: String)
    ensures
        r@ == sp_group_key(id@),
{
    let n: usize = id.unicode_len();
    let t: usize = digit_run_start_exec(id);
    if 1 <= t && t < n && id.get_char(t - 1) == ' ' {
        id.substring_char(0, t - 1).to_owned()
    } else {
        id.to_owned()
    }
}

/// Derives the sort key: the trailing ordinal is re-inserted zero-padded to
/// three digits (ordinals that overflow a 32-bit signed integer fall back to
/// zero); a headword without an ordinal is returned unchanged.
pub fn make_sort_key(id: &str) -> (r: String)
    ensures
        r@ == sp_sort_key(id@),
{
    let n: usize = id.unicode_len();
    let t: usize = digit_run_start_exec(id);
    proof {
        lemma_digit_run_start(id@);
    }
    if !(1 <= t && t < n && id.get_char(t - 1) == ' ') {
        return id.to_owned();
    }
    let mut v: u64 = 0;
    let mut over: bool = false;
    let mut j: usize = t;
    proof {
        assert(id@.subrange(t as int, t as int) =~= Seq::<char>::empty());
    }
    while j < n
        invariant
            t <= j <= n,
            n == id@.len(),
            t as int == digit_run_start(id@),
            forall|k: int| t <= k < n ==> is_digit(#[trigger] id@[k]),
            !over ==> v as nat == digits_val(id@.subrange(t as int, j as int)) && v
                <= 2147483647,
            over ==> digits_val(id@.subrange(t as int, j as int)) > 2147483647,
        decreases n - j,
    {
        let c = id.get_char(j);
        let d: u64 = (c as u32 - 48) as u64;
        proof {
            assert(id@.subrange(t as int, j + 1).drop_last() =~= id@.subrange(
                t as int,
                j as int,
            ));
            assert(id@.subrange(t as int, j + 1).last() == id@[j as int]);
        }
        if !over {
            let nv: u64 = v * 10 + d;
            if nv > 2147483647 {
                over = true;
            } else {
                v = nv;
            }
        }
        j = j + 1;
    }
    proof {
        assert(id@.subrange(t as int, n as int) =~= id@.skip(t as int));
    }
    let ord: u64 = if over {
        0
    } else {
        v
    };
    let mut r: String = id.substring_char(0, t - 1).to_owned();
    proof {
        reveal_strlit(" ");
    }
    r.append(" ");
    r.append(pad3_string(ord).as_str());
    proof {
        assert(r@ =~= sp_sort_key(id@));
    }
    r
}

/// Maps every space to an underscore.
pub open spec fn space_to_underscore(c: char) -> char {
    if c == ' ' {
        '_'
    } else {
        c
    }
}

/// The anchor identifier of one record in a rendered group fragment.
pub open spec fn sp_make_toc_id(id: Seq<char>, dict_short_name: Seq<char>) -> Seq<char> {
    id.map_values(|c: char| space_to_underscore(c)) + seq!['_'] + dict_short_name
}

/// Builds the anchor identifier: the headword with spaces replaced by
/// underscores, an underscore, then the dictionary short name.
pub fn make_toc_id(id: &str, dict_short_name: &str) -> (r: String)
    ensures
        r@ == sp_make_toc_id(id@, dict_short_name@),
{
    let n: usize = id.unicode_len();
    let mut s: String = String::new();
    let mut i: usize = 0;
    let ghost f = |c: char| space_to_underscore(c);
    proof {
        reveal_strlit("_");
        assert(s@ =~= id@.take(0).map_values(f));
    }
    while i < n
        invariant
            0 <= i <= n,
            n == id@.len(),
            s@ == id@.take(i as int).map_values(|c: char| space_to_underscore(c)),
        decreases n - i,
    {
        let mut j: usize = i;
        let mut at_space: bool = false;
        while j < n && !at_space
            invariant
                i <= j <= n,
                n == id@.len(),
                forall|k: int| i <= k < j ==> #[trigger] id@[k] != ' ',
                at_space ==> j < n && id@[j as int] == ' ',
            decreases n - j + if at_space { 0int } else { 1int },
        {
            if id.get_char(j) == ' ' {
                at_space = true;
            } else {
                j = j + 1;
            }
        }
        s.append(id.substring_char(i, j));
        proof {
            assert(id@.take(j as int).map_values(|c: char| space_to_underscore(c)) =~= id@.take(
                i as int,
            ).map_values(|c: char| space_to_underscore(c)) + id@.subrange(
                i as int,
                j as int,
            ));
        }
        if j < n {
            proof {
                reveal_strlit("_");
                assert(id@.take(j + 1).map_values(|c: char| space_to_underscore(c)) =~= id@.take(
                    j as int,
                ).map_values(|c: char| space_to_underscore(c)) + seq!['_']);
            }
            s.append("_");
            i = j + 1;
        } else {
            i = j;
        }
    }
    proof {
        reveal_strlit("_");
        assert(id@.take(n as int) =~= id@);
    }
    s.append("_");
    s.append(dict_short_name);
    proof {
        assert(s@ =~= sp_make_toc_id(id@, dict_short_name@));
    }
    s
}

/// Law: a headword with a trailing ` N` ordinal has a group key that is a
/// strict prefix of its sort key, and the sort key ends in the zero-padded
/// ordinal (exactly three digits whenever the ordinal is below one thousand).
pub proof fn lemma_sort_key_with_ordinal(h: Seq<char>)
    requires
        sp_has_ordinal(h),
    ensures
        sp_sort_key(h) == sp_group_key(h) + seq![' '] + sp_pad3(sp_ordinal(h)),
        sp_group_key(h).len() < sp_sort_key(h).len(),
        sp_sort_key(h).take(sp_group_key(h).len() as int) == sp_group_key(h),
        sp_pad3(sp_ordinal(h)).len() >= 3,
        sp_ordinal(h) < 1000 ==> sp_sort_key(h).skip(sp_sort_key(h).len() - 3) == sp_pad3(
            sp_ordinal(h),
        ),
{
    lemma_pad3_len(sp_ordinal(h));
    assert(sp_sort_key(h).take(sp_group_key(h).len() as int) =~= sp_group_key(h));
    if sp_ordinal(h) < 1000 {
        assert(sp_sort_key(h).skip(sp_sort_key(h).len() - 3) =~= sp_pad3(sp_ordinal(h)));
    }
}

/// Law: a headword without a trailing ordinal is its own group key and its
/// own sort key.
pub proof fn lemma_sort_key_plain(h: Seq<char>)
    requires
        !sp_has_ordinal(h),
    ensures
        sp_sort_key(h) == h,
        sp_group_key(h) == h,
{
}

/// The shape every derived pair of group key and sort key has: the sort key
/// extends the group key, either by nothing or by one space and at least
/// one digit.
pub open spec fn sp_key_shape(g: Seq<char>, sk: Seq<char>) -> bool {
    &&& sk.len() >= g.len()
    &&& sk.take(g.len() as int) == g
    &&& (sk.len() == g.len() || (sk.len() >= g.len() + 2 && sk[g.len() as int] == ' ' && forall|
        j: int,
    |
        g.len() + 1 <= j < sk.len() ==> is_digit(#[trigger] sk[j])))
}

pub proof fn lemma_key_shape(h: Seq<char>)
    ensures
        sp_key_shape(sp_group_key(h), sp_sort_key(h)),
{
    let g = sp_group_key(h);
    let sk = sp_sort_key(h);
    if sp_has_ordinal(h) {
        crate::strutil::lemma_pad3_are_digits(sp_ordinal(h));
        lemma_pad3_len(sp_ordinal(h));
        assert(sk.take(g.len() as int) =~= g);
        assert(sk[g.len() as int] == ' ');
        assert(forall|j: int| g.len() + 1 <= j < sk.len() ==> is_digit(#[trigger] sk[j])) by {
            assert(forall|j: int|
                g.len() + 1 <= j < sk.len() ==> sk[j] == sp_pad3(sp_ordinal(h))[j - g.len() - 1]);
        }
    } else {
        assert(sk.take(g.len() as int) =~= g);
    }
}

proof fn lemma_dec_digits_len(n: nat)
    ensures
        crate::strutil::dec_digits(n).len() >= 1,
        n < 10 ==> crate::strutil::dec_digits(n).len() == 1,
        10 <= n < 100 ==> crate::strutil::dec_digits(n).len() == 2,
        100 <= n < 1000 ==> crate::strutil::dec_digits(n).len() == 3,
        n >= 1000 ==> crate::strutil::dec_digits(n).len() >= 4,
    decreases n,
{
    if n >= 10 {
        lemma_dec_digits_len(n / 10);
    }
}

proof fn lemma_pad3_len(n: nat)
    ensures
        sp_pad3(n).len() >= 3,
        n < 1000 ==> sp_pad3(n).len() == 3,
{
    lemma_dec_digits_len(n);
}

} // verus!
