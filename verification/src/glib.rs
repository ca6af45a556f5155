//! The collation used by the persisted index: compares two strings code
//! point by code point, case-insensitively for the ASCII range, falling back
//! to raw code-point order at any position where either side is non-ASCII.
//! The shorter string sorts first when all compared positions are equal.

use vstd::prelude::*;

verus! {

/// The ASCII-uppercased value of a character's code point (characters
/// outside `a..=z` are unchanged).
pub open spec fn upper_val(c: char) -> u32 {
    if 97 <= c as u32 && c as u32 <= 122 {
        (c as u32 - 32) as u32
    } else {
        c as u32
    }
}

/// The ASCII-lowercased value of a character's code point (characters
/// outside `A..=Z` are unchanged).
pub open spec fn lower_val(c: char) -> u32 {
    if 65 <= c as u32 && c as u32 <= 90 {
        (c as u32 + 32) as u32
    } else {
        c as u32
    }
}

pub open spec fn sp_u32_cmp(a: u32, b: u32) -> core::cmp::Ordering {
    if a < b {
        core::cmp::Ordering::Less
    } else if a > b {
        core::cmp::Ordering::Greater
    } else {
        core::cmp::Ordering::Equal
    }
}

/// How one position is compared: a non-ASCII code point on either side
/// forces raw code-point order; two ASCII characters compare by their
/// uppercase values and, where those differ, by their lowercase values.
pub open spec fn sp_char_cmp_fold(c1: char, c2: char) -> core::cmp::Ordering {
    if c1 == c2 {
        core::cmp::Ordering::Equal
    } else if c1 as u32 > 127 || c2 as u32 > 127 {
        sp_u32_cmp(c1 as u32, c2 as u32)
    } else if upper_val(c1) != upper_val(c2) && lower_val(c1) != lower_val(c2) {
        sp_u32_cmp(lower_val(c1), lower_val(c2))
    } else {
        core::cmp::Ordering::Equal
    }
}

/// The whole collation: the first position whose characters compare unequal
/// decides; otherwise the shorter string sorts first.
pub open spec fn sp_glib_cmp(s1: Seq<char>, s2: Seq<char>) -> core::cmp::Ordering
    decreases s1.len(),
{
    if s1.len() == 0 && s2.len() == 0 {
        core::cmp::Ordering::Equal
    } else if s1.len() == 0 {
        core::cmp::Ordering::Less
    } else if s2.len() == 0 {
        core::cmp::Ordering::Greater
    } else if sp_char_cmp_fold(s1[0], s2[0]) != core::cmp::Ordering::Equal {
        sp_char_cmp_fold(s1[0], s2[0])
    } else {
        sp_glib_cmp(s1.drop_first(), s2.drop_first())
    }
}

/// `s1` sorts at or before `s2` under the collation.
pub open spec fn sp_glib_le(s1: Seq<char>, s2: Seq<char>) -> bool {
    sp_glib_cmp(s1, s2) != core::cmp::Ordering::Greater
}

/// Compares two strings, ignoring the case of ASCII characters and taking
/// case differences of non-ASCII characters into account, as the classic
/// GLib collation orders them.
pub fn g_ascii_strcasecmp(str1: &str, str2: &str) -> (r: core::cmp::Ordering)
    ensures
        r == sp_glib_cmp(str1@, str2@),
{
    let n1: usize = str1.unicode_len();
    let n2: usize = str2.unicode_len();
    let min: usize = if n1 < n2 {
        n1
    } else {
        n2
    };
    let mut i: usize = 0;
    proof {
        assert(str1@.skip(0) =~= str1@);
        assert(str2@.skip(0) =~= str2@);
    }
    while i < min
        invariant
            0 <= i <= min,
            min == if n1 < n2 { n1 } else { n2 },
            n1 == str1@.len(),
            n2 == str2@.len(),
            sp_glib_cmp(str1@, str2@) == sp_glib_cmp(str1@.skip(i as int), str2@.skip(i as int)),
        decreases min - i,
    {
        let c1 = str1.get_char(i);
        let c2 = str2.get_char(i);
        proof {
            assert(str1@.skip(i as int)[0] == str1@[i as int]);
            assert(str2@.skip(i as int)[0] == str2@[i as int]);
            assert(str1@.skip(i as int).drop_first() =~= str1@.skip(i + 1));
            assert(str2@.skip(i as int).drop_first() =~= str2@.skip(i + 1));
        }
        if c1 != c2 {
            let v1: u32 = c1 as u32;
            let v2: u32 = c2 as u32;
            if v1 > 127 || v2 > 127 {
                return if v1 < v2 {
                    core::cmp::Ordering::Less
                } else {
                    core::cmp::Ordering::Greater
                };
            }
            let c1uc: u32 = if 97 <= v1 && v1 <= 122 {
                v1 - 32
            } else {
                v1
            };
            let c2uc: u32 = if 97 <= v2 && v2 <= 122 {
                v2 - 32
            } else {
                v2
            };
            if c1uc != c2uc {
                let c1lc: u32 = if 65 <= v1 && v1 <= 90 {
                    v1 + 32
                } else {
                    v1
                };
                let c2lc: u32 = if 65 <= v2 && v2 <= 90 {
                    v2 + 32
                } else {
                    v2
                };
                if c1lc != c2lc {
                    return if c1lc < c2lc {
                        core::cmp::Ordering::Less
                    } else {
                        core::cmp::Ordering::Greater
                    };
                }
            }
        }
        i = i + 1;
    }
    if n1 < n2 {
        core::cmp::Ordering::Less
    } else if n1 > n2 {
        core::cmp::Ordering::Greater
    } else {
        core::cmp::Ordering::Equal
    }
}

/// The key one position is effectively compared by: the ASCII-lowercased
/// value in the ASCII range, the raw code point above it.
pub open spec fn sp_fold_key(c: char) -> u32 {
    if c as u32 <= 127 {
        lower_val(c)
    } else {
        c as u32
    }
}

proof fn lemma_char_cmp_fold_is_key_cmp(c1: char, c2: char)
    ensures
        sp_char_cmp_fold(c1, c2) == sp_u32_cmp(sp_fold_key(c1), sp_fold_key(c2)),
{
    vstd::utf8::char_u32_cast(c1, c1 as u32);
    vstd::utf8::char_u32_cast(c2, c2 as u32);
}

proof fn lemma_glib_cmp_flip(a: Seq<char>, b: Seq<char>)
    ensures
        sp_glib_cmp(b, a) == (match sp_glib_cmp(a, b) {
            core::cmp::Ordering::Less => core::cmp::Ordering::Greater,
            core::cmp::Ordering::Equal => core::cmp::Ordering::Equal,
            core::cmp::Ordering::Greater => core::cmp::Ordering::Less,
        }),
    decreases a.len(),
{
    if a.len() > 0 && b.len() > 0 {
        lemma_char_cmp_fold_is_key_cmp(a[0], b[0]);
        lemma_char_cmp_fold_is_key_cmp(b[0], a[0]);
        if sp_char_cmp_fold(a[0], b[0]) == core::cmp::Ordering::Equal {
            lemma_glib_cmp_flip(a.drop_first(), b.drop_first());
        }
    }
}

/// Law: the collation is total; one of any two strings sorts at or before
/// the other.
pub proof fn lemma_glib_le_total(a: Seq<char>, b: Seq<char>)
    ensures
        sp_glib_le(a, b) || sp_glib_le(b, a),
{
    lemma_glib_cmp_flip(a, b);
}

/// Law: the collation is transitive, so sorting by it is meaningful and a
/// binary search over a file sorted by it is sound.
pub proof fn lemma_glib_le_trans(a: Seq<char>, b: Seq<char>, c: Seq<char>)
    requires
        sp_glib_le(a, b),
        sp_glib_le(b, c),
    ensures
        sp_glib_le(a, c),
    decreases a.len(),
{
    if a.len() == 0 {
    } else if b.len() == 0 {
        assert(sp_glib_cmp(a, b) == core::cmp::Ordering::Greater);
    } else if c.len() == 0 {
        assert(sp_glib_cmp(b, c) == core::cmp::Ordering::Greater);
    } else {
        lemma_char_cmp_fold_is_key_cmp(a[0], b[0]);
        lemma_char_cmp_fold_is_key_cmp(b[0], c[0]);
        lemma_char_cmp_fold_is_key_cmp(a[0], c[0]);
        let ka = sp_fold_key(a[0]);
        let kb = sp_fold_key(b[0]);
        let kc = sp_fold_key(c[0]);
        if ka > kb {
            assert(sp_glib_cmp(a, b) == core::cmp::Ordering::Greater);
        }
        if kb > kc {
            assert(sp_glib_cmp(b, c) == core::cmp::Ordering::Greater);
        }
        if ka == kb && kb == kc {
            lemma_glib_le_trans(a.drop_first(), b.drop_first(), c.drop_first());
        }
    }
}

/// Law: at the first differing position, a non-ASCII code point on either
/// side makes the whole comparison fall back to raw code-point order at that
/// position, with no case folding.
pub proof fn lemma_non_ascii_mismatch_is_raw(s1: Seq<char>, s2: Seq<char>, i: int)
    requires
        0 <= i < s1.len(),
        i < s2.len(),
        forall|j: int| 0 <= j < i ==> sp_char_cmp_fold(#[trigger] s1[j], s2[j])
            == core::cmp::Ordering::Equal,
        s1[i] != s2[i],
        s1[i] as u32 > 127 || s2[i] as u32 > 127,
    ensures
        sp_glib_cmp(s1, s2) == sp_u32_cmp(s1[i] as u32, s2[i] as u32),
    decreases i,
{
    vstd::utf8::char_u32_cast(s1[i], s1[i] as u32);
    vstd::utf8::char_u32_cast(s2[i], s2[i] as u32);
    assert(s1[i] as u32 != s2[i] as u32);
    if i == 0 {
        assert(sp_char_cmp_fold(s1[0], s2[0]) == sp_u32_cmp(s1[0] as u32, s2[0] as u32));
    } else {
        assert(sp_char_cmp_fold(s1[0], s2[0]) == core::cmp::Ordering::Equal);
        assert(forall|j: int| 0 <= j < i - 1 ==> sp_char_cmp_fold(
            #[trigger] s1.drop_first()[j],
            s2.drop_first()[j],
        ) == core::cmp::Ordering::Equal);
        assert(s1.drop_first()[i - 1] == s1[i]);
        assert(s2.drop_first()[i - 1] == s2[i]);
        lemma_non_ascii_mismatch_is_raw(s1.drop_first(), s2.drop_first(), i - 1);
    }
}

} // verus!
