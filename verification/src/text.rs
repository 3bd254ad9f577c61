//! Character-level text utilities: ASCII case folding, lexicographic
//! comparison and concatenation of strings, with executable forms proved
//! against their specifications.

use vstd::prelude::*;

verus! {

/// ASCII lowercase of one character; characters outside `'A'..='Z'` are
/// unchanged.
pub open spec fn lower_char(c: char) -> char {
    if 'A' <= c && c <= 'Z' {
        (((c as u32) + 32) as char)
    } else {
        c
    }
}

/// Executable ASCII lowercasing of one character.
pub fn ascii_lower_char(c: char) -> (r: char)
    ensures
        r == lower_char(c),
{
    if 'A' <= c && c <= 'Z' {
        let u: u32 = c as u32;
        let b: u8 = (u + 32) as u8;
        b as char
    } else {
        c
    }
}

/// Two character sequences are equal up to ASCII case.
pub open spec fn ascii_eq_ci(a: Seq<char>, b: Seq<char>) -> bool {
    &&& a.len() == b.len()
    &&& forall|i: int| 0 <= i < a.len() ==> lower_char(#[trigger] a[i]) == lower_char(b[i])
}

/// Executable ASCII-case-insensitive equality of two strings.
pub fn str_eq_ignore_ascii_case(a: &str, b: &str) -> (r: bool)
    ensures
        r == ascii_eq_ci(a@, b@),
{
    let alen = a.unicode_len();
    let blen = b.unicode_len();
    if alen != blen {
        return false;
    }
    let mut i: usize = 0;
    while i < alen
        invariant
            i <= alen,
            alen == a@.len(),
            alen == b@.len(),
            forall|j: int| 0 <= j < i ==> lower_char(#[trigger] a@[j]) == lower_char(b@[j]),
        decreases alen - i,
    {
        let ca = ascii_lower_char(a.get_char(i));
        let cb = ascii_lower_char(b.get_char(i));
        if ca != cb {
            assert(lower_char(a@[i as int]) != lower_char(b@[i as int]));
            return false;
        }
        i = i + 1;
    }
    true
}

/// Outcome of a three-way comparison.
#[derive(Clone, Copy, Debug, PartialEq, Eq, Structural)]
pub enum Rank {
    Less,
    Equal,
    Greater,
}

/// Lexicographic three-way comparison of two character sequences by code
/// point, a prefix ranking before its extensions.
pub open spec fn cmp_seq(a: Seq<char>, b: Seq<char>) -> Rank
    decreases a.len(),
{
    if a.len() == 0 && b.len() == 0 {
        Rank::Equal
    } else if a.len() == 0 {
        Rank::Less
    } else if b.len() == 0 {
        Rank::Greater
    } else if a[0] < b[0] {
        Rank::Less
    } else if b[0] < a[0] {
        Rank::Greater
    } else {
        cmp_seq(a.drop_first(), b.drop_first())
    }
}

/// `a` ranks no later than `b` lexicographically.
pub open spec fn seq_le(a: Seq<char>, b: Seq<char>) -> bool {
    cmp_seq(a, b) != Rank::Greater
}

/// `a` ranks strictly before `b` lexicographically.
pub open spec fn seq_lt(a: Seq<char>, b: Seq<char>) -> bool {
    cmp_seq(a, b) == Rank::Less
}

/// Comparing is the same on the whole sequences and on the suffixes past a
/// common prefix.
pub proof fn lemma_cmp_seq_skip(a: Seq<char>, b: Seq<char>, i: int)
    requires
        0 <= i <= a.len(),
        i <= b.len(),
        forall|j: int| 0 <= j < i ==> a[j] == b[j],
    ensures
        cmp_seq(a, b) == cmp_seq(a.skip(i), b.skip(i)),
    decreases i,
{
    if i > 0 {
        assert(a[0] == b[0]);
        assert(cmp_seq(a, b) == cmp_seq(a.drop_first(), b.drop_first()));
        lemma_cmp_seq_skip(a.drop_first(), b.drop_first(), i - 1);
        assert(a.drop_first().skip(i - 1) =~= a.skip(i));
        assert(b.drop_first().skip(i - 1) =~= b.skip(i));
    } else {
        assert(a.skip(0) =~= a);
        assert(b.skip(0) =~= b);
    }
}

/// The comparison returns `Equal` exactly on equal sequences.
pub proof fn lemma_cmp_eq_iff(a: Seq<char>, b: Seq<char>)
    ensures
        (cmp_seq(a, b) == Rank::Equal) <==> (a == b),
    decreases a.len(),
{
    if a.len() == 0 && b.len() == 0 {
        assert(a =~= b);
    } else if a.len() != 0 && b.len() != 0 {
        if !(a[0] < b[0]) && !(b[0] < a[0]) {
            lemma_cmp_eq_iff(a.drop_first(), b.drop_first());
            if cmp_seq(a, b) == Rank::Equal {
                let ta = a.drop_first();
                let tb = b.drop_first();
                assert(ta == tb);
                assert forall|i: int| 0 <= i < a.len() implies a[i] == b[i] by {
                    if i > 0 {
                        assert(a[i] == ta[i - 1]);
                        assert(b[i] == tb[i - 1]);
                    }
                }
                assert(a =~= b);
            }
            if a == b {
                assert(a.drop_first() =~= b.drop_first());
            }
        }
    }
}

/// Swapping the arguments swaps `Less` and `Greater`.
pub proof fn lemma_cmp_flip(a: Seq<char>, b: Seq<char>)
    ensures
        (cmp_seq(a, b) == Rank::Less) <==> (cmp_seq(b, a) == Rank::Greater),
    decreases a.len(),
{
    if a.len() != 0 && b.len() != 0 && !(a[0] < b[0]) && !(b[0] < a[0]) {
        lemma_cmp_flip(a.drop_first(), b.drop_first());
    }
}

/// Lexicographic order is transitive.
pub proof fn lemma_le_trans(a: Seq<char>, b: Seq<char>, c: Seq<char>)
    requires
        seq_le(a, b),
        seq_le(b, c),
    ensures
        seq_le(a, c),
    decreases a.len(),
{
    if a.len() == 0 {
    } else {
        assert(b.len() != 0);
        assert(c.len() != 0);
        if !(a[0] < b[0]) && !(b[0] < a[0]) && !(b[0] < c[0]) && !(c[0] < b[0]) {
            lemma_le_trans(a.drop_first(), b.drop_first(), c.drop_first());
        }
    }
}

/// Lexicographic order is total.
pub proof fn lemma_le_total(a: Seq<char>, b: Seq<char>)
    ensures
        seq_le(a, b) || seq_le(b, a),
{
    lemma_cmp_flip(a, b);
    lemma_cmp_flip(b, a);
    lemma_cmp_eq_iff(a, b);
    lemma_cmp_eq_iff(b, a);
}

/// Strict lexicographic order is transitive.
pub proof fn lemma_lt_trans(a: Seq<char>, b: Seq<char>, c: Seq<char>)
    requires
        seq_lt(a, b),
        seq_lt(b, c),
    ensures
        seq_lt(a, c),
{
    lemma_le_trans(a, b, c);
    lemma_cmp_eq_iff(a, c);
    if cmp_seq(a, c) == Rank::Equal {
        lemma_cmp_flip(b, c);
    }
}

/// Executable lexicographic three-way comparison of two strings.
pub fn str_compare(a: &str, b: &str) -> (r: Rank)
    ensures
        r == cmp_seq(a@, b@),
{
    let alen = a.unicode_len();
    let blen = b.unicode_len();
    let mut i: usize = 0;
    while i < alen && i < blen
        invariant
            i <= alen,
            i <= blen,
            alen == a@.len(),
            blen == b@.len(),
            forall|j: int| 0 <= j < i ==> a@[j] == b@[j],
        decreases alen - i,
    {
        let ca = a.get_char(i);
        let cb = b.get_char(i);
        if ca < cb {
            proof {
                lemma_cmp_seq_skip(a@, b@, i as int);
            }
            return Rank::Less;
        }
        if cb < ca {
            proof {
                lemma_cmp_seq_skip(a@, b@, i as int);
            }
            return Rank::Greater;
        }
        i = i + 1;
    }
    proof {
        lemma_cmp_seq_skip(a@, b@, i as int);
    }
    if alen == blen {
        Rank::Equal
    } else if alen < blen {
        Rank::Less
    } else {
        Rank::Greater
    }
}

/// Executable string equality, by character content.
pub fn str_eq(a: &str, b: &str) -> (r: bool)
    ensures
        r == (a@ == b@),
{
    let c = str_compare(a, b);
    proof {
        lemma_cmp_eq_iff(a@, b@);
    }
    c == Rank::Equal
}

/// Executable equality of two optional strings, by character content.
pub fn opt_str_eq(a: &Option<String>, b: &Option<String>) -> (r: bool)
    ensures
        r == match (a, b) {
            (Some(x), Some(y)) => x@ == y@,
            (None, None) => true,
            _ => false,
        },
{
    match (a, b) {
        (Some(x), Some(y)) => str_eq(x.as_str(), y.as_str()),
        (None, None) => true,
        _ => false,
    }
}

/// Concatenation of two strings.
pub fn concat2(a: &str, b: &str) -> (r: String)
    ensures
        r@ == a@ + b@,
{
    let mut s = a.to_owned();
    s.append(b);
    s
}

/// Concatenation of three strings.
pub fn concat3(a: &str, b: &str, c: &str) -> (r: String)
    ensures
        r@ == a@ + b@ + c@,
{
    let mut s = a.to_owned();
    s.append(b);
    s.append(c);
    s
}

} // verus!
