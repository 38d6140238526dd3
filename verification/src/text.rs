//! Text primitives the controller is specified over: lexicographic order
//! on character sequences, contiguous-substring containment, and decimal
//! digit values, together with executable counterparts proved against them.

use vstd::prelude::*;
use vstd::string::StrSliceExecFns;

verus! {

/// Lexicographic order on character sequences by code point, the order in
/// which match names are listed.
pub open spec fn lex_le(a: Seq<char>, b: Seq<char>) -> bool
    decreases a.len(),
{
    if a.len() == 0 {
        true
    } else if b.len() == 0 {
        false
    } else if a[0] as u32 == b[0] as u32 {
        lex_le(a.drop_first(), b.drop_first())
    } else {
        (a[0] as u32) < (b[0] as u32)
    }
}

/// Two characters with the same code point are the same character.
pub proof fn lemma_char_eq(c: char, d: char)
    requires
        c as u32 == d as u32,
    ensures
        c == d,
{
    vstd::utf8::char_u32_cast(c, c as u32);
    vstd::utf8::char_u32_cast(d, d as u32);
}

pub proof fn lemma_lex_le_refl(a: Seq<char>)
    ensures
        lex_le(a, a),
    decreases a.len(),
{
    if a.len() > 0 {
        lemma_lex_le_refl(a.drop_first());
    }
}

pub proof fn lemma_lex_le_total(a: Seq<char>, b: Seq<char>)
    ensures
        lex_le(a, b) || lex_le(b, a),
    decreases a.len(),
{
    if a.len() > 0 && b.len() > 0 && a[0] as u32 == b[0] as u32 {
        lemma_lex_le_total(a.drop_first(), b.drop_first());
    }
}

pub proof fn lemma_lex_le_antisym(a: Seq<char>, b: Seq<char>)
    requires
        lex_le(a, b),
        lex_le(b, a),
    ensures
        a == b,
    decreases a.len(),
{
    if a.len() == 0 {
        assert(b.len() == 0);
        assert(a =~= b);
    } else {
        assert(b.len() > 0);
        assert(a[0] as u32 == b[0] as u32);
        lemma_char_eq(a[0], b[0]);
        lemma_lex_le_antisym(a.drop_first(), b.drop_first());
        assert(a =~= seq![a[0]] + a.drop_first());
        assert(b =~= seq![b[0]] + b.drop_first());
    }
}

pub proof fn lemma_lex_le_trans(a: Seq<char>, b: Seq<char>, c: Seq<char>)
    requires
        lex_le(a, b),
        lex_le(b, c),
    ensures
        lex_le(a, c),
    decreases a.len(),
{
    if a.len() > 0 && b.len() > 0 && c.len() > 0 {
        if a[0] as u32 == b[0] as u32 && b[0] as u32 == c[0] as u32 {
            lemma_lex_le_trans(a.drop_first(), b.drop_first(), c.drop_first());
        }
    }
}

/// `q` occurs in `s` as a contiguous substring starting at `i`.
pub open spec fn contains_at(s: Seq<char>, q: Seq<char>, i: int) -> bool {
    0 <= i && i + q.len() <= s.len() && s.subrange(i, i + q.len() as int) == q
}

/// `q` occurs somewhere in `s` as a contiguous substring. The empty
/// sequence is contained in everything.
pub open spec fn contains_seq(s: Seq<char>, q: Seq<char>) -> bool {
    exists|i: int| contains_at(s, q, i)
}

pub open spec fn is_digit(c: char) -> bool {
    48 <= c as u32 <= 57
}

pub open spec fn digit_val(c: char) -> int {
    c as u32 - 48
}

pub open spec fn all_digits(s: Seq<char>) -> bool {
    forall|i: int| 0 <= i < s.len() ==> is_digit(#[trigger] s[i])
}

/// The value of a digit string read as a decimal number.
pub open spec fn dec_val(s: Seq<char>) -> int
    decreases s.len(),
{
    if s.len() == 0 {
        0
    } else {
        dec_val(s.drop_last()) * 10 + digit_val(s.last())
    }
}

pub proof fn lemma_dec_val_nonneg(s: Seq<char>)
    requires
        all_digits(s),
    ensures
        dec_val(s) >= 0,
    decreases s.len(),
{
    if s.len() > 0 {
        lemma_dec_val_nonneg(s.drop_last());
    }
}

/// Dropping an equal first character from both sequences does not change
/// how they compare; iterated, dropping an equal prefix does not either.
pub proof fn lemma_lex_le_skip(a: Seq<char>, b: Seq<char>, i: int)
    requires
        0 <= i <= a.len(),
        i <= b.len(),
        forall|j: int| 0 <= j < i ==> a[j] == b[j],
    ensures
        lex_le(a, b) == lex_le(a.skip(i), b.skip(i)),
    decreases i,
{
    if i == 0 {
        assert(a.skip(0) =~= a);
        assert(b.skip(0) =~= b);
    } else {
        assert(a[0] == b[0]);
        lemma_lex_le_skip(a.drop_first(), b.drop_first(), i - 1);
        assert(a.drop_first().skip(i - 1) =~= a.skip(i));
        assert(b.drop_first().skip(i - 1) =~= b.skip(i));
    }
}

/// Executable lexicographic comparison of two strings.
pub fn str_le(a: &str, b: &str) -> (r: bool)
    ensures
        r == lex_le(a@, b@),
{
    let alen: usize = a.unicode_len();
    let blen: usize = b.unicode_len();
    let mut i: usize = 0;
    while i < alen && i < blen
        invariant
            alen == a@.len(),
            blen == b@.len(),
            i <= alen,
            i <= blen,
            forall|j: int| 0 <= j < i ==> a@[j] == b@[j],
        decreases alen - i,
    {
        let ca = a.get_char(i);
        let cb = b.get_char(i);
        if ca as u32 != cb as u32 {
            proof {
                lemma_lex_le_skip(a@, b@, i as int);
                assert(a@.skip(i as int)[0] == a@[i as int]);
                assert(b@.skip(i as int)[0] == b@[i as int]);
            }
            return (ca as u32) < (cb as u32);
        }
        proof {
            lemma_char_eq(ca, cb);
        }
        i = i + 1;
    }
    proof {
        lemma_lex_le_skip(a@, b@, i as int);
        if i < blen {
            assert(b@.skip(i as int)[0] == b@[i as int]);
        }
    }
    alen <= blen
}

/// Executable string equality, character for character.
pub fn str_eq(a: &str, b: &str) -> (r: bool)
    ensures
        r == (a@ == b@),
{
    let alen: usize = a.unicode_len();
    let blen: usize = b.unicode_len();
    if alen != blen {
        return false;
    }
    let mut i: usize = 0;
    while i < alen
        invariant
            alen == a@.len(),
            alen == b@.len(),
            i <= alen,
            forall|j: int| 0 <= j < i ==> a@[j] == b@[j],
        decreases alen - i,
    {
        let ca = a.get_char(i);
        let cb = b.get_char(i);
        if ca as u32 != cb as u32 {
            return false;
        }
        proof {
            lemma_char_eq(ca, cb);
        }
        i = i + 1;
    }
    proof {
        assert(a@ =~= b@);
    }
    true
}

/// Executable check that `q` occurs in `s` starting at position `i`.
fn match_at(s: &str, q: &str, i: usize) -> (r: bool)
    requires
        i + q@.len() <= s@.len(),
        s@.len() <= usize::MAX,
    ensures
        r == contains_at(s@, q@, i as int),
{
    let m: usize = q.unicode_len();
    let mut j: usize = 0;
    while j < m
        invariant
            m == q@.len(),
            i + m <= s@.len(),
            s@.len() <= usize::MAX,
            j <= m,
            forall|t: int| 0 <= t < j ==> s@[i + t] == q@[t],
        decreases m - j,
    {
        let cs = s.get_char(i + j);
        let cq = q.get_char(j);
        if cs as u32 != cq as u32 {
            proof {
                assert(s@.subrange(i as int, i + m) != q@) by {
                    if s@.subrange(i as int, i + m) == q@ {
                        assert(s@.subrange(i as int, i + m)[j as int] == s@[i + j]);
                    }
                }
            }
            return false;
        }
        proof {
            lemma_char_eq(cs, cq);
        }
        j = j + 1;
    }
    proof {
        assert(s@.subrange(i as int, i + m) =~= q@) by {
            assert(forall|t: int|
                0 <= t < m ==> #[trigger] s@.subrange(i as int, i + m)[t] == s@[i + t]);
        }
    }
    true
}

/// Executable contiguous-substring containment, the matching rule of the
/// launcher: case-sensitive, code point for code point.
pub fn str_contains(s: &str, q: &str) -> (r: bool)
    ensures
        r == contains_seq(s@, q@),
{
    let n: usize = s.unicode_len();
    let m: usize = q.unicode_len();
    if m > n {
        proof {
            assert(forall|i: int| !contains_at(s@, q@, i));
        }
        return false;
    }
    if m == 0 {
        proof {
            assert(s@.subrange(0, 0) =~= q@);
            assert(contains_at(s@, q@, 0));
        }
        return true;
    }
    let mut i: usize = 0;
    while i <= n - m
        invariant
            n == s@.len(),
            m == q@.len(),
            0 < m <= n,
            i <= n - m + 1,
            forall|k: int| 0 <= k < i ==> !contains_at(s@, q@, k),
        decreases n - i,
    {
        if match_at(s, q, i) {
            return true;
        }
        i = i + 1;
    }
    proof {
        assert(forall|k: int| !contains_at(s@, q@, k));
    }
    false
}

/// Relies on `String::push`: appends the character to the end of the string.
#[verifier::external_body]
pub fn push_char(s: &mut String, c: char)
    ensures
        final(s)@ == old(s)@.push(c),
{
    s.push(c);
}

/// Relies on `String::pop`: removes and returns the last character, or
/// returns `None` and leaves the string alone when it is empty.
#[verifier::external_body]
pub fn pop_char(s: &mut String) -> (r: Option<char>)
    ensures
        old(s)@.len() == 0 ==> final(s)@ == old(s)@ && r is None,
        old(s)@.len() > 0 ==> final(s)@ == old(s)@.drop_last() && r == Some(old(s)@.last()),
{
    s.pop()
}

} // verus!
