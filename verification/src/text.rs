//! Text helpers for the scanner: case folding, case-insensitive
//! lexicographic order, and extension extraction from an entry name.

use vstd::prelude::*;
use vstd::string::*;

verus! {

/// What `str::to_lowercase` returns for a given sequence of characters.
pub uninterp spec fn lower_of(s: Seq<char>) -> Seq<char>;

/// True for the ASCII uppercase letters 'A' through 'Z'.
pub open spec fn ascii_upper(c: char) -> bool {
    ('A' as u32) <= (c as u32) && (c as u32) <= ('Z' as u32)
}

/// True when no character of `s` is an ASCII uppercase letter.
pub open spec fn no_ascii_upper(s: Seq<char>) -> bool {
    forall|i: int| 0 <= i < s.len() ==> !ascii_upper(#[trigger] s[i])
}

/// Relies on `str::to_lowercase`: the result is a function of the
/// characters alone. Every ASCII uppercase letter has a lowercase mapping,
/// and no character's lowercase form is an ASCII uppercase letter, so the
/// result contains none.
#[verifier::external_body]
pub(crate) fn lowercase(s: &str) -> (r: String)
    ensures
        r@ == lower_of(s@),
        no_ascii_upper(r@),
{
    s.to_lowercase()
}

/// Lexicographic "less than or equal" on character sequences, comparing
/// characters by code point. On folded-case keys this is the order the
/// scanner sorts by.
pub open spec fn lex_le(a: Seq<char>, b: Seq<char>) -> bool
    decreases a.len(),
{
    if a.len() == 0 {
        true
    } else if b.len() == 0 {
        false
    } else if (a[0] as u32) < (b[0] as u32) {
        true
    } else if (a[0] as u32) > (b[0] as u32) {
        false
    } else {
        lex_le(a.drop_first(), b.drop_first())
    }
}

/// `lex_le` relates every pair of sequences one way or the other.
pub proof fn lemma_lex_le_total(a: Seq<char>, b: Seq<char>)
    ensures
        lex_le(a, b) || lex_le(b, a),
    decreases a.len(),
{
    if a.len() == 0 || b.len() == 0 {
    } else if (a[0] as u32) == (b[0] as u32) {
        lemma_lex_le_total(a.drop_first(), b.drop_first());
    }
}

/// `lex_le` is transitive.
pub proof fn lemma_lex_le_trans(a: Seq<char>, b: Seq<char>, c: Seq<char>)
    requires
        lex_le(a, b),
        lex_le(b, c),
    ensures
        lex_le(a, c),
    decreases a.len(),
{
    if a.len() == 0 || b.len() == 0 || c.len() == 0 {
    } else if (a[0] as u32) == (b[0] as u32) && (b[0] as u32) == (c[0] as u32) {
        lemma_lex_le_trans(a.drop_first(), b.drop_first(), c.drop_first());
    }
}

/// Compares two string slices in the order of `lex_le` on their characters.
pub fn lex_le_str(a: &str, b: &str) -> (r: bool)
    ensures
        r == lex_le(a@, b@),
{
    let alen = a.unicode_len();
    let blen = b.unicode_len();
    let mut i: usize = 0;
    proof {
        assert(a@.skip(0) =~= a@);
        assert(b@.skip(0) =~= b@);
    }
    loop
        invariant
            i <= alen,
            i <= blen,
            alen == a@.len(),
            blen == b@.len(),
            lex_le(a@, b@) == lex_le(a@.skip(i as int), b@.skip(i as int)),
        decreases alen - i,
    {
        if i == alen {
            return true;
        }
        if i == blen {
            return false;
        }
        let ca = a.get_char(i);
        let cb = b.get_char(i);
        if (ca as u32) < (cb as u32) {
            return true;
        }
        if (ca as u32) > (cb as u32) {
            return false;
        }
        proof {
            assert(a@.skip(i as int).drop_first() =~= a@.skip(i + 1));
            assert(b@.skip(i as int).drop_first() =~= b@.skip(i + 1));
        }
        i = i + 1;
    }
}

/// The position of the last '.' in `s`, if any.
pub open spec fn last_dot(s: Seq<char>) -> Option<int>
    decreases s.len(),
{
    if s.len() == 0 {
        None
    } else if s.last() == '.' {
        Some((s.len() - 1) as int)
    } else {
        last_dot(s.drop_last())
    }
}

/// A last-dot position is a valid index of a '.' character.
pub proof fn lemma_last_dot_bounds(s: Seq<char>)
    requires
        last_dot(s) is Some,
    ensures
        0 <= last_dot(s).unwrap() < s.len(),
        s[last_dot(s).unwrap()] == '.',
    decreases s.len(),
{
    if s.len() > 0 && s.last() != '.' {
        lemma_last_dot_bounds(s.drop_last());
    }
}

/// The raw (not yet folded) extension of an entry name: the characters
/// after the last '.', unless the name has no '.' or starts with its only
/// use of '.' (a leading dot marks a hidden name, not an extension).
pub open spec fn ext_of(s: Seq<char>) -> Option<Seq<char>> {
    match last_dot(s) {
        None => None,
        Some(j) => if j == 0 {
            None
        } else {
            Some(s.skip(j + 1))
        },
    }
}

/// The extension as the scanner reports it: folded to lowercase.
pub open spec fn spec_extension(s: Seq<char>) -> Option<Seq<char>> {
    match ext_of(s) {
        None => None,
        Some(raw) => Some(lower_of(raw)),
    }
}

/// Finds the position of the last '.' of `s`, scanning from the end.
fn find_last_dot(s: &str) -> (r: Option<usize>)
    ensures
        match r {
            Some(j) => last_dot(s@) == Some(j as int),
            None => last_dot(s@) is None,
        },
{
    let n = s.unicode_len();
    let mut i: usize = n;
    proof {
        assert(s@.take(n as int) =~= s@);
    }
    loop
        invariant
            i <= n,
            n == s@.len(),
            last_dot(s@) == last_dot(s@.take(i as int)),
        decreases i,
    {
        if i == 0 {
            return None;
        }
        let c = s.get_char(i - 1);
        proof {
            assert(s@.take(i as int).last() == s@[i - 1]);
            assert(s@.take(i as int).drop_last() =~= s@.take(i - 1));
        }
        if c == '.' {
            return Some(i - 1);
        }
        i = i - 1;
    }
}

/// The lowercased extension of an entry name, if it has one.
pub fn extension_of(name: &str) -> (r: Option<String>)
    ensures
        match r {
            Some(x) => spec_extension(name@) == Some(x@) && no_ascii_upper(x@),
            None => spec_extension(name@) is None,
        },
{
    match find_last_dot(name) {
        None => None,
        Some(j) => {
            if j == 0 {
                None
            } else {
                proof {
                    lemma_last_dot_bounds(name@);
                }
                let n = name.unicode_len();
                let raw = name.substring_char(j + 1, n);
                proof {
                    assert(raw@ =~= name@.skip(j + 1));
                }
                Some(lowercase(raw))
            }
        },
    }
}

} // verus!
