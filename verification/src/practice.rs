//! Small warm-up exercises: string ownership, substring search, filtering.

use vstd::prelude::*;
use vstd::utf8::encode_utf8;

verus! {

/// True when the four characters starting at `i` spell out "rust".
pub open spec fn rust_at(s: Seq<char>, i: int) -> bool {
    &&& s[i] == 'r'
    &&& s[i + 1] == 'u'
    &&& s[i + 2] == 's'
    &&& s[i + 3] == 't'
}

/// True when `s` contains "rust" as a contiguous substring.
pub open spec fn spec_contains_rust(s: Seq<char>) -> bool {
    exists|i: int| 0 <= i && i + 4 <= s.len() && rust_at(s, i)
}

/// Takes ownership of a `String` and returns its length: the number of
/// bytes of the string, which is the length of its characters' UTF-8
/// encoding.
pub fn string_length_owner(s: String) -> (n: usize)
    ensures
        n == encode_utf8(s@).len() as usize,
        encode_utf8(s@).len() <= usize::MAX ==> n == encode_utf8(s@).len(),
{
    s.as_str().len()
}

/// Returns whether the borrowed string slice contains "rust".
pub fn contains_rust(s: &str) -> (found: bool)
    ensures
        found == spec_contains_rust(s@),
{
    let n = s.unicode_len();
    if n < 4 {
        return false;
    }
    let mut i: usize = 0;
    while i <= n - 4
        invariant
            n == s@.len(),
            4 <= n,
            i <= n - 3,
            forall|j: int| 0 <= j < i ==> !rust_at(s@, j),
        decreases n - i,
    {
        if s.get_char(i) == 'r' && s.get_char(i + 1) == 'u' && s.get_char(i + 2) == 's'
            && s.get_char(i + 3) == 't' {
            proof {
                assert(rust_at(s@, i as int));
            }
            return true;
        }
        i = i + 1;
    }
    proof {
        assert(forall|j: int| 0 <= j && j + 4 <= s@.len() ==> !rust_at(s@, j));
    }
    false
}

/// Keeps the even numbers of the input, in order.
pub fn filter_even_numbers(numbers: Vec<i32>) -> (evens: Vec<i32>)
    ensures
        evens@ == numbers@.filter(|x: i32| x % 2 == 0),
{
    let mut evens: Vec<i32> = Vec::new();
    let mut i: usize = 0;
    while i < numbers.len()
        invariant
            i <= numbers.len(),
            evens@ == numbers@.take(i as int).filter(|x: i32| x % 2 == 0),
        decreases numbers.len() - i,
    {
        proof {
            reveal(Seq::filter);
            assert(numbers@.take(i + 1).drop_last() =~= numbers@.take(i as int));
            assert(numbers@.take(i + 1).last() == numbers@[i as int]);
        }
        if numbers[i] % 2 == 0 {
            evens.push(numbers[i]);
        }
        i = i + 1;
    }
    proof {
        assert(numbers@.take(numbers@.len() as int) =~= numbers@);
    }
    evens
}

} // verus!
