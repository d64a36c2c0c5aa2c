//! Verified string building: contracts for the two `String` growth
//! operations of std that vstd leaves unspecified, and a character filter
//! used by the image-path helpers.

use vstd::prelude::*;

verus! {

/// Relies on std's String::push_str: appends the string slice onto the end
/// of this string.
pub assume_specification[ String::push_str ](s: &mut String, other: &str)
    ensures
        final(s)@ == old(s)@ + other@,
;

/// Relies on std's String::push: appends the given char to the end of this
/// string.
pub assume_specification[ String::push ](s: &mut String, c: char)
    ensures
        final(s)@ == old(s)@.push(c),
;

/// The characters of `s`, in order, with every occurrence of a character of
/// `drop` removed.
pub open spec fn without_chars(s: Seq<char>, drop: Seq<char>) -> Seq<char>
    decreases s.len(),
{
    if s.len() == 0 {
        Seq::empty()
    } else {
        let rest = without_chars(s.drop_last(), drop);
        if drop.contains(s.last()) {
            rest
        } else {
            rest.push(s.last())
        }
    }
}

/// Copies `s`, leaving out every character that occurs in `drop`.
pub fn remove_chars(s: &str, drop: &Vec<char>) -> (r: String)
    ensures
        r@ == without_chars(s@, drop@),
{
    let n = s.unicode_len();
    let mut r = String::new();
    let mut i: usize = 0;
    while i < n
        invariant
            n == s@.len(),
            i <= n,
            r@ == without_chars(s@.take(i as int), drop@),
        decreases n - i,
    {
        let c = s.get_char(i);
        let mut keep = true;
        let mut j: usize = 0;
        while j < drop.len()
            invariant
                j <= drop.len(),
                keep == !drop@.take(j as int).contains(c),
            decreases drop.len() - j,
        {
            if drop[j] == c {
                keep = false;
            }
            proof {
                let t0 = drop@.take(j as int);
                let t1 = drop@.take(j as int + 1);
                assert(t1 =~= t0.push(drop@[j as int]));
                if t0.contains(c) {
                    let k = choose|k: int| 0 <= k < t0.len() && t0[k] == c;
                    assert(t1[k] == c);
                }
                if drop@[j as int] == c {
                    assert(t1[t1.len() - 1] == c);
                }
                if t1.contains(c) {
                    let k = choose|k: int| 0 <= k < t1.len() && t1[k] == c;
                    if k < t0.len() {
                        assert(t0[k] == c);
                    }
                }
            }
            j = j + 1;
        }
        proof {
            assert(drop@.take(drop@.len() as int) =~= drop@);
            assert(s@.take(i as int + 1).drop_last() =~= s@.take(i as int));
            assert(s@.take(i as int + 1).last() == s@[i as int]);
        }
        if keep {
            r.push(c);
        }
        i = i + 1;
    }
    proof {
        assert(s@.take(s@.len() as int) =~= s@);
    }
    r
}

} // verus!
