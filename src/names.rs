//! Identifier comparison. Files of version 6 and below compare identifiers
//! without regard to ASCII case; later versions compare them exactly.

use vstd::prelude::*;

verus! {

/// The last version whose identifiers ignore ASCII case.
pub const LAST_CASE_INSENSITIVE_VERSION: u8 = 6;

/// The code of `c` with ASCII upper-case letters taken to lower case.
pub open spec fn fold_code(c: char) -> u32 {
    if 65 <= (c as u32) && (c as u32) <= 90 {
        ((c as u32) + 32) as u32
    } else {
        c as u32
    }
}

/// `s` with ASCII case folded away, as character codes.
pub open spec fn ascii_fold(s: Seq<char>) -> Seq<u32> {
    s.map_values(|c: char| fold_code(c))
}

/// Whether identifiers `a` and `b` name the same thing in a file of `version`.
pub open spec fn names_match(version: u8, a: Seq<char>, b: Seq<char>) -> bool {
    if version <= LAST_CASE_INSENSITIVE_VERSION {
        ascii_fold(a) == ascii_fold(b)
    } else {
        a == b
    }
}

fn fold_char(c: char) -> (r: u32)
    ensures
        r == fold_code(c),
{
    let n = c as u32;
    if 65 <= n && n <= 90 {
        n + 32
    } else {
        n
    }
}

/// Whether identifiers `a` and `b` name the same thing in a file of `version`.
pub fn name_matches(version: u8, a: &str, b: &str) -> (r: bool)
    ensures
        r == names_match(version, a@, b@),
{
    let n = a.unicode_len();
    let m = b.unicode_len();
    if n != m {
        proof {
            if version <= LAST_CASE_INSENSITIVE_VERSION {
                assert(ascii_fold(a@).len() != ascii_fold(b@).len());
            }
        }
        return false;
    }
    let fold = version <= LAST_CASE_INSENSITIVE_VERSION;
    let mut i: usize = 0;
    while i < n
        invariant
            n == a@.len(),
            m == b@.len(),
            n == m,
            i <= n,
            fold == (version <= LAST_CASE_INSENSITIVE_VERSION),
            forall|j: int| 0 <= j < i ==> (if fold {
                fold_code(#[trigger] a@[j]) == fold_code(b@[j])
            } else {
                a@[j] == b@[j]
            }),
        decreases n - i,
    {
        let x = a.get_char(i);
        let y = b.get_char(i);
        let same = if fold {
            fold_char(x) == fold_char(y)
        } else {
            x == y
        };
        if !same {
            proof {
                if fold {
                    assert(ascii_fold(a@)[i as int] != ascii_fold(b@)[i as int]);
                } else {
                    assert(a@[i as int] != b@[i as int]);
                }
            }
            return false;
        }
        i = i + 1;
    }
    proof {
        if fold {
            assert(ascii_fold(a@) =~= ascii_fold(b@));
        } else {
            assert(a@ =~= b@);
        }
    }
    true
}

} // verus!
