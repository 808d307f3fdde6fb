//! Verified text helpers: reading unsigned integers from numeric tokens,
//! splitting a servings declaration on its pipe delimiter, and joining name
//! pieces with single spaces.

use vstd::prelude::*;
use vstd::string::StrSliceExecFns;
use vstd::string::StringExecFns;

verus! {

/// A decimal digit.
pub open spec fn is_digit(c: char) -> bool {
    48 <= c as u32 <= 57
}

/// The value of one digit; zero elsewhere, so the function is total.
pub open spec fn digit_val(c: char) -> int {
    if is_digit(c) {
        c as u32 - 48
    } else {
        0
    }
}

/// The number a digit string denotes, read left to right.
pub open spec fn spec_digits_val(s: Seq<char>) -> int
    decreases s.len(),
{
    if s.len() == 0 {
        0
    } else {
        spec_digits_val(s.drop_last()) * 10 + digit_val(s.last())
    }
}

/// Whether every character is a decimal digit.
pub open spec fn all_digits(s: Seq<char>) -> bool {
    forall|i: int| 0 <= i < s.len() ==> is_digit(s[i])
}

/// What reading an unsigned integer token yields: a nonempty all-digit
/// string whose value fits in `u64`, and nothing else.
pub open spec fn spec_parse_u64(s: Seq<char>) -> Option<u64> {
    if s.len() >= 1 && all_digits(s) && spec_digits_val(s) <= u64::MAX {
        Some(spec_digits_val(s) as u64)
    } else {
        None
    }
}

/// A digit string's value never goes down as the string grows.
proof fn lemma_digits_val_monotone(s: Seq<char>, i: int, j: int)
    requires
        0 <= i <= j <= s.len(),
    ensures
        spec_digits_val(s.subrange(0, i)) <= spec_digits_val(s.subrange(0, j)),
        spec_digits_val(s.subrange(0, i)) >= 0,
    decreases j - i,
{
    if i == j {
        lemma_digits_val_nonneg(s.subrange(0, i));
    } else {
        lemma_digits_val_monotone(s, i, j - 1);
        assert(s.subrange(0, j).drop_last() =~= s.subrange(0, j - 1));
        assert(spec_digits_val(s.subrange(0, j)) == spec_digits_val(s.subrange(0, j - 1)) * 10
            + digit_val(s.subrange(0, j).last()));
        lemma_digits_val_nonneg(s.subrange(0, j - 1));
    }
}

/// Digit strings denote nonnegative numbers.
proof fn lemma_digits_val_nonneg(s: Seq<char>)
    ensures
        spec_digits_val(s) >= 0,
    decreases s.len(),
{
    if s.len() > 0 {
        lemma_digits_val_nonneg(s.drop_last());
    }
}

/// Read an unsigned integer token.
pub fn parse_u64(s: &str) -> (r: Option<u64>)
    ensures
        r == spec_parse_u64(s@),
{
    let n = s.unicode_len();
    if n == 0 {
        return None;
    }
    let mut val: u64 = 0;
    let mut i: usize = 0;
    while i < n
        invariant
            n as nat == s@.len(),
            0 <= i <= n,
            all_digits(s@.subrange(0, i as int)),
            val == spec_digits_val(s@.subrange(0, i as int)),
        decreases n - i,
    {
        let c = s.get_char(i);
        let cv = c as u32;
        if cv < 48 || cv > 57 {
            proof {
                assert(!is_digit(s@[i as int]));
                assert(!all_digits(s@));
            }
            return None;
        }
        let d = (cv - 48) as u64;
        let grown = match val.checked_mul(10) {
            Some(v) => v.checked_add(d),
            None => None,
        };
        match grown {
            Some(v) => {
                proof {
                    assert(s@.subrange(0, i + 1).drop_last() =~= s@.subrange(0, i as int));
                    assert(s@.subrange(0, i + 1).last() == s@[i as int]);
                }
                val = v;
            },
            None => {
                proof {
                    assert(s@.subrange(0, i + 1).drop_last() =~= s@.subrange(0, i as int));
                    assert(s@.subrange(0, i + 1).last() == s@[i as int]);
                    assert(spec_digits_val(s@.subrange(0, i + 1)) > u64::MAX);
                    lemma_digits_val_monotone(s@, i + 1, s@.len() as int);
                    assert(s@.subrange(0, s@.len() as int) =~= s@);
                }
                return None;
            },
        }
        i += 1;
    }
    proof {
        assert(s@.subrange(0, n as int) =~= s@);
    }
    Some(val)
}

/// What splitting on the pipe delimiter yields: the delimiter-free pieces
/// in order, empty pieces kept, one piece even for an empty string.
pub open spec fn spec_split_pipe(s: Seq<char>) -> Seq<Seq<char>>
    decreases s.len(),
{
    if s.len() == 0 {
        seq![Seq::<char>::empty()]
    } else {
        let r = spec_split_pipe(s.drop_last());
        if s.last() == '|' {
            r.push(Seq::<char>::empty())
        } else {
            r.update(r.len() - 1, r.last().push(s.last()))
        }
    }
}

/// Splitting yields at least one piece.
pub proof fn lemma_split_pipe_len(s: Seq<char>)
    ensures
        spec_split_pipe(s).len() >= 1,
    decreases s.len(),
{
    if s.len() > 0 {
        lemma_split_pipe_len(s.drop_last());
    }
}

/// Split a servings declaration on its pipe delimiter.
pub fn split_on_pipe(s: &str) -> (r: Vec<String>)
    ensures
        r@.map_values(|t: String| t@) == spec_split_pipe(s@),
{
    let n = s.unicode_len();
    let mut out: Vec<String> = Vec::new();
    let mut start: usize = 0;
    let mut i: usize = 0;
    proof {
        assert(s@.subrange(0, 0) =~= Seq::<char>::empty());
        assert(out@.map_values(|t: String| t@).push(s@.subrange(0, 0)) =~~= spec_split_pipe(
            s@.subrange(0, 0),
        ));
    }
    while i < n
        invariant
            n as nat == s@.len(),
            0 <= start <= i <= n,
            out@.map_values(|t: String| t@).push(s@.subrange(start as int, i as int))
                =~~= spec_split_pipe(s@.subrange(0, i as int)),
        decreases n - i,
    {
        let ghost pre = s@.subrange(0, i as int);
        proof {
            assert(s@.subrange(0, i + 1).drop_last() =~= pre);
            assert(s@.subrange(0, i + 1).last() == s@[i as int]);
            lemma_split_pipe_len(pre);
        }
        let c = s.get_char(i);
        if c == '|' {
            let piece = String::from_str(s.substring_char(start, i));
            out.push(piece);
            start = i + 1;
            proof {
                assert(out@.map_values(|t: String| t@).push(
                    s@.subrange(start as int, i + 1),
                ) =~~= spec_split_pipe(s@.subrange(0, i + 1)));
            }
        } else {
            proof {
                assert(s@.subrange(start as int, i + 1) =~= s@.subrange(
                    start as int,
                    i as int,
                ).push(s@[i as int]));
                assert(out@.map_values(|t: String| t@).push(
                    s@.subrange(start as int, i + 1),
                ) =~~= spec_split_pipe(s@.subrange(0, i + 1)));
            }
        }
        i += 1;
    }
    let piece = String::from_str(s.substring_char(start, n));
    out.push(piece);
    proof {
        assert(s@.subrange(0, n as int) =~= s@);
        assert(out@.map_values(|t: String| t@) =~~= spec_split_pipe(s@));
    }
    out
}

/// What joining name pieces with single spaces yields.
pub open spec fn spec_space_join(ps: Seq<Seq<char>>) -> Seq<char>
    decreases ps.len(),
{
    if ps.len() == 0 {
        Seq::<char>::empty()
    } else if ps.len() == 1 {
        ps[0]
    } else {
        spec_space_join(ps.drop_last()) + " "@ + ps.last()
    }
}

/// Join name pieces with single spaces.
pub fn space_join(ps: &Vec<String>) -> (r: String)
    ensures
        r@ == spec_space_join(ps@.map_values(|t: String| t@)),
{
    let ghost views = ps@.map_values(|t: String| t@);
    let mut out = String::new();
    let mut i: usize = 0;
    while i < ps.len()
        invariant
            views == ps@.map_values(|t: String| t@),
            0 <= i <= ps.len(),
            out@ == spec_space_join(views.subrange(0, i as int)),
        decreases ps.len() - i,
    {
        proof {
            assert(views.subrange(0, i + 1).drop_last() =~= views.subrange(0, i as int));
            assert(views.subrange(0, i + 1).last() == views[i as int]);
            if i == 0 {
                assert(views.subrange(0, 1).len() == 1);
            }
        }
        if i > 0 {
            out.append(" ");
        }
        out.append(ps[i].as_str());
        i += 1;
    }
    proof {
        assert(views.subrange(0, ps@.len() as int) =~= views);
    }
    out
}

} // verus!
