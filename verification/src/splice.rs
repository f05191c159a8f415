use vstd::prelude::*;
use crate::error::Error;
use crate::text::{is_match_at, match_at};

verus! {

// Skeleton files carry well-known placeholder tokens; each is replaced by
// generated content in a one-shot substitution. A token that occurs zero
// times or more than once is a skeleton-integrity defect and is treated
// as fatal, never silently ignored.

/// How many positions `j < i` hold a match of `t` in `s`.
pub open spec fn matches_before(s: Seq<char>, t: Seq<char>, i: int) -> nat
    decreases i,
{
    if i <= 0 {
        0
    } else {
        matches_before(s, t, i - 1) + (if is_match_at(s, t, i - 1) {
            1nat
        } else {
            0nat
        })
    }
}

/// How many times the token `t` occurs in `s`.
pub open spec fn occurrence_count(s: Seq<char>, t: Seq<char>) -> nat {
    if s.len() >= t.len() {
        matches_before(s, t, s.len() - t.len() + 1)
    } else {
        0
    }
}

/// `s` with its unique occurrence of the token `t` replaced by `c`, or
/// nothing when `t` does not occur exactly once in `s`.
pub open spec fn splice_spec(s: Seq<char>, t: Seq<char>, c: Seq<char>) -> Option<Seq<char>> {
    if occurrence_count(s, t) == 1 {
        let i = choose|i: int| is_match_at(s, t, i) && matches_before(s, t, i) == 0;
        Some(s.subrange(0, i) + c + s.subrange(i + t.len() as int, s.len() as int))
    } else {
        None
    }
}

/// A match strictly before `i` makes `matches_before(s, t, i)` positive.
proof fn lemma_match_counted(s: Seq<char>, t: Seq<char>, j: int, i: int)
    requires
        is_match_at(s, t, j),
        j < i,
    ensures
        matches_before(s, t, i) >= 1,
    decreases i,
{
    if j < i - 1 {
        lemma_match_counted(s, t, j, i - 1);
    }
}

/// Replaces the unique occurrence of the placeholder `token` in
/// `skeleton` by `content`. When the token occurs zero times or more
/// than once, fails with the I/O failure kind instead: such a skeleton
/// is corrupt and the defect must not be ignored.
pub fn splice_once(skeleton: &str, token: &str, content: &str) -> (r: Result<String, Error>)
    requires
        token@.len() >= 1,
    ensures
        r matches Ok(out) ==> splice_spec(skeleton@, token@, content@) == Some(out@),
        r is Err ==> splice_spec(skeleton@, token@, content@) is None && r == Err::<String, Error>(
            Error::IoError,
        ),
        (r is Ok) == (occurrence_count(skeleton@, token@) == 1),
{
    let n = skeleton.unicode_len();
    let t_len = token.unicode_len();
    if t_len > n {
        return Err(Error::IoError);
    }
    let limit = n - t_len + 1;
    let mut count: usize = 0;
    let mut first: usize = 0;
    let mut found = false;
    let mut i: usize = 0;
    while i < limit
        invariant
            i <= limit,
            n == skeleton@.len(),
            t_len == token@.len(),
            t_len >= 1,
            t_len <= n,
            limit == n - t_len + 1,
            count == matches_before(skeleton@, token@, i as int),
            count <= i,
            !found ==> count == 0,
            found ==> is_match_at(skeleton@, token@, first as int) && matches_before(
                skeleton@,
                token@,
                first as int,
            ) == 0 && first < i,
        decreases limit - i,
    {
        if match_at(skeleton, token, i, t_len) {
            if !found {
                found = true;
                first = i;
            }
            count += 1;
        }
        i += 1;
    }
    if count != 1 {
        return Err(Error::IoError);
    }
    let mut out = skeleton.substring_char(0, first).to_owned();
    out.append(content);
    out.append(skeleton.substring_char(first + t_len, n));
    proof {
        let i0 = choose|j: int| is_match_at(skeleton@, token@, j) && matches_before(
            skeleton@,
            token@,
            j,
        ) == 0;
        if i0 != first as int {
            if i0 < first as int {
                lemma_match_counted(skeleton@, token@, i0, first as int);
            } else {
                lemma_match_counted(skeleton@, token@, first as int, i0);
            }
        }
        assert(out@ =~= skeleton@.subrange(0, first as int) + content@ + skeleton@.subrange(
            first + t_len,
            skeleton@.len() as int,
        ));
    }
    Ok(out)
}

} // verus!
