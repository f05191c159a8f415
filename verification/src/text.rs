use vstd::prelude::*;

verus! {

// Plain-text matching and substitution, shared by the filename logic and
// by the skeleton splicing.

/// Whether the token `t` occurs in `s` starting at position `i`.
pub open spec fn is_match_at(s: Seq<char>, t: Seq<char>, i: int) -> bool {
    0 <= i && i + t.len() <= s.len() && s.subrange(i, i + t.len() as int) == t
}

/// `s` with every non-overlapping, leftmost-first occurrence of `from`
/// replaced by `to`; `s` itself when `from` is empty.
pub open spec fn spec_replace(s: Seq<char>, from: Seq<char>, to: Seq<char>) -> Seq<char>
    decreases s.len(),
{
    if from.len() == 0 || s.len() < from.len() {
        s
    } else if s.subrange(0, from.len() as int) == from {
        to + spec_replace(s.skip(from.len() as int), from, to)
    } else {
        seq![s[0]] + spec_replace(s.skip(1), from, to)
    }
}

/// Compares the token `t` against `s` at position `i`.
pub fn match_at(s: &str, t: &str, i: usize, t_len: usize) -> (r: bool)
    requires
        t_len == t@.len(),
        i + t_len <= s@.len(),
        s@.len() <= usize::MAX,
    ensures
        r == is_match_at(s@, t@, i as int),
{
    let mut j: usize = 0;
    while j < t_len
        invariant
            j <= t_len,
            t_len == t@.len(),
            i + t_len <= s@.len(),
            s@.len() <= usize::MAX,
            forall|k: int| 0 <= k < j ==> s@[i + k] == t@[k],
        decreases t_len - j,
    {
        if s.get_char(i + j) != t.get_char(j) {
            proof {
                assert(s@.subrange(i as int, i + t@.len()) != t@) by {
                    assert(s@.subrange(i as int, i + t@.len())[j as int] == s@[i + j]);
                }
            }
            return false;
        }
        j += 1;
    }
    proof {
        assert(s@.subrange(i as int, i + t@.len()) =~= t@);
    }
    true
}

/// Replaces every non-overlapping, leftmost-first occurrence of `from` in
/// `s` by `to`, as `spec_replace` states.
pub fn replace(s: &str, from: &str, to: &str) -> (r: String)
    requires
        from@.len() >= 1,
    ensures
        r@ == spec_replace(s@, from@, to@),
{
    let n = s.unicode_len();
    let from_len = from.unicode_len();
    let mut out = String::new();
    let mut i: usize = 0;
    proof {
        assert(s@.skip(0) =~= s@);
        assert(out@ + spec_replace(s@, from@, to@) =~= spec_replace(s@, from@, to@));
    }
    while i < n
        invariant
            i <= n,
            n == s@.len(),
            from_len == from@.len(),
            from_len >= 1,
            spec_replace(s@, from@, to@) == out@ + spec_replace(
                s@.skip(i as int),
                from@,
                to@,
            ),
        decreases n - i,
    {
        let ghost rest = s@.skip(i as int);
        if from_len <= n - i && match_at(s, from, i, from_len) {
            proof {
                assert(rest.subrange(0, from@.len() as int) =~= s@.subrange(
                    i as int,
                    i + from@.len(),
                ));
                assert(rest.skip(from@.len() as int) =~= s@.skip(i + from@.len()));
                assert(out@ + (to@ + spec_replace(s@.skip(i + from@.len()), from@, to@)) =~= (out@
                    + to@) + spec_replace(s@.skip(i + from@.len()), from@, to@));
            }
            out.append(to);
            i += from_len;
        } else {
            proof {
                if rest.len() >= from@.len() {
                    assert(rest.subrange(0, from@.len() as int) =~= s@.subrange(
                        i as int,
                        i + from@.len(),
                    ));
                } else {
                    assert(rest =~= seq![s@[i as int]] + rest.skip(1));
                }
                assert(rest.skip(1) =~= s@.skip(i + 1));
                assert(seq![s@[i as int]] =~= s@.subrange(i as int, i + 1));
                assert(out@ + (s@.subrange(i as int, i + 1) + spec_replace(
                    s@.skip(i + 1),
                    from@,
                    to@,
                )) =~= (out@ + s@.subrange(i as int, i + 1)) + spec_replace(
                    s@.skip(i + 1),
                    from@,
                    to@,
                ));
            }
            out.append(s.substring_char(i, i + 1));
            i += 1;
        }
    }
    proof {
        assert(s@.skip(n as int) =~= Seq::<char>::empty());
        assert(out@ + Seq::<char>::empty() =~= out@);
    }
    out
}

} // verus!
