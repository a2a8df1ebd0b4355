use vstd::prelude::*;

verus! {

use vstd::string::StrSliceExecFns;

/// Whether `pat` stands contiguously in `s` at position `i`.
pub open spec fn matches_at(s: Seq<char>, pat: Seq<char>, i: int) -> bool {
    0 <= i && i + pat.len() <= s.len() && s.subrange(i, i + pat.len()) == pat
}

/// Whether `pat` stands contiguously anywhere in `s`.
pub open spec fn contains_pat(s: Seq<char>, pat: Seq<char>) -> bool {
    exists|i: int| matches_at(s, pat, i)
}

/// A kernel log line that indicates a fault: one that mentions a
/// segmentation fault or the out-of-memory killer.
pub open spec fn is_crash_line(s: Seq<char>) -> bool {
    contains_pat(s, "segfault"@) || contains_pat(s, "oom"@)
}

fn match_at(s: &str, pat: &str, i: usize, n: usize, m: usize) -> (r: bool)
    requires
        n == s@.len(),
        m == pat@.len(),
        i + m <= n,
    ensures
        r == matches_at(s@, pat@, i as int),
{
    let mut j: usize = 0;
    while j < m
        invariant
            j <= m,
            n == s@.len(),
            m == pat@.len(),
            i + m <= n,
            forall|k: int| 0 <= k < j ==> s@[i + k] == pat@[k],
        decreases m - j,
    {
        if s.get_char(i + j) != pat.get_char(j) {
            proof {
                assert(s@.subrange(i as int, i + m) != pat@) by {
                    assert(s@.subrange(i as int, i + m)[j as int] == s@[i + j]);
                }
            }
            return false;
        }
        j += 1;
    }
    proof {
        assert(s@.subrange(i as int, i + m) =~= pat@);
    }
    true
}

fn contains_str(s: &str, pat: &str) -> (r: bool)
    ensures
        r == contains_pat(s@, pat@),
{
    let n = s.unicode_len();
    let m = pat.unicode_len();
    if m == 0 {
        proof {
            assert(matches_at(s@, pat@, 0)) by {
                assert(s@.subrange(0, 0) =~= pat@);
            }
        }
        return true;
    }
    if m > n {
        proof {
            assert(forall|i: int| !matches_at(s@, pat@, i));
        }
        return false;
    }
    let mut i: usize = 0;
    while i <= n - m
        invariant
            m <= n,
            n == s@.len(),
            m == pat@.len(),
            i <= n - m + 1,
            m >= 1,
            forall|k: int| 0 <= k < i ==> !matches_at(s@, pat@, k),
        decreases n - m + 1 - i,
    {
        if match_at(s, pat, i, n, m) {
            return true;
        }
        i += 1;
    }
    proof {
        assert(forall|k: int| k > n - m ==> !matches_at(s@, pat@, k));
    }
    false
}

/// Whether one log line indicates a fault, exactly as `is_crash_line` reads
/// it.
pub fn line_is_crash(s: &str) -> (r: bool)
    ensures
        r == is_crash_line(s@),
{
    contains_str(s, "segfault") || contains_str(s, "oom")
}

/// The fault-indicating lines of the kernel log, in their original order,
/// nothing else and nothing twice: the filter of the input by
/// `is_crash_line`. Lines are re-reported every cycle for as long as the
/// log source retains them; this feed does not deduplicate across cycles.
pub fn filter_crash_lines(lines: &Vec<String>) -> (r: Vec<String>)
    ensures
        r@.map_values(|l: String| l@) == lines@.map_values(|l: String| l@).filter(
            |s: Seq<char>| is_crash_line(s),
        ),
{
    let mut out: Vec<String> = Vec::new();
    let mut i: usize = 0;
    while i < lines.len()
        invariant
            i <= lines@.len(),
            out@.map_values(|l: String| l@) == lines@.take(i as int).map_values(|l: String| l@)
                .filter(|s: Seq<char>| is_crash_line(s)),
        decreases lines@.len() - i,
    {
        let ghost prev = lines@.take(i as int).map_values(|l: String| l@);
        let ghost cur = lines@.take(i + 1).map_values(|l: String| l@);
        let ghost out_old = out@;
        let is_hit = line_is_crash(lines[i].as_str());
        if is_hit {
            out.push(lines[i].clone());
        }
        proof {
            assert(cur =~= prev.push(lines@[i as int]@));
            assert(cur.drop_last() =~= prev);
            reveal(Seq::filter);
            if is_hit {
                assert(cur.filter(|s: Seq<char>| is_crash_line(s)) =~= prev.filter(
                    |s: Seq<char>| is_crash_line(s),
                ).push(lines@[i as int]@));
                assert(out@.map_values(|l: String| l@) =~= out_old.map_values(
                    |l: String| l@,
                ).push(lines@[i as int]@));
            } else {
                assert(cur.filter(|s: Seq<char>| is_crash_line(s)) =~= prev.filter(
                    |s: Seq<char>| is_crash_line(s),
                ));
            }
        }
        i += 1;
    }
    proof {
        assert(lines@.take(lines@.len() as int) =~= lines@);
    }
    out
}

} // verus!
