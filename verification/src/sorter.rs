use vstd::prelude::*;

use crate::types::ProcessRecord;
use crate::view::SortCriteria;

verus! {

/// The comparator table: whether `a` may stand at or before `b` under the
/// active criterion. CPU and memory order by descending percentage,
/// priority by descending value, PID by ascending id.
pub open spec fn spec_le(c: SortCriteria, a: ProcessRecord, b: ProcessRecord) -> bool {
    match c {
        SortCriteria::CPU => a.cpu_tenths >= b.cpu_tenths,
        SortCriteria::Memory => a.mem_tenths >= b.mem_tenths,
        SortCriteria::PID => a.pid <= b.pid,
        SortCriteria::PR => a.priority >= b.priority,
    }
}

/// Every adjacent-or-distant pair of the sequence respects the comparator.
pub open spec fn sorted_under(c: SortCriteria, s: Seq<ProcessRecord>) -> bool {
    forall|i: int, j: int| 0 <= i < j < s.len() ==> spec_le(c, s[i], s[j])
}

/// Each comparator of the table is a total order on the records it reads:
/// reflexive, total, and transitive, with no value it could fail on.
pub proof fn lemma_comparator_total_order(c: SortCriteria)
    ensures
        forall|a: ProcessRecord| spec_le(c, a, a),
        forall|a: ProcessRecord, b: ProcessRecord| spec_le(c, a, b) || spec_le(c, b, a),
        forall|a: ProcessRecord, b: ProcessRecord, d: ProcessRecord|
            spec_le(c, a, b) && spec_le(c, b, d) ==> spec_le(c, a, d),
{
}

fn le_exec(c: &SortCriteria, a: &ProcessRecord, b: &ProcessRecord) -> (r: bool)
    ensures
        r == spec_le(*c, *a, *b),
{
    match c {
        SortCriteria::CPU => a.cpu_tenths >= b.cpu_tenths,
        SortCriteria::Memory => a.mem_tenths >= b.mem_tenths,
        SortCriteria::PID => a.pid <= b.pid,
        SortCriteria::PR => a.priority >= b.priority,
    }
}

/// Orders the snapshot by the active criterion: the result holds exactly
/// the records that came in — the same multiset — arranged so that every
/// pair respects the comparator table. Ties keep no promised order.
pub fn sort_processes(v: Vec<ProcessRecord>, c: &SortCriteria) -> (r: Vec<ProcessRecord>)
    ensures
        sorted_under(*c, r@),
        r@.to_multiset() == v@.to_multiset(),
        r@.len() == v@.len(),
{
    broadcast use vstd::seq_lib::group_to_multiset_ensures;
    broadcast use vstd::seq_lib::to_multiset_insert;
    broadcast use vstd::multiset::group_multiset_axioms;

    let mut rest = v;
    let mut out: Vec<ProcessRecord> = Vec::new();
    let ghost orig: Seq<ProcessRecord> = rest@;
    while rest.len() > 0
        invariant
            sorted_under(*c, out@),
            out@.to_multiset().add(rest@.to_multiset()) == orig.to_multiset(),
            out@.len() + rest@.len() == orig.len(),
        decreases rest.len(),
    {
        let ghost out_before: Seq<ProcessRecord> = out@;
        let ghost rest_before: Seq<ProcessRecord> = rest@;
        let x = rest.remove(0);
        let mut pos: usize = 0;
        while pos < out.len() && le_exec(c, &out[pos], &x)
            invariant
                pos <= out.len(),
                out@ == out_before,
                forall|k: int| 0 <= k < pos ==> spec_le(*c, out@[k], x),
            decreases out.len() - pos,
        {
            pos += 1;
        }
        proof {
            broadcast use vstd::seq_lib::group_to_multiset_ensures;
            broadcast use vstd::seq_lib::to_multiset_insert;
            broadcast use vstd::multiset::group_multiset_axioms;

            // the record at the insertion point, if any, comes after x
            if (pos as int) < out_before.len() {
                assert(spec_le(*c, x, out_before[pos as int]));
            }
            out_before.insert_ensures(pos as int, x);
            assert forall|i: int, j: int|
                0 <= i < j < out_before.insert(pos as int, x).len() implies spec_le(
                *c,
                out_before.insert(pos as int, x)[i],
                out_before.insert(pos as int, x)[j],
            ) by {
                let s = out_before.insert(pos as int, x);
                if j < pos {
                    assert(s[i] == out_before[i] && s[j] == out_before[j]);
                } else if i > pos {
                    assert(s[i] == out_before[i - 1] && s[j] == out_before[j - 1]);
                } else if i == pos {
                    assert(s[i] == x && s[j] == out_before[j - 1]);
                    assert(spec_le(*c, x, out_before[pos as int]));
                    assert(spec_le(*c, out_before[pos as int], out_before[j - 1]) || pos == j - 1);
                } else if j == pos {
                    assert(s[i] == out_before[i] && s[j] == x);
                } else {
                    // i < pos < j, so i < j - 1 and both land in the old order
                    assert(s[i] == out_before[i] && s[j] == out_before[j - 1]);
                    assert(spec_le(*c, out_before[i], out_before[j - 1]));
                }
            }
            // the multiset moves one record from rest to out
            assert(rest@.to_multiset() == rest_before.to_multiset().remove(x));
            assert(out_before.insert(pos as int, x).to_multiset() == out_before.to_multiset().insert(
                x,
            ));
            assert(rest_before.to_multiset().count(x) > 0) by {
                assert(rest_before[0] == x);
                assert(rest_before.contains(x));
            }
            assert(out_before.to_multiset().insert(x).add(rest_before.to_multiset().remove(x))
                =~= out_before.to_multiset().add(rest_before.to_multiset()));
        }
        out.insert(pos, x);
    }
    proof {
        assert(rest@.to_multiset().len() == 0);
        assert(out@.to_multiset().add(rest@.to_multiset()) =~= out@.to_multiset());
    }
    out
}

/// Sorting by PID yields strictly ascending values on any snapshot whose
/// pids are unique, as each snapshot's are.
pub proof fn lemma_pid_sort_strict(s: Seq<ProcessRecord>)
    requires
        sorted_under(SortCriteria::PID, s),
        forall|i: int, j: int| 0 <= i < j < s.len() ==> s[i].pid != s[j].pid,
    ensures
        forall|i: int, j: int| 0 <= i < j < s.len() ==> s[i].pid < s[j].pid,
{
    assert forall|i: int, j: int| 0 <= i < j < s.len() implies s[i].pid < s[j].pid by {
        assert(spec_le(SortCriteria::PID, s[i], s[j]));
    }
}

} // verus!
