use vstd::prelude::*;

use crate::types::ProcessRecord;

verus! {

/// The child row of record `i` over the first `j` records of the snapshot:
/// every index whose record names `procs[i]`'s pid as its parent, in
/// ascending order. The whole row is `child_row(procs, i, procs.len())`.
pub open spec fn child_row(procs: Seq<ProcessRecord>, i: int, j: nat) -> Seq<usize>
    decreases j,
{
    if j == 0 {
        Seq::empty()
    } else {
        let prev = child_row(procs, i, (j - 1) as nat);
        if procs[j - 1].ppid == procs[i].pid {
            prev.push((j - 1) as usize)
        } else {
            prev
        }
    }
}

/// What a child row holds: exactly the indices below `j` whose parent id is
/// `procs[i]`'s pid, each below `j`, in strictly ascending order.
pub proof fn lemma_child_row_membership(procs: Seq<ProcessRecord>, i: int, j: nat)
    requires
        j <= procs.len(),
        procs.len() <= usize::MAX,
    ensures
        forall|x: usize|
            #[trigger] child_row(procs, i, j).contains(x) <==> (x < j && procs[x as int].ppid
                == procs[i].pid),
        forall|a: int, b: int|
            0 <= a < b < child_row(procs, i, j).len() ==> child_row(procs, i, j)[a] < child_row(
                procs,
                i,
                j,
            )[b],
        forall|a: int|
            0 <= a < child_row(procs, i, j).len() ==> (child_row(procs, i, j)[a] as nat) < j,
    decreases j,
{
    if j > 0 {
        lemma_child_row_membership(procs, i, (j - 1) as nat);
        let prev = child_row(procs, i, (j - 1) as nat);
        let cur = child_row(procs, i, j);
        if procs[j - 1].ppid == procs[i].pid {
            assert(cur == prev.push((j - 1) as usize));
            assert forall|x: usize| #[trigger] cur.contains(x) implies (x < j && procs[x as int].ppid
                == procs[i].pid) by {
                let k = choose|k: int| 0 <= k < cur.len() && cur[k] == x;
                if k < prev.len() {
                    assert(prev.contains(x));
                }
            }
            assert forall|x: usize| (x < j && procs[x as int].ppid == procs[i].pid) implies
                #[trigger] cur.contains(x) by {
                if x < j - 1 {
                    assert(prev.contains(x));
                    let k = choose|k: int| 0 <= k < prev.len() && prev[k] == x;
                    assert(cur[k] == x);
                } else {
                    assert(cur[cur.len() - 1] == x);
                }
            }
        } else {
            assert(cur == prev);
            assert forall|x: usize| (x < j && procs[x as int].ppid == procs[i].pid) implies
                #[trigger] cur.contains(x) by {
                assert(x != j - 1);
                assert(prev.contains(x));
            }
        }
    }
}

/// Builds the parent-to-children adjacency of the snapshot: row `i` of the
/// result lists, in ascending order, the indices of every record whose
/// declared parent id is `procs[i]`'s pid. Rebuilt from scratch each cycle;
/// a record whose parent id is absent from the snapshot lands in no row and
/// stays a root-level entry of the flat views.
pub fn build_children(procs: &Vec<ProcessRecord>) -> (r: Vec<Vec<usize>>)
    ensures
        r@.len() == procs@.len(),
        forall|i: int|
            0 <= i < procs@.len() ==> #[trigger] r@[i]@ == child_row(
                procs@,
                i,
                procs@.len() as nat,
            ),
{
    let n = procs.len();
    let mut r: Vec<Vec<usize>> = Vec::new();
    let mut i: usize = 0;
    while i < n
        invariant
            n == procs@.len(),
            r@.len() == i,
            i <= n,
            forall|k: int| 0 <= k < i ==> #[trigger] r@[k]@ == child_row(procs@, k, n as nat),
        decreases n - i,
    {
        let mut row: Vec<usize> = Vec::new();
        let mut j: usize = 0;
        while j < n
            invariant
                n == procs@.len(),
                i < n,
                j <= n,
                row@ == child_row(procs@, i as int, j as nat),
            decreases n - j,
        {
            if procs[j].ppid == procs[i].pid {
                row.push(j);
            }
            j += 1;
        }
        r.push(row);
        i += 1;
    }
    r
}

/// Tree building is deterministic down to equality: any two adjacency
/// tables built from the same flat snapshot carry the same rows, edge for
/// edge.
pub proof fn lemma_tree_build_idempotent(
    procs: Seq<ProcessRecord>,
    r1: Seq<Seq<usize>>,
    r2: Seq<Seq<usize>>,
)
    requires
        r1.len() == procs.len(),
        r2.len() == procs.len(),
        forall|i: int| 0 <= i < procs.len() ==> #[trigger] r1[i] == child_row(procs, i, procs.len() as nat),
        forall|i: int| 0 <= i < procs.len() ==> #[trigger] r2[i] == child_row(procs, i, procs.len() as nat),
    ensures
        r1 =~= r2,
{
}

/// A record whose declared parent id is absent from the snapshot appears in
/// no child row at all.
pub proof fn lemma_orphan_in_no_child_row(procs: Seq<ProcessRecord>, r: Seq<Seq<usize>>, k: usize)
    requires
        procs.len() <= usize::MAX,
        r.len() == procs.len(),
        forall|i: int| 0 <= i < procs.len() ==> #[trigger] r[i] == child_row(procs, i, procs.len() as nat),
        k < procs.len(),
        forall|m: int| 0 <= m < procs.len() ==> procs[m].pid != procs[k as int].ppid,
    ensures
        forall|i: int| 0 <= i < procs.len() ==> !(#[trigger] r[i].contains(k)),
{
    assert forall|i: int| 0 <= i < procs.len() implies !(#[trigger] r[i].contains(k)) by {
        lemma_child_row_membership(procs, i, procs.len() as nat);
        if r[i].contains(k) {
            assert(procs[k as int].ppid == procs[i].pid);
        }
    }
}

/// The first index holding the given pid, if the snapshot has one.
pub fn find_index(procs: &Vec<ProcessRecord>, pid: i32) -> (r: Option<usize>)
    ensures
        match r {
            Some(i) => i < procs@.len() && procs@[i as int].pid == pid && (forall|k: int|
                0 <= k < i ==> procs@[k].pid != pid),
            None => forall|k: int| 0 <= k < procs@.len() ==> procs@[k].pid != pid,
        },
{
    let mut i: usize = 0;
    while i < procs.len()
        invariant
            i <= procs@.len(),
            forall|k: int| 0 <= k < i ==> procs@[k].pid != pid,
        decreases procs@.len() - i,
    {
        if procs[i].pid == pid {
            return Some(i);
        }
        i += 1;
    }
    None
}

/// How many entries of the mark table are still unset; the descendant walk
/// can only clear entries, which bounds it.
pub open spec fn num_false(s: Seq<bool>) -> nat
    decreases s.len(),
{
    if s.len() == 0 {
        0
    } else {
        (if s[0] {
            0nat
        } else {
            1nat
        }) + num_false(s.drop_first())
    }
}

proof fn lemma_num_false_update(s: Seq<bool>, i: int)
    requires
        0 <= i < s.len(),
        !s[i],
    ensures
        num_false(s.update(i, true)) + 1 == num_false(s),
    decreases s.len(),
{
    if i == 0 {
        assert(s.update(0, true).drop_first() =~= s.drop_first());
    } else {
        assert(s.update(i, true).drop_first() =~= s.drop_first().update(i - 1, true));
        lemma_num_false_update(s.drop_first(), i - 1);
    }
}

/// How a listed descendant hangs off the tree: either directly below the
/// focus (depth 0), or below one of the first `bound` entries of the
/// listing, one level deeper than it.
pub open spec fn child_link(
    procs: Seq<ProcessRecord>,
    out: Seq<(usize, usize)>,
    start: int,
    e: (usize, usize),
    bound: int,
) -> bool {
    ||| (e.1 == 0 && procs[e.0 as int].ppid == procs[start].pid)
    ||| (exists|m: int|
        0 <= m < bound && out[m].1 + 1 == e.1 && procs[e.0 as int].ppid == procs[out[m].0 as int].pid)
}

/// Every record that names `parent`'s pid as its parent id carries a mark.
pub open spec fn children_marked(procs: Seq<ProcessRecord>, visited: Seq<bool>, parent: int) -> bool {
    forall|j: int| 0 <= j < procs.len() && procs[j].ppid == procs[parent].pid ==> visited[j]
}

proof fn lemma_marking_keeps_children_marked(
    procs: Seq<ProcessRecord>,
    v1: Seq<bool>,
    v2: Seq<bool>,
    parent: int,
)
    requires
        children_marked(procs, v1, parent),
        v1.len() == v2.len(),
        procs.len() <= v1.len(),
        forall|j: int| 0 <= j < v1.len() && v1[j] ==> v2[j],
    ensures
        children_marked(procs, v2, parent),
{
}

/// The descendants of the focused record, depth-first out of the adjacency
/// table: each entry an index with its depth below the focus, children
/// listed under their parent. A mark table holds every index visited at
/// most once, so the walk terminates — and lists nothing twice — even if a
/// degenerate snapshot were to close a parent cycle. The listing is sound
/// and complete: every listed entry hangs off the focus — its parent is
/// the focus itself or an entry listed before it, one level up — and every
/// child of the focus or of a listed entry is itself listed (the focus is
/// never listed, which a record naming itself as parent would otherwise
/// force).
#[verifier::rlimit(100)]
#[verifier::spinoff_prover]
pub fn descendant_rows(
    procs: &Vec<ProcessRecord>,
    children: &Vec<Vec<usize>>,
    start: usize,
) -> (r: Vec<(usize, usize)>)
    requires
        start < procs@.len(),
        children@.len() == procs@.len(),
        forall|i: int|
            0 <= i < procs@.len() ==> #[trigger] children@[i]@ == child_row(
                procs@,
                i,
                procs@.len() as nat,
            ),
    ensures
        forall|k: int|
            0 <= k < r@.len() ==> (#[trigger] r@[k].0 as int) < procs@.len() && r@[k].0 != start
                && child_link(procs@, r@, start as int, r@[k], k),
        forall|k1: int, k2: int| 0 <= k1 < k2 < r@.len() ==> r@[k1].0 != r@[k2].0,
        forall|j: int|
            0 <= j < procs@.len() && j != start && procs@[j].ppid == procs@[start as int].pid
                ==> (exists|m: int| 0 <= m < r@.len() && (#[trigger] r@[m].0) as int == j),
        forall|k: int, j: int|
            #![trigger r@[k].0, procs@[j].ppid]
            0 <= k < r@.len() && 0 <= j < procs@.len() && j != start && procs@[j].ppid
                == procs@[r@[k].0 as int].pid ==> (exists|m: int|
                0 <= m < r@.len() && (#[trigger] r@[m].0) as int == j),
{
    let n = procs.len();
    let mut visited: Vec<bool> = Vec::new();
    let mut t: usize = 0;
    while t < n
        invariant
            visited@.len() == t,
            t <= n,
            forall|k: int| 0 <= k < t ==> !visited@[k],
        decreases n - t,
    {
        visited.push(false);
        t += 1;
    }
    visited[start] = true;
    let mut out: Vec<(usize, usize)> = Vec::new();
    let mut stack: Vec<(usize, usize)> = Vec::new();
    proof {
        lemma_child_row_membership(procs@, start as int, n as nat);
    }
    let row = &children[start];
    let mut t0: usize = 0;
    while t0 < row.len()
        invariant
            n == procs@.len(),
            start < n,
            row@ == child_row(procs@, start as int, n as nat),
            forall|x: usize|
                #[trigger] row@.contains(x) <==> (x < n && procs@[x as int].ppid == procs@[start as int].pid),
            visited@.len() == n,
            visited@[start as int],
            t0 <= row@.len(),
            out@.len() == 0,
            forall|u: int| 0 <= u < t0 ==> visited@[#[trigger] row@[u] as int],
            forall|a: int|
                0 <= a < stack@.len() ==> (#[trigger] stack@[a].0 as int) < n && stack@[a].0
                    != start && visited@[stack@[a].0 as int] && stack@[a].1 == 0 && child_link(
                    procs@,
                    out@,
                    start as int,
                    stack@[a],
                    0,
                ),
            forall|a: int, b: int| 0 <= a < b < stack@.len() ==> stack@[a].0 != stack@[b].0,
            forall|k: int|
                0 <= k < n && #[trigger] visited@[k] ==> k == start || (exists|a: int|
                    0 <= a < stack@.len() && (#[trigger] stack@[a].0) as int == k),
        decreases row@.len() - t0,
    {
        let c = row[t0];
        proof {
            assert(row@.contains(row@[t0 as int]));
        }
        let ghost visited_b: Seq<bool> = visited@;
        let ghost stack_b: Seq<(usize, usize)> = stack@;
        if !visited[c] {
            visited[c] = true;
            stack.push((c, 0));
            proof {
                assert forall|k: int| 0 <= k < n && #[trigger] visited@[k] implies k == start || (
                exists|a: int| 0 <= a < stack@.len() && (#[trigger] stack@[a].0) as int == k) by {
                    if k == c {
                        assert(stack@[stack@.len() - 1].0 as int == k);
                    } else if visited_b[k] && k != start {
                        let a = choose|a: int|
                            0 <= a < stack_b.len() && (#[trigger] stack_b[a].0) as int == k;
                        assert(stack@[a].0 as int == k);
                    }
                }
            }
        }
        proof {
            assert forall|u: int| 0 <= u <= t0 implies visited@[#[trigger] row@[u] as int] by {
                assert(row@.contains(row@[u]));
                if u < t0 {
                    assert(visited_b[row@[u] as int]);
                }
            }
        }
        t0 += 1;
    }
    proof {
        // every direct child of the focus is marked by now
        assert forall|j: int|
            0 <= j < n && procs@[j].ppid == procs@[start as int].pid implies visited@[j] by {
            assert(row@.contains(j as usize));
            let u = choose|u: int| 0 <= u < row@.len() && row@[u] == j as usize;
            assert(visited@[row@[u] as int]);
        }
    }
    while stack.len() > 0
        invariant
            n == procs@.len(),
            start < n,
            children@.len() == n,
            forall|i: int|
                0 <= i < n ==> #[trigger] children@[i]@ == child_row(procs@, i, n as nat),
            visited@.len() == n,
            visited@[start as int],
            forall|a: int|
                0 <= a < stack@.len() ==> (#[trigger] stack@[a].0 as int) < n && stack@[a].0
                    != start && visited@[stack@[a].0 as int] && stack@[a].1 <= out@.len()
                    && child_link(procs@, out@, start as int, stack@[a], out@.len() as int),
            forall|k: int|
                0 <= k < out@.len() ==> (#[trigger] out@[k].0 as int) < n && out@[k].0 != start
                    && visited@[out@[k].0 as int] && out@[k].1 <= k && child_link(
                    procs@,
                    out@,
                    start as int,
                    out@[k],
                    k,
                ),
            forall|a: int, b: int| 0 <= a < b < stack@.len() ==> stack@[a].0 != stack@[b].0,
            forall|k1: int, k2: int| 0 <= k1 < k2 < out@.len() ==> out@[k1].0 != out@[k2].0,
            forall|a: int, k: int|
                0 <= a < stack@.len() && 0 <= k < out@.len() ==> stack@[a].0 != out@[k].0,
            children_marked(procs@, visited@, start as int),
            forall|k: int|
                0 <= k < out@.len() ==> children_marked(
                    procs@,
                    visited@,
                    (#[trigger] out@[k].0) as int,
                ),
            forall|k: int|
                0 <= k < n && #[trigger] visited@[k] ==> k == start || (exists|a: int|
                    0 <= a < stack@.len() && (#[trigger] stack@[a].0) as int == k) || (exists|m: int|
                    0 <= m < out@.len() && (#[trigger] out@[m].0) as int == k),
        decreases num_false(visited@), stack@.len(),
    {
        let ghost visited_head: Seq<bool> = visited@;
        let ghost stack_head: Seq<(usize, usize)> = stack@;
        let e = stack.pop().unwrap();
        let (i, d) = e;
        let ghost out_old: Seq<(usize, usize)> = out@;
        out.push((i, d));
        proof {
            // entries already on the stack stay linked when the listing grows
            assert forall|a: int| 0 <= a < stack@.len() implies child_link(
                procs@,
                out@,
                start as int,
                stack@[a],
                out@.len() as int,
            ) by {
                assert(child_link(procs@, out_old, start as int, stack@[a], out_old.len() as int));
                if stack@[a].1 != 0 {
                    let m = choose|m: int|
                        0 <= m < out_old.len() && out_old[m].1 + 1 == stack@[a].1 && procs@[stack@[a].0 as int].ppid
                            == procs@[out_old[m].0 as int].pid;
                    assert(out@[m] == out_old[m]);
                }
            }
            assert forall|k: int| 0 <= k < out@.len() implies child_link(
                procs@,
                out@,
                start as int,
                out@[k],
                k,
            ) by {
                if k < out_old.len() {
                    assert(child_link(procs@, out_old, start as int, out_old[k], k));
                    if out_old[k].1 != 0 {
                        let m = choose|m: int|
                            0 <= m < k && out_old[m].1 + 1 == out_old[k].1 && procs@[out_old[k].0 as int].ppid
                                == procs@[out_old[m].0 as int].pid;
                        assert(out@[m] == out_old[m]);
                    }
                } else {
                    assert(out@[k] == e);
                    assert(child_link(procs@, out_old, start as int, e, out_old.len() as int));
                    if e.1 != 0 {
                        let m = choose|m: int|
                            0 <= m < out_old.len() && out_old[m].1 + 1 == e.1 && procs@[e.0 as int].ppid
                                == procs@[out_old[m].0 as int].pid;
                        assert(out@[m] == out_old[m]);
                    }
                }
            }
            // every mark still has its holder: the popped entry moved to the listing
            assert forall|k: int| 0 <= k < n && #[trigger] visited@[k] implies k == start || (
            exists|a: int| 0 <= a < stack@.len() && (#[trigger] stack@[a].0) as int == k) || (
            exists|m: int| 0 <= m < out@.len() && (#[trigger] out@[m].0) as int == k) by {
                if k != start {
                    if exists|a: int| 0 <= a < stack_head.len() && (#[trigger] stack_head[a].0) as int == k {
                        let a = choose|a: int|
                            0 <= a < stack_head.len() && (#[trigger] stack_head[a].0) as int == k;
                        if a < stack_head.len() - 1 {
                            assert(stack@[a].0 as int == k);
                        } else {
                            assert(out@[out@.len() - 1].0 as int == k);
                        }
                    } else {
                        let m = choose|m: int|
                            0 <= m < out_old.len() && (#[trigger] out_old[m].0) as int == k;
                        assert(out@[m] == out_old[m]);
                    }
                }
            }
            lemma_child_row_membership(procs@, i as int, n as nat);
        }
        let row_i = &children[i];
        let out_len = out.len();
        proof {
            assert(d < out_len);
        }
        let d_next = d + 1;
        let ghost base_false: nat = num_false(visited@);
        let ghost base_len: int = stack@.len() as int;
        let mut t1: usize = 0;
        while t1 < row_i.len()
            invariant
                n == procs@.len(),
                start < n,
                i < n,
                d == out@[out@.len() - 1].1,
                out@.len() >= 1,
                out@[out@.len() - 1].0 == i,
                d_next == d + 1,
                row_i@ == child_row(procs@, i as int, n as nat),
                forall|x: usize|
                    #[trigger] row_i@.contains(x) <==> (x < n && procs@[x as int].ppid == procs@[i as int].pid),
                visited@.len() == n,
                visited@[start as int],
                d + 1 <= out@.len(),
                t1 <= row_i@.len(),
                forall|a: int|
                    0 <= a < stack@.len() ==> (#[trigger] stack@[a].0 as int) < n && stack@[a].0
                        != start && visited@[stack@[a].0 as int] && stack@[a].1 <= out@.len()
                        && child_link(procs@, out@, start as int, stack@[a], out@.len() as int),
                forall|k: int|
                    0 <= k < out@.len() ==> (#[trigger] out@[k].0 as int) < n && out@[k].0 != start
                        && visited@[out@[k].0 as int] && out@[k].1 <= k && child_link(
                        procs@,
                        out@,
                        start as int,
                        out@[k],
                        k,
                    ),
                forall|a: int, b: int| 0 <= a < b < stack@.len() ==> stack@[a].0 != stack@[b].0,
                forall|k1: int, k2: int| 0 <= k1 < k2 < out@.len() ==> out@[k1].0 != out@[k2].0,
                forall|a: int, k: int|
                    0 <= a < stack@.len() && 0 <= k < out@.len() ==> stack@[a].0 != out@[k].0,
                children_marked(procs@, visited@, start as int),
                forall|k: int|
                    0 <= k < out@.len() - 1 ==> children_marked(
                        procs@,
                        visited@,
                        (#[trigger] out@[k].0) as int,
                    ),
                forall|u: int| 0 <= u < t1 ==> visited@[#[trigger] row_i@[u] as int],
                forall|k: int|
                    0 <= k < n && #[trigger] visited@[k] ==> k == start || (exists|a: int|
                        0 <= a < stack@.len() && (#[trigger] stack@[a].0) as int == k) || (exists|m: int|
                        0 <= m < out@.len() && (#[trigger] out@[m].0) as int == k),
                num_false(visited@) + stack@.len() == base_false + base_len,
                num_false(visited@) <= base_false,
                stack@.len() >= base_len,
            decreases row_i@.len() - t1,
        {
            let c = row_i[t1];
            proof {
                assert(row_i@.contains(row_i@[t1 as int]));
            }
            let ghost visited_b: Seq<bool> = visited@;
            let ghost stack_b: Seq<(usize, usize)> = stack@;
            if !visited[c] {
                proof {
                    lemma_num_false_update(visited@, c as int);
                }
                visited[c] = true;
                stack.push((c, d_next));
                proof {
                    assert forall|a: int| 0 <= a < stack@.len() implies child_link(
                        procs@,
                        out@,
                        start as int,
                        stack@[a],
                        out@.len() as int,
                    ) by {
                        if a == stack@.len() - 1 {
                            let m = out@.len() - 1;
                            assert(out@[m].1 + 1 == stack@[a].1 && procs@[stack@[a].0 as int].ppid
                                == procs@[out@[m].0 as int].pid);
                        }
                    }
                    assert(children_marked(procs@, visited@, start as int)) by {
                        lemma_marking_keeps_children_marked(
                            procs@,
                            visited_b,
                            visited@,
                            start as int,
                        );
                    }
                    assert forall|k: int| 0 <= k < out@.len() - 1 implies children_marked(
                        procs@,
                        visited@,
                        (#[trigger] out@[k].0) as int,
                    ) by {
                        lemma_marking_keeps_children_marked(
                            procs@,
                            visited_b,
                            visited@,
                            out@[k].0 as int,
                        );
                    }
                    assert forall|k: int| 0 <= k < n && #[trigger] visited@[k] implies k == start
                        || (exists|a: int|
                        0 <= a < stack@.len() && (#[trigger] stack@[a].0) as int == k) || (
                    exists|m: int| 0 <= m < out@.len() && (#[trigger] out@[m].0) as int == k) by {
                        if k == c {
                            assert(stack@[stack@.len() - 1].0 as int == k);
                        } else if visited_b[k] && k != start {
                            if exists|a: int|
                                0 <= a < stack_b.len() && (#[trigger] stack_b[a].0) as int == k {
                                let a = choose|a: int|
                                    0 <= a < stack_b.len() && (#[trigger] stack_b[a].0) as int == k;
                                assert(stack@[a].0 as int == k);
                            }
                        }
                    }
                }
            }
            proof {
                assert forall|u: int| 0 <= u <= t1 implies visited@[#[trigger] row_i@[u] as int] by {
                    assert(row_i@.contains(row_i@[u]));
                    if u < t1 {
                        assert(visited_b[row_i@[u] as int]);
                    }
                }
            }
            t1 += 1;
        }
        proof {
            // all of the new entry's children carry marks now
            assert forall|k: int| 0 <= k < out@.len() implies children_marked(
                procs@,
                visited@,
                (#[trigger] out@[k].0) as int,
            ) by {
                if k == out@.len() - 1 {
                    assert forall|j: int|
                        0 <= j < n && procs@[j].ppid == procs@[out@[k].0 as int].pid implies visited@[j] by {
                        assert(row_i@.contains(j as usize));
                        let u = choose|u: int| 0 <= u < row_i@.len() && row_i@[u] == j as usize;
                        assert(visited@[row_i@[u] as int]);
                    }
                }
            }
            if stack@.len() == base_len {
                assert(num_false(visited@) == base_false);
                assert(stack@.len() < stack_head.len());
            } else {
                assert(num_false(visited@) < base_false);
                assert(num_false(visited_head) >= base_false);
            }
        }
    }
    proof {
        // the stack is spent: every mark is the focus or a listed entry, so
        // every marked child set is listed in full
        assert forall|j: int|
            0 <= j < n && j != start && procs@[j].ppid == procs@[start as int].pid implies (
        exists|m: int| 0 <= m < out@.len() && (#[trigger] out@[m].0) as int == j) by {
            assert(visited@[j]);
        }
        assert forall|k: int, j: int|
            #![trigger out@[k].0, procs@[j].ppid]
            0 <= k < out@.len() && 0 <= j < n && j != start && procs@[j].ppid
                == procs@[out@[k].0 as int].pid implies (exists|m: int|
            0 <= m < out@.len() && (#[trigger] out@[m].0) as int == j) by {
            assert(children_marked(procs@, visited@, out@[k].0 as int));
            assert(visited@[j]);
        }
    }
    out
}

/// The parent id the ancestor walk would resolve next: the focus's own
/// parent id while the chain is empty, then the last listed ancestor's.
pub open spec fn next_parent_id(procs: Seq<ProcessRecord>, start: int, chain: Seq<usize>) -> i32 {
    if chain.len() == 0 {
        procs[start].ppid
    } else {
        procs[chain[chain.len() - 1] as int].ppid
    }
}

/// Why the ancestor walk is over: the next parent id is held by no record
/// of the snapshot, or its first holder was already listed — the focus
/// itself, or an ancestor the chain holds.
pub open spec fn ancestor_walk_done(procs: Seq<ProcessRecord>, start: int, chain: Seq<usize>) -> bool {
    let next = next_parent_id(procs, start, chain);
    ||| (forall|m: int| 0 <= m < procs.len() ==> procs[m].pid != next)
    ||| (exists|m: int|
        0 <= m < procs.len() && #[trigger] procs[m].pid == next && (forall|k: int|
            0 <= k < m ==> procs[k].pid != next) && (m == start || (exists|k: int|
            0 <= k < chain.len() && (#[trigger] chain[k]) as int == m)))
}

proof fn lemma_num_false_push(s: Seq<bool>, b: bool)
    ensures
        num_false(s.push(b)) == num_false(s) + (if b {
            0nat
        } else {
            1nat
        }),
    decreases s.len(),
{
    if s.len() == 0 {
        assert(s.push(b).drop_first() =~= s);
    } else {
        assert(s.push(b).drop_first() =~= s.drop_first().push(b));
        lemma_num_false_push(s.drop_first(), b);
    }
}

/// The ancestry of a record for the tree view: index of its parent, then
/// the parent's parent, and so on, each found by its pid in the snapshot.
/// The walk stops when a parent id is absent — that link is then missing
/// from the whole snapshot — or when it reaches a record already listed,
/// the focus included: each index appears at most once, so a degenerate
/// parent cycle neither diverges nor repeats a line.
pub fn ancestor_chain(procs: &Vec<ProcessRecord>, start: usize) -> (r: Vec<usize>)
    requires
        start < procs@.len(),
    ensures
        r@.len() < procs@.len(),
        forall|k: int| 0 <= k < r@.len() ==> (#[trigger] r@[k] as int) < procs@.len(),
        forall|k: int| 0 <= k < r@.len() ==> (#[trigger] r@[k]) != start,
        forall|k1: int, k2: int| 0 <= k1 < k2 < r@.len() ==> r@[k1] != r@[k2],
        r@.len() > 0 ==> procs@[r@[0] as int].pid == procs@[start as int].ppid,
        forall|k: int|
            0 < k < r@.len() ==> procs@[#[trigger] r@[k] as int].pid == procs@[r@[k - 1] as int].ppid,
        ancestor_walk_done(procs@, start as int, r@),
{
    let n = procs.len();
    let mut seen: Vec<bool> = Vec::new();
    let mut t: usize = 0;
    while t < n
        invariant
            seen@.len() == t,
            t <= n,
            num_false(seen@) == t,
            forall|k: int| 0 <= k < t ==> !seen@[k],
        decreases n - t,
    {
        proof {
            lemma_num_false_push(seen@, false);
        }
        seen.push(false);
        t += 1;
    }
    proof {
        lemma_num_false_update(seen@, start as int);
    }
    seen[start] = true;
    let mut out: Vec<usize> = Vec::new();
    let mut cur_ppid: i32 = procs[start].ppid;
    let mut stopped: bool = false;
    while !stopped
        invariant
            n == procs@.len(),
            start < n,
            seen@.len() == n,
            seen@[start as int],
            num_false(seen@) + out@.len() + 1 == n,
            forall|k: int| 0 <= k < out@.len() ==> (#[trigger] out@[k] as int) < n,
            forall|k: int| 0 <= k < out@.len() ==> (#[trigger] out@[k]) != start,
            forall|k: int| 0 <= k < out@.len() ==> seen@[(#[trigger] out@[k]) as int],
            forall|k1: int, k2: int| 0 <= k1 < k2 < out@.len() ==> out@[k1] != out@[k2],
            out@.len() > 0 ==> procs@[out@[0] as int].pid == procs@[start as int].ppid,
            forall|k: int|
                0 < k < out@.len() ==> procs@[#[trigger] out@[k] as int].pid == procs@[out@[k
                    - 1] as int].ppid,
            cur_ppid == next_parent_id(procs@, start as int, out@),
            forall|j: int|
                0 <= j < n && #[trigger] seen@[j] ==> j == start || (exists|k: int|
                    0 <= k < out@.len() && (#[trigger] out@[k]) as int == j),
            stopped ==> ancestor_walk_done(procs@, start as int, out@),
        decreases (if stopped {
            0int
        } else {
            1int
        }), num_false(seen@),
    {
        match find_index(procs, cur_ppid) {
            Some(i) => {
                if seen[i] {
                    stopped = true;
                } else {
                    proof {
                        lemma_num_false_update(seen@, i as int);
                    }
                    let ghost seen_b: Seq<bool> = seen@;
                    let ghost out_b: Seq<usize> = out@;
                    seen[i] = true;
                    out.push(i);
                    cur_ppid = procs[i].ppid;
                    proof {
                        assert forall|j: int| 0 <= j < n && #[trigger] seen@[j] implies j == start
                            || (exists|k: int|
                            0 <= k < out@.len() && (#[trigger] out@[k]) as int == j) by {
                            if j == i {
                                assert(out@[out@.len() - 1] as int == j);
                            } else if seen_b[j] && j != start {
                                let k = choose|k: int|
                                    0 <= k < out_b.len() && (#[trigger] out_b[k]) as int == j;
                                assert(out@[k] as int == j);
                            }
                        }
                    }
                }
            },
            None => {
                stopped = true;
            },
        }
    }
    out
}

} // verus!
