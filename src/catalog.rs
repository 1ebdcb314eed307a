use vstd::prelude::*;
use crate::process::{text_or_empty, Proc};
use crate::sort::{
    compare_procs, is_permutation, lemma_stable_sort_unique, lists, ranks_before, sort_procs,
    sorted_by, stable_sorted, ProcessSortStrategy,
};
use vstd::relations::injective_on;
use vstd::set_lib::{lemma_int_range, lemma_map_size, set_int_range};
use crate::text::starts_with;

verus! {

/// The processes of `ps` whose name (an absent one reading as empty) begins
/// with `prefix`, in their order in `ps`.
pub open spec fn filtered(ps: Seq<Proc>, prefix: Seq<char>) -> Seq<Proc> {
    ps.filter(keeps(prefix))
}

/// The filter's test: the name, an absent one reading as empty, begins
/// with `prefix`.
pub open spec fn keeps(prefix: Seq<char>) -> spec_fn(Proc) -> bool {
    |p: Proc| prefix.is_prefix_of(text_or_empty(p.name))
}

/// Whether `ix` lists, in increasing order, the positions of `x` whose
/// element passes `pred`: the positions that `x.filter(pred)` is taken from.
pub open spec fn picks(x: Seq<Proc>, pred: spec_fn(Proc) -> bool, ix: Seq<int>) -> bool {
    &&& ix.len() == x.filter(pred).len()
    &&& forall|t: int|
        0 <= t < ix.len() ==> 0 <= #[trigger] ix[t] < x.len() && pred(x[ix[t]])
            && x.filter(pred)[t] == x[ix[t]]
    &&& forall|t1: int, t2: int| 0 <= t1 < t2 < ix.len() ==> ix[t1] < ix[t2]
    &&& forall|i: int|
        0 <= i < x.len() && #[trigger] pred(x[i]) ==> exists|t: int|
            0 <= t < ix.len() && ix[t] == i
}

proof fn lemma_filter_picks(x: Seq<Proc>, pred: spec_fn(Proc) -> bool) -> (ix: Seq<int>)
    ensures
        picks(x, pred, ix),
    decreases x.len(),
{
    reveal(Seq::filter);
    if x.len() == 0 {
        Seq::empty()
    } else {
        let init = x.drop_last();
        let ix0 = lemma_filter_picks(init, pred);
        let last = x.len() - 1;
        let ix = if pred(x.last()) {
            ix0.push(last)
        } else {
            ix0
        };
        assert forall|i: int| 0 <= i < x.len() && #[trigger] pred(x[i]) implies exists|t: int|
            0 <= t < ix.len() && ix[t] == i by {
            if i == last {
                assert(ix[ix0.len() as int] == i);
            } else {
                assert(init[i] == x[i]);
                assert(pred(init[i]));
                let t = choose|t: int| 0 <= t < ix0.len() && ix0[t] == i;
                assert(ix[t] == i);
            }
        }
        assert forall|t: int| 0 <= t < ix.len() implies 0 <= #[trigger] ix[t] < x.len() && pred(
            x[ix[t]],
        ) && x.filter(pred)[t] == x[ix[t]] by {
            if t < ix0.len() {
                assert(init[ix0[t]] == x[ix0[t]]);
            }
        }
        ix
    }
}

/// Whether `rows` is the catalog of `snapshot`: the processes that the
/// filter keeps, in the order of the strategy, ties in provider order.
pub open spec fn is_catalog(
    snapshot: Seq<Proc>,
    prefix: Seq<char>,
    s: ProcessSortStrategy,
    rows: Seq<Proc>,
) -> bool {
    stable_sorted(s, filtered(snapshot, prefix), rows)
}

/// The processes whose name begins with `prefix`, in their order.
pub fn filter_procs(ps: &Vec<Proc>, prefix: &str) -> (r: Vec<Proc>)
    ensures
        r@ == filtered(ps@, prefix@),
{
    let mut r: Vec<Proc> = Vec::new();
    let mut i: usize = 0;
    while i < ps.len()
        invariant
            i <= ps@.len(),
            r@ == filtered(ps@.subrange(0, i as int), prefix@),
        decreases ps.len() - i,
    {
        let keep = starts_with(ps[i].name_or_empty(), prefix);
        if keep {
            r.push(ps[i].clone());
        }
        proof {
            let sub = ps@.subrange(0, i + 1);
            assert(sub.drop_last() =~= ps@.subrange(0, i as int));
            reveal(Seq::filter);
        }
        i = i + 1;
    }
    assert(ps@.subrange(0, ps@.len() as int) =~= ps@);
    r
}

/// Builds the catalog of a snapshot: filter first, then sort.
pub fn build_catalog(snapshot: &Vec<Proc>, prefix: &str, s: ProcessSortStrategy) -> (r: Vec<Proc>)
    ensures
        is_catalog(snapshot@, prefix@, s, r@),
{
    let kept = filter_procs(snapshot, prefix);
    sort_procs(s, &kept)
}

/// The empty filter keeps every process, in order.
pub proof fn lemma_empty_filter_keeps_all(ps: Seq<Proc>)
    ensures
        filtered(ps, Seq::empty()) == ps,
    decreases ps.len(),
{
    reveal(Seq::filter);
    if ps.len() > 0 {
        lemma_empty_filter_keeps_all(ps.drop_last());
        assert(Seq::<char>::empty().is_prefix_of(text_or_empty(ps.last().name)));
        assert(ps.drop_last().push(ps.last()) =~= ps);
    }
}

/// Every row of a catalog compares at most equal with each later row under
/// the strategy: user, pid, parent pid and name ascending, CPU usage and
/// memory descending.
pub proof fn lemma_catalog_in_order(
    snapshot: Seq<Proc>,
    prefix: Seq<char>,
    s: ProcessSortStrategy,
    rows: Seq<Proc>,
    i: int,
    j: int,
)
    requires
        is_catalog(snapshot, prefix, s, rows),
        0 <= i < j < rows.len(),
    ensures
        compare_procs(s, rows[i], rows[j]) <= 0,
{
    let kept = filtered(snapshot, prefix);
    let perm = choose|perm: Seq<int>| sorted_by(s, kept, rows, perm);
    assert(ranks_before(s, kept, perm[i], perm[j]));
    assert(rows[i] == kept[perm[i]] && rows[j] == kept[perm[j]]);
}

/// Whether no two processes of `ps` share a pid, as in any one snapshot.
pub open spec fn pids_unique(ps: Seq<Proc>) -> bool {
    forall|a: int, b: int| 0 <= a < b < ps.len() ==> ps[a].pid != ps[b].pid
}

/// Under the pid strategy, the catalog of a snapshot whose pids are unique
/// lists pids in strictly increasing order.
pub proof fn lemma_pid_catalog_strictly_increasing(
    snapshot: Seq<Proc>,
    prefix: Seq<char>,
    rows: Seq<Proc>,
    i: int,
    j: int,
)
    requires
        pids_unique(snapshot),
        is_catalog(snapshot, prefix, ProcessSortStrategy::Pid, rows),
        0 <= i < j < rows.len(),
    ensures
        rows[i].pid < rows[j].pid,
{
    let kept = filtered(snapshot, prefix);
    let ix = lemma_filter_picks(snapshot, keeps(prefix));
    let perm = choose|perm: Seq<int>| sorted_by(ProcessSortStrategy::Pid, kept, rows, perm);
    lemma_catalog_in_order(snapshot, prefix, ProcessSortStrategy::Pid, rows, i, j);
    let (u, v) = (perm[i], perm[j]);
    assert(u != v);
    assert(rows[i] == snapshot[ix[u]] && rows[j] == snapshot[ix[v]]);
    if u < v {
        assert(ix[u] < ix[v]);
    } else {
        assert(ix[v] < ix[u]);
    }
}

/// Filtering commutes with sorting: the catalog under a filter is the
/// unfiltered catalog with the rows the filter drops taken out, the rest
/// in the same order.
pub proof fn lemma_filter_commutes_with_sort(
    snapshot: Seq<Proc>,
    prefix: Seq<char>,
    s: ProcessSortStrategy,
    all_rows: Seq<Proc>,
    rows: Seq<Proc>,
)
    requires
        is_catalog(snapshot, Seq::empty(), s, all_rows),
        is_catalog(snapshot, prefix, s, rows),
    ensures
        rows == filtered(all_rows, prefix),
{
    broadcast use vstd::seq_lib::group_filter_ensures;

    let pred = keeps(prefix);
    lemma_empty_filter_keeps_all(snapshot);
    let kept = filtered(snapshot, prefix);
    let shown = filtered(all_rows, prefix);
    let p0 = choose|perm: Seq<int>| sorted_by(s, snapshot, all_rows, perm);
    let ix = lemma_filter_picks(snapshot, pred);
    let jx = lemma_filter_picks(all_rows, pred);
    // the position in `kept` of the snapshot index behind each shown row
    let q = Seq::new(
        jx.len(),
        |t: int| choose|u: int| 0 <= u < ix.len() && ix[u] == p0[jx[t]],
    );
    assert forall|t: int| 0 <= t < jx.len() implies 0 <= #[trigger] q[t] < ix.len() && ix[q[t]]
        == p0[jx[t]] by {
        assert(all_rows[jx[t]] == snapshot[p0[jx[t]]]);
        assert(pred(snapshot[p0[jx[t]]]));
    }
    assert forall|a: int, b: int| 0 <= a < b < jx.len() implies q[a] != q[b] by {
        assert(ix[q[a]] == p0[jx[a]] && ix[q[b]] == p0[jx[b]]);
        assert(jx[a] < jx[b]);
    }
    assert forall|u: int| 0 <= u < ix.len() implies #[trigger] lists(q, u) by {
        let i = ix[u];
        assert(lists(p0, i));
        let k = choose|k: int| 0 <= k < p0.len() && p0[k] == i;
        assert(all_rows[k] == snapshot[i]);
        assert(pred(all_rows[k]));
        let t = choose|t: int| 0 <= t < jx.len() && jx[t] == k;
        assert(ix[q[t]] == i);
        if q[t] < u {
            assert(ix[q[t]] < ix[u]);
        } else if q[t] > u {
            assert(ix[u] < ix[q[t]]);
        }
        assert(q[t] == u);
    }
    let dom = set_int_range(0, jx.len() as int);
    let img = set_int_range(0, ix.len() as int);
    let f = |t: int| q[t];
    lemma_int_range(0, jx.len() as int);
    lemma_int_range(0, ix.len() as int);
    assert(injective_on(f, dom)) by {
        assert forall|a: int, b: int| dom.contains(a) && dom.contains(b) && #[trigger] f(a)
            == #[trigger] f(b) implies a == b by {
            if a < b {
                assert(q[a] != q[b]);
            } else if b < a {
                assert(q[b] != q[a]);
            }
        }
    }
    assert(dom.map(f) =~= img) by {
        assert forall|u: int| img.contains(u) implies dom.map(f).contains(u) by {
            assert(lists(q, u));
            let t = choose|t: int| 0 <= t < q.len() && q[t] == u;
            assert(dom.contains(t) && f(t) == u);
        }
    }
    lemma_map_size(dom, img, f);
    assert(is_permutation(q, kept.len() as int));
    assert forall|t: int| 0 <= t < shown.len() implies #[trigger] shown[t] == kept[q[t]] by {
        assert(shown[t] == all_rows[jx[t]]);
        assert(all_rows[jx[t]] == snapshot[p0[jx[t]]]);
        assert(kept[q[t]] == snapshot[ix[q[t]]]);
    }
    assert forall|a: int, b: int| 0 <= a < b < shown.len() implies ranks_before(
        s,
        kept,
        q[a],
        q[b],
    ) by {
        assert(jx[a] < jx[b]);
        assert(ranks_before(s, snapshot, p0[jx[a]], p0[jx[b]]));
        assert(kept[q[a]] == snapshot[p0[jx[a]]] && kept[q[b]] == snapshot[p0[jx[b]]]);
        if q[b] < q[a] {
            assert(ix[q[b]] < ix[q[a]]);
        }
    }
    assert(sorted_by(s, kept, shown, q));
    lemma_stable_sort_unique(s, kept, rows, shown);
}

} // verus!
