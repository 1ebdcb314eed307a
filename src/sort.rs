use vstd::prelude::*;
use crate::process::{has_pid, text_or_empty, Proc};
use crate::text::{compare_chars, compare_text, lemma_compare_chars_range, lemma_compare_chars_transitive};

verus! {

/// The orders the process table can be shown in, in the order `next` cycles
/// through them.
#[derive(Clone, Copy, Debug, PartialEq, Eq, Structural)]
pub enum ProcessSortStrategy {
    User,
    Pid,
    Ppid,
    CpuUsage,
    Alphabetical,
    Memory,
}

/// The accent the table header takes under each strategy.
#[derive(Clone, Copy, Debug, PartialEq, Eq, Structural)]
pub enum AccentColor {
    Cyan,
    Magenta,
    Yellow,
    Green,
    LightRed,
    LightMagenta,
}

/// The number of strategies in the cycle.
pub const STRATEGY_COUNT: usize = 6;

/// The position of a strategy in the cycle.
pub open spec fn position(s: ProcessSortStrategy) -> int {
    match s {
        ProcessSortStrategy::User => 0,
        ProcessSortStrategy::Pid => 1,
        ProcessSortStrategy::Ppid => 2,
        ProcessSortStrategy::CpuUsage => 3,
        ProcessSortStrategy::Alphabetical => 4,
        ProcessSortStrategy::Memory => 5,
    }
}

/// The strategy `k` steps further along the cycle.
pub open spec fn advanced(s: ProcessSortStrategy, k: nat) -> ProcessSortStrategy
    decreases k,
{
    if k == 0 {
        s
    } else {
        advanced(s, (k - 1) as nat).spec_next()
    }
}

impl ProcessSortStrategy {
    pub open spec fn spec_next(self) -> ProcessSortStrategy {
        match self {
            ProcessSortStrategy::User => ProcessSortStrategy::Pid,
            ProcessSortStrategy::Pid => ProcessSortStrategy::Ppid,
            ProcessSortStrategy::Ppid => ProcessSortStrategy::CpuUsage,
            ProcessSortStrategy::CpuUsage => ProcessSortStrategy::Alphabetical,
            ProcessSortStrategy::Alphabetical => ProcessSortStrategy::Memory,
            ProcessSortStrategy::Memory => ProcessSortStrategy::User,
        }
    }

    /// The strategy that follows this one in the cycle; the last wraps to
    /// the first.
    #[verifier::when_used_as_spec(spec_next)]
    pub fn next(self) -> (r: ProcessSortStrategy)
        ensures
            r == self.spec_next(),
            position(r) == (position(self) + 1) % (STRATEGY_COUNT as int),
    {
        match self {
            ProcessSortStrategy::User => ProcessSortStrategy::Pid,
            ProcessSortStrategy::Pid => ProcessSortStrategy::Ppid,
            ProcessSortStrategy::Ppid => ProcessSortStrategy::CpuUsage,
            ProcessSortStrategy::CpuUsage => ProcessSortStrategy::Alphabetical,
            ProcessSortStrategy::Alphabetical => ProcessSortStrategy::Memory,
            ProcessSortStrategy::Memory => ProcessSortStrategy::User,
        }
    }

    pub open spec fn spec_label(self) -> &'static str {
        match self {
            ProcessSortStrategy::User => "user",
            ProcessSortStrategy::Pid => "pid",
            ProcessSortStrategy::Ppid => "ppid",
            ProcessSortStrategy::CpuUsage => "cpu usage",
            ProcessSortStrategy::Alphabetical => "name",
            ProcessSortStrategy::Memory => "memory",
        }
    }

    /// The name shown for the strategy.
    pub fn label(&self) -> (r: &'static str)
        ensures
            r == self.spec_label(),
    {
        match self {
            ProcessSortStrategy::User => "user",
            ProcessSortStrategy::Pid => "pid",
            ProcessSortStrategy::Ppid => "ppid",
            ProcessSortStrategy::CpuUsage => "cpu usage",
            ProcessSortStrategy::Alphabetical => "name",
            ProcessSortStrategy::Memory => "memory",
        }
    }

    /// The accent shown with the strategy.
    pub fn get_color(&self) -> (r: AccentColor)
        ensures
            r == match self {
                ProcessSortStrategy::User => AccentColor::Cyan,
                ProcessSortStrategy::Pid => AccentColor::Magenta,
                ProcessSortStrategy::Ppid => AccentColor::Yellow,
                ProcessSortStrategy::CpuUsage => AccentColor::Green,
                ProcessSortStrategy::Alphabetical => AccentColor::LightRed,
                ProcessSortStrategy::Memory => AccentColor::LightMagenta,
            },
    {
        match self {
            ProcessSortStrategy::User => AccentColor::Cyan,
            ProcessSortStrategy::Pid => AccentColor::Magenta,
            ProcessSortStrategy::Ppid => AccentColor::Yellow,
            ProcessSortStrategy::CpuUsage => AccentColor::Green,
            ProcessSortStrategy::Alphabetical => AccentColor::LightRed,
            ProcessSortStrategy::Memory => AccentColor::LightMagenta,
        }
    }
}

proof fn lemma_advanced_position(s: ProcessSortStrategy, k: nat)
    ensures
        position(advanced(s, k)) == (position(s) + k) % (STRATEGY_COUNT as int),
    decreases k,
{
    if k > 0 {
        lemma_advanced_position(s, (k - 1) as nat);
    }
}

proof fn lemma_position_injective(a: ProcessSortStrategy, b: ProcessSortStrategy)
    requires
        position(a) == position(b),
    ensures
        a == b,
{
}

/// Advancing the strategy as many times as there are strategies comes back
/// to where it started, and the strategies passed on the way are all
/// different.
pub proof fn lemma_cycle_returns(s: ProcessSortStrategy)
    ensures
        advanced(s, STRATEGY_COUNT as nat) == s,
        forall|i: nat, j: nat|
            i < j < STRATEGY_COUNT ==> #[trigger] advanced(s, i) != #[trigger] advanced(s, j),
{
    lemma_advanced_position(s, STRATEGY_COUNT as nat);
    lemma_position_injective(advanced(s, STRATEGY_COUNT as nat), s);
    assert forall|i: nat, j: nat| i < j < STRATEGY_COUNT implies #[trigger] advanced(s, i)
        != #[trigger] advanced(s, j) by {
        lemma_advanced_position(s, i);
        lemma_advanced_position(s, j);
    }
}

/// Three-way comparison of two integers.
pub open spec fn compare_int(a: int, b: int) -> int {
    if a < b {
        -1
    } else if a > b {
        1
    } else {
        0
    }
}

/// The parent pid as a sort key: an absent parent sorts below every pid.
pub open spec fn ppid_key(p: Proc) -> int {
    match p.ppid {
        Some(x) => x as int,
        None => -1,
    }
}

/// The CPU share as a sort key: a reading that is not a number sorts below
/// every share.
pub open spec fn cpu_key(p: Proc) -> int {
    match p.cpu_usage {
        Some(x) => x as int,
        None => -1,
    }
}

/// How `a` compares with `b` under the strategy: negative when `a` is shown
/// first, zero on a tie. CPU usage and memory are shown highest first, the
/// other keys lowest first.
pub open spec fn compare_procs(s: ProcessSortStrategy, a: Proc, b: Proc) -> int {
    match s {
        ProcessSortStrategy::User => compare_chars(text_or_empty(a.user), text_or_empty(b.user)),
        ProcessSortStrategy::Pid => compare_int(a.pid as int, b.pid as int),
        ProcessSortStrategy::Ppid => compare_int(ppid_key(a), ppid_key(b)),
        ProcessSortStrategy::CpuUsage => compare_int(cpu_key(b), cpu_key(a)),
        ProcessSortStrategy::Alphabetical => compare_chars(
            text_or_empty(a.name),
            text_or_empty(b.name),
        ),
        ProcessSortStrategy::Memory => compare_int(b.memory as int, a.memory as int),
    }
}

pub proof fn lemma_compare_procs(s: ProcessSortStrategy, a: Proc, b: Proc)
    ensures
        -1 <= compare_procs(s, a, b) <= 1,
        compare_procs(s, a, b) == -compare_procs(s, b, a),
{
    lemma_compare_chars_range(text_or_empty(a.user), text_or_empty(b.user));
    lemma_compare_chars_range(text_or_empty(a.name), text_or_empty(b.name));
}

pub proof fn lemma_compare_procs_transitive(s: ProcessSortStrategy, a: Proc, b: Proc, c: Proc)
    requires
        compare_procs(s, a, b) <= 0,
        compare_procs(s, b, c) <= 0,
    ensures
        compare_procs(s, a, c) <= 0,
        compare_procs(s, a, b) < 0 || compare_procs(s, b, c) < 0 ==> compare_procs(s, a, c) < 0,
{
    let (ua, ub, uc) = (text_or_empty(a.user), text_or_empty(b.user), text_or_empty(c.user));
    let (na, nb, nc) = (text_or_empty(a.name), text_or_empty(b.name), text_or_empty(c.name));
    lemma_compare_chars_range(ua, ub);
    lemma_compare_chars_range(ub, uc);
    lemma_compare_chars_range(ua, uc);
    lemma_compare_chars_range(na, nb);
    lemma_compare_chars_range(nb, nc);
    lemma_compare_chars_range(na, nc);
    if compare_chars(ua, ub) < 0 && compare_chars(ub, uc) < 0 {
        lemma_compare_chars_transitive(ua, ub, uc);
    }
    if compare_chars(na, nb) < 0 && compare_chars(nb, nc) < 0 {
        lemma_compare_chars_transitive(na, nb, nc);
    }
}

fn compare_opt_int(a: Option<u32>, b: Option<u32>) -> (r: i8)
    ensures
        r as int == compare_int(
            match a {
                Some(x) => x as int,
                None => -1,
            },
            match b {
                Some(x) => x as int,
                None => -1,
            },
        ),
{
    match (a, b) {
        (None, None) => 0,
        (None, Some(_)) => -1,
        (Some(_), None) => 1,
        (Some(x), Some(y)) => if x < y {
            -1
        } else if x > y {
            1
        } else {
            0
        },
    }
}

fn compare_u64(a: u64, b: u64) -> (r: i8)
    ensures
        r as int == compare_int(a as int, b as int),
{
    if a < b {
        -1
    } else if a > b {
        1
    } else {
        0
    }
}

/// Compares two processes under the strategy.
pub fn compare(s: ProcessSortStrategy, a: &Proc, b: &Proc) -> (r: i8)
    ensures
        r as int == compare_procs(s, *a, *b),
{
    match s {
        ProcessSortStrategy::User => compare_text(a.user_or_empty(), b.user_or_empty()),
        ProcessSortStrategy::Pid => compare_u64(a.pid as u64, b.pid as u64),
        ProcessSortStrategy::Ppid => compare_opt_int(a.ppid, b.ppid),
        ProcessSortStrategy::CpuUsage => compare_opt_int(b.cpu_usage, a.cpu_usage),
        ProcessSortStrategy::Alphabetical => compare_text(a.name_or_empty(), b.name_or_empty()),
        ProcessSortStrategy::Memory => compare_u64(b.memory, a.memory),
    }
}

/// Whether the process at index `i` of `ps` is shown before the one at `j`:
/// it compares lower, or ties and came first in `ps`.
pub open spec fn ranks_before(s: ProcessSortStrategy, ps: Seq<Proc>, i: int, j: int) -> bool {
    compare_procs(s, ps[i], ps[j]) < 0 || (compare_procs(s, ps[i], ps[j]) == 0 && i < j)
}

/// Whether `perm` lists each index below `n` exactly once.
pub open spec fn is_permutation(perm: Seq<int>, n: int) -> bool {
    &&& perm.len() == n
    &&& forall|k: int| 0 <= k < n ==> 0 <= #[trigger] perm[k] < n
    &&& forall|a: int, b: int| 0 <= a < b < n ==> perm[a] != perm[b]
    &&& forall|i: int| 0 <= i < n ==> #[trigger] lists(perm, i)
}

/// Whether `i` stands somewhere in `perm`.
pub open spec fn lists(perm: Seq<int>, i: int) -> bool {
    exists|k: int| 0 <= k < perm.len() && perm[k] == i
}

/// Whether `output` lists `input[perm[0]]`, `input[perm[1]]`, ..., each
/// index once, in the order of the strategy with ties in the order of `input`.
pub open spec fn sorted_by(
    s: ProcessSortStrategy,
    input: Seq<Proc>,
    output: Seq<Proc>,
    perm: Seq<int>,
) -> bool {
    &&& is_permutation(perm, input.len() as int)
    &&& output.len() == input.len()
    &&& forall|k: int| 0 <= k < output.len() ==> #[trigger] output[k] == input[perm[k]]
    &&& forall|a: int, b: int|
        0 <= a < b < output.len() ==> ranks_before(s, input, perm[a], perm[b])
}

/// Whether `output` is `input` reordered by the strategy, ties kept in the
/// order of `input`.
pub open spec fn stable_sorted(s: ProcessSortStrategy, input: Seq<Proc>, output: Seq<Proc>) -> bool {
    exists|perm: Seq<int>| sorted_by(s, input, output, perm)
}

/// Sorting neither adds nor drops a process: a pid stands in the sorted
/// list exactly when it stands in the input.
pub proof fn lemma_sorted_same_pids(
    s: ProcessSortStrategy,
    input: Seq<Proc>,
    output: Seq<Proc>,
    pid: u32,
)
    requires
        stable_sorted(s, input, output),
    ensures
        has_pid(output, pid) <==> has_pid(input, pid),
{
    let perm = choose|perm: Seq<int>| sorted_by(s, input, output, perm);
    if has_pid(output, pid) {
        let k = choose|k: int| 0 <= k < output.len() && output[k].pid == pid;
        assert(input[perm[k]].pid == pid);
    }
    if has_pid(input, pid) {
        let i = choose|i: int| 0 <= i < input.len() && input[i].pid == pid;
        assert(lists(perm, i));
        let k = choose|k: int| 0 <= k < perm.len() && perm[k] == i;
        assert(output[k].pid == pid);
    }
}

proof fn lemma_ranks_asymmetric(s: ProcessSortStrategy, input: Seq<Proc>, a: int, b: int)
    requires
        ranks_before(s, input, a, b),
    ensures
        !ranks_before(s, input, b, a),
{
    lemma_compare_procs(s, input[a], input[b]);
}

proof fn lemma_prefix_agrees(
    s: ProcessSortStrategy,
    input: Seq<Proc>,
    out1: Seq<Proc>,
    out2: Seq<Proc>,
    p1: Seq<int>,
    p2: Seq<int>,
    k: int,
)
    requires
        sorted_by(s, input, out1, p1),
        sorted_by(s, input, out2, p2),
        0 <= k <= input.len(),
    ensures
        forall|m: int| 0 <= m < k ==> p1[m] == p2[m],
    decreases k,
{
    if k > 0 {
        lemma_prefix_agrees(s, input, out1, out2, p1, p2, k - 1);
        let m = k - 1;
        let a = p1[m];
        let b = p2[m];
        if a != b {
            assert(0 <= a < input.len() && 0 <= b < input.len());
            assert(lists(p2, a));
            let m2 = choose|x: int| 0 <= x < p2.len() && p2[x] == a;
            assert(lists(p1, b));
            let m1 = choose|x: int| 0 <= x < p1.len() && p1[x] == b;
            if m2 < m {
                assert(p1[m2] == p2[m2]);
            }
            if m1 < m {
                assert(p1[m1] == p2[m1]);
            }
            assert(m < m2 && m < m1);
            assert(ranks_before(s, input, p2[m], p2[m2]));
            assert(ranks_before(s, input, p1[m], p1[m1]));
            lemma_ranks_asymmetric(s, input, a, b);
        }
    }
}

/// A stable sort has one outcome: two lists that are both `input` sorted
/// by the strategy with ties in input order are the same list.
pub proof fn lemma_stable_sort_unique(
    s: ProcessSortStrategy,
    input: Seq<Proc>,
    out1: Seq<Proc>,
    out2: Seq<Proc>,
)
    requires
        stable_sorted(s, input, out1),
        stable_sorted(s, input, out2),
    ensures
        out1 == out2,
{
    let p1 = choose|perm: Seq<int>| sorted_by(s, input, out1, perm);
    let p2 = choose|perm: Seq<int>| sorted_by(s, input, out2, perm);
    lemma_prefix_agrees(s, input, out1, out2, p1, p2, input.len() as int);
    assert forall|k: int| 0 <= k < out1.len() implies out1[k] == out2[k] by {
        assert(p1[k] == p2[k]);
    }
    assert(out1 =~= out2);
}

spec fn as_ints(v: Seq<usize>) -> Seq<int> {
    v.map(|k: int, i: usize| i as int)
}

/// Sorts processes by the strategy; processes that tie keep their order.
pub fn sort_procs(s: ProcessSortStrategy, ps: &Vec<Proc>) -> (r: Vec<Proc>)
    ensures
        stable_sorted(s, ps@, r@),
{
    let n = ps.len();
    let mut order: Vec<usize> = Vec::new();
    let mut j: usize = 0;
    while j < n
        invariant
            n == ps@.len(),
            j <= n,
            order@.len() == j,
            forall|k: int| 0 <= k < j ==> #[trigger] order@[k] < j,
            forall|a: int, b: int| 0 <= a < b < j ==> order@[a] != order@[b],
            forall|a: int, b: int|
                0 <= a < b < j ==> ranks_before(s, ps@, order@[a] as int, order@[b] as int),
            forall|i: int| 0 <= i < j ==> #[trigger] lists(as_ints(order@), i),
        decreases n - j,
    {
        let mut lo: usize = 0;
        let mut hi: usize = j;
        while lo < hi
            invariant
                n == ps@.len(),
                j < n,
                order@.len() == j,
                0 <= lo <= hi <= j,
                forall|k: int| 0 <= k < j ==> #[trigger] order@[k] < j,
                forall|a: int, b: int|
                    0 <= a < b < j ==> ranks_before(s, ps@, order@[a] as int, order@[b] as int),
                forall|m: int|
                    0 <= m < lo ==> compare_procs(s, ps@[#[trigger] order@[m] as int], ps@[j as int]) <= 0,
                forall|m: int|
                    hi <= m < j ==> compare_procs(s, ps@[j as int], ps@[#[trigger] order@[m] as int]) < 0,
            decreases hi - lo,
        {
            let mid = lo + (hi - lo) / 2;
            let c = compare(s, &ps[j], &ps[order[mid]]);
            let ghost pm = ps@[order@[mid as int] as int];
            if c < 0 {
                assert forall|m: int| mid <= m < j implies compare_procs(
                    s,
                    ps@[j as int],
                    ps@[#[trigger] order@[m] as int],
                ) < 0 by {
                    if mid < m && m < hi {
                        let pmm = ps@[order@[m] as int];
                        assert(ranks_before(s, ps@, order@[mid as int] as int, order@[m] as int));
                        lemma_compare_procs_transitive(s, ps@[j as int], pm, pmm);
                    }
                }
                hi = mid;
            } else {
                proof {
                    lemma_compare_procs(s, ps@[j as int], pm);
                }
                assert forall|m: int| 0 <= m < mid + 1 implies compare_procs(
                    s,
                    ps@[#[trigger] order@[m] as int],
                    ps@[j as int],
                ) <= 0 by {
                    if lo <= m && m < mid {
                        let pmm = ps@[order@[m] as int];
                        assert(ranks_before(s, ps@, order@[m] as int, order@[mid as int] as int));
                        lemma_compare_procs_transitive(s, pmm, pm, ps@[j as int]);
                    }
                }
                lo = mid + 1;
            }
        }
        let ghost old_order = order@;
        order.insert(lo, j);
        proof {
            old_order.insert_ensures(lo as int, j);
            assert forall|a: int, b: int| 0 <= a < b < j + 1 implies ranks_before(
                s,
                ps@,
                order@[a] as int,
                order@[b] as int,
            ) by {
                if b < lo {
                    assert(ranks_before(s, ps@, old_order[a] as int, old_order[b] as int));
                } else if b == lo {
                    lemma_compare_procs(s, ps@[old_order[a] as int], ps@[j as int]);
                } else if a == lo {
                    assert(compare_procs(s, ps@[j as int], ps@[old_order[b - 1] as int]) < 0);
                } else if a < lo {
                    assert(ranks_before(s, ps@, old_order[a] as int, old_order[b - 1] as int));
                } else {
                    assert(ranks_before(s, ps@, old_order[a - 1] as int, old_order[b - 1] as int));
                }
            }
        }
        proof {
            assert forall|i: int| 0 <= i < j + 1 implies #[trigger] lists(as_ints(order@), i) by {
                if i == j {
                    assert(as_ints(order@)[lo as int] == i);
                } else {
                    assert(lists(as_ints(old_order), i));
                    let k = choose|k: int| 0 <= k < old_order.len() && as_ints(old_order)[k] == i;
                    if k < lo {
                        assert(as_ints(order@)[k] == i);
                    } else {
                        assert(as_ints(order@)[k + 1] == i);
                    }
                }
            }
        }
        j = j + 1;
    }
    let mut r: Vec<Proc> = Vec::new();
    let mut k: usize = 0;
    while k < n
        invariant
            n == ps@.len(),
            order@.len() == n,
            forall|i: int| 0 <= i < n ==> #[trigger] order@[i] < n,
            forall|a: int, b: int| 0 <= a < b < n ==> order@[a] != order@[b],
            forall|i: int| 0 <= i < n ==> #[trigger] lists(as_ints(order@), i),
            k <= n,
            r@.len() == k,
            forall|i: int| 0 <= i < k ==> #[trigger] r@[i] == ps@[order@[i] as int],
        decreases n - k,
    {
        r.push(ps[order[k]].clone());
        k = k + 1;
    }
    proof {
        let perm = as_ints(order@);
        assert(is_permutation(perm, n as int));
        assert forall|k: int| 0 <= k < r@.len() implies #[trigger] r@[k] == ps@[perm[k]] by {}
        assert forall|a: int, b: int| 0 <= a < b < r@.len() implies ranks_before(
            s,
            ps@,
            perm[a],
            perm[b],
        ) by {}
        assert(sorted_by(s, ps@, r@, perm));
    }
    r
}

} // verus!
