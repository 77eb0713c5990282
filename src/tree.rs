//! Call tree of one transaction: top-level instructions and the inner
//! instructions that cross-program invocations produced, laid out in an arena
//! in execution order with parent and top-ancestor links.
use vstd::prelude::*;

verus! {

/// One instruction as the runtime recorded it.
pub struct RawInstruction {
    pub program_id: String,
    pub accounts: Vec<String>,
    pub data: Vec<u8>,
}

/// An instruction issued by program code, with the call depth the runtime
/// reported for it (1 is top level), when it reported one.
pub struct InnerInstruction {
    pub instruction: RawInstruction,
    pub stack_height: Option<u32>,
}

/// The inner instructions issued while the top-level instruction at `index` ran.
pub struct InnerTrace {
    pub index: u32,
    pub instructions: Vec<InnerInstruction>,
}

/// Where an arena node comes from: a top-level instruction, or position `j`
/// of trace `t`.
#[derive(Clone, Copy, PartialEq, Eq, Structural, Debug)]
pub enum Origin {
    Top(usize),
    Inner(usize, usize),
}

/// A node of the arena.
#[derive(Clone, Copy, PartialEq, Eq, Structural, Debug)]
pub struct IndexedInstruction {
    pub index: usize,
    pub parent: Option<usize>,
    pub top: usize,
    pub depth: u32,
    pub origin: Origin,
}

/// Why a transaction's instruction trace cannot be laid out as a tree.
#[derive(Clone, Copy, PartialEq, Eq, Structural, Debug)]
pub enum StructuralError {
    /// Trace `trace` names a top-level instruction that does not exist.
    TraceOutOfRange { trace: usize, index: u32 },
    /// Position `position` of trace `trace` sits at a depth that no open
    /// instruction can have issued.
    BadNesting { trace: usize, position: usize },
}

pub struct InstructionTree {
    pub nodes: Vec<IndexedInstruction>,
    /// Set when some inner instruction came without a depth and was attached
    /// to its top-level instruction.
    pub shallow: bool,
}

/// Depth of an inner instruction; without metadata it hangs off its top-level
/// instruction.
pub open spec fn depth_of(h: Option<u32>) -> int {
    match h {
        Some(d) => d as int,
        None => 2,
    }
}

pub open spec fn origin_depth(inner: Seq<InnerTrace>, o: Origin) -> int {
    match o {
        Origin::Top(_) => 1,
        Origin::Inner(t, j) => depth_of(inner[t as int].instructions@[j as int].stack_height),
    }
}

/// The origins that trace `t` contributes to the group of top-level instruction `i`.
pub open spec fn trace_part(inner: Seq<InnerTrace>, i: int, t: int) -> Seq<Origin> {
    if inner[t].index as int == i {
        Seq::new(inner[t].instructions@.len(), |j: int| Origin::Inner(t as usize, j as usize))
    } else {
        Seq::empty()
    }
}

pub open spec fn group_upto(inner: Seq<InnerTrace>, i: int, t: nat) -> Seq<Origin>
    decreases t,
{
    if t == 0 {
        Seq::empty()
    } else {
        group_upto(inner, i, (t - 1) as nat) + trace_part(inner, i, t - 1)
    }
}

/// Inner instructions of top-level instruction `i`, in trace order.
pub open spec fn group(inner: Seq<InnerTrace>, i: int) -> Seq<Origin> {
    group_upto(inner, i, inner.len())
}

/// Execution order: each top-level instruction, then its inner instructions.
pub open spec fn preorder(inner: Seq<InnerTrace>, n: nat) -> Seq<Origin>
    decreases n,
{
    if n == 0 {
        Seq::empty()
    } else {
        preorder(inner, (n - 1) as nat).push(Origin::Top((n - 1) as usize)) + group(inner, n - 1)
    }
}

/// Each inner instruction sits at most one level below the one before it,
/// and below top level.
pub open spec fn nesting_ok(inner: Seq<InnerTrace>, g: Seq<Origin>) -> bool {
    forall|j: int|
        0 <= j < g.len() ==> 2 <= #[trigger] origin_depth(inner, g[j]) <= (if j == 0 {
            1
        } else {
            origin_depth(inner, g[j - 1])
        }) + 1
}

pub open spec fn traces_in_range(inner: Seq<InnerTrace>, n: nat) -> bool {
    forall|t: int| 0 <= t < inner.len() ==> (#[trigger] inner[t]).index < n
}

pub open spec fn well_nested(inner: Seq<InnerTrace>, n: nat) -> bool {
    forall|i: int| 0 <= i < n ==> nesting_ok(inner, #[trigger] group(inner, i))
}

pub open spec fn origins(s: Seq<IndexedInstruction>) -> Seq<Origin> {
    s.map_values(|x: IndexedInstruction| x.origin)
}

/// Parent and top-ancestor links of an arena: indices are positions, a
/// parent precedes its child one level up and is the latest node at that
/// level before it, and the top ancestor is shared along parent links.
#[verifier::opaque]
pub open spec fn links_wf(s: Seq<IndexedInstruction>) -> bool {
    &&& forall|k: int| 0 <= k < s.len() ==> (#[trigger] s[k]).index == k
    &&& forall|k: int|
        0 <= k < s.len() && (#[trigger] s[k]).parent.is_none() ==> s[k].top == k && s[k].depth
            == 1
    &&& forall|k: int|
        #![trigger s[k]]
        0 <= k < s.len() && s[k].parent.is_some() ==> {
            let p = s[k].parent.unwrap() as int;
            &&& p < k
            &&& s[p].top == s[k].top
            &&& s[p].depth + 1 == s[k].depth
            &&& forall|m: int| p < m < k ==> (#[trigger] s[m]).depth != s[p].depth
        }
}

/// The arena describes `inner` under `n` top-level instructions.
pub open spec fn describes(s: Seq<IndexedInstruction>, inner: Seq<InnerTrace>, n: nat) -> bool {
    &&& origins(s) == preorder(inner, n)
    &&& forall|k: int|
        0 <= k < s.len() ==> (#[trigger] s[k]).depth == origin_depth(inner, s[k].origin)
    &&& forall|k: int|
        0 <= k < s.len() ==> ((#[trigger] s[k]).parent.is_none() <==> s[k].origin is Top)
}

pub open spec fn any_shallow(inner: Seq<InnerTrace>, s: Seq<IndexedInstruction>) -> bool {
    exists|k: int|
        0 <= k < s.len() && (#[trigger] s[k]).origin is Inner && inner[s[k].origin->Inner_0 as int].instructions@[s[k].origin->Inner_1 as int].stack_height is None
}


proof fn lemma_origins_push(s: Seq<IndexedInstruction>, x: IndexedInstruction)
    ensures
        origins(s.push(x)) == origins(s).push(x.origin),
{
    assert(origins(s.push(x)) =~= origins(s).push(x.origin));
}

proof fn lemma_group_upto_prefix(inner: Seq<InnerTrace>, i: int, t1: nat, t2: nat)
    requires
        t1 <= t2,
    ensures
        group_upto(inner, i, t1).len() <= group_upto(inner, i, t2).len(),
        group_upto(inner, i, t2).take(group_upto(inner, i, t1).len() as int) == group_upto(
            inner,
            i,
            t1,
        ),
    decreases t2,
{
    if t1 < t2 {
        lemma_group_upto_prefix(inner, i, t1, (t2 - 1) as nat);
        let a = group_upto(inner, i, (t2 - 1) as nat);
        let b = trace_part(inner, i, t2 - 1);
        let g1 = group_upto(inner, i, t1);
        assert((a + b).take(g1.len() as int) =~= a.take(g1.len() as int));
    } else {
        assert(group_upto(inner, i, t2).take(group_upto(inner, i, t2).len() as int) =~= group_upto(
            inner,
            i,
            t2,
        ));
    }
}


/// The stack of open instructions of the group that starts at `start`:
/// entry `d` is the latest node at depth `d + 1`, and the stack is as deep
/// as the last node.
#[verifier::opaque]
pub open spec fn open_ok(s: Seq<IndexedInstruction>, open: Seq<usize>, start: int) -> bool {
    &&& 0 <= start < s.len()
    &&& open.len() >= 1
    &&& open[0] == start
    &&& open.len() == s[s.len() - 1].depth
    &&& forall|k: int| start <= k < s.len() ==> (#[trigger] s[k]).top == start
    &&& forall|d: int|
        #![trigger open[d]]
        0 <= d < open.len() ==> {
            &&& start <= open[d] < s.len()
            &&& s[open[d] as int].depth == d + 1
            &&& forall|m: int| open[d] < m < s.len() ==> (#[trigger] s[m]).depth != d + 1
        }
}

fn push_inner(
    nodes: &mut Vec<IndexedInstruction>,
    open: &mut Vec<usize>,
    start: usize,
    depth: u32,
    origin: Origin,
)
    requires
        links_wf(old(nodes)@),
        open_ok(old(nodes)@, old(open)@, start as int),
        2 <= depth <= old(open)@.len() + 1,
    ensures
        final(nodes)@ == old(nodes)@.push(
            IndexedInstruction {
                index: old(nodes)@.len() as usize,
                parent: Some(old(open)@[depth - 2]),
                top: start,
                depth,
                origin,
            },
        ),
        links_wf(final(nodes)@),
        open_ok(final(nodes)@, final(open)@, start as int),
{
    reveal(links_wf);
    reveal(open_ok);
    let ghost before = nodes@;
    let k = nodes.len();
    let p = open[depth as usize - 2];
    let ghost old_open = open@;
    open.truncate(depth as usize - 1);
    let node = IndexedInstruction { index: k, parent: Some(p), top: start, depth, origin };
    nodes.push(node);
    open.push(k);
    proof {
        assert forall|m: int| 0 <= m < nodes@.len() && nodes@[m].parent.is_some() implies {
            let pp = nodes@[m].parent.unwrap() as int;
            &&& pp < m
            &&& nodes@[pp].top == nodes@[m].top
            &&& nodes@[pp].depth + 1 == nodes@[m].depth
            &&& forall|x: int| pp < x < m ==> (#[trigger] nodes@[x]).depth != nodes@[pp].depth
        } by {
            if m < k {
                assert(nodes@[m] == before[m]);
                let pp = nodes@[m].parent.unwrap() as int;
                assert(nodes@[pp] == before[pp]);
                assert forall|x: int| pp < x < m implies (#[trigger] nodes@[x]).depth
                    != nodes@[pp].depth by {
                    assert(nodes@[x] == before[x]);
                }
            } else {
                assert(old_open[(depth - 2) as int] == p);
                assert forall|x: int| p < x < m implies (#[trigger] nodes@[x]).depth
                    != nodes@[p as int].depth by {
                    assert(nodes@[x] == before[x]);
                }
            }
        }
        assert forall|m: int| 0 <= m < nodes@.len() && (#[trigger] nodes@[m]).parent.is_none() implies nodes@[m].top == m && nodes@[m].depth == 1 by {
            assert(nodes@[m] == before[m]);
        }
        assert forall|m: int| 0 <= m < nodes@.len() implies (#[trigger] nodes@[m]).index == m by {
            if m < k {
                assert(nodes@[m] == before[m]);
            }
        }
        assert forall|m: int| start <= m < nodes@.len() implies (#[trigger] nodes@[m]).top == start by {
            if m < k {
                assert(nodes@[m] == before[m]);
            }
        }
        assert forall|d: int| 0 <= d < open@.len() implies {
            &&& start <= #[trigger] open@[d] < nodes@.len()
            &&& nodes@[open@[d] as int].depth == d + 1
            &&& forall|m: int| open@[d] < m < nodes@.len() ==> (#[trigger] nodes@[m]).depth != d + 1
        } by {
            if d < depth - 1 {
                assert(open@[d] == old_open[d]);
                assert(nodes@[open@[d] as int] == before[open@[d] as int]);
                assert forall|m: int| open@[d] < m < nodes@.len() implies (#[trigger] nodes@[m]).depth
                    != d + 1 by {
                    if m < k {
                        assert(nodes@[m] == before[m]);
                    }
                }
            }
        }
    }
}


pub open spec fn prev_depth(inner: Seq<InnerTrace>, done: Seq<Origin>) -> int {
    if done.len() == 0 {
        1
    } else {
        origin_depth(inner, done[done.len() - 1])
    }
}

proof fn lemma_nesting_extend(inner: Seq<InnerTrace>, done: Seq<Origin>, o: Origin)
    requires
        nesting_ok(inner, done),
        2 <= origin_depth(inner, o) <= prev_depth(inner, done) + 1,
    ensures
        nesting_ok(inner, done.push(o)),
{
    let d2 = done.push(o);
    assert forall|q: int| 0 <= q < d2.len() implies 2 <= #[trigger] origin_depth(inner, d2[q]) <= (
    if q == 0 {
        1
    } else {
        origin_depth(inner, d2[q - 1])
    }) + 1 by {
        if q < done.len() {
            assert(d2[q] == done[q]);
            if q > 0 {
                assert(d2[q - 1] == done[q - 1]);
            }
        }
    }
}

proof fn lemma_bad_nesting(inner: Seq<InnerTrace>, i: int, t: int, j: int)
    requires
        0 <= t < inner.len(),
        inner[t].index == i,
        0 <= j < inner[t].instructions@.len(),
        !(2 <= origin_depth(inner, Origin::Inner(t as usize, j as usize)) <= prev_depth(
            inner,
            group_upto(inner, i, t as nat) + trace_part(inner, i, t).take(j),
        ) + 1),
    ensures
        !nesting_ok(inner, group(inner, i)),
{
    let part = trace_part(inner, i, t);
    let done = group_upto(inner, i, t as nat) + part.take(j);
    let g = group(inner, i);
    let d2 = done.push(Origin::Inner(t as usize, j as usize));
    lemma_group_upto_prefix(inner, i, (t + 1) as nat, inner.len());
    assert(group_upto(inner, i, (t + 1) as nat) == group_upto(inner, i, t as nat) + part);
    assert(part[j] == Origin::Inner(t as usize, j as usize));
    assert((group_upto(inner, i, t as nat) + part).take(d2.len() as int) =~= d2);
    assert(g.take(d2.len() as int) =~= d2);
    let q = done.len() as int;
    assert(g[q] == d2[q]);
    if q > 0 {
        assert(g[q - 1] == d2[q - 1]);
    }
}

/// Per-node facts that tie an arena to the traces it was built from.
#[verifier::opaque]
pub open spec fn node_facts(inner: Seq<InnerTrace>, s: Seq<IndexedInstruction>) -> bool {
    &&& forall|k: int|
        0 <= k < s.len() ==> (#[trigger] s[k]).depth == origin_depth(inner, s[k].origin)
    &&& forall|k: int|
        0 <= k < s.len() ==> ((#[trigger] s[k]).parent.is_none() <==> s[k].origin is Top)
}

pub open spec fn is_shallow_node(inner: Seq<InnerTrace>, x: IndexedInstruction) -> bool {
    x.origin is Inner && inner[x.origin->Inner_0 as int].instructions@[x.origin->Inner_1 as int].stack_height is None
}

proof fn lemma_push_facts(inner: Seq<InnerTrace>, s: Seq<IndexedInstruction>, x: IndexedInstruction)
    requires
        node_facts(inner, s),
        x.depth == origin_depth(inner, x.origin),
        x.parent.is_none() <==> x.origin is Top,
    ensures
        node_facts(inner, s.push(x)),
        any_shallow(inner, s.push(x)) == (any_shallow(inner, s) || is_shallow_node(inner, x)),
        origins(s.push(x)) == origins(s).push(x.origin),
{
    reveal(node_facts);
    let s2 = s.push(x);
    assert forall|k: int| 0 <= k < s2.len() implies (#[trigger] s2[k]).depth == origin_depth(inner, s2[k].origin) && (s2[k].parent.is_none() <==> s2[k].origin is Top) by {
        if k < s.len() {
            assert(s2[k] == s[k]);
        }
    }
    if any_shallow(inner, s) {
        let w = choose|w: int| 0 <= w < s.len() && (#[trigger] s[w]).origin is Inner && inner[s[w].origin->Inner_0 as int].instructions@[s[w].origin->Inner_1 as int].stack_height is None;
        assert(s2[w] == s[w]);
    }
    if is_shallow_node(inner, x) {
        assert(s2[s.len() as int] == x);
    }
    if any_shallow(inner, s2) {
        let w = choose|w: int| 0 <= w < s2.len() && (#[trigger] s2[w]).origin is Inner && inner[s2[w].origin->Inner_0 as int].instructions@[s2[w].origin->Inner_1 as int].stack_height is None;
        if w < s.len() {
            assert(s2[w] == s[w]);
        }
    }
    lemma_origins_push(s, x);
}


proof fn lemma_last_depth(
    inner: Seq<InnerTrace>,
    s: Seq<IndexedInstruction>,
    pre: Seq<Origin>,
    done: Seq<Origin>,
)
    requires
        origins(s) == pre + done,
        pre.len() >= 1,
        pre[pre.len() - 1] is Top,
        node_facts(inner, s),
    ensures
        s.len() >= 1,
        s[s.len() - 1].depth == prev_depth(inner, done),
{
    reveal(node_facts);
    assert(origins(s).len() == s.len());
    let k = s.len() - 1;
    assert(origins(s)[k] == s[k].origin);
    if done.len() > 0 {
        assert((pre + done)[k] == done[done.len() - 1]);
    } else {
        assert((pre + done)[k] == pre[pre.len() - 1]);
    }
}

proof fn lemma_origins_step(
    s: Seq<IndexedInstruction>,
    x: IndexedInstruction,
    pre: Seq<Origin>,
    done: Seq<Origin>,
    next: Seq<Origin>,
)
    requires
        origins(s) == pre + done,
        next == done.push(x.origin),
    ensures
        origins(s.push(x)) == pre + next,
{
    lemma_origins_push(s, x);
    assert(origins(s.push(x)) =~= pre + next);
}


proof fn lemma_open_len(s: Seq<IndexedInstruction>, open: Seq<usize>, start: int)
    requires
        open_ok(s, open, start),
    ensures
        s.len() >= 1,
        open.len() >= 1,
        open.len() == s[s.len() - 1].depth,
{
    reveal(open_ok);
}

/// Laying out the instructions of a transaction: top-level instruction `i`
/// comes right before the inner instructions of its traces, in trace order;
/// an inner instruction's parent is the latest node one level above it.
#[verifier::rlimit(40)]
pub fn build_tree(top_count: usize, inner: &Vec<InnerTrace>) -> (r: Result<
    InstructionTree,
    StructuralError,
>)
    ensures
        r is Ok ==> {
            let tree = r->Ok_0;
            &&& traces_in_range(inner@, top_count as nat)
            &&& well_nested(inner@, top_count as nat)
            &&& tree.wf()
            &&& describes(tree.nodes@, inner@, top_count as nat)
            &&& tree.shallow == any_shallow(inner@, tree.nodes@)
        },
        r matches Err(StructuralError::TraceOutOfRange { trace, index }) ==> {
            &&& trace < inner@.len()
            &&& inner@[trace as int].index == index
            &&& index >= top_count
        },
        r matches Err(StructuralError::BadNesting { trace, position }) ==> {
            &&& traces_in_range(inner@, top_count as nat)
            &&& !well_nested(inner@, top_count as nat)
            &&& trace < inner@.len()
            &&& position < inner@[trace as int].instructions@.len()
        },
{
    let mut t: usize = 0;
    while t < inner.len()
        invariant
            t <= inner@.len(),
            forall|u: int| 0 <= u < t ==> (#[trigger] inner@[u]).index < top_count,
        decreases inner@.len() - t,
    {
        let index = inner[t].index;
        if index as u64 >= top_count as u64 {
            return Err(StructuralError::TraceOutOfRange { trace: t, index });
        }
        t += 1;
    }
    let mut nodes: Vec<IndexedInstruction> = Vec::new();
    let mut shallow = false;
    let mut i: usize = 0;
    assert(origins(nodes@) =~= preorder(inner@, 0));
    proof {
        reveal(links_wf);
        reveal(node_facts);
    }
    while i < top_count
        invariant
            i <= top_count,
            traces_in_range(inner@, top_count as nat),
            links_wf(nodes@),
            origins(nodes@) == preorder(inner@, i as nat),
            node_facts(inner@, nodes@),
            shallow == any_shallow(inner@, nodes@),
            forall|u: int| 0 <= u < i ==> nesting_ok(inner@, #[trigger] group(inner@, u)),
        decreases top_count - i,
    {
        let start = nodes.len();
        let ghost before = nodes@;
        let top_node = IndexedInstruction {
            index: start,
            parent: None,
            top: start,
            depth: 1,
            origin: Origin::Top(i),
        };
        nodes.push(top_node);
        let mut open: Vec<usize> = Vec::new();
        open.push(start);
        proof {
            reveal(links_wf);
            reveal(open_ok);
            lemma_push_facts(inner@, before, top_node);
            assert(origins(nodes@) =~= preorder(inner@, i as nat).push(Origin::Top(i))
                + group_upto(inner@, i as int, 0));
            assert(nodes@[start as int] == top_node);
            assert forall|k: int| 0 <= k < nodes@.len() implies (#[trigger] nodes@[k]).index == k
                && (nodes@[k].parent.is_none() ==> nodes@[k].top == k && nodes@[k].depth == 1) by {
                if k < start {
                    assert(nodes@[k] == before[k]);
                }
            }
            assert forall|k: int| 0 <= k < nodes@.len() && nodes@[k].parent.is_some() implies {
                let pp = nodes@[k].parent.unwrap() as int;
                &&& pp < k
                &&& nodes@[pp].top == nodes@[k].top
                &&& nodes@[pp].depth + 1 == nodes@[k].depth
                &&& forall|x: int| pp < x < k ==> (#[trigger] nodes@[x]).depth != nodes@[pp].depth
            } by {
                assert(nodes@[k] == before[k]);
                let pp = nodes@[k].parent.unwrap() as int;
                assert(nodes@[pp] == before[pp]);
                assert forall|x: int| pp < x < k implies (#[trigger] nodes@[x]).depth
                    != nodes@[pp].depth by {
                    assert(nodes@[x] == before[x]);
                }
            }
            assert(origins(before).len() == before.len());
            assert(nesting_ok(inner@, group_upto(inner@, i as int, 0)));
        }
        let mut t: usize = 0;
        while t < inner.len()
            invariant
                i < top_count,
                t <= inner@.len(),
                traces_in_range(inner@, top_count as nat),
                links_wf(nodes@),
                origins(nodes@) == preorder(inner@, i as nat).push(Origin::Top(i)) + group_upto(
                    inner@,
                    i as int,
                    t as nat,
                ),
                preorder(inner@, i as nat).len() == start,
                nesting_ok(inner@, group_upto(inner@, i as int, t as nat)),
                node_facts(inner@, nodes@),
                shallow == any_shallow(inner@, nodes@),
                forall|u: int| 0 <= u < i ==> nesting_ok(inner@, #[trigger] group(inner@, u)),
                open_ok(nodes@, open@, start as int),
            decreases inner@.len() - t,
        {
            let ghost g_t = group_upto(inner@, i as int, t as nat);
            let ghost part = trace_part(inner@, i as int, t as int);
            let ghost pre = preorder(inner@, i as nat).push(Origin::Top(i));
            if inner[t].index as u64 == i as u64 {
                let trace = &inner[t];
                let mut j: usize = 0;
                assert(g_t + part.take(0) =~= g_t);
                while j < trace.instructions.len()
                    invariant
                        i < top_count,
                        t < inner@.len(),
                        trace == inner@[t as int],
                        trace.index == i,
                        j <= trace.instructions@.len(),
                        g_t == group_upto(inner@, i as int, t as nat),
                        part == trace_part(inner@, i as int, t as int),
                        pre == preorder(inner@, i as nat).push(Origin::Top(i)),
                        traces_in_range(inner@, top_count as nat),
                        links_wf(nodes@),
                        origins(nodes@) == pre + (g_t + part.take(j as int)),
                        pre.len() == start + 1,
                        nesting_ok(inner@, g_t + part.take(j as int)),
                        node_facts(inner@, nodes@),
                        shallow == any_shallow(inner@, nodes@),
                        open_ok(nodes@, open@, start as int),
                    decreases trace.instructions@.len() - j,
                {
                    let ghost done = g_t + part.take(j as int);
                    let ghost before = nodes@;
                    let depth: u32 = match trace.instructions[j].stack_height {
                        Some(d) => d,
                        None => {
                            shallow = true;
                            2
                        },
                    };
                    proof {
                        assert(part[j as int] == Origin::Inner(t, j));
                        assert(done.push(Origin::Inner(t, j)) =~= g_t + part.take(j + 1));
                        lemma_last_depth(inner@, before, pre, done);
                        lemma_open_len(before, open@, start as int);
                    }
                    if depth < 2 || depth as usize - 1 > open.len() {
                        proof {
                            assert(depth as int == origin_depth(inner@, Origin::Inner(t, j)));
                            lemma_bad_nesting(inner@, i as int, t as int, j as int);
                            assert(!well_nested(inner@, top_count as nat));
                        }
                        return Err(StructuralError::BadNesting { trace: t, position: j });
                    }
                    let k = nodes.len();
                    push_inner(&mut nodes, &mut open, start, depth, Origin::Inner(t, j));
                    proof {
                        let node = nodes@[k as int];
                        assert(nodes@ == before.push(node));
                        lemma_push_facts(inner@, before, node);
                        lemma_nesting_extend(inner@, done, Origin::Inner(t, j));
                        lemma_origins_step(before, node, pre, done, g_t + part.take(j + 1));
                    }
                    j += 1;
                }
                assert(part.take(j as int) =~= part);
            } else {
                assert(part =~= Seq::<Origin>::empty());
                assert(g_t + part =~= g_t);
            }
            proof {
                assert(group_upto(inner@, i as int, (t + 1) as nat) == g_t + part);
            }
            t += 1;
        }
        proof {
            assert(group(inner@, i as int) == group_upto(inner@, i as int, inner@.len()));
            assert(preorder(inner@, (i + 1) as nat) == preorder(inner@, i as nat).push(
                Origin::Top(i),
            ) + group(inner@, i as int));
            assert(origins(nodes@).len() == nodes@.len());
        }
        i += 1;
    }
    proof {
        reveal(node_facts);
    }
    Ok(InstructionTree { nodes, shallow })
}

impl InstructionTree {
    /// Parent and top-ancestor links are consistent.
    pub open spec fn wf(&self) -> bool {
        links_wf(self.nodes@)
    }

    /// Number of instructions in the tree.
    pub fn len(&self) -> (r: usize)
        ensures
            r == self.nodes@.len(),
    {
        self.nodes.len()
    }

    /// The node with sequence index `i`.
    pub fn get(&self, i: usize) -> (r: Option<IndexedInstruction>)
        ensures
            i < self.nodes@.len() ==> r == Some(self.nodes@[i as int]),
            i >= self.nodes@.len() ==> r.is_none(),
    {
        if i < self.nodes.len() {
            Some(self.nodes[i])
        } else {
            None
        }
    }
}



/// An origin that names an existing instruction.
pub open spec fn origin_valid(inner: Seq<InnerTrace>, n: nat, o: Origin) -> bool {
    match o {
        Origin::Top(i) => i < n,
        Origin::Inner(t, j) => t < inner.len() && j < inner[t as int].instructions@.len(),
    }
}

/// Trace counts and lengths fit in `usize`, as those of vectors do.
pub open spec fn sizes_fit(inner: Seq<InnerTrace>) -> bool {
    &&& inner.len() <= usize::MAX
    &&& forall|t: int| 0 <= t < inner.len() ==> (#[trigger] inner[t]).instructions@.len() <= usize::MAX
}

/// Establishes `sizes_fit` of a vector of traces.
pub fn sizes_fit_of(inner: &Vec<InnerTrace>)
    ensures
        sizes_fit(inner@),
{
    let mut t: usize = 0;
    while t < inner.len()
        invariant
            t <= inner@.len(),
            forall|u: int| 0 <= u < t ==> (#[trigger] inner@[u]).instructions@.len() <= usize::MAX,
        decreases inner@.len() - t,
    {
        let _ = inner[t].instructions.len();
        t += 1;
    }
}

proof fn lemma_group_upto_valid(inner: Seq<InnerTrace>, n: nat, i: int, t: nat)
    requires
        t <= inner.len(),
        sizes_fit(inner),
    ensures
        forall|q: int|
            0 <= q < group_upto(inner, i, t).len() ==> origin_valid(
                inner,
                n,
                #[trigger] group_upto(inner, i, t)[q],
            ),
    decreases t,
{
    if t > 0 {
        lemma_group_upto_valid(inner, n, i, (t - 1) as nat);
        let a = group_upto(inner, i, (t - 1) as nat);
        let b = trace_part(inner, i, t - 1);
        assert forall|q: int| 0 <= q < (a + b).len() implies origin_valid(inner, n, #[trigger] (a + b)[q]) by {
            if q >= a.len() {
                assert((a + b)[q] == b[q - a.len()]);
            } else {
                assert((a + b)[q] == a[q]);
            }
        }
    }
}

/// Every position of the execution order names an existing instruction.
pub proof fn lemma_preorder_valid(inner: Seq<InnerTrace>, n: nat, m: nat)
    requires
        m <= n,
        n <= usize::MAX,
        sizes_fit(inner),
    ensures
        forall|q: int|
            0 <= q < preorder(inner, m).len() ==> origin_valid(inner, n, #[trigger] preorder(inner, m)[q]),
    decreases m,
{
    if m > 0 {
        lemma_preorder_valid(inner, n, (m - 1) as nat);
        lemma_group_upto_valid(inner, n, m - 1, inner.len());
        let a = preorder(inner, (m - 1) as nat).push(Origin::Top((m - 1) as usize));
        let b = group(inner, m - 1);
        assert forall|q: int| 0 <= q < (a + b).len() implies origin_valid(inner, n, #[trigger] (a + b)[q]) by {
            if q >= a.len() {
                assert((a + b)[q] == b[q - a.len()]);
            } else {
                assert((a + b)[q] == a[q]);
                if q < a.len() - 1 {
                    assert(a[q] == preorder(inner, (m - 1) as nat)[q]);
                }
            }
        }
    }
}

/// The tree of a trace.
pub open spec fn canonical_tree(inner: Seq<InnerTrace>, n: nat) -> Seq<IndexedInstruction> {
    choose|s: Seq<IndexedInstruction>| links_wf(s) && describes(s, inner, n)
}

/// The links of a tree are determined by the traces it describes: two
/// well-formed arenas for the same traces are equal.
pub proof fn lemma_tree_unique(
    s1: Seq<IndexedInstruction>,
    s2: Seq<IndexedInstruction>,
    inner: Seq<InnerTrace>,
    n: nat,
)
    requires
        links_wf(s1),
        links_wf(s2),
        describes(s1, inner, n),
        describes(s2, inner, n),
    ensures
        s1 == s2,
{
    assert(origins(s1).len() == s1.len());
    assert(origins(s2).len() == s2.len());
    assert forall|k: int| 0 <= k < s1.len() implies s1[k] == s2[k] by {
        lemma_node_unique(s1, s2, inner, n, k);
    }
    assert(s1 =~= s2);
}

proof fn lemma_node_unique(
    s1: Seq<IndexedInstruction>,
    s2: Seq<IndexedInstruction>,
    inner: Seq<InnerTrace>,
    n: nat,
    k: int,
)
    requires
        links_wf(s1),
        links_wf(s2),
        describes(s1, inner, n),
        describes(s2, inner, n),
        s1.len() == s2.len(),
        0 <= k < s1.len(),
    ensures
        s1[k] == s2[k],
    decreases k,
{
    reveal(links_wf);
    assert(origins(s1)[k] == s1[k].origin);
    assert(origins(s2)[k] == s2[k].origin);
    let a = s1[k];
    let b = s2[k];
    if a.parent.is_some() {
        let p1 = a.parent.unwrap() as int;
        let p2 = b.parent.unwrap() as int;
        assert(origins(s1)[p1] == s1[p1].origin);
        assert(origins(s2)[p2] == s2[p2].origin);
        assert(origins(s1)[p2] == s1[p2].origin);
        assert(origins(s2)[p1] == s2[p1].origin);
        if p1 < p2 {
            assert(s1[p2].depth != s1[p1].depth);
        } else if p2 < p1 {
            assert(s2[p1].depth != s2[p2].depth);
        }
        lemma_node_unique(s1, s2, inner, n, p1);
    }
}


/// A node's top ancestor never comes after it.
pub proof fn lemma_top_bound(s: Seq<IndexedInstruction>, k: int)
    requires
        links_wf(s),
        0 <= k < s.len(),
    ensures
        0 <= s[k].top <= k,
        s[k].parent.is_some() ==> s[k].parent.unwrap() < k,
    decreases k,
{
    reveal(links_wf);
    if s[k].parent.is_some() {
        lemma_top_bound(s, s[k].parent.unwrap() as int);
    }
}


/// Number of inner instructions in the first `t` traces.
pub open spec fn inner_total(inner: Seq<InnerTrace>, t: nat) -> nat
    decreases t,
{
    if t == 0 {
        0
    } else {
        inner_total(inner, (t - 1) as nat) + inner[t - 1].instructions@.len()
    }
}

/// Inner instructions in the first `t` traces that belong to a top-level
/// instruction `lo <= index < hi`.
pub open spec fn inner_count(inner: Seq<InnerTrace>, lo: int, hi: int, t: nat) -> nat
    decreases t,
{
    if t == 0 {
        0
    } else {
        inner_count(inner, lo, hi, (t - 1) as nat) + if lo <= inner[t - 1].index < hi {
            inner[t - 1].instructions@.len()
        } else {
            0
        }
    }
}

proof fn lemma_group_len(inner: Seq<InnerTrace>, i: int, t: nat)
    ensures
        group_upto(inner, i, t).len() == inner_count(inner, i, i + 1, t),
    decreases t,
{
    if t > 0 {
        lemma_group_len(inner, i, (t - 1) as nat);
    }
}

proof fn lemma_count_split(inner: Seq<InnerTrace>, m: int, t: nat)
    ensures
        inner_count(inner, 0, m + 1, t) == inner_count(inner, 0, m, t) + inner_count(inner, m, m + 1, t),
    decreases t,
{
    if t > 0 {
        lemma_count_split(inner, m, (t - 1) as nat);
    }
}

proof fn lemma_count_all(inner: Seq<InnerTrace>, n: nat, t: nat)
    requires
        t <= inner.len(),
        traces_in_range(inner, n),
    ensures
        inner_count(inner, 0, n as int, t) == inner_total(inner, t),
    decreases t,
{
    if t > 0 {
        lemma_count_all(inner, n, (t - 1) as nat);
        assert(inner[t - 1].index < n);
    }
}

proof fn lemma_preorder_len(inner: Seq<InnerTrace>, m: nat)
    ensures
        preorder(inner, m).len() == m + inner_count(inner, 0, m as int, inner.len()),
    decreases m,
{
    if m > 0 {
        lemma_preorder_len(inner, (m - 1) as nat);
        lemma_group_len(inner, m - 1, inner.len());
        lemma_count_split(inner, m - 1, inner.len());
    } else {
        lemma_count_zero(inner, inner.len());
    }
}

proof fn lemma_count_zero(inner: Seq<InnerTrace>, t: nat)
    ensures
        inner_count(inner, 0, 0, t) == 0,
    decreases t,
{
    if t > 0 {
        lemma_count_zero(inner, (t - 1) as nat);
    }
}

/// A tree built from `n` top-level instructions and their traces holds one
/// node per instruction, top-level and inner, with indices exactly `0..len`
/// increasing in execution order.
pub proof fn lemma_indices_cover_instructions(tree: &InstructionTree, inner: Seq<InnerTrace>, n: nat)
    requires
        tree.wf(),
        describes(tree.nodes@, inner, n),
        traces_in_range(inner, n),
    ensures
        tree.nodes@.len() == n + inner_total(inner, inner.len()),
        Set::new(|x: int| exists|k: int| 0 <= k < tree.nodes@.len() && (#[trigger] tree.nodes@[k]).index == x)
            == Set::new(|x: int| 0 <= x < n + inner_total(inner, inner.len())),
        forall|a: int, b: int|
            0 <= a < b < tree.nodes@.len() ==> tree.nodes@[a].index < tree.nodes@[b].index,
{
    assert(origins(tree.nodes@).len() == tree.nodes@.len());
    lemma_preorder_len(inner, n);
    lemma_count_all(inner, n, inner.len());
    lemma_indices_contiguous(tree);
}

/// The node reached from `k` by following parent links.
pub open spec fn root_of(s: Seq<IndexedInstruction>, k: int) -> int
    decreases k,
{
    if 0 <= k < s.len() {
        match s[k].parent {
            Some(p) => if (p as int) < k {
                root_of(s, p as int)
            } else {
                k
            },
            None => k,
        }
    } else {
        k
    }
}

/// Sequence indices of a tree are exactly `0..len`, increasing in execution
/// order.
pub proof fn lemma_indices_contiguous(tree: &InstructionTree)
    requires
        tree.wf(),
    ensures
        Set::new(|x: int| exists|k: int| 0 <= k < tree.nodes@.len() && (#[trigger] tree.nodes@[k]).index == x)
            == Set::new(|x: int| 0 <= x < tree.nodes@.len()),
        forall|a: int, b: int|
            0 <= a < b < tree.nodes@.len() ==> tree.nodes@[a].index < tree.nodes@[b].index,
{
    reveal(links_wf);
    let s = tree.nodes@;
    let idx = Set::new(|x: int| exists|k: int| 0 <= k < s.len() && (#[trigger] s[k]).index == x);
    let range = Set::new(|x: int| 0 <= x < s.len());
    assert forall|x: int| #[trigger] range.contains(x) implies idx.contains(x) by {
        assert(s[x].index == x);
    }
    assert(idx =~= range);
}

/// Following parent links from any node ends at a parentless node, and that
/// node is the node's cached top ancestor.
pub proof fn lemma_parent_walk_reaches_top(tree: &InstructionTree, k: int)
    requires
        tree.wf(),
        0 <= k < tree.nodes@.len(),
    ensures
        root_of(tree.nodes@, k) == tree.nodes@[k].top,
        tree.nodes@[root_of(tree.nodes@, k)].parent.is_none(),
    decreases k,
{
    reveal(links_wf);
    let s = tree.nodes@;
    match s[k].parent {
        Some(p) => {
            assert(s[k] == s[k]);
            lemma_parent_walk_reaches_top(tree, p as int);
        },
        None => {},
    }
}

/// Every node below a node shares its cached top ancestor.
pub proof fn lemma_descendants_share_top(tree: &InstructionTree, a: int, d: int)
    requires
        tree.wf(),
        0 <= d < tree.nodes@.len(),
        0 <= a < tree.nodes@.len(),
        is_ancestor(tree.nodes@, a, d),
    ensures
        tree.nodes@[d].top == tree.nodes@[a].top,
    decreases d,
{
    reveal(links_wf);
    let s = tree.nodes@;
    if a != d {
        let p = s[d].parent.unwrap() as int;
        assert(s[d] == s[d]);
        lemma_descendants_share_top(tree, a, p);
    }
}

/// `a` lies on the parent chain of `d` (a node is its own ancestor).
pub open spec fn is_ancestor(s: Seq<IndexedInstruction>, a: int, d: int) -> bool
    decreases d,
{
    if a == d {
        true
    } else if 0 <= d < s.len() && s[d].parent.is_some() && (s[d].parent.unwrap() as int) < d {
        is_ancestor(s, a, s[d].parent.unwrap() as int)
    } else {
        false
    }
}

} // verus!
