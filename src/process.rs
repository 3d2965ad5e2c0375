use vstd::prelude::*;
use std::collections::HashSet;
use crate::vendors::{
    chars_of, copy_range, fits_u32, nth_word, nth_word_chars, parse_u64_chars, spec_parse_u64, to_u32,
};

verus! {

broadcast use vstd::std_specs::hash::group_hash_axioms;

/// One entry of the flat process table. `cpu_usage` is in thousandths of a
/// percent.
#[derive(Debug, Clone)]
pub struct ProcessInfo {
    pub pid: u32,
    pub name: String,
    pub cmd: String,
    pub cpu_usage: u32,
    pub memory_kb: u64,
    pub user: String,
}

impl ProcessInfo {
    pub fn memory(&self) -> (r: u64)
        ensures
            r == self.memory_kb,
    {
        self.memory_kb
    }
}

/// One process of the tree, with the pids of its children in increasing
/// order.
#[derive(Debug)]
pub struct ProcessNode {
    pub pid: u32,
    pub ppid: u32,
    pub info: ProcessInfo,
    pub children: Vec<u32>,
}

/// A node's (pid, parent pid).
pub open spec fn link(n: ProcessNode) -> (u32, u32) {
    (n.pid, n.ppid)
}

pub open spec fn links(s: Seq<ProcessNode>) -> Seq<(u32, u32)> {
    s.map_values(|n: ProcessNode| link(n))
}

/// `c` hangs under `parent`: its parent pid is `parent`, which is neither
/// zero nor its own pid.
pub open spec fn is_child_of(parent: u32, c: (u32, u32)) -> bool {
    c.1 == parent && parent != 0 && c.0 != parent
}

/// The pids of `parent`'s children, in the order of `l`.
pub open spec fn child_pids(l: Seq<(u32, u32)>, parent: u32) -> Seq<u32>
    decreases l.len(),
{
    if l.len() == 0 {
        Seq::empty()
    } else {
        child_pids(l.drop_last(), parent) + if is_child_of(parent, l.last()) {
            seq![l.last().0]
        } else {
            Seq::empty()
        }
    }
}

pub open spec fn has_pid(l: Seq<(u32, u32)>, pid: u32) -> bool {
    exists|i: int| 0 <= i < l.len() && l[i].0 == pid
}

/// A root has parent pid zero, its own pid, or a parent that is not in the
/// table.
pub open spec fn is_root(l: Seq<(u32, u32)>, n: (u32, u32)) -> bool {
    n.1 == 0 || n.1 == n.0 || !has_pid(l, n.1)
}

pub open spec fn pids_sorted(l: Seq<(u32, u32)>) -> bool {
    forall|i: int, j: int| 0 <= i < j < l.len() ==> l[i].0 < l[j].0
}

/// Depth-first pre-order from `pid` at `depth`: the node itself, then,
/// unless it is collapsed, each child's rendering in child order. `fuel`
/// bounds the depth; from a root it is the node count, which no path in the
/// tree reaches.
pub open spec fn render(
    l: Seq<(u32, u32)>,
    collapsed: Set<u32>,
    pid: u32,
    depth: nat,
    fuel: nat,
) -> Seq<(u32, usize)>
    decreases fuel, 0nat,
{
    if fuel == 0 {
        Seq::empty()
    } else {
        seq![(pid, depth as usize)] + if collapsed.contains(pid) {
            Seq::empty()
        } else {
            render_each(l, collapsed, child_pids(l, pid), depth + 1, (fuel - 1) as nat)
        }
    }
}

pub open spec fn render_each(
    l: Seq<(u32, u32)>,
    collapsed: Set<u32>,
    kids: Seq<u32>,
    depth: nat,
    fuel: nat,
) -> Seq<(u32, usize)>
    decreases fuel, kids.len() + 1,
{
    if kids.len() == 0 {
        Seq::empty()
    } else {
        render_each(l, collapsed, kids.drop_last(), depth, fuel) + render(
            l,
            collapsed,
            kids.last(),
            depth,
            fuel,
        )
    }
}

/// The renderings of the roots among `prefix`, in order, within the whole
/// table `l`.
pub open spec fn render_roots(
    l: Seq<(u32, u32)>,
    collapsed: Set<u32>,
    prefix: Seq<(u32, u32)>,
) -> Seq<(u32, usize)>
    decreases prefix.len(),
{
    if prefix.len() == 0 {
        Seq::empty()
    } else {
        render_roots(l, collapsed, prefix.drop_last()) + if is_root(l, prefix.last()) {
            render(l, collapsed, prefix.last().0, 0, l.len())
        } else {
            Seq::empty()
        }
    }
}

/// The full render order of a table: each root, by increasing pid, with its
/// visible subtree.
pub open spec fn spec_render_order(l: Seq<(u32, u32)>, collapsed: Set<u32>) -> Seq<(u32, usize)> {
    render_roots(l, collapsed, l)
}


/// The position of the last entry of `s` with pid `pid`, or -1.
pub open spec fn latest(s: Seq<(ProcessInfo, Option<u32>)>, pid: u32) -> int
    decreases s.len(),
{
    if s.len() == 0 {
        -1
    } else if s.last().0.pid == pid {
        s.len() - 1
    } else {
        latest(s.drop_last(), pid)
    }
}

proof fn lemma_latest(s: Seq<(ProcessInfo, Option<u32>)>, pid: u32)
    ensures
        -1 <= latest(s, pid) < s.len(),
        latest(s, pid) >= 0 ==> s[latest(s, pid)].0.pid == pid,
        forall|k: int| latest(s, pid) < k < s.len() ==> s[k].0.pid != pid,
        forall|k: int| 0 <= k < s.len() && s[k].0.pid == pid ==> k <= latest(s, pid),
    decreases s.len(),
{
    if s.len() > 0 {
        let d = s.drop_last();
        lemma_latest(d, pid);
        assert forall|k: int| 0 <= k < d.len() implies d[k] == s[k] by {}
        if s.last().0.pid != pid {
            assert forall|k: int| 0 <= k < s.len() && s[k].0.pid == pid implies k <= latest(s, pid) by {
                if k == s.len() - 1 {
                } else {
                    assert(d[k].0.pid == pid);
                }
            }
            assert forall|k: int| latest(s, pid) < k < s.len() implies s[k].0.pid != pid by {
                if k < s.len() - 1 {
                    assert(d[k] == s[k]);
                }
            }
        }
    }
}

pub open spec fn nodes_sorted(v: Seq<ProcessNode>) -> bool {
    forall|i: int, j: int| 0 <= i < j < v.len() ==> v[i].pid < v[j].pid
}

proof fn lemma_sorted_links(v: Seq<ProcessNode>)
    ensures
        pids_sorted(links(v)) <==> nodes_sorted(v),
        links(v).len() == v.len(),
        forall|i: int| 0 <= i < v.len() ==> #[trigger] links(v)[i] == (v[i].pid, v[i].ppid),
{
    assert forall|i: int| 0 <= i < v.len() implies #[trigger] links(v)[i] == (v[i].pid, v[i].ppid) by {}
    if pids_sorted(links(v)) {
        assert forall|i: int, j: int| 0 <= i < j < v.len() implies v[i].pid < v[j].pid by {
            assert(links(v)[i].0 < links(v)[j].0);
        }
    }
    if nodes_sorted(v) {
        assert forall|i: int, j: int| 0 <= i < j < links(v).len() implies links(v)[i].0 < links(v)[j].0 by {
            assert(v[i].pid < v[j].pid);
        }
    }
}

proof fn lemma_has_pid(v: Seq<ProcessNode>, pid: u32)
    ensures
        has_pid(links(v), pid) <==> exists|i: int| 0 <= i < v.len() && #[trigger] v[i].pid == pid,
{
    lemma_sorted_links(v);
    if has_pid(links(v), pid) {
        let k = choose|k: int| 0 <= k < links(v).len() && links(v)[k].0 == pid;
        assert(v[k].pid == pid);
    }
    if exists|i: int| 0 <= i < v.len() && #[trigger] v[i].pid == pid {
        let k = choose|i: int| 0 <= i < v.len() && #[trigger] v[i].pid == pid;
        assert(links(v)[k].0 == pid);
    }
}

/// A missing parent pid reads as zero.
pub open spec fn parent_or_zero(p: Option<u32>) -> u32 {
    match p {
        Some(x) => x,
        None => 0,
    }
}

/// The first position in the pid-sorted `v` whose pid is not below `pid`.
fn locate(v: &Vec<ProcessNode>, pid: u32) -> (r: usize)
    requires
        pids_sorted(links(v@)),
    ensures
        r <= v@.len(),
        forall|j: int| 0 <= j < r ==> v@[j].pid < pid,
        r < v@.len() ==> v@[r as int].pid >= pid,
        has_pid(links(v@), pid) <==> (r < v@.len() && v@[r as int].pid == pid),
{
    proof {
        lemma_sorted_links(v@);
        lemma_has_pid(v@, pid);
    }
    let mut i: usize = 0;
    while i < v.len()
        invariant
            i <= v@.len(),
            nodes_sorted(v@),
            has_pid(links(v@), pid) <==> exists|k: int| 0 <= k < v@.len() && #[trigger] v@[k].pid == pid,
            forall|j: int| 0 <= j < i ==> v@[j].pid < pid,
        decreases v@.len() - i,
    {
        if v[i].pid >= pid {
            proof {
                if exists|k: int| 0 <= k < v@.len() && #[trigger] v@[k].pid == pid {
                    let k = choose|k: int| 0 <= k < v@.len() && #[trigger] v@[k].pid == pid;
                    if k > i {
                        assert(v@[i as int].pid < v@[k].pid);
                    }
                }
            }
            return i;
        }
        i += 1;
    }
    i
}

/// The first pass of a build: one childless node per pid, holding the last
/// entry given for it, in increasing pid order.
fn collect_nodes(processes: Vec<(ProcessInfo, Option<u32>)>) -> (r: Vec<ProcessNode>)
    ensures
        pids_sorted(links(r@)),
        forall|i: int| 0 <= i < r@.len() ==> (#[trigger] r@[i]).children@.len() == 0,
        forall|i: int|
            0 <= i < r@.len() ==> {
                let k = latest(processes@, (#[trigger] r@[i]).pid);
                &&& 0 <= k
                &&& r@[i].info == processes@[k].0
                &&& r@[i].ppid == parent_or_zero(processes@[k].1)
            },
        forall|k: int|
            0 <= k < processes@.len() ==> has_pid(links(r@), (#[trigger] processes@[k]).0.pid),
{
    let ghost s = processes@;
    let mut procs = processes;
    let mut base: Vec<ProcessNode> = Vec::new();
    while procs.len() > 0
        invariant
            procs@ == s.subrange(0, procs@.len() as int),
            procs@.len() <= s.len(),
            pids_sorted(links(base@)),
            forall|i: int| 0 <= i < base@.len() ==> (#[trigger] base@[i]).children@.len() == 0,
            forall|i: int|
                0 <= i < base@.len() ==> {
                    let k = latest(s, (#[trigger] base@[i]).pid);
                    &&& procs@.len() <= k
                    &&& base@[i].info == s[k].0
                    &&& base@[i].ppid == parent_or_zero(s[k].1)
                },
            forall|k: int|
                procs@.len() <= k < s.len() ==> has_pid(links(base@), (#[trigger] s[k]).0.pid),
        decreases procs@.len(),
    {
        let ghost m = procs@.len() - 1;
        let (info, pp) = procs.pop().unwrap();
        proof {
            assert(s[m] == (info, pp));
            assert(procs@ =~= s.subrange(0, m));
        }
        let pid = info.pid;
        let pos = locate(&base, pid);
        if pos < base.len() && base[pos].pid == pid {
            proof {
                assert(has_pid(links(base@), s[m].0.pid));
            }
        } else {
            let ppid = match pp {
                Some(x) => x,
                None => 0,
            };
            let node = ProcessNode { pid, ppid, info, children: Vec::new() };
            let ghost old_base = base@;
            proof {
                lemma_sorted_links(old_base);
            }
            proof {
                lemma_latest(s, pid);
                assert forall|k: int| m < k < s.len() implies s[k].0.pid != pid by {
                    assert(has_pid(links(old_base), s[k].0.pid));
                }
                assert(latest(s, pid) == m);
            }
            base.insert(pos, node);
            proof {
                let nb = base@;
                assert(nb =~= old_base.insert(pos as int, node));
                assert forall|i: int| 0 <= i < nb.len() implies nb[i] == if i < pos {
                    old_base[i]
                } else if i == pos {
                    node
                } else {
                    old_base[i - 1]
                } by {}
                lemma_sorted_links(old_base);
                lemma_sorted_links(nb);
                assert forall|i: int, j: int| 0 <= i < j < nb.len() implies nb[i].pid < nb[j].pid by {
                    if j < pos {
                        assert(old_base[i].pid < old_base[j].pid);
                    } else if i > pos {
                        assert(old_base[i - 1].pid < old_base[j - 1].pid);
                    } else if i < pos && j > pos {
                        assert(old_base[i].pid < pid);
                        assert(old_base[j - 1].pid >= pid);
                    } else if i == pos {
                        assert(old_base[j - 1].pid >= pid);
                        assert(old_base[j - 1].pid != pid) by {
                            if pos < old_base.len() {
                                assert(old_base[pos as int].pid != pid);
                                if j - 1 > pos {
                                    assert(old_base[pos as int].pid < old_base[j - 1].pid);
                                }
                            }
                        }
                    }
                }
                assert(nodes_sorted(nb));
                assert forall|k: int| m <= k < s.len() implies has_pid(
                    links(nb),
                    (#[trigger] s[k]).0.pid,
                ) by {
                    if k == m {
                        assert(links(nb)[pos as int].0 == pid);
                    } else {
                        let q = s[k].0.pid;
                        assert(has_pid(links(old_base), q));
                        let w = choose|w: int| 0 <= w < links(old_base).len() && links(old_base)[w].0 == q;
                        if w < pos {
                            assert(links(nb)[w].0 == q);
                        } else {
                            assert(links(nb)[w + 1].0 == q);
                        }
                    }
                }
            }
        }
    }
    base
}


/// The pids of `parent`'s children in `v`, in the order of `v`.
fn children_of(v: &Vec<ProcessNode>, parent: u32) -> (r: Vec<u32>)
    ensures
        r@ == child_pids(links(v@), parent),
{
    let ghost l = links(v@);
    let mut r: Vec<u32> = Vec::new();
    let mut j: usize = 0;
    while j < v.len()
        invariant
            j <= v@.len(),
            l == links(v@),
            r@ == child_pids(l.subrange(0, j as int), parent),
        decreases v@.len() - j,
    {
        proof {
            lemma_sorted_links(v@);
            assert(l.subrange(0, j + 1).drop_last() =~= l.subrange(0, j as int));
            assert(l.subrange(0, j + 1).last() == (v@[j as int].pid, v@[j as int].ppid));
        }
        let c = &v[j];
        if c.ppid == parent && parent != 0 && c.pid != parent {
            r.push(c.pid);
        } else {
            assert(r@ =~= r@ + Seq::<u32>::empty());
        }
        j += 1;
    }
    assert(l.subrange(0, v@.len() as int) =~= l);
    r
}

/// The process hierarchy rebuilt from a flat process table, with the
/// render order last computed for it.
pub struct ProcessTree {
    nodes: Vec<ProcessNode>,
    render_order: Vec<(u32, usize)>,
}

impl ProcessTree {
    /// The nodes, by increasing pid.
    pub closed spec fn spec_nodes(&self) -> Seq<ProcessNode> {
        self.nodes@
    }

    pub closed spec fn spec_render_order(&self) -> Seq<(u32, usize)> {
        self.render_order@
    }

    pub open spec fn spec_links(&self) -> Seq<(u32, u32)> {
        links(self.spec_nodes())
    }

    /// Pids are unique and increasing, and each node lists exactly its
    /// children, by increasing pid.
    pub open spec fn wf(&self) -> bool {
        &&& pids_sorted(self.spec_links())
        &&& forall|i: int|
            0 <= i < self.spec_nodes().len() ==> (#[trigger] self.spec_nodes()[i]).children@
                == child_pids(self.spec_links(), self.spec_nodes()[i].pid)
    }

    pub fn new() -> (r: Self)
        ensures
            r.wf(),
            r.spec_nodes().len() == 0,
            r.spec_render_order().len() == 0,
    {
        ProcessTree { nodes: Vec::new(), render_order: Vec::new() }
    }

    /// Rebuilds the nodes from `(process, parent pid)` entries; a parent pid
    /// that could not be read is `None` and counts as zero. A pid given
    /// twice keeps its last entry. The render order is left as it was.
    pub fn build_from_processes(&mut self, processes: Vec<(ProcessInfo, Option<u32>)>)
        ensures
            final(self).wf(),
            final(self).spec_render_order() == old(self).spec_render_order(),
            forall|p: u32|
                has_pid(final(self).spec_links(), p) <==> exists|k: int|
                    0 <= k < processes@.len() && (#[trigger] processes@[k]).0.pid == p,
            forall|i: int|
                0 <= i < final(self).spec_nodes().len() ==> {
                    let n = #[trigger] final(self).spec_nodes()[i];
                    let k = latest(processes@, n.pid);
                    &&& 0 <= k
                    &&& n.info == processes@[k].0
                    &&& n.ppid == parent_or_zero(processes@[k].1)
                },
    {
        let ghost ps = processes@;
        let mut base = collect_nodes(processes);
        let ghost l = links(base@);
        let ghost first = base@;
        let n = base.len();
        let mut k: usize = 0;
        while k < n
            invariant
                n == base@.len(),
                k <= n,
                l == links(base@),
                first.len() == n,
                forall|i: int|
                    0 <= i < n ==> (#[trigger] base@[i]).pid == first[i].pid && base@[i].ppid
                        == first[i].ppid && base@[i].info == first[i].info,
                forall|i: int| 0 <= i < k ==> (#[trigger] base@[i]).children@ == child_pids(l, base@[i].pid),
            decreases n - k,
        {
            let kids = children_of(&base, base[k].pid);
            let ghost before = base@;
            let mut node = base.remove(k);
            node.children = kids;
            base.insert(k, node);
            proof {
                assert(base@ =~= before.update(k as int, base@[k as int]));
                lemma_sorted_links(before);
                lemma_sorted_links(base@);
                assert(links(base@) =~= links(before));
            }
            k += 1;
        }
        proof {
            lemma_sorted_links(first);
            lemma_sorted_links(base@);
            assert(links(base@) =~= links(first));
            assert forall|p: u32| has_pid(l, p) <==> exists|k: int|
                0 <= k < ps.len() && (#[trigger] ps[k]).0.pid == p by {
                if exists|k: int| 0 <= k < ps.len() && (#[trigger] ps[k]).0.pid == p {
                    let k = choose|k: int| 0 <= k < ps.len() && (#[trigger] ps[k]).0.pid == p;
                    assert(has_pid(l, ps[k].0.pid));
                }
                if has_pid(l, p) {
                    let i = choose|i: int| 0 <= i < l.len() && l[i].0 == p;
                    assert(first[i].pid == p);
                    let k = latest(ps, p);
                    lemma_latest(ps, p);
                    assert(0 <= k && ps[k].0.pid == p);
                }
            }
        }
        self.nodes = base;
    }

    /// Number of processes in the tree.
    pub fn len(&self) -> (r: usize)
        ensures
            r == self.spec_nodes().len(),
    {
        self.nodes.len()
    }

    pub fn is_empty(&self) -> (r: bool)
        ensures
            r == (self.spec_nodes().len() == 0),
    {
        self.nodes.len() == 0
    }

    /// The node of `pid`, if the tree has one.
    pub fn get_node(&self, pid: u32) -> (r: Option<&ProcessNode>)
        requires
            self.wf(),
        ensures
            r is Some <==> has_pid(self.spec_links(), pid),
            r is Some ==> exists|i: int|
                0 <= i < self.spec_nodes().len() && self.spec_nodes()[i] == *r->0 && r->0.pid == pid,
    {
        let pos = locate(&self.nodes, pid);
        if pos < self.nodes.len() && self.nodes[pos].pid == pid {
            Some(&self.nodes[pos])
        } else {
            None
        }
    }

    /// Whether `pid` is in the tree and has at least one child.
    pub fn has_children(&self, pid: u32) -> (r: bool)
        requires
            self.wf(),
        ensures
            r == (has_pid(self.spec_links(), pid) && child_pids(self.spec_links(), pid).len() > 0),
    {
        let pos = locate(&self.nodes, pid);
        if pos < self.nodes.len() && self.nodes[pos].pid == pid {
            self.nodes[pos].children.len() > 0
        } else {
            false
        }
    }
}

impl ProcessTree {
    /// The children of `pid` in the tree's table.
    fn kids(&self, pid: u32) -> (r: Vec<u32>)
        requires
            self.wf(),
        ensures
            r@ == child_pids(self.spec_links(), pid),
    {
        let pos = locate(&self.nodes, pid);
        if pos < self.nodes.len() && self.nodes[pos].pid == pid {
            let c = &self.nodes[pos].children;
            let mut r: Vec<u32> = Vec::new();
            let mut j: usize = 0;
            while j < c.len()
                invariant
                    j <= c@.len(),
                    r@ == c@.subrange(0, j as int),
                decreases c@.len() - j,
            {
                r.push(c[j]);
                j += 1;
            }
            assert(r@ =~= c@);
            r
        } else {
            children_of(&self.nodes, pid)
        }
    }

    fn dfs_render(
        &self,
        pid: u32,
        depth: usize,
        fuel: usize,
        collapsed: &HashSet<u32>,
        out: &mut Vec<(u32, usize)>,
    )
        requires
            self.wf(),
            depth + fuel <= usize::MAX,
        ensures
            final(out)@ == old(out)@ + render(
                self.spec_links(),
                collapsed@,
                pid,
                depth as nat,
                fuel as nat,
            ),
        decreases fuel,
    {
        let ghost l = self.spec_links();
        if fuel == 0 {
            assert(out@ =~= old(out)@ + Seq::<(u32, usize)>::empty());
            return ;
        }
        out.push((pid, depth));
        if collapsed.contains(&pid) {
            assert(out@ =~= old(out)@ + (seq![(pid, depth)] + Seq::<(u32, usize)>::empty()));
            return ;
        }
        let kids = self.kids(pid);
        let ghost head = out@;
        let mut j: usize = 0;
        while j < kids.len()
            invariant
                self.wf(),
                l == self.spec_links(),
                1 <= fuel,
                depth + fuel <= usize::MAX,
                j <= kids@.len(),
                kids@ == child_pids(l, pid),
                out@ == head + render_each(
                    l,
                    collapsed@,
                    kids@.subrange(0, j as int),
                    (depth + 1) as nat,
                    (fuel - 1) as nat,
                ),
            decreases kids@.len() - j,
        {
            self.dfs_render(kids[j], depth + 1, fuel - 1, collapsed, out);
            proof {
                let sub = kids@.subrange(0, j + 1);
                assert(sub.drop_last() =~= kids@.subrange(0, j as int));
                assert(sub.last() == kids@[j as int]);
            }
            j += 1;
        }
        assert(kids@.subrange(0, kids@.len() as int) =~= kids@);
        assert(out@ =~= old(out)@ + render(l, collapsed@, pid, depth as nat, fuel as nat));
    }

    /// Recomputes the render order: each root by increasing pid, followed
    /// depth-first by its children in pid order, where a collapsed node is
    /// listed but its subtree is not.
    pub fn calculate_render_order(&mut self, collapsed_pids: &HashSet<u32>)
        requires
            old(self).wf(),
        ensures
            final(self).wf(),
            final(self).spec_nodes() == old(self).spec_nodes(),
            final(self).spec_render_order() == spec_render_order(
                old(self).spec_links(),
                collapsed_pids@,
            ),
    {
        let ghost l = self.spec_links();
        let mut out: Vec<(u32, usize)> = Vec::new();
        let n = self.nodes.len();
        proof {
            lemma_sorted_links(self.nodes@);
        }
        let mut i: usize = 0;
        while i < n
            invariant
                self.wf(),
                l == self.spec_links(),
                n == l.len(),
                i <= n,
                out@ == render_roots(l, collapsed_pids@, l.subrange(0, i as int)),
            decreases n - i,
        {
            let pid = self.nodes[i].pid;
            let ppid = self.nodes[i].ppid;
            let pos = locate(&self.nodes, ppid);
            let parent_present = pos < n && self.nodes[pos].pid == ppid;
            proof {
                lemma_sorted_links(self.nodes@);
                let sub = l.subrange(0, i + 1);
                assert(sub.drop_last() =~= l.subrange(0, i as int));
                assert(sub.last() == (pid, ppid));
            }
            if ppid == 0 || ppid == pid || !parent_present {
                self.dfs_render(pid, 0, n, collapsed_pids, &mut out);
            } else {
                assert(out@ =~= out@ + Seq::<(u32, usize)>::empty());
            }
            i += 1;
        }
        assert(l.subrange(0, n as int) =~= l);
        self.render_order = out;
    }

    /// The render order last computed.
    pub fn render_order(&self) -> (r: &Vec<(u32, usize)>)
        ensures
            r@ == self.spec_render_order(),
    {
        &self.render_order
    }
}

/// The node of `pid` in `s`, if any.
pub open spec fn node_of(s: Seq<ProcessNode>, pid: u32) -> ProcessNode
    recommends
        has_pid(links(s), pid),
{
    s[choose|i: int| 0 <= i < s.len() && s[i].pid == pid]
}

proof fn lemma_node_of(s: Seq<ProcessNode>, pos: int)
    requires
        pids_sorted(links(s)),
        0 <= pos < s.len(),
    ensures
        node_of(s, s[pos].pid) == s[pos],
{
    lemma_sorted_links(s);
    let pid = s[pos].pid;
    let c = choose|i: int| 0 <= i < s.len() && s[i].pid == pid;
    if c != pos {
        if c < pos {
            assert(s[c].pid < s[pos].pid);
        } else {
            assert(s[pos].pid < s[c].pid);
        }
    }
}

/// What a node contributes to an aggregate: its CPU share or its memory.
pub open spec fn weight(cpu: bool, n: ProcessNode) -> nat {
    if cpu {
        n.info.cpu_usage as nat
    } else {
        n.info.memory_kb as nat
    }
}

/// A node's weight plus the aggregates of its children: the whole subtree,
/// down to depth `fuel` (from the public entry points, the node count,
/// which no path reaches).
pub open spec fn aggregate(s: Seq<ProcessNode>, cpu: bool, pid: u32, fuel: nat) -> nat
    decreases fuel, 0nat,
{
    if fuel == 0 || !has_pid(links(s), pid) {
        0
    } else {
        weight(cpu, node_of(s, pid)) + aggregate_each(s, cpu, child_pids(links(s), pid), (fuel - 1) as nat)
    }
}

pub open spec fn aggregate_each(s: Seq<ProcessNode>, cpu: bool, kids: Seq<u32>, fuel: nat) -> nat
    decreases fuel, kids.len() + 1,
{
    if kids.len() == 0 {
        0
    } else {
        aggregate_each(s, cpu, kids.drop_last(), fuel) + aggregate(s, cpu, kids.last(), fuel)
    }
}

/// `x`, held at the largest `u64`.
pub open spec fn saturate(x: nat) -> u64 {
    if x > u64::MAX {
        u64::MAX
    } else {
        x as u64
    }
}

/// Entries of `order` whose pid is in the table, in order.
pub open spec fn visible(l: Seq<(u32, u32)>, order: Seq<(u32, usize)>) -> Seq<(u32, usize)>
    decreases order.len(),
{
    if order.len() == 0 {
        Seq::empty()
    } else {
        visible(l, order.drop_last()) + if has_pid(l, order.last().0) {
            seq![order.last()]
        } else {
            Seq::empty()
        }
    }
}

impl ProcessTree {
    fn aggregate_from(&self, cpu: bool, pid: u32, fuel: usize) -> (r: u64)
        requires
            self.wf(),
        ensures
            r == saturate(aggregate(self.spec_nodes(), cpu, pid, fuel as nat)),
        decreases fuel,
    {
        let ghost s = self.spec_nodes();
        if fuel == 0 {
            return 0;
        }
        let pos = locate(&self.nodes, pid);
        if !(pos < self.nodes.len() && self.nodes[pos].pid == pid) {
            return 0;
        }
        proof {
            lemma_node_of(s, pos as int);
        }
        let node = &self.nodes[pos];
        let own: u64 = if cpu {
            node.info.cpu_usage as u64
        } else {
            node.info.memory_kb
        };
        let kids = self.kids(pid);
        let mut total: u64 = own;
        let mut j: usize = 0;
        while j < kids.len()
            invariant
                self.wf(),
                s == self.spec_nodes(),
                1 <= fuel,
                j <= kids@.len(),
                kids@ == child_pids(links(s), pid),
                own == weight(cpu, node_of(s, pid)),
                total == saturate(
                    own as nat + aggregate_each(s, cpu, kids@.subrange(0, j as int), (fuel - 1) as nat),
                ),
            decreases kids@.len() - j,
        {
            let sub = self.aggregate_from(cpu, kids[j], fuel - 1);
            proof {
                let p = kids@.subrange(0, j + 1);
                assert(p.drop_last() =~= kids@.subrange(0, j as int));
                assert(p.last() == kids@[j as int]);
            }
            total = total.saturating_add(sub);
            j += 1;
        }
        assert(kids@.subrange(0, kids@.len() as int) =~= kids@);
        total
    }

    /// CPU share of `pid` and all its descendants (thousandths of a percent,
    /// held at the largest `u64`); zero for a pid not in the tree.
    pub fn get_aggregated_cpu(&self, pid: u32) -> (r: u64)
        requires
            self.wf(),
        ensures
            r == saturate(aggregate(self.spec_nodes(), true, pid, self.spec_nodes().len())),
    {
        self.aggregate_from(true, pid, self.nodes.len())
    }

    /// Memory (KiB) of `pid` and all its descendants, held at the largest
    /// `u64`; zero for a pid not in the tree.
    pub fn get_aggregated_memory(&self, pid: u32) -> (r: u64)
        requires
            self.wf(),
        ensures
            r == saturate(aggregate(self.spec_nodes(), false, pid, self.spec_nodes().len())),
    {
        self.aggregate_from(false, pid, self.nodes.len())
    }

    /// The render order's entries whose process is in the tree, each with
    /// its node and depth.
    pub fn iter_visible(&self) -> (r: Vec<(&ProcessNode, usize)>)
        requires
            self.wf(),
        ensures
            r@.map_values(|e: (&ProcessNode, usize)| (e.0.pid, e.1)) == visible(
                self.spec_links(),
                self.spec_render_order(),
            ),
            forall|i: int|
                0 <= i < r@.len() ==> *(#[trigger] r@[i]).0 == node_of(self.spec_nodes(), r@[i].0.pid),
    {
        let ghost l = self.spec_links();
        let ghost order = self.render_order@;
        let mut r: Vec<(&ProcessNode, usize)> = Vec::new();
        let mut i: usize = 0;
        while i < self.render_order.len()
            invariant
                self.wf(),
                l == self.spec_links(),
                order == self.render_order@,
                i <= order.len(),
                r@.map_values(|e: (&ProcessNode, usize)| (e.0.pid, e.1)) == visible(
                    l,
                    order.subrange(0, i as int),
                ),
                forall|m: int|
                    0 <= m < r@.len() ==> *(#[trigger] r@[m]).0 == node_of(self.spec_nodes(), r@[m].0.pid),
            decreases order.len() - i,
        {
            let (pid, depth) = self.render_order[i];
            let pos = locate(&self.nodes, pid);
            let ghost before = r@;
            proof {
                let p = order.subrange(0, i + 1);
                assert(p.drop_last() =~= order.subrange(0, i as int));
                assert(p.last() == (pid, depth));
            }
            if pos < self.nodes.len() && self.nodes[pos].pid == pid {
                r.push((&self.nodes[pos], depth));
                assert(r@.map_values(|e: (&ProcessNode, usize)| (e.0.pid, e.1)) =~= before.map_values(
                    |e: (&ProcessNode, usize)| (e.0.pid, e.1),
                ).push((pid, depth)));
                proof {
                    lemma_node_of(self.spec_nodes(), pos as int);
                }
                assert forall|m: int| 0 <= m < r@.len() implies *(#[trigger] r@[m]).0 == node_of(
                    self.spec_nodes(),
                    r@[m].0.pid,
                ) by {
                    if m < before.len() {
                        assert(r@[m] == before[m]);
                    }
                }
            } else {
                assert(r@.map_values(|e: (&ProcessNode, usize)| (e.0.pid, e.1)) =~= before.map_values(
                    |e: (&ProcessNode, usize)| (e.0.pid, e.1),
                ) + Seq::<(u32, usize)>::empty());
            }
            i += 1;
        }
        assert(order.subrange(0, order.len() as int) =~= order);
        r
    }
}

impl Default for ProcessTree {
    fn default() -> (r: Self)
        ensures
            r.wf(),
            r.spec_nodes().len() == 0,
            r.spec_render_order().len() == 0,
    {
        ProcessTree::new()
    }
}


/// Where `c` last occurs in `s`, or -1.
pub open spec fn last_index_of(s: Seq<char>, c: char) -> int
    decreases s.len(),
{
    if s.len() == 0 {
        -1
    } else if s.last() == c {
        s.len() - 1
    } else {
        last_index_of(s.drop_last(), c)
    }
}

/// The parent pid in a `/proc/<pid>/stat` line ("pid (comm) state ppid
/// ..."): after the last `)` (the command name may hold spaces and
/// parentheses), the second white-space separated word, read as a number.
pub open spec fn spec_ppid_from_stat(content: Seq<char>) -> Option<u32> {
    let k = last_index_of(content, ')');
    if k < 0 {
        None
    } else {
        match nth_word(content.subrange(k + 1, content.len() as int), 1) {
            Some(w) => match spec_parse_u64(w) {
                Some(v) => fits_u32(v as int),
                None => None,
            },
            None => None,
        }
    }
}

/// Reads the parent pid from the text of `/proc/<pid>/stat` (see
/// `spec_ppid_from_stat`).
pub fn ppid_from_stat(content: &str) -> (r: Option<u32>)
    ensures
        r == spec_ppid_from_stat(content@),
{
    let v = chars_of(content);
    let n = v.len();
    let mut k: usize = n;
    assert(v@.subrange(0, n as int) =~= v@);
    while k > 0 && v[k - 1] != ')'
        invariant
            n == v@.len(),
            k <= n,
            last_index_of(v@, ')') == last_index_of(v@.subrange(0, k as int), ')'),
        decreases k,
    {
        proof {
            let p = v@.subrange(0, k as int);
            assert(p.drop_last() =~= v@.subrange(0, k - 1));
        }
        k -= 1;
    }
    proof {
        assert(v@.subrange(0, n as int) =~= v@);
    }
    if k == 0 {
        proof {
            assert(v@.subrange(0, 0) =~= Seq::<char>::empty());
        }
        return None;
    }
    proof {
        assert(v@.subrange(0, k as int).last() == ')');
    }
    let rest = copy_range(&v, k, n);
    match nth_word_chars(&rest, 1) {
        Some(w) => match parse_u64_chars(&w) {
            Some(x) => to_u32(x),
            None => None,
        },
        None => None,
    }
}

} // verus!
