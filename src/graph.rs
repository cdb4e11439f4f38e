//! Dependency graphs of subtasks: ordering with cycle detection.
//!
//! Nodes live in a table addressed by index. A dependency names another node
//! by its identifier; names that match no node are ignored.

use vstd::prelude::*;

verus! {

/// One node of a task graph.
#[derive(Debug, Clone)]
pub struct Subtask {
    pub id: String,
    pub description: String,
    pub worker_type: String,
    pub dependencies: Vec<String>,
}

/// Why a graph cannot be ordered.
#[derive(Debug, Clone)]
pub enum GraphError {
    /// The node with this identifier was reached again while its own
    /// dependencies were still being visited.
    CircularDependency(String),
}

/// Node `i` declares node `j` as a dependency.
pub open spec fn depends_on(ts: Seq<Subtask>, i: int, j: int) -> bool {
    &&& 0 <= i < ts.len()
    &&& 0 <= j < ts.len()
    &&& exists|k: int| 0 <= k < ts[i].dependencies@.len() && #[trigger] ts[i].dependencies@[k]@ == ts[j].id@
}

/// No two nodes share an identifier.
pub open spec fn ids_unique(ts: Seq<Subtask>) -> bool {
    forall|i: int, j: int|
        0 <= i < ts.len() && 0 <= j < ts.len() && i != j ==> #[trigger] ts[i].id@ != #[trigger] ts[j].id@
}

/// `x` stands somewhere in `order`.
pub open spec fn appears_in(order: Seq<int>, x: int) -> bool {
    exists|p: int| 0 <= p < order.len() && order[p] == x
}

/// `order` lists every node exactly once, each after all of its dependencies.
pub open spec fn is_dependency_order(ts: Seq<Subtask>, order: Seq<int>) -> bool {
    &&& forall|p: int| 0 <= p < order.len() ==> 0 <= #[trigger] order[p] < ts.len()
    &&& forall|p: int, q: int| 0 <= p < order.len() && 0 <= q < order.len() && p != q
        ==> #[trigger] order[p] != #[trigger] order[q]
    &&& forall|x: int| 0 <= x < ts.len() ==> #[trigger] appears_in(order, x)
    &&& forall|p: int, q: int|
        0 <= p < order.len() && 0 <= q < order.len() && #[trigger] depends_on(ts, order[p], order[q])
        ==> q < p
}

/// `path` walks from a node along declared dependencies back to itself.
pub open spec fn is_cycle(ts: Seq<Subtask>, path: Seq<int>) -> bool {
    &&& path.len() >= 2
    &&& path[0] == path.last()
    &&& forall|k: int| 0 <= k < path.len() - 1 ==> #[trigger] depends_on(ts, path[k], path[k + 1])
}

/// Some node depends, directly or through others, on itself.
pub open spec fn has_cycle(ts: Seq<Subtask>) -> bool {
    exists|path: Seq<int>| is_cycle(ts, path)
}

/// The position at which `x` stands in `order`.
pub open spec fn position_of(order: Seq<int>, x: int) -> int {
    choose|p: int| 0 <= p < order.len() && order[p] == x
}

proof fn lemma_cycle_positions(ts: Seq<Subtask>, order: Seq<int>, path: Seq<int>, m: int)
    requires
        is_dependency_order(ts, order),
        is_cycle(ts, path),
        1 <= m < path.len(),
    ensures
        0 <= position_of(order, path[m]) < order.len(),
        order[position_of(order, path[m])] == path[m],
        position_of(order, path[m]) < position_of(order, path[0]),
    decreases m,
{
    assert(depends_on(ts, path[m - 1], path[(m - 1) + 1]));
    let x = path[m];
    let y = path[m - 1];
    assert(appears_in(order, x));
    assert(appears_in(order, y));
    let px = position_of(order, x);
    let py = position_of(order, y);
    assert(depends_on(ts, order[py], order[px]));
    if m > 1 {
        lemma_cycle_positions(ts, order, path, m - 1);
    }
}

/// A graph that has a dependency order has no cycle.
pub proof fn lemma_ordered_graph_is_acyclic(ts: Seq<Subtask>, order: Seq<int>)
    requires
        is_dependency_order(ts, order),
    ensures
        !has_cycle(ts),
{
    if has_cycle(ts) {
        let path = choose|path: Seq<int>| is_cycle(ts, path);
        lemma_cycle_positions(ts, order, path, path.len() - 1);
    }
}

/// For each node, the indices of the nodes it declares as dependencies.
fn resolve_dependencies(ts: &[Subtask]) -> (adj: Vec<Vec<usize>>)
    ensures
        adj.len() == ts.len(),
        forall|i: int, t: int|
            0 <= i < adj.len() && 0 <= t < adj[i].len() ==> adj[i][t] < ts.len()
                && depends_on(ts@, i, #[trigger] adj[i][t] as int),
        forall|i: int, j: int| #[trigger] depends_on(ts@, i, j) ==> adj[i]@.contains(j as usize),
{
    let n = ts.len();
    let mut adj: Vec<Vec<usize>> = Vec::new();
    let mut i: usize = 0;
    while i < n
        invariant
            n == ts.len(),
            i <= n,
            adj.len() == i,
            forall|a: int, t: int|
                0 <= a < adj.len() && 0 <= t < adj[a].len() ==> adj[a][t] < n
                    && depends_on(ts@, a, #[trigger] adj[a][t] as int),
            forall|a: int, j: int| 0 <= a < i && #[trigger] depends_on(ts@, a, j) ==> adj[a]@.contains(j as usize),
        decreases n - i,
    {
        let deps = &ts[i].dependencies;
        let mut row: Vec<usize> = Vec::new();
        let mut k: usize = 0;
        while k < deps.len()
            invariant
                n == ts.len(),
                i < n,
                deps == ts@[i as int].dependencies,
                k <= deps.len(),
                forall|t: int| 0 <= t < row.len() ==> row[t] < n && depends_on(ts@, i as int, #[trigger] row[t] as int),
                forall|kk: int, j: int| 0 <= kk < k && 0 <= j < n && #[trigger] deps@[kk]@ == #[trigger] ts@[j].id@
                    ==> row@.contains(j as usize),
            decreases deps.len() - k,
        {
            let mut j: usize = 0;
            while j < n
                invariant
                    n == ts.len(),
                    i < n,
                    deps == ts@[i as int].dependencies,
                    k < deps.len(),
                    j <= n,
                    forall|t: int| 0 <= t < row.len() ==> row[t] < n && depends_on(ts@, i as int, #[trigger] row[t] as int),
                    forall|kk: int, jj: int| 0 <= kk < k && 0 <= jj < n && #[trigger] deps@[kk]@ == #[trigger] ts@[jj].id@
                        ==> row@.contains(jj as usize),
                    forall|jj: int| 0 <= jj < j && deps@[k as int]@ == #[trigger] ts@[jj].id@
                        ==> row@.contains(jj as usize),
                decreases n - j,
            {
                if ts[j].id == deps[k] {
                    assert(depends_on(ts@, i as int, j as int));
                    let ghost old_row = row@;
                    row.push(j);
                    assert(row@[old_row.len() as int] == j);
                    assert forall|x: usize| old_row.contains(x) implies row@.contains(x) by {
                        let t = choose|t: int| 0 <= t < old_row.len() && old_row[t] == x;
                        assert(row@[t] == x);
                    }
                }
                j += 1;
            }
            k += 1;
        }
        assert forall|j: int| #[trigger] depends_on(ts@, i as int, j) implies row@.contains(j as usize) by {
            let kk = choose|kk: int| 0 <= kk < ts@[i as int].dependencies@.len()
                && #[trigger] ts@[i as int].dependencies@[kk]@ == ts@[j].id@;
            assert(deps@[kk]@ == ts@[j].id@);
        }
        adj.push(row);
        i += 1;
    }
    adj
}

/// The number of unvisited marks.
spec fn unvisited(m: Seq<u8>) -> nat
    decreases m.len(),
{
    if m.len() == 0 {
        0
    } else {
        unvisited(m.drop_last()) + if m.last() == 0 { 1nat } else { 0nat }
    }
}

proof fn lemma_unvisited_update(m: Seq<u8>, i: int, b: u8)
    requires
        0 <= i < m.len(),
        b != 0,
    ensures
        unvisited(m.update(i, b)) + (if m[i] == 0 { 1nat } else { 0nat }) == unvisited(m),
    decreases m.len(),
{
    if i == m.len() - 1 {
        assert(m.update(i, b).drop_last() =~= m.drop_last());
    } else {
        lemma_unvisited_update(m.drop_last(), i, b);
        assert(m.update(i, b).drop_last() =~= m.drop_last().update(i, b));
    }
}

/// Dependencies still to be explored by the frames of a depth-first stack.
spec fn pending(st: Seq<(usize, usize)>, adj: Seq<Vec<usize>>) -> nat
    decreases st.len(),
{
    if st.len() == 0 {
        0
    } else {
        let (v, k) = st.last();
        pending(st.drop_last(), adj) + if v < adj.len() && k <= adj[v as int].len() {
            (adj[v as int].len() - k) as nat
        } else {
            0nat
        }
    }
}

/// `x` is the node of some frame of `st`.
spec fn on_stack(st: Seq<(usize, usize)>, x: usize) -> bool {
    exists|s: int| 0 <= s < st.len() && st[s].0 == x
}

spec fn as_ints(v: Seq<usize>) -> Seq<int> {
    v.map_values(|x: usize| x as int)
}

/// Indices of all nodes, each after its dependencies; or a node that lies on a
/// cycle.
fn dependency_order(ts: &[Subtask]) -> (r: Result<Vec<usize>, usize>)
    ensures
        match r {
            Ok(order) => is_dependency_order(ts@, as_ints(order@)),
            Err(x) => x < ts.len() && exists|path: Seq<int>| is_cycle(ts@, path) && path[0] == x,
        },
{
    let n = ts.len();
    let adj = resolve_dependencies(ts);
    let mut mark: Vec<u8> = Vec::new();
    let mut i: usize = 0;
    while i < n
        invariant
            i <= n,
            mark.len() == i,
            forall|x: int| 0 <= x < i ==> mark[x] == 0,
        decreases n - i,
    {
        mark.push(0);
        i += 1;
    }
    let ghost mut pos: Seq<int> = Seq::new(n as nat, |x: int| 0);
    let mut order: Vec<usize> = Vec::new();
    let mut stack: Vec<(usize, usize)> = Vec::new();
    let mut root: usize = 0;
    while root < n
        invariant
            n == ts.len(),
            root <= n,
            mark.len() == n,
            adj.len() == n,
            pos.len() == n,
            stack.len() == 0,
            forall|a: int, t: int|
                0 <= a < adj.len() && 0 <= t < adj[a].len() ==> adj[a][t] < n
                    && depends_on(ts@, a, #[trigger] adj[a][t] as int),
            forall|a: int, j: int| #[trigger] depends_on(ts@, a, j) ==> adj[a]@.contains(j as usize),
            forall|x: int| 0 <= x < n ==> #[trigger] mark[x] == 0 || mark[x] == 2,
            forall|x: int| 0 <= x < root ==> #[trigger] mark[x] == 2,
            forall|p: int| 0 <= p < order.len() ==> order[p] < n && mark[order[p] as int] == 2
                && pos[order[p] as int] == p,
            forall|x: int| 0 <= x < n && #[trigger] mark[x] == 2 ==> 0 <= pos[x] < order.len()
                && order[pos[x]] == x,
            forall|p: int, t: int| 0 <= p < order.len() && 0 <= t < adj[order[p] as int].len()
                ==> mark[#[trigger] adj[order[p] as int][t] as int] == 2 && pos[adj[order[p] as int][t] as int] < p,
        decreases n - root,
    {
        if mark[root] == 0 {
            proof { lemma_unvisited_update(mark@, root as int, 1); }
            mark[root] = 1;
            stack.push((root, 0));
            proof {
                assert(stack@[0].0 == root);
            }
            while stack.len() > 0
                invariant
                    n == ts.len(),
                    root < n,
                    mark.len() == n,
                    adj.len() == n,
                    pos.len() == n,
                    mark[root as int] != 0,
                    forall|a: int, t: int|
                        0 <= a < adj.len() && 0 <= t < adj[a].len() ==> adj[a][t] < n
                            && depends_on(ts@, a, #[trigger] adj[a][t] as int),
                    forall|a: int, j: int| #[trigger] depends_on(ts@, a, j) ==> adj[a]@.contains(j as usize),
                    forall|x: int| 0 <= x < n ==> #[trigger] mark[x] <= 2,
                    forall|x: int| 0 <= x < root ==> #[trigger] mark[x] == 2,
                    forall|s: int| 0 <= s < stack.len() ==> (#[trigger] stack[s]).0 < n
                        && stack[s].1 <= adj[stack[s].0 as int].len() && mark[stack[s].0 as int] == 1,
                    forall|s: int, u: int| 0 <= s < u < stack.len() ==> (#[trigger] stack[s]).0 != (#[trigger] stack[u]).0,
                    forall|x: int| 0 <= x < n && #[trigger] mark[x] == 1 ==> on_stack(stack@, x as usize),
                    forall|s: int| 1 <= s < stack.len() ==> (#[trigger] stack[s - 1]).1 >= 1
                        && adj[stack[s - 1].0 as int][stack[s - 1].1 - 1] == stack[s].0,
                    forall|s: int, j: int| 0 <= s < stack.len() && 0 <= j < stack[s].1
                        && (s + 1 < stack.len() ==> j + 1 < stack[s].1)
                        ==> mark[#[trigger] adj[stack[s].0 as int][j] as int] == 2,
                    forall|p: int| 0 <= p < order.len() ==> order[p] < n && mark[order[p] as int] == 2
                        && pos[order[p] as int] == p,
                    forall|x: int| 0 <= x < n && #[trigger] mark[x] == 2 ==> 0 <= pos[x] < order.len()
                        && order[pos[x]] == x,
                    forall|p: int, t: int| 0 <= p < order.len() && 0 <= t < adj[order[p] as int].len()
                        ==> mark[#[trigger] adj[order[p] as int][t] as int] == 2 && pos[adj[order[p] as int][t] as int] < p,
                decreases unvisited(mark@), pending(stack@, adj@), stack.len(),
            {
                let top = stack.len() - 1;
                let (v, k) = stack[top];
                if k < adj[v].len() {
                    let d = adj[v][k];
                    if mark[d] == 1 {
                        proof {
                            assert(on_stack(stack@, d));
                        }
                        let ghost s = choose|s: int| 0 <= s < stack.len() && stack@[s].0 == d;
                        let ghost path = stack@.subrange(s, stack.len() as int).map_values(
                            |e: (usize, usize)| e.0 as int).push(d as int);
                        proof {
                            assert forall|q: int| 0 <= q < path.len() - 1 implies
                                #[trigger] depends_on(ts@, path[q], path[q + 1]) by {
                                assert(path[q] == stack[s + q].0 as int);
                                if q + 1 < path.len() - 1 {
                                    assert(path[q + 1] == stack[s + q + 1].0 as int);
                                    assert((stack[(s + q + 1) - 1]).1 >= 1);
                                    let t = stack[s + q].1 - 1;
                                    assert(adj[stack[s + q].0 as int][t] == stack[s + q + 1].0);
                                } else {
                                    assert(adj[v as int][k as int] == d);
                                }
                            }
                            assert(is_cycle(ts@, path));
                        }
                        return Err(d);
                    }
                    let ghost old_stack = stack@;
                    stack[top] = (v, k + 1);
                    proof {
                        assert(stack@.drop_last() =~= old_stack.drop_last());
                    }
                    if mark[d] == 1 {
                        return Err(d);
                    } else if mark[d] == 0 {
                        proof { lemma_unvisited_update(mark@, d as int, 1); }
                        mark[d] = 1;
                        stack.push((d, 0));
                        proof {
                            assert forall|x: int| 0 <= x < n && #[trigger] mark[x] == 1 implies on_stack(stack@, x as usize) by {
                                if x != d {
                                    let s = choose|s: int| 0 <= s < old_stack.len() && old_stack[s].0 == x as usize;
                                    assert(stack@[s].0 == x);
                                } else {
                                    assert(stack@[stack.len() - 1].0 == x);
                                }
                            }
                        }
                    } else {
                        proof {
                            assert forall|x: int| 0 <= x < n && #[trigger] mark[x] == 1 implies on_stack(stack@, x as usize) by {
                                let s = choose|s: int| 0 <= s < old_stack.len() && old_stack[s].0 == x as usize;
                                assert(stack@[s].0 == x);
                            }
                        }
                    }
                } else {
                    let ghost old_stack = stack@;
                    stack.pop();
                    proof {
                        lemma_unvisited_update(mark@, v as int, 2);
                        assert(stack@ =~= old_stack.drop_last());
                        pos = pos.update(v as int, order.len() as int);
                    }
                    mark[v] = 2;
                    order.push(v);
                    proof {
                        assert forall|s: int, j: int| 0 <= s < stack.len() && 0 <= j < stack[s].1
                            && (s + 1 < stack.len() ==> j + 1 < stack[s].1)
                            implies mark[#[trigger] adj[stack[s].0 as int][j] as int] == 2 by {
                            assert(stack@[s] == old_stack[s]);
                            if s + 1 == stack.len() && j + 1 == stack[s].1 {
                                assert(old_stack[(s + 1) - 1].1 >= 1);
                                assert(adj[stack[s].0 as int][j] == v);
                            }
                        }
                        assert forall|x: int| 0 <= x < n && #[trigger] mark[x] == 1 implies on_stack(stack@, x as usize) by {
                            let s = choose|s: int| 0 <= s < old_stack.len() && old_stack[s].0 == x as usize;
                            assert(s != top);
                            assert(stack@[s].0 == x);
                        }
                    }
                }
            }
        }
        root += 1;
    }
    proof {
        let o = as_ints(order@);
        assert forall|x: int| 0 <= x < ts.len() implies #[trigger] appears_in(o, x) by {
            assert(mark[x] == 2);
            assert(o[pos[x]] == x);
        }
        assert forall|p: int, q: int|
            0 <= p < o.len() && 0 <= q < o.len() && #[trigger] depends_on(ts@, o[p], o[q]) implies q < p by {
            assert(adj[o[p]]@.contains(o[q] as usize));
            let t = choose|t: int| 0 <= t < adj[o[p]]@.len() && adj[o[p]]@[t] == o[q] as usize;
            assert(adj[order[p] as int][t] == order[q]);
        }
        assert forall|p: int, q: int| 0 <= p < o.len() && 0 <= q < o.len() && p != q
            implies #[trigger] o[p] != #[trigger] o[q] by {
            assert(pos[order[p] as int] == p);
            assert(pos[order[q] as int] == q);
        }
    }
    Ok(order)
}

/// The two nodes carry the same text in every field.
pub open spec fn same_subtask(a: Subtask, b: Subtask) -> bool {
    &&& a.id@ == b.id@
    &&& a.description@ == b.description@
    &&& a.worker_type@ == b.worker_type@
    &&& a.dependencies@.len() == b.dependencies@.len()
    &&& forall|k: int| 0 <= k < a.dependencies@.len() ==> #[trigger] a.dependencies@[k]@ == b.dependencies@[k]@
}

/// A copy of a list of strings.
pub fn copy_strings(v: &Vec<String>) -> (r: Vec<String>)
    ensures
        r@.len() == v@.len(),
        forall|k: int| 0 <= k < v@.len() ==> #[trigger] r@[k]@ == v@[k]@,
{
    let mut r: Vec<String> = Vec::new();
    let mut k: usize = 0;
    while k < v.len()
        invariant
            k <= v.len(),
            r.len() == k,
            forall|j: int| 0 <= j < k ==> #[trigger] r@[j]@ == v@[j]@,
        decreases v.len() - k,
    {
        r.push(v[k].clone());
        k += 1;
    }
    r
}

impl Subtask {
    /// A copy of this node.
    pub fn copy(&self) -> (r: Subtask)
        ensures
            same_subtask(r, *self),
    {
        Subtask {
            id: self.id.clone(),
            description: self.description.clone(),
            worker_type: self.worker_type.clone(),
            dependencies: copy_strings(&self.dependencies),
        }
    }
}

/// The nodes in an order where each follows all of its declared dependencies,
/// found by a depth-first walk that takes the nodes, and each node's
/// dependencies, in the order given. Fails, before any node could run, when
/// some node depends on itself through a chain of dependencies.
pub fn topological_sort(subtasks: &[Subtask]) -> (r: Result<Vec<Subtask>, GraphError>)
    ensures
        r is Ok <==> !has_cycle(subtasks@),
        match r {
            Ok(sorted) => exists|order: Seq<int>|
                is_dependency_order(subtasks@, order) && sorted@.len() == order.len()
                    && forall|p: int| 0 <= p < order.len()
                        ==> #[trigger] same_subtask(sorted@[p], subtasks@[order[p]]),
            Err(GraphError::CircularDependency(id)) => exists|path: Seq<int>|
                is_cycle(subtasks@, path) && 0 <= path[0] < subtasks@.len()
                    && subtasks@[path[0]].id@ == id@,
        },
{
    match dependency_order(subtasks) {
        Ok(order) => {
            let mut sorted: Vec<Subtask> = Vec::new();
            let mut p: usize = 0;
            proof {
                assert forall|q: int| 0 <= q < order.len() implies order[q] < subtasks.len() by {
                    assert(0 <= as_ints(order@)[q] < subtasks.len());
                }
            }
            while p < order.len()
                invariant
                    p <= order.len(),
                    sorted.len() == p,
                    forall|q: int| 0 <= q < order.len() ==> order[q] < subtasks.len(),
                    forall|q: int| 0 <= q < p ==> #[trigger] same_subtask(sorted@[q], subtasks@[order[q] as int]),
                decreases order.len() - p,
            {
                proof {
                    assert(0 <= as_ints(order@)[p as int] < subtasks.len());
                }
                sorted.push(subtasks[order[p]].copy());
                p += 1;
            }
            proof {
                lemma_ordered_graph_is_acyclic(subtasks@, as_ints(order@));
                assert forall|q: int| 0 <= q < order.len() implies
                    #[trigger] same_subtask(sorted@[q], subtasks@[as_ints(order@)[q]]) by {
                    assert(as_ints(order@)[q] == order[q] as int);
                }
            }
            Ok(sorted)
        },
        Err(x) => {
            let id = subtasks[x].id.clone();
            Err(GraphError::CircularDependency(id))
        },
    }
}

} // verus!
