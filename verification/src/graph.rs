//! The dependency graph of a program's definitions, for one target language,
//! and the declarations and definitions a backend emits from it.
//!
//! Every type and function is a node; a node has an edge to each type its
//! definition uses. The strongly connected components of the graph, in
//! reverse topological order, give the order of definitions; within a
//! component every node but the first is forward-declared first.

use vstd::prelude::*;
use crate::ast::PunEnv;
use crate::types::{TypedProgram, TypedProgramV, Ty, TyV, FieldTyV, TypeErrV, KdlScriptTypeError, PunBlockTyV,
    PunBlockTy, TaggedVariantTyV, spec_pick_block, no_pun_block, program_ok, tys_ok, ty_refs_ok, fields_below,
    args_below, func_below, fields_view, FuncV, ArgV};

verus! {

#[verifier::external_type_specification]
#[verifier::external_body]
#[verifier::reject_recursive_types(N)]
#[verifier::reject_recursive_types(E)]
#[verifier::reject_recursive_types(Dir)]
#[verifier::reject_recursive_types(Ix)]
pub struct ExGraph<N, E, Dir, Ix>(petgraph::graph::Graph<N, E, Dir, Ix>);

#[verifier::external_type_specification]
#[verifier::external_body]
pub struct ExDirected(petgraph::Directed);

/// A node of the dependency graph.
#[derive(Debug, Clone, Copy, PartialEq, Eq, Structural)]
pub enum DefinitionGraphNode {
    Func(usize),
    Ty(usize),
}

/// A directed graph of definitions, indexed by `usize`.
pub type DefGraph = petgraph::graph::Graph<DefinitionGraphNode, (), petgraph::Directed, usize>;

/// The nodes of a graph, in the order they were added: each one's weight
/// and its successors in the order their edges were added.
pub uninterp spec fn graph_adj(g: DefGraph) -> Seq<(DefinitionGraphNode, Seq<usize>)>;

/// The successor lists of a graph's nodes.
pub open spec fn succs(adj: Seq<(DefinitionGraphNode, Seq<usize>)>) -> Seq<Seq<usize>> {
    adj.map_values(|p: (DefinitionGraphNode, Seq<usize>)| p.1)
}

/// The position of the component of `order` that holds node `v`.
pub open spec fn comp_of(order: Seq<Seq<usize>>, v: int) -> int {
    choose|c: int| 0 <= c < order.len() && order[c].contains(v as usize)
}

/// Whether some component holds node `v`.
pub open spec fn in_order(order: Seq<Seq<usize>>, v: int) -> bool {
    exists|c: int| 0 <= c < order.len() && #[trigger] order[c].contains(v as usize)
}

/// Whether a walk of the graph leads from `u` to `v` (one of no edges
/// from `u` to itself included).
pub open spec fn reaches(succ: Seq<Seq<usize>>, u: usize, v: int) -> bool {
    reachable(succ, seq![u], v)
}

/// Each component is one strongly connected component: it is not empty,
/// and it holds exactly the nodes that its first node reaches and that
/// reach it.
#[verifier::opaque]
pub open spec fn comps_strong(order: Seq<Seq<usize>>, succ: Seq<Seq<usize>>) -> bool {
    &&& forall|c: int| 0 <= c < order.len() ==> (#[trigger] order[c]).len() > 0
    &&& forall|c: int, v: int| 0 <= c < order.len() && 0 <= v < succ.len() ==>
        (#[trigger] order[c].contains(v as usize) <==> (reaches(succ, order[c][0], v) && reaches(succ, v as usize, order[c][0] as int)))
}

/// Every node `0..n` is in exactly one component, once; each component is
/// one strongly connected component; and a component holding a node with
/// an edge into another component comes after it.
pub open spec fn sccs_ok(order: Seq<Seq<usize>>, succ: Seq<Seq<usize>>) -> bool {
    &&& comps_strong(order, succ)
    &&& forall|c: int, k: int| 0 <= c < order.len() && 0 <= k < order[c].len() ==> #[trigger] order[c][k] < succ.len()
    &&& forall|v: int| 0 <= v < succ.len() ==> #[trigger] in_order(order, v)
    &&& forall|c1: int, k1: int, c2: int, k2: int|
        0 <= c1 < order.len() && 0 <= k1 < order[c1].len() && 0 <= c2 < order.len() && 0 <= k2 < order[c2].len()
        && #[trigger] order[c1][k1] == #[trigger] order[c2][k2] ==> c1 == c2 && k1 == k2
    &&& forall|u: int, j: int| 0 <= u < succ.len() && 0 <= j < succ[u].len()
        ==> comp_of(order, #[trigger] succ[u][j] as int) <= comp_of(order, u)
}

/// An empty graph.
///
/// Trusted: calls `Graph::new`, which makes a graph with no nodes.
#[verifier::external_body]
fn graph_new() -> (g: DefGraph)
    ensures
        graph_adj(g) == Seq::<(DefinitionGraphNode, Seq<usize>)>::empty(),
{
    petgraph::graph::Graph::default()
}

/// Adds a node, giving its index.
///
/// Trusted: calls `Graph::add_node`, which appends a node with no edges
/// and returns its index (the number of nodes before); with `usize`
/// indices it never reaches the index limit it checks.
#[verifier::external_body]
fn graph_add_node(g: &mut DefGraph, w: DefinitionGraphNode) -> (i: usize)
    ensures
        graph_adj(*final(g)) == graph_adj(*old(g)).push((w, Seq::<usize>::empty())),
        i == graph_adj(*old(g)).len(),
{
    g.add_node(w).index()
}

/// Adds the edge `a -> b` unless it is there.
///
/// Trusted: calls `Graph::update_edge`, which finds an edge `a -> b` and
/// only replaces its weight, or else adds the edge (`add_edge`, which
/// panics on a missing node: left out by `requires`).
#[verifier::external_body]
fn graph_update_edge(g: &mut DefGraph, a: usize, b: usize)
    requires
        a < graph_adj(*old(g)).len(),
        b < graph_adj(*old(g)).len(),
    ensures
        graph_adj(*final(g)) == graph_adj(*old(g)).update(a as int, (graph_adj(*old(g))[a as int].0,
            if graph_adj(*old(g))[a as int].1.contains(b) {
                graph_adj(*old(g))[a as int].1
            } else {
                graph_adj(*old(g))[a as int].1.push(b)
            })),
{
    g.update_edge(petgraph::graph::NodeIndex::new(a), petgraph::graph::NodeIndex::new(b), ());
}

/// The weight of node `i`.
///
/// Trusted: indexes the graph (`Index<NodeIndex>`), which gives the weight
/// the node was added with, and panics on a missing node (left out by
/// `requires`).
#[verifier::external_body]
fn graph_weight(g: &DefGraph, i: usize) -> (w: DefinitionGraphNode)
    requires
        i < graph_adj(*g).len(),
    ensures
        w == graph_adj(*g)[i as int].0,
{
    g[petgraph::graph::NodeIndex::new(i)]
}

/// The strongly connected components of the graph.
///
/// Trusted: calls `petgraph::algo::kosaraju_scc`; its documentation says
/// each element is a strongly connected component (so each holds exactly
/// the nodes mutually reachable with any one of its nodes) and the components come
/// in reverse topological order (a component after those it has edges
/// into). Which order components without edges between them come in is not
/// stated: it depends on the order the edges were added in.
#[verifier::external_body]
fn graph_sccs(g: &DefGraph) -> (r: Vec<Vec<usize>>)
    ensures
        sccs_ok(r@.map_values(|c: Vec<usize>| c@), succs(graph_adj(*g))),
{
    petgraph::algo::kosaraju_scc(g).into_iter().map(|c| c.into_iter().map(|n| n.index()).collect()).collect()
}


/// The types of the fields.
pub open spec fn field_tys(fs: Seq<FieldTyV>) -> Seq<usize> {
    fs.map_values(|f: FieldTyV| f.ty)
}

/// The types of the fields of the first `k` variants.
pub open spec fn variant_tys(vs: Seq<TaggedVariantTyV>, k: int) -> Seq<usize>
    decreases k,
{
    if k <= 0 || k > vs.len() {
        Seq::empty()
    } else {
        variant_tys(vs, k - 1) + match vs[k - 1].fields {
            Some(fs) => field_tys(fs),
            None => Seq::empty(),
        }
    }
}

/// The types a type's definition uses, in order; a pun uses the type it
/// stands for in the language `lang`, if it has one there.
pub open spec fn ty_deps(t: TyV, lang: Seq<char>) -> Result<Seq<usize>, TypeErrV> {
    match t {
        TyV::Struct { fields, .. } => Ok(field_tys(fields)),
        TyV::Union { fields, .. } => Ok(field_tys(fields)),
        TyV::Tagged { variants, .. } => Ok(variant_tys(variants, variants.len() as int)),
        TyV::Alias { real: target, .. } => Ok(seq![target]),
        TyV::Pun { name, blocks, .. } => match spec_pick_block(blocks, lang, 0) {
            Some(target) => Ok(seq![target]),
            None => Err(no_pun_block(name, lang)),
        },
        TyV::Array(a) => Ok(seq![a.elem_ty]),
        TyV::Ref(r) => Ok(seq![r.pointee_ty]),
        _ => Ok(Seq::empty()),
    }
}

/// `list` with the first `k` of `es` added in order, each unless already there.
pub open spec fn add_edges(list: Seq<usize>, es: Seq<usize>, k: int) -> Seq<usize>
    decreases k,
{
    if k <= 0 || k > es.len() {
        list
    } else {
        let l = add_edges(list, es, k - 1);
        if l.contains(es[k - 1]) { l } else { l.push(es[k - 1]) }
    }
}

/// The nodes of the first `k` types: each with its dependencies.
pub open spec fn ty_nodes(tys: Seq<TyV>, lang: Seq<char>, k: int) -> Result<Seq<(DefinitionGraphNode, Seq<usize>)>, TypeErrV>
    decreases k,
{
    if k <= 0 || k > tys.len() {
        Ok(Seq::empty())
    } else {
        match ty_nodes(tys, lang, k - 1) {
            Err(e) => Err(e),
            Ok(a) => match ty_deps(tys[k - 1], lang) {
                Err(e) => Err(e),
                Ok(d) => Ok(a.push((DefinitionGraphNode::Ty((k - 1) as usize), add_edges(Seq::empty(), d, d.len() as int)))),
            },
        }
    }
}

/// The types of a function's arguments, inputs then outputs.
pub open spec fn func_deps(f: FuncV) -> Seq<usize> {
    f.inputs.map_values(|a: ArgV| a.ty) + f.outputs.map_values(|a: ArgV| a.ty)
}

/// The nodes of the first `k` functions: each with the types of its arguments.
pub open spec fn func_node_list(funcs: Seq<FuncV>, k: int) -> Seq<(DefinitionGraphNode, Seq<usize>)>
    decreases k,
{
    if k <= 0 || k > funcs.len() {
        Seq::empty()
    } else {
        func_node_list(funcs, k - 1).push((DefinitionGraphNode::Func((k - 1) as usize),
            add_edges(Seq::empty(), func_deps(funcs[k - 1]), func_deps(funcs[k - 1]).len() as int)))
    }
}

/// The dependency graph of a program for the language `lang`: a node per
/// type (by id), then a node per function.
pub open spec fn spec_graph(p: TypedProgramV, lang: Seq<char>) -> Result<Seq<(DefinitionGraphNode, Seq<usize>)>, TypeErrV> {
    match ty_nodes(p.tcx.tys, lang, p.tcx.tys.len() as int) {
        Err(e) => Err(e),
        Ok(a) => Ok(a + func_node_list(p.funcs, p.funcs.len() as int)),
    }
}

/// The dependency graph of a program's definitions for one target language.
#[derive(Debug)]
pub struct DefinitionGraph {
    graph: DefGraph,
    func_nodes: Vec<usize>,
    def_order: Vec<Vec<usize>>,
}

/// The abstract form of a [`DefinitionGraph`].
pub struct DefinitionGraphV {
    /// The nodes: each one's weight and successors.
    pub adj: Seq<(DefinitionGraphNode, Seq<usize>)>,
    /// The node of each function.
    pub func_nodes: Seq<usize>,
    /// The strongly connected components, in reverse topological order.
    pub order: Seq<Seq<usize>>,
}

impl View for DefinitionGraph {
    type V = DefinitionGraphV;

    closed spec fn view(&self) -> DefinitionGraphV {
        DefinitionGraphV {
            adj: graph_adj(self.graph),
            func_nodes: self.func_nodes@,
            order: self.def_order@.map_values(|c: Vec<usize>| c@),
        }
    }
}

/// The graph's order is the components of its edges, and function nodes
/// are nodes.
pub open spec fn graph_ok(g: DefinitionGraphV) -> bool {
    &&& sccs_ok(g.order, succs(g.adj))
    &&& forall|f: int| 0 <= f < g.func_nodes.len() ==> #[trigger] g.func_nodes[f] < g.adj.len()
    &&& forall|u: int, j: int| 0 <= u < g.adj.len() && 0 <= j < g.adj[u].1.len() ==> #[trigger] g.adj[u].1[j] < g.adj.len()
    &&& weights_distinct(g.adj)
}

/// No two nodes have the same weight.
pub open spec fn weights_distinct(adj: Seq<(DefinitionGraphNode, Seq<usize>)>) -> bool {
    forall|a: int, b: int| 0 <= a < adj.len() && 0 <= b < adj.len() && #[trigger] adj[a].0 == #[trigger] adj[b].0 ==> a == b
}

proof fn lemma_ty_nodes_weights(tys: Seq<TyV>, lang: Seq<char>, k: int)
    requires
        0 <= k <= tys.len(),
        ty_nodes(tys, lang, k) is Ok,
    ensures
        ty_nodes(tys, lang, k)->Ok_0.len() == k,
        forall|j: int| 0 <= j < k ==> (#[trigger] ty_nodes(tys, lang, k)->Ok_0[j]).0 == DefinitionGraphNode::Ty(j as usize),
    decreases k,
{
    if k > 0 {
        lemma_ty_nodes_weights(tys, lang, k - 1);
    }
}

proof fn lemma_func_node_list_weights(funcs: Seq<FuncV>, k: int)
    requires
        0 <= k <= funcs.len(),
    ensures
        func_node_list(funcs, k).len() == k,
        forall|j: int| 0 <= j < k ==> (#[trigger] func_node_list(funcs, k)[j]).0 == DefinitionGraphNode::Func(j as usize),
    decreases k,
{
    if k > 0 {
        lemma_func_node_list_weights(funcs, k - 1);
    }
}

proof fn lemma_pick_below(bs: Seq<PunBlockTyV>, lang: Seq<char>, i: int, n: int)
    requires
        forall|b: int| 0 <= b < bs.len() ==> (#[trigger] bs[b]).real < n,
    ensures
        spec_pick_block(bs, lang, i) matches Some(r) ==> r < n,
    decreases bs.len() - i,
{
    if 0 <= i < bs.len() {
        lemma_pick_below(bs, lang, i + 1, n);
    }
}

proof fn lemma_add_edges_below(list: Seq<usize>, es: Seq<usize>, k: int, n: int)
    requires
        forall|j: int| 0 <= j < list.len() ==> #[trigger] list[j] < n,
        forall|j: int| 0 <= j < es.len() ==> #[trigger] es[j] < n,
    ensures
        forall|j: int| 0 <= j < add_edges(list, es, k).len() ==> #[trigger] add_edges(list, es, k)[j] < n,
    decreases k,
{
    if 0 < k <= es.len() {
        lemma_add_edges_below(list, es, k - 1, n);
        let l = add_edges(list, es, k - 1);
        assert(es[k - 1] < n);
        if !l.contains(es[k - 1]) {
            assert forall|j: int| 0 <= j < l.push(es[k - 1]).len() implies #[trigger] l.push(es[k - 1])[j] < n by {
                if j < l.len() {
                    assert(l.push(es[k - 1])[j] == l[j]);
                }
            }
        }
    }
}

proof fn lemma_func_node_list_len(funcs: Seq<FuncV>, k: int)
    requires
        0 <= k <= funcs.len(),
    ensures
        func_node_list(funcs, k).len() == k,
    decreases k,
{
    if k > 0 {
        lemma_func_node_list_len(funcs, k - 1);
    }
}

proof fn lemma_add_edges_contains(list: Seq<usize>, es: Seq<usize>, k: int)
    requires
        0 <= k <= es.len(),
    ensures
        forall|j: int| 0 <= j < k ==> #[trigger] add_edges(list, es, k).contains(es[j]),
        forall|x: usize| list.contains(x) ==> add_edges(list, es, k).contains(x),
    decreases k,
{
    if k > 0 {
        lemma_add_edges_contains(list, es, k - 1);
        let l = add_edges(list, es, k - 1);
        if !l.contains(es[k - 1]) {
            assert(l.push(es[k - 1])[l.len() as int] == es[k - 1]);
            assert forall|x: usize| l.contains(x) implies l.push(es[k - 1]).contains(x) by {
                let i = choose|i: int| 0 <= i < l.len() && l[i] == x;
                assert(l.push(es[k - 1])[i] == x);
            }
        }
        assert forall|j: int| 0 <= j < k implies #[trigger] add_edges(list, es, k).contains(es[j]) by {
            if j < k - 1 {
                assert(l.contains(es[j]));
            }
        }
    }
}

proof fn lemma_func_node_list_at(funcs: Seq<FuncV>, k: int, f: int)
    requires
        0 <= f < k <= funcs.len(),
    ensures
        func_node_list(funcs, k)[f] == (DefinitionGraphNode::Func(f as usize),
            add_edges(Seq::empty(), func_deps(funcs[f]), func_deps(funcs[f]).len() as int)),
    decreases k,
{
    lemma_func_node_list_len(funcs, k - 1);
    if f < k - 1 {
        lemma_func_node_list_at(funcs, k - 1, f);
    }
}

/// A function's node has an edge to the type of each of its arguments,
/// its inputs and its outputs alike, so each is defined before the
/// function.
pub proof fn lemma_function_uses_its_arguments(p: TypedProgramV, lang: Seq<char>, adj: Seq<(DefinitionGraphNode, Seq<usize>)>, f: int)
    requires
        spec_graph(p, lang) == Ok::<Seq<(DefinitionGraphNode, Seq<usize>)>, TypeErrV>(adj),
        0 <= f < p.funcs.len(),
    ensures
        adj[p.tcx.tys.len() + f].0 == DefinitionGraphNode::Func(f as usize),
        forall|i: int| 0 <= i < p.funcs[f].inputs.len() ==> adj[p.tcx.tys.len() + f].1.contains(#[trigger] p.funcs[f].inputs[i].ty),
        forall|o: int| 0 <= o < p.funcs[f].outputs.len() ==> adj[p.tcx.tys.len() + f].1.contains(#[trigger] p.funcs[f].outputs[o].ty),
{
    let n = p.tcx.tys.len() as int;
    lemma_ty_nodes_weights(p.tcx.tys, lang, n);
    let tn = ty_nodes(p.tcx.tys, lang, n)->Ok_0;
    let fl = func_node_list(p.funcs, p.funcs.len() as int);
    lemma_func_node_list_at(p.funcs, p.funcs.len() as int, f);
    lemma_func_node_list_len(p.funcs, p.funcs.len() as int);
    assert(adj == tn + fl);
    assert(adj[n + f] == fl[f]);
    let deps = func_deps(p.funcs[f]);
    lemma_add_edges_contains(Seq::empty(), deps, deps.len() as int);
    let ins = p.funcs[f].inputs;
    let outs = p.funcs[f].outputs;
    assert forall|i: int| 0 <= i < ins.len() implies adj[n + f].1.contains(#[trigger] ins[i].ty) by {
        assert(deps[i] == ins[i].ty);
    }
    assert forall|o: int| 0 <= o < outs.len() implies adj[n + f].1.contains(#[trigger] outs[o].ty) by {
        assert(deps[ins.len() + o] == outs[o].ty);
    }
}

/// Adds the edges from node `a` to each of `es`, in order.
fn add_edges_to(g: &mut DefGraph, a: usize, es: &Vec<usize>)
    requires
        a < graph_adj(*old(g)).len(),
        forall|j: int| 0 <= j < es@.len() ==> #[trigger] es@[j] < graph_adj(*old(g)).len(),
    ensures
        graph_adj(*final(g)) == graph_adj(*old(g)).update(a as int,
            (graph_adj(*old(g))[a as int].0, add_edges(graph_adj(*old(g))[a as int].1, es@, es@.len() as int))),
{
    let ghost g0 = graph_adj(*g);
    let mut k: usize = 0;
    while k < es.len()
        invariant
            k <= es@.len(),
            a < g0.len(),
            forall|j: int| 0 <= j < es@.len() ==> #[trigger] es@[j] < g0.len(),
            graph_adj(*g) == g0.update(a as int, (g0[a as int].0, add_edges(g0[a as int].1, es@, k as int))),
        decreases es@.len() - k,
    {
        graph_update_edge(g, a, es[k]);
        k = k + 1;
        assert(graph_adj(*g) =~= g0.update(a as int, (g0[a as int].0, add_edges(g0[a as int].1, es@, k as int))));
    }
}

/// The field types, as a list.
fn field_ty_list(fs: &Vec<crate::types::FieldTy>, out: &mut Vec<usize>)
    ensures
        final(out)@ == old(out)@ + field_tys(fields_view(fs@)),
{
    let ghost o0 = out@;
    let mut j: usize = 0;
    while j < fs.len()
        invariant
            j <= fs@.len(),
            out@ == o0 + field_tys(fields_view(fs@)).subrange(0, j as int),
        decreases fs@.len() - j,
    {
        out.push(fs[j].ty);
        j = j + 1;
        assert(out@ =~= o0 + field_tys(fields_view(fs@)).subrange(0, j as int));
    }
    assert(field_tys(fields_view(fs@)).subrange(0, j as int) =~= field_tys(fields_view(fs@)));
}

impl TypedProgram {
    /// The dependencies of the type with id `i` in the environment `env`.
    fn deps_of(&self, i: usize, env: &PunEnv) -> (r: Result<Vec<usize>, KdlScriptTypeError>)
        requires
            i < self@.tcx.tys.len(),
        ensures
            match r {
                Ok(v) => ty_deps(self@.tcx.tys[i as int], env.lang@) == Ok::<Seq<usize>, TypeErrV>(v@)
                    && forall|j: int| 0 <= j < v@.len() ==> #[trigger] v@[j] < self@.tcx.tys.len(),
                Err(e) => ty_deps(self@.tcx.tys[i as int], env.lang@) == Err::<Seq<usize>, TypeErrV>(e@),
            },
    {
        let n = self.num_tys();
        let mut out: Vec<usize> = Vec::new();
        match self.realize_ty(i) {
            Ty::Struct(st) => {
                field_ty_list(&st.fields, &mut out);
                assert(out@ =~= field_tys(fields_view(st.fields@)));
                assert forall|j: int| 0 <= j < out@.len() implies #[trigger] out@[j] < n by {
                    assert(fields_view(st.fields@)[j].ty < n);
                }
            },
            Ty::Union(ut) => {
                field_ty_list(&ut.fields, &mut out);
                assert(out@ =~= field_tys(fields_view(ut.fields@)));
                assert forall|j: int| 0 <= j < out@.len() implies #[trigger] out@[j] < n by {
                    assert(fields_view(ut.fields@)[j].ty < n);
                }
            },
            Ty::Tagged(tt) => {
                let ghost vv = tt.variants@.map_values(|v: crate::types::TaggedVariantTy| v@);
                let mut k: usize = 0;
                while k < tt.variants.len()
                    invariant
                        k <= tt.variants@.len(),
                        n == self@.tcx.tys.len(),
                        vv == tt.variants@.map_values(|v: crate::types::TaggedVariantTy| v@),
                        forall|v: int| 0 <= v < vv.len() ==> ((#[trigger] vv[v]).fields matches Some(fs) ==> fields_below(fs, n as int)),
                        out@ == variant_tys(vv, k as int),
                        forall|j: int| 0 <= j < out@.len() ==> #[trigger] out@[j] < n,
                    decreases tt.variants@.len() - k,
                {
                    assert(vv[k as int] == tt.variants@[k as int]@);
                    let ghost before = out@;
                    if let Some(fs) = &tt.variants[k].fields {
                        field_ty_list(fs, &mut out);
                        assert(fields_below(fields_view(fs@), n as int));
                        assert forall|j: int| 0 <= j < out@.len() implies #[trigger] out@[j] < n by {
                            if j >= before.len() {
                                assert(out@[j] == fields_view(fs@)[j - before.len()].ty);
                            }
                        }
                    } else {
                        assert(out@ =~= before + Seq::<usize>::empty());
                    }
                    k = k + 1;
                }
            },
            Ty::Alias(at) => {
                out.push(at.real);
                assert(out@ =~= seq![at.real]);
            },
            Ty::Pun(pt) => {
                let target = self.resolve_pun(pt, env)?;
                proof {
                    lemma_pick_below(pt.blocks@.map_values(|b: PunBlockTy| b@), env.lang@, 0, n as int);
                }
                out.push(target);
                assert(out@ =~= seq![target]);
            },
            Ty::Array(at) => {
                out.push(at.elem_ty);
                assert(out@ =~= seq![at.elem_ty]);
            },
            Ty::Ref(rt) => {
                out.push(rt.pointee_ty);
                assert(out@ =~= seq![rt.pointee_ty]);
            },
            _ => {
                assert(out@ =~= Seq::<usize>::empty());
            },
        }
        Ok(out)
    }

    /// The dependency graph of the program's definitions in the environment
    /// `env`; it fails where a pun has no block for `env`.
    pub fn definition_graph(&self, env: &PunEnv) -> (r: Result<DefinitionGraph, KdlScriptTypeError>)
        ensures
            match r {
                Ok(g) => spec_graph(self@, env.lang@) == Ok::<Seq<(DefinitionGraphNode, Seq<usize>)>, TypeErrV>(g@.adj)
                    && g@.func_nodes == Seq::new(self@.funcs.len(), |f: int| (self@.tcx.tys.len() + f) as usize)
                    && graph_ok(g@),
                Err(e) => spec_graph(self@, env.lang@) == Err::<Seq<(DefinitionGraphNode, Seq<usize>)>, TypeErrV>(e@),
            },
    {
        let nt = self.num_tys();
        let nf = self.num_funcs();
        let mut g = graph_new();
        let mut i: usize = 0;
        while i < nt
            invariant
                i <= nt,
                nt == self@.tcx.tys.len(),
                graph_adj(g) == Seq::new(i as nat, |k: int| (DefinitionGraphNode::Ty(k as usize), Seq::<usize>::empty())),
            decreases nt - i,
        {
            graph_add_node(&mut g, DefinitionGraphNode::Ty(i));
            i = i + 1;
            assert(graph_adj(g) =~= Seq::new(i as nat, |k: int| (DefinitionGraphNode::Ty(k as usize), Seq::<usize>::empty())));
        }
        let ghost tys = self@.tcx.tys;
        let ghost lang = env.lang@;
        i = 0;
        while i < nt
            invariant
                i <= nt,
                nt == self@.tcx.tys.len(),
                tys == self@.tcx.tys,
                lang == env.lang@,
                graph_adj(g).len() == nt,
                ty_nodes(tys, lang, i as int) is Ok,
                forall|k: int| 0 <= k < i ==> #[trigger] graph_adj(g)[k] == ty_nodes(tys, lang, i as int)->Ok_0[k],
                forall|k: int| i <= k < nt ==> #[trigger] graph_adj(g)[k] == (DefinitionGraphNode::Ty(k as usize), Seq::<usize>::empty()),
                forall|u: int, j: int| 0 <= u < graph_adj(g).len() && 0 <= j < graph_adj(g)[u].1.len() ==> #[trigger] graph_adj(g)[u].1[j] < nt,
                ty_nodes(tys, lang, i as int)->Ok_0.len() == i,
            decreases nt - i,
        {
            let deps = match self.deps_of(i, env) {
                Ok(d) => d,
                Err(e) => {
                    proof { lemma_ty_nodes_err(tys, lang, (i + 1) as int, nt as int); }
                    return Err(e);
                },
            };
            let ghost g0 = graph_adj(g);
            add_edges_to(&mut g, i, &deps);
            proof {
                lemma_add_edges_below(Seq::empty(), deps@, deps@.len() as int, nt as int);
                assert(g0[i as int].1 =~= Seq::<usize>::empty());
                let prev = ty_nodes(tys, lang, i as int)->Ok_0;
                assert(ty_nodes(tys, lang, (i + 1) as int)->Ok_0 == prev.push((DefinitionGraphNode::Ty(i), add_edges(Seq::empty(), deps@, deps@.len() as int))));
                assert forall|u: int, j: int| 0 <= u < graph_adj(g).len() && 0 <= j < graph_adj(g)[u].1.len()
                    implies #[trigger] graph_adj(g)[u].1[j] < nt by {
                    if u != i {
                        assert(graph_adj(g)[u] == g0[u]);
                    }
                }
            }
            i = i + 1;
        }
        assert(graph_adj(g) =~= ty_nodes(tys, lang, nt as int)->Ok_0);
        let ghost tadj = graph_adj(g);
        let ghost fv = self@.funcs;
        let mut func_nodes: Vec<usize> = Vec::new();
        let mut f: usize = 0;
        while f < nf
            invariant
                f <= nf,
                nf == self@.funcs.len(),
                nt == self@.tcx.tys.len(),
                fv == self@.funcs,
                tadj.len() == nt,
                graph_adj(g) == tadj + func_node_list(fv, f as int),
                func_nodes@ == Seq::new(f as nat, |k: int| (nt + k) as usize),
                forall|u: int, j: int| 0 <= u < graph_adj(g).len() && 0 <= j < graph_adj(g)[u].1.len() ==> #[trigger] graph_adj(g)[u].1[j] < nt,
                forall|u: int, j: int| 0 <= u < tadj.len() && 0 <= j < tadj[u].1.len() ==> #[trigger] tadj[u].1[j] < nt,
            decreases nf - f,
        {
            let func = self.realize_func(f);
            let mut deps: Vec<usize> = Vec::new();
            let mut a: usize = 0;
            while a < func.inputs.len()
                invariant
                    a <= func.inputs@.len(),
                    deps@ == func@.inputs.map_values(|x: ArgV| x.ty).subrange(0, a as int),
                decreases func.inputs@.len() - a,
            {
                assert(func@.inputs[a as int] == func.inputs@[a as int]@);
                deps.push(func.inputs[a].ty);
                a = a + 1;
                assert(deps@ =~= func@.inputs.map_values(|x: ArgV| x.ty).subrange(0, a as int));
            }
            let mut a: usize = 0;
            while a < func.outputs.len()
                invariant
                    a <= func.outputs@.len(),
                    deps@ == func@.inputs.map_values(|x: ArgV| x.ty) + func@.outputs.map_values(|x: ArgV| x.ty).subrange(0, a as int),
                decreases func.outputs@.len() - a,
            {
                assert(func@.outputs[a as int] == func.outputs@[a as int]@);
                deps.push(func.outputs[a].ty);
                a = a + 1;
                assert(deps@ =~= func@.inputs.map_values(|x: ArgV| x.ty) + func@.outputs.map_values(|x: ArgV| x.ty).subrange(0, a as int));
            }
            assert(deps@ =~= func_deps(func@));
            proof {
                assert(func_below(func@, nt as int));
                assert forall|j: int| 0 <= j < deps@.len() implies #[trigger] deps@[j] < nt by {
                    if j < func@.inputs.len() {
                        assert(deps@[j] == func@.inputs[j].ty);
                    } else {
                        assert(deps@[j] == func@.outputs[j - func@.inputs.len()].ty);
                    }
                }
            }
            let ghost g0 = graph_adj(g);
            proof { lemma_func_node_list_len(fv, f as int); }
            let node = graph_add_node(&mut g, DefinitionGraphNode::Func(f));
            assert(node == nt + f);
            add_edges_to(&mut g, node, &deps);
            func_nodes.push(node);
            proof {
                lemma_add_edges_below(Seq::empty(), deps@, deps@.len() as int, nt as int);
                assert(graph_adj(g) =~= tadj + func_node_list(fv, (f + 1) as int));
                assert forall|u: int, j: int| 0 <= u < graph_adj(g).len() && 0 <= j < graph_adj(g)[u].1.len()
                    implies #[trigger] graph_adj(g)[u].1[j] < nt by {
                    if u < g0.len() {
                        assert(graph_adj(g)[u] == g0[u]);
                    }
                }
                assert(func_nodes@ =~= Seq::new((f + 1) as nat, |k: int| (nt + k) as usize));
            }
            f = f + 1;
        }
        let order = graph_sccs(&g);
        proof {
            lemma_func_node_list_len(fv, nf as int);
            assert(spec_graph(self@, env.lang@) == Ok::<Seq<(DefinitionGraphNode, Seq<usize>)>, TypeErrV>(tadj + func_node_list(fv, nf as int)));
            let gv = DefinitionGraphV { adj: graph_adj(g), func_nodes: func_nodes@, order: order@.map_values(|c: Vec<usize>| c@) };
            assert forall|k: int| 0 <= k < gv.func_nodes.len() implies #[trigger] gv.func_nodes[k] < gv.adj.len() by {}
            assert forall|u: int, j: int| 0 <= u < gv.adj.len() && 0 <= j < gv.adj[u].1.len()
                implies #[trigger] gv.adj[u].1[j] < gv.adj.len() by {}
            lemma_ty_nodes_weights(tys, lang, nt as int);
            lemma_func_node_list_weights(fv, nf as int);
            assert forall|a: int, b: int| 0 <= a < gv.adj.len() && 0 <= b < gv.adj.len() && #[trigger] gv.adj[a].0 == #[trigger] gv.adj[b].0
                implies a == b by {
                if a < nt {
                    assert(gv.adj[a] == tadj[a]);
                } else {
                    assert(gv.adj[a] == func_node_list(fv, nf as int)[a - nt]);
                }
                if b < nt {
                    assert(gv.adj[b] == tadj[b]);
                } else {
                    assert(gv.adj[b] == func_node_list(fv, nf as int)[b - nt]);
                }
            }
            assert(graph_ok(gv));
        }
        let dg = DefinitionGraph { graph: g, func_nodes, def_order: order };
        proof {
            assert forall|u: int, j: int| 0 <= u < dg@.adj.len() && 0 <= j < dg@.adj[u].1.len()
                implies #[trigger] dg@.adj[u].1[j] < dg@.adj.len() by {}
        }
        Ok(dg)
    }
}

proof fn lemma_ty_nodes_err(tys: Seq<TyV>, lang: Seq<char>, k: int, n: int)
    requires
        0 < k <= n == tys.len(),
        ty_nodes(tys, lang, k - 1) is Ok,
        ty_deps(tys[k - 1], lang) is Err,
    ensures
        ty_nodes(tys, lang, n) == Err::<Seq<(DefinitionGraphNode, Seq<usize>)>, TypeErrV>(ty_deps(tys[k - 1], lang)->Err_0),
    decreases n - k,
{
    if k < n {
        lemma_ty_nodes_err_prop(tys, lang, k, n);
    }
}

proof fn lemma_ty_nodes_err_prop(tys: Seq<TyV>, lang: Seq<char>, k: int, n: int)
    requires
        0 < k <= n <= tys.len(),
        ty_nodes(tys, lang, k) is Err,
    ensures
        ty_nodes(tys, lang, n) == ty_nodes(tys, lang, k),
    decreases n - k,
{
    if k < n {
        lemma_ty_nodes_err_prop(tys, lang, k, n - 1);
    }
}



/// Whether `path` is a walk of the graph that starts at one of `roots`.
pub open spec fn is_walk(succ: Seq<Seq<usize>>, roots: Seq<usize>, path: Seq<usize>) -> bool {
    &&& path.len() > 0
    &&& roots.contains(path[0])
    &&& forall|i: int| 0 <= i < path.len() - 1 ==> #[trigger] succ[path[i] as int].contains(path[i + 1])
}

/// Whether some walk from one of `roots` ends at `v`.
pub open spec fn reachable(succ: Seq<Seq<usize>>, roots: Seq<usize>, v: int) -> bool {
    exists|path: Seq<usize>| is_walk(succ, roots, path) && path.last() == v
}

/// The nodes that a depth-first search of the graph from `roots` discovers,
/// as flags by node.
///
/// Trusted: calls `petgraph::visit::depth_first_search`, which emits a
/// `Discover` event for a start node or a successor of a discovered node
/// when it is not yet discovered: once for each node that a walk from a
/// root reaches, and for no other. A root that is not a node makes it
/// panic (left out by `requires`).
#[verifier::external_body]
fn graph_dfs_discovered(g: &DefGraph, n: usize, roots: &Vec<usize>) -> (seen: Vec<bool>)
    requires
        n == graph_adj(*g).len(),
        forall|r: int| 0 <= r < roots@.len() ==> #[trigger] roots@[r] < n,
    ensures
        seen@.len() == n,
        forall|v: int| 0 <= v < n ==> (#[trigger] seen@[v] <==> reachable(succs(graph_adj(*g)), roots@, v)),
{
    let mut seen = vec![false; n];
    petgraph::visit::depth_first_search(g, roots.iter().map(|r| petgraph::graph::NodeIndex::new(*r)), |event| {
        if let petgraph::visit::DfsEvent::Discover(node, _) = event {
            mark_seen(&mut seen, node.index());
        }
    });
    seen
}

/// Marks node `i` as discovered.
fn mark_seen(seen: &mut Vec<bool>, i: usize)
    ensures
        final(seen)@ == if i < old(seen)@.len() { old(seen)@.update(i as int, true) } else { old(seen)@ },
{
    if i < seen.len() {
        seen.set(i, true);
    }
}


/// What a backend emits for one node.
#[derive(Debug, Clone, Copy, PartialEq, Eq, Structural)]
pub enum Definition {
    /// Forward-declare this type.
    DeclareTy(usize),
    /// Define this type fully.
    DefineTy(usize),
    /// Forward-declare this function.
    DeclareFunc(usize),
    /// Define this function fully.
    DefineFunc(usize),
}

/// The forward declaration of a node.
pub open spec fn declare_of(w: DefinitionGraphNode) -> Definition {
    match w {
        DefinitionGraphNode::Func(f) => Definition::DeclareFunc(f),
        DefinitionGraphNode::Ty(t) => Definition::DeclareTy(t),
    }
}

/// The definition of a node.
pub open spec fn define_of(w: DefinitionGraphNode) -> Definition {
    match w {
        DefinitionGraphNode::Func(f) => Definition::DefineFunc(f),
        DefinitionGraphNode::Ty(t) => Definition::DefineTy(t),
    }
}

/// The nodes among the first `k` of a component that are wanted.
pub open spec fn kept(comp: Seq<usize>, wanted: Seq<bool>, k: int) -> Seq<usize>
    decreases k,
{
    if k <= 0 || k > comp.len() {
        Seq::empty()
    } else {
        let p = kept(comp, wanted, k - 1);
        if wanted[comp[k - 1] as int] { p.push(comp[k - 1]) } else { p }
    }
}

/// What a component's wanted nodes `ns` emit: every one but the first is
/// forward-declared, then all are defined.
pub open spec fn comp_defs(adj: Seq<(DefinitionGraphNode, Seq<usize>)>, ns: Seq<usize>) -> Seq<Definition> {
    (if ns.len() > 0 { ns.drop_first() } else { ns }).map_values(|x: usize| declare_of(adj[x as int].0))
        + ns.map_values(|x: usize| define_of(adj[x as int].0))
}

/// What the first `c` components emit, for the wanted nodes.
pub open spec fn spec_definitions(adj: Seq<(DefinitionGraphNode, Seq<usize>)>, order: Seq<Seq<usize>>, wanted: Seq<bool>, c: int) -> Seq<Definition>
    decreases c,
{
    if c <= 0 || c > order.len() {
        Seq::empty()
    } else {
        spec_definitions(adj, order, wanted, c - 1) + comp_defs(adj, kept(order[c - 1], wanted, order[c - 1].len() as int))
    }
}

/// The nodes of the functions `funcs`.
pub open spec fn roots_of(func_nodes: Seq<usize>, funcs: Seq<usize>) -> Seq<usize> {
    funcs.map_values(|f: usize| func_nodes[f as int])
}

/// The nodes reachable from the functions `funcs`, as flags by node.
pub open spec fn wanted_of(g: DefinitionGraphV, funcs: Seq<usize>) -> Seq<bool> {
    Seq::new(g.adj.len(), |v: int| reachable(succs(g.adj), roots_of(g.func_nodes, funcs), v))
}

proof fn lemma_defs_prefix(adj: Seq<(DefinitionGraphNode, Seq<usize>)>, order: Seq<Seq<usize>>, wanted: Seq<bool>, c1: int, c2: int)
    requires
        0 <= c1 <= c2 <= order.len(),
    ensures
        spec_definitions(adj, order, wanted, c1).len() <= spec_definitions(adj, order, wanted, c2).len(),
        spec_definitions(adj, order, wanted, c2).subrange(0, spec_definitions(adj, order, wanted, c1).len() as int)
            == spec_definitions(adj, order, wanted, c1),
    decreases c2,
{
    let d1 = spec_definitions(adj, order, wanted, c1);
    let d2 = spec_definitions(adj, order, wanted, c2);
    if c1 < c2 {
        lemma_defs_prefix(adj, order, wanted, c1, c2 - 1);
        let d = spec_definitions(adj, order, wanted, c2 - 1);
        assert(d2.subrange(0, d.len() as int) =~= d);
        assert(d2.subrange(0, d1.len() as int) =~= d.subrange(0, d1.len() as int));
    } else {
        assert(d2.subrange(0, d1.len() as int) =~= d2);
    }
}

proof fn lemma_kept(comp: Seq<usize>, wanted: Seq<bool>, k: int)
    requires
        0 <= k <= comp.len(),
    ensures
        forall|i: int| 0 <= i < kept(comp, wanted, k).len() ==>
            comp.contains(#[trigger] kept(comp, wanted, k)[i]) && wanted[kept(comp, wanted, k)[i] as int],
        forall|j: int| 0 <= j < k && wanted[comp[j] as int] ==> kept(comp, wanted, k).contains(#[trigger] comp[j]),
    decreases k,
{
    if k > 0 {
        lemma_kept(comp, wanted, k - 1);
        let p = kept(comp, wanted, k - 1);
        if wanted[comp[k - 1] as int] {
            assert(p.push(comp[k - 1])[p.len() as int] == comp[k - 1]);
            assert forall|i: int| 0 <= i < p.push(comp[k - 1]).len() implies
                comp.contains(#[trigger] p.push(comp[k - 1])[i]) && wanted[p.push(comp[k - 1])[i] as int] by {
                if i < p.len() {
                    assert(p.push(comp[k - 1])[i] == p[i]);
                }
            }
            assert forall|j: int| 0 <= j < k && wanted[comp[j] as int] implies p.push(comp[k - 1]).contains(#[trigger] comp[j]) by {
                if j < k - 1 {
                    let i = choose|i: int| 0 <= i < p.len() && p[i] == comp[j];
                    assert(p.push(comp[k - 1])[i] == comp[j]);
                }
            }
        }
    }
}

proof fn lemma_define_of_injective(a: DefinitionGraphNode, b: DefinitionGraphNode)
    requires
        define_of(a) == define_of(b),
    ensures
        a == b,
{
    match a {
        DefinitionGraphNode::Func(f) => { assert(define_of(b) == Definition::DefineFunc(f)); },
        DefinitionGraphNode::Ty(t) => { assert(define_of(b) == Definition::DefineTy(t)); },
    }
    match b {
        DefinitionGraphNode::Func(f) => {},
        DefinitionGraphNode::Ty(t) => {},
    }
}

proof fn lemma_declare_not_define(a: DefinitionGraphNode, b: DefinitionGraphNode)
    ensures
        declare_of(a) != define_of(b),
{
}

/// The number of declarations a component's wanted nodes `ns` emit first.
spec fn declared_len(ns: Seq<usize>) -> int {
    if ns.len() > 0 { ns.len() - 1 } else { 0 }
}

proof fn lemma_comp_defs_define(adj: Seq<(DefinitionGraphNode, Seq<usize>)>, ns: Seq<usize>, i: int, x: usize)
    requires
        weights_distinct(adj),
        forall|q: int| 0 <= q < ns.len() ==> #[trigger] ns[q] < adj.len(),
        x < adj.len(),
        0 <= i < comp_defs(adj, ns).len(),
        comp_defs(adj, ns)[i] == define_of(adj[x as int].0),
    ensures
        ns.contains(x),
{
    let d = declared_len(ns);
    let first = (if ns.len() > 0 { ns.drop_first() } else { ns }).map_values(|y: usize| declare_of(adj[y as int].0));
    assert(first.len() == d);
    if i < d {
        assert(comp_defs(adj, ns)[i] == first[i]);
        lemma_declare_not_define(adj[ns.drop_first()[i] as int].0, adj[x as int].0);
    } else {
        let y = ns[i - d];
        assert(comp_defs(adj, ns)[i] == define_of(adj[y as int].0));
        lemma_define_of_injective(adj[y as int].0, adj[x as int].0);
        assert(ns[i - d] == x);
    }
}

/// Each node is in the component `comp_of` picks.
proof fn lemma_comp_of(order: Seq<Seq<usize>>, succ: Seq<Seq<usize>>, x: usize, c: int)
    requires
        sccs_ok(order, succ),
        x < succ.len(),
        0 <= c < order.len(),
        order[c].contains(x),
    ensures
        comp_of(order, x as int) == c,
{
    assert(in_order(order, x as int));
    let c2 = comp_of(order, x as int);
    let k1 = choose|k: int| 0 <= k < order[c].len() && order[c][k] == x;
    let k2 = choose|k: int| 0 <= k < order[c2].len() && order[c2][k] == x;
    assert(order[c][k1] == order[c2][k2]);
}

proof fn lemma_define_in_segment(g: DefinitionGraphV, wanted: Seq<bool>, c: int, b: int, x: usize)
    requires
        graph_ok(g),
        wanted.len() == g.adj.len(),
        0 <= c <= g.order.len(),
        x < g.adj.len(),
        0 <= b < spec_definitions(g.adj, g.order, wanted, c).len(),
        spec_definitions(g.adj, g.order, wanted, c)[b] == define_of(g.adj[x as int].0),
    ensures
        wanted[x as int],
        0 <= comp_of(g.order, x as int) < c,
        spec_definitions(g.adj, g.order, wanted, comp_of(g.order, x as int)).len() <= b,
        b < spec_definitions(g.adj, g.order, wanted, comp_of(g.order, x as int) + 1).len(),
    decreases c,
{
    let prev = spec_definitions(g.adj, g.order, wanted, c - 1);
    let cur = spec_definitions(g.adj, g.order, wanted, c);
    let comp = g.order[c - 1];
    let ns = kept(comp, wanted, comp.len() as int);
    assert(cur == prev + comp_defs(g.adj, ns));
    if b < prev.len() {
        assert(cur[b] == prev[b]);
        lemma_define_in_segment(g, wanted, c - 1, b, x);
    } else {
        lemma_kept(comp, wanted, comp.len() as int);
        assert forall|q: int| 0 <= q < ns.len() implies #[trigger] ns[q] < g.adj.len() by {
            assert(comp.contains(ns[q]));
            let k = choose|k: int| 0 <= k < comp.len() && comp[k] == ns[q];
            assert(g.order[c - 1][k] < succs(g.adj).len());
        }
        assert(comp_defs(g.adj, ns)[b - prev.len()] == cur[b]);
        lemma_comp_defs_define(g.adj, ns, b - prev.len(), x);
        let i = choose|i: int| 0 <= i < ns.len() && ns[i] == x;
        assert(comp.contains(ns[i]) && wanted[ns[i] as int]);
        lemma_comp_of(g.order, succs(g.adj), x, c - 1);
    }
}

proof fn lemma_define_present(g: DefinitionGraphV, wanted: Seq<bool>, x: usize) -> (a: int)
    requires
        graph_ok(g),
        wanted.len() == g.adj.len(),
        x < g.adj.len(),
        wanted[x as int],
    ensures
        0 <= comp_of(g.order, x as int) < g.order.len(),
        spec_definitions(g.adj, g.order, wanted, comp_of(g.order, x as int)).len() <= a,
        a < spec_definitions(g.adj, g.order, wanted, comp_of(g.order, x as int) + 1).len(),
        a < spec_definitions(g.adj, g.order, wanted, g.order.len() as int).len(),
        spec_definitions(g.adj, g.order, wanted, g.order.len() as int)[a] == define_of(g.adj[x as int].0),
{
    assert(in_order(g.order, x as int));
    let c = choose|c: int| 0 <= c < g.order.len() && #[trigger] g.order[c].contains(x);
    lemma_comp_of(g.order, succs(g.adj), x, c);
    let comp = g.order[c];
    let k = choose|k: int| 0 <= k < comp.len() && comp[k] == x;
    lemma_kept(comp, wanted, comp.len() as int);
    let ns = kept(comp, wanted, comp.len() as int);
    assert(ns.contains(comp[k]));
    let i = choose|i: int| 0 <= i < ns.len() && ns[i] == x;
    let prev = spec_definitions(g.adj, g.order, wanted, c);
    let cur = spec_definitions(g.adj, g.order, wanted, c + 1);
    assert(cur == prev + comp_defs(g.adj, ns));
    let d = declared_len(ns);
    let first = (if ns.len() > 0 { ns.drop_first() } else { ns }).map_values(|y: usize| declare_of(g.adj[y as int].0));
    assert(first.len() == d);
    assert(comp_defs(g.adj, ns)[d + i] == define_of(g.adj[x as int].0));
    let a = prev.len() + d + i;
    assert(cur[a] == define_of(g.adj[x as int].0));
    lemma_defs_prefix(g.adj, g.order, wanted, c + 1, g.order.len() as int);
    let all = spec_definitions(g.adj, g.order, wanted, g.order.len() as int);
    assert(all.subrange(0, cur.len() as int)[a] == all[a]);
    a
}

/// A node's definition is among those emitted exactly when the node is
/// wanted.
pub proof fn lemma_defined_iff_wanted(g: DefinitionGraphV, wanted: Seq<bool>, x: usize)
    requires
        graph_ok(g),
        wanted.len() == g.adj.len(),
        x < g.adj.len(),
    ensures
        spec_definitions(g.adj, g.order, wanted, g.order.len() as int).contains(define_of(g.adj[x as int].0)) <==> wanted[x as int],
{
    let all = spec_definitions(g.adj, g.order, wanted, g.order.len() as int);
    if wanted[x as int] {
        let a = lemma_define_present(g, wanted, x);
        assert(all[a] == define_of(g.adj[x as int].0));
    }
    if all.contains(define_of(g.adj[x as int].0)) {
        let b = choose|b: int| 0 <= b < all.len() && all[b] == define_of(g.adj[x as int].0);
        lemma_define_in_segment(g, wanted, g.order.len() as int, b, x);
    }
}

/// Where a node whose definition is emitted uses a node of another
/// component, that node's definition is emitted before it.
pub proof fn lemma_dependencies_defined_first(g: DefinitionGraphV, funcs: Seq<usize>, u: usize, j: int, b: int)
    requires
        graph_ok(g),
        forall|i: int| 0 <= i < funcs.len() ==> #[trigger] funcs[i] < g.func_nodes.len(),
        u < g.adj.len(),
        0 <= j < g.adj[u as int].1.len(),
        comp_of(g.order, g.adj[u as int].1[j] as int) != comp_of(g.order, u as int),
        0 <= b < spec_definitions(g.adj, g.order, wanted_of(g, funcs), g.order.len() as int).len(),
        spec_definitions(g.adj, g.order, wanted_of(g, funcs), g.order.len() as int)[b] == define_of(g.adj[u as int].0),
    ensures
        exists|a: int| 0 <= a < b
            && #[trigger] spec_definitions(g.adj, g.order, wanted_of(g, funcs), g.order.len() as int)[a]
                == define_of(g.adj[g.adj[u as int].1[j] as int].0),
{
    let wanted = wanted_of(g, funcs);
    let succ = succs(g.adj);
    let roots = roots_of(g.func_nodes, funcs);
    let v = g.adj[u as int].1[j];
    lemma_define_in_segment(g, wanted, g.order.len() as int, b, u);
    assert(succ[u as int] == g.adj[u as int].1);
    assert(reachable(succ, roots, u as int));
    let pu = choose|path: Seq<usize>| is_walk(succ, roots, path) && path.last() == u;
    let pv = pu.push(v);
    assert forall|i: int| 0 <= i < pv.len() - 1 implies #[trigger] succ[pv[i] as int].contains(pv[i + 1]) by {
        if i < pu.len() - 1 {
            assert(pv[i] == pu[i] && pv[i + 1] == pu[i + 1]);
        } else {
            assert(succ[u as int][j] == v);
        }
    }
    assert(is_walk(succ, roots, pv) && pv.last() == v);
    assert(wanted[v as int]);
    assert(comp_of(g.order, succ[u as int][j] as int) <= comp_of(g.order, u as int));
    let a = lemma_define_present(g, wanted, v);
    lemma_defs_prefix(g.adj, g.order, wanted, comp_of(g.order, v as int) + 1, comp_of(g.order, u as int));
}

/// The nodes a component holds are exactly those that its first node
/// reaches and that reach it: the components are the graph's strongly
/// connected components.
pub proof fn lemma_components_are_sccs(g: DefinitionGraphV, c: int, v: int)
    requires
        graph_ok(g),
        0 <= c < g.order.len(),
        0 <= v < g.adj.len(),
    ensures
        g.order[c].len() > 0,
        g.order[c].contains(v as usize) <==> (reaches(succs(g.adj), g.order[c][0], v)
            && reaches(succs(g.adj), v as usize, g.order[c][0] as int)),
{
    reveal(comps_strong);
    assert(succs(g.adj).len() == g.adj.len());
}

impl DefinitionGraph {
    #[verifier::type_invariant]
    spec fn inv(self) -> bool {
        graph_ok(self@)
    }

    /// The forward declarations and definitions to emit for the functions
    /// `funcs`: the components in order, each with just the nodes reachable
    /// from those functions, every node but the first of a component
    /// forward-declared, then every one defined.
    pub fn definitions(&self, funcs: &Vec<usize>) -> (r: Vec<Definition>)
        requires
            forall|i: int| 0 <= i < funcs@.len() ==> #[trigger] funcs@[i] < self@.func_nodes.len(),
        ensures
            graph_ok(self@),
            r@ == spec_definitions(self@.adj, self@.order, wanted_of(self@, funcs@), self@.order.len() as int),
    {
        proof { use_type_invariant(self); }
        let n = self.node_count();
        let mut roots: Vec<usize> = Vec::new();
        let mut i: usize = 0;
        while i < funcs.len()
            invariant
                i <= funcs@.len(),
                graph_ok(self@),
                n == self@.adj.len(),
                forall|k: int| 0 <= k < funcs@.len() ==> #[trigger] funcs@[k] < self@.func_nodes.len(),
                roots@ == roots_of(self@.func_nodes, funcs@).subrange(0, i as int),
                forall|k: int| 0 <= k < roots@.len() ==> #[trigger] roots@[k] < n,
            decreases funcs@.len() - i,
        {
            roots.push(self.func_nodes[funcs[i]]);
            i = i + 1;
            assert(roots@ =~= roots_of(self@.func_nodes, funcs@).subrange(0, i as int));
        }
        assert(roots@ =~= roots_of(self@.func_nodes, funcs@));
        let seen = graph_dfs_discovered(&self.graph, n, &roots);
        assert(seen@ =~= wanted_of(self@, funcs@));
        let mut out: Vec<Definition> = Vec::new();
        let mut c: usize = 0;
        while c < self.def_order.len()
            invariant
                c <= self@.order.len(),
                graph_ok(self@),
                n == self@.adj.len(),
                seen@ == wanted_of(self@, funcs@),
                out@ == spec_definitions(self@.adj, self@.order, seen@, c as int),
            decreases self@.order.len() - c,
        {
            let comp = &self.def_order[c];
            assert(comp@ == self@.order[c as int]);
            let mut ns: Vec<usize> = Vec::new();
            let mut k: usize = 0;
            while k < comp.len()
                invariant
                    k <= comp@.len(),
                    n == self@.adj.len(),
                    seen@.len() == n,
                    forall|j: int| 0 <= j < comp@.len() ==> #[trigger] comp@[j] < n,
                    ns@ == kept(comp@, seen@, k as int),
                    forall|j: int| 0 <= j < ns@.len() ==> #[trigger] ns@[j] < n,
                decreases comp@.len() - k,
            {
                if seen[comp[k]] {
                    ns.push(comp[k]);
                }
                k = k + 1;
            }
            let ghost before = out@;
            let mut j: usize = 1;
            while j < ns.len()
                invariant
                    1 <= j <= ns@.len() || ns@.len() == 0,
                    ns@.len() == 0 ==> j == 1,
                    n == self@.adj.len(),
                    forall|q: int| 0 <= q < ns@.len() ==> #[trigger] ns@[q] < n,
                    out@ == before + ns@.drop_first().map_values(|x: usize| declare_of(self@.adj[x as int].0)).subrange(0, j - 1),
                decreases ns@.len() - j,
            {
                let w = self.node_weight(ns[j]);
                out.push(declare(w));
                j = j + 1;
                assert(out@ =~= before + ns@.drop_first().map_values(|x: usize| declare_of(self@.adj[x as int].0)).subrange(0, j - 1));
            }
            let ghost mid = out@;
            proof {
                if ns@.len() > 0 {
                    assert(ns@.drop_first().map_values(|x: usize| declare_of(self@.adj[x as int].0)).subrange(0, ns@.len() - 1)
                        =~= ns@.drop_first().map_values(|x: usize| declare_of(self@.adj[x as int].0)));
                } else {
                    assert(ns@.drop_first().map_values(|x: usize| declare_of(self@.adj[x as int].0)).subrange(0, 0)
                        =~= Seq::<Definition>::empty());
                    assert(mid =~= before);
                    assert(ns@.map_values(|x: usize| declare_of(self@.adj[x as int].0)) =~= Seq::<Definition>::empty());
                }
            }
            let mut j: usize = 0;
            while j < ns.len()
                invariant
                    j <= ns@.len(),
                    n == self@.adj.len(),
                    forall|q: int| 0 <= q < ns@.len() ==> #[trigger] ns@[q] < n,
                    out@ == mid + ns@.map_values(|x: usize| define_of(self@.adj[x as int].0)).subrange(0, j as int),
                decreases ns@.len() - j,
            {
                let w = self.node_weight(ns[j]);
                out.push(define(w));
                j = j + 1;
                assert(out@ =~= mid + ns@.map_values(|x: usize| define_of(self@.adj[x as int].0)).subrange(0, j as int));
            }
            proof {
                assert(ns@.map_values(|x: usize| define_of(self@.adj[x as int].0)).subrange(0, ns@.len() as int)
                    =~= ns@.map_values(|x: usize| define_of(self@.adj[x as int].0)));
                assert(out@ =~= before + comp_defs(self@.adj, ns@));
            }
            c = c + 1;
        }
        out
    }

    /// The number of nodes.
    fn node_count(&self) -> (r: usize)
        ensures
            r == self@.adj.len(),
    {
        proof { use_type_invariant(self); }
        graph_node_count(&self.graph)
    }

    /// The weight of node `i`.
    fn node_weight(&self, i: usize) -> (w: DefinitionGraphNode)
        requires
            i < self@.adj.len(),
        ensures
            w == self@.adj[i as int].0,
    {
        graph_weight(&self.graph, i)
    }
}

/// The forward declaration of a node.
fn declare(w: DefinitionGraphNode) -> (r: Definition)
    ensures
        r == declare_of(w),
{
    match w {
        DefinitionGraphNode::Func(f) => Definition::DeclareFunc(f),
        DefinitionGraphNode::Ty(t) => Definition::DeclareTy(t),
    }
}

/// The definition of a node.
fn define(w: DefinitionGraphNode) -> (r: Definition)
    ensures
        r == define_of(w),
{
    match w {
        DefinitionGraphNode::Func(f) => Definition::DefineFunc(f),
        DefinitionGraphNode::Ty(t) => Definition::DefineTy(t),
    }
}

/// The number of nodes of the graph.
///
/// Trusted: calls `Graph::node_count`, the number of nodes added.
#[verifier::external_body]
fn graph_node_count(g: &DefGraph) -> (r: usize)
    ensures
        r == graph_adj(*g).len(),
{
    g.node_count()
}

} // verus!
