//! The automaton builder: lowers an intermediate tree into a growing
//! nondeterministic graph.  States are opaque indices; transitions are
//! `(state, state, token)` triples; lowering only ever appends, laying
//! the tree's flattening down as one linear path of fresh states.

use vstd::prelude::*;

use crate::disamb::EdgeData;
use crate::element::{Affixes, Formatting};
use crate::markup::{stack_close_spec, stack_open_spec, Markup};
use crate::ref_ir::{affixes_view, ir_view, irs_view, is_blank, AffixesView, EdgeView, IrView, RefIR};
use petgraph::visit::EdgeRef;

verus! {

#[verifier::external_type_specification]
#[verifier::external_body]
#[verifier::reject_recursive_types(N)]
#[verifier::reject_recursive_types(E)]
#[verifier::reject_recursive_types(Ty)]
#[verifier::reject_recursive_types(Ix)]
pub struct ExGraph<N, E, Ty, Ix>(petgraph::graph::Graph<N, E, Ty, Ix>);

#[verifier::external_type_specification]
#[verifier::external_body]
pub struct ExDirected(petgraph::Directed);

/// One transition of the automaton, as a ghost value: source state,
/// target state, token.
pub struct Transition {
    pub from: nat,
    pub to: nat,
    pub label: EdgeView,
}

/// How many states the graph holds.  States are numbered consecutively
/// from zero in creation order.
pub uninterp spec fn nfa_nodes(g: petgraph::graph::Graph<(), EdgeData>) -> nat;

/// The graph's transitions, in creation order.
pub uninterp spec fn nfa_edges(g: petgraph::graph::Graph<(), EdgeData>) -> Seq<Transition>;

/// Relies on petgraph's `Graph::new`: an empty directed graph.
#[verifier::external_body]
fn graph_new() -> (r: petgraph::graph::Graph<(), EdgeData>)
    ensures
        nfa_nodes(r) == 0,
        nfa_edges(r) == Seq::<Transition>::empty(),
{
    petgraph::graph::Graph::new()
}

/// Relies on petgraph's `Graph::add_node`: appends one node, whose
/// index is the node count before the call.  It panics only when that
/// count has reached the u32 index limit, which the precondition
/// rules out.
#[verifier::external_body]
fn graph_add_node(g: &mut petgraph::graph::Graph<(), EdgeData>) -> (r: usize)
    requires
        nfa_nodes(*old(g)) < 0xFFFF_FFFF,
    ensures
        nfa_nodes(*final(g)) == nfa_nodes(*old(g)) + 1,
        nfa_edges(*final(g)) == nfa_edges(*old(g)),
        r as nat == nfa_nodes(*old(g)),
{
    g.add_node(()).index()
}

/// Relies on petgraph's `Graph::add_edge`: appends one edge from `a`
/// to `b` at the end of the edge list.  It panics only on a missing
/// endpoint or at the u32 index limit, which the preconditions
/// rule out.
#[verifier::external_body]
fn graph_add_edge(g: &mut petgraph::graph::Graph<(), EdgeData>, a: usize, b: usize, w: EdgeData)
    requires
        a < nfa_nodes(*old(g)),
        b < nfa_nodes(*old(g)),
        nfa_edges(*old(g)).len() < 0xFFFF_FFFF,
    ensures
        nfa_nodes(*final(g)) == nfa_nodes(*old(g)),
        nfa_edges(*final(g)) == nfa_edges(*old(g)).push(
            Transition { from: a as nat, to: b as nat, label: w@ },
        ),
{
    g.add_edge(petgraph::graph::NodeIndex::new(a), petgraph::graph::NodeIndex::new(b), w);
}

/// Relies on petgraph's `Graph::node_count`: the number of nodes.
#[verifier::external_body]
fn graph_node_count(g: &petgraph::graph::Graph<(), EdgeData>) -> (r: usize)
    ensures
        r as nat == nfa_nodes(*g),
{
    g.node_count()
}

/// Relies on petgraph's `Graph::edge_count`: the number of edges.
#[verifier::external_body]
fn graph_edge_count(g: &petgraph::graph::Graph<(), EdgeData>) -> (r: usize)
    ensures
        r as nat == nfa_edges(*g).len(),
{
    g.edge_count()
}

/// Relies on petgraph's `Graph::edge_references`: every edge in index
/// (that is, creation) order, with its endpoints and weight.
#[verifier::external_body]
fn graph_edge_list(g: &petgraph::graph::Graph<(), EdgeData>) -> (r: Vec<(usize, usize, EdgeData)>)
    ensures
        r@.len() == nfa_edges(*g).len(),
        forall|i: int| 0 <= i < r@.len() ==> {
            &&& r@[i].0 as nat == nfa_edges(*g)[i].from
            &&& r@[i].1 as nat == nfa_edges(*g)[i].to
            &&& r@[i].2@ == nfa_edges(*g)[i].label
        },
{
    g.edge_references().map(
        |e| (e.source().index(), e.target().index(), e.weight().clone()),
    ).collect()
}

/// The nondeterministic automaton: the growing transition graph plus
/// the states marked as start and accepting.
pub struct Nfa {
    pub graph: petgraph::graph::Graph<(), EdgeData>,
    pub start: Vec<usize>,
    pub accepting: Vec<usize>,
}

/// The edge run of a literal: one `Output` token, or nothing for the
/// empty literal.  No transition is ever created for an empty literal.
pub open spec fn lit_edge(s: Seq<char>) -> Seq<EdgeView> {
    if s.len() == 0 {
        Seq::empty()
    } else {
        seq![EdgeView::Output(s)]
    }
}

/// Whether some child before position `i` contributes output.
pub open spec fn seen_before(cs: Seq<IrView>, i: int) -> bool {
    exists|j: int| 0 <= j < i && !is_blank(#[trigger] cs[j])
}

/// The flattening of the first `i` children of a sequence body: children
/// left to right, one delimiter edge before each contributing child but
/// the first, blank children fully transparent.
pub open spec fn flatten_upto(cs: Seq<IrView>, delim: Seq<char>, i: int) -> Seq<EdgeView>
    decreases cs, 0nat, i,
{
    if i <= 0 || i > cs.len() {
        Seq::empty()
    } else {
        flatten_upto(cs, delim, i - 1) + (if is_blank(cs[i - 1]) {
            Seq::empty()
        } else {
            (if seen_before(cs, i - 1) {
                lit_edge(delim)
            } else {
                Seq::<EdgeView>::empty()
            }) + flatten_ir(cs[i - 1])
        })
    }
}

/// The direct flattening of a tree: the no-output leaf vanishes, a token
/// leaf is itself, and a sequence is prefix, open markup, delimiter-joined
/// body, close markup, suffix, with every empty literal elided.
pub open spec fn flatten_ir(v: IrView) -> Seq<EdgeView>
    decreases v, 1nat, 0nat,
{
    match v {
        IrView::Edge(Option::None) => Seq::empty(),
        IrView::Edge(Option::Some(e)) => seq![e],
        IrView::Sequence(s) => seq_flat(s.formatting, s.affixes, s.contents, s.delimiter),
    }
}

/// The flattening of a sequence node, from its parts.
pub open spec fn seq_flat(
    formatting: Option<Formatting>,
    affixes: Option<AffixesView>,
    cs: Seq<IrView>,
    delim: Seq<char>,
) -> Seq<EdgeView>
    decreases cs, 0nat, cs.len() + 1,
{
    (match affixes {
        Option::Some(a) => lit_edge(a.prefix),
        Option::None => Seq::<EdgeView>::empty(),
    }) + lit_edge(stack_open_spec(formatting)) + flatten_upto(cs, delim, cs.len() as int)
        + lit_edge(stack_close_spec(formatting)) + (match affixes {
        Option::Some(a) => lit_edge(a.suffix),
        Option::None => Seq::<EdgeView>::empty(),
    })
}

/// The state a linear path ends in: the entry state when the label word
/// is empty, else the last of the fresh states `c, c+1, ...`.
pub open spec fn path_end(spot: nat, c: nat, k: nat) -> nat {
    if k == 0 {
        spot
    } else {
        (c + k - 1) as nat
    }
}

/// The transitions of a linear path that starts at `spot`, spells the
/// label word, and threads through fresh states numbered from `c`.
pub open spec fn path_seq(spot: nat, c: nat, labels: Seq<EdgeView>) -> Seq<Transition>
    decreases labels.len(),
{
    if labels.len() == 0 {
        Seq::empty()
    } else {
        seq![Transition { from: spot, to: c, label: labels[0] }] + path_seq(
            c,
            (c + 1) as nat,
            labels.drop_first(),
        )
    }
}

/// Concatenating label words concatenates their paths: the second path
/// starts where the first ends, with fresh states continuing on.
pub proof fn lemma_path_seq_concat(spot: nat, c: nat, l1: Seq<EdgeView>, l2: Seq<EdgeView>)
    ensures
        path_seq(spot, c, l1 + l2) == path_seq(spot, c, l1) + path_seq(
            path_end(spot, c, l1.len()),
            (c + l1.len()) as nat,
            l2,
        ),
    decreases l1.len(),
{
    if l1.len() == 0 {
        assert(l1 + l2 =~= l2);
        assert(path_seq(spot, c, l1) + path_seq(spot, c, l2) =~= path_seq(spot, c, l2));
    } else {
        assert((l1 + l2).len() > 0);
        assert((l1 + l2)[0] == l1[0]);
        assert((l1 + l2).drop_first() =~= l1.drop_first() + l2);
        lemma_path_seq_concat(c, (c + 1) as nat, l1.drop_first(), l2);
        assert(path_end(c, (c + 1) as nat, l1.drop_first().len()) == path_end(spot, c, l1.len()));
        assert(path_seq(spot, c, l1 + l2) =~= path_seq(spot, c, l1) + path_seq(
            path_end(spot, c, l1.len()),
            (c + l1.len()) as nat,
            l2,
        ));
    }
}

/// The path for a label word is one linear chain: transition `i`
/// carries label `i` and links the previous fresh state (or the entry
/// spot) to fresh state `c + i`.  So the word the path spells, read
/// off its transitions in order, is exactly the label word.
pub proof fn lemma_path_seq_chain(spot: nat, c: nat, labels: Seq<EdgeView>)
    ensures
        path_seq(spot, c, labels).len() == labels.len(),
        forall|i: int| 0 <= i < labels.len() ==> {
            let t = #[trigger] path_seq(spot, c, labels)[i];
            &&& t.label == labels[i]
            &&& t.to == c + i
            &&& t.from == (if i == 0 {
                spot
            } else {
                (c + i - 1) as nat
            })
        },
    decreases labels.len(),
{
    if labels.len() > 0 {
        lemma_path_seq_chain(c, (c + 1) as nat, labels.drop_first());
        assert forall|i: int| 0 <= i < labels.len() implies {
            let t = #[trigger] path_seq(spot, c, labels)[i];
            &&& t.label == labels[i]
            &&& t.to == c + i
            &&& t.from == (if i == 0 {
                spot
            } else {
                (c + i - 1) as nat
            })
        } by {
            if i > 0 {
                assert(path_seq(spot, c, labels)[i] == path_seq(c, (c + 1) as nat, labels.drop_first())[i - 1]);
                assert(labels.drop_first()[i - 1] == labels[i]);
            }
        }
    }
}

/// Whether the automaton whose transitions are `edges` can read `word`
/// from state `from` and stop in state `to`: the usual run relation of
/// a nondeterministic automaton.
pub open spec fn accepts(edges: Seq<Transition>, from: nat, to: nat, word: Seq<EdgeView>) -> bool
    decreases word.len(),
{
    if word.len() == 0 {
        from == to
    } else {
        exists|k: int|
            0 <= k < edges.len() && edges[k].from == from && edges[k].label == word[0] && accepts(
                edges,
                edges[k].to,
                to,
                word.drop_first(),
            )
    }
}

/// A run survives prepending a transition to the list.
proof fn lemma_accepts_prepend(t: Transition, edges: Seq<Transition>, from: nat, to: nat, word: Seq<EdgeView>)
    requires
        accepts(edges, from, to, word),
    ensures
        accepts(seq![t] + edges, from, to, word),
    decreases word.len(),
{
    if word.len() > 0 {
        let k = choose|k: int|
            0 <= k < edges.len() && edges[k].from == from && edges[k].label == word[0] && accepts(
                edges,
                edges[k].to,
                to,
                word.drop_first(),
            );
        lemma_accepts_prepend(t, edges, edges[k].to, to, word.drop_first());
        let e2 = seq![t] + edges;
        assert(e2[k + 1] == edges[k]);
        assert(0 <= k + 1 < e2.len() && e2[k + 1].from == from && e2[k + 1].label == word[0]
            && accepts(e2, e2[k + 1].to, to, word.drop_first()));
    }
}

/// The path laid down for a label word can be read: the automaton
/// accepts the word between the path's entry and end states.
proof fn lemma_path_accepts(spot: nat, c: nat, labels: Seq<EdgeView>)
    ensures
        accepts(path_seq(spot, c, labels), spot, path_end(spot, c, labels.len()), labels),
    decreases labels.len(),
{
    if labels.len() > 0 {
        let rest = path_seq(c, (c + 1) as nat, labels.drop_first());
        let t0 = Transition { from: spot, to: c, label: labels[0] };
        lemma_path_accepts(c, (c + 1) as nat, labels.drop_first());
        assert(path_end(c, (c + 1) as nat, labels.drop_first().len()) == path_end(spot, c, labels.len()));
        lemma_accepts_prepend(t0, rest, c, path_end(spot, c, labels.len()), labels.drop_first());
        let e2 = path_seq(spot, c, labels);
        assert(e2 == seq![t0] + rest);
        assert(e2[0] == t0);
        assert(0 <= 0 < e2.len() && e2[0].from == spot && e2[0].label == labels[0] && accepts(
            e2,
            e2[0].to,
            path_end(spot, c, labels.len()),
            labels.drop_first(),
        ));
    }
}

/// Nothing but the label word can be read along the path: any word the
/// automaton reads from the chain state after `j` labels to the path's
/// end is exactly the rest of the label word.
proof fn lemma_chain_accepts_only(spot: nat, c: nat, labels: Seq<EdgeView>, j: int, w: Seq<EdgeView>)
    requires
        spot < c,
        0 <= j <= labels.len(),
        accepts(path_seq(spot, c, labels), path_end(spot, c, j as nat), path_end(spot, c, labels.len()), w),
    ensures
        w == labels.skip(j),
    decreases w.len(),
{
    let edges = path_seq(spot, c, labels);
    lemma_path_seq_chain(spot, c, labels);
    if w.len() == 0 {
        if j < labels.len() {
            assert(path_end(spot, c, j as nat) < c + labels.len() - 1 || (j == 0 && labels.len() == 1));
            assert(false);
        }
        assert(w =~= labels.skip(j));
    } else {
        let k = choose|k: int|
            0 <= k < edges.len() && edges[k].from == path_end(spot, c, j as nat) && edges[k].label
                == w[0] && accepts(edges, edges[k].to, path_end(spot, c, labels.len()), w.drop_first());
        if k == 0 {
            assert(edges[0].from == spot);
            assert(j == 0);
        } else {
            assert(edges[k].from == (c + k - 1) as nat);
            assert(j == k);
        }
        assert(edges[k].to == c + j);
        assert(edges[k].to == path_end(spot, c, (j + 1) as nat));
        assert(w[0] == labels[j]);
        lemma_chain_accepts_only(spot, c, labels, j + 1, w.drop_first());
        assert(w =~= labels.skip(j)) by {
            assert(w.drop_first() == labels.skip(j + 1));
            assert(w.len() == labels.skip(j).len());
            assert(forall|i: int| 0 <= i < w.len() ==> w[i] == labels.skip(j)[i]) by {
                assert(forall|i: int| 1 <= i < w.len() ==> w[i] == w.drop_first()[i - 1]);
                assert(forall|i: int| 1 <= i < w.len() ==> labels.skip(j + 1)[i - 1] == labels.skip(j)[i]);
            }
        }
    }
}

/// Faithfulness at the language level: between its entry and end
/// states, the path laid down for a label word accepts that word and
/// no other.  Built on a fresh automaton, whose start is the entry
/// state and whose accepting state is the end, the accepted language
/// is therefore exactly the tree's flattening.
pub proof fn lemma_path_language(spot: nat, c: nat, labels: Seq<EdgeView>, w: Seq<EdgeView>)
    requires
        spot < c,
    ensures
        accepts(path_seq(spot, c, labels), spot, path_end(spot, c, labels.len()), labels),
        accepts(path_seq(spot, c, labels), spot, path_end(spot, c, labels.len()), w) ==> w == labels,
{
    lemma_path_accepts(spot, c, labels);
    if accepts(path_seq(spot, c, labels), spot, path_end(spot, c, labels.len()), w) {
        lemma_chain_accepts_only(spot, c, labels, 0, w);
        assert(labels.skip(0) =~= labels);
    }
}

/// Two linear paths compose end to start.
proof fn lemma_path_end_compose(spot: nat, c: nat, k1: nat, k2: nat)
    ensures
        path_end(path_end(spot, c, k1), (c + k1) as nat, k2) == path_end(spot, c, (k1 + k2) as nat),
{
}

/// A longer prefix of a sequence body never flattens shorter.
proof fn lemma_flatten_upto_len_mono(cs: Seq<IrView>, delim: Seq<char>, i: int, j: int)
    requires
        0 <= i <= j <= cs.len(),
    ensures
        flatten_upto(cs, delim, i).len() <= flatten_upto(cs, delim, j).len(),
    decreases j - i,
{
    if i < j {
        lemma_flatten_upto_len_mono(cs, delim, i, j - 1);
    }
}

/// A path has one transition per label.
pub broadcast proof fn lemma_path_seq_len(spot: nat, c: nat, labels: Seq<EdgeView>)
    ensures
        (#[trigger] path_seq(spot, c, labels)).len() == labels.len(),
    decreases labels.len(),
{
    if labels.len() > 0 {
        lemma_path_seq_len(c, (c + 1) as nat, labels.drop_first());
    }
}

/// Extending the scanned prefix by one child updates `seen_before` by
/// whether that child contributes.
proof fn lemma_seen_before_step(cs: Seq<IrView>, i: int)
    requires
        0 <= i < cs.len(),
    ensures
        seen_before(cs, i + 1) == (seen_before(cs, i) || !is_blank(cs[i])),
{
    if seen_before(cs, i) {
        let j = choose|j: int| 0 <= j < i && !is_blank(#[trigger] cs[j]);
        assert(0 <= j < i + 1 && !is_blank(cs[j]));
    } else if !is_blank(cs[i]) {
        assert(0 <= i < i + 1 && !is_blank(cs[i]));
    } else {
        if seen_before(cs, i + 1) {
            let j = choose|j: int| 0 <= j < i + 1 && !is_blank(#[trigger] cs[j]);
            assert(j < i || j == i);
            assert(false);
        }
    }
}

impl Nfa {
    /// A fresh automaton: no states, no transitions, nothing marked.
    pub fn new() -> (r: Nfa)
        ensures
            nfa_nodes(r.graph) == 0,
            nfa_edges(r.graph) == Seq::<Transition>::empty(),
            r.start@ == Seq::<usize>::empty(),
            r.accepting@ == Seq::<usize>::empty(),
    {
        Nfa { graph: graph_new(), start: Vec::new(), accepting: Vec::new() }
    }

    /// The number of states.
    pub fn node_count(&self) -> (r: usize)
        ensures
            r as nat == nfa_nodes(self.graph),
    {
        graph_node_count(&self.graph)
    }

    /// The number of transitions.
    pub fn edge_count(&self) -> (r: usize)
        ensures
            r as nat == nfa_edges(self.graph).len(),
    {
        graph_edge_count(&self.graph)
    }

    /// Every transition, in creation order, as (source, target, token).
    pub fn edge_list(&self) -> (r: Vec<(usize, usize, EdgeData)>)
        ensures
            r@.len() == nfa_edges(self.graph).len(),
            forall|i: int| 0 <= i < r@.len() ==> {
                &&& r@[i].0 as nat == nfa_edges(self.graph)[i].from
                &&& r@[i].1 as nat == nfa_edges(self.graph)[i].to
                &&& r@[i].2@ == nfa_edges(self.graph)[i].label
            },
    {
        graph_edge_list(&self.graph)
    }
}

/// Allocate one fresh state and lay down one transition into it.
fn lower_token(nfa: &mut Nfa, spot: usize, tok: EdgeData) -> (r: usize)
    requires
        spot < nfa_nodes(old(nfa).graph),
        nfa_nodes(old(nfa).graph) < 0xFFFF_FFFF,
        nfa_edges(old(nfa).graph).len() < 0xFFFF_FFFF,
    ensures
        nfa_nodes(final(nfa).graph) == nfa_nodes(old(nfa).graph) + 1,
        nfa_edges(final(nfa).graph) == nfa_edges(old(nfa).graph).push(
            Transition { from: spot as nat, to: nfa_nodes(old(nfa).graph), label: tok@ },
        ),
        r as nat == nfa_nodes(old(nfa).graph),
        final(nfa).start@ == old(nfa).start@,
        final(nfa).accepting@ == old(nfa).accepting@,
{
    let to = graph_add_node(&mut nfa.graph);
    graph_add_edge(&mut nfa.graph, spot, to, tok);
    to
}

/// Lay down the edge run of one literal: nothing for the empty
/// literal, else a single output transition, the literal rendered
/// through the formatter.
fn lower_literal(fmt: &Markup, nfa: &mut Nfa, s: &str, spot: usize) -> (r: usize)
    requires
        spot < nfa_nodes(old(nfa).graph),
        nfa_nodes(old(nfa).graph) + lit_edge(s@).len() <= 0xFFFF_FFFF,
        nfa_edges(old(nfa).graph).len() + lit_edge(s@).len() <= 0xFFFF_FFFF,
    ensures
        nfa_nodes(final(nfa).graph) == nfa_nodes(old(nfa).graph) + lit_edge(s@).len(),
        nfa_edges(final(nfa).graph) == nfa_edges(old(nfa).graph) + path_seq(
            spot as nat,
            nfa_nodes(old(nfa).graph),
            lit_edge(s@),
        ),
        r as nat == path_end(spot as nat, nfa_nodes(old(nfa).graph), lit_edge(s@).len()),
        r < nfa_nodes(final(nfa).graph),
        final(nfa).start@ == old(nfa).start@,
        final(nfa).accepting@ == old(nfa).accepting@,
{
    proof {
        broadcast use lemma_path_seq_len;
    }
    if s.is_empty() {
        proof {
            assert(nfa_edges(nfa.graph) + path_seq(spot as nat, nfa_nodes(nfa.graph), lit_edge(s@))
                =~= nfa_edges(nfa.graph));
        }
        spot
    } else {
        let tok = EdgeData::Output(fmt.output_in_context(s));
        let ghost c0 = nfa_nodes(nfa.graph);
        let ghost e0 = nfa_edges(nfa.graph);
        let r = lower_token(nfa, spot, tok);
        proof {
            let l = lit_edge(s@);
            assert(l.drop_first() =~= Seq::<EdgeView>::empty());
            assert(path_seq(c0, (c0 + 1) as nat, l.drop_first()) =~= Seq::<Transition>::empty());
            assert(path_seq(spot as nat, c0, l) =~= seq![
                Transition { from: spot as nat, to: c0, label: EdgeView::Output(s@) },
            ]);
            assert(nfa_edges(nfa.graph) =~= e0 + path_seq(spot as nat, c0, l));
        }
        r
    }
}

/// Lower one tree from `spot`: the no-output leaf adds nothing, a token
/// leaf adds one fresh state and one transition, and a sequence node
/// goes through the stack-wrapping splice.  The new transitions are
/// exactly one linear path spelling the tree's flattening, threaded
/// through consecutively numbered fresh states, and the returned state
/// is that path's end.
pub fn add_to_graph(fmt: &Markup, nfa: &mut Nfa, ir: &RefIR, spot: usize) -> (r: usize)
    requires
        spot < nfa_nodes(old(nfa).graph),
        nfa_nodes(old(nfa).graph) + flatten_ir(ir@).len() <= 0xFFFF_FFFF,
        nfa_edges(old(nfa).graph).len() + flatten_ir(ir@).len() <= 0xFFFF_FFFF,
    ensures
        nfa_nodes(final(nfa).graph) == nfa_nodes(old(nfa).graph) + flatten_ir(ir@).len(),
        nfa_edges(final(nfa).graph) == nfa_edges(old(nfa).graph) + path_seq(
            spot as nat,
            nfa_nodes(old(nfa).graph),
            flatten_ir(ir@),
        ),
        r as nat == path_end(spot as nat, nfa_nodes(old(nfa).graph), flatten_ir(ir@).len()),
        r < nfa_nodes(final(nfa).graph),
        final(nfa).start@ == old(nfa).start@,
        final(nfa).accepting@ == old(nfa).accepting@,
    decreases *ir, 0nat,
{
    proof {
        broadcast use lemma_path_seq_len;
    }
    match ir {
        RefIR::Edge(e) => match e {
            Option::None => {
                proof {
                    assert(nfa_edges(nfa.graph) + path_seq(
                        spot as nat,
                        nfa_nodes(nfa.graph),
                        flatten_ir(ir@),
                    ) =~= nfa_edges(nfa.graph));
                }
                spot
            },
            Option::Some(tok) => {
                let ghost c0 = nfa_nodes(nfa.graph);
                let ghost e0 = nfa_edges(nfa.graph);
                let r = lower_token(nfa, spot, tok.clone());
                proof {
                    let l = flatten_ir(ir@);
                    assert(l =~= seq![tok@]);
                    assert(l.drop_first() =~= Seq::<EdgeView>::empty());
                    assert(path_seq(c0, (c0 + 1) as nat, l.drop_first()) =~= Seq::<Transition>::empty());
                    assert(path_seq(spot as nat, c0, l) =~= seq![
                        Transition { from: spot as nat, to: c0, label: tok@ },
                    ]);
                    assert(nfa_edges(nfa.graph) =~= e0 + path_seq(spot as nat, c0, l));
                }
                r
            },
        },
        RefIR::Sequence(s) => {
            graph_with_stack(fmt, nfa, s.formatting, &s.affixes, &s.contents, &s.delimiter, spot)
        },
    }
}

/// The stack-wrapping splice for one sequence node, as a strictly
/// linear chain of steps, each feeding the next its output state:
/// prefix affix, open markup, the delimited body, close markup, suffix
/// affix; every empty literal is elided.
#[verifier::rlimit(60)]
pub fn graph_with_stack(
    fmt: &Markup,
    nfa: &mut Nfa,
    formatting: Option<Formatting>,
    affixes: &Option<Affixes>,
    contents: &Vec<RefIR>,
    delimiter: &String,
    spot: usize,
) -> (r: usize)
    requires
        spot < nfa_nodes(old(nfa).graph),
        nfa_nodes(old(nfa).graph) + seq_flat(
            formatting,
            affixes_view(*affixes),
            irs_view(contents@),
            delimiter@,
        ).len() <= 0xFFFF_FFFF,
        nfa_edges(old(nfa).graph).len() + seq_flat(
            formatting,
            affixes_view(*affixes),
            irs_view(contents@),
            delimiter@,
        ).len() <= 0xFFFF_FFFF,
    ensures
        ({
            let flat = seq_flat(formatting, affixes_view(*affixes), irs_view(contents@), delimiter@);
            &&& nfa_nodes(final(nfa).graph) == nfa_nodes(old(nfa).graph) + flat.len()
            &&& nfa_edges(final(nfa).graph) == nfa_edges(old(nfa).graph) + path_seq(
                spot as nat,
                nfa_nodes(old(nfa).graph),
                flat,
            )
            &&& r as nat == path_end(spot as nat, nfa_nodes(old(nfa).graph), flat.len())
            &&& r < nfa_nodes(final(nfa).graph)
            &&& final(nfa).start@ == old(nfa).start@
            &&& final(nfa).accepting@ == old(nfa).accepting@
        }),
    decreases *contents, 2nat,
{
    proof {
        broadcast use lemma_path_seq_len;
    }
    let ghost spot0 = spot as nat;
    let ghost c0 = nfa_nodes(nfa.graph);
    let ghost e0 = nfa_edges(nfa.graph);
    let ghost cs = irs_view(contents@);
    let ghost pre_l = match affixes_view(*affixes) {
        Option::Some(a) => lit_edge(a.prefix),
        Option::None => Seq::<EdgeView>::empty(),
    };
    let ghost open_l = lit_edge(stack_open_spec(formatting));
    let ghost body_l = flatten_upto(cs, delimiter@, cs.len() as int);
    let ghost close_l = lit_edge(stack_close_spec(formatting));
    let ghost suf_l = match affixes_view(*affixes) {
        Option::Some(a) => lit_edge(a.suffix),
        Option::None => Seq::<EdgeView>::empty(),
    };
    let ghost flat = seq_flat(formatting, affixes_view(*affixes), cs, delimiter@);
    proof {
        assert(flat == pre_l + open_l + body_l + close_l + suf_l);
    }

    let mut cur = spot;
    // (1) prefix affix
    if let Option::Some(a) = affixes {
        cur = lower_literal(fmt, nfa, a.prefix.as_str(), cur);
    }
    proof {
        if affixes is None {
            assert(nfa_edges(nfa.graph) + path_seq(spot0, c0, pre_l) =~= nfa_edges(nfa.graph));
        }
        assert(nfa_edges(nfa.graph) == e0 + path_seq(spot0, c0, pre_l));
        assert(cur as nat == path_end(spot0, c0, pre_l.len()));
    }

    // (2) open markup
    let open_tags = fmt.stack_preorder(formatting.as_ref());
    let ghost done = pre_l;
    cur = lower_literal(fmt, nfa, open_tags.as_str(), cur);
    proof {
        lemma_path_seq_concat(spot0, c0, done, open_l);
        lemma_path_end_compose(spot0, c0, done.len(), open_l.len());
        assert(nfa_edges(nfa.graph) =~= e0 + path_seq(spot0, c0, done + open_l));
        assert(cur as nat == path_end(spot0, c0, (done + open_l).len()));
    }

    // (3) the sequence body
    let ghost done2 = done + open_l;
    cur = lower_seq_contents(fmt, nfa, contents, delimiter, cur);
    proof {
        lemma_path_seq_concat(spot0, c0, done2, body_l);
        lemma_path_end_compose(spot0, c0, done2.len(), body_l.len());
        assert(nfa_edges(nfa.graph) =~= e0 + path_seq(spot0, c0, done2 + body_l));
        assert(cur as nat == path_end(spot0, c0, (done2 + body_l).len()));
    }

    // (4) close markup
    let ghost done3 = done2 + body_l;
    let close_tags = fmt.stack_postorder(formatting.as_ref());
    cur = lower_literal(fmt, nfa, close_tags.as_str(), cur);
    proof {
        lemma_path_seq_concat(spot0, c0, done3, close_l);
        lemma_path_end_compose(spot0, c0, done3.len(), close_l.len());
        assert(nfa_edges(nfa.graph) =~= e0 + path_seq(spot0, c0, done3 + close_l));
        assert(cur as nat == path_end(spot0, c0, (done3 + close_l).len()));
    }

    // (5) suffix affix
    let ghost done4 = done3 + close_l;
    if let Option::Some(a) = affixes {
        cur = lower_literal(fmt, nfa, a.suffix.as_str(), cur);
    }
    proof {
        if affixes is None {
            assert(nfa_edges(nfa.graph) + path_seq(
                path_end(spot0, c0, done4.len()),
                (c0 + done4.len()) as nat,
                suf_l,
            ) =~= nfa_edges(nfa.graph));
        }
        lemma_path_seq_concat(spot0, c0, done4, suf_l);
        lemma_path_end_compose(spot0, c0, done4.len(), suf_l.len());
        assert(done4 + suf_l =~= flat);
        assert(nfa_edges(nfa.graph) =~= e0 + path_seq(spot0, c0, flat));
        assert(cur as nat == path_end(spot0, c0, flat.len()));
    }
    cur
}

/// Lower the children of a sequence left to right, splicing exactly one
/// delimiter edge before each contributing child after the first;
/// non-contributing children are fully transparent.
fn lower_seq_contents(
    fmt: &Markup,
    nfa: &mut Nfa,
    contents: &Vec<RefIR>,
    delimiter: &String,
    spot: usize,
) -> (r: usize)
    requires
        spot < nfa_nodes(old(nfa).graph),
        nfa_nodes(old(nfa).graph) + flatten_upto(
            irs_view(contents@),
            delimiter@,
            irs_view(contents@).len() as int,
        ).len() <= 0xFFFF_FFFF,
        nfa_edges(old(nfa).graph).len() + flatten_upto(
            irs_view(contents@),
            delimiter@,
            irs_view(contents@).len() as int,
        ).len() <= 0xFFFF_FFFF,
    ensures
        ({
            let body = flatten_upto(irs_view(contents@), delimiter@, irs_view(contents@).len() as int);
            &&& nfa_nodes(final(nfa).graph) == nfa_nodes(old(nfa).graph) + body.len()
            &&& nfa_edges(final(nfa).graph) == nfa_edges(old(nfa).graph) + path_seq(
                spot as nat,
                nfa_nodes(old(nfa).graph),
                body,
            )
            &&& r as nat == path_end(spot as nat, nfa_nodes(old(nfa).graph), body.len())
            &&& r < nfa_nodes(final(nfa).graph)
            &&& final(nfa).start@ == old(nfa).start@
            &&& final(nfa).accepting@ == old(nfa).accepting@
        }),
    decreases *contents, 1nat,
{
    proof {
        broadcast use lemma_path_seq_len;
    }
    let ghost spot0 = spot as nat;
    let ghost c0 = nfa_nodes(nfa.graph);
    let ghost e0 = nfa_edges(nfa.graph);
    let ghost cs = irs_view(contents@);
    let ghost d = delimiter@;
    proof {
        RefIR::lemma_irs_view(contents@);
    }
    let mut cur = spot;
    let mut seen = false;
    let mut i: usize = 0;
    while i < contents.len()
        invariant
            0 <= i <= contents.len(),
            cs == irs_view(contents@),
            d == delimiter@,
            cs.len() == contents@.len(),
            forall|j: int| 0 <= j < cs.len() ==> cs[j] == ir_view(contents@[j]),
            spot0 < c0,
            c0 + flatten_upto(cs, d, cs.len() as int).len() <= 0xFFFF_FFFF,
            e0.len() + flatten_upto(cs, d, cs.len() as int).len() <= 0xFFFF_FFFF,
            nfa_nodes(nfa.graph) == c0 + flatten_upto(cs, d, i as int).len(),
            nfa_edges(nfa.graph) == e0 + path_seq(spot0, c0, flatten_upto(cs, d, i as int)),
            cur as nat == path_end(spot0, c0, flatten_upto(cs, d, i as int).len()),
            cur < nfa_nodes(nfa.graph),
            seen == seen_before(cs, i as int),
            nfa.start@ == old(nfa).start@,
            nfa.accepting@ == old(nfa).accepting@,
        decreases contents.len() - i,
    {
        let ghost done = flatten_upto(cs, d, i as int);
        let x = &contents[i];
        let blank = matches!(x, RefIR::Edge(Option::None));
        proof {
            broadcast use lemma_path_seq_len;

            assert(cs[i as int] == ir_view(contents@[i as int]));
            assert(blank == is_blank(cs[i as int]));
            lemma_seen_before_step(cs, i as int);
            lemma_flatten_upto_len_mono(cs, d, i as int + 1, cs.len() as int);
            assert(flatten_upto(cs, d, i as int + 1) == done + (if is_blank(cs[i as int]) {
                Seq::<EdgeView>::empty()
            } else {
                (if seen_before(cs, i as int) {
                    lit_edge(d)
                } else {
                    Seq::<EdgeView>::empty()
                }) + flatten_ir(cs[i as int])
            }));
        }
        if !blank {
            if seen {
                cur = lower_literal(fmt, nfa, delimiter.as_str(), cur);
                proof {
                    lemma_path_seq_concat(spot0, c0, done, lit_edge(d));
                    lemma_path_end_compose(spot0, c0, done.len(), lit_edge(d).len());
                    assert(nfa_edges(nfa.graph) =~= e0 + path_seq(spot0, c0, done + lit_edge(d)));
                    assert(cur as nat == path_end(spot0, c0, (done + lit_edge(d)).len()));
                }
            }
            seen = true;
        }
        let ghost done2 = if !is_blank(cs[i as int]) && seen_before(cs, i as int) {
            done + lit_edge(d)
        } else {
            done
        };
        proof {
            assert(nfa_edges(nfa.graph) == e0 + path_seq(spot0, c0, done2));
            assert(cur as nat == path_end(spot0, c0, done2.len()));
            assert(nfa_nodes(nfa.graph) == c0 + done2.len());
        }
        cur = add_to_graph(fmt, nfa, x, cur);
        proof {
            lemma_path_seq_concat(spot0, c0, done2, flatten_ir(cs[i as int]));
            lemma_path_end_compose(spot0, c0, done2.len(), flatten_ir(cs[i as int]).len());
            assert(done2 + flatten_ir(cs[i as int]) =~= flatten_upto(cs, d, i as int + 1));
            assert(nfa_edges(nfa.graph) =~= e0 + path_seq(spot0, c0, flatten_upto(cs, d, i as int + 1)));
        }
        i = i + 1;
    }
    cur
}

/// Absorption: a sequence node whose children are all no-output, with
/// no formatting and no affixes, flattens to nothing, whatever its
/// delimiter — so lowering it adds no states and no transitions.
pub proof fn lemma_absorption(s: crate::ref_ir::SeqIrView)
    requires
        s.formatting is None,
        s.affixes is None,
        forall|i: int| 0 <= i < s.contents.len() ==> is_blank(#[trigger] s.contents[i]),
    ensures
        flatten_ir(IrView::Sequence(s)) == Seq::<EdgeView>::empty(),
{
    lemma_flatten_upto_blank(s.contents, s.delimiter, s.contents.len() as int);
    assert(flatten_ir(IrView::Sequence(s)) =~= Seq::<EdgeView>::empty());
}

proof fn lemma_flatten_upto_blank(cs: Seq<IrView>, delim: Seq<char>, i: int)
    requires
        forall|j: int| 0 <= j < cs.len() ==> is_blank(#[trigger] cs[j]),
        i <= cs.len(),
    ensures
        flatten_upto(cs, delim, i) == Seq::<EdgeView>::empty(),
    decreases i,
{
    if i > 0 {
        lemma_flatten_upto_blank(cs, delim, i - 1);
        assert(flatten_upto(cs, delim, i) =~= Seq::<EdgeView>::empty());
    } else {
        assert(flatten_upto(cs, delim, i) =~= Seq::<EdgeView>::empty());
    }
}

/// Idempotence of lowering: the graph a fresh build produces is a pure
/// function of the tree.  Any two automata that satisfy the builder's
/// postcondition for the same tree have the same state count and the
/// same transition sequence, so they are isomorphic — the identity on
/// state numbers is the isomorphism.
pub proof fn lemma_lowering_idempotent(
    ir: IrView,
    n1: nat,
    e1: Seq<Transition>,
    n2: nat,
    e2: Seq<Transition>,
)
    requires
        n1 == 1 + flatten_ir(ir).len(),
        e1 == path_seq(0, 1, flatten_ir(ir)),
        n2 == 1 + flatten_ir(ir).len(),
        e2 == path_seq(0, 1, flatten_ir(ir)),
    ensures
        n1 == n2,
        e1 == e2,
{
}

/// The whole-layout entry point: build a fresh automaton for one
/// compiled tree.  The first state is marked start, the final frontier
/// state accepting; the automaton's single accepted token sequence is
/// the tree's flattening.
pub fn build_nfa(fmt: &Markup, ir: &RefIR) -> (r: (Nfa, usize, usize))
    requires
        flatten_ir(ir@).len() + 1 <= 0xFFFF_FFFF,
    ensures
        nfa_nodes(r.0.graph) == 1 + flatten_ir(ir@).len(),
        nfa_edges(r.0.graph) == path_seq(0, 1, flatten_ir(ir@)),
        r.1 == 0,
        r.2 as nat == path_end(0, 1, flatten_ir(ir@).len()),
        r.0.start@ == seq![0usize],
        r.0.accepting@ == seq![r.2],
{
    proof {
        broadcast use lemma_path_seq_len;
    }
    let mut nfa = Nfa::new();
    let first = graph_add_node(&mut nfa.graph);
    nfa.start.push(first);
    let last = add_to_graph(fmt, &mut nfa, ir, first);
    nfa.accepting.push(last);
    proof {
        assert(nfa.start@ =~= seq![0usize]);
        assert(nfa.accepting@ =~= seq![last]);
        assert(Seq::<Transition>::empty() + path_seq(0, 1, flatten_ir(ir@))
            =~= path_seq(0, 1, flatten_ir(ir@)));
    }
    (nfa, first, last)
}

} // verus!
