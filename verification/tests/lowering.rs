//! Tests of the automaton builder: lowering trees into graphs.

use cite_automata::disamb::finite_automata::{build_nfa, Nfa};
use cite_automata::disamb::EdgeData;
use cite_automata::element::{Affixes, Formatting, TextCase};
use cite_automata::markup::Markup;
use cite_automata::ref_ir::{RefIR, RefIrSeq};

fn seq_node(
    contents: Vec<RefIR>,
    formatting: Option<Formatting>,
    affixes: Option<Affixes>,
    delimiter: &str,
) -> RefIR {
    RefIR::Sequence(RefIrSeq {
        contents,
        formatting,
        affixes,
        delimiter: delimiter.to_owned(),
        text_case: TextCase,
    })
}

fn out(s: &str) -> RefIR {
    RefIR::Edge(Some(EdgeData::Output(s.to_owned())))
}

fn none() -> RefIR {
    RefIR::Edge(None)
}

fn labels(nfa: &Nfa) -> Vec<EdgeData> {
    nfa.edge_list().into_iter().map(|(_, _, w)| w).collect()
}

#[test]
fn token_leaf_adds_one_state_and_edge() {
    let fmt = Markup::new();
    let ir = RefIR::Edge(Some(EdgeData::Locator));
    let (nfa, start, accept) = build_nfa(&fmt, &ir);
    assert_eq!(start, 0);
    assert_eq!(accept, 1);
    assert_eq!(nfa.node_count(), 2);
    assert_eq!(nfa.edge_list(), vec![(0, 1, EdgeData::Locator)]);
    assert_eq!(nfa.start, vec![0]);
    assert_eq!(nfa.accepting, vec![1]);
}

#[test]
fn no_output_leaf_adds_nothing() {
    let fmt = Markup::new();
    let ir = none();
    let (nfa, start, accept) = build_nfa(&fmt, &ir);
    assert_eq!(start, 0);
    assert_eq!(accept, 0);
    assert_eq!(nfa.node_count(), 1);
    assert_eq!(nfa.edge_count(), 0);
}

#[test]
fn absorption_all_blank_sequence_adds_nothing() {
    let fmt = Markup::new();
    let ir = seq_node(vec![none(), none()], None, None, "");
    let (nfa, _, accept) = build_nfa(&fmt, &ir);
    assert_eq!(nfa.node_count(), 1);
    assert_eq!(nfa.edge_count(), 0);
    assert_eq!(accept, 0);
}

#[test]
fn delimiter_only_between_contributing_children() {
    let fmt = Markup::new();
    let ir = seq_node(vec![none(), out("a"), none(), out("b")], None, None, "; ");
    let (nfa, start, accept) = build_nfa(&fmt, &ir);
    assert_eq!(start, 0);
    assert_eq!(
        labels(&nfa),
        vec![
            EdgeData::Output("a".to_owned()),
            EdgeData::Output("; ".to_owned()),
            EdgeData::Output("b".to_owned()),
        ]
    );
    let ends: Vec<(usize, usize)> = nfa.edge_list().into_iter().map(|(f, t, _)| (f, t)).collect();
    assert_eq!(ends, vec![(0, 1), (1, 2), (2, 3)]);
    assert_eq!(accept, 3);
}

#[test]
fn empty_delimiter_adds_no_edges() {
    let fmt = Markup::new();
    let ir = seq_node(vec![out("a"), out("b")], None, None, "");
    let (nfa, _, _) = build_nfa(&fmt, &ir);
    assert_eq!(
        labels(&nfa),
        vec![EdgeData::Output("a".to_owned()), EdgeData::Output("b".to_owned())]
    );
}

#[test]
fn formatting_nesting_closes_in_reverse_order() {
    let fmt = Markup::new();
    let inner = seq_node(
        vec![out("x")],
        Some(Formatting { bold: false, italic: true }),
        None,
        "",
    );
    let outer = seq_node(
        vec![inner],
        Some(Formatting { bold: true, italic: false }),
        None,
        "",
    );
    let (nfa, _, accept) = build_nfa(&fmt, &outer);
    assert_eq!(
        labels(&nfa),
        vec![
            EdgeData::Output("<b>".to_owned()),
            EdgeData::Output("<i>".to_owned()),
            EdgeData::Output("x".to_owned()),
            EdgeData::Output("</i>".to_owned()),
            EdgeData::Output("</b>".to_owned()),
        ]
    );
    assert_eq!(accept, 5);
}

#[test]
fn both_formatting_flags_nest_bold_outside_italic() {
    let fmt = Markup::new();
    let ir = seq_node(
        vec![out("x")],
        Some(Formatting { bold: true, italic: true }),
        None,
        "",
    );
    let (nfa, _, _) = build_nfa(&fmt, &ir);
    assert_eq!(
        labels(&nfa),
        vec![
            EdgeData::Output("<b><i>".to_owned()),
            EdgeData::Output("x".to_owned()),
            EdgeData::Output("</i></b>".to_owned()),
        ]
    );
}

#[test]
fn affixes_wrap_the_whole_sequence() {
    let fmt = Markup::new();
    let ir = seq_node(
        vec![out("a")],
        None,
        Some(Affixes { prefix: "(".to_owned(), suffix: ")".to_owned() }),
        "",
    );
    let (nfa, _, _) = build_nfa(&fmt, &ir);
    assert_eq!(
        labels(&nfa),
        vec![
            EdgeData::Output("(".to_owned()),
            EdgeData::Output("a".to_owned()),
            EdgeData::Output(")".to_owned()),
        ]
    );
}

#[test]
fn empty_affixes_are_elided() {
    let fmt = Markup::new();
    let ir = seq_node(
        vec![out("a")],
        None,
        Some(Affixes { prefix: String::new(), suffix: String::new() }),
        "",
    );
    let (nfa, _, _) = build_nfa(&fmt, &ir);
    assert_eq!(labels(&nfa), vec![EdgeData::Output("a".to_owned())]);
}

#[test]
fn prefix_comes_before_open_markup() {
    let fmt = Markup::new();
    let ir = seq_node(
        vec![out("a")],
        Some(Formatting { bold: true, italic: false }),
        Some(Affixes { prefix: "p".to_owned(), suffix: "s".to_owned() }),
        "",
    );
    let (nfa, _, _) = build_nfa(&fmt, &ir);
    assert_eq!(
        labels(&nfa),
        vec![
            EdgeData::Output("p".to_owned()),
            EdgeData::Output("<b>".to_owned()),
            EdgeData::Output("a".to_owned()),
            EdgeData::Output("</b>".to_owned()),
            EdgeData::Output("s".to_owned()),
        ]
    );
}

#[test]
fn lowering_same_tree_twice_gives_isomorphic_graphs() {
    let fmt = Markup::new();
    let ir = seq_node(
        vec![out("a"), none(), RefIR::Edge(Some(EdgeData::YearSuffix)), out("b")],
        Some(Formatting { bold: true, italic: false }),
        None,
        ", ",
    );
    let (n1, s1, a1) = build_nfa(&fmt, &ir);
    let (n2, s2, a2) = build_nfa(&fmt, &ir);
    assert_eq!(s1, s2);
    assert_eq!(a1, a2);
    assert_eq!(n1.node_count(), n2.node_count());
    assert_eq!(n1.edge_list(), n2.edge_list());
}

#[test]
fn faithfulness_nested_sample_flattening() {
    let fmt = Markup::new();
    let inner = seq_node(vec![out("v"), out("w")], None, None, "-");
    let ir = seq_node(
        vec![none(), inner, RefIR::Edge(Some(EdgeData::LocatorLabel))],
        None,
        None,
        " ",
    );
    let (nfa, _, accept) = build_nfa(&fmt, &ir);
    assert_eq!(
        labels(&nfa),
        vec![
            EdgeData::Output("v".to_owned()),
            EdgeData::Output("-".to_owned()),
            EdgeData::Output("w".to_owned()),
            EdgeData::Output(" ".to_owned()),
            EdgeData::LocatorLabel,
        ]
    );
    let ends: Vec<(usize, usize)> = nfa.edge_list().into_iter().map(|(f, t, _)| (f, t)).collect();
    assert_eq!(ends, vec![(0, 1), (1, 2), (2, 3), (3, 4), (4, 5)]);
    assert_eq!(accept, 5);
}
