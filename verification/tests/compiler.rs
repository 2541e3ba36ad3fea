//! Tests of the IR compiler: element dispatch, the sequence combinator,
//! macro expansion, and the GroupVars accumulator.

use std::sync::Arc;

use cite_automata::disamb::finite_automata::build_nfa;
use cite_automata::disamb::{element_fits_style, element_ref_ir_impl, EdgeData};
use cite_automata::element::{
    Citation, Element, LabelElement, Layout, LocatorType, Name, NumberVariable, Position, Style,
    TermForm, TextCase, TextElement, TextSource,
};
use cite_automata::group::GroupVars;
use cite_automata::markup::Markup;
use cite_automata::ref_ir::RefIR;
use cite_automata::RefContext;

fn label(variable: NumberVariable) -> Element {
    Element::Label(LabelElement {
        variable,
        form: TermForm::Long,
        formatting: None,
        affixes: None,
        strip_periods: false,
        text_case: TextCase,
        plural: false,
    })
}

fn text(source: TextSource) -> Element {
    Element::Text(TextElement {
        source,
        formatting: None,
        affixes: None,
        quotes: false,
        strip_periods: false,
        text_case: TextCase,
        display: None,
    })
}

fn style_with(macros: Vec<(String, Vec<Element>)>, elements: Vec<Element>) -> Style {
    Style { macros, citation: Citation { layout: Layout { elements } } }
}

fn ctx<'a>(style: &'a Style, locator_type: Option<LocatorType>) -> RefContext<'a> {
    RefContext {
        style,
        locator_type,
        position: Position::First,
        year_suffix: false,
        names_delimiter: None,
        name_el: Arc::new(Name::root_default()),
        disamb_count: 0,
    }
}

#[test]
fn locator_label_with_active_locator_is_important() {
    let style = style_with(vec![], vec![]);
    let ctx = ctx(&style, Some(LocatorType::Page));
    let el = label(NumberVariable::Locator);
    let (ir, gv) = element_ref_ir_impl(&el, &ctx);
    assert_eq!(ir, RefIR::Edge(Some(EdgeData::LocatorLabel)));
    assert_eq!(gv, GroupVars::Important);
}

#[test]
fn locator_label_without_locator_is_plain_none() {
    let style = style_with(vec![], vec![]);
    let ctx = ctx(&style, None);
    let el = label(NumberVariable::Locator);
    let (ir, gv) = element_ref_ir_impl(&el, &ctx);
    assert_eq!(ir, RefIR::Edge(None));
    assert_eq!(gv, GroupVars::Plain);
}

#[test]
fn non_locator_label_is_plain_none_even_with_locator() {
    let style = style_with(vec![], vec![]);
    let ctx = ctx(&style, Some(LocatorType::Page));
    let el = label(NumberVariable::Volume);
    let (ir, gv) = element_ref_ir_impl(&el, &ctx);
    assert_eq!(ir, RefIR::Edge(None));
    assert_eq!(gv, GroupVars::Plain);
}

#[test]
fn text_value_renders_its_literal() {
    let style = style_with(vec![], vec![]);
    let ctx = ctx(&style, None);
    let el = text(TextSource::Value("ibid".to_owned()));
    let (ir, gv) = element_ref_ir_impl(&el, &ctx);
    assert_eq!(ir, RefIR::Edge(Some(EdgeData::Output("ibid".to_owned()))));
    assert_eq!(gv, GroupVars::Plain);
}

#[test]
fn empty_text_value_renders_nothing() {
    let style = style_with(vec![], vec![]);
    let ctx = ctx(&style, None);
    let el = text(TextSource::Value(String::new()));
    let (ir, gv) = element_ref_ir_impl(&el, &ctx);
    assert_eq!(ir, RefIR::Edge(None));
    assert_eq!(gv, GroupVars::Plain);
}

#[test]
fn unhandled_kind_renders_nothing() {
    let style = style_with(vec![], vec![]);
    let ctx = ctx(&style, Some(LocatorType::Page));
    let el = Element::Choose(Arc::new(()));
    let (ir, gv) = element_ref_ir_impl(&el, &ctx);
    assert_eq!(ir, RefIR::Edge(None));
    assert_eq!(gv, GroupVars::Plain);
}

#[test]
fn macro_of_one_locator_label_lowers_like_the_inlined_label() {
    let body = vec![label(NumberVariable::Locator)];
    let style = style_with(
        vec![("a".to_owned(), body)],
        vec![text(TextSource::Macro("a".to_owned()))],
    );
    let ctx = ctx(&style, Some(LocatorType::Page));
    let via_macro = text(TextSource::Macro("a".to_owned()));
    let direct = label(NumberVariable::Locator);
    assert!(element_fits_style(&style, &via_macro));
    let (ir_macro, gv_macro) = element_ref_ir_impl(&via_macro, &ctx);
    let (ir_direct, gv_direct) = element_ref_ir_impl(&direct, &ctx);
    assert_eq!(gv_macro, GroupVars::Important);
    assert_eq!(gv_macro, gv_direct);
    let fmt = Markup::new();
    let (n1, _, a1) = build_nfa(&fmt, &ir_macro);
    let (n2, _, a2) = build_nfa(&fmt, &ir_direct);
    assert_eq!(n1.edge_list(), n2.edge_list());
    assert_eq!(n1.node_count(), n2.node_count());
    assert_eq!(a1, a2);
    assert_eq!(n1.edge_list(), vec![(0, 1, EdgeData::LocatorLabel)]);
}

#[test]
fn macro_with_no_contributing_child_collapses() {
    let body = vec![label(NumberVariable::Locator)];
    let style = style_with(vec![("a".to_owned(), body)], vec![]);
    let ctx = ctx(&style, None);
    let el = text(TextSource::Macro("a".to_owned()));
    let (ir, gv) = element_ref_ir_impl(&el, &ctx);
    assert_eq!(ir, RefIR::Edge(None));
    assert_eq!(gv, GroupVars::Plain);
}

#[test]
fn macro_body_folds_group_vars_over_all_children() {
    let body = vec![
        text(TextSource::Value("p. ".to_owned())),
        label(NumberVariable::Locator),
    ];
    let style = style_with(vec![("loc".to_owned(), body)], vec![]);
    let ctx = ctx(&style, Some(LocatorType::Page));
    let el = text(TextSource::Macro("loc".to_owned()));
    let (ir, gv) = element_ref_ir_impl(&el, &ctx);
    assert_eq!(gv, GroupVars::Important);
    let fmt = Markup::new();
    let (nfa, _, _) = build_nfa(&fmt, &ir);
    let labels: Vec<EdgeData> = nfa.edge_list().into_iter().map(|(_, _, w)| w).collect();
    assert_eq!(
        labels,
        vec![EdgeData::Output("p. ".to_owned()), EdgeData::LocatorLabel]
    );
}

#[test]
fn undefined_macro_fails_validation() {
    let style = style_with(vec![("a".to_owned(), vec![])], vec![]);
    let el = text(TextSource::Macro("missing".to_owned()));
    assert!(!element_fits_style(&style, &el));
}

#[test]
fn cyclic_macro_fails_validation() {
    let body = vec![text(TextSource::Macro("a".to_owned()))];
    let style = style_with(vec![("a".to_owned(), body)], vec![]);
    let el = text(TextSource::Macro("a".to_owned()));
    assert!(!element_fits_style(&style, &el));
}

#[test]
fn nested_acyclic_macros_pass_validation_and_expand() {
    let inner = vec![label(NumberVariable::Locator)];
    let outer = vec![text(TextSource::Macro("inner".to_owned()))];
    let style = style_with(
        vec![("inner".to_owned(), inner), ("outer".to_owned(), outer)],
        vec![],
    );
    let el = text(TextSource::Macro("outer".to_owned()));
    assert!(element_fits_style(&style, &el));
    let ctx = ctx(&style, Some(LocatorType::Page));
    let (ir, gv) = element_ref_ir_impl(&el, &ctx);
    assert_eq!(gv, GroupVars::Important);
    let fmt = Markup::new();
    let (nfa, _, _) = build_nfa(&fmt, &ir);
    let labels: Vec<EdgeData> = nfa.edge_list().into_iter().map(|(_, _, w)| w).collect();
    assert_eq!(labels, vec![EdgeData::LocatorLabel]);
}
