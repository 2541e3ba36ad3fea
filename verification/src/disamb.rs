//! The IR compiler: turns one template element, under a render context,
//! into a `(RefIR, GroupVars)` pair, and does the same for ordered lists
//! of elements (macro bodies, groups).

use vstd::prelude::*;

pub mod finite_automata;

use crate::element::{Element, NumberVariable, Style, TextCase, TextSource};
use crate::group::{gv_neighbour, GroupVars};
use crate::ref_ir::{
    all_blank, ir_view, irs_view, is_blank, lemma_all_blank_push, lemma_irs_view_push, EdgeView,
    IrView, RefIR, RefIrSeq, SeqIrView,
};
use crate::RefContext;
use vstd::pervasive::unreached;

verus! {

/// A transition label of the automaton: literal text, or a semantic
/// placeholder for a value only known when a concrete cite is resolved.
#[derive(Debug, PartialEq, Eq, Hash)]
pub enum EdgeData {
    Output(String),
    Locator,
    NotUsed,
    LocatorLabel,
    YearSuffix,
    YearSuffixExplicit,
    YearSuffixPlain,
    CitationNumber,
    CitationNumberLabel,
    Frnn,
    FrnnLabel,
    Accessed,
}

impl Clone for EdgeData {
    fn clone(&self) -> (r: EdgeData)
        ensures
            r == *self,
    {
        match self {
            EdgeData::Output(s) => EdgeData::Output(s.clone()),
            EdgeData::Locator => EdgeData::Locator,
            EdgeData::NotUsed => EdgeData::NotUsed,
            EdgeData::LocatorLabel => EdgeData::LocatorLabel,
            EdgeData::YearSuffix => EdgeData::YearSuffix,
            EdgeData::YearSuffixExplicit => EdgeData::YearSuffixExplicit,
            EdgeData::YearSuffixPlain => EdgeData::YearSuffixPlain,
            EdgeData::CitationNumber => EdgeData::CitationNumber,
            EdgeData::CitationNumberLabel => EdgeData::CitationNumberLabel,
            EdgeData::Frnn => EdgeData::Frnn,
            EdgeData::FrnnLabel => EdgeData::FrnnLabel,
            EdgeData::Accessed => EdgeData::Accessed,
        }
    }
}

/// The body of the first macro of the table carrying `name`, if any.
pub open spec fn find_macro(ms: Seq<(String, Vec<Element>)>, name: Seq<char>) -> Option<Seq<Element>>
    decreases ms.len(),
{
    if ms.len() == 0 {
        Option::None
    } else if ms[0].0@ == name {
        Option::Some(ms[0].1@)
    } else {
        find_macro(ms.drop_first(), name)
    }
}

/// Whether compiling `el` against macro table `ms` terminates within
/// `fuel` nested macro expansions, every referenced macro being defined.
/// Any style whose macro references are acyclic satisfies this with
/// fuel one greater than the table's size.
pub open spec fn elem_fits(ms: Seq<(String, Vec<Element>)>, el: Element, fuel: nat) -> bool
    decreases fuel, 0nat, 0nat,
{
    match el {
        Element::Text(t) => match t.source {
            TextSource::Macro(name) => fuel > 0 && match find_macro(ms, name@) {
                Option::Some(body) => seq_fits(ms, body, (fuel - 1) as nat),
                Option::None => false,
            },
            _ => true,
        },
        _ => true,
    }
}

/// `elem_fits` for every element of a list.
pub open spec fn seq_fits(ms: Seq<(String, Vec<Element>)>, els: Seq<Element>, fuel: nat) -> bool
    decreases fuel, 1nat, els.len(),
{
    if els.len() == 0 {
        true
    } else {
        seq_fits(ms, els.drop_last(), fuel) && elem_fits(ms, els.last(), fuel)
    }
}

/// A list fits exactly when each of its elements fits.
pub proof fn lemma_seq_fits_index(ms: Seq<(String, Vec<Element>)>, els: Seq<Element>, fuel: nat, i: int)
    requires
        seq_fits(ms, els, fuel),
        0 <= i < els.len(),
    ensures
        elem_fits(ms, els[i], fuel),
    decreases els.len(),
{
    if i == els.len() - 1 {
    } else {
        lemma_seq_fits_index(ms, els.drop_last(), fuel, i);
        assert(els.drop_last()[i] == els[i]);
    }
}

/// What compiling one element produces: the ghost intermediate tree and
/// the accumulator value.  Unhandled kinds, unresolved text sources and
/// inert labels produce the no-output leaf.
pub open spec fn compile_element_spec(
    ms: Seq<(String, Vec<Element>)>,
    loc: bool,
    el: Element,
    fuel: nat,
) -> (IrView, GroupVars)
    decreases fuel, 0nat, 0nat,
{
    match el {
        Element::Text(t) => match t.source {
            TextSource::Macro(name) => {
                if fuel > 0 && find_macro(ms, name@) is Some {
                    compile_seq_spec(ms, loc, find_macro(ms, name@).unwrap(), (fuel - 1) as nat)
                } else {
                    (IrView::Edge(Option::None), GroupVars::Plain)
                }
            },
            TextSource::Value(v) => {
                if v@.len() > 0 {
                    (IrView::Edge(Option::Some(EdgeView::Output(v@))), GroupVars::Plain)
                } else {
                    (IrView::Edge(Option::None), GroupVars::Plain)
                }
            },
            _ => (IrView::Edge(Option::None), GroupVars::Plain),
        },
        Element::Label(l) => {
            if l.variable is Locator && loc {
                (IrView::Edge(Option::Some(EdgeView::LocatorLabel)), GroupVars::Important)
            } else {
                (IrView::Edge(Option::None), GroupVars::Plain)
            }
        },
        _ => (IrView::Edge(Option::None), GroupVars::Plain),
    }
}

/// Compile every element of a list, keeping all results in order, and
/// fold the accumulator over all of them, left to right.
pub open spec fn compile_children_spec(
    ms: Seq<(String, Vec<Element>)>,
    loc: bool,
    els: Seq<Element>,
    fuel: nat,
) -> (Seq<IrView>, GroupVars)
    decreases fuel, 1nat, els.len(),
{
    if els.len() == 0 {
        (Seq::empty(), GroupVars::Plain)
    } else {
        let (rest, gvr) = compile_children_spec(ms, loc, els.drop_last(), fuel);
        let (ir, gv) = compile_element_spec(ms, loc, els.last(), fuel);
        (rest.push(ir), gv_neighbour(gvr, gv))
    }
}

/// The sequence combinator: compile every child; if none contributed
/// output, collapse to the no-output leaf; otherwise wrap all compiled
/// children, contributing or not, into an undecorated sequence node.
pub open spec fn compile_seq_spec(
    ms: Seq<(String, Vec<Element>)>,
    loc: bool,
    els: Seq<Element>,
    fuel: nat,
) -> (IrView, GroupVars)
    decreases fuel, 2nat, 0nat,
{
    let (cs, gv) = compile_children_spec(ms, loc, els, fuel);
    if all_blank(cs) {
        (IrView::Edge(Option::None), gv)
    } else {
        (
            IrView::Sequence(SeqIrView {
                contents: cs,
                formatting: Option::None,
                affixes: Option::None,
                delimiter: Seq::empty(),
                text_case: TextCase,
            }),
            gv,
        )
    }
}

/// Fuel that lets any element of a macro-acyclic style compile: one
/// more than the number of macros the style defines.
pub open spec fn style_fuel(style: Style) -> nat {
    style.macros@.len() + 1
}

/// Find a macro body in the style's table by name; the first entry with
/// that name wins.
fn style_find_macro<'a>(style: &'a Style, name: &String) -> (r: Option<&'a Vec<Element>>)
    ensures
        match r {
            Option::Some(b) => find_macro(style.macros@, name@) == Option::Some(b@),
            Option::None => find_macro(style.macros@, name@) is None,
        },
{
    let mut i: usize = 0;
    proof {
        assert(style.macros@.skip(0) =~= style.macros@);
    }
    while i < style.macros.len()
        invariant
            0 <= i <= style.macros.len(),
            find_macro(style.macros@, name@) == find_macro(style.macros@.skip(i as int), name@),
        decreases style.macros.len() - i,
    {
        proof {
            assert(style.macros@.skip(i as int)[0] == style.macros@[i as int]);
        }
        if style.macros[i].0 == *name {
            let b = &style.macros[i].1;
            proof {
                assert(style.macros@.skip(i as int).len() > 0);
                assert(b@ == style.macros@[i as int].1@);
                assert(style.macros@.skip(i as int)[0].0@ == name@);
                assert(find_macro(style.macros@.skip(i as int), name@)
                    == Option::Some(style.macros@[i as int].1@));
            }
            return Option::Some(b);
        }
        proof {
            assert(style.macros@.skip(i as int).drop_first() =~= style.macros@.skip(i as int + 1));
        }
        i = i + 1;
    }
    proof {
        assert(style.macros@.skip(style.macros@.len() as int).len() == 0);
    }
    Option::None
}

/// Compile one template element under a render context into an
/// intermediate tree and an accumulator value; `fuel` bounds nested
/// macro expansion.
fn compile_element(el: &Element, ctx: &RefContext, fuel: usize) -> (r: (RefIR, GroupVars))
    requires
        elem_fits(ctx.style.macros@, *el, fuel as nat),
    ensures
        ir_view(r.0) == compile_element_spec(ctx.style.macros@, ctx.locator_type is Some, *el, fuel as nat).0,
        r.1 == compile_element_spec(ctx.style.macros@, ctx.locator_type is Some, *el, fuel as nat).1,
    decreases fuel, 0nat,
{
    match el {
        Element::Text(t) => match &t.source {
            TextSource::Macro(name) => {
                match style_find_macro(ctx.style, name) {
                    Option::Some(body) => ref_sequence(ctx, body, fuel - 1),
                    Option::None => unreached(),
                }
            },
            TextSource::Value(v) => {
                if v.as_str().is_empty() {
                    (RefIR::Edge(Option::None), GroupVars::new())
                } else {
                    (RefIR::Edge(Option::Some(EdgeData::Output(v.clone()))), GroupVars::new())
                }
            },
            _ => (RefIR::Edge(Option::None), GroupVars::new()),
        },
        Element::Label(label) => {
            let custom = match label.variable {
                NumberVariable::Locator => {
                    if ctx.locator_type.is_some() {
                        Option::Some(EdgeData::LocatorLabel)
                    } else {
                        Option::None
                    }
                },
                _ => Option::None,
            };
            if let Option::Some(edge_data) = custom {
                return (RefIR::Edge(Option::Some(edge_data)), GroupVars::Important);
            }
            (RefIR::Edge(Option::None), GroupVars::Plain)
        },
        _ => (RefIR::Edge(Option::None), GroupVars::Plain),
    }
}

/// Compile an ordered list of elements (a macro body) and combine the
/// results as the sequence combinator prescribes.
fn ref_sequence(ctx: &RefContext, els: &Vec<Element>, fuel: usize) -> (r: (RefIR, GroupVars))
    requires
        seq_fits(ctx.style.macros@, els@, fuel as nat),
    ensures
        ir_view(r.0) == compile_seq_spec(ctx.style.macros@, ctx.locator_type is Some, els@, fuel as nat).0,
        r.1 == compile_seq_spec(ctx.style.macros@, ctx.locator_type is Some, els@, fuel as nat).1,
    decreases fuel, 1nat,
{
    let ghost ms = ctx.style.macros@;
    let ghost loc = ctx.locator_type is Some;
    let mut contents: Vec<RefIR> = Vec::new();
    let mut overall_gv = GroupVars::new();
    let mut saw_output = false;
    let mut i: usize = 0;
    proof {
        assert(els@.subrange(0, 0) =~= Seq::<Element>::empty());
    }
    while i < els.len()
        invariant
            0 <= i <= els.len(),
            seq_fits(ms, els@, fuel as nat),
            ms == ctx.style.macros@,
            loc == (ctx.locator_type is Some),
            irs_view(contents@) == compile_children_spec(ms, loc, els@.subrange(0, i as int), fuel as nat).0,
            overall_gv == compile_children_spec(ms, loc, els@.subrange(0, i as int), fuel as nat).1,
            saw_output == !all_blank(irs_view(contents@)),
            contents@.len() == i,
        decreases els.len() - i,
    {
        proof {
            lemma_seq_fits_index(ms, els@, fuel as nat, i as int);
        }
        let (got_ir, gv) = compile_element(&els[i], ctx, fuel);
        let blank = matches!(got_ir, RefIR::Edge(Option::None));
        proof {
            assert(blank == is_blank(ir_view(got_ir)));
            lemma_irs_view_push(contents@, got_ir);
            lemma_all_blank_push(irs_view(contents@), ir_view(got_ir));
            assert(els@.subrange(0, i as int + 1).drop_last() =~= els@.subrange(0, i as int));
            assert(els@.subrange(0, i as int + 1).last() == els@[i as int]);
        }
        saw_output = saw_output || !blank;
        overall_gv = overall_gv.neighbour(gv);
        contents.push(got_ir);
        i = i + 1;
    }
    proof {
        assert(els@.subrange(0, els@.len() as int) =~= els@);
    }
    if !saw_output {
        return (RefIR::Edge(Option::None), overall_gv);
    }
    proof {
        assert(""@ =~= Seq::<char>::empty()) by {
            reveal_strlit("");
        }
    }
    (
        RefIR::Sequence(RefIrSeq {
            contents,
            formatting: Option::None,
            affixes: Option::None,
            delimiter: String::new(),
            text_case: TextCase,
        }),
        overall_gv,
    )
}

/// Macro transparency, in general: compiling a `Text` element that
/// sources a defined macro gives exactly what the sequence combinator
/// gives on the macro's body — the expansion is passed through
/// unchanged.
pub proof fn lemma_macro_transparent(
    ms: Seq<(String, Vec<Element>)>,
    loc: bool,
    t: crate::element::TextElement,
    name: String,
    fuel: nat,
)
    requires
        t.source == TextSource::Macro(name),
        fuel > 0,
        find_macro(ms, name@) is Some,
    ensures
        compile_element_spec(ms, loc, Element::Text(t), fuel) == compile_seq_spec(
            ms,
            loc,
            find_macro(ms, name@).unwrap(),
            (fuel - 1) as nat,
        ),
{
}

/// Macro transparency on a locator label: a `Text` element sourcing a
/// macro whose body is one locator `Label`, under an active locator
/// type, lowers identically to inlining that `Label` directly — both
/// flatten to the single locator-label token and both carry
/// `Important`.
pub proof fn lemma_macro_label_inline(
    ms: Seq<(String, Vec<Element>)>,
    t: crate::element::TextElement,
    name: String,
    l: crate::element::LabelElement,
    fuel: nat,
)
    requires
        t.source == TextSource::Macro(name),
        find_macro(ms, name@) matches Option::Some(body) && body == seq![Element::Label(l)],
        l.variable is Locator,
        fuel > 1,
    ensures
        crate::disamb::finite_automata::flatten_ir(
            compile_element_spec(ms, true, Element::Text(t), fuel).0,
        ) == crate::disamb::finite_automata::flatten_ir(
            compile_element_spec(ms, true, Element::Label(l), fuel).0,
        ),
        compile_element_spec(ms, true, Element::Text(t), fuel).1 == compile_element_spec(
            ms,
            true,
            Element::Label(l),
            fuel,
        ).1,
        crate::disamb::finite_automata::flatten_ir(
            compile_element_spec(ms, true, Element::Text(t), fuel).0,
        ) == seq![EdgeView::LocatorLabel],
{
    let body = find_macro(ms, name@).unwrap();
    let f1 = (fuel - 1) as nat;
    let label_ir = IrView::Edge(Option::Some(EdgeView::LocatorLabel));
    assert(compile_element_spec(ms, true, Element::Label(l), fuel).0 == label_ir);
    assert(body.drop_last() =~= Seq::<Element>::empty());
    assert(body.last() == Element::Label(l));
    assert(compile_children_spec(ms, true, body.drop_last(), f1)
        == (Seq::<IrView>::empty(), GroupVars::Plain));
    assert(compile_element_spec(ms, true, Element::Label(l), f1)
        == (label_ir, GroupVars::Important));
    let (cs, gv) = compile_children_spec(ms, true, body, f1);
    assert(cs == Seq::<IrView>::empty().push(label_ir));
    assert(cs.len() == 1 && cs[0] == label_ir);
    assert(!is_blank(cs[0]));
    assert(!all_blank(cs));
    let (ir, gv2) = compile_seq_spec(ms, true, body, f1);
    assert(gv2 == GroupVars::Important);
    let s = SeqIrView {
        contents: cs,
        formatting: Option::None,
        affixes: Option::None,
        delimiter: Seq::empty(),
        text_case: TextCase,
    };
    assert(ir == IrView::Sequence(s));
    assert(crate::disamb::finite_automata::flatten_upto(cs, s.delimiter, 0)
        =~= Seq::<EdgeView>::empty());
    assert(!crate::disamb::finite_automata::seen_before(cs, 0));
    assert(crate::disamb::finite_automata::flatten_ir(label_ir) =~= seq![EdgeView::LocatorLabel]);
    assert(crate::disamb::finite_automata::flatten_upto(cs, s.delimiter, 1)
        =~= seq![EdgeView::LocatorLabel]);
    assert(crate::disamb::finite_automata::flatten_ir(ir) =~= seq![EdgeView::LocatorLabel]);
}

/// Whether an element can be compiled against this style: every macro
/// reference reachable from it resolves, within the style's own depth
/// bound.  This is the style-validation check that rejects undefined
/// or cyclic macro references before any per-reference compilation.
pub fn element_fits_style(style: &Style, el: &Element) -> (r: bool)
    requires
        style.macros@.len() < usize::MAX,
    ensures
        r == elem_fits(style.macros@, *el, style_fuel(*style)),
{
    let fuel = style.macros.len() + 1;
    element_fits(style, el, fuel)
}

/// Exec mirror of `elem_fits`.
fn element_fits(style: &Style, el: &Element, fuel: usize) -> (r: bool)
    ensures
        r == elem_fits(style.macros@, *el, fuel as nat),
    decreases fuel, 0nat,
{
    match el {
        Element::Text(t) => match &t.source {
            TextSource::Macro(name) => {
                if fuel == 0 {
                    return false;
                }
                match style_find_macro(style, name) {
                    Option::Some(body) => sequence_fits(style, body, fuel - 1),
                    Option::None => false,
                }
            },
            _ => true,
        },
        _ => true,
    }
}

/// Exec mirror of `seq_fits`.
fn sequence_fits(style: &Style, els: &Vec<Element>, fuel: usize) -> (r: bool)
    ensures
        r == seq_fits(style.macros@, els@, fuel as nat),
    decreases fuel, 1nat,
{
    let ghost ms = style.macros@;
    let mut i: usize = 0;
    proof {
        assert(els@.subrange(0, 0) =~= Seq::<Element>::empty());
    }
    while i < els.len()
        invariant
            0 <= i <= els.len(),
            ms == style.macros@,
            seq_fits(ms, els@.subrange(0, i as int), fuel as nat),
        decreases els.len() - i,
    {
        proof {
            assert(els@.subrange(0, i as int + 1).drop_last() =~= els@.subrange(0, i as int));
            assert(els@.subrange(0, i as int + 1).last() == els@[i as int]);
        }
        if !element_fits(style, &els[i], fuel) {
            proof {
                lemma_seq_fits_not(ms, els@, fuel as nat, i as int);
            }
            return false;
        }
        i = i + 1;
    }
    proof {
        assert(els@.subrange(0, els@.len() as int) =~= els@);
    }
    true
}

/// If one element of a list does not fit, the list does not fit.
proof fn lemma_seq_fits_not(ms: Seq<(String, Vec<Element>)>, els: Seq<Element>, fuel: nat, i: int)
    requires
        0 <= i < els.len(),
        !elem_fits(ms, els[i], fuel),
    ensures
        !seq_fits(ms, els, fuel),
{
    if seq_fits(ms, els, fuel) {
        lemma_seq_fits_index(ms, els, fuel, i);
    }
}

/// Compile one template element under a render context.  This is the
/// public entry of the IR compiler; the precondition asks exactly that
/// every macro reference reachable from `el` resolves within the
/// style's own depth bound, which any macro-acyclic style meets.
pub fn element_ref_ir_impl(el: &Element, ctx: &RefContext) -> (r: (RefIR, GroupVars))
    requires
        ctx.style.macros@.len() < usize::MAX,
        elem_fits(ctx.style.macros@, *el, style_fuel(*ctx.style)),
    ensures
        ir_view(r.0) == compile_element_spec(ctx.style.macros@, ctx.locator_type is Some, *el, style_fuel(*ctx.style)).0,
        r.1 == compile_element_spec(ctx.style.macros@, ctx.locator_type is Some, *el, style_fuel(*ctx.style)).1,
{
    let fuel = ctx.style.macros.len() + 1;
    compile_element(el, ctx, fuel)
}

} // verus!
