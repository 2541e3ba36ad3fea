//! Tests of the supporting model types: the GroupVars monoid, the name
//! configuration, the markup collaborator, and debug rendering.

use cite_automata::disamb::EdgeData;
use cite_automata::element::{Formatting, Name, TextCase};
use cite_automata::group::GroupVars;
use cite_automata::markup::Markup;
use cite_automata::ref_ir::{RefIR, RefIrSeq};

#[test]
fn group_vars_new_is_plain() {
    assert_eq!(GroupVars::new(), GroupVars::Plain);
}

#[test]
fn group_vars_important_dominates() {
    assert_eq!(GroupVars::Important.neighbour(GroupVars::Plain), GroupVars::Important);
    assert_eq!(GroupVars::Plain.neighbour(GroupVars::Important), GroupVars::Important);
    assert_eq!(GroupVars::Important.neighbour(GroupVars::Missing), GroupVars::Important);
    assert_eq!(GroupVars::Missing.neighbour(GroupVars::Important), GroupVars::Important);
}

#[test]
fn group_vars_missing_beats_plain() {
    assert_eq!(GroupVars::Missing.neighbour(GroupVars::Plain), GroupVars::Missing);
    assert_eq!(GroupVars::Plain.neighbour(GroupVars::Missing), GroupVars::Missing);
    assert_eq!(GroupVars::Plain.neighbour(GroupVars::Plain), GroupVars::Plain);
}

#[test]
fn group_vars_merge_is_commutative_and_associative_on_samples() {
    let vals = [GroupVars::Plain, GroupVars::Missing, GroupVars::Important];
    for &a in &vals {
        for &b in &vals {
            assert_eq!(a.neighbour(b), b.neighbour(a));
            for &c in &vals {
                assert_eq!(a.neighbour(b).neighbour(c), a.neighbour(b.neighbour(c)));
            }
        }
    }
}

#[test]
fn markup_open_close_runs() {
    let fmt = Markup::new();
    let bold = Formatting { bold: true, italic: false };
    let both = Formatting { bold: true, italic: true };
    assert_eq!(fmt.stack_preorder(Some(&bold)), "<b>");
    assert_eq!(fmt.stack_postorder(Some(&bold)), "</b>");
    assert_eq!(fmt.stack_preorder(Some(&both)), "<b><i>");
    assert_eq!(fmt.stack_postorder(Some(&both)), "</i></b>");
    assert_eq!(fmt.stack_preorder(None), "");
    assert_eq!(fmt.stack_postorder(None), "");
}

#[test]
fn markup_renders_plain_literals_unchanged() {
    let fmt = Markup::new();
    assert_eq!(fmt.output_in_context("a; b"), "a; b");
    assert_eq!(fmt.output_in_context(""), "");
}

#[test]
fn default_formatting_produces_no_tags() {
    let fmt = Markup::new();
    let f = Formatting::default();
    assert_eq!(fmt.stack_preorder(Some(&f)), "");
    assert_eq!(fmt.stack_postorder(Some(&f)), "");
}

#[test]
fn name_empty_has_nothing_set() {
    let n = Name::empty();
    assert_eq!(n, Name::default());
    assert!(n.delimiter.is_none());
    assert!(n.sort_separator.is_none());
    assert!(!n.enable_et_al());
}

#[test]
fn name_root_default_values() {
    let n = Name::root_default();
    assert_eq!(n.sort_separator.as_deref(), Some(", "));
    assert_eq!(n.et_al_use_last, Some(false));
    assert_eq!(n.initialize, Some(true));
    assert!(!n.enable_et_al());
}

#[test]
fn name_merge_prefers_the_overrider() {
    let base = Name { et_al_min: Some(3), et_al_use_first: Some(1), ..Name::empty() };
    let over = Name { et_al_min: Some(5), sort_separator: Some("/".to_owned()), ..Name::empty() };
    let merged = base.merge(&over);
    assert_eq!(merged.et_al_min, Some(5));
    assert_eq!(merged.et_al_use_first, Some(1));
    assert_eq!(merged.sort_separator.as_deref(), Some("/"));
    assert!(merged.enable_et_al());
}

#[test]
fn name_merge_does_not_inherit_formatting() {
    let base = Name {
        formatting: Some(Formatting { bold: true, italic: false }),
        ..Name::empty()
    };
    let merged = base.merge(&Name::empty());
    assert_eq!(merged.formatting, None);
}

#[test]
fn enable_et_al_needs_both_counts() {
    let only_min = Name { et_al_min: Some(3), ..Name::empty() };
    assert!(!only_min.enable_et_al());
    let both = Name { et_al_min: Some(3), et_al_use_first: Some(1), ..Name::empty() };
    assert!(both.enable_et_al());
}

#[test]
fn debug_renders_leaves_and_sequences() {
    assert_eq!(RefIR::Edge(None).debug(), "None");
    assert_eq!(RefIR::Edge(Some(EdgeData::Locator)).debug(), "Locator");
    assert_eq!(
        RefIR::Edge(Some(EdgeData::Output("a".to_owned()))).debug(),
        "Output(\"a\")"
    );
    let seq = RefIR::Sequence(RefIrSeq {
        contents: vec![
            RefIR::Edge(None),
            RefIR::Edge(Some(EdgeData::LocatorLabel)),
        ],
        formatting: None,
        affixes: None,
        delimiter: String::new(),
        text_case: TextCase,
    });
    assert_eq!(seq.debug(), "[None,LocatorLabel]");
}

#[test]
fn default_ref_ir_is_the_no_output_leaf() {
    assert_eq!(RefIR::default(), RefIR::Edge(None));
}

#[test]
fn year_suffix_variants_fold_to_the_canonical_token() {
    let tree = RefIR::Sequence(RefIrSeq {
        contents: vec![
            RefIR::Edge(Some(EdgeData::YearSuffixExplicit)),
            RefIR::Edge(Some(EdgeData::Output("a".to_owned()))),
            RefIR::Edge(Some(EdgeData::YearSuffixPlain)),
            RefIR::Edge(None),
        ],
        formatting: None,
        affixes: None,
        delimiter: ".".to_owned(),
        text_case: TextCase,
    });
    let canon = tree.canonicalize_year_suffixes();
    let expected = RefIR::Sequence(RefIrSeq {
        contents: vec![
            RefIR::Edge(Some(EdgeData::YearSuffix)),
            RefIR::Edge(Some(EdgeData::Output("a".to_owned()))),
            RefIR::Edge(Some(EdgeData::YearSuffix)),
            RefIR::Edge(None),
        ],
        formatting: None,
        affixes: None,
        delimiter: ".".to_owned(),
        text_case: TextCase,
    });
    assert_eq!(canon, expected);
}
