//! The compiled intermediate representation of one reference: leaves are
//! optional tokens, interior nodes are formatted, delimited sequences.
//! A ghost mirror (`IrView`, `EdgeView`) gives every tree a mathematical
//! value that the lowering contracts speak about.

use vstd::prelude::*;

use crate::disamb::EdgeData;
use crate::element::{Affixes, Formatting, TextCase};

verus! {

/// A piece of output that a cite can match in the final automaton:
/// either exactly one emitted unit, or no output at all.
#[derive(Debug, PartialEq)]
pub enum RefIR {
    /// `None` means "no output"; `Some(token)` emits exactly one unit.
    Edge(Option<EdgeData>),
    /// An ordered, formatted, delimited run of children.
    Sequence(RefIrSeq),
}

#[derive(Debug, PartialEq)]
pub struct RefIrSeq {
    pub contents: Vec<RefIR>,
    pub formatting: Option<Formatting>,
    pub affixes: Option<Affixes>,
    pub delimiter: String,
    pub text_case: TextCase,
}

/// Ghost value of a token: literal text or a semantic placeholder.
pub enum EdgeView {
    Output(Seq<char>),
    Locator,
    NotUsed,
    LocatorLabel,
    YearSuffix,
    YearSuffixExplicit,
    YearSuffixPlain,
    CitationNumber,
    CitationNumberLabel,
    Frnn,
    FrnnLabel,
    Accessed,
}

/// Ghost value of an affix pair.
pub struct AffixesView {
    pub prefix: Seq<char>,
    pub suffix: Seq<char>,
}

/// Ghost value of an interior sequence node.
pub struct SeqIrView {
    pub contents: Seq<IrView>,
    pub formatting: Option<Formatting>,
    pub affixes: Option<AffixesView>,
    pub delimiter: Seq<char>,
    pub text_case: TextCase,
}

/// Ghost value of a whole intermediate tree.
pub enum IrView {
    Edge(Option<EdgeView>),
    Sequence(SeqIrView),
}

impl View for EdgeData {
    type V = EdgeView;

    open spec fn view(&self) -> EdgeView {
        match self {
            EdgeData::Output(s) => EdgeView::Output(s@),
            EdgeData::Locator => EdgeView::Locator,
            EdgeData::NotUsed => EdgeView::NotUsed,
            EdgeData::LocatorLabel => EdgeView::LocatorLabel,
            EdgeData::YearSuffix => EdgeView::YearSuffix,
            EdgeData::YearSuffixExplicit => EdgeView::YearSuffixExplicit,
            EdgeData::YearSuffixPlain => EdgeView::YearSuffixPlain,
            EdgeData::CitationNumber => EdgeView::CitationNumber,
            EdgeData::CitationNumberLabel => EdgeView::CitationNumberLabel,
            EdgeData::Frnn => EdgeView::Frnn,
            EdgeData::FrnnLabel => EdgeView::FrnnLabel,
            EdgeData::Accessed => EdgeView::Accessed,
        }
    }
}

/// Ghost value of an optional affix pair.
pub open spec fn affixes_view(a: Option<Affixes>) -> Option<AffixesView> {
    match a {
        Option::None => Option::<AffixesView>::None,
        Option::Some(a) => Option::Some(AffixesView { prefix: a.prefix@, suffix: a.suffix@ }),
    }
}

/// Ghost value of one tree node.
pub open spec fn ir_view(ir: RefIR) -> IrView
    decreases ir, 0nat, 0nat,
{
    match ir {
        RefIR::Edge(e) => IrView::Edge(match e {
            Option::None => Option::<EdgeView>::None,
            Option::Some(d) => Option::Some(d@),
        }),
        RefIR::Sequence(s) => IrView::Sequence(SeqIrView {
            contents: irs_view_prefix(s.contents@, s.contents@.len() as int),
            formatting: s.formatting,
            affixes: affixes_view(s.affixes),
            delimiter: s.delimiter@,
            text_case: s.text_case,
        }),
    }
}

/// Ghost values of the first `n` nodes of a child list.
pub open spec fn irs_view_prefix(s: Seq<RefIR>, n: int) -> Seq<IrView>
    decreases s, 1nat, n,
{
    if n <= 0 || n > s.len() {
        Seq::empty()
    } else {
        irs_view_prefix(s, n - 1).push(ir_view(s[n - 1]))
    }
}

/// Ghost values of a whole child list.
pub open spec fn irs_view(s: Seq<RefIR>) -> Seq<IrView> {
    irs_view_prefix(s, s.len() as int)
}

pub broadcast proof fn lemma_irs_view_prefix(s: Seq<RefIR>, n: int)
    requires
        0 <= n <= s.len(),
    ensures
        (#[trigger] irs_view_prefix(s, n)).len() == n,
        forall|i: int| 0 <= i < n ==> irs_view_prefix(s, n)[i] == ir_view(s[i]),
    decreases n,
{
    if n > 0 {
        lemma_irs_view_prefix(s, n - 1);
    }
}

impl View for RefIR {
    type V = IrView;

    open spec fn view(&self) -> IrView {
        ir_view(*self)
    }
}

/// A node that contributes no output at all: the bare no-output leaf.
/// Only such nodes are transparent to delimiter placement.
pub open spec fn is_blank(v: IrView) -> bool {
    v matches IrView::Edge(Option::None)
}

/// Whether every node of a child list is the no-output leaf.
pub open spec fn all_blank(cs: Seq<IrView>) -> bool {
    forall|i: int| 0 <= i < cs.len() ==> is_blank(#[trigger] cs[i])
}

/// Appending one ghost child extends `all_blank` pointwise.
pub proof fn lemma_all_blank_push(cs: Seq<IrView>, x: IrView)
    ensures
        all_blank(cs.push(x)) == (all_blank(cs) && is_blank(x)),
{
    let nv = cs.push(x);
    if all_blank(cs) && is_blank(x) {
        assert forall|i: int| 0 <= i < nv.len() implies is_blank(nv[i]) by {
            if i < cs.len() {
                assert(nv[i] == cs[i]);
            } else {
                assert(nv[i] == x);
            }
        }
    }
    if all_blank(nv) {
        assert forall|i: int| 0 <= i < cs.len() implies is_blank(cs[i]) by {
            assert(cs[i] == nv[i]);
        }
        assert(is_blank(nv[cs.len() as int]));
    }
}

/// Appending one node extends the ghost value of a child list by the
/// node's ghost value.
pub proof fn lemma_irs_view_push(s: Seq<RefIR>, x: RefIR)
    ensures
        irs_view(s.push(x)) == irs_view(s).push(ir_view(x)),
{
    let sp = s.push(x);
    lemma_irs_view_prefix(s, s.len() as int);
    lemma_irs_view_prefix(sp, sp.len() as int);
    assert forall|i: int| 0 <= i < s.len() implies irs_view(sp)[i] == irs_view(s).push(ir_view(x))[i] by {
        assert(sp[i] == s[i]);
    }
    assert(sp[s.len() as int] == x);
    assert(irs_view(sp) =~= irs_view(s).push(ir_view(x)));
}

impl RefIR {
    /// The ghost values of a child list are its nodes' ghost values,
    /// index by index.
    pub proof fn lemma_irs_view(s: Seq<RefIR>)
        ensures
            irs_view(s).len() == s.len(),
            forall|i: int| 0 <= i < s.len() ==> irs_view(s)[i] == ir_view(s[i]),
    {
        lemma_irs_view_prefix(s, s.len() as int);
    }
}

/// The debug rendering of one token.
pub open spec fn edge_debug_spec(e: EdgeView) -> Seq<char> {
    match e {
        EdgeView::Output(s) => "Output(\""@ + s + "\")"@,
        EdgeView::Locator => "Locator"@,
        EdgeView::NotUsed => "NotUsed"@,
        EdgeView::LocatorLabel => "LocatorLabel"@,
        EdgeView::YearSuffix => "YearSuffix"@,
        EdgeView::YearSuffixExplicit => "YearSuffixExplicit"@,
        EdgeView::YearSuffixPlain => "YearSuffixPlain"@,
        EdgeView::CitationNumber => "CitationNumber"@,
        EdgeView::CitationNumberLabel => "CitationNumberLabel"@,
        EdgeView::Frnn => "Frnn"@,
        EdgeView::FrnnLabel => "FrnnLabel"@,
        EdgeView::Accessed => "Accessed"@,
    }
}

/// The debug rendering of a tree: leaves by their token (or `None`),
/// sequences as a bracketed, comma-separated child list.
pub open spec fn ir_debug_spec(v: IrView) -> Seq<char>
    decreases v, 0nat, 0nat,
{
    match v {
        IrView::Edge(Option::None) => "None"@,
        IrView::Edge(Option::Some(e)) => edge_debug_spec(e),
        IrView::Sequence(s) => "["@ + irs_debug_spec(s.contents, s.contents.len() as int) + "]"@,
    }
}

/// The debug rendering of the first `i` children, comma-separated.
pub open spec fn irs_debug_spec(cs: Seq<IrView>, i: int) -> Seq<char>
    decreases cs, 1nat, i,
{
    if i <= 0 || i > cs.len() {
        Seq::empty()
    } else {
        irs_debug_spec(cs, i - 1) + (if i - 1 > 0 {
            ","@
        } else {
            Seq::<char>::empty()
        }) + ir_debug_spec(cs[i - 1])
    }
}

impl EdgeData {
    /// Render one token for debugging.
    pub fn debug(&self) -> (r: String)
        ensures
            r@ == edge_debug_spec(self@),
    {
        match self {
            EdgeData::Output(s) => {
                let mut out = "Output(\"".to_owned();
                out.append(s.as_str());
                out.append("\")");
                out
            },
            EdgeData::Locator => "Locator".to_owned(),
            EdgeData::NotUsed => "NotUsed".to_owned(),
            EdgeData::LocatorLabel => "LocatorLabel".to_owned(),
            EdgeData::YearSuffix => "YearSuffix".to_owned(),
            EdgeData::YearSuffixExplicit => "YearSuffixExplicit".to_owned(),
            EdgeData::YearSuffixPlain => "YearSuffixPlain".to_owned(),
            EdgeData::CitationNumber => "CitationNumber".to_owned(),
            EdgeData::CitationNumberLabel => "CitationNumberLabel".to_owned(),
            EdgeData::Frnn => "Frnn".to_owned(),
            EdgeData::FrnnLabel => "FrnnLabel".to_owned(),
            EdgeData::Accessed => "Accessed".to_owned(),
        }
    }
}

/// Render a child list for debugging, comma-separated.
fn debug_contents(contents: &Vec<RefIR>) -> (r: String)
    ensures
        r@ == irs_debug_spec(irs_view(contents@), contents@.len() as int),
    decreases *contents, 0nat,
{
    let ghost cs = irs_view(contents@);
    proof {
        RefIR::lemma_irs_view(contents@);
    }
    let mut out = String::new();
    let mut i: usize = 0;
    while i < contents.len()
        invariant
            0 <= i <= contents.len(),
            cs == irs_view(contents@),
            cs.len() == contents@.len(),
            forall|j: int| 0 <= j < cs.len() ==> cs[j] == ir_view(contents@[j]),
            out@ == irs_debug_spec(cs, i as int),
        decreases contents.len() - i,
    {
        if i > 0 {
            out.append(",");
        }
        let piece = contents[i].debug();
        out.append(piece.as_str());
        i = i + 1;
    }
    out
}

impl RefIR {
    /// Render the tree for debugging: tokens by name, sequences as a
    /// bracketed, comma-separated child list.
    pub fn debug(&self) -> (r: String)
        ensures
            r@ == ir_debug_spec(ir_view(*self)),
        decreases *self, 1nat,
    {
        match self {
            RefIR::Edge(e) => match e {
                Option::None => "None".to_owned(),
                Option::Some(d) => d.debug(),
            },
            RefIR::Sequence(s) => {
                proof {
                    RefIR::lemma_irs_view(s.contents@);
                }
                let mut out = "[".to_owned();
                let body = debug_contents(&s.contents);
                out.append(body.as_str());
                out.append("]");
                out
            },
        }
    }
}

/// The canonical form of one token: the two intermediate year-suffix
/// variants fold into the one canonical year-suffix token; every other
/// token is unchanged.
pub open spec fn canon_edge(e: EdgeView) -> EdgeView {
    match e {
        EdgeView::YearSuffixExplicit => EdgeView::YearSuffix,
        EdgeView::YearSuffixPlain => EdgeView::YearSuffix,
        _ => e,
    }
}

/// A tree with every token in canonical form and nothing else changed.
pub open spec fn canon_ir(v: IrView) -> IrView
    decreases v, 0nat, 0nat,
{
    match v {
        IrView::Edge(Option::None) => IrView::Edge(Option::None),
        IrView::Edge(Option::Some(e)) => IrView::Edge(Option::Some(canon_edge(e))),
        IrView::Sequence(s) => IrView::Sequence(SeqIrView {
            contents: canon_list(s.contents, s.contents.len() as int),
            formatting: s.formatting,
            affixes: s.affixes,
            delimiter: s.delimiter,
            text_case: s.text_case,
        }),
    }
}

/// The canonical forms of the first `i` children.
pub open spec fn canon_list(cs: Seq<IrView>, i: int) -> Seq<IrView>
    decreases cs, 1nat, i,
{
    if i <= 0 || i > cs.len() {
        Seq::empty()
    } else {
        canon_list(cs, i - 1).push(canon_ir(cs[i - 1]))
    }
}

impl EdgeData {
    /// The canonical form of this token.
    pub fn canonical(&self) -> (r: EdgeData)
        ensures
            r@ == canon_edge(self@),
    {
        match self {
            EdgeData::YearSuffixExplicit => EdgeData::YearSuffix,
            EdgeData::YearSuffixPlain => EdgeData::YearSuffix,
            _ => self.clone(),
        }
    }
}

/// Canonicalize a child list.
fn canonicalize_contents(contents: &Vec<RefIR>) -> (r: Vec<RefIR>)
    ensures
        irs_view(r@) == canon_list(irs_view(contents@), contents@.len() as int),
    decreases *contents, 0nat,
{
    let ghost cs = irs_view(contents@);
    proof {
        RefIR::lemma_irs_view(contents@);
        assert(irs_view(Seq::<RefIR>::empty()) =~= Seq::<IrView>::empty());
    }
    let mut out: Vec<RefIR> = Vec::new();
    let mut i: usize = 0;
    while i < contents.len()
        invariant
            0 <= i <= contents.len(),
            cs == irs_view(contents@),
            cs.len() == contents@.len(),
            forall|j: int| 0 <= j < cs.len() ==> cs[j] == ir_view(contents@[j]),
            irs_view(out@) == canon_list(cs, i as int),
        decreases contents.len() - i,
    {
        let piece = contents[i].canonicalize_year_suffixes();
        proof {
            lemma_irs_view_push(out@, piece);
        }
        out.push(piece);
        i = i + 1;
    }
    out
}

impl RefIR {
    /// Fold the two intermediate year-suffix token variants into the
    /// one canonical year-suffix token, everywhere in the tree.  This
    /// runs before automaton construction; nothing else changes.
    pub fn canonicalize_year_suffixes(&self) -> (r: RefIR)
        ensures
            ir_view(r) == canon_ir(ir_view(*self)),
        decreases *self, 1nat,
    {
        match self {
            RefIR::Edge(e) => match e {
                Option::None => RefIR::Edge(Option::None),
                Option::Some(d) => RefIR::Edge(Option::Some(d.canonical())),
            },
            RefIR::Sequence(s) => {
                proof {
                    RefIR::lemma_irs_view(s.contents@);
                }
                let contents = canonicalize_contents(&s.contents);
                RefIR::Sequence(RefIrSeq {
                    contents,
                    formatting: s.formatting,
                    affixes: match &s.affixes {
                        Option::None => Option::None,
                        Option::Some(a) => Option::Some(a.clone()),
                    },
                    delimiter: s.delimiter.clone(),
                    text_case: TextCase,
                })
            },
        }
    }
}

impl Default for RefIR {
    /// The no-output leaf.
    fn default() -> (r: Self)
        ensures
            r == RefIR::Edge(Option::<EdgeData>::None),
    {
        RefIR::Edge(Option::None)
    }
}

} // verus!
