//! The style template data model: a closed tagged union of rendering
//! instructions, plus the small option types they carry.  The tree is
//! immutable input to the compiler; nothing here is mutated during a
//! compile pass.

use std::sync::Arc;
use vstd::prelude::*;

verus! {

/// A parsed, validated citation style: a macro table and a citation layout.
#[derive(Debug, Eq, PartialEq)]
pub struct Style {
    /// Named macro bodies, looked up by `<text macro="..."/>`.  The first
    /// entry with a given name wins.
    pub macros: Vec<(String, Vec<Element>)>,
    pub citation: Citation,
}

#[derive(Debug, Eq, PartialEq)]
pub struct Citation {
    pub layout: Layout,
}

#[derive(Debug, Eq, PartialEq)]
pub struct Layout {
    pub elements: Vec<Element>,
}

/// One rendering instruction of the template language.  Compilation is a
/// closed dispatch over these variants; kinds beyond `Text` and `Label`
/// fall back to producing no output.
#[derive(Debug, Eq, PartialEq)]
pub enum Element {
    Text(TextElement),
    Label(LabelElement),
    Number(NumberElement),
    Group(Group),
    Choose(Arc<()>),
    Names(Arc<()>),
    Date(Arc<()>),
}

#[derive(Debug, Eq, Clone, PartialEq)]
pub struct TextElement {
    pub source: TextSource,
    pub formatting: Option<Formatting>,
    pub affixes: Option<Affixes>,
    pub quotes: bool,
    pub strip_periods: bool,
    pub text_case: TextCase,
    pub display: Option<DisplayMode>,
}

#[derive(Debug, Eq, Clone, PartialEq)]
pub struct LabelElement {
    pub variable: NumberVariable,
    pub form: TermForm,
    pub formatting: Option<Formatting>,
    pub affixes: Option<Affixes>,
    pub strip_periods: bool,
    pub text_case: TextCase,
    pub plural: bool,
}

#[derive(Debug, Copy, Clone, PartialEq, Eq, Hash)]
pub enum TermForm {
    Long,
    Short,
    Symbol,
}

#[derive(Debug, Eq, Clone, PartialEq)]
pub struct NumberElement {
    pub variable: NumberVariable,
    pub formatting: Option<Formatting>,
    pub affixes: Option<Affixes>,
    pub text_case: TextCase,
    pub display: Option<DisplayMode>,
}

#[derive(Debug, Eq, PartialEq)]
pub struct Group {
    pub formatting: Option<Formatting>,
    pub delimiter: Delimiter,
    pub affixes: Option<Affixes>,
    pub elements: Vec<Element>,
    pub display: Option<DisplayMode>,
}

/// Where a `<text>` element takes its content from.
#[derive(Debug, Eq, Clone, PartialEq)]
pub enum TextSource {
    Macro(String),
    Value(String),
    Variable(StandardVariable, VariableForm),
    Term(TextTermSelector, bool),
}

#[derive(Debug, Copy, Clone, PartialEq, Eq, Hash)]
pub enum VariableForm {
    Long,
    Short,
}

#[derive(Debug, Copy, Clone, PartialEq, Eq)]
pub enum TextTermSelector {
    Simple(SimpleTermSelector),
    Gendered,
    Role,
}

#[derive(Debug, Copy, Clone, PartialEq, Eq, Hash)]
pub enum SimpleTermSelector {
    Misc(MiscTerm, TermFormExtended),
    Category,
    Quote,
}

#[derive(Debug, Copy, Clone, PartialEq, Eq, Hash)]
pub enum TermFormExtended {
    Long,
    Short,
    Symbol,
    Verb,
    VerbShort,
}

#[derive(Debug, Copy, Clone, PartialEq, Eq, Hash)]
pub enum MiscTerm {
    Accessed,
    Ad,
    And,
    AndOthers,
    Anonymous,
    At,
    AvailableAt,
    Bc,
    By,
    Circa,
    Cited,
    EtAl,
    Forthcoming,
    From,
    Ibid,
    In,
    InPress,
    Internet,
    Interview,
    Letter,
    NoDate,
    Online,
    PresentedAt,
    Reference,
    Retrieved,
    Scale,
    Version,
    PageRangeDelimiter,
    YearRangeDelimiter,
}

/// In-text formatting carried by an element; realized by the markup
/// collaborator as explicit open/close tag edges during lowering.
#[derive(Debug, Eq, Clone, PartialEq, Default, Hash, Copy)]
pub struct Formatting {
    pub bold: bool,
    pub italic: bool,
}

/// A literal run placed between the contributing children of a sequence.
#[derive(Debug, Eq, PartialEq, Default, Hash)]
pub struct Delimiter(pub String);

impl Clone for Delimiter {
    fn clone(&self) -> (r: Delimiter)
        ensures
            r == *self,
    {
        Delimiter(self.0.clone())
    }
}

#[derive(Debug, Eq, Clone, PartialEq, Default, Hash)]
pub struct DisplayMode;

/// Literal runs placed before and after a sequence's whole output; an
/// empty run produces no edge.
#[derive(Debug, Eq, PartialEq, Default, Hash)]
pub struct Affixes {
    pub prefix: String,
    pub suffix: String,
}

impl Clone for Affixes {
    fn clone(&self) -> (r: Affixes)
        ensures
            r == *self,
    {
        Affixes { prefix: self.prefix.clone(), suffix: self.suffix.clone() }
    }
}

#[derive(Debug, Eq, Clone, PartialEq, Default, Hash)]
pub struct TextCase;

#[derive(Debug, Eq, Clone, PartialEq)]
pub enum LocatorType {
    Book,
    Chapter,
    Column,
    Figure,
    Folio,
    Issue,
    Line,
    Note,
    Opus,
    Page,
    Paragraph,
    Part,
    Section,
    SubVerbo,
    Verse,
    Volume,
    Article,
    Subparagraph,
    Rule,
    Subsection,
    Schedule,
    Title,
    Supplement,
}

#[derive(Debug, Copy, Clone, PartialEq, Eq, Hash)]
pub enum Position {
    First,
    Ibid,
    IbidWithLocator,
    Subsequent,
    NearNote,
    IbidNear,
    IbidWithLocatorNear,
    FarNote,
}

#[derive(Debug, Eq, Copy, Clone, PartialEq, Hash)]
pub enum AnyVariable {
    Ordinary(Variable),
    Name(NameVariable),
    Date(DateVariable),
    Number(NumberVariable),
}

#[derive(Debug, Eq, Copy, Clone, PartialEq, Hash)]
pub enum StandardVariable {
    Ordinary(Variable),
    Number(NumberVariable),
}

#[derive(Debug, Copy, Clone, PartialEq, Eq, Hash)]
pub enum Variable {
    JournalAbbreviation,
    Abstract,
    Annote,
    Archive,
    ArchiveLocation,
    ArchivePlace,
    Authority,
    CallNumber,
    CitationLabel,
    CollectionTitle,
    ContainerTitle,
    ContainerTitleShort,
    Dimensions,
    DOI,
    Event,
    EventPlace,
    Genre,
    ISBN,
    ISSN,
    Jurisdiction,
    Keyword,
    Medium,
    Note,
    OriginalPublisher,
    OriginalPublisherPlace,
    OriginalTitle,
    PMCID,
    PMID,
    Publisher,
    PublisherPlace,
    References,
    ReviewedTitle,
    Scale,
    Section,
    Source,
    Status,
    Title,
    TitleShort,
    URL,
    Version,
    YearSuffix,
    Hereinafter,
    Dummy,
    LocatorExtra,
    VolumeTitle,
    Committee,
    DocumentName,
    GazetteFlag,
    Language,
}

#[derive(Debug, Copy, Clone, PartialEq, Eq, Hash)]
pub enum NumberVariable {
    ChapterNumber,
    CollectionNumber,
    Edition,
    Issue,
    Number,
    NumberOfPages,
    NumberOfVolumes,
    Volume,
    Locator,
    Page,
    PageFirst,
    FirstReferenceNoteNumber,
    CitationNumber,
    PublicationNumber,
    Supplement,
    Authority,
}

#[derive(Debug, Copy, Clone, PartialEq, Eq, Hash, PartialOrd)]
pub enum NameVariable {
    Author,
    CollectionEditor,
    Composer,
    ContainerAuthor,
    Director,
    Editor,
    EditorialDirector,
    Illustrator,
    Interviewer,
    OriginalAuthor,
    Recipient,
    ReviewedAuthor,
    Translator,
    EditorTranslator,
    Authority,
    Dummy,
}

#[derive(Debug, Copy, Clone, PartialEq, Eq, Hash)]
pub enum DateVariable {
    Accessed,
    Container,
    EventDate,
    Issued,
    OriginalDate,
    Submitted,
    LocatorDate,
    PublicationDate,
    AvailableDate,
}

impl From<&StandardVariable> for AnyVariable {
    fn from(sv: &StandardVariable) -> Self {
        match sv {
            StandardVariable::Number(n) => AnyVariable::Number(*n),
            StandardVariable::Ordinary(o) => AnyVariable::Ordinary(*o),
        }
    }
}

/// Name-rendering configuration.  Every property may be inherited from a
/// surrounding element, so each is optional here; `root_default` gives
/// the values used when no parent supplies one.
#[derive(Debug, Eq, Clone, PartialEq, Hash)]
pub struct Name {
    pub and: Option<()>,
    pub delimiter: Option<Delimiter>,
    pub delimiter_precedes_et_al: Option<DelimiterPrecedes>,
    pub delimiter_precedes_last: Option<DelimiterPrecedes>,
    pub et_al_min: Option<u32>,
    pub et_al_use_first: Option<u32>,
    pub et_al_use_last: Option<bool>,
    pub et_al_subsequent_min: Option<u32>,
    pub et_al_subsequent_use_first: Option<u32>,
    pub form: Option<NameForm>,
    pub initialize: Option<bool>,
    pub initialize_with: Option<String>,
    pub name_as_sort_order: Option<NameAsSortOrder>,
    pub sort_separator: Option<String>,
    pub formatting: Option<Formatting>,
    pub affixes: Option<Affixes>,
    pub name_part_given: Option<NamePart>,
    pub name_part_family: Option<NamePart>,
}

#[derive(Debug, Copy, Clone, PartialEq, Eq, Hash)]
pub enum NameAsSortOrder {
    First,
    All,
}

#[derive(Debug, Copy, Clone, PartialEq, Eq, Hash)]
pub enum DelimiterPrecedes {
    Contextual,
    AfterInvertedName,
    Always,
    Never,
}

#[derive(Debug, Copy, Clone, PartialEq, Eq, Hash)]
pub enum NameForm {
    Long,
    Short,
    Count,
}

#[derive(Debug, Eq, PartialEq, Hash)]
pub struct NamePart {
    pub name: NamePartName,
    pub affixes: Option<Affixes>,
    pub text_case: TextCase,
    pub formatting: Option<Formatting>,
}

impl Clone for NamePart {
    fn clone(&self) -> (r: NamePart)
        ensures
            r == *self,
    {
        NamePart {
            name: self.name,
            affixes: match &self.affixes {
                Option::None => Option::None,
                Option::Some(a) => Option::Some(a.clone()),
            },
            text_case: TextCase,
            formatting: self.formatting,
        }
    }
}

#[derive(Debug, Copy, Clone, PartialEq, Eq, Hash)]
pub enum NamePartName {
    Given,
    Family,
}

impl Default for Name {
    /// Same as `empty`: a name element with nothing set.
    fn default() -> (r: Self)
        ensures
            r == Name::empty_spec(),
    {
        Name::empty()
    }
}

impl Name {
    /// The all-`None` name configuration.
    pub open spec fn empty_spec() -> Name {
        Name {
            and: Option::None,
            delimiter: Option::None,
            delimiter_precedes_et_al: Option::None,
            delimiter_precedes_last: Option::None,
            et_al_min: Option::None,
            et_al_use_first: Option::None,
            et_al_use_last: Option::None,
            et_al_subsequent_min: Option::None,
            et_al_subsequent_use_first: Option::None,
            form: Option::None,
            initialize: Option::None,
            initialize_with: Option::None,
            name_as_sort_order: Option::None,
            sort_separator: Option::None,
            formatting: Option::None,
            affixes: Option::None,
            name_part_given: Option::None,
            name_part_family: Option::None,
        }
    }

    /// A name element with no property set at all.
    pub fn empty() -> (r: Self)
        ensures
            r == Name::empty_spec(),
    {
        Name {
            and: Option::None,
            delimiter: Option::None,
            delimiter_precedes_et_al: Option::None,
            delimiter_precedes_last: Option::None,
            et_al_min: Option::None,
            et_al_use_first: Option::None,
            et_al_use_last: Option::None,
            et_al_subsequent_min: Option::None,
            et_al_subsequent_use_first: Option::None,
            form: Option::None,
            initialize: Option::None,
            initialize_with: Option::None,
            name_as_sort_order: Option::None,
            sort_separator: Option::None,
            formatting: Option::None,
            affixes: Option::None,
            name_part_given: Option::None,
            name_part_family: Option::None,
        }
    }

    /// The concrete defaults a root name element falls back to when no
    /// parent gives a definition: a plain delimiter, contextual
    /// delimiter placement, long form, initialization on, and a
    /// comma-space sort separator.
    pub fn root_default() -> (r: Self)
        ensures
            r.and == Option::<()>::None,
            r.delimiter matches Option::Some(d) && d.0@ == Seq::<char>::empty(),
            r.delimiter_precedes_et_al == Option::Some(DelimiterPrecedes::Contextual),
            r.delimiter_precedes_last == Option::Some(DelimiterPrecedes::Contextual),
            r.et_al_min == Option::<u32>::None,
            r.et_al_use_first == Option::<u32>::None,
            r.et_al_use_last == Option::Some(false),
            r.et_al_subsequent_min == Option::<u32>::None,
            r.et_al_subsequent_use_first == Option::<u32>::None,
            r.form == Option::Some(NameForm::Long),
            r.initialize == Option::Some(true),
            r.initialize_with == Option::<String>::None,
            r.name_as_sort_order == Option::<NameAsSortOrder>::None,
            r.sort_separator matches Option::Some(s) && s@ == ", "@,
            r.formatting == Option::<Formatting>::None,
            r.affixes == Option::<Affixes>::None,
            r.name_part_given == Option::<NamePart>::None,
            r.name_part_family == Option::<NamePart>::None,
    {
        proof {
            reveal_strlit(", ");
        }
        Name {
            and: Option::None,
            delimiter: Option::Some(Delimiter(String::new())),
            delimiter_precedes_et_al: Option::Some(DelimiterPrecedes::Contextual),
            delimiter_precedes_last: Option::Some(DelimiterPrecedes::Contextual),
            et_al_min: Option::None,
            et_al_use_first: Option::None,
            et_al_use_last: Option::Some(false),
            et_al_subsequent_min: Option::None,
            et_al_subsequent_use_first: Option::None,
            form: Option::Some(NameForm::Long),
            initialize: Option::Some(true),
            initialize_with: Option::None,
            name_as_sort_order: Option::None,
            sort_separator: Option::Some(", ".to_owned()),
            formatting: Option::None,
            affixes: Option::None,
            name_part_given: Option::None,
            name_part_family: Option::None,
        }
    }

    /// Merge an upstream definition with a more local one: every
    /// property the overrider sets wins; the four non-inherited
    /// properties (formatting, affixes, name parts) always come from
    /// the overrider.
    pub fn merge(&self, overrider: &Self) -> (r: Self)
        ensures
            r.and == (if overrider.and is Some { overrider.and } else { self.and }),
            r.delimiter == (if overrider.delimiter is Some { overrider.delimiter } else { self.delimiter }),
            r.delimiter_precedes_et_al == (if overrider.delimiter_precedes_et_al is Some { overrider.delimiter_precedes_et_al } else { self.delimiter_precedes_et_al }),
            r.delimiter_precedes_last == (if overrider.delimiter_precedes_last is Some { overrider.delimiter_precedes_last } else { self.delimiter_precedes_last }),
            r.et_al_min == (if overrider.et_al_min is Some { overrider.et_al_min } else { self.et_al_min }),
            r.et_al_use_first == (if overrider.et_al_use_first is Some { overrider.et_al_use_first } else { self.et_al_use_first }),
            r.et_al_use_last == (if overrider.et_al_use_last is Some { overrider.et_al_use_last } else { self.et_al_use_last }),
            r.et_al_subsequent_min == (if overrider.et_al_subsequent_min is Some { overrider.et_al_subsequent_min } else { self.et_al_subsequent_min }),
            r.et_al_subsequent_use_first == (if overrider.et_al_subsequent_use_first is Some { overrider.et_al_subsequent_use_first } else { self.et_al_subsequent_use_first }),
            r.form == (if overrider.form is Some { overrider.form } else { self.form }),
            r.initialize == (if overrider.initialize is Some { overrider.initialize } else { self.initialize }),
            r.initialize_with == (if overrider.initialize_with is Some { overrider.initialize_with } else { self.initialize_with }),
            r.name_as_sort_order == (if overrider.name_as_sort_order is Some { overrider.name_as_sort_order } else { self.name_as_sort_order }),
            r.sort_separator == (if overrider.sort_separator is Some { overrider.sort_separator } else { self.sort_separator }),
            r.formatting == overrider.formatting,
            r.affixes == overrider.affixes,
            r.name_part_given == overrider.name_part_given,
            r.name_part_family == overrider.name_part_family,
    {
        Name {
            and: match overrider.and {
                Option::Some(x) => Option::Some(x),
                Option::None => self.and,
            },
            delimiter: match &overrider.delimiter {
                Option::Some(d) => Option::Some(d.clone()),
                Option::None => match &self.delimiter {
                    Option::Some(d) => Option::Some(d.clone()),
                    Option::None => Option::None,
                },
            },
            delimiter_precedes_et_al: match overrider.delimiter_precedes_et_al {
                Option::Some(x) => Option::Some(x),
                Option::None => self.delimiter_precedes_et_al,
            },
            delimiter_precedes_last: match overrider.delimiter_precedes_last {
                Option::Some(x) => Option::Some(x),
                Option::None => self.delimiter_precedes_last,
            },
            et_al_min: match overrider.et_al_min {
                Option::Some(x) => Option::Some(x),
                Option::None => self.et_al_min,
            },
            et_al_use_first: match overrider.et_al_use_first {
                Option::Some(x) => Option::Some(x),
                Option::None => self.et_al_use_first,
            },
            et_al_use_last: match overrider.et_al_use_last {
                Option::Some(x) => Option::Some(x),
                Option::None => self.et_al_use_last,
            },
            et_al_subsequent_min: match overrider.et_al_subsequent_min {
                Option::Some(x) => Option::Some(x),
                Option::None => self.et_al_subsequent_min,
            },
            et_al_subsequent_use_first: match overrider.et_al_subsequent_use_first {
                Option::Some(x) => Option::Some(x),
                Option::None => self.et_al_subsequent_use_first,
            },
            form: match overrider.form {
                Option::Some(x) => Option::Some(x),
                Option::None => self.form,
            },
            initialize: match overrider.initialize {
                Option::Some(x) => Option::Some(x),
                Option::None => self.initialize,
            },
            initialize_with: match &overrider.initialize_with {
                Option::Some(s) => Option::Some(s.clone()),
                Option::None => match &self.initialize_with {
                    Option::Some(s) => Option::Some(s.clone()),
                    Option::None => Option::None,
                },
            },
            name_as_sort_order: match overrider.name_as_sort_order {
                Option::Some(x) => Option::Some(x),
                Option::None => self.name_as_sort_order,
            },
            sort_separator: match &overrider.sort_separator {
                Option::Some(s) => Option::Some(s.clone()),
                Option::None => match &self.sort_separator {
                    Option::Some(s) => Option::Some(s.clone()),
                    Option::None => Option::None,
                },
            },
            formatting: overrider.formatting,
            affixes: match &overrider.affixes {
                Option::None => Option::None,
                Option::Some(a) => Option::Some(a.clone()),
            },
            name_part_given: match &overrider.name_part_given {
                Option::None => Option::None,
                Option::Some(p) => Option::Some(p.clone()),
            },
            name_part_family: match &overrider.name_part_family {
                Option::None => Option::None,
                Option::Some(p) => Option::Some(p.clone()),
            },
        }
    }

    /// Whether this configuration switches et-al shortening on: both a
    /// minimum and a use-first count must be present.
    pub fn enable_et_al(&self) -> (r: bool)
        ensures
            r == (self.et_al_min is Some && self.et_al_use_first is Some),
    {
        self.et_al_min.is_some() && self.et_al_use_first.is_some()
    }
}

impl vstd::std_specs::convert::FromSpecImpl<&StandardVariable> for AnyVariable {
    open spec fn obeys_from_spec() -> bool {
        true
    }

    open spec fn from_spec(sv: &StandardVariable) -> AnyVariable {
        match sv {
            StandardVariable::Number(n) => AnyVariable::Number(*n),
            StandardVariable::Ordinary(o) => AnyVariable::Ordinary(*o),
        }
    }
}

} // verus!
