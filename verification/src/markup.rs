//! The output-markup collaborator: pure string producers that turn a
//! formatting spec into literal open/close tag runs and render plain
//! literal runs (affixes, delimiters) into the output representation.
//! This markup flavour emits `<b>`/`<i>` tags and passes plain literals
//! through unchanged.

use vstd::prelude::*;

use crate::element::Formatting;

verus! {

/// The tag-based output format used while lowering to an automaton.
/// Stateless: every method is a pure function of its arguments.
pub struct Markup;

/// The literal run that opens the markup context of a formatting spec,
/// in preorder: bold before italic.  Empty when nothing is set.
pub open spec fn stack_open_spec(f: Option<Formatting>) -> Seq<char> {
    match f {
        Option::None => Seq::empty(),
        Option::Some(f) => (if f.bold {
            "<b>"@
        } else {
            Seq::empty()
        }) + (if f.italic {
            "<i>"@
        } else {
            Seq::empty()
        }),
    }
}

/// The literal run that closes the markup context, in postorder: the
/// exact reverse of the open order, so tags nest properly.
pub open spec fn stack_close_spec(f: Option<Formatting>) -> Seq<char> {
    match f {
        Option::None => Seq::empty(),
        Option::Some(f) => (if f.italic {
            "</i>"@
        } else {
            Seq::empty()
        }) + (if f.bold {
            "</b>"@
        } else {
            Seq::empty()
        }),
    }
}

impl Markup {
    pub fn new() -> Markup {
        Markup
    }

    /// Render the open-markup run for `f` relative to the ambient stack.
    pub fn stack_preorder(&self, f: Option<&Formatting>) -> (r: String)
        ensures
            r@ == stack_open_spec(match f {
                Option::None => Option::<Formatting>::None,
                Option::Some(f) => Option::Some(*f),
            }),
    {
        proof {
            reveal_strlit("");
            reveal_strlit("<b>");
            reveal_strlit("<i>");
            reveal_strlit("<b><i>");
        }
        let lit: &str = match f {
            Option::None => "",
            Option::Some(f) => {
                if f.bold && f.italic {
                    "<b><i>"
                } else if f.bold {
                    "<b>"
                } else if f.italic {
                    "<i>"
                } else {
                    ""
                }
            },
        };
        let r = lit.to_owned();
        proof {
            assert(r@ =~= stack_open_spec(match f {
                Option::None => Option::<Formatting>::None,
                Option::Some(f) => Option::Some(*f),
            }));
        }
        r
    }

    /// Render the close-markup run for `f`: closes in reverse open order.
    pub fn stack_postorder(&self, f: Option<&Formatting>) -> (r: String)
        ensures
            r@ == stack_close_spec(match f {
                Option::None => Option::<Formatting>::None,
                Option::Some(f) => Option::Some(*f),
            }),
    {
        proof {
            reveal_strlit("");
            reveal_strlit("</b>");
            reveal_strlit("</i>");
            reveal_strlit("</i></b>");
        }
        let lit: &str = match f {
            Option::None => "",
            Option::Some(f) => {
                if f.bold && f.italic {
                    "</i></b>"
                } else if f.bold {
                    "</b>"
                } else if f.italic {
                    "</i>"
                } else {
                    ""
                }
            },
        };
        let r = lit.to_owned();
        proof {
            assert(r@ =~= stack_close_spec(match f {
                Option::None => Option::<Formatting>::None,
                Option::Some(f) => Option::Some(*f),
            }));
        }
        r
    }

    /// Render a plain literal run (a delimiter or an affix) into the
    /// output representation.  This markup flavour passes it through
    /// unchanged.
    pub fn output_in_context(&self, s: &str) -> (r: String)
        ensures
            r@ == s@,
    {
        s.to_owned()
    }
}

} // verus!
