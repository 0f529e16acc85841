//! The abstract syntax tree produced by a successful parse.

use vstd::prelude::*;

verus! {

/// An AVDL syntax tree. The grammar currently yields a `Protocol` whose body
/// is `Empty`, or a bare `Comment`; the body field is nonetheless a full
/// tree, ready for richer bodies.
#[derive(Debug, PartialEq)]
pub enum Avdl {
    /// A named protocol declaration; it always owns a body node, even when
    /// the body is semantically empty.
    Protocol(String, Box<Avdl>),
    /// A body with no recognized content (a whitespace-only `{ }` block).
    Empty,
    /// A recognized but semantically void block comment.
    Comment,
}

/// The model of an `Avdl` tree: the same shape with the protocol name as a
/// sequence of characters.
#[verifier::ext_equal]
pub ghost enum AvdlV {
    Protocol { name: Seq<char>, body: Box<AvdlV> },
    Empty,
    Comment,
}

impl View for Avdl {
    type V = AvdlV;

    open spec fn view(&self) -> AvdlV
        decreases self,
    {
        match self {
            Avdl::Protocol(name, body) => AvdlV::Protocol {
                name: name@,
                body: Box::new((**body).view()),
            },
            Avdl::Empty => AvdlV::Empty,
            Avdl::Comment => AvdlV::Comment,
        }
    }
}

/// The display text of a tree: a protocol shows its quoted name and its
/// body's text; `Empty` and `Comment` show nothing.
pub open spec fn display_text(a: AvdlV) -> Seq<char>
    decreases a,
{
    match a {
        AvdlV::Protocol { name, body } => "protocol: \""@ + name + "\", "@ + display_text(*body),
        AvdlV::Empty => Seq::empty(),
        AvdlV::Comment => Seq::empty(),
    }
}

impl Avdl {
    /// Render the tree as display text.
    pub fn to_display_string(&self) -> (r: String)
        ensures
            r@ == display_text(self@),
        decreases self,
    {
        match self {
            Avdl::Protocol(name, body) => {
                let mut r = String::from_str("protocol: \"");
                r.append(name.as_str());
                r.append("\", ");
                let rest = body.to_display_string();
                r.append(rest.as_str());
                r
            },
            Avdl::Empty => String::new(),
            Avdl::Comment => String::new(),
        }
    }
}

} // verus!
