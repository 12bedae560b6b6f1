//! What a command has to say, and to whom.

use vstd::prelude::*;

verus! {

/// Something to print once a command was handled.
#[derive(Debug, PartialEq, Eq)]
pub enum Notice<S> {
    /// Nothing to print.
    Silent,
    /// A protocol line, for the output sink.
    Line(S),
    /// A remark about a command that could not be followed, for the error stream.
    Diagnostic(S),
}

impl Notice<String> {
    /// The notice with the text it holds.
    pub open spec fn view(&self) -> Notice<Seq<char>> {
        match self {
            Notice::Silent => Notice::Silent,
            Notice::Line(text) => Notice::Line(text@),
            Notice::Diagnostic(text) => Notice::Diagnostic(text@),
        }
    }
}

/// What a notice is seen to hold is all it holds.
pub proof fn law_notice_is_seen_whole(notice: Notice<String>, text: Seq<char>)
    ensures
        notice@ is Silent <==> notice is Silent,
        notice@ == Notice::Line(text) <==> notice is Line && notice->Line_0@ == text,
        notice@ == Notice::Diagnostic(text) <==> notice is Diagnostic && notice->Diagnostic_0@
            == text,
{
}

} // verus!
