//! The error logger: an append-only, ordered collection of syntax
//! diagnostics, each tied to the 1-based source line on which it was
//! detected. Recording a diagnostic never halts a parse.

use vstd::prelude::*;

verus! {

/// The mathematical content of one diagnostic.
pub ghost struct ErrorView {
    pub line: int,
    pub msg: Seq<char>,
}

/// One recorded diagnostic: a source line number and a message. Immutable
/// once pushed.
#[derive(Debug)]
pub struct Error {
    line_number: usize,
    msg: String,
}

impl View for Error {
    type V = ErrorView;

    closed spec fn view(&self) -> ErrorView {
        ErrorView { line: self.line_number as int, msg: self.msg@ }
    }
}

impl Error {
    pub fn line_number(&self) -> (r: usize)
        ensures
            r as int == self@.line,
    {
        self.line_number
    }

    pub fn message(&self) -> (r: &String)
        ensures
            r@ == self@.msg,
    {
        &self.msg
    }
}

/// The ordered sequence of diagnostics accumulated during one parse run.
pub struct ErrorLogger {
    errors: Vec<Error>,
}

impl View for ErrorLogger {
    type V = Seq<ErrorView>;

    closed spec fn view(&self) -> Seq<ErrorView> {
        Seq::new(self.errors@.len(), |i: int| self.errors@[i]@)
    }
}

impl ErrorLogger {
    pub fn new() -> (r: Self)
        ensures
            r@ == Seq::<ErrorView>::empty(),
    {
        Self { errors: vec![] }
    }

    /// Appends one diagnostic; everything recorded earlier is kept, in
    /// order.
    pub fn push(&mut self, line_number: usize, msg: &str)
        ensures
            final(self)@ == old(self)@.push(ErrorView { line: line_number as int, msg: msg@ }),
    {
        self.errors.push(Error { line_number, msg: msg.to_owned() });
        proof {
            assert(self@ =~= old(self)@.push(ErrorView { line: line_number as int, msg: msg@ }));
        }
    }

    pub fn has_errors(&self) -> (r: bool)
        ensures
            r == (self@.len() != 0),
    {
        self.errors.len() != 0
    }

    /// Gives up the logger, handing the recorded diagnostics out.
    pub fn into_errors(self) -> (r: Vec<Error>)
        ensures
            r@.len() == self@.len(),
            forall|i: int| 0 <= i < r@.len() ==> r@[i]@ == self@[i],
    {
        self.errors
    }

    /// The recorded diagnostics, oldest first.
    pub fn errors(&self) -> (r: &Vec<Error>)
        ensures
            r@.len() == self@.len(),
            forall|i: int| 0 <= i < r@.len() ==> r@[i]@ == self@[i],
    {
        &self.errors
    }
}

} // verus!
