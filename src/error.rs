//! Errors of the library and their abstract view.
use vstd::prelude::*;

verus! {

/// What went wrong, as reported to callers.
#[derive(Debug, PartialEq, Eq)]
pub enum Error {
    /// The store holds no value under this key.
    KeyNotFound(String),
    /// The store holds no record for this initial.
    AuthorNotFound(String),
    /// This author record cannot be parsed.
    InvalidAuthor(String),
    /// The store failed for another reason; the text describes it.
    Store(String),
}

/// The abstract view of an [`Error`]: the same variants over character sequences.
pub enum Failure {
    KeyNotFound(Seq<char>),
    AuthorNotFound(Seq<char>),
    InvalidAuthor(Seq<char>),
    Store(Seq<char>),
}

impl View for Error {
    type V = Failure;

    open spec fn view(&self) -> Failure {
        match self {
            Error::KeyNotFound(k) => Failure::KeyNotFound(k@),
            Error::AuthorNotFound(i) => Failure::AuthorNotFound(i@),
            Error::InvalidAuthor(r) => Failure::InvalidAuthor(r@),
            Error::Store(m) => Failure::Store(m@),
        }
    }
}

impl Error {
    /// A readable description of the error.
    pub fn message(&self) -> (r: String)
        ensures
            r@.len() > 0,
    {
        let (head, tail) = match self {
            Error::KeyNotFound(k) => ("key not found: ", k),
            Error::AuthorNotFound(i) => ("author not found: ", i),
            Error::InvalidAuthor(r) => ("invalid author: ", r),
            Error::Store(m) => ("store error: ", m),
        };
        proof {
            reveal_strlit("key not found: ");
            reveal_strlit("author not found: ");
            reveal_strlit("invalid author: ");
            reveal_strlit("store error: ");
        }
        String::from_str(head).concat(tail.as_str())
    }
}

/// The view of a result whose error is an [`Error`].
pub open spec fn result_view<T, V>(r: Result<T, Error>, f: spec_fn(T) -> V) -> Result<V, Failure> {
    match r {
        Ok(t) => Ok(f(t)),
        Err(e) => Err(e@),
    }
}

} // verus!
