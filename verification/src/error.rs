//! The library's error type. Variants carry plain values; a human-readable
//! rendering is left to the caller.

use vstd::prelude::*;

verus! {

/// What can go wrong while assembling descriptions from a tree snapshot.
#[derive(Debug)]
pub enum Error {
    /// A file or directory the description needs is not in the tree.
    Missing { path: Vec<String> },
    /// A file or directory is present but its contents could not be read.
    Unreadable { path: Vec<String> },
    /// A name expected to list a directory named something that is a file.
    NotADirectory { path: Vec<String> },
    /// A name expected to hold file contents named a directory.
    NotAFile { path: Vec<String> },
    /// A structured file does not parse as expected.
    Format { context: String },
    /// A template does not compile or render.
    Template { context: String },
    /// A file description's path yields no name stem.
    InvalidPath,
    /// An error wrapped with what was being attempted.
    Context { context: String, inner: Box<Error> },
}

impl Error {
    /// Wraps the error with a description of what was being attempted.
    pub fn context(self, context: String) -> (r: Error)
        ensures
            (r matches Error::Context { context: c, inner: i } && c == context && i == self),
    {
        Error::Context { context, inner: Box::new(self) }
    }
}

/// Attaching context to the error of a fallible result.
pub trait ResultExt: Sized {
    type Output;

    /// What wrapping the error leaves behind: successes untouched, errors
    /// wrapped with the context.
    spec fn context_post(self, context: String, r: Self::Output) -> bool;

    /// Wraps a result's error with a description of what was being
    /// attempted.
    fn context(self, context: String) -> (r: Self::Output)
        ensures
            self.context_post(context, r),
    ;
}

impl<T> ResultExt for Result<T, Error> {
    type Output = Result<T, Error>;

    open spec fn context_post(self, context: String, r: Result<T, Error>) -> bool {
        match self {
            Ok(v) => r == Ok::<T, Error>(v),
            Err(e) => r matches Err(Error::Context { context: c, inner: i }) && c == context && i
                == e,
        }
    }

    fn context(self, context: String) -> (r: Result<T, Error>) {
        match self {
            Ok(v) => Ok(v),
            Err(e) => Err(e.context(context)),
        }
    }
}

} // verus!
