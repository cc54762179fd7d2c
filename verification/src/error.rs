use vstd::prelude::*;

verus! {

/// The error type of the library: a human-readable message.
#[derive(Debug, Clone)]
pub struct DexError {
    error: String,
}

impl View for DexError {
    type V = Seq<char>;

    closed spec fn view(&self) -> Seq<char> {
        self.error@
    }
}

/// The view of a result whose error is a `DexError`: the value, or the error's message.
pub open spec fn rv<T>(r: Result<T, DexError>) -> Result<T, Seq<char>> {
    match r {
        Ok(v) => Ok(v),
        Err(e) => Err(e@),
    }
}

impl DexError {
    /// An error whose message is the given text.
    pub fn invalid(msg: &str) -> (e: DexError)
        ensures
            e@ == msg@,
    {
        DexError { error: String::from_str(msg) }
    }

    /// An error whose message is the given owned text.
    pub fn invalid_owned(msg: String) -> (e: DexError)
        ensures
            e@ == msg@,
    {
        DexError { error: msg }
    }

    /// The message of this error.
    pub fn message(&self) -> (s: String)
        ensures
            s@ == self@,
    {
        self.error.clone()
    }
}

} // verus!
