//! The error type of the library.
use vstd::prelude::*;

verus! {

/// `[kind] message`, the text by which an error is shown.
pub open spec fn tagged(kind: Seq<char>, message: Seq<char>) -> Seq<char> {
    seq!['['] + kind + seq![']', ' '] + message
}

/// An error with a classification tag, a message and, where it wraps an
/// underlying error, the text of that error.
pub struct AppErr {
    pub kind: String,
    pub message: String,
    pub cause: Option<String>,
}

impl AppErr {
    /// An error with a message of its own and no underlying cause.
    pub fn new(kind: &str, message: &str) -> (r: AppErr)
        ensures
            r.kind@ == kind@,
            r.message@ == message@,
            r.cause is None,
    {
        AppErr { kind: String::from_str(kind), message: String::from_str(message), cause: None }
    }

    /// The same as `new`: an error with a message of its own.
    pub fn custom(kind: &str, message: &str) -> (r: AppErr)
        ensures
            r.kind@ == kind@,
            r.message@ == message@,
            r.cause is None,
    {
        AppErr::new(kind, message)
    }

    /// An error that wraps an underlying one; `cause` is that error's text,
    /// which becomes the message too.
    pub fn from_err(kind: &str, cause: String) -> (r: AppErr)
        ensures
            r.kind@ == kind@,
            r.message@ == cause@,
            r.cause == Some(cause),
    {
        AppErr { kind: String::from_str(kind), message: cause.clone(), cause: Some(cause) }
    }

    /// The text by which the error is shown: `[kind] message`.
    pub fn description(&self) -> (r: String)
        ensures
            r@ == tagged(self.kind@, self.message@),
    {
        let mut r = String::new();
        proof {
            reveal_strlit("[");
            reveal_strlit("] ");
        }
        r.append("[");
        r.append(self.kind.as_str());
        r.append("] ");
        r.append(self.message.as_str());
        assert(r@ =~= tagged(self.kind@, self.message@));
        r
    }

    /// The same text as `description`.
    pub fn to_string(&self) -> (r: String)
        ensures
            r@ == tagged(self.kind@, self.message@),
    {
        self.description()
    }

    /// The text of the underlying error, if there is one.
    pub fn source(&self) -> (r: Option<&String>)
        ensures
            match self.cause {
                Some(c) => r == Some(&c),
                None => r is None,
            },
    {
        match &self.cause {
            Some(c) => Some(c),
            None => None,
        }
    }
}

} // verus!
