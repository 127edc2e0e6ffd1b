//! The error type of the client.
use vstd::prelude::*;

use crate::text::{join, joined, texts};

verus! {

/// What went wrong: a chain of messages, the outermost first. Each message
/// after the first is the cause of the one before it.
#[derive(Debug)]
pub struct ChatError {
    messages: Vec<String>,
}

/// The messages of an error, the outermost first.
pub type Messages = Seq<Seq<char>>;

/// What a fallible call gave, in terms of views.
pub open spec fn outcome<T: View>(result: Result<T, ChatError>) -> Result<T::V, Messages> {
    match result {
        Ok(value) => Ok(value@),
        Err(error) => Err(error@),
    }
}

impl View for ChatError {
    type V = Messages;

    closed spec fn view(&self) -> Messages {
        texts(self.messages@)
    }
}

impl ChatError {
    #[verifier::type_invariant]
    spec fn says_something(self) -> bool {
        self.messages@.len() > 0
    }

    /// An error with a single message.
    pub fn new(message: String) -> (error: ChatError)
        ensures
            error@ == seq![message@],
    {
        let mut messages: Vec<String> = Vec::new();
        messages.push(message);
        let error = ChatError { messages };
        assert(error@ =~= seq![message@]);
        error
    }

    /// This error as the cause of a more general one.
    pub fn context(self, message: String) -> (error: ChatError)
        ensures
            error@ == seq![message@] + self@,
    {
        let ghost before = self@;
        let mut messages = self.messages;
        messages.insert(0, message);
        let error = ChatError { messages };
        assert(error@ =~= seq![message@] + before);
        error
    }

    /// All messages, from the outermost to the root cause, separated by `": "`.
    pub fn full_text(&self) -> (text: String)
        ensures
            text@ == joined(self@, ": "@),
    {
        join(&self.messages, ": ")
    }

    /// The outermost message alone.
    pub fn summary(&self) -> (text: String)
        ensures
            self@.len() > 0,
            text@ == self@[0],
    {
        proof {
            use_type_invariant(self);
        }
        self.messages[0].clone()
    }
}

} // verus!
