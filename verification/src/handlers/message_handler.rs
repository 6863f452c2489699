//! Messages and the stage that issued them.

use vstd::prelude::*;

verus! {

/// The stage a message comes from.
#[derive(Debug, Clone, Copy, PartialEq, Eq, Structural)]
pub enum Issuer {
    Lexer,
    Parser,
}

/// A text for the user, tagged with the stage that wrote it.
#[derive(Debug)]
pub struct Message {
    content: String,
    from: Issuer,
}

/// A message with its text as a sequence of characters.
pub struct MessageView {
    pub content: Seq<char>,
    pub from: Issuer,
}

impl View for Message {
    type V = MessageView;

    closed spec fn view(&self) -> MessageView {
        MessageView { content: self.content@, from: self.from }
    }
}

impl Clone for Message {
    fn clone(&self) -> (message: Self)
        ensures
            message@ == self@,
    {
        Message { content: self.content.clone(), from: self.from }
    }
}

impl Message {
    /// A message with the text `content`, issued by `from`.
    pub fn new(content: &str, from: Issuer) -> (message: Self)
        ensures
            message@ == (MessageView { content: content@, from }),
    {
        Message { content: content.to_owned(), from }
    }

    /// The text of the message.
    pub fn content(&self) -> (content: &str)
        ensures
            content@ == self@.content,
    {
        self.content.as_str()
    }

    /// The stage that issued the message.
    pub fn from(&self) -> (from: Issuer)
        ensures
            from == self@.from,
    {
        self.from
    }
}

} // verus!
