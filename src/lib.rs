//! Runtime for nodes of a line-delimited request/reply protocol: typed
//! envelopes, the reader and writer roles that carry them, and a node that
//! performs the initialization handshake before dispatching other messages.
pub mod io;
pub mod node;
pub mod echo;

use vstd::prelude::*;

verus! {

/// A payload type that envelopes can carry.
pub trait NodeMessage: core::fmt::Debug + PartialEq {}

/// The mathematical content of an envelope.
pub struct MessageView<T> {
    pub src: Seq<char>,
    pub dest: Seq<char>,
    pub msg_id: Option<usize>,
    pub in_reply_to: Option<usize>,
    pub body: T,
}

/// One protocol message: source, destination, typed payload and the two
/// optional correlation identifiers.
#[derive(Debug, PartialEq)]
pub struct Message<T: NodeMessage> {
    src: String,
    dest: String,
    body: T,
    msg_id: Option<usize>,
    in_reply_to: Option<usize>,
}

impl<T: NodeMessage> View for Message<T> {
    type V = MessageView<T>;

    closed spec fn view(&self) -> MessageView<T> {
        MessageView {
            src: self.src@,
            dest: self.dest@,
            msg_id: self.msg_id,
            in_reply_to: self.in_reply_to,
            body: self.body,
        }
    }
}

impl<T: NodeMessage> Message<T> {
    /// A plain outbound message, not a reply.
    pub fn new(src: String, dest: String, msg_id: Option<usize>, body: T) -> (r: Self)
        ensures
            r@ == (MessageView { src: src@, dest: dest@, msg_id, in_reply_to: None, body }),
    {
        Message { src, dest, body, msg_id, in_reply_to: None }
    }

    /// A reply to the message whose identifier is `reply_to`.
    pub fn new_reply(src: String, dest: String, reply_to: usize, msg_id: Option<usize>, body: T) -> (r: Self)
        ensures
            r@ == (MessageView {
                src: src@,
                dest: dest@,
                msg_id,
                in_reply_to: Some(reply_to),
                body,
            }),
    {
        Message { src, dest, body, msg_id, in_reply_to: Some(reply_to) }
    }

    pub fn src(&self) -> (r: &str)
        ensures
            r@ == self@.src,
    {
        self.src.as_str()
    }

    pub fn dest(&self) -> (r: &str)
        ensures
            r@ == self@.dest,
    {
        self.dest.as_str()
    }

    pub fn msg_id(&self) -> (r: Option<usize>)
        ensures
            r == self@.msg_id,
    {
        self.msg_id
    }

    pub fn in_reply_to(&self) -> (r: Option<usize>)
        ensures
            r == self@.in_reply_to,
    {
        self.in_reply_to
    }

    pub fn body(&self) -> (r: &T)
        ensures
            *r == self@.body,
    {
        &self.body
    }

    /// Takes the message apart: source, destination, message id, the id it
    /// replies to, and payload.
    pub fn into_parts(self) -> (r: (String, String, Option<usize>, Option<usize>, T))
        ensures
            r.0@ == self@.src,
            r.1@ == self@.dest,
            r.2 == self@.msg_id,
            r.3 == self@.in_reply_to,
            r.4 == self@.body,
    {
        (self.src, self.dest, self.msg_id, self.in_reply_to, self.body)
    }
}

} // verus!
