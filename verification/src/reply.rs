//! Replies to HTTP requests: a status and a JSON body.
use vstd::prelude::*;
use crate::json::{
    json_text, no_fields, record_text, to_record_text, to_text, Json, JsonView, ObjectBuilder,
};

verus! {

/// A reply.
#[derive(Debug, PartialEq, Eq)]
pub struct Reply {
    pub status: u16,
    pub body: Json,
}

/// The model of a reply.
pub struct ReplyView {
    pub status: u16,
    pub body: JsonView,
}

impl View for Reply {
    type V = ReplyView;

    open spec fn view(&self) -> ReplyView {
        ReplyView { status: self.status, body: self.body@ }
    }
}

/// A reply whose body is an object with an error message.
pub open spec fn error_reply(status: u16, message: Seq<char>) -> ReplyView {
    ReplyView {
        status,
        body: JsonView::Object(no_fields().push(("error"@, JsonView::Text(message)))),
    }
}

impl Reply {
    /// A reply whose body is an object with an error message.
    pub fn error(status: u16, message: &str) -> (r: Reply)
        ensures
            r@ == error_reply(status, message@),
    {
        Reply { status, body: ObjectBuilder::new().with("error", Json::str(message)).done() }
    }

    /// The body as it is sent.
    pub fn text(&self) -> (r: String)
        ensures
            r@ == json_text(self@.body),
    {
        to_text(&self.body)
    }
}

/// A reply whose body is a record: it is sent field by field, in the order in which the fields
/// stand.
#[derive(Debug, PartialEq, Eq)]
pub struct RecordReply {
    pub status: u16,
    pub body: Json,
}

/// The model of such a reply.
pub struct RecordView {
    pub status: u16,
    pub body: JsonView,
}

impl View for RecordReply {
    type V = RecordView;

    open spec fn view(&self) -> RecordView {
        RecordView { status: self.status, body: self.body@ }
    }
}

impl RecordReply {
    /// The body as it is sent.
    pub fn text(&self) -> (r: String)
        ensures
            r@ == record_text(self@.body),
    {
        to_record_text(&self.body)
    }
}

} // verus!
