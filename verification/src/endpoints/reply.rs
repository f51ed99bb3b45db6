//! Responses of the ingress surface.

use vstd::prelude::*;
use crate::aggregator::application_register::{table_view, DirectiveTable};
use crate::orders::DirectivesView;
use crate::topology::{Application, ApplicationView};

verus! {

/// Status of a request that was carried out.
pub const OK: u16 = 200;

/// Status of a request that the register refused as ill-timed.
pub const BAD_REQUEST: u16 = 400;

/// Status of a request about something the register does not hold.
pub const NOT_FOUND: u16 = 404;

/// What a response carries.
pub enum Body<'a> {
    /// Nothing.
    Empty,
    /// A message, sent as a JSON object with the one member `msg`.
    Message(String),
    /// An application, as stored.
    Application(&'a Application),
    /// The directives of an application, by location key.
    Directives(&'a DirectiveTable),
}

/// The view of [`Body`]: every string as its sequence of characters.
pub enum BodyView {
    Empty,
    Message(Seq<char>),
    Application(ApplicationView),
    Directives(Map<Seq<char>, DirectivesView>),
}

impl<'a> View for Body<'a> {
    type V = BodyView;

    open spec fn view(&self) -> BodyView {
        match self {
            Body::Empty => BodyView::Empty,
            Body::Message(text) => BodyView::Message(text@),
            Body::Application(app) => BodyView::Application(app@),
            Body::Directives(table) => BodyView::Directives(table_view(table@)),
        }
    }
}

/// A response: an HTTP status and a body.
pub struct Reply<'a> {
    pub status: u16,
    pub body: Body<'a>,
}

/// The view of [`Reply`]: every string as its sequence of characters.
pub struct ReplyView {
    pub status: u16,
    pub body: BodyView,
}

impl<'a> View for Reply<'a> {
    type V = ReplyView;

    open spec fn view(&self) -> ReplyView {
        ReplyView { status: self.status, body: self.body@ }
    }
}

impl ReplyView {
    /// A response without a body.
    pub open spec fn bare(status: u16) -> ReplyView {
        ReplyView { status, body: BodyView::Empty }
    }

    /// A response with a message.
    pub open spec fn message(status: u16, text: Seq<char>) -> ReplyView {
        ReplyView { status, body: BodyView::Message(text) }
    }
}

} // verus!
