//! Requests that read the register.

use vstd::prelude::*;
use vstd::string::*;
use crate::aggregator::application_register::{ApplicationRegister, RegisterView};
use crate::endpoints::reply::{Body, BodyView, Reply, ReplyView, NOT_FOUND, OK};

verus! {

/// The message for a name under which nothing is stored.
pub open spec fn missing_context_message(app: Seq<char>) -> Seq<char> {
    app + " context not found. Use lexical client to set state"@
}

impl RegisterView {
    /// A request for an application: the application with status 200, or
    /// status 404 and a message where the name is not registered.
    pub open spec fn application_reply(self, name: Seq<char>) -> ReplyView {
        match self.get_application(name) {
            Ok(app) => ReplyView { status: OK, body: BodyView::Application(app) },
            Err(_) => ReplyView::message(NOT_FOUND, missing_context_message(name)),
        }
    }

    /// A request for the directives of an application: the directives with
    /// status 200, or status 404 and a message where none was posted.
    pub open spec fn directives_reply(self, name: Seq<char>) -> ReplyView {
        match self.get_directives(name) {
            Ok(table) => ReplyView { status: OK, body: BodyView::Directives(table) },
            Err(_) => ReplyView::message(NOT_FOUND, missing_context_message(name)),
        }
    }
}

fn missing_context_text(app_name: &str) -> (r: String)
    ensures
        r@ == missing_context_message(app_name@),
{
    let mut text = String::from_str(app_name);
    text.append(" context not found. Use lexical client to set state");
    text
}

/// Handles a request for the application `app_name`.
pub fn get_application<'a>(register: &'a ApplicationRegister, app_name: &str) -> (reply: Reply<'a>)
    ensures
        reply@ == register@.application_reply(app_name@),
{
    match register.get_application(app_name) {
        Ok(app) => Reply { status: OK, body: Body::Application(app) },
        Err(_) => Reply { status: NOT_FOUND, body: Body::Message(missing_context_text(app_name)) },
    }
}

/// Handles a request for the directives of the application `app_name`.
pub fn get_application_directives<'a>(register: &'a ApplicationRegister, app_name: &str) -> (reply:
    Reply<'a>)
    ensures
        reply@ == register@.directives_reply(app_name@),
{
    match register.get_directives(app_name) {
        Ok(table) => Reply { status: OK, body: Body::Directives(table) },
        Err(_) => Reply { status: NOT_FOUND, body: Body::Message(missing_context_text(app_name)) },
    }
}

} // verus!
