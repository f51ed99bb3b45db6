//! The plain way of keeping applications: a name is written whether or not
//! it is taken.

use vstd::prelude::*;
use vstd::string::*;
use crate::aggregator::application_register::{ApplicationRegister, RegisterView};
use crate::endpoints::reply::{Body, BodyView, Reply, ReplyView, NOT_FOUND, OK};
use crate::topology::Application;

verus! {

/// The message for a name under which no application is stored.
pub open spec fn not_found_message(app: Seq<char>) -> Seq<char> {
    app + " not found"@
}

impl RegisterView {
    /// A request for an application: the application with status 200, or
    /// status 404 and a message where the name is not known.
    pub open spec fn lookup_reply(self, name: Seq<char>) -> ReplyView {
        match self.get_application(name) {
            Ok(app) => ReplyView { status: OK, body: BodyView::Application(app) },
            Err(_) => ReplyView::message(NOT_FOUND, not_found_message(name)),
        }
    }
}

/// Stores `application` under `app_name`, over what was stored there, and
/// answers with status 200.
pub fn register_application(
    register: &mut ApplicationRegister,
    app_name: String,
    application: Application,
) -> (reply: Reply<'static>)
    ensures
        final(register)@ == old(register)@.put_application(app_name@, application@),
        reply@ == ReplyView::bare(OK),
{
    register.put_application(app_name, application);
    Reply { status: OK, body: Body::Empty }
}

/// Answers with the application stored under `app_name`.
pub fn get_application<'a>(register: &'a ApplicationRegister, app_name: &str) -> (reply: Reply<'a>)
    ensures
        reply@ == register@.lookup_reply(app_name@),
{
    match register.get_application(app_name) {
        Ok(app) => Reply { status: OK, body: Body::Application(app) },
        Err(_) => {
            let mut text = String::from_str(app_name);
            text.append(" not found");
            Reply { status: NOT_FOUND, body: Body::Message(text) }
        },
    }
}

} // verus!
