//! Requests that change the register.

use vstd::prelude::*;
use vstd::string::*;
use crate::aggregator::application_register::{
    ApplicationRegister, RegisterError, RegisterView, Upsert,
};
use crate::endpoints::reply::{Body, Reply, ReplyView, BAD_REQUEST, NOT_FOUND, OK};
use crate::orders::{
    AdditionOrder, DirectiveKind, Order, OrderView, ReconfigureOrder, RestartOrder,
};
use crate::topology::{Application, ApplicationView};

verus! {

/// The word for a kind of directive in messages.
pub open spec fn kind_word(kind: DirectiveKind) -> Seq<char> {
    match kind {
        DirectiveKind::Addition => "addition"@,
        DirectiveKind::Reconfig => "reconfig"@,
        DirectiveKind::Restart => "restart"@,
    }
}

/// The message for a directive that went to a location that had one.
pub open spec fn updated_message(kind: DirectiveKind, location: Seq<char>, app: Seq<char>) -> Seq<
    char,
> {
    "Updated "@ + kind_word(kind) + " directive in "@ + location + " in app "@ + app
}

/// The message for a directive that went to a location that had none.
pub open spec fn added_message(kind: DirectiveKind, location: Seq<char>, app: Seq<char>) -> Seq<
    char,
> {
    "Added "@ + kind_word(kind) + " directive in "@ + location + " in app "@ + app
}

/// The message for a directive whose location the application lacks.
pub open spec fn no_location_message(location: Seq<char>, app: Seq<char>) -> Seq<char> {
    "Couldn't find location "@ + location + " in  application "@ + app
}

/// The message for a directive whose application is not registered.
pub open spec fn no_application_message() -> Seq<char> {
    "Couldn't find application in register"@
}

impl RegisterView {
    /// A new objective: stored with status 200, or refused with status 400
    /// where the name is taken.
    pub open spec fn recieve_objective(self, name: Seq<char>, app: ApplicationView) -> (
        RegisterView,
        ReplyView,
    ) {
        let (next, outcome) = self.register_objective(name, app);
        (
            next,
            match outcome {
                Ok(()) => ReplyView::bare(OK),
                Err(_) => ReplyView::bare(BAD_REQUEST),
            },
        )
    }

    /// A reported state: stored with status 200, or refused with status 404
    /// where the name is not registered.
    pub open spec fn update_state(self, name: Seq<char>, app: ApplicationView) -> (
        RegisterView,
        ReplyView,
    ) {
        let (next, outcome) = self.update_objective(name, app);
        (
            next,
            match outcome {
                Ok(()) => ReplyView::bare(OK),
                Err(_) => ReplyView::bare(NOT_FOUND),
            },
        )
    }

    /// A posted directive: stored with status 200 and a message that tells
    /// whether the location had a record, or refused with status 404 and a
    /// message that tells what is missing.
    pub open spec fn recieve_directive(
        self,
        name: Seq<char>,
        location: Seq<char>,
        order: OrderView,
    ) -> (RegisterView, ReplyView) {
        let (next, outcome) = self.upsert_directive(name, location, order);
        (
            next,
            match outcome {
                Ok(Upsert::Updated) => ReplyView::message(
                    OK,
                    updated_message(order.kind(), location, name),
                ),
                Ok(Upsert::Created) => ReplyView::message(
                    OK,
                    added_message(order.kind(), location, name),
                ),
                Err(RegisterError::LocationNotFound) => ReplyView::message(
                    NOT_FOUND,
                    no_location_message(location, name),
                ),
                Err(_) => ReplyView::message(NOT_FOUND, no_application_message()),
            },
        )
    }
}

/// Handles the submission of the objective `application` under `app_name`.
pub fn recieve_objective(
    register: &mut ApplicationRegister,
    app_name: String,
    application: Application,
) -> (reply: Reply<'static>)
    ensures
        (final(register)@, reply@) == old(register)@.recieve_objective(app_name@, application@),
{
    match register.register_objective(app_name, application) {
        Ok(()) => Reply { status: OK, body: Body::Empty },
        Err(_) => Reply { status: BAD_REQUEST, body: Body::Empty },
    }
}

/// Handles the report of the state `application` of `app_name`.
pub fn update_state(
    register: &mut ApplicationRegister,
    app_name: String,
    application: Application,
) -> (reply: Reply<'static>)
    ensures
        (final(register)@, reply@) == old(register)@.update_state(app_name@, application@),
{
    match register.update_objective(app_name, application) {
        Ok(()) => Reply { status: OK, body: Body::Empty },
        Err(_) => Reply { status: NOT_FOUND, body: Body::Empty },
    }
}

fn kind_name(kind: DirectiveKind) -> (r: &'static str)
    ensures
        r@ == kind_word(kind),
{
    match kind {
        DirectiveKind::Addition => "addition",
        DirectiveKind::Reconfig => "reconfig",
        DirectiveKind::Restart => "restart",
    }
}

fn stored_message(opening: &str, kind: DirectiveKind, location: &str, app_name: &str) -> (r:
    String)
    ensures
        r@ == opening@ + kind_word(kind) + " directive in "@ + location@ + " in app "@ + app_name@,
{
    let mut text = String::from_str(opening);
    text.append(kind_name(kind));
    text.append(" directive in ");
    text.append(location);
    text.append(" in app ");
    text.append(app_name);
    text
}

fn no_location_text(location: &str, app_name: &str) -> (r: String)
    ensures
        r@ == no_location_message(location@, app_name@),
{
    let mut text = String::from_str("Couldn't find location ");
    text.append(location);
    text.append(" in  application ");
    text.append(app_name);
    text
}

/// Handles a directive of any kind for the location `location` of the
/// application `app_name`.
pub fn recieve_directive(
    register: &mut ApplicationRegister,
    app_name: &str,
    location: &str,
    order: Order,
) -> (reply: Reply<'static>)
    ensures
        (final(register)@, reply@) == old(register)@.recieve_directive(
            app_name@,
            location@,
            order@,
        ),
{
    let kind = order.kind();
    match register.upsert_directive(app_name, location, order) {
        Ok(Upsert::Updated) => Reply {
            status: OK,
            body: Body::Message(stored_message("Updated ", kind, location, app_name)),
        },
        Ok(Upsert::Created) => Reply {
            status: OK,
            body: Body::Message(stored_message("Added ", kind, location, app_name)),
        },
        Err(RegisterError::LocationNotFound) => Reply {
            status: NOT_FOUND,
            body: Body::Message(no_location_text(location, app_name)),
        },
        Err(_) => Reply {
            status: NOT_FOUND,
            body: Body::Message(String::from_str("Couldn't find application in register")),
        },
    }
}

/// Handles an addition directive for the location `location` of the
/// application `app_name`.
pub fn recieve_addition_directive(
    register: &mut ApplicationRegister,
    app_name: String,
    location: String,
    order: AdditionOrder,
) -> (reply: Reply<'static>)
    ensures
        (final(register)@, reply@) == old(register)@.recieve_directive(
            app_name@,
            location@,
            OrderView::Addition(order@),
        ),
{
    recieve_directive(register, app_name.as_str(), location.as_str(), Order::Addition(order))
}

/// Handles a reconfiguration directive for the location `location` of the
/// application `app_name`.
pub fn recieve_reconfig_directive(
    register: &mut ApplicationRegister,
    app_name: String,
    location: String,
    order: ReconfigureOrder,
) -> (reply: Reply<'static>)
    ensures
        (final(register)@, reply@) == old(register)@.recieve_directive(
            app_name@,
            location@,
            OrderView::Reconfigure(order@),
        ),
{
    recieve_directive(register, app_name.as_str(), location.as_str(), Order::Reconfigure(order))
}

/// Handles a restart directive for the location `location` of the
/// application `app_name`.
pub fn recieve_restart_directive(
    register: &mut ApplicationRegister,
    app_name: String,
    location: String,
    order: RestartOrder,
) -> (reply: Reply<'static>)
    ensures
        (final(register)@, reply@) == old(register)@.recieve_directive(
            app_name@,
            location@,
            OrderView::Restart(order@),
        ),
{
    recieve_directive(register, app_name.as_str(), location.as_str(), Order::Restart(order))
}

} // verus!
