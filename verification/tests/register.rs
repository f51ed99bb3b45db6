use bran::aggregator::application::{get_application as lookup_application, register_application};
use bran::aggregator::application_register::{ApplicationRegister, RegisterError, Upsert};
use bran::endpoints::contexter::{get_application, get_application_directives};
use bran::endpoints::receptor::{
    recieve_addition_directive, recieve_objective, recieve_reconfig_directive,
    recieve_restart_directive, update_state,
};
use bran::endpoints::reply::{Body, BAD_REQUEST, NOT_FOUND, OK};
use bran::orders::{
    AdditionOrder, Directives, Order, QueryType, ReconfigureOrder, ReconfigureType, RestartOrder,
};
use bran::topology::{Application, ChildLocation, Location, Status};

fn location(name: &str, children: Vec<(&str, Location)>) -> Location {
    Location {
        name: name.to_string(),
        ip: None,
        status: Status::Uninitialized,
        locations: children
            .into_iter()
            .map(|(key, location)| ChildLocation { key: key.to_string(), location })
            .collect(),
        data_requirements: Vec::new(),
        properties: Vec::new(),
    }
}

fn application(name: &str, status: Status, children: Vec<(&str, Location)>) -> Application {
    Application {
        name: name.to_string(),
        description: Some("a test application".to_string()),
        status,
        locations: location("root", children),
        last_update: None,
    }
}

fn addition(image: &str) -> AdditionOrder {
    AdditionOrder::new(image, "net", Vec::new(), vec!["key=topic/raw".to_string()])
}

fn query() -> QueryType {
    QueryType::Http { endpoint: "/health".to_string(), port: 8080 }
}

fn reconfig(network: &str) -> ReconfigureOrder {
    ReconfigureOrder::new(
        network,
        ReconfigureType::Http {
            endpoint: "/config".to_string(),
            port: 9000,
            method: "POST".to_string(),
            payload: serde_json::Value::from(7),
        },
        query(),
    )
}

fn restart(port: u16) -> RestartOrder {
    RestartOrder::new(QueryType::Http { endpoint: "/restart".to_string(), port })
}

fn message(body: &Body) -> String {
    match body {
        Body::Message(text) => text.clone(),
        _ => panic!("the response carries no message"),
    }
}

#[test]
fn a_new_register_is_empty() {
    let register = ApplicationRegister::new();
    assert_eq!(register.apps.len(), 0);
    assert_eq!(register.directives.len(), 0);
    assert_eq!(register.get_application("alpha"), Err(RegisterError::NotFound));
    assert!(matches!(register.get_directives("alpha"), Err(RegisterError::NotFound)));
    assert!(register.get_directives_for("alpha").is_none());
    assert!(register.snapshot_noncoherent_apps().is_empty());
}

#[test]
fn second_registration_is_refused() {
    let mut register = ApplicationRegister::new();
    let alpha = application("alpha", Status::Uninitialized, vec![]);
    assert_eq!(register.register_objective("alpha".to_string(), alpha.clone()), Ok(()));
    assert_eq!(
        register.register_objective("alpha".to_string(), alpha.clone()),
        Err(RegisterError::AlreadyRegistered)
    );
    assert_eq!(register.get_application("alpha"), Ok(&alpha));
    assert_eq!(register.apps.len(), 1);
}

#[test]
fn a_refused_registration_keeps_the_first_application() {
    let mut register = ApplicationRegister::new();
    let first = application("alpha", Status::Uninitialized, vec![]);
    let other = application("alpha", Status::Fault, vec![("roomA", location("roomA", vec![]))]);
    assert_eq!(register.register_objective("alpha".to_string(), first.clone()), Ok(()));
    assert_eq!(
        register.register_objective("alpha".to_string(), other),
        Err(RegisterError::AlreadyRegistered)
    );
    assert_eq!(register.get_application("alpha"), Ok(&first));
}

#[test]
fn update_replaces_the_stored_application() {
    let mut register = ApplicationRegister::new();
    let declared = application("alpha", Status::Uninitialized, vec![]);
    let reported = application("alpha", Status::Degraded, vec![("roomA", location("roomA", vec![]))]);
    assert_eq!(register.register_objective("alpha".to_string(), declared), Ok(()));
    assert_eq!(register.update_objective("alpha".to_string(), reported.clone()), Ok(()));
    assert_eq!(register.get_application("alpha"), Ok(&reported));
    assert_eq!(register.apps.len(), 1);
}

#[test]
fn update_of_an_unknown_application_is_refused() {
    let mut register = ApplicationRegister::new();
    let reported = application("alpha", Status::Degraded, vec![]);
    assert_eq!(
        register.update_objective("alpha".to_string(), reported),
        Err(RegisterError::NotRegistered)
    );
    assert_eq!(register.apps.len(), 0);
}

#[test]
fn the_register_key_is_the_name_given_not_the_name_inside() {
    let mut register = ApplicationRegister::new();
    let app = application("inner", Status::Uninitialized, vec![]);
    assert_eq!(register.register_objective("outer".to_string(), app.clone()), Ok(()));
    assert_eq!(register.get_application("outer"), Ok(&app));
    assert_eq!(register.get_application("inner"), Err(RegisterError::NotFound));
}

#[test]
fn directive_for_an_unknown_application_is_refused() {
    let mut register = ApplicationRegister::new();
    assert_eq!(
        register.upsert_directive("alpha", "roomA", Order::Addition(addition("img"))),
        Err(RegisterError::AppNotFound)
    );
    assert_eq!(register.directives.len(), 0);
}

#[test]
fn directive_for_an_unknown_location_is_refused() {
    let mut register = ApplicationRegister::new();
    let alpha = application("alpha", Status::Uninitialized, vec![("roomB", location("roomB", vec![]))]);
    register.register_objective("alpha".to_string(), alpha).unwrap();
    assert_eq!(
        register.upsert_directive("alpha", "roomA", Order::Addition(addition("img"))),
        Err(RegisterError::LocationNotFound)
    );
    assert!(register.get_directives_for("alpha").is_none());
}

#[test]
fn only_direct_children_of_the_root_take_directives() {
    let mut register = ApplicationRegister::new();
    let floor = location("floor", vec![("roomA", location("roomA", vec![]))]);
    let alpha = application("alpha", Status::Uninitialized, vec![("floor", floor)]);
    register.register_objective("alpha".to_string(), alpha).unwrap();
    assert_eq!(
        register.upsert_directive("alpha", "roomA", Order::Restart(restart(1))),
        Err(RegisterError::LocationNotFound)
    );
    assert_eq!(
        register.upsert_directive("alpha", "floor", Order::Restart(restart(1))),
        Ok(Upsert::Created)
    );
}

#[test]
fn first_directive_creates_and_later_ones_update() {
    let mut register = ApplicationRegister::new();
    let alpha = application("alpha", Status::Uninitialized, vec![("roomA", location("roomA", vec![]))]);
    register.register_objective("alpha".to_string(), alpha).unwrap();
    assert_eq!(
        register.upsert_directive("alpha", "roomA", Order::Addition(addition("one"))),
        Ok(Upsert::Created)
    );
    assert_eq!(
        register.upsert_directive("alpha", "roomA", Order::Restart(restart(1))),
        Ok(Upsert::Updated)
    );
    assert_eq!(
        register.upsert_directive("alpha", "roomA", Order::Addition(addition("two"))),
        Ok(Upsert::Updated)
    );
    let table = register.get_directives("alpha").unwrap();
    assert_eq!(table.len(), 1);
    let record = table.get("roomA").unwrap();
    assert_eq!(record.addition, Some(addition("two")));
    assert_eq!(record.restart, Some(restart(1)));
    assert_eq!(record.reconfig, None);
}

fn slots_after(orders: Vec<Order>) -> Directives {
    let mut register = ApplicationRegister::new();
    let alpha = application("alpha", Status::Uninitialized, vec![("roomA", location("roomA", vec![]))]);
    register.register_objective("alpha".to_string(), alpha).unwrap();
    for order in orders {
        register.upsert_directive("alpha", "roomA", order).unwrap();
    }
    register.get_directives("alpha").unwrap().get("roomA").unwrap().clone()
}

#[test]
fn slots_hold_the_last_order_of_their_kind_in_any_order() {
    let expected = Directives {
        addition: Some(addition("last")),
        reconfig: Some(reconfig("last")),
        restart: Some(restart(2)),
    };
    let one = slots_after(vec![
        Order::Addition(addition("first")),
        Order::Reconfigure(reconfig("first")),
        Order::Restart(restart(1)),
        Order::Restart(restart(2)),
        Order::Reconfigure(reconfig("last")),
        Order::Addition(addition("last")),
    ]);
    assert_eq!(one, expected);
    let other = slots_after(vec![
        Order::Restart(restart(2)),
        Order::Addition(addition("first")),
        Order::Addition(addition("last")),
        Order::Reconfigure(reconfig("last")),
    ]);
    assert_eq!(other, expected);
}

#[test]
fn a_slot_that_was_never_written_stays_empty() {
    let record = slots_after(vec![Order::Reconfigure(reconfig("only"))]);
    assert_eq!(record.addition, None);
    assert_eq!(record.reconfig, Some(reconfig("only")));
    assert_eq!(record.restart, None);
}

#[test]
fn directives_of_two_locations_and_two_applications_do_not_mix() {
    let mut register = ApplicationRegister::new();
    let rooms = vec![("roomA", location("roomA", vec![])), ("roomB", location("roomB", vec![]))];
    register
        .register_objective("alpha".to_string(), application("alpha", Status::Fault, rooms))
        .unwrap();
    register
        .register_objective(
            "beta".to_string(),
            application("beta", Status::Fault, vec![("roomA", location("roomA", vec![]))]),
        )
        .unwrap();
    register.upsert_directive("alpha", "roomA", Order::Restart(restart(1))).unwrap();
    register.upsert_directive("alpha", "roomB", Order::Restart(restart(2))).unwrap();
    register.upsert_directive("beta", "roomA", Order::Restart(restart(3))).unwrap();
    let alpha = register.get_directives_for("alpha").unwrap();
    assert_eq!(alpha.len(), 2);
    assert_eq!(alpha.get("roomA").unwrap().restart, Some(restart(1)));
    assert_eq!(alpha.get("roomB").unwrap().restart, Some(restart(2)));
    let beta = register.get_directives_for("beta").unwrap();
    assert_eq!(beta.len(), 1);
    assert_eq!(beta.get("roomA").unwrap().restart, Some(restart(3)));
}

#[test]
fn snapshot_leaves_out_coherent_and_uninitialized_applications() {
    let mut register = ApplicationRegister::new();
    for (name, status) in [
        ("a", Status::Fault),
        ("b", Status::Coherent),
        ("c", Status::Degraded),
        ("d", Status::Uninitialized),
        ("e", Status::Critical),
    ] {
        register.register_objective(name.to_string(), application(name, status, vec![])).unwrap();
    }
    let names: Vec<String> =
        register.snapshot_noncoherent_apps().into_iter().map(|app| app.name).collect();
    assert_eq!(names, vec!["a".to_string(), "c".to_string(), "e".to_string()]);
}

#[test]
fn snapshot_follows_the_reported_state() {
    let mut register = ApplicationRegister::new();
    register
        .register_objective("a".to_string(), application("a", Status::Uninitialized, vec![]))
        .unwrap();
    assert!(register.snapshot_noncoherent_apps().is_empty());
    register.update_objective("a".to_string(), application("a", Status::Fault, vec![])).unwrap();
    assert_eq!(register.snapshot_noncoherent_apps().len(), 1);
    register.update_objective("a".to_string(), application("a", Status::Coherent, vec![])).unwrap();
    assert!(register.snapshot_noncoherent_apps().is_empty());
}

#[test]
fn status_needs_reconciliation_unless_coherent_or_uninitialized() {
    assert!(!Status::Coherent.needs_reconciliation());
    assert!(!Status::Uninitialized.needs_reconciliation());
    assert!(Status::Degraded.needs_reconciliation());
    assert!(Status::Critical.needs_reconciliation());
    assert!(Status::Fault.needs_reconciliation());
    assert!(Status::Coherent.is_coherent());
    assert!(!Status::Uninitialized.is_coherent());
}

#[test]
fn registration_then_read() {
    let mut register = ApplicationRegister::new();
    let alpha = application("alpha", Status::Uninitialized, vec![]);
    let reply = recieve_objective(&mut register, "alpha".to_string(), alpha.clone());
    assert_eq!(reply.status, OK);
    assert!(matches!(reply.body, Body::Empty));
    {
        let reply = get_application(&register, "alpha");
        assert_eq!(reply.status, OK);
        match reply.body {
            Body::Application(found) => assert_eq!(found, &alpha),
            _ => panic!("the response carries no application"),
        }
    }
    let reply = recieve_objective(&mut register, "alpha".to_string(), alpha);
    assert_eq!(reply.status, BAD_REQUEST);
    assert_eq!(reply.status, 400);
    assert!(matches!(reply.body, Body::Empty));
}

#[test]
fn directive_upsert_round_trip() {
    let mut register = ApplicationRegister::new();
    let alpha = application("alpha", Status::Uninitialized, vec![]);
    assert_eq!(recieve_objective(&mut register, "alpha".to_string(), alpha).status, 200);
    let reply = recieve_addition_directive(
        &mut register,
        "alpha".to_string(),
        "roomA".to_string(),
        addition("img"),
    );
    assert_eq!(reply.status, NOT_FOUND);
    assert_eq!(message(&reply.body), "Couldn't find location roomA in  application alpha");
    let with_room =
        application("alpha", Status::Uninitialized, vec![("roomA", location("roomA", vec![]))]);
    assert_eq!(update_state(&mut register, "alpha".to_string(), with_room).status, 200);
    let reply = recieve_addition_directive(
        &mut register,
        "alpha".to_string(),
        "roomA".to_string(),
        addition("img"),
    );
    assert_eq!(reply.status, 200);
    assert_eq!(message(&reply.body), "Added addition directive in roomA in app alpha");
    let reply = get_application_directives(&register, "alpha");
    assert_eq!(reply.status, 200);
    match reply.body {
        Body::Directives(table) => {
            assert_eq!(table.len(), 1);
            assert_eq!(table.key_at(0), "roomA");
            assert_eq!(table.value_at(0).addition, Some(addition("img")));
        },
        _ => panic!("the response carries no directives"),
    }
}

#[test]
fn state_of_an_unknown_application_is_not_found() {
    let mut register = ApplicationRegister::new();
    let reply = update_state(&mut register, "alpha".to_string(), application("alpha", Status::Fault, vec![]));
    assert_eq!(reply.status, 404);
    assert!(matches!(reply.body, Body::Empty));
    assert_eq!(register.apps.len(), 0);
}

#[test]
fn reading_what_is_not_there_says_so() {
    let register = ApplicationRegister::new();
    let reply = get_application(&register, "alpha");
    assert_eq!(reply.status, 404);
    assert_eq!(
        message(&reply.body),
        "alpha context not found. Use lexical client to set state"
    );
    let reply = get_application_directives(&register, "alpha");
    assert_eq!(reply.status, 404);
    assert_eq!(
        message(&reply.body),
        "alpha context not found. Use lexical client to set state"
    );
}

#[test]
fn directives_are_not_found_until_one_is_posted() {
    let mut register = ApplicationRegister::new();
    let alpha = application("alpha", Status::Fault, vec![("roomA", location("roomA", vec![]))]);
    recieve_objective(&mut register, "alpha".to_string(), alpha);
    assert_eq!(get_application_directives(&register, "alpha").status, 404);
    recieve_restart_directive(&mut register, "alpha".to_string(), "roomA".to_string(), restart(1));
    assert_eq!(get_application_directives(&register, "alpha").status, 200);
}

#[test]
fn directive_replies_name_the_kind_and_tell_added_from_updated() {
    let mut register = ApplicationRegister::new();
    let alpha = application("alpha", Status::Fault, vec![("roomA", location("roomA", vec![]))]);
    recieve_objective(&mut register, "alpha".to_string(), alpha);
    let reply = recieve_reconfig_directive(
        &mut register,
        "alpha".to_string(),
        "roomA".to_string(),
        reconfig("net"),
    );
    assert_eq!(reply.status, 200);
    assert_eq!(message(&reply.body), "Added reconfig directive in roomA in app alpha");
    let reply =
        recieve_restart_directive(&mut register, "alpha".to_string(), "roomA".to_string(), restart(1));
    assert_eq!(reply.status, 200);
    assert_eq!(message(&reply.body), "Updated restart directive in roomA in app alpha");
    let reply = recieve_addition_directive(
        &mut register,
        "alpha".to_string(),
        "roomA".to_string(),
        addition("img"),
    );
    assert_eq!(message(&reply.body), "Updated addition directive in roomA in app alpha");
    let reply = recieve_reconfig_directive(
        &mut register,
        "alpha".to_string(),
        "roomA".to_string(),
        reconfig("other"),
    );
    assert_eq!(message(&reply.body), "Updated reconfig directive in roomA in app alpha");
    let record = register.get_directives("alpha").unwrap().get("roomA").unwrap();
    assert_eq!(record.reconfig, Some(reconfig("other")));
}

#[test]
fn directive_for_an_unregistered_application_is_not_found() {
    let mut register = ApplicationRegister::new();
    let reply =
        recieve_restart_directive(&mut register, "ghost".to_string(), "roomA".to_string(), restart(1));
    assert_eq!(reply.status, 404);
    assert_eq!(message(&reply.body), "Couldn't find application in register");
    let reply = recieve_reconfig_directive(
        &mut register,
        "ghost".to_string(),
        "roomA".to_string(),
        reconfig("net"),
    );
    assert_eq!(reply.status, 404);
    assert_eq!(message(&reply.body), "Couldn't find application in register");
}

#[test]
fn plain_registration_overwrites() {
    let mut register = ApplicationRegister::new();
    let first = application("alpha", Status::Uninitialized, vec![]);
    let second = application("alpha", Status::Fault, vec![]);
    assert_eq!(register_application(&mut register, "alpha".to_string(), first).status, 200);
    assert_eq!(register_application(&mut register, "alpha".to_string(), second.clone()).status, 200);
    assert_eq!(register.apps.len(), 1);
    let reply = lookup_application(&register, "alpha");
    assert_eq!(reply.status, 200);
    match reply.body {
        Body::Application(found) => assert_eq!(found, &second),
        _ => panic!("the response carries no application"),
    }
    let reply = lookup_application(&register, "beta");
    assert_eq!(reply.status, 404);
    assert_eq!(message(&reply.body), "beta not found");
}

#[test]
fn a_copy_of_an_application_equals_it() {
    let floor = location("floor", vec![("roomA", location("roomA", vec![]))]);
    let alpha = application("alpha", Status::Critical, vec![("floor", floor)]);
    let copy = alpha.clone();
    assert_eq!(copy, alpha);
    assert_eq!(copy.locations.locations[0].location.locations[0].key, "roomA");
}
