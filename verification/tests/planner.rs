use bran::aggregator::application_register::ApplicationRegister;
use bran::orders::{
    AdditionOrder, DirectiveKind, EnvVar, Order, QueryType, ReconfigureOrder, ReconfigureType,
    RestartOrder,
};
use bran::planner::make_request::MakeRequest;
use bran::planner::planner::{
    judge_response, Cause, Command, DispatchFailed, Event, Planner, DEFAULT_DELAY,
    DEFAULT_INTERVAL,
};
use bran::planner::problem::{Action, ProblemInfo};
use bran::planner::schedule::seconds;
use bran::topology::{
    Application, ChildLocation, Component, DataRequirement, IoTOutput, KeyedRequirement, Location,
    Status,
};

const U: u128 = 0x67e55044_10b1_426f_9247_bb680e5fe0c8;
const V: u128 = 0x00000000_0000_4000_8000_000000000002;

fn requirement(key: &str, count: usize, devices: Vec<u128>, status: Status) -> KeyedRequirement {
    KeyedRequirement {
        key: key.to_string(),
        requirement: DataRequirement {
            components: devices
                .into_iter()
                .map(|uuid| Component {
                    name: "sensor".to_string(),
                    uuid: Some(uuid),
                    status: Status::Fault,
                    last_reading: None,
                })
                .collect(),
            required: true,
            count,
            timeout: None,
            status,
            output: IoTOutput::Number,
        },
    }
}

fn leaf(name: &str, requirements: Vec<KeyedRequirement>) -> Location {
    Location {
        name: name.to_string(),
        ip: None,
        status: Status::Fault,
        locations: Vec::new(),
        data_requirements: requirements,
        properties: Vec::new(),
    }
}

fn application(name: &str, status: Status, rooms: Vec<(&str, Location)>) -> Application {
    Application {
        name: name.to_string(),
        description: None,
        status,
        locations: Location {
            name: "root".to_string(),
            ip: None,
            status,
            locations: rooms
                .into_iter()
                .map(|(key, location)| ChildLocation { key: key.to_string(), location })
                .collect(),
            data_requirements: Vec::new(),
            properties: Vec::new(),
        },
        last_update: None,
    }
}

fn addition(args: &[&str]) -> AdditionOrder {
    AdditionOrder::new("img", "net", Vec::new(), args.iter().map(|a| a.to_string()).collect())
}

fn restart() -> RestartOrder {
    RestartOrder::new(QueryType::Http { endpoint: "/restart".to_string(), port: 80 })
}

fn reconfig() -> ReconfigureOrder {
    ReconfigureOrder::new(
        "net",
        ReconfigureType::Http {
            endpoint: "/config".to_string(),
            port: 81,
            method: "PUT".to_string(),
            payload: serde_json::Value::Null,
        },
        QueryType::Http { endpoint: "/query".to_string(), port: 82 },
    )
}

fn device_uuid(order: &AdditionOrder) -> String {
    let found: Vec<&EnvVar> = order.env_vars.iter().filter(|v| v.key == "device_uuid").collect();
    assert_eq!(found.len(), 1);
    found[0].value.as_str().unwrap().to_string()
}

fn beta() -> ApplicationRegister {
    let mut register = ApplicationRegister::new();
    let room = leaf("roomA", vec![requirement("temp", 3, vec![], Status::Fault)]);
    register
        .register_objective("beta".to_string(), application("beta", Status::Fault, vec![("roomA", room)]))
        .unwrap();
    register
        .upsert_directive("beta", "roomA", Order::Addition(addition(&["key=topic/raw"])))
        .unwrap();
    register
}

fn gamma(with_directives: bool) -> ApplicationRegister {
    let mut register = ApplicationRegister::new();
    let room = leaf("roomA", vec![requirement("temp", 1, vec![U], Status::Fault)]);
    register
        .register_objective("gamma".to_string(), application("gamma", Status::Fault, vec![("roomA", room)]))
        .unwrap();
    if with_directives {
        register.upsert_directive("gamma", "roomA", Order::Addition(addition(&["key=t"]))).unwrap();
        register.upsert_directive("gamma", "roomA", Order::Restart(restart())).unwrap();
        register.upsert_directive("gamma", "roomA", Order::Reconfigure(reconfig())).unwrap();
    }
    register
}

#[test]
fn under_provisioning_gives_one_addition_per_missing_component() {
    let register = beta();
    let mut planner = Planner::new();
    let orders = planner.execute_actions(&register);
    assert_eq!(orders.len(), 3);
    let mut seen = Vec::new();
    for order in &orders {
        match order {
            Order::Addition(built) => {
                assert_eq!(
                    built.args,
                    vec![
                        "temp=topic/raw".to_string(),
                        "location=roomA".to_string(),
                        "topic=temp".to_string()
                    ]
                );
                assert_eq!(built.image, "img");
                let text = device_uuid(built);
                assert_eq!(uuid::Uuid::parse_str(&text).unwrap().get_version_num(), 4);
                assert!(!seen.contains(&text));
                seen.push(text);
                assert_eq!(order.make_request("http://dothing:8050"), "http://dothing:8050/addition");
            },
            _ => panic!("an order of another kind"),
        }
    }
    assert_eq!(planner.recall(&ProblemInfo::new("roomA", "temp", &None)), None);
}

#[test]
fn the_template_is_left_as_it_was_posted() {
    let register = beta();
    let mut planner = Planner::new();
    planner.execute_actions(&register);
    let template = register.get_directives("beta").unwrap().get("roomA").unwrap();
    assert_eq!(template.addition, Some(addition(&["key=topic/raw"])));
}

#[test]
fn escalation_over_three_cycles() {
    let register = gamma(true);
    let mut planner = Planner::new();

    let first = planner.execute_actions(&register);
    let mut expected_restart = restart();
    expected_restart.uuid = Some(U);
    assert_eq!(first, vec![Order::Restart(expected_restart)]);
    assert_eq!(first[0].make_request("http://x"), "http://x/restart");

    let second = planner.execute_actions(&register);
    let mut expected_reconfig = reconfig();
    expected_reconfig.uuid = Some(U);
    assert_eq!(second, vec![Order::Reconfigure(expected_reconfig)]);
    assert_eq!(second[0].make_request("http://x"), "http://x/reconfig/http");

    let third = planner.execute_actions(&register);
    assert_eq!(third.len(), 1);
    match &third[0] {
        Order::Addition(built) => {
            assert_eq!(
                built.args,
                vec!["temp=t".to_string(), "location=roomA".to_string(), "topic=temp".to_string()]
            );
        },
        _ => panic!("the third cycle adds"),
    }
    assert_eq!(third[0].make_request("http://x"), "http://x/addition");
    assert_eq!(planner.recall(&ProblemInfo::new("roomA", "temp", &Some(U))), Some(Action::Reconfigure));
}

#[test]
fn coherent_and_uninitialized_applications_are_ignored() {
    let mut register = ApplicationRegister::new();
    for (name, status) in [("calm", Status::Coherent), ("new", Status::Uninitialized)] {
        let room = leaf("roomA", vec![requirement("temp", 3, vec![U], Status::Fault)]);
        register
            .register_objective(name.to_string(), application(name, status, vec![("roomA", room)]))
            .unwrap();
        register.upsert_directive(name, "roomA", Order::Addition(addition(&[]))).unwrap();
        register.upsert_directive(name, "roomA", Order::Restart(restart())).unwrap();
    }
    let mut planner = Planner::new();
    assert!(planner.execute_actions(&register).is_empty());
    assert_eq!(planner.recall(&ProblemInfo::new("roomA", "temp", &Some(U))), None);
}

#[test]
fn an_application_without_directives_is_passed_over() {
    let register = gamma(false);
    let mut planner = Planner::new();
    assert!(planner.execute_actions(&register).is_empty());
    assert_eq!(planner.recall(&ProblemInfo::new("roomA", "temp", &Some(U))), None);
}

#[test]
fn directives_are_looked_up_by_the_name_inside_the_application() {
    let mut register = ApplicationRegister::new();
    let room = leaf("roomA", vec![requirement("temp", 1, vec![U], Status::Fault)]);
    register
        .register_objective("outer".to_string(), application("inner", Status::Fault, vec![("roomA", room)]))
        .unwrap();
    register.upsert_directive("outer", "roomA", Order::Restart(restart())).unwrap();
    let mut planner = Planner::new();
    assert!(planner.execute_actions(&register).is_empty());
}

#[test]
fn a_remedy_is_remembered_even_without_a_template() {
    let mut register = gamma(false);
    register.upsert_directive("gamma", "roomA", Order::Reconfigure(reconfig())).unwrap();
    let mut planner = Planner::new();
    assert!(planner.execute_actions(&register).is_empty());
    assert_eq!(planner.recall(&ProblemInfo::new("roomA", "temp", &Some(U))), Some(Action::Restart));
    let second = planner.execute_actions(&register);
    let mut expected = reconfig();
    expected.uuid = Some(U);
    assert_eq!(second, vec![Order::Reconfigure(expected)]);
}

#[test]
fn a_location_without_record_gives_no_order() {
    let mut register = ApplicationRegister::new();
    let rooms = vec![
        ("roomA", leaf("roomA", vec![requirement("temp", 2, vec![], Status::Fault)])),
        ("roomB", leaf("roomB", vec![requirement("temp", 1, vec![], Status::Fault)])),
    ];
    register
        .register_objective("delta".to_string(), application("delta", Status::Degraded, rooms))
        .unwrap();
    register.upsert_directive("delta", "roomB", Order::Addition(addition(&[]))).unwrap();
    let mut planner = Planner::new();
    let orders = planner.execute_actions(&register);
    assert_eq!(orders.len(), 1);
    match &orders[0] {
        Order::Addition(built) => assert_eq!(
            built.args,
            vec!["location=roomB".to_string(), "topic=temp".to_string()]
        ),
        _ => panic!("an order of another kind"),
    }
}

#[test]
fn an_ambiguous_template_gives_no_order_and_the_cycle_goes_on() {
    let mut register = ApplicationRegister::new();
    let rooms = vec![
        ("roomA", leaf("roomA", vec![requirement("temp", 2, vec![], Status::Fault)])),
        ("roomB", leaf("roomB", vec![requirement("hum", 1, vec![V], Status::Fault)])),
    ];
    register
        .register_objective("delta".to_string(), application("delta", Status::Critical, rooms))
        .unwrap();
    register
        .upsert_directive("delta", "roomA", Order::Addition(addition(&["key=a", "key=b"])))
        .unwrap();
    register.upsert_directive("delta", "roomB", Order::Restart(restart())).unwrap();
    let mut planner = Planner::new();
    let orders = planner.execute_actions(&register);
    let mut expected = restart();
    expected.uuid = Some(V);
    assert_eq!(orders, vec![Order::Restart(expected)]);
}

#[test]
fn orders_come_in_the_order_of_the_problems() {
    let mut register = ApplicationRegister::new();
    let rooms = vec![
        ("roomA", leaf("roomA", vec![requirement("temp", 1, vec![U, V], Status::Fault)])),
        ("roomB", leaf("roomB", vec![requirement("temp", 2, vec![], Status::Fault)])),
    ];
    register
        .register_objective("delta".to_string(), application("delta", Status::Fault, rooms))
        .unwrap();
    for room in ["roomA", "roomB"] {
        register.upsert_directive("delta", room, Order::Addition(addition(&[]))).unwrap();
        register.upsert_directive("delta", room, Order::Restart(restart())).unwrap();
    }
    let mut planner = Planner::new();
    let orders = planner.execute_actions(&register);
    let kinds: Vec<&str> = orders
        .iter()
        .map(|order| match order {
            Order::Addition(_) => "addition",
            Order::Restart(_) => "restart",
            Order::Reconfigure(_) => "reconfigure",
        })
        .collect();
    assert_eq!(kinds, vec!["restart", "restart", "addition", "addition"]);
    match (&orders[0], &orders[1]) {
        (Order::Restart(a), Order::Restart(b)) => {
            assert_eq!(a.uuid, Some(U));
            assert_eq!(b.uuid, Some(V));
        },
        _ => panic!("two restarts come first"),
    }
}

#[test]
fn what_one_application_teaches_the_next_one_meets() {
    let mut register = ApplicationRegister::new();
    for name in ["one", "two"] {
        let room = leaf("roomA", vec![requirement("temp", 1, vec![U], Status::Fault)]);
        register
            .register_objective(name.to_string(), application(name, Status::Fault, vec![("roomA", room)]))
            .unwrap();
        register.upsert_directive(name, "roomA", Order::Restart(restart())).unwrap();
        register.upsert_directive(name, "roomA", Order::Reconfigure(reconfig())).unwrap();
    }
    let mut planner = Planner::new();
    let orders = planner.execute_actions(&register);
    let mut first = restart();
    first.uuid = Some(U);
    let mut second = reconfig();
    second.uuid = Some(U);
    assert_eq!(orders, vec![Order::Restart(first), Order::Reconfigure(second)]);
}

#[test]
fn endpoints_by_kind_of_order() {
    assert_eq!(addition(&[]).make_request("http://dothing:8050"), "http://dothing:8050/addition");
    assert_eq!(restart().make_request("http://dothing:8050"), "http://dothing:8050/restart");
    assert_eq!(reconfig().make_request("http://dothing:8050"), "http://dothing:8050/reconfig/http");
    assert_eq!(Order::Addition(addition(&[])).kind(), DirectiveKind::Addition);
    assert_eq!(Order::Restart(restart()).kind(), DirectiveKind::Restart);
    assert_eq!(Order::Reconfigure(reconfig()).kind(), DirectiveKind::Reconfig);
    assert_eq!(<AdditionOrder as MakeRequest>::ENDPOINT, "/addition");
    assert_eq!(<RestartOrder as MakeRequest>::ENDPOINT, "/restart");
    assert_eq!(<ReconfigureOrder as MakeRequest>::ENDPOINT, "/reconfig/http");
    assert_eq!(Order::Addition(addition(&[])).make_request(""), "/addition");
    assert_eq!(Order::Restart(restart()).make_request("h"), "h/restart");
    assert_eq!(Order::Reconfigure(reconfig()).make_request("h/"), "h//reconfig/http");
}

#[test]
fn only_a_success_status_counts_as_delivered() {
    let kind = DirectiveKind::Restart;
    assert_eq!(judge_response(kind, Ok(200)), Ok(()));
    assert_eq!(judge_response(kind, Ok(204)), Ok(()));
    assert_eq!(judge_response(kind, Ok(299)), Ok(()));
    assert_eq!(
        judge_response(kind, Ok(199)),
        Err(DispatchFailed { kind, cause: Cause::Status(199) })
    );
    assert_eq!(
        judge_response(kind, Ok(300)),
        Err(DispatchFailed { kind, cause: Cause::Status(300) })
    );
    assert_eq!(
        judge_response(DirectiveKind::Addition, Ok(503)),
        Err(DispatchFailed { kind: DirectiveKind::Addition, cause: Cause::Status(503) })
    );
    assert_eq!(
        judge_response(DirectiveKind::Reconfig, Err("connection refused".to_string())),
        Err(DispatchFailed {
            kind: DirectiveKind::Reconfig,
            cause: Cause::Transport("connection refused".to_string())
        })
    );
}

#[test]
fn the_loop_sleeps_scans_and_sleeps_when_there_is_nothing_to_do() {
    let register = ApplicationRegister::new();
    let mut planner = Planner::new();
    assert_eq!(planner.watch_over(None, None, None), Command::Sleep(0));
    assert_eq!(DEFAULT_DELAY, 0);
    assert_eq!(DEFAULT_INTERVAL, 120);
    assert_eq!(planner.step(Event::Elapsed), Command::Scan);
    assert_eq!(planner.step(Event::Scanned(&register)), Command::Sleep(120));
    assert_eq!(planner.step(Event::Elapsed), Command::Scan);
}

#[test]
fn delay_interval_and_target_can_be_given() {
    let register = gamma(true);
    let mut planner = Planner::new();
    assert_eq!(
        planner.watch_over(Some(7), Some(30), Some("http://exec:1".to_string())),
        Command::Sleep(7)
    );
    assert_eq!(planner.step(Event::Elapsed), Command::Scan);
    let mut expected = restart();
    expected.uuid = Some(U);
    assert_eq!(
        planner.step(Event::Scanned(&register)),
        Command::Post { url: "http://exec:1/restart".to_string(), order: Order::Restart(expected) }
    );
    assert_eq!(planner.step(Event::Delivered), Command::Sleep(30));
}

#[test]
fn the_default_target_is_the_executor() {
    let register = gamma(true);
    let mut planner = Planner::new();
    planner.watch_over(None, None, None);
    planner.step(Event::Elapsed);
    match planner.step(Event::Scanned(&register)) {
        Command::Post { url, .. } => assert_eq!(url, "http://dothing:8050/restart"),
        _ => panic!("an order is to be posted"),
    }
    let mut fresh = Planner::new();
    fresh.step(Event::Elapsed);
    match fresh.step(Event::Scanned(&register)) {
        Command::Post { url, .. } => assert_eq!(url, "http://dothing:8050/restart"),
        _ => panic!("an order is to be posted"),
    }
}

fn failure() -> Event<'static> {
    Event::Failed(DispatchFailed { kind: DirectiveKind::Addition, cause: Cause::Status(503) })
}

fn urls_of_a_cycle(fail_first: bool) -> Vec<String> {
    let register = beta();
    let mut planner = Planner::new();
    planner.watch_over(None, None, None);
    planner.step(Event::Elapsed);
    let mut command = planner.step(Event::Scanned(&register));
    let mut urls = Vec::new();
    let mut first = true;
    while let Command::Post { url, .. } = command {
        urls.push(url);
        command = if first && fail_first { planner.step(failure()) } else { planner.step(Event::Delivered) };
        first = false;
    }
    assert_eq!(command, Command::Sleep(120));
    urls
}

#[test]
fn a_failed_dispatch_does_not_stop_the_cycle() {
    let expected = vec!["http://dothing:8050/addition".to_string(); 3];
    assert_eq!(urls_of_a_cycle(true), expected);
    assert_eq!(urls_of_a_cycle(false), expected);
}

#[test]
fn a_failed_order_is_not_posted_again_in_the_same_cycle() {
    let mut register = gamma(true);
    let room = leaf("roomB", vec![requirement("hum", 1, vec![V], Status::Fault)]);
    register
        .register_objective("delta".to_string(), application("delta", Status::Fault, vec![("roomB", room)]))
        .unwrap();
    register.upsert_directive("delta", "roomB", Order::Restart(restart())).unwrap();
    let mut planner = Planner::new();
    planner.step(Event::Elapsed);
    let first = planner.step(Event::Scanned(&register));
    let second = planner.step(failure());
    match (first, second) {
        (Command::Post { order: Order::Restart(a), .. }, Command::Post { order: Order::Restart(b), .. }) => {
            assert_eq!(a.uuid, Some(U));
            assert_eq!(b.uuid, Some(V));
        },
        _ => panic!("two restarts are to be posted"),
    }
    assert_eq!(planner.step(failure()), Command::Sleep(120));
}

#[test]
fn an_event_out_of_turn_changes_nothing() {
    let register = gamma(true);
    let mut planner = Planner::new();
    assert_eq!(planner.step(Event::Delivered), Command::Sleep(120));
    assert_eq!(planner.step(failure()), Command::Sleep(120));
    assert_eq!(planner.step(Event::Scanned(&register)), Command::Sleep(120));
    assert_eq!(planner.recall(&ProblemInfo::new("roomA", "temp", &Some(U))), None);
    assert_eq!(planner.step(Event::Elapsed), Command::Scan);
    assert_eq!(planner.step(Event::Elapsed), Command::Scan);
    assert_eq!(planner.step(Event::Delivered), Command::Scan);
    let posting = planner.step(Event::Scanned(&register));
    assert!(matches!(posting, Command::Post { .. }));
    assert_eq!(planner.step(Event::Elapsed), posting);
    assert_eq!(planner.step(Event::Scanned(&register)), posting);
    assert_eq!(planner.command(), posting);
    assert_eq!(planner.step(Event::Delivered), Command::Sleep(120));
}

#[test]
fn the_loop_escalates_from_cycle_to_cycle() {
    let register = gamma(true);
    let mut planner = Planner::new();
    planner.watch_over(None, Some(1), Some("http://e".to_string()));
    let mut urls = Vec::new();
    for _ in 0..3 {
        assert_eq!(planner.step(Event::Elapsed), Command::Scan);
        match planner.step(Event::Scanned(&register)) {
            Command::Post { url, .. } => urls.push(url),
            _ => panic!("an order is to be posted"),
        }
        assert_eq!(planner.step(Event::Delivered), Command::Sleep(1));
    }
    assert_eq!(
        urls,
        vec![
            "http://e/restart".to_string(),
            "http://e/reconfig/http".to_string(),
            "http://e/addition".to_string()
        ]
    );
}

#[test]
fn starting_over_gives_up_the_cycle_and_keeps_the_memory() {
    let register = gamma(true);
    let mut planner = Planner::new();
    planner.step(Event::Elapsed);
    assert!(matches!(planner.step(Event::Scanned(&register)), Command::Post { .. }));
    assert_eq!(planner.watch_over(Some(5), None, None), Command::Sleep(5));
    assert_eq!(planner.command(), Command::Sleep(120));
    assert_eq!(planner.recall(&ProblemInfo::new("roomA", "temp", &Some(U))), Some(Action::Restart));
}

#[test]
fn seconds_are_read_as_the_standard_library_reads_them() {
    assert_eq!(seconds("0"), Some(0));
    assert_eq!(seconds("120"), Some(120));
    assert_eq!(seconds("+7"), Some(7));
    assert_eq!(seconds("007"), Some(7));
    assert_eq!(seconds("18446744073709551615"), Some(u64::MAX));
    assert_eq!(seconds("18446744073709551616"), None);
    assert_eq!(seconds("99999999999999999999999"), None);
    for text in [
        "", "+", "-1", "-0", " 1", "1 ", "1e3", "1.5", "++1", "1+", "0x10", "\u{ff11}\u{ff12}", "12a",
        "+0", "000", "9", "4294967296", "18446744073709551609", "18446744073709551620",
    ] {
        assert_eq!(seconds(text), text.parse::<u64>().ok(), "{text:?}");
    }
}
