//! The planner itself: the classifier that turns a topology into problems,
//! and the reconciliation cycle built on it.

use vstd::prelude::*;
use vstd::string::*;
use crate::aggregator::application_register::{
    applications_view, table_view, ApplicationRegister, DirectiveTable, RegisterView,
};
use crate::orders::{
    AdditionOrderView, DirectiveKind, DirectivesView, Order, OrderView, ReconfigureOrderView,
    RestartOrderView,
};
use crate::planner::build_order::{
    ambiguous_datakey, build_outcome, built, is_v4_uuid_text, BuildOrder,
};
use crate::planner::make_request::endpoint_of;
use crate::planner::memory::RemediationMemory;
use crate::planner::problem::{report_view, Action, ProblemInfo, ProblemInfoView};
use crate::topology::{
    ApplicationView, ComponentView, DataRequirement, KeyedRequirementView, Location, LocationView,
    Status,
};

verus! {

/// The action for a component that is present but unhealthy, by what the
/// planner last did about it: nothing yet, so restart it; a restart, so
/// reconfigure it; anything else, so add a component, on no device in
/// particular.
pub open spec fn escalate(memory: Map<ProblemInfoView, Action>, p: ProblemInfoView) -> (
    Action,
    ProblemInfoView,
) {
    if memory.contains_key(p) {
        if memory[p] == Action::Restart {
            (Action::Reconfigure, p)
        } else {
            (Action::Addition(1), p.without_device())
        }
    } else {
        (Action::Restart, p)
    }
}

/// The problems of the components of one data requirement that has as many
/// components as it wants, or more: one per component, in their order.
pub open spec fn component_problems(
    memory: Map<ProblemInfoView, Action>,
    location_key: Seq<char>,
    data_key: Seq<char>,
    components: Seq<ComponentView>,
) -> Seq<(Action, ProblemInfoView)> {
    Seq::new(
        components.len(),
        |i: int|
            escalate(
                memory,
                ProblemInfoView {
                    location_key,
                    data_requirement_key: data_key,
                    device_uuid: components[i].uuid,
                },
            ),
    )
}

/// The problems of one data requirement. A coherent one has none. One with
/// fewer components than it wants has one: to add those that are missing.
/// Otherwise each component is a problem of its own.
pub open spec fn requirement_problems(
    memory: Map<ProblemInfoView, Action>,
    location_key: Seq<char>,
    entry: KeyedRequirementView,
) -> Seq<(Action, ProblemInfoView)> {
    let req = entry.requirement;
    if req.status == Status::Coherent {
        Seq::empty()
    } else if req.count > req.components.len() {
        seq![
            (
                Action::Addition((req.count - req.components.len()) as usize),
                ProblemInfoView {
                    location_key,
                    data_requirement_key: entry.key,
                    device_uuid: None,
                },
            ),
        ]
    } else {
        component_problems(memory, location_key, entry.key, req.components)
    }
}

/// The problems of the first `n` data requirements of a leaf, in their order.
pub open spec fn leaf_problems(
    memory: Map<ProblemInfoView, Action>,
    location_key: Seq<char>,
    requirements: Seq<KeyedRequirementView>,
    n: nat,
) -> Seq<(Action, ProblemInfoView)>
    decreases n,
{
    if n == 0 {
        Seq::empty()
    } else {
        leaf_problems(memory, location_key, requirements, (n - 1) as nat) + requirement_problems(
            memory,
            location_key,
            requirements[n - 1],
        )
    }
}

/// The problems of a location known to its parent as `location_key`. A leaf
/// reports on its data requirements, an internal node on its children, depth
/// first, and a node that is neither reports nothing.
pub open spec fn problems(
    memory: Map<ProblemInfoView, Action>,
    location_key: Seq<char>,
    location: LocationView,
) -> Seq<(Action, ProblemInfoView)>
    decreases location, location.locations.len() + 1,
{
    if location.is_leaf() {
        leaf_problems(
            memory,
            location_key,
            location.data_requirements,
            location.data_requirements.len(),
        )
    } else if location.is_internal() {
        children_problems(memory, location, location.locations.len())
    } else {
        Seq::empty()
    }
}

/// The problems of the first `n` children of `parent`, in their order, each
/// child under its own key.
pub open spec fn children_problems(
    memory: Map<ProblemInfoView, Action>,
    parent: LocationView,
    n: nat,
) -> Seq<(Action, ProblemInfoView)>
    decreases parent, n,
{
    if n == 0 || n > parent.locations.len() {
        Seq::empty()
    } else {
        children_problems(memory, parent, (n - 1) as nat) + problems(
            memory,
            parent.locations[n - 1].key,
            parent.locations[n - 1].location,
        )
    }
}

/// The classifier is a function: on equal keys, equal topologies and equal
/// memories it reports the same problems.
pub proof fn law_classifier_is_pure(
    memory: Map<ProblemInfoView, Action>,
    other_memory: Map<ProblemInfoView, Action>,
    location_key: Seq<char>,
    other_key: Seq<char>,
    location: Location,
    other: Location,
)
    requires
        memory == other_memory,
        location_key == other_key,
        location@ == other@,
    ensures
        problems(memory, location_key, location@) == problems(other_memory, other_key, other@),
{
}

/// Under-provisioning. A data requirement that is not coherent and has
/// fewer components than it wants is exactly one problem: to add the
/// components that are missing, on no device in particular. That is all it
/// adds to the report of its leaf.
pub proof fn law_under_provisioning(
    memory: Map<ProblemInfoView, Action>,
    location_key: Seq<char>,
    requirements: Seq<KeyedRequirementView>,
    k: int,
)
    requires
        0 <= k < requirements.len(),
        requirements[k].requirement.status != Status::Coherent,
        requirements[k].requirement.components.len() < requirements[k].requirement.count,
        requirements[k].requirement.count <= usize::MAX,
    ensures
        ({
            let wanted = requirements[k].requirement.count;
            let have = requirements[k].requirement.components.len();
            let addition = (
                Action::Addition((wanted - have) as usize),
                ProblemInfoView {
                    location_key,
                    data_requirement_key: requirements[k].key,
                    device_uuid: None,
                },
            );
            &&& (wanted - have) as usize == wanted - have
            &&& requirement_problems(memory, location_key, requirements[k]) == seq![addition]
            &&& leaf_problems(memory, location_key, requirements, (k + 1) as nat) == leaf_problems(
                memory,
                location_key,
                requirements,
                k as nat,
            ).push(addition)
        }),
{
    let earlier = leaf_problems(memory, location_key, requirements, k as nat);
    let own = requirement_problems(memory, location_key, requirements[k]);
    assert(earlier + own =~= earlier.push(own[0]));
}

/// The escalation ladder. A problem about a component that is present but
/// unhealthy, met in three cycles in a row by a planner that had not seen it
/// before, is answered by a restart, then by a reconfiguration, then by the
/// addition of one component on no device in particular.
pub proof fn law_escalation_ladder(memory: Map<ProblemInfoView, Action>, p: ProblemInfoView)
    requires
        !memory.contains_key(p),
    ensures
        ({
            let first = escalate(memory, p);
            let after_first = remembered(memory, first.0, first.1);
            let second = escalate(after_first, p);
            let after_second = remembered(after_first, second.0, second.1);
            let third = escalate(after_second, p);
            &&& first == (Action::Restart, p)
            &&& second == (Action::Reconfigure, p)
            &&& third == (Action::Addition(1), p.without_device())
        }),
{
}

/// The ladder in the classifier. In a data requirement that is not coherent
/// and has as many components as it wants, or more, every component is
/// answered by the rung of the ladder that the memory calls for: a restart
/// where the memory holds nothing for it, a reconfiguration where it holds a
/// restart, and else the addition of one component.
pub proof fn law_escalation_in_requirement(
    memory: Map<ProblemInfoView, Action>,
    location_key: Seq<char>,
    entry: KeyedRequirementView,
    i: int,
)
    requires
        entry.requirement.status != Status::Coherent,
        entry.requirement.count <= entry.requirement.components.len(),
        0 <= i < entry.requirement.components.len(),
    ensures
        ({
            let p = ProblemInfoView {
                location_key,
                data_requirement_key: entry.key,
                device_uuid: entry.requirement.components[i].uuid,
            };
            let found = requirement_problems(memory, location_key, entry);
            &&& found.len() == entry.requirement.components.len()
            &&& !memory.contains_key(p) ==> found[i] == (Action::Restart, p)
            &&& memory.contains_key(p) && memory[p] == Action::Restart ==> found[i] == (
                Action::Reconfigure,
                p,
            )
            &&& memory.contains_key(p) && memory[p] != Action::Restart ==> found[i] == (
                Action::Addition(1),
                p.without_device(),
            )
        }),
{
}

/// Every addition that the classifier calls for is of one component or more.
pub proof fn law_additions_are_positive(
    memory: Map<ProblemInfoView, Action>,
    location_key: Seq<char>,
    entry: KeyedRequirementView,
    i: int,
)
    requires
        entry.requirement.count <= usize::MAX,
        0 <= i < requirement_problems(memory, location_key, entry).len(),
    ensures
        match requirement_problems(memory, location_key, entry)[i].0 {
            Action::Addition(n) => n >= 1,
            _ => true,
        },
{
}

/// Cycles do not overlap. While the planner awaits the register or has
/// orders left to post, the end of a sleep begins nothing.
pub proof fn law_cycles_do_not_overlap(state: PlannerView, next: PlannerView)
    requires
        state.phase != Phase::Waiting,
        state.steps_to(EventView::Elapsed, next),
    ensures
        next == state,
{
}

/// Applications at rest are left alone. Where no application of a register
/// needs reconciliation, a cycle plans no order and remembers nothing new,
/// whatever the topologies and the directives.
pub proof fn law_coherent_register_is_left_alone(
    register: RegisterView,
    memory: Map<ProblemInfoView, Action>,
)
    requires
        register.at_rest(),
    ensures
        register.snapshot_noncoherent_apps() == Seq::<ApplicationView>::empty(),
        cycle_plan(register, memory) == (Seq::<StepView>::empty(), memory),
{
    lemma_none_needs_reconciliation(register, register.order.len());
}

proof fn lemma_none_needs_reconciliation(register: RegisterView, n: nat)
    requires
        n <= register.order.len(),
        register.at_rest(),
    ensures
        register.noncoherent_among(n) == Seq::<ApplicationView>::empty(),
    decreases n,
{
    if n > 0 {
        lemma_none_needs_reconciliation(register, (n - 1) as nat);
    }
}

/// Cycle isolation. An order that does not reach the executor is dealt with
/// as one that does: the planner moves on to the order behind it, and posts
/// that one next, at the endpoint of its kind.
pub proof fn law_cycle_isolation(
    state: PlannerView,
    after_delivery: PlannerView,
    after_failure: PlannerView,
)
    requires
        state.valid(),
        state.phase == Phase::Dispatching,
        state.steps_to(EventView::Delivered, after_delivery),
        state.steps_to(EventView::Failed, after_failure),
    ensures
        after_failure == after_delivery,
        after_failure.valid(),
        after_failure.memory == state.memory,
        state.queue.len() >= 2 ==> after_failure.next_command() == (CommandView::Post {
            url: state.target + endpoint_of(state.queue[1].kind()),
            order: state.queue[1],
        }),
        state.queue.len() == 1 ==> after_failure.next_command() == CommandView::Sleep(
            state.interval,
        ),
{
}

/// The key under which the root of an application's topology is examined:
/// `root`.
pub open spec fn root_key() -> Seq<char> {
    seq!['r', 'o', 'o', 't']
}

/// One order of a cycle, before it is made ready for dispatch. A restart or
/// a reconfiguration is ready as it stands; an addition is the template and
/// the problem to build it against, since every build makes up a device
/// identity of its own.
pub enum StepView {
    Add { template: AdditionOrderView, problem: ProblemInfoView },
    Restart(RestartOrderView),
    Reconfigure(ReconfigureOrderView),
}

/// `order` is `template` built against `problem`, for some device identity.
pub open spec fn built_from(
    template: AdditionOrderView,
    problem: ProblemInfoView,
    order: OrderView,
) -> bool {
    exists|uuid: Seq<char>|
        is_v4_uuid_text(uuid) && order == OrderView::Addition(
            #[trigger] built(template, problem, uuid),
        )
}

/// `order` is `step` made ready for dispatch.
pub open spec fn realized(step: StepView, order: OrderView) -> bool {
    match step {
        StepView::Add { template, problem } => built_from(template, problem, order),
        StepView::Restart(o) => order == OrderView::Restart(o),
        StepView::Reconfigure(o) => order == OrderView::Reconfigure(o),
    }
}

/// `orders` are `steps` made ready for dispatch, one for one.
pub open spec fn realizes(steps: Seq<StepView>, orders: Seq<OrderView>) -> bool {
    steps.len() == orders.len() && forall|i: int|
        0 <= i < steps.len() ==> realized(#[trigger] steps[i], orders[i])
}

/// The record of directives of the location `location`, empty where the
/// table has none.
pub open spec fn record_at(
    table: Map<Seq<char>, DirectivesView>,
    location: Seq<char>,
) -> DirectivesView {
    if table.contains_key(location) {
        table[location]
    } else {
        DirectivesView::empty()
    }
}

/// The orders that one problem leads to, given the directives of its
/// application. An addition of `n` gives `n` copies of the location's
/// addition template, none where the template's data key is ambiguous. A
/// restart or a reconfiguration gives the location's template of that kind,
/// aimed at the problem's device. A kind without a template gives nothing.
pub open spec fn problem_steps(
    table: Map<Seq<char>, DirectivesView>,
    action: Action,
    p: ProblemInfoView,
) -> Seq<StepView> {
    let record = record_at(table, p.location_key);
    match action {
        Action::Addition(n) => match record.addition {
            Some(template) => if ambiguous_datakey(template.args) {
                Seq::empty()
            } else {
                Seq::new(n as nat, |i: int| StepView::Add { template, problem: p })
            },
            None => Seq::empty(),
        },
        Action::Reconfigure => match record.reconfig {
            Some(template) => seq![
                StepView::Reconfigure(ReconfigureOrderView { uuid: p.device_uuid, ..template }),
            ],
            None => Seq::empty(),
        },
        Action::Restart => match record.restart {
            Some(template) => seq![
                StepView::Restart(RestartOrderView { uuid: p.device_uuid, ..template }),
            ],
            None => Seq::empty(),
        },
    }
}

/// What the planner remembers after it has handled one problem: a restart
/// or a reconfiguration is remembered, an addition is not.
pub open spec fn remembered(
    memory: Map<ProblemInfoView, Action>,
    action: Action,
    p: ProblemInfoView,
) -> Map<ProblemInfoView, Action> {
    match action {
        Action::Addition(_) => memory,
        Action::Reconfigure => memory.insert(p, Action::Reconfigure),
        Action::Restart => memory.insert(p, Action::Restart),
    }
}

/// The orders of the first `n` problems of one application, and what the
/// planner remembers after them.
pub open spec fn application_plan(
    table: Map<Seq<char>, DirectivesView>,
    found: Seq<(Action, ProblemInfoView)>,
    n: nat,
    memory: Map<ProblemInfoView, Action>,
) -> (Seq<StepView>, Map<ProblemInfoView, Action>)
    decreases n,
{
    if n == 0 {
        (Seq::empty(), memory)
    } else {
        let earlier = application_plan(table, found, (n - 1) as nat, memory);
        let (action, p) = found[n - 1];
        (earlier.0 + problem_steps(table, action, p), remembered(earlier.1, action, p))
    }
}

/// The orders of the first `n` applications of a snapshot, and what the
/// planner remembers after them. An application without directives is
/// passed over. Each of the others is classified from its root with what
/// the planner remembers when its turn comes.
pub open spec fn applications_plan(
    directives: Map<Seq<char>, Map<Seq<char>, DirectivesView>>,
    apps: Seq<ApplicationView>,
    n: nat,
    memory: Map<ProblemInfoView, Action>,
) -> (Seq<StepView>, Map<ProblemInfoView, Action>)
    decreases n,
{
    if n == 0 {
        (Seq::empty(), memory)
    } else {
        let earlier = applications_plan(directives, apps, (n - 1) as nat, memory);
        let app = apps[n - 1];
        if directives.contains_key(app.name) {
            let found = problems(earlier.1, root_key(), app.locations);
            let own = application_plan(directives[app.name], found, found.len(), earlier.1);
            (earlier.0 + own.0, own.1)
        } else {
            earlier
        }
    }
}

/// The orders of one reconciliation cycle over a register, and what the
/// planner remembers after it.
pub open spec fn cycle_plan(register: RegisterView, memory: Map<ProblemInfoView, Action>) -> (
    Seq<StepView>,
    Map<ProblemInfoView, Action>,
) {
    let apps = register.snapshot_noncoherent_apps();
    applications_plan(register.directives, apps, apps.len(), memory)
}

/// View of a list of orders.
pub open spec fn orders_view(v: Seq<Order>) -> Seq<OrderView> {
    Seq::new(v.len(), |i: int| v[i]@)
}

/// Where the reconciliation loop stands.
#[derive(Clone, Copy, Debug, PartialEq, Eq, Structural)]
pub enum Phase {
    /// Between two cycles.
    Waiting,
    /// A cycle has begun and awaits the register.
    Scanning,
    /// The orders of a cycle are being posted, one at a time.
    Dispatching,
}

/// Why an order did not reach the executor.
#[derive(Clone, Debug, PartialEq, Eq)]
pub enum Cause {
    /// The request could not be sent, or no response came.
    Transport(String),
    /// The executor answered with this status, which is not a success.
    Status(u16),
}

/// An order of kind `kind` did not reach the executor.
#[derive(Clone, Debug, PartialEq, Eq)]
pub struct DispatchFailed {
    pub kind: DirectiveKind,
    pub cause: Cause,
}

/// What the driver of the loop reports to the planner.
pub enum Event<'a> {
    /// The time to sleep is over.
    Elapsed,
    /// The register, as it stands now.
    Scanned(&'a ApplicationRegister),
    /// The order that was to be posted has reached the executor.
    Delivered,
    /// The order that was to be posted has not reached the executor.
    Failed(DispatchFailed),
}

/// The view of [`Event`]: the register as its view, and a failure without
/// its cause, which the planner does not look at.
pub enum EventView {
    Elapsed,
    Scanned(RegisterView),
    Delivered,
    Failed,
}

impl<'a> View for Event<'a> {
    type V = EventView;

    open spec fn view(&self) -> EventView {
        match self {
            Event::Elapsed => EventView::Elapsed,
            Event::Scanned(register) => EventView::Scanned(register@),
            Event::Delivered => EventView::Delivered,
            Event::Failed(_) => EventView::Failed,
        }
    }
}

/// What the planner asks of the driver of the loop.
#[derive(Debug, PartialEq, Eq)]
pub enum Command {
    /// Sleep this many seconds, then report `Elapsed`.
    Sleep(u64),
    /// Read the register and report it as `Scanned`.
    Scan,
    /// Post `order` to `url`, then report `Delivered` or `Failed`.
    Post { url: String, order: Order },
}

/// The view of [`Command`]: every string as its sequence of characters.
pub enum CommandView {
    Sleep(u64),
    Scan,
    Post { url: Seq<char>, order: OrderView },
}

impl View for Command {
    type V = CommandView;

    open spec fn view(&self) -> CommandView {
        match self {
            Command::Sleep(seconds) => CommandView::Sleep(*seconds),
            Command::Scan => CommandView::Scan,
            Command::Post { url, order } => CommandView::Post { url: url@, order: order@ },
        }
    }
}

/// The planner as mathematics.
pub struct PlannerView {
    /// The last action taken for each problem.
    pub memory: Map<ProblemInfoView, Action>,
    pub phase: Phase,
    /// The orders of the current cycle that are still to be posted.
    pub queue: Seq<OrderView>,
    /// Seconds between two cycles.
    pub interval: u64,
    /// Base address of the executor.
    pub target: Seq<char>,
}

/// Seconds to wait before the first cycle, where none are given.
pub const DEFAULT_DELAY: u64 = 0;

/// Seconds between two cycles, where none are given.
pub const DEFAULT_INTERVAL: u64 = 120;

/// Base address of the executor, where none is given.
pub open spec fn default_target() -> Seq<char> {
    "http://dothing:8050"@
}

impl PlannerView {
    /// The planner is posting orders exactly while some are left.
    pub open spec fn valid(self) -> bool {
        (self.phase == Phase::Dispatching) == (self.queue.len() > 0)
    }

    /// What the planner asks for in this state: to sleep while it waits, the
    /// register while it scans, and else the posting of its next order, at
    /// the endpoint of the order's kind.
    pub open spec fn next_command(self) -> CommandView {
        match self.phase {
            Phase::Waiting => CommandView::Sleep(self.interval),
            Phase::Scanning => CommandView::Scan,
            Phase::Dispatching => CommandView::Post {
                url: self.target + endpoint_of(self.queue[0].kind()),
                order: self.queue[0],
            },
        }
    }

    /// The state after the order at the head of the queue has been dealt
    /// with, whether or not it reached the executor.
    pub open spec fn after_dispatch(self) -> PlannerView {
        let rest = self.queue.drop_first();
        PlannerView {
            queue: rest,
            phase: if rest.len() > 0 {
                Phase::Dispatching
            } else {
                Phase::Waiting
            },
            ..self
        }
    }

    /// Whether `next` may follow this state on `event`. A sleep that ends
    /// begins a cycle. The register that arrives is planned upon: the orders
    /// of the cycle are queued and the planner posts them, or waits again
    /// where there are none. A posting that ends, well or badly, moves on to
    /// the next order. Any other event changes nothing.
    pub open spec fn steps_to(self, event: EventView, next: PlannerView) -> bool {
        match (self.phase, event) {
            (Phase::Waiting, EventView::Elapsed) => next == (PlannerView {
                phase: Phase::Scanning,
                ..self
            }),
            (Phase::Scanning, EventView::Scanned(register)) => {
                &&& next.memory == cycle_plan(register, self.memory).1
                &&& realizes(cycle_plan(register, self.memory).0, next.queue)
                &&& next.phase == if next.queue.len() > 0 {
                    Phase::Dispatching
                } else {
                    Phase::Waiting
                }
                &&& next.interval == self.interval
                &&& next.target == self.target
            },
            (Phase::Dispatching, EventView::Delivered) => next == self.after_dispatch(),
            (Phase::Dispatching, EventView::Failed) => next == self.after_dispatch(),
            _ => next == self,
        }
    }
}

/// Whether the executor's answer counts as success: a status from 200 to
/// 299 does, and nothing else.
pub fn judge_response(kind: DirectiveKind, response: Result<u16, String>) -> (r: Result<
    (),
    DispatchFailed,
>)
    ensures
        match response {
            Ok(status) => if 200 <= status && status <= 299 {
                r is Ok
            } else {
                r == Err::<(), DispatchFailed>(DispatchFailed { kind, cause: Cause::Status(status) })
            },
            Err(why) => r == Err::<(), DispatchFailed>(
                DispatchFailed { kind, cause: Cause::Transport(why) },
            ),
        },
{
    match response {
        Ok(status) => {
            if 200 <= status && status <= 299 {
                Ok(())
            } else {
                Err(DispatchFailed { kind, cause: Cause::Status(status) })
            }
        },
        Err(why) => Err(DispatchFailed { kind, cause: Cause::Transport(why) }),
    }
}

/// The planner: the remediation memory, and the state of the reconciliation
/// loop.
#[derive(Debug)]
pub struct Planner {
    problem_action: RemediationMemory,
    scanning: bool,
    queue: Vec<Order>,
    interval: u64,
    target: String,
}

impl View for Planner {
    type V = PlannerView;

    closed spec fn view(&self) -> PlannerView {
        PlannerView {
            memory: self.problem_action@,
            phase: if self.queue@.len() > 0 {
                Phase::Dispatching
            } else if self.scanning {
                Phase::Scanning
            } else {
                Phase::Waiting
            },
            queue: orders_view(self.queue@),
            interval: self.interval,
            target: self.target@,
        }
    }
}

impl Planner {
    /// What the planner remembers.
    pub open spec fn memory(&self) -> Map<ProblemInfoView, Action> {
        self@.memory
    }

    /// A planner that remembers nothing and waits for its first cycle.
    pub fn new() -> (r: Self)
        ensures
            r@ == (PlannerView {
                memory: Map::empty(),
                phase: Phase::Waiting,
                queue: Seq::empty(),
                interval: DEFAULT_INTERVAL,
                target: default_target(),
            }),
            r@.valid(),
    {
        let r = Planner {
            problem_action: RemediationMemory::new(),
            scanning: false,
            queue: Vec::new(),
            interval: DEFAULT_INTERVAL,
            target: String::from_str("http://dothing:8050"),
        };
        assert(r@.queue =~= Seq::empty());
        r
    }

    /// Every planner is in a valid state.
    pub proof fn lemma_valid(&self)
        ensures
            self@.valid(),
    {
        assert(orders_view(self.queue@).len() == self.queue@.len());
    }

    /// Starts the reconciliation loop: after `delay` seconds the first cycle
    /// begins, and `interval` seconds lie between two cycles. Orders go to
    /// the executor at `target`. What is not given takes its default. A
    /// cycle that was under way is given up; the memory stays.
    pub fn watch_over(
        &mut self,
        delay: Option<u64>,
        interval: Option<u64>,
        target: Option<String>,
    ) -> (command: Command)
        ensures
            command@ == CommandView::Sleep(
                match delay {
                    Some(seconds) => seconds,
                    None => DEFAULT_DELAY,
                },
            ),
            final(self)@ == (PlannerView {
                memory: old(self)@.memory,
                phase: Phase::Waiting,
                queue: Seq::empty(),
                interval: match interval {
                    Some(seconds) => seconds,
                    None => DEFAULT_INTERVAL,
                },
                target: match target {
                    Some(address) => address@,
                    None => default_target(),
                },
            }),
    {
        self.scanning = false;
        self.queue = Vec::new();
        self.interval = match interval {
            Some(seconds) => seconds,
            None => DEFAULT_INTERVAL,
        };
        self.target = match target {
            Some(address) => address,
            None => String::from_str("http://dothing:8050"),
        };
        assert(self@.queue =~= Seq::empty());
        Command::Sleep(
            match delay {
                Some(seconds) => seconds,
                None => DEFAULT_DELAY,
            },
        )
    }

    /// What the planner asks for in its present state.
    pub fn command(&self) -> (command: Command)
        ensures
            command@ == self@.next_command(),
    {
        if self.queue.len() > 0 {
            let order = self.queue[0].clone();
            let url = order.make_request(self.target.as_str());
            assert(self@.queue[0] == self.queue@[0]@);
            Command::Post { url, order }
        } else if self.scanning {
            Command::Scan
        } else {
            Command::Sleep(self.interval)
        }
    }

    /// Takes one event of the reconciliation loop, and answers with what to
    /// do next.
    pub fn step(&mut self, event: Event) -> (command: Command)
        ensures
            old(self)@.steps_to(event@, final(self)@),
            command@ == final(self)@.next_command(),
            final(self)@.valid(),
    {
        let ghost before = self@;
        proof {
            self.lemma_valid();
        }
        match event {
            Event::Elapsed => {
                if self.queue.len() == 0 && !self.scanning {
                    self.scanning = true;
                }
            },
            Event::Scanned(register) => {
                if self.queue.len() == 0 && self.scanning {
                    let orders = self.execute_actions(register);
                    self.queue = orders;
                    self.scanning = false;
                }
            },
            Event::Delivered => {
                if self.queue.len() > 0 {
                    self.queue.remove(0);
                    self.scanning = false;
                    assert(self@.queue =~= before.queue.drop_first());
                }
            },
            Event::Failed(_) => {
                if self.queue.len() > 0 {
                    self.queue.remove(0);
                    self.scanning = false;
                    assert(self@.queue =~= before.queue.drop_first());
                }
            },
        }
        proof {
            self.lemma_valid();
        }
        self.command()
    }

    /// The last action taken for `problem`, if any was.
    pub fn recall(&self, problem: &ProblemInfo) -> (r: Option<Action>)
        ensures
            r == (if self.memory().contains_key(problem@) {
                Some(self.memory()[problem@])
            } else {
                None
            }),
    {
        self.problem_action.get(problem)
    }

    /// Remembers `action` as the last one taken for `problem`.
    pub fn record(&mut self, problem: ProblemInfo, action: Action)
        ensures
            final(self)@ == (PlannerView {
                memory: old(self)@.memory.insert(problem@, action),
                ..old(self)@
            }),
    {
        self.problem_action.insert(problem, action);
    }

    fn requirement_problems(
        &self,
        location_key: &str,
        data_key: &str,
        requirement: &DataRequirement,
        report: &mut Vec<(Action, ProblemInfo)>,
    )
        ensures
            report_view(final(report)@) == report_view(old(report)@) + requirement_problems(
                self.memory(),
                location_key@,
                KeyedRequirementView { key: data_key@, requirement: requirement@ },
            ),
    {
        let ghost before = report_view(report@);
        let ghost entry = KeyedRequirementView { key: data_key@, requirement: requirement@ };
        if requirement.status.is_coherent() {
            assert(report_view(report@) =~= before + requirement_problems(
                self.memory(),
                location_key@,
                entry,
            ));
            return ;
        }
        let have = requirement.components.len();
        if requirement.count > have {
            let missing = requirement.count - have;
            let info = ProblemInfo::new(location_key, data_key, &None);
            report.push((Action::Addition(missing), info));
            assert(report_view(report@) =~= before + requirement_problems(
                self.memory(),
                location_key@,
                entry,
            ));
            return ;
        }
        let ghost wanted = component_problems(
            self.memory(),
            location_key@,
            data_key@,
            requirement@.components,
        );
        let mut i: usize = 0;
        while i < have
            invariant
                i <= have,
                have == requirement.components@.len(),
                wanted == component_problems(
                    self.memory(),
                    location_key@,
                    data_key@,
                    requirement@.components,
                ),
                report_view(report@) == before + wanted.subrange(0, i as int),
            decreases have - i,
        {
            let component = &requirement.components[i];
            let info = ProblemInfo::new(location_key, data_key, &component.uuid);
            let ghost p = info@;
            assert(requirement@.components[i as int].uuid == component.uuid);
            let ghost prev = report_view(report@);
            match self.problem_action.get(&info) {
                Some(Action::Restart) => {
                    report.push((Action::Reconfigure, info));
                },
                Some(_) => {
                    let general = ProblemInfo::new(location_key, data_key, &None);
                    report.push((Action::Addition(1), general));
                },
                None => {
                    report.push((Action::Restart, info));
                },
            }
            assert(report_view(report@) =~= prev.push(escalate(self.memory(), p)));
            assert(wanted.subrange(0, i + 1) =~= wanted.subrange(0, i as int).push(wanted[i as int]));
            assert(report_view(report@) =~= before + wanted.subrange(0, i + 1));
            i += 1;
        }
        assert(wanted.subrange(0, have as int) =~= wanted);
    }

    /// Adds to `orders` the orders that one problem leads to.
    fn problem_orders(
        table: &DirectiveTable,
        action: Action,
        p: &ProblemInfo,
        orders: &mut Vec<Order>,
        Ghost(steps): Ghost<Seq<StepView>>,
    )
        requires
            realizes(steps, orders_view(old(orders)@)),
        ensures
            realizes(
                steps + problem_steps(table_view(table@), action, p@),
                orders_view(final(orders)@),
            ),
    {
        let ghost wanted = problem_steps(table_view(table@), action, p@);
        let ghost before = orders_view(orders@);
        let record = match table.get(p.location_key.as_str()) {
            Some(record) => record,
            None => {
                assert(steps + wanted =~= steps);
                return ;
            },
        };
        assert(record_at(table_view(table@), p@.location_key) == record@);
        match action {
            Action::Addition(n) => {
                let template = match &record.addition {
                    Some(template) => template,
                    None => {
                        assert(steps + wanted =~= steps);
                        return ;
                    },
                };
                let ghost step = StepView::Add { template: template@, problem: p@ };
                let mut i: usize = 0;
                let ghost mut made: Seq<StepView> = steps;
                while i < n
                    invariant
                        i <= n,
                        made == steps + (if ambiguous_datakey(template@.args) {
                            Seq::<StepView>::empty()
                        } else {
                            Seq::new(i as nat, |k: int| step)
                        }),
                        step == (StepView::Add { template: template@, problem: p@ }),
                        realizes(made, orders_view(orders@)),
                    decreases n - i,
                {
                    let mut order = template.clone();
                    let ghost prev = orders_view(orders@);
                    let outcome = order.build_order(p);
                    match outcome {
                        Ok(()) => {
                            let ghost uuid = choose|uuid: Seq<char>|
                                is_v4_uuid_text(uuid) && #[trigger] build_outcome(
                                    template@,
                                    p@,
                                    uuid,
                                    order@,
                                    outcome,
                                );
                            orders.push(Order::Addition(order));
                            proof {
                                assert(orders_view(orders@) =~= prev.push(
                                    OrderView::Addition(built(template@, p@, uuid)),
                                ));
                                assert(built_from(template@, p@, orders_view(orders@).last()));
                                assert(Seq::new((i + 1) as nat, |k: int| step) =~= Seq::new(
                                    i as nat,
                                    |k: int| step,
                                ).push(step));
                                made = made.push(step);
                                assert(made =~= steps + Seq::new((i + 1) as nat, |k: int| step));
                            }
                        },
                        Err(_) => {},
                    }
                    i += 1;
                }
                assert(made == steps + wanted);
            },
            Action::Reconfigure => {
                match &record.reconfig {
                    Some(template) => {
                        let mut order = template.clone();
                        order.uuid = p.device_uuid;
                        orders.push(Order::Reconfigure(order));
                        assert(orders_view(orders@) =~= before.push(OrderView::Reconfigure(order@)));
                        assert(wanted =~= seq![StepView::Reconfigure(order@)]);
                        assert(steps + wanted =~= steps.push(StepView::Reconfigure(order@)));
                    },
                    None => {
                        assert(steps + wanted =~= steps);
                    },
                }
            },
            Action::Restart => {
                match &record.restart {
                    Some(template) => {
                        let mut order = template.clone();
                        order.uuid = p.device_uuid;
                        orders.push(Order::Restart(order));
                        assert(orders_view(orders@) =~= before.push(OrderView::Restart(order@)));
                        assert(wanted =~= seq![StepView::Restart(order@)]);
                        assert(steps + wanted =~= steps.push(StepView::Restart(order@)));
                    },
                    None => {
                        assert(steps + wanted =~= steps);
                    },
                }
            },
        }
    }

    /// Plans one reconciliation cycle over `register`: classifies every
    /// application that needs reconciliation and has directives, makes the
    /// orders that its problems call for, in the order in which the problems
    /// were found, and remembers the restarts and reconfigurations.
    pub fn execute_actions(&mut self, register: &ApplicationRegister) -> (orders: Vec<Order>)
        ensures
            final(self)@ == (PlannerView {
                memory: cycle_plan(register@, old(self)@.memory).1,
                ..old(self)@
            }),
            realizes(cycle_plan(register@, old(self)@.memory).0, orders_view(orders@)),
    {
        proof {
            reveal_strlit("root");
            assert("root"@ =~= root_key());
        }
        let ghost start = self.memory();
        let applications = register.snapshot_noncoherent_apps();
        let ghost apps = register@.snapshot_noncoherent_apps();
        let mut orders: Vec<Order> = Vec::new();
        let ghost mut steps: Seq<StepView> = Seq::empty();
        let mut a: usize = 0;
        while a < applications.len()
            invariant
                a <= applications@.len(),
                applications_view(applications@) == apps,
                "root"@ == root_key(),
                applications_plan(register@.directives, apps, a as nat, start) == (
                    steps,
                    self.memory(),
                ),
                self@ == (PlannerView { memory: self.memory(), ..old(self)@ }),
                realizes(steps, orders_view(orders@)),
            decreases applications@.len() - a,
        {
            let app = &applications[a];
            assert(apps[a as int] == app@);
            match register.get_directives_for(app.name.as_str()) {
                None => {},
                Some(table) => {
                    let found = self.find_problems("root", &app.locations);
                    let ghost report = report_view(found@);
                    let ghost turn = self.memory();
                    let ghost base = steps;
                    let mut i: usize = 0;
                    assert(steps =~= base + Seq::<StepView>::empty());
                    while i < found.len()
                        invariant
                            i <= found@.len(),
                            report == report_view(found@),
                            application_plan(table_view(table@), report, i as nat, turn).1
                                == self.memory(),
                            self@ == (PlannerView { memory: self.memory(), ..old(self)@ }),
                            steps == base + application_plan(
                                table_view(table@),
                                report,
                                i as nat,
                                turn,
                            ).0,
                            realizes(steps, orders_view(orders@)),
                        decreases found@.len() - i,
                    {
                        let action = found[i].0;
                        let p = &found[i].1;
                        assert(report[i as int] == (action, p@));
                        Self::problem_orders(table, action, p, &mut orders, Ghost(steps));
                        proof {
                            let own = application_plan(table_view(table@), report, i as nat, turn).0;
                            let more = problem_steps(table_view(table@), action, p@);
                            assert(base + own + more =~= base + (own + more));
                            steps = steps + more;
                        }
                        match action {
                            Action::Addition(_) => {},
                            Action::Reconfigure => {
                                self.problem_action.insert(p.clone(), Action::Reconfigure);
                            },
                            Action::Restart => {
                                self.problem_action.insert(p.clone(), Action::Restart);
                            },
                        }
                        i += 1;
                    }
                },
            }
            a += 1;
        }
        orders
    }

    /// The problems of `location`, known to its parent as `location_key`,
    /// each with the action that the remediation memory calls for.
    pub fn find_problems(&self, location_key: &str, location: &Location) -> (report: Vec<
        (Action, ProblemInfo),
    >)
        ensures
            report_view(report@) == problems(self.memory(), location_key@, location@),
        decreases location,
    {
        let mut report: Vec<(Action, ProblemInfo)> = Vec::new();
        assert(report_view(report@) =~= Seq::empty());
        if location.locations.is_empty() {
            if location.data_requirements.is_empty() {
                return report;
            }
            let n = location.data_requirements.len();
            let mut i: usize = 0;
            while i < n
                invariant
                    i <= n,
                    n == location.data_requirements@.len(),
                    report_view(report@) == leaf_problems(
                        self.memory(),
                        location_key@,
                        location@.data_requirements,
                        i as nat,
                    ),
                decreases n - i,
            {
                let entry = &location.data_requirements[i];
                assert(location@.data_requirements[i as int] == entry@);
                self.requirement_problems(
                    location_key,
                    entry.key.as_str(),
                    &entry.requirement,
                    &mut report,
                );
                i += 1;
            }
        } else if location.data_requirements.is_empty() {
            let n = location.locations.len();
            let mut i: usize = 0;
            while i < n
                invariant
                    i <= n,
                    n == location.locations@.len(),
                    report_view(report@) == children_problems(
                        self.memory(),
                        location@,
                        i as nat,
                    ),
                decreases n - i,
            {
                let child = &location.locations[i];
                assert(location@.locations[i as int] == child@);
                let ghost prev = report_view(report@);
                let mut found = self.find_problems(child.key.as_str(), &child.location);
                let ghost added = report_view(found@);
                report.append(&mut found);
                assert(report_view(report@) =~= prev + added);
                i += 1;
            }
        }
        report
    }
}

} // verus!
