//! The application register.

use vstd::prelude::*;
use crate::keyed::distinct;
use crate::orders::{DirectiveKind, Directives, DirectivesView, Order, OrderView};
use crate::text::same_text;
use crate::text_map::TextMap;
use crate::topology::{Application, ApplicationView, Location};

verus! {

/// Why the register refused an operation.
#[derive(Clone, Copy, Debug, PartialEq, Eq, Structural)]
pub enum RegisterError {
    /// An objective was registered under a name that is taken.
    AlreadyRegistered,
    /// A state was reported for an application that is not registered.
    NotRegistered,
    /// Nothing is stored under the name that was asked for.
    NotFound,
    /// A directive was posted for an application that is not registered.
    AppNotFound,
    /// A directive was posted for a location that is no direct child of the
    /// application's root.
    LocationNotFound,
}

/// Whether a directive went to a location that had none, or to one that had.
#[derive(Clone, Copy, Debug, PartialEq, Eq, Structural)]
pub enum Upsert {
    Created,
    Updated,
}

/// The directives of one application, by location key.
pub type DirectiveTable = TextMap<Directives>;

/// The register: the applications by name, and the directives posted for
/// them by application name and location key. The two need not name the
/// same applications.
pub struct ApplicationRegister {
    pub apps: TextMap<Application>,
    pub directives: TextMap<DirectiveTable>,
}

/// View of the applications of a register.
pub open spec fn apps_view(m: Map<Seq<char>, Application>) -> Map<Seq<char>, ApplicationView> {
    Map::new(|k: Seq<char>| m.contains_key(k), |k: Seq<char>| m[k]@)
}

/// View of the directives of one application.
pub open spec fn table_view(m: Map<Seq<char>, Directives>) -> Map<Seq<char>, DirectivesView> {
    Map::new(|k: Seq<char>| m.contains_key(k), |k: Seq<char>| m[k]@)
}

/// View of the directives of a register.
pub open spec fn directives_view(m: Map<Seq<char>, DirectiveTable>) -> Map<
    Seq<char>,
    Map<Seq<char>, DirectivesView>,
> {
    Map::new(|k: Seq<char>| m.contains_key(k), |k: Seq<char>| table_view(m[k]@))
}

/// The register as mathematics: the names in the order in which they were
/// registered, the application under each, and the directives.
pub struct RegisterView {
    pub order: Seq<Seq<char>>,
    pub apps: Map<Seq<char>, ApplicationView>,
    pub directives: Map<Seq<char>, Map<Seq<char>, DirectivesView>>,
}

impl View for ApplicationRegister {
    type V = RegisterView;

    open spec fn view(&self) -> RegisterView {
        RegisterView {
            order: self.apps.keys(),
            apps: apps_view(self.apps@),
            directives: directives_view(self.directives@),
        }
    }
}

impl RegisterView {
    /// The register with nothing in it.
    pub open spec fn empty() -> RegisterView {
        RegisterView { order: Seq::empty(), apps: Map::empty(), directives: Map::empty() }
    }

    /// Registering the objective `app` under `name`: refused where the name
    /// is taken, and else stored.
    pub open spec fn register_objective(self, name: Seq<char>, app: ApplicationView) -> (
        RegisterView,
        Result<(), RegisterError>,
    ) {
        if self.apps.contains_key(name) {
            (self, Err(RegisterError::AlreadyRegistered))
        } else {
            (
                RegisterView {
                    order: self.order.push(name),
                    apps: self.apps.insert(name, app),
                    ..self
                },
                Ok(()),
            )
        }
    }

    /// Reporting the state `app` of the application `name`: refused where
    /// the name is not registered, and else stored in place of what was.
    pub open spec fn update_objective(self, name: Seq<char>, app: ApplicationView) -> (
        RegisterView,
        Result<(), RegisterError>,
    ) {
        if self.apps.contains_key(name) {
            (RegisterView { apps: self.apps.insert(name, app), ..self }, Ok(()))
        } else {
            (self, Err(RegisterError::NotRegistered))
        }
    }

    /// Storing `app` under `name`, whether or not the name is taken.
    pub open spec fn put_application(self, name: Seq<char>, app: ApplicationView) -> RegisterView {
        if self.apps.contains_key(name) {
            RegisterView { apps: self.apps.insert(name, app), ..self }
        } else {
            RegisterView {
                order: self.order.push(name),
                apps: self.apps.insert(name, app),
                ..self
            }
        }
    }

    /// The application stored under `name`.
    pub open spec fn get_application(self, name: Seq<char>) -> Result<
        ApplicationView,
        RegisterError,
    > {
        if self.apps.contains_key(name) {
            Ok(self.apps[name])
        } else {
            Err(RegisterError::NotFound)
        }
    }

    /// The directives posted for the application `name`.
    pub open spec fn get_directives(self, name: Seq<char>) -> Result<
        Map<Seq<char>, DirectivesView>,
        RegisterError,
    > {
        if self.directives.contains_key(name) {
            Ok(self.directives[name])
        } else {
            Err(RegisterError::NotFound)
        }
    }

    /// The directives of `name`, none where none was posted.
    pub open spec fn table(self, name: Seq<char>) -> Map<Seq<char>, DirectivesView> {
        if self.directives.contains_key(name) {
            self.directives[name]
        } else {
            Map::empty()
        }
    }

    /// The record of the location `location` of `name`, empty where the
    /// location has none.
    pub open spec fn record(self, name: Seq<char>, location: Seq<char>) -> DirectivesView {
        if self.table(name).contains_key(location) {
            self.table(name)[location]
        } else {
            DirectivesView::empty()
        }
    }

    /// Posting `order` as a directive for the location `location` of the
    /// application `name`. The application must be registered and the
    /// location a direct child of its root. The order then goes to the slot
    /// of its kind in the location's record, which is made if there is
    /// none; the other slots keep what they hold.
    pub open spec fn upsert_directive(
        self,
        name: Seq<char>,
        location: Seq<char>,
        order: OrderView,
    ) -> (RegisterView, Result<Upsert, RegisterError>) {
        if !self.apps.contains_key(name) {
            (self, Err(RegisterError::AppNotFound))
        } else if !self.apps[name].locations.has_child(location) {
            (self, Err(RegisterError::LocationNotFound))
        } else {
            (
                RegisterView {
                    directives: self.directives.insert(
                        name,
                        self.table(name).insert(location, self.record(name, location).with(order)),
                    ),
                    ..self
                },
                Ok(
                    if self.table(name).contains_key(location) {
                        Upsert::Updated
                    } else {
                        Upsert::Created
                    },
                ),
            )
        }
    }

    /// Of the first `n` applications in the order of registration, those
    /// that need reconciliation.
    pub open spec fn noncoherent_among(self, n: nat) -> Seq<ApplicationView>
        decreases n,
    {
        if n == 0 {
            Seq::empty()
        } else {
            let earlier = self.noncoherent_among((n - 1) as nat);
            let app = self.apps[self.order[n - 1]];
            if app.status.needs_reconciliation() {
                earlier.push(app)
            } else {
                earlier
            }
        }
    }

    /// The order of registration names every application, and each once.
    pub open spec fn well_formed(self) -> bool {
        &&& distinct(self.order)
        &&& forall|name: Seq<char>| self.apps.contains_key(name) <==> self.order.contains(name)
    }

    /// No application needs reconciliation.
    pub open spec fn at_rest(self) -> bool {
        forall|i: int|
            0 <= i < self.order.len() ==> !self.apps[#[trigger] self.order[i]].status.needs_reconciliation()
    }

    /// The applications that need reconciliation, in the order of
    /// registration.
    pub open spec fn snapshot_noncoherent_apps(self) -> Seq<ApplicationView> {
        self.noncoherent_among(self.order.len())
    }
}

impl DirectivesView {
    /// What the slot of a kind holds.
    pub open spec fn slot(self, kind: DirectiveKind) -> Option<OrderView> {
        match kind {
            DirectiveKind::Addition => match self.addition {
                Some(o) => Some(OrderView::Addition(o)),
                None => None,
            },
            DirectiveKind::Reconfig => match self.reconfig {
                Some(o) => Some(OrderView::Reconfigure(o)),
                None => None,
            },
            DirectiveKind::Restart => match self.restart {
                Some(o) => Some(OrderView::Restart(o)),
                None => None,
            },
        }
    }
}

impl RegisterView {
    /// The register after the first `n` of `orders` have been posted, one
    /// after the other, as directives for the location `location` of `name`.
    pub open spec fn upsert_all(
        self,
        name: Seq<char>,
        location: Seq<char>,
        orders: Seq<OrderView>,
        n: nat,
    ) -> RegisterView
        decreases n,
    {
        if n == 0 {
            self
        } else {
            self.upsert_all(name, location, orders, (n - 1) as nat).upsert_directive(
                name,
                location,
                orders[n - 1],
            ).0
        }
    }
}

/// The last of the first `n` of `orders` that is of kind `kind`.
pub open spec fn last_of_kind(orders: Seq<OrderView>, kind: DirectiveKind, n: nat) -> Option<
    OrderView,
>
    decreases n,
{
    if n == 0 {
        None
    } else if orders[n - 1].kind() == kind {
        Some(orders[n - 1])
    } else {
        last_of_kind(orders, kind, (n - 1) as nat)
    }
}

/// A name can be taken once. Registering an objective a second time under
/// the same name is refused and changes nothing; and where the first
/// registration was accepted, the application it stored is still the one
/// stored.
pub proof fn law_registration_is_idempotent(
    register: RegisterView,
    name: Seq<char>,
    app: ApplicationView,
)
    ensures
        ({
            let first = register.register_objective(name, app);
            let second = first.0.register_objective(name, app);
            &&& second.1 == Err::<(), RegisterError>(RegisterError::AlreadyRegistered)
            &&& second.0 == first.0
            &&& first.1 is Ok ==> second.0.get_application(name) == Ok::<
                ApplicationView,
                RegisterError,
            >(app)
        }),
{
}

/// An update replaces. After an application has been registered and its
/// state reported, the register holds the state that was reported.
pub proof fn law_update_replaces(
    register: RegisterView,
    name: Seq<char>,
    app: ApplicationView,
    state: ApplicationView,
)
    ensures
        ({
            let registered = register.register_objective(name, app).0;
            let updated = registered.update_objective(name, state);
            &&& updated.1 is Ok
            &&& updated.0.get_application(name) == Ok::<ApplicationView, RegisterError>(state)
        }),
{
}

/// The slots of a record are independent. After any number of directives
/// have been posted for one location of a registered application, in any
/// order, each slot holds the last order of its kind that was posted, or,
/// where none was, what it held before. Directives for an application that
/// is not registered, or for a location that is no direct child of its root,
/// change nothing.
pub proof fn law_slots_are_independent(
    register: RegisterView,
    name: Seq<char>,
    location: Seq<char>,
    orders: Seq<OrderView>,
    n: nat,
    kind: DirectiveKind,
)
    requires
        n <= orders.len(),
    ensures
        ({
            let after = register.upsert_all(name, location, orders, n);
            if register.apps.contains_key(name) && register.apps[name].locations.has_child(
                location,
            ) {
                &&& after.apps == register.apps
                &&& after.record(name, location).slot(kind) == match last_of_kind(
                    orders,
                    kind,
                    n,
                ) {
                    Some(order) => Some(order),
                    None => register.record(name, location).slot(kind),
                }
            } else {
                after == register
            }
        }),
    decreases n,
{
    if n > 0 {
        law_slots_are_independent(register, name, location, orders, (n - 1) as nat, kind);
    }
}

/// A snapshot is complete: it holds every registered application that needs
/// reconciliation.
pub proof fn law_snapshot_is_complete(register: RegisterView, name: Seq<char>)
    requires
        register.well_formed(),
        register.apps.contains_key(name),
        register.apps[name].status.needs_reconciliation(),
    ensures
        register.snapshot_noncoherent_apps().contains(register.apps[name]),
{
    assert(register.order.contains(name));
    let at = choose|i: int| 0 <= i < register.order.len() && register.order[i] == name;
    lemma_snapshot_holds(register, register.order.len(), at);
}

proof fn lemma_snapshot_holds(register: RegisterView, n: nat, at: int)
    requires
        0 <= at < n <= register.order.len(),
        register.apps[register.order[at]].status.needs_reconciliation(),
    ensures
        register.noncoherent_among(n).contains(register.apps[register.order[at]]),
    decreases n,
{
    let app = register.apps[register.order[at]];
    let earlier = register.noncoherent_among((n - 1) as nat);
    let all = register.noncoherent_among(n);
    if at == n - 1 {
        assert(all == earlier.push(app));
        assert(all[earlier.len() as int] == app);
    } else {
        lemma_snapshot_holds(register, (n - 1) as nat, at);
        let i = choose|i: int| 0 <= i < earlier.len() && earlier[i] == app;
        assert(all[i] == app);
    }
}

/// A snapshot has at most one entry for each registered application.
pub proof fn law_snapshot_is_no_longer_than_the_register(register: RegisterView, n: nat)
    requires
        n <= register.order.len(),
    ensures
        register.noncoherent_among(n).len() <= n,
    decreases n,
{
    if n > 0 {
        law_snapshot_is_no_longer_than_the_register(register, (n - 1) as nat);
    }
}

/// A snapshot holds no application that is coherent or uninitialized.
pub proof fn law_snapshot_needs_reconciliation(register: RegisterView, n: nat, i: int)
    requires
        0 <= i < register.noncoherent_among(n).len(),
    ensures
        register.noncoherent_among(n)[i].status.needs_reconciliation(),
    decreases n,
{
    if n > 0 {
        let earlier = register.noncoherent_among((n - 1) as nat);
        if i < earlier.len() {
            law_snapshot_needs_reconciliation(register, (n - 1) as nat, i);
        }
    }
}

/// View of a list of applications.
pub open spec fn applications_view(v: Seq<Application>) -> Seq<ApplicationView> {
    Seq::new(v.len(), |i: int| v[i]@)
}

/// Whether `key` names a direct child of `location`.
pub fn has_child(location: &Location, key: &str) -> (r: bool)
    ensures
        r == location@.has_child(key@),
{
    let mut i: usize = 0;
    while i < location.locations.len()
        invariant
            i <= location.locations@.len(),
            forall|j: int| 0 <= j < i ==> location@.locations[j].key != key@,
        decreases location.locations@.len() - i,
    {
        assert(location@.locations[i as int].key == location.locations@[i as int].key@);
        if same_text(location.locations[i].key.as_str(), key) {
            return true;
        }
        i += 1;
    }
    false
}

impl ApplicationRegister {
    /// The register with nothing in it.
    pub fn new() -> (r: Self)
        ensures
            r@ == RegisterView::empty(),
    {
        let r = ApplicationRegister { apps: TextMap::new(), directives: TextMap::new() };
        assert(r@.apps =~= Map::empty());
        assert(r@.directives =~= Map::empty());
        r
    }

    /// Registers the objective `app` under `name`, unless the name is taken.
    pub fn register_objective(&mut self, name: String, app: Application) -> (r: Result<
        (),
        RegisterError,
    >)
        ensures
            (final(self)@, r) == old(self)@.register_objective(name@, app@),
    {
        if self.apps.contains_key(name.as_str()) {
            return Err(RegisterError::AlreadyRegistered);
        }
        self.apps.insert(name, app);
        assert(self@.apps =~= old(self)@.apps.insert(name@, app@));
        Ok(())
    }

    /// Stores the reported state `app` of the application `name`, in place
    /// of what was stored, if the name is registered.
    pub fn update_objective(&mut self, name: String, app: Application) -> (r: Result<
        (),
        RegisterError,
    >)
        ensures
            (final(self)@, r) == old(self)@.update_objective(name@, app@),
    {
        if !self.apps.contains_key(name.as_str()) {
            return Err(RegisterError::NotRegistered);
        }
        self.apps.insert(name, app);
        assert(self@.apps =~= old(self)@.apps.insert(name@, app@));
        Ok(())
    }

    /// Stores `app` under `name`, whether or not the name is taken.
    pub fn put_application(&mut self, name: String, app: Application)
        ensures
            final(self)@ == old(self)@.put_application(name@, app@),
    {
        self.apps.insert(name, app);
        assert(self@.apps =~= old(self)@.apps.insert(name@, app@));
    }

    /// The application stored under `name`.
    pub fn get_application(&self, name: &str) -> (r: Result<&Application, RegisterError>)
        ensures
            match r {
                Ok(app) => self@.get_application(name@) == Ok::<ApplicationView, RegisterError>(
                    app@,
                ),
                Err(e) => self@.get_application(name@) == Err::<ApplicationView, RegisterError>(e),
            },
    {
        match self.apps.get(name) {
            Some(app) => Ok(app),
            None => Err(RegisterError::NotFound),
        }
    }

    /// The directives posted for the application `name`.
    pub fn get_directives(&self, name: &str) -> (r: Result<&DirectiveTable, RegisterError>)
        ensures
            match r {
                Ok(table) => self@.get_directives(name@) == Ok::<
                    Map<Seq<char>, DirectivesView>,
                    RegisterError,
                >(table_view(table@)),
                Err(e) => self@.get_directives(name@) == Err::<
                    Map<Seq<char>, DirectivesView>,
                    RegisterError,
                >(e),
            },
    {
        match self.directives.get(name) {
            Some(table) => Ok(table),
            None => Err(RegisterError::NotFound),
        }
    }

    /// The directives posted for the application `name`, for the planner:
    /// none is no error.
    pub fn get_directives_for(&self, name: &str) -> (r: Option<&DirectiveTable>)
        ensures
            match r {
                Some(table) => self@.directives.contains_key(name@) && self@.directives[name@]
                    == table_view(table@),
                None => !self@.directives.contains_key(name@),
            },
    {
        self.directives.get(name)
    }

    /// Posts `order` as a directive for the location `location` of the
    /// application `name`.
    pub fn upsert_directive(&mut self, name: &str, location: &str, order: Order) -> (r: Result<
        Upsert,
        RegisterError,
    >)
        ensures
            (final(self)@, r) == old(self)@.upsert_directive(name@, location@, order@),
    {
        let ghost before = self@;
        match self.apps.get(name) {
            None => {
                return Err(RegisterError::AppNotFound);
            },
            Some(app) => {
                if !has_child(&app.locations, location) {
                    return Err(RegisterError::LocationNotFound);
                }
            },
        }
        let at = match self.directives.position(name) {
            Some(at) => at,
            None => {
                self.directives.insert(name.to_owned(), TextMap::new());
                assert(table_view(Map::<Seq<char>, Directives>::empty()) =~= Map::empty());
                assert(self@.directives =~= before.directives.insert(name@, Map::empty()));
                match self.directives.position(name) {
                    Some(at) => at,
                    None => 0,
                }
            },
        };
        let ghost middle = self@;
        assert(middle.directives[name@] == before.table(name@));
        let mut table = self.directives.replace_at(at, TextMap::new());
        let ghost table_before = table_view(table@);
        assert(table_before == before.table(name@));
        let outcome = match table.position(location) {
            Some(slot) => {
                let mut record = table.replace_at(slot, Directives::new());
                record.assign(order);
                table.replace_at(slot, record);
                Upsert::Updated
            },
            None => {
                let mut record = Directives::new();
                record.assign(order);
                table.insert(location.to_owned(), record);
                Upsert::Created
            },
        };
        assert(table_view(table@) =~= table_before.insert(
            location@,
            before.record(name@, location@).with(order@),
        ));
        self.directives.replace_at(at, table);
        assert(self@.directives =~= before.directives.insert(
            name@,
            before.table(name@).insert(location@, before.record(name@, location@).with(order@)),
        ));
        Ok(outcome)
    }

    /// Copies of the applications that need reconciliation, in the order of
    /// registration.
    pub fn snapshot_noncoherent_apps(&self) -> (r: Vec<Application>)
        ensures
            applications_view(r@) == self@.snapshot_noncoherent_apps(),
            self@.well_formed(),
    {
        let mut out: Vec<Application> = Vec::new();
        let n = self.apps.len();
        let mut i: usize = 0;
        assert(applications_view(out@) =~= self@.noncoherent_among(0));
        while i < n
            invariant
                i <= n,
                n == self.apps.keys().len(),
                self.apps.well_formed(),
                applications_view(out@) == self@.noncoherent_among(i as nat),
            decreases n - i,
        {
            let app = self.apps.value_at(i);
            let ghost prev = applications_view(out@);
            assert(self@.apps[self@.order[i as int]] == app@);
            if app.status.needs_reconciliation() {
                out.push(app.clone());
                assert(applications_view(out@) =~= prev.push(app@));
            }
            i += 1;
        }
        out
    }
}

} // verus!
