//! The orders that the planner sends to the executor, and the directives
//! from which it makes them.

use vstd::prelude::*;
use crate::keyed::{first_index, is_first_index, lemma_first_index};

verus! {

/// A JSON value of `serde_json`. The library carries such values and never
/// looks inside one.
#[verifier::external_type_specification]
#[verifier::external_body]
pub struct ExJsonValue(serde_json::Value);

/// The JSON string value that holds `text`: what `serde_json::Value::from`
/// returns for a `String`.
pub uninterp spec fn json_string(text: Seq<char>) -> serde_json::Value;

/// `serde_json::Value::from(String)`, which wraps the string in
/// `Value::String`. The contract claims only that the result is determined
/// by the characters of the string.
#[verifier::external_body]
pub(crate) fn json_from_text(text: String) -> (v: serde_json::Value)
    ensures
        v == json_string(text@),
{
    serde_json::Value::from(text)
}

/// `Clone::clone` of `serde_json::Value`, which is derived: the copy is the
/// same JSON value.
pub assume_specification[ <serde_json::Value as Clone>::clone ](v: &serde_json::Value) -> (r:
    serde_json::Value)
    ensures
        r == *v,
;

/// View of a list of strings.
pub open spec fn texts_view(v: Seq<String>) -> Seq<Seq<char>> {
    Seq::new(v.len(), |i: int| v[i]@)
}

/// A copy of a list of strings.
pub fn clone_texts(v: &Vec<String>) -> (r: Vec<String>)
    ensures
        texts_view(r@) == texts_view(v@),
{
    let mut out: Vec<String> = Vec::new();
    let mut i: usize = 0;
    while i < v.len()
        invariant
            i <= v@.len(),
            out@.len() == i,
            forall|j: int| 0 <= j < i ==> (#[trigger] out@[j])@ == v@[j]@,
        decreases v@.len() - i,
    {
        out.push(v[i].clone());
        i += 1;
    }
    assert(texts_view(out@) =~= texts_view(v@));
    out
}

/// One environment variable of an addition order.
#[derive(Debug, PartialEq, Eq)]
pub struct EnvVar {
    pub key: String,
    pub value: serde_json::Value,
}

/// The view of [`EnvVar`]: every string as its sequence of characters.
pub struct EnvVarView {
    pub key: Seq<char>,
    pub value: serde_json::Value,
}

impl View for EnvVar {
    type V = EnvVarView;

    open spec fn view(&self) -> EnvVarView {
        EnvVarView { key: self.key@, value: self.value }
    }
}

impl Clone for EnvVar {
    fn clone(&self) -> (r: Self)
        ensures
            r@ == self@,
    {
        EnvVar { key: self.key.clone(), value: self.value.clone() }
    }
}

/// View of a list of environment variables.
pub open spec fn env_view(v: Seq<EnvVar>) -> Seq<EnvVarView> {
    Seq::new(v.len(), |i: int| v[i]@)
}

/// The keys of a list of environment variables.
pub open spec fn env_keys(vars: Seq<EnvVarView>) -> Seq<Seq<char>> {
    Seq::new(vars.len(), |i: int| vars[i].key)
}

/// The value of the variable `key`: that of the first entry under this key.
pub open spec fn env_lookup(vars: Seq<EnvVarView>, key: Seq<char>) -> Option<serde_json::Value> {
    if env_keys(vars).contains(key) {
        Some(vars[first_index(env_keys(vars), key)].value)
    } else {
        None
    }
}

/// The variables after `key` has been set to `value`: the first entry under
/// this key is replaced, and where there is none, one is added at the end.
pub open spec fn env_insert(
    vars: Seq<EnvVarView>,
    key: Seq<char>,
    value: serde_json::Value,
) -> Seq<EnvVarView> {
    if env_keys(vars).contains(key) {
        vars.update(first_index(env_keys(vars), key), EnvVarView { key, value })
    } else {
        vars.push(EnvVarView { key, value })
    }
}

/// An order to start one more component: the container image to run, with
/// its environment and arguments.
#[derive(Debug, PartialEq, Eq)]
pub struct AdditionOrder {
    pub image: String,
    pub network_name: String,
    /// Environment variables. The list stands for a map: the first entry
    /// under a key is the one that counts.
    pub env_vars: Vec<EnvVar>,
    pub args: Vec<String>,
}

/// The view of [`AdditionOrder`]: every string as its sequence of characters.
pub struct AdditionOrderView {
    pub image: Seq<char>,
    pub network_name: Seq<char>,
    pub env_vars: Seq<EnvVarView>,
    pub args: Seq<Seq<char>>,
}

impl View for AdditionOrder {
    type V = AdditionOrderView;

    open spec fn view(&self) -> AdditionOrderView {
        AdditionOrderView {
            image: self.image@,
            network_name: self.network_name@,
            env_vars: env_view(self.env_vars@),
            args: texts_view(self.args@),
        }
    }
}

impl Clone for AdditionOrder {
    fn clone(&self) -> (r: Self)
        ensures
            r@ == self@,
    {
        let mut env_vars: Vec<EnvVar> = Vec::new();
        let mut i: usize = 0;
        while i < self.env_vars.len()
            invariant
                i <= self.env_vars@.len(),
                env_vars@.len() == i,
                forall|j: int| 0 <= j < i ==> (#[trigger] env_vars@[j])@ == self.env_vars@[j]@,
            decreases self.env_vars@.len() - i,
        {
            env_vars.push(self.env_vars[i].clone());
            i += 1;
        }
        assert(env_view(env_vars@) =~= env_view(self.env_vars@));
        AdditionOrder {
            image: self.image.clone(),
            network_name: self.network_name.clone(),
            env_vars,
            args: clone_texts(&self.args),
        }
    }
}

impl AdditionOrder {
    pub fn new(image: &str, network_name: &str, env_vars: Vec<EnvVar>, args: Vec<String>) -> (r:
        Self)
        ensures
            r@ == (AdditionOrderView {
                image: image@,
                network_name: network_name@,
                env_vars: env_view(env_vars@),
                args: texts_view(args@),
            }),
    {
        AdditionOrder {
            image: image.to_owned(),
            network_name: network_name.to_owned(),
            env_vars,
            args,
        }
    }

    /// Sets the environment variable `key` to `value`.
    pub fn set_env(&mut self, key: String, value: serde_json::Value)
        ensures
            final(self)@ == (AdditionOrderView {
                env_vars: env_insert(old(self)@.env_vars, key@, value),
                ..old(self)@
            }),
    {
        let ghost before = env_view(self.env_vars@);
        let mut i: usize = 0;
        while i < self.env_vars.len()
            invariant
                i <= self.env_vars@.len(),
                *self == *old(self),
                before == env_view(self.env_vars@),
                forall|j: int| 0 <= j < i ==> self.env_vars@[j].key@ != key@,
            decreases self.env_vars@.len() - i,
        {
            if self.env_vars[i].key == key {
                proof {
                    assert(env_keys(before)[i as int] == key@);
                    assert(is_first_index(env_keys(before), key@, i as int));
                    lemma_first_index(env_keys(before), key@, i as int);
                }
                self.env_vars.set(i, EnvVar { key, value });
                assert(env_view(self.env_vars@) =~= env_insert(before, key@, value));
                return ;
            }
            i += 1;
        }
        proof {
            if env_keys(before).contains(key@) {
                let keys = env_keys(before);
                let w = choose|w: int| 0 <= w < keys.len() && keys[w] == key@;
                assert(self.env_vars@[w].key@ == key@);
            }
        }
        self.env_vars.push(EnvVar { key, value });
        assert(env_view(self.env_vars@) =~= env_insert(before, key@, value));
    }
}

/// How the executor reaches a component.
#[derive(Debug, PartialEq, Eq)]
pub enum QueryType {
    Http { endpoint: String, port: u16 },
}

/// The view of [`QueryType`]: every string as its sequence of characters.
pub enum QueryTypeView {
    Http { endpoint: Seq<char>, port: u16 },
}

impl View for QueryType {
    type V = QueryTypeView;

    open spec fn view(&self) -> QueryTypeView {
        match self {
            QueryType::Http { endpoint, port } => QueryTypeView::Http {
                endpoint: endpoint@,
                port: *port,
            },
        }
    }
}

impl Clone for QueryType {
    fn clone(&self) -> (r: Self)
        ensures
            r@ == self@,
    {
        match self {
            QueryType::Http { endpoint, port } => QueryType::Http {
                endpoint: endpoint.clone(),
                port: *port,
            },
        }
    }
}

/// What a reconfiguration sends to a component.
#[derive(Debug, PartialEq, Eq)]
pub enum ReconfigureType {
    Http { endpoint: String, port: u16, method: String, payload: serde_json::Value },
}

/// The view of [`ReconfigureType`]: every string as its sequence of characters.
pub enum ReconfigureTypeView {
    Http { endpoint: Seq<char>, port: u16, method: Seq<char>, payload: serde_json::Value },
}

impl View for ReconfigureType {
    type V = ReconfigureTypeView;

    open spec fn view(&self) -> ReconfigureTypeView {
        match self {
            ReconfigureType::Http { endpoint, port, method, payload } => ReconfigureTypeView::Http {
                endpoint: endpoint@,
                port: *port,
                method: method@,
                payload: *payload,
            },
        }
    }
}

impl Clone for ReconfigureType {
    fn clone(&self) -> (r: Self)
        ensures
            r@ == self@,
    {
        match self {
            ReconfigureType::Http { endpoint, port, method, payload } => ReconfigureType::Http {
                endpoint: endpoint.clone(),
                port: *port,
                method: method.clone(),
                payload: payload.clone(),
            },
        }
    }
}

/// An order to restart the component on one device.
#[derive(Debug, PartialEq, Eq)]
pub struct RestartOrder {
    pub uuid: Option<u128>,
    pub query_type: QueryType,
}

/// The view of [`RestartOrder`]: every string as its sequence of characters.
pub struct RestartOrderView {
    pub uuid: Option<u128>,
    pub query_type: QueryTypeView,
}

impl View for RestartOrder {
    type V = RestartOrderView;

    open spec fn view(&self) -> RestartOrderView {
        RestartOrderView { uuid: self.uuid, query_type: self.query_type@ }
    }
}

impl Clone for RestartOrder {
    fn clone(&self) -> (r: Self)
        ensures
            r@ == self@,
    {
        RestartOrder { uuid: self.uuid, query_type: self.query_type.clone() }
    }
}

impl RestartOrder {
    pub fn new(query_type: QueryType) -> (r: Self)
        ensures
            r@ == (RestartOrderView { uuid: None, query_type: query_type@ }),
    {
        RestartOrder { uuid: None, query_type }
    }
}

/// An order to reconfigure the component on one device.
#[derive(Debug, PartialEq, Eq)]
pub struct ReconfigureOrder {
    pub uuid: Option<u128>,
    pub network: String,
    pub query_type: QueryType,
    pub reconfig: ReconfigureType,
}

/// The view of [`ReconfigureOrder`]: every string as its sequence of characters.
pub struct ReconfigureOrderView {
    pub uuid: Option<u128>,
    pub network: Seq<char>,
    pub query_type: QueryTypeView,
    pub reconfig: ReconfigureTypeView,
}

impl View for ReconfigureOrder {
    type V = ReconfigureOrderView;

    open spec fn view(&self) -> ReconfigureOrderView {
        ReconfigureOrderView {
            uuid: self.uuid,
            network: self.network@,
            query_type: self.query_type@,
            reconfig: self.reconfig@,
        }
    }
}

impl Clone for ReconfigureOrder {
    fn clone(&self) -> (r: Self)
        ensures
            r@ == self@,
    {
        ReconfigureOrder {
            uuid: self.uuid,
            network: self.network.clone(),
            query_type: self.query_type.clone(),
            reconfig: self.reconfig.clone(),
        }
    }
}

impl ReconfigureOrder {
    pub fn new(network: &str, reconfig: ReconfigureType, query_type: QueryType) -> (r: Self)
        ensures
            r@ == (ReconfigureOrderView {
                uuid: None,
                network: network@,
                query_type: query_type@,
                reconfig: reconfig@,
            }),
    {
        ReconfigureOrder { uuid: None, network: network.to_owned(), query_type, reconfig }
    }
}

/// The kinds of directive that a location can hold.
#[derive(Clone, Copy, Debug, PartialEq, Eq, Structural)]
pub enum DirectiveKind {
    Addition,
    Reconfig,
    Restart,
}

/// The templated orders of one location: one optional slot per kind.
#[derive(Debug, PartialEq, Eq)]
pub struct Directives {
    pub addition: Option<AdditionOrder>,
    pub reconfig: Option<ReconfigureOrder>,
    pub restart: Option<RestartOrder>,
}

/// The view of [`Directives`]: every string as its sequence of characters.
pub struct DirectivesView {
    pub addition: Option<AdditionOrderView>,
    pub reconfig: Option<ReconfigureOrderView>,
    pub restart: Option<RestartOrderView>,
}

impl View for Directives {
    type V = DirectivesView;

    open spec fn view(&self) -> DirectivesView {
        DirectivesView {
            addition: match self.addition {
                Some(o) => Some(o@),
                None => None,
            },
            reconfig: match self.reconfig {
                Some(o) => Some(o@),
                None => None,
            },
            restart: match self.restart {
                Some(o) => Some(o@),
                None => None,
            },
        }
    }
}

impl Clone for Directives {
    fn clone(&self) -> (r: Self)
        ensures
            r@ == self@,
    {
        Directives {
            addition: match &self.addition {
                Some(o) => Some(o.clone()),
                None => None,
            },
            reconfig: match &self.reconfig {
                Some(o) => Some(o.clone()),
                None => None,
            },
            restart: match &self.restart {
                Some(o) => Some(o.clone()),
                None => None,
            },
        }
    }
}

impl DirectivesView {
    /// The record with no slot filled.
    pub open spec fn empty() -> DirectivesView {
        DirectivesView { addition: None, reconfig: None, restart: None }
    }
}

impl Directives {
    pub fn new() -> (r: Self)
        ensures
            r@ == DirectivesView::empty(),
    {
        Directives { addition: None, reconfig: None, restart: None }
    }
}

/// A templated order, tagged by the slot that it goes to.
#[derive(Debug, PartialEq, Eq)]
pub enum Order {
    Addition(AdditionOrder),
    Reconfigure(ReconfigureOrder),
    Restart(RestartOrder),
}

/// The view of [`Order`]: every string as its sequence of characters.
pub enum OrderView {
    Addition(AdditionOrderView),
    Reconfigure(ReconfigureOrderView),
    Restart(RestartOrderView),
}

impl View for Order {
    type V = OrderView;

    open spec fn view(&self) -> OrderView {
        match self {
            Order::Addition(o) => OrderView::Addition(o@),
            Order::Reconfigure(o) => OrderView::Reconfigure(o@),
            Order::Restart(o) => OrderView::Restart(o@),
        }
    }
}

impl Clone for Order {
    fn clone(&self) -> (r: Self)
        ensures
            r@ == self@,
    {
        match self {
            Order::Addition(o) => Order::Addition(o.clone()),
            Order::Reconfigure(o) => Order::Reconfigure(o.clone()),
            Order::Restart(o) => Order::Restart(o.clone()),
        }
    }
}

impl OrderView {
    /// The slot that the order goes to.
    pub open spec fn kind(self) -> DirectiveKind {
        match self {
            OrderView::Addition(_) => DirectiveKind::Addition,
            OrderView::Reconfigure(_) => DirectiveKind::Reconfig,
            OrderView::Restart(_) => DirectiveKind::Restart,
        }
    }
}

impl Order {
    /// The slot that the order goes to.
    pub fn kind(&self) -> (r: DirectiveKind)
        ensures
            r == self@.kind(),
    {
        match self {
            Order::Addition(_) => DirectiveKind::Addition,
            Order::Reconfigure(_) => DirectiveKind::Reconfig,
            Order::Restart(_) => DirectiveKind::Restart,
        }
    }
}

impl DirectivesView {
    /// The record after `order` has been written to the slot of its kind.
    pub open spec fn with(self, order: OrderView) -> DirectivesView {
        match order {
            OrderView::Addition(o) => DirectivesView { addition: Some(o), ..self },
            OrderView::Reconfigure(o) => DirectivesView { reconfig: Some(o), ..self },
            OrderView::Restart(o) => DirectivesView { restart: Some(o), ..self },
        }
    }
}

impl Directives {
    /// Writes `order` to the slot of its kind, over what the slot held.
    pub fn assign(&mut self, order: Order)
        ensures
            final(self)@ == old(self)@.with(order@),
    {
        match order {
            Order::Addition(o) => {
                self.addition = Some(o);
            },
            Order::Reconfigure(o) => {
                self.reconfig = Some(o);
            },
            Order::Restart(o) => {
                self.restart = Some(o);
            },
        }
    }
}

} // verus!
