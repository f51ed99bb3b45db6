//! The topology of a managed application: a tree of locations whose leaves
//! carry data requirements.
//!
//! Every executable type has a view, written `@`, that replaces strings by
//! sequences of characters and vectors by sequences. Contracts throughout the
//! crate are stated over these views.

use vstd::prelude::*;

verus! {

/// Health of an application, a location, a data requirement or a component.
#[derive(Clone, Copy, Debug, PartialEq, Eq, Structural)]
pub enum Status {
    Uninitialized,
    Coherent,
    Degraded,
    Critical,
    Fault,
}

impl Status {
    /// An application is reconciled only when it is neither coherent nor
    /// still uninitialized.
    pub open spec fn spec_needs_reconciliation(self) -> bool {
        self != Status::Coherent && self != Status::Uninitialized
    }

    #[verifier::when_used_as_spec(spec_needs_reconciliation)]
    pub fn needs_reconciliation(self) -> (r: bool)
        ensures
            r == self.spec_needs_reconciliation(),
    {
        match self {
            Status::Coherent => false,
            Status::Uninitialized => false,
            _ => true,
        }
    }

    pub open spec fn spec_is_coherent(self) -> bool {
        self == Status::Coherent
    }

    #[verifier::when_used_as_spec(spec_is_coherent)]
    pub fn is_coherent(self) -> (r: bool)
        ensures
            r == self.spec_is_coherent(),
    {
        match self {
            Status::Coherent => true,
            _ => false,
        }
    }
}

/// Kind of value a data requirement expects from its components.
#[derive(Clone, Copy, Debug, PartialEq, Eq, Structural)]
pub enum IoTOutput {
    Number,
    Boolean,
    Text,
    Invalid,
}

/// View of an optional string.
pub open spec fn opt_text(o: Option<String>) -> Option<Seq<char>> {
    match o {
        Some(s) => Some(s@),
        None => None,
    }
}

/// A copy of an optional string.
pub fn clone_opt_text(o: &Option<String>) -> (r: Option<String>)
    ensures
        opt_text(r) == opt_text(*o),
{
    match o {
        Some(s) => Some(s.clone()),
        None => None,
    }
}

/// One deployed instance that serves a data requirement.
#[derive(Debug, PartialEq, Eq)]
pub struct Component {
    pub name: String,
    /// Identity of the device the component runs on, as 128 bits.
    pub uuid: Option<u128>,
    pub status: Status,
    /// Time of the last reading, carried as text and never interpreted.
    pub last_reading: Option<String>,
}

/// The view of [`Component`]: every string as its sequence of characters.
pub struct ComponentView {
    pub name: Seq<char>,
    pub uuid: Option<u128>,
    pub status: Status,
    pub last_reading: Option<Seq<char>>,
}

impl View for Component {
    type V = ComponentView;

    open spec fn view(&self) -> ComponentView {
        ComponentView {
            name: self.name@,
            uuid: self.uuid,
            status: self.status,
            last_reading: opt_text(self.last_reading),
        }
    }
}

impl Clone for Component {
    fn clone(&self) -> (r: Self)
        ensures
            r@ == self@,
    {
        Component {
            name: self.name.clone(),
            uuid: self.uuid,
            status: self.status,
            last_reading: clone_opt_text(&self.last_reading),
        }
    }
}

/// What a leaf location needs of one kind of data: how many components
/// should serve it, and which ones currently do.
#[derive(Debug, PartialEq, Eq)]
pub struct DataRequirement {
    pub components: Vec<Component>,
    pub required: bool,
    /// Desired number of components.
    pub count: usize,
    /// Seconds without a reading after which a component counts as lost.
    pub timeout: Option<i64>,
    pub status: Status,
    pub output: IoTOutput,
}

/// The view of [`DataRequirement`]: every string as its sequence of characters.
pub struct DataRequirementView {
    pub components: Seq<ComponentView>,
    pub required: bool,
    pub count: nat,
    pub timeout: Option<i64>,
    pub status: Status,
    pub output: IoTOutput,
}

impl View for DataRequirement {
    type V = DataRequirementView;

    open spec fn view(&self) -> DataRequirementView {
        DataRequirementView {
            components: Seq::new(self.components@.len(), |i: int| self.components@[i]@),
            required: self.required,
            count: self.count as nat,
            timeout: self.timeout,
            status: self.status,
            output: self.output,
        }
    }
}

impl Clone for DataRequirement {
    fn clone(&self) -> (r: Self)
        ensures
            r@ == self@,
    {
        let mut components: Vec<Component> = Vec::new();
        let mut i: usize = 0;
        while i < self.components.len()
            invariant
                i <= self.components@.len(),
                components@.len() == i,
                forall|j: int| 0 <= j < i ==> (#[trigger] components@[j])@ == self.components@[j]@,
            decreases self.components@.len() - i,
        {
            components.push(self.components[i].clone());
            i += 1;
        }
        let r = DataRequirement {
            components,
            required: self.required,
            count: self.count,
            timeout: self.timeout,
            status: self.status,
            output: self.output,
        };
        assert(r@.components =~= self@.components);
        r
    }
}

/// A data requirement under the key by which its location knows it.
#[derive(Debug, PartialEq, Eq)]
pub struct KeyedRequirement {
    pub key: String,
    pub requirement: DataRequirement,
}

/// The view of [`KeyedRequirement`]: every string as its sequence of characters.
pub struct KeyedRequirementView {
    pub key: Seq<char>,
    pub requirement: DataRequirementView,
}

impl View for KeyedRequirement {
    type V = KeyedRequirementView;

    open spec fn view(&self) -> KeyedRequirementView {
        KeyedRequirementView { key: self.key@, requirement: self.requirement@ }
    }
}

impl Clone for KeyedRequirement {
    fn clone(&self) -> (r: Self)
        ensures
            r@ == self@,
    {
        KeyedRequirement { key: self.key.clone(), requirement: self.requirement.clone() }
    }
}

/// View of a list of keyed data requirements.
pub open spec fn requirements_view(v: Seq<KeyedRequirement>) -> Seq<KeyedRequirementView> {
    Seq::new(v.len(), |i: int| v[i]@)
}

/// View of a list of properties.
pub open spec fn properties_view(v: Seq<Property>) -> Seq<PropertyView> {
    Seq::new(v.len(), |i: int| v[i]@)
}

fn clone_requirements(v: &Vec<KeyedRequirement>) -> (r: Vec<KeyedRequirement>)
    ensures
        requirements_view(r@) == requirements_view(v@),
{
    let mut out: Vec<KeyedRequirement> = Vec::new();
    let mut i: usize = 0;
    while i < v.len()
        invariant
            i <= v@.len(),
            out@.len() == i,
            forall|j: int| 0 <= j < i ==> (#[trigger] out@[j])@ == v@[j]@,
        decreases v@.len() - i,
    {
        out.push(v[i].clone());
        i += 1;
    }
    assert(requirements_view(out@) =~= requirements_view(v@));
    out
}

fn clone_properties(v: &Vec<Property>) -> (r: Vec<Property>)
    ensures
        properties_view(r@) == properties_view(v@),
{
    let mut out: Vec<Property> = Vec::new();
    let mut i: usize = 0;
    while i < v.len()
        invariant
            i <= v@.len(),
            out@.len() == i,
            forall|j: int| 0 <= j < i ==> (#[trigger] out@[j])@ == v@[j]@,
        decreases v@.len() - i,
    {
        out.push(v[i].clone());
        i += 1;
    }
    assert(properties_view(out@) =~= properties_view(v@));
    out
}

/// A free-form property of a location.
#[derive(Debug, PartialEq, Eq)]
pub struct Property {
    pub key: String,
    pub value: String,
}

impl Clone for Property {
    fn clone(&self) -> (r: Self)
        ensures
            r@ == self@,
    {
        Property { key: self.key.clone(), value: self.value.clone() }
    }
}

/// The view of [`Property`]: every string as its sequence of characters.
pub struct PropertyView {
    pub key: Seq<char>,
    pub value: Seq<char>,
}

impl View for Property {
    type V = PropertyView;

    open spec fn view(&self) -> PropertyView {
        PropertyView { key: self.key@, value: self.value@ }
    }
}

/// A node of the topology tree. An internal node has children and no data
/// requirements; a leaf has data requirements and no children.
#[derive(Debug, PartialEq, Eq)]
pub struct Location {
    pub name: String,
    /// Network address, carried as text and never interpreted.
    pub ip: Option<String>,
    pub status: Status,
    /// Children, in the order in which they are walked.
    pub locations: Vec<ChildLocation>,
    /// Data requirements, in the order in which they are examined.
    pub data_requirements: Vec<KeyedRequirement>,
    pub properties: Vec<Property>,
}

/// A location under the key by which its parent knows it.
#[derive(Debug, PartialEq, Eq)]
pub struct ChildLocation {
    pub key: String,
    pub location: Location,
}

/// The view of [`Location`]: every string as its sequence of characters.
pub struct LocationView {
    pub name: Seq<char>,
    pub ip: Option<Seq<char>>,
    pub status: Status,
    pub locations: Seq<ChildLocationView>,
    pub data_requirements: Seq<KeyedRequirementView>,
    pub properties: Seq<PropertyView>,
}

/// The view of [`ChildLocation`]: every string as its sequence of characters.
pub struct ChildLocationView {
    pub key: Seq<char>,
    pub location: LocationView,
}

impl Location {
    /// The view of a location, by recursion over the tree.
    pub open spec fn spec_view(self) -> LocationView
        decreases self,
    {
        LocationView {
            name: self.name@,
            ip: opt_text(self.ip),
            status: self.status,
            locations: Seq::new(
                self.locations@.len(),
                |i: int|
                    if 0 <= i < self.locations@.len() {
                        ChildLocationView {
                            key: self.locations@[i].key@,
                            location: self.locations@[i].location.spec_view(),
                        }
                    } else {
                        arbitrary()
                    },
            ),
            data_requirements: requirements_view(self.data_requirements@),
            properties: properties_view(self.properties@),
        }
    }
}

impl View for Location {
    type V = LocationView;

    open spec fn view(&self) -> LocationView {
        self.spec_view()
    }
}

impl Clone for Location {
    fn clone(&self) -> (r: Self)
        ensures
            r@ == self@,
        decreases self,
    {
        let mut locations: Vec<ChildLocation> = Vec::new();
        let mut i: usize = 0;
        while i < self.locations.len()
            invariant
                i <= self.locations@.len(),
                locations@.len() == i,
                forall|j: int| 0 <= j < i ==> (#[trigger] locations@[j])@ == self.locations@[j]@,
            decreases self.locations@.len() - i,
        {
            let child = &self.locations[i];
            let copy = ChildLocation { key: child.key.clone(), location: child.location.clone() };
            locations.push(copy);
            i += 1;
        }
        let r = Location {
            name: self.name.clone(),
            ip: clone_opt_text(&self.ip),
            status: self.status,
            locations,
            data_requirements: clone_requirements(&self.data_requirements),
            properties: clone_properties(&self.properties),
        };
        assert(r@.locations =~= self@.locations);
        r
    }
}

impl Clone for ChildLocation {
    fn clone(&self) -> (r: Self)
        ensures
            r@ == self@,
    {
        ChildLocation { key: self.key.clone(), location: self.location.clone() }
    }
}

impl View for ChildLocation {
    type V = ChildLocationView;

    open spec fn view(&self) -> ChildLocationView {
        ChildLocationView { key: self.key@, location: self.location@ }
    }
}

impl LocationView {
    /// An internal node: children, and no data requirements.
    pub open spec fn is_internal(self) -> bool {
        self.locations.len() > 0 && self.data_requirements.len() == 0
    }

    /// A leaf: data requirements, and no children.
    pub open spec fn is_leaf(self) -> bool {
        self.locations.len() == 0 && self.data_requirements.len() > 0
    }

    /// Whether `key` names a direct child of this location.
    pub open spec fn has_child(self, key: Seq<char>) -> bool {
        exists|i: int| 0 <= i < self.locations.len() && #[trigger] self.locations[i].key == key
    }
}

/// A managed application: its name, its health and the root of its topology.
#[derive(Debug, PartialEq, Eq)]
pub struct Application {
    pub name: String,
    pub description: Option<String>,
    pub status: Status,
    pub locations: Location,
    /// Time of the last update, carried as text and never interpreted.
    pub last_update: Option<String>,
}

impl Clone for Application {
    fn clone(&self) -> (r: Self)
        ensures
            r@ == self@,
    {
        Application {
            name: self.name.clone(),
            description: clone_opt_text(&self.description),
            status: self.status,
            locations: self.locations.clone(),
            last_update: clone_opt_text(&self.last_update),
        }
    }
}

/// The view of [`Application`]: every string as its sequence of characters.
pub struct ApplicationView {
    pub name: Seq<char>,
    pub description: Option<Seq<char>>,
    pub status: Status,
    pub locations: LocationView,
    pub last_update: Option<Seq<char>>,
}

impl View for Application {
    type V = ApplicationView;

    open spec fn view(&self) -> ApplicationView {
        ApplicationView {
            name: self.name@,
            description: opt_text(self.description),
            status: self.status,
            locations: self.locations@,
            last_update: opt_text(self.last_update),
        }
    }
}

} // verus!
