//! Problems found in a topology, and the actions that remedy them.

use vstd::prelude::*;

verus! {

/// Where a problem was found: the location, the data requirement in it, and
/// the device of the component concerned, if the problem is about one.
#[derive(Debug, PartialEq, Eq, Hash)]
pub struct ProblemInfo {
    pub location_key: String,
    pub data_requirement_key: String,
    pub device_uuid: Option<u128>,
}

/// The view of [`ProblemInfo`]: every string as its sequence of characters.
pub struct ProblemInfoView {
    pub location_key: Seq<char>,
    pub data_requirement_key: Seq<char>,
    pub device_uuid: Option<u128>,
}

impl View for ProblemInfo {
    type V = ProblemInfoView;

    open spec fn view(&self) -> ProblemInfoView {
        ProblemInfoView {
            location_key: self.location_key@,
            data_requirement_key: self.data_requirement_key@,
            device_uuid: self.device_uuid,
        }
    }
}

impl Clone for ProblemInfo {
    fn clone(&self) -> (r: Self)
        ensures
            r@ == self@,
    {
        ProblemInfo {
            location_key: self.location_key.clone(),
            data_requirement_key: self.data_requirement_key.clone(),
            device_uuid: self.device_uuid,
        }
    }
}

impl ProblemInfo {
    pub fn new(location_key: &str, data_key: &str, device_uuid: &Option<u128>) -> (r: Self)
        ensures
            r@ == (ProblemInfoView {
                location_key: location_key@,
                data_requirement_key: data_key@,
                device_uuid: *device_uuid,
            }),
    {
        ProblemInfo {
            location_key: location_key.to_owned(),
            data_requirement_key: data_key.to_owned(),
            device_uuid: *device_uuid,
        }
    }

    /// Whether two problems are the same: all three fields count.
    pub fn same_as(&self, other: &ProblemInfo) -> (r: bool)
        ensures
            r == (self@ == other@),
    {
        let same_device = match (self.device_uuid, other.device_uuid) {
            (Some(a), Some(b)) => a == b,
            (None, None) => true,
            _ => false,
        };
        same_device && self.location_key == other.location_key && self.data_requirement_key
            == other.data_requirement_key
    }
}

impl ProblemInfoView {
    /// The same problem, about no device in particular.
    pub open spec fn without_device(self) -> ProblemInfoView {
        ProblemInfoView { device_uuid: None, ..self }
    }
}

/// What the planner does about a problem.
#[derive(Clone, Copy, Debug, PartialEq, Eq, Structural)]
pub enum Action {
    /// Start this many more components; at least one.
    Addition(usize),
    Restart,
    Reconfigure,
}

/// View of a list of problems with the action chosen for each.
pub open spec fn report_view(v: Seq<(Action, ProblemInfo)>) -> Seq<(Action, ProblemInfoView)> {
    Seq::new(v.len(), |i: int| (v[i].0, v[i].1@))
}

} // verus!
