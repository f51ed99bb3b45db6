//! Where each kind of order is posted.
//!
//! The library computes the address; sending the order there is left to the
//! program that drives the planner.

use vstd::prelude::*;
use vstd::string::*;
use crate::orders::{AdditionOrder, DirectiveKind, Order, ReconfigureOrder, RestartOrder};
use crate::text::join;

verus! {

/// `/addition`.
pub open spec fn addition_endpoint() -> Seq<char> {
    seq!['/', 'a', 'd', 'd', 'i', 't', 'i', 'o', 'n']
}

/// `/restart`.
pub open spec fn restart_endpoint() -> Seq<char> {
    seq!['/', 'r', 'e', 's', 't', 'a', 'r', 't']
}

/// `/reconfig/http`.
pub open spec fn reconfigure_endpoint() -> Seq<char> {
    seq!['/', 'r', 'e', 'c', 'o', 'n', 'f', 'i', 'g', '/', 'h', 't', 't', 'p']
}

/// The path, below the executor's base address, to which orders of a kind
/// are posted.
pub open spec fn endpoint_of(kind: DirectiveKind) -> Seq<char> {
    match kind {
        DirectiveKind::Addition => addition_endpoint(),
        DirectiveKind::Restart => restart_endpoint(),
        DirectiveKind::Reconfig => reconfigure_endpoint(),
    }
}

/// The endpoint map. Additions are posted to `/addition`, restarts to
/// `/restart` and reconfigurations to `/reconfig/http`.
pub proof fn law_endpoint_map()
    ensures
        endpoint_of(DirectiveKind::Addition) == "/addition"@,
        endpoint_of(DirectiveKind::Restart) == "/restart"@,
        endpoint_of(DirectiveKind::Reconfig) == "/reconfig/http"@,
{
    reveal_strlit("/addition");
    reveal_strlit("/restart");
    reveal_strlit("/reconfig/http");
    assert("/addition"@ =~= addition_endpoint());
    assert("/restart"@ =~= restart_endpoint());
    assert("/reconfig/http"@ =~= reconfigure_endpoint());
}

/// An order that can be posted to the executor.
pub trait MakeRequest {
    /// The path, below the executor's base address, for orders of this type.
    const ENDPOINT: &'static str;

    /// The address to post this order to, for the executor at `target`.
    fn make_request(&self, target: &str) -> String;
}

impl MakeRequest for AdditionOrder {
    const ENDPOINT: &'static str = "/addition";

    fn make_request(&self, target: &str) -> (url: String)
        ensures
            url@ == target@ + addition_endpoint(),
    {
        proof {
            reveal_strlit("/addition");
            assert("/addition"@ =~= addition_endpoint());
        }
        join(target, Self::ENDPOINT)
    }
}

impl MakeRequest for RestartOrder {
    const ENDPOINT: &'static str = "/restart";

    fn make_request(&self, target: &str) -> (url: String)
        ensures
            url@ == target@ + restart_endpoint(),
    {
        proof {
            reveal_strlit("/restart");
            assert("/restart"@ =~= restart_endpoint());
        }
        join(target, Self::ENDPOINT)
    }
}

impl MakeRequest for ReconfigureOrder {
    const ENDPOINT: &'static str = "/reconfig/http";

    fn make_request(&self, target: &str) -> (url: String)
        ensures
            url@ == target@ + reconfigure_endpoint(),
    {
        proof {
            reveal_strlit("/reconfig/http");
            assert("/reconfig/http"@ =~= reconfigure_endpoint());
        }
        join(target, Self::ENDPOINT)
    }
}

impl Order {
    /// The address to post this order to, for the executor at `target`.
    pub fn make_request(&self, target: &str) -> (url: String)
        ensures
            url@ == target@ + endpoint_of(self@.kind()),
    {
        match self {
            Order::Addition(o) => o.make_request(target),
            Order::Restart(o) => o.make_request(target),
            Order::Reconfigure(o) => o.make_request(target),
        }
    }
}

} // verus!
