//! Verified core of the Landscape proxy and flow-routing logic.
use vstd::prelude::*;

pub mod text;
pub mod ids;
pub mod proxy;
pub mod flow;
pub mod flow_rule;
pub mod singbox;
pub mod singbox_file;
pub mod order;
pub mod runtime;
pub mod netaddr;
pub mod route;
pub mod bypass;
pub mod pppoe;

verus! {
} // verus!
