//! Live migration of microVMs: the verified logic of guests, hosts, the rebalancer and the test
//! harness.

pub mod binary64;
pub mod bytes;
pub mod cli;
pub mod guestd;
pub mod harness;
pub mod hostd;
pub mod ordered;
pub mod paths;
pub mod proto;
pub mod ramstate;
pub mod rebalancer;
pub mod text;
pub mod time;
