//! WeChat bots, over the iLink protocol.

pub mod adapter;
pub mod channel;
pub mod client;
pub mod crypto;
pub mod images;
pub mod laws;
pub mod login;
pub mod poll;
pub mod qr_terminal;
pub mod registry;
pub mod runner;
pub mod stream;
pub mod work_laws;

use vstd::prelude::*;

verus! {

} // verus!
