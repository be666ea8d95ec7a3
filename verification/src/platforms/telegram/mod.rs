//! Telegram bots.

pub mod adapter;
pub mod channel;
pub mod debounce;
pub mod inbound;
pub mod laws;
pub mod media;
pub mod format_html;
pub mod polling;
pub mod registry;
pub mod send;
pub mod stream;

use vstd::prelude::*;

verus! {

} // verus!
