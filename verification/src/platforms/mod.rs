//! The chat platforms.

pub mod account_laws;
pub mod runners;
pub mod telegram;
pub mod tokens;
pub mod wechat;

use vstd::prelude::*;

verus! {

} // verus!
