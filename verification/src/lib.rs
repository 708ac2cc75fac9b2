use vstd::prelude::*;

pub mod cli;
pub mod info;
pub mod install;
pub mod layout;
pub mod names;
pub mod order;
pub mod post_install_hooks;
pub mod request;
pub mod resolve;
pub mod stubs;
pub mod text;
pub mod vendor;
pub mod version;

verus! {

} // verus!
