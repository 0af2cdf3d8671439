//! A verified client library for the beanstalkd-style `tuber` work queue
//! monitor: the line protocol, the YAML-like stats bodies, the snapshot
//! fetch sequence, and the text and geometry that the dashboard shows.
pub mod text;
pub mod yaml;
pub mod model;
pub mod order;
pub mod protocol;
pub mod fetch;
pub mod rounding;
pub mod ui;
pub mod layout;

use vstd::prelude::*;

verus! {

} // verus!
