//! Routing for request pipelines: patterns with named and wildcard captures,
//! routers mounted below a prefix of another router, and a picker that chooses
//! a handler by HTTP method. Handlers are identified by index; the caller runs
//! the one that routing names.
use vstd::prelude::*;

pub mod lemmas;
pub mod method_picker;
pub mod mount_router;
pub mod params;
pub mod pattern;
pub mod recognizer;

pub use method_picker::{Method, MethodPicker, NoMethod};
pub use mount_router::{NoRoute, RequestContext, RouteEntry, Router};
pub use params::Params;
pub use pattern::{accepts_route, is_user_route, route_pattern, LEFTOVER_PARAM_NAME};

verus! {

} // verus!
