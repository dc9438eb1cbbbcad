//! Request-dispatch core: an ordered chain of before-stages, one handler and
//! after-stages, with a uniform error-recovery protocol at every stage.
pub mod types;
pub mod middleware;
pub mod chain;
pub mod laws;

pub use types::{Error, IronResult, Request, Response};
pub use middleware::{AfterMiddleware, AroundMiddleware, BeforeMiddleware, Handler};
pub use chain::{Chain, DefaultChain};
