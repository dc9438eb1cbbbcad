use vstd::prelude::*;
use crate::types::{Error, IronResult, Request, RequestView, Response, ResponseView, result_view};

verus! {

/// The terminal unit of work for a request. Its recovery path must always
/// yield some response, so `catch` has no default.
///
/// Each method is described by a spec function of the request (and response)
/// it receives: a handler holds no mutable state that one call could leave
/// behind for the next.
pub trait Handler {
    /// The request after `call`, and what `call` returned.
    spec fn call_spec(&self, req: RequestView) -> (RequestView, IronResult<ResponseView>);

    /// The request after `catch`, the fallback response, and whether the
    /// failure was recovered.
    spec fn catch_spec(&self, req: RequestView, err: Error) -> (RequestView, ResponseView, IronResult<()>);

    fn call(&self, req: &mut Request) -> (r: IronResult<Response>)
        ensures
            self.call_spec(old(req)@) == (final(req)@, result_view(r)),
    ;

    fn catch(&self, req: &mut Request, err: Error) -> (r: (Response, IronResult<()>))
        ensures
            self.catch_spec(old(req)@, err) == (final(req)@, r.0@, r.1),
    ;
}

/// A pre-processing step. A failing `before` stops the progression unless its
/// own `catch` recovers. Recovery is opt-in: a stage that does not recover
/// has its `catch` leave the request alone and return the failure unchanged.
pub trait BeforeMiddleware {
    spec fn before_spec(&self, req: RequestView) -> (RequestView, IronResult<()>);

    spec fn catch_spec(&self, req: RequestView, err: Error) -> (RequestView, IronResult<()>);

    fn before(&self, req: &mut Request) -> (r: IronResult<()>)
        ensures
            self.before_spec(old(req)@) == (final(req)@, r),
    ;

    fn catch(&self, req: &mut Request, err: Error) -> (r: IronResult<()>)
        ensures
            self.catch_spec(old(req)@, err) == (final(req)@, r),
    ;
}

/// A post-processing step. Its `catch` is called instead of `after` when the
/// response it observes came from a recovery path, or while a failure is
/// carried. Recovery is opt-in here too.
pub trait AfterMiddleware {
    spec fn after_spec(&self, req: RequestView, resp: ResponseView) -> (RequestView, ResponseView, IronResult<()>);

    spec fn catch_spec(&self, req: RequestView, resp: ResponseView, err: Error) -> (RequestView, ResponseView, IronResult<()>);

    fn after(&self, req: &mut Request, resp: &mut Response) -> (r: IronResult<()>)
        ensures
            self.after_spec(old(req)@, old(resp)@) == (final(req)@, final(resp)@, r),
    ;

    fn catch(&self, req: &mut Request, resp: &mut Response, err: Error) -> (r: IronResult<()>)
        ensures
            self.catch_spec(old(req)@, old(resp)@, err) == (final(req)@, final(resp)@, r),
    ;
}

/// A handler that decorates another: `with_handler` sets the handler it
/// delegates to, which builds chains of handlers one inside the other.
pub trait AroundMiddleware<H>: Handler {
    /// The handler this decorator delegates to.
    spec fn inner(&self) -> H;

    fn with_handler(&mut self, handler: H)
        ensures
            final(self).inner() == handler,
    ;
}

} // verus!
