use vstd::prelude::*;
use crate::types::{Error, IronResult, Request, RequestView, Response, ResponseView, empty_response};
use crate::middleware::{AfterMiddleware, BeforeMiddleware, Handler};

verus! {

/// The failure carried by a stage's result, if any.
pub open spec fn failure_of(r: IronResult<()>) -> Option<Error> {
    match r {
        Ok(_) => None,
        Err(e) => Some(e),
    }
}

/// One before-stage, given the request and the failure carried so far. Once a
/// failure is carried the stage does not run. A failing `before` is offered to
/// the same stage's `catch`, which either recovers or carries a failure on.
pub open spec fn before_step<B: BeforeMiddleware>(
    b: B,
    state: (RequestView, Option<Error>),
) -> (RequestView, Option<Error>) {
    let (req, carried) = state;
    match carried {
        Some(e) => (req, Some(e)),
        None => {
            let (req1, r) = b.before_spec(req);
            match r {
                Ok(_) => (req1, None),
                Err(e) => {
                    let (req2, r2) = b.catch_spec(req1, e);
                    (req2, failure_of(r2))
                },
            }
        },
    }
}

/// The before-stages in insertion order: the request they leave, and the
/// failure that none of them recovered.
pub open spec fn run_befores<B: BeforeMiddleware>(
    bs: Seq<B>,
    req: RequestView,
) -> (RequestView, Option<Error>)
    decreases bs.len(),
{
    if bs.len() == 0 {
        (req, None)
    } else {
        before_step(bs.last(), run_befores(bs.drop_last(), req))
    }
}

/// One after-stage. `origin` is the failure that made the response abnormal
/// (`None` for a response of the normal path). The stage's `catch` runs while a
/// failure is carried, or else on an abnormal response, with the origin;
/// otherwise its `after` runs. A recovering stage clears the carried failure.
pub open spec fn after_step<A: AfterMiddleware>(
    a: A,
    origin: Option<Error>,
    state: (RequestView, ResponseView, Option<Error>),
) -> (RequestView, ResponseView, Option<Error>) {
    let (req, resp, carried) = state;
    let offered = if carried is Some { carried } else { origin };
    match offered {
        Some(e) => {
            let (req1, resp1, r) = a.catch_spec(req, resp, e);
            (req1, resp1, failure_of(r))
        },
        None => {
            let (req1, resp1, r) = a.after_spec(req, resp);
            (req1, resp1, failure_of(r))
        },
    }
}

/// The after-stages in insertion order, from a request, a response, the
/// failure that made the response abnormal and the failure carried in.
pub open spec fn run_afters<A: AfterMiddleware>(
    as_: Seq<A>,
    origin: Option<Error>,
    req: RequestView,
    resp: ResponseView,
    carried: Option<Error>,
) -> (RequestView, ResponseView, Option<Error>)
    decreases as_.len(),
{
    if as_.len() == 0 {
        (req, resp, carried)
    } else {
        after_step(as_.last(), origin, run_afters(as_.drop_last(), origin, req, resp, carried))
    }
}

/// The result of a dispatch as `catch` and the dispatch itself return it.
pub open spec fn outcome_of(
    state: (RequestView, ResponseView, Option<Error>),
) -> (RequestView, ResponseView, IronResult<()>) {
    let (req, resp, carried) = state;
    match carried {
        None => (req, resp, Ok(())),
        Some(e) => (req, resp, Err(e)),
    }
}

/// The handler's recovery path followed by the after-stages, which see its
/// response as abnormal, caused by `err`.
pub open spec fn recover_spec<H: Handler, A: AfterMiddleware>(
    handler: H,
    afters: Seq<A>,
    req: RequestView,
    err: Error,
) -> (RequestView, ResponseView, IronResult<()>) {
    let (req1, resp, r) = handler.catch_spec(req, err);
    outcome_of(run_afters(afters, Some(err), req1, resp, failure_of(r)))
}

/// A whole dispatch: before-stages, then the handler (only if no failure is
/// carried), then the after-stages.
pub open spec fn dispatch_spec<H: Handler, B: BeforeMiddleware, A: AfterMiddleware>(
    handler: H,
    befores: Seq<B>,
    afters: Seq<A>,
    req: RequestView,
) -> (RequestView, ResponseView, IronResult<()>) {
    let (req1, carried) = run_befores(befores, req);
    match carried {
        Some(e) => outcome_of(run_afters(afters, Some(e), req1, empty_response(), Some(e))),
        None => {
            let (req2, r) = handler.call_spec(req1);
            match r {
                Ok(resp) => outcome_of(run_afters(afters, None, req2, resp, None)),
                Err(e) => recover_spec(handler, afters, req2, e),
            }
        },
    }
}

/// A chain kept as one owned handler and two growable sequences of stages, in
/// insertion order, which is also the order in which they run. A chain holds
/// one type of before-stage and one of after-stage; an enum whose impl
/// dispatches to its variants lets different stages share a sequence.
pub struct DefaultChain<H, B, A> {
    befores: Vec<B>,
    afters: Vec<A>,
    handler: H,
}

impl<H: Handler, B: BeforeMiddleware, A: AfterMiddleware> DefaultChain<H, B, A> {
    pub closed spec fn handler_spec(&self) -> H {
        self.handler
    }

    pub closed spec fn befores_spec(&self) -> Seq<B> {
        self.befores@
    }

    pub closed spec fn afters_spec(&self) -> Seq<A> {
        self.afters@
    }

    /// What a dispatch of `req` through this chain gives.
    pub open spec fn outcome(&self, req: RequestView) -> (RequestView, ResponseView, IronResult<()>) {
        dispatch_spec(self.handler_spec(), self.befores_spec(), self.afters_spec(), req)
    }

    fn pass_befores(&self, req: &mut Request) -> (r: Option<Error>)
        ensures
            (final(req)@, r) == run_befores(self.befores@, old(req)@),
    {
        let mut carried: Option<Error> = None;
        let mut i: usize = 0;
        while i < self.befores.len()
            invariant
                0 <= i <= self.befores@.len(),
                (req@, carried) == run_befores(self.befores@.take(i as int), old(req)@),
            decreases self.befores@.len() - i,
        {
            if carried.is_none() {
                let b = &self.befores[i];
                match b.before(req) {
                    Ok(()) => {},
                    Err(e) => {
                        match b.catch(req, e) {
                            Ok(()) => {},
                            Err(e2) => {
                                carried = Some(e2);
                            },
                        }
                    },
                }
            }
            proof {
                assert(self.befores@.take(i + 1).drop_last() =~= self.befores@.take(i as int));
            }
            i += 1;
        }
        proof {
            assert(self.befores@.take(i as int) =~= self.befores@);
        }
        carried
    }

    fn pass_afters(
        &self,
        origin: Option<Error>,
        req: &mut Request,
        resp: &mut Response,
        carried_in: Option<Error>,
    ) -> (r: Option<Error>)
        ensures
            (final(req)@, final(resp)@, r) == run_afters(self.afters@, origin, old(req)@, old(resp)@, carried_in),
    {
        let mut carried = carried_in;
        let mut i: usize = 0;
        while i < self.afters.len()
            invariant
                0 <= i <= self.afters@.len(),
                (req@, resp@, carried) == run_afters(
                    self.afters@.take(i as int),
                    origin,
                    old(req)@,
                    old(resp)@,
                    carried_in,
                ),
            decreases self.afters@.len() - i,
        {
            let a = &self.afters[i];
            let offered = if carried.is_some() { carried } else { origin };
            let r = match offered {
                Some(e) => a.catch(req, resp, e),
                None => a.after(req, resp),
            };
            carried = match r {
                Ok(()) => None,
                Err(e) => Some(e),
            };
            proof {
                assert(self.afters@.take(i + 1).drop_last() =~= self.afters@.take(i as int));
            }
            i += 1;
        }
        proof {
            assert(self.afters@.take(i as int) =~= self.afters@);
        }
        carried
    }

    /// The handler's recovery path for `err`, then the after-stages on the
    /// abnormal response it gives.
    pub fn recover(&self, req: &mut Request, err: Error) -> (r: (Response, IronResult<()>))
        ensures
            (final(req)@, r.0@, r.1) == recover_spec(self.handler_spec(), self.afters_spec(), old(req)@, err),
    {
        let (mut resp, r) = self.handler.catch(req, err);
        let carried = match r {
            Ok(()) => None,
            Err(e) => Some(e),
        };
        let last = self.pass_afters(Some(err), req, &mut resp, carried);
        match last {
            None => (resp, Ok(())),
            Some(e) => (resp, Err(e)),
        }
    }

    /// Runs one request through the chain. The result is always a response,
    /// with the failure that no stage recovered, if any.
    pub fn dispatch(&self, req: &mut Request) -> (r: (Response, IronResult<()>))
        ensures
            (final(req)@, r.0@, r.1) == self.outcome(old(req)@),
    {
        let carried = self.pass_befores(req);
        match carried {
            Some(e) => {
                let mut resp = Response::new();
                let last = self.pass_afters(Some(e), req, &mut resp, Some(e));
                match last {
                    None => (resp, Ok(())),
                    Some(e2) => (resp, Err(e2)),
                }
            },
            None => {
                match self.handler.call(req) {
                    Ok(mut resp) => {
                        let last = self.pass_afters(None, req, &mut resp, None);
                        match last {
                            None => (resp, Ok(())),
                            Some(e2) => (resp, Err(e2)),
                        }
                    },
                    Err(e) => self.recover(req, e),
                }
            },
        }
    }
}

/// A dispatch as a handler's `call` reports it: the response when no failure
/// is left, else the failure.
pub open spec fn as_call(o: (RequestView, ResponseView, IronResult<()>)) -> (RequestView, IronResult<ResponseView>) {
    let (req, resp, r) = o;
    match r {
        Ok(_) => (req, Ok(resp)),
        Err(e) => (req, Err(e)),
    }
}

/// A chain is itself a handler: `call` dispatches, and `catch` is the inner
/// handler's recovery followed by the after-stages.
impl<H: Handler, B: BeforeMiddleware, A: AfterMiddleware> Handler for DefaultChain<H, B, A> {
    open spec fn call_spec(&self, req: RequestView) -> (RequestView, IronResult<ResponseView>) {
        as_call(self.outcome(req))
    }

    open spec fn catch_spec(&self, req: RequestView, err: Error) -> (RequestView, ResponseView, IronResult<()>) {
        recover_spec(self.handler_spec(), self.afters_spec(), req, err)
    }

    fn call(&self, req: &mut Request) -> (r: IronResult<Response>) {
        let (resp, r) = self.dispatch(req);
        match r {
            Ok(()) => Ok(resp),
            Err(e) => Err(e),
        }
    }

    fn catch(&self, req: &mut Request, err: Error) -> (r: (Response, IronResult<()>)) {
        self.recover(req, err)
    }
}

/// The composition policy: exactly one handler, set at construction, and two
/// append-only sequences of stages.
pub trait Chain<H, B, A>: Handler + Sized {
    spec fn handler_of(&self) -> H;

    spec fn befores_of(&self) -> Seq<B>;

    spec fn afters_of(&self) -> Seq<A>;

    fn new(handler: H) -> (r: Self)
        ensures
            r.handler_of() == handler,
            r.befores_of() == Seq::<B>::empty(),
            r.afters_of() == Seq::<A>::empty(),
    ;

    /// Appends a before-stage and an after-stage in one call.
    fn link(&mut self, link: (B, A))
        ensures
            final(self).handler_of() == old(self).handler_of(),
            final(self).befores_of() == old(self).befores_of().push(link.0),
            final(self).afters_of() == old(self).afters_of().push(link.1),
    ;

    fn link_before(&mut self, before: B)
        ensures
            final(self).handler_of() == old(self).handler_of(),
            final(self).befores_of() == old(self).befores_of().push(before),
            final(self).afters_of() == old(self).afters_of(),
    ;

    fn link_after(&mut self, after: A)
        ensures
            final(self).handler_of() == old(self).handler_of(),
            final(self).befores_of() == old(self).befores_of(),
            final(self).afters_of() == old(self).afters_of().push(after),
    ;
}

impl<H: Handler, B: BeforeMiddleware, A: AfterMiddleware> Chain<H, B, A> for DefaultChain<H, B, A> {
    open spec fn handler_of(&self) -> H {
        self.handler_spec()
    }

    open spec fn befores_of(&self) -> Seq<B> {
        self.befores_spec()
    }

    open spec fn afters_of(&self) -> Seq<A> {
        self.afters_spec()
    }

    fn new(handler: H) -> (r: Self) {
        DefaultChain { befores: Vec::new(), afters: Vec::new(), handler }
    }

    fn link(&mut self, link: (B, A)) {
        let (before, after) = link;
        self.befores.push(before);
        self.afters.push(after);
    }

    fn link_before(&mut self, before: B) {
        self.befores.push(before);
    }

    fn link_after(&mut self, after: A) {
        self.afters.push(after);
    }
}

} // verus!
