use vstd::prelude::*;
use crate::types::{Error, RequestView, ResponseView, empty_response};
use crate::middleware::{AfterMiddleware, BeforeMiddleware, Handler};
use crate::chain::{
    Chain, DefaultChain, after_step, before_step, failure_of, outcome_of, run_afters, run_befores,
};

verus! {

/// The before-stages split at `k`: when the first `k` leave no failure, the
/// rest run from the request they leave; otherwise the rest do not run.
pub proof fn lemma_befores_split<B: BeforeMiddleware>(bs: Seq<B>, k: int, req: RequestView)
    requires
        0 <= k <= bs.len(),
    ensures
        ({
            let (req1, carried) = run_befores(bs.take(k), req);
            if carried is None {
                run_befores(bs, req) == run_befores(bs.skip(k), req1)
            } else {
                run_befores(bs, req) == (req1, carried)
            }
        }),
    decreases bs.len(),
{
    if k == bs.len() {
        assert(bs.take(k) =~= bs);
        let (req1, carried) = run_befores(bs.take(k), req);
        if carried is None {
            assert(bs.skip(k) =~= Seq::<B>::empty());
        }
    } else {
        lemma_befores_split(bs.drop_last(), k, req);
        assert(bs.drop_last().take(k) =~= bs.take(k));
        let (req1, carried) = run_befores(bs.take(k), req);
        if carried is None {
            assert(bs.skip(k).drop_last() =~= bs.drop_last().skip(k));
            assert(bs.skip(k).last() == bs.last());
        }
    }
}

/// A chain with no before-stages and no after-stages gives what its handler
/// gives: the response of `call` when it succeeds, else the handler's own
/// recovery outcome for the failure.
pub proof fn lemma_empty_chain_is_its_handler<H: Handler, B: BeforeMiddleware, A: AfterMiddleware>(
    c: DefaultChain<H, B, A>,
    req: RequestView,
)
    requires
        c.befores_of().len() == 0,
        c.afters_of().len() == 0,
    ensures
        ({
            let (req1, r) = c.handler_of().call_spec(req);
            match r {
                Ok(resp) => c.outcome(req) == (req1, resp, Ok::<(), Error>(())),
                Err(e) => c.outcome(req) == c.handler_of().catch_spec(req1, e),
            }
        }),
{
    let (req1, r) = c.handler_of().call_spec(req);
    if let Err(e) = r {
        let (req2, resp, r2) = c.handler_of().catch_spec(req1, e);
        if let Ok(u) = r2 {
            assert(u == ());
        }
    }
}

/// When the first `k` before-stages leave no failure and the stage at `k`
/// fails without recovering, the later before-stages and the handler never
/// run: any chain that shares those `k + 1` stages and the after-stages, with
/// any handler and any later before-stages, gives the same outcome. That
/// outcome is the after-stages in abnormal mode, from the empty response, with
/// the failure that was not recovered.
pub proof fn lemma_unrecovered_before_stops<H: Handler, B: BeforeMiddleware, A: AfterMiddleware>(
    c: DefaultChain<H, B, A>,
    other: DefaultChain<H, B, A>,
    k: int,
    req: RequestView,
)
    requires
        0 <= k < c.befores_of().len(),
        k < other.befores_of().len(),
        other.befores_of().take(k + 1) == c.befores_of().take(k + 1),
        other.afters_of() == c.afters_of(),
        run_befores(c.befores_of().take(k), req).1 is None,
        before_step(c.befores_of()[k], run_befores(c.befores_of().take(k), req)).1 is Some,
    ensures
        ({
            let (req1, carried) = before_step(c.befores_of()[k], run_befores(c.befores_of().take(k), req));
            let e = carried->Some_0;
            &&& c.outcome(req) == outcome_of(run_afters(c.afters_of(), Some(e), req1, empty_response(), Some(e)))
            &&& other.outcome(req) == c.outcome(req)
        }),
{
    let bs = c.befores_of();
    let os = other.befores_of();
    assert(bs.take(k + 1).drop_last() =~= bs.take(k));
    assert(bs.take(k + 1).last() == bs[k]);
    assert(os.take(k + 1).drop_last() =~= os.take(k));
    lemma_befores_split(bs, k + 1, req);
    lemma_befores_split(os, k + 1, req);
}

/// When the first `k` before-stages leave no failure and the stage at `k`
/// fails but its `catch` recovers, the dispatch goes on with the stage after
/// it as if nothing had failed, from the request that `catch` left.
pub proof fn lemma_recovered_before_continues<B: BeforeMiddleware>(
    bs: Seq<B>,
    k: int,
    req: RequestView,
)
    requires
        0 <= k < bs.len(),
        run_befores(bs.take(k), req).1 is None,
        bs[k].before_spec(run_befores(bs.take(k), req).0).1 is Err,
        bs[k].catch_spec(
            bs[k].before_spec(run_befores(bs.take(k), req).0).0,
            bs[k].before_spec(run_befores(bs.take(k), req).0).1->Err_0,
        ).1 is Ok,
    ensures
        ({
            let (req1, r1) = bs[k].before_spec(run_befores(bs.take(k), req).0);
            let req2 = bs[k].catch_spec(req1, r1->Err_0).0;
            run_befores(bs, req) == run_befores(bs.skip(k + 1), req2)
        }),
{
    assert(bs.take(k + 1).drop_last() =~= bs.take(k));
    assert(bs.take(k + 1).last() == bs[k]);
    lemma_befores_split(bs, k + 1, req);
}

/// On a response of the normal path, while no failure is carried, an
/// after-stage runs its `after` and its `catch` is never offered a failure.
pub proof fn lemma_normal_response_runs_after<A: AfterMiddleware>(
    a: A,
    req: RequestView,
    resp: ResponseView,
)
    ensures
        ({
            let (req1, resp1, r) = a.after_spec(req, resp);
            after_step(a, None, (req, resp, None)) == (req1, resp1, failure_of(r))
        }),
{
}

/// When every before-stage passes and the handler succeeds, the after-stages
/// see a normal response: none is abnormal, and no failure is carried in.
pub proof fn lemma_handler_success_is_normal<H: Handler, B: BeforeMiddleware, A: AfterMiddleware>(
    c: DefaultChain<H, B, A>,
    req: RequestView,
)
    requires
        run_befores(c.befores_of(), req).1 is None,
        c.handler_of().call_spec(run_befores(c.befores_of(), req).0).1 is Ok,
    ensures
        ({
            let (req1, r) = c.handler_of().call_spec(run_befores(c.befores_of(), req).0);
            c.outcome(req) == outcome_of(run_afters(c.afters_of(), None, req1, r->Ok_0, None))
        }),
{
}

/// Dispatching equal requests through the same chain gives equal requests,
/// responses and failures: no stage keeps state from one dispatch to the next.
pub proof fn lemma_dispatch_is_repeatable<H: Handler, B: BeforeMiddleware, A: AfterMiddleware>(
    c: DefaultChain<H, B, A>,
    req1: RequestView,
    req2: RequestView,
)
    requires
        req1 == req2,
    ensures
        c.outcome(req1) == c.outcome(req2),
{
}

} // verus!
