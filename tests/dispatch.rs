use iron_middleware::{
    AfterMiddleware, BeforeMiddleware, Chain, DefaultChain, Error, Handler, IronResult, Request,
    Response,
};
use iron_middleware::types::{RequestView, ResponseView};

// The traits' spec functions describe each stage to the verifier and have no
// run-time role: the dispatch never calls them, so these stages leave them
// unreachable.

/// A handler that marks the request, then answers or fails.
struct Terminal {
    fail: Option<u64>,
    recover: bool,
}

impl Handler for Terminal {
    fn call_spec(&self, _req: RequestView) -> (RequestView, IronResult<ResponseView>) {
        unreachable!()
    }

    fn catch_spec(&self, _req: RequestView, _err: Error) -> (RequestView, ResponseView, IronResult<()>) {
        unreachable!()
    }

    fn call(&self, req: &mut Request) -> IronResult<Response> {
        req.body.push(b'H');
        match self.fail {
            None => Ok(Response::with_body(200, vec![1])),
            Some(code) => Err(Error::new(code)),
        }
    }

    fn catch(&self, req: &mut Request, err: Error) -> (Response, IronResult<()>) {
        req.body.push(b'h');
        let fallback = Response::with_body(500, vec![9]);
        if self.recover {
            (fallback, Ok(()))
        } else {
            (fallback, Err(err))
        }
    }
}

/// A before-stage that marks the request with its tag; its `catch` marks it
/// with the tag plus 100 and recovers only when told to.
struct Pre {
    tag: u8,
    fail: Option<u64>,
    recover: bool,
}

impl BeforeMiddleware for Pre {
    fn before_spec(&self, _req: RequestView) -> (RequestView, IronResult<()>) {
        unreachable!()
    }

    fn catch_spec(&self, _req: RequestView, _err: Error) -> (RequestView, IronResult<()>) {
        unreachable!()
    }

    fn before(&self, req: &mut Request) -> IronResult<()> {
        req.body.push(self.tag);
        match self.fail {
            None => Ok(()),
            Some(code) => Err(Error::new(code)),
        }
    }

    fn catch(&self, req: &mut Request, err: Error) -> IronResult<()> {
        req.body.push(self.tag + 100);
        if self.recover {
            Ok(())
        } else {
            Err(err)
        }
    }
}

/// An after-stage that marks the response with its tag; its `catch` marks it
/// with the tag plus 100 and records the code of the failure it was offered.
struct Post {
    tag: u8,
    fail: Option<u64>,
    recover: bool,
}

impl AfterMiddleware for Post {
    fn after_spec(&self, _req: RequestView, _resp: ResponseView) -> (RequestView, ResponseView, IronResult<()>) {
        unreachable!()
    }

    fn catch_spec(
        &self,
        _req: RequestView,
        _resp: ResponseView,
        _err: Error,
    ) -> (RequestView, ResponseView, IronResult<()>) {
        unreachable!()
    }

    fn after(&self, _req: &mut Request, resp: &mut Response) -> IronResult<()> {
        resp.body.push(self.tag);
        match self.fail {
            None => Ok(()),
            Some(code) => Err(Error::new(code)),
        }
    }

    fn catch(&self, _req: &mut Request, resp: &mut Response, err: Error) -> IronResult<()> {
        resp.body.push(self.tag + 100);
        resp.body.push(err.code as u8);
        if self.recover {
            Ok(())
        } else {
            Err(err)
        }
    }
}

fn ok_pre(tag: u8) -> Pre {
    Pre { tag, fail: None, recover: false }
}

fn ok_post(tag: u8) -> Post {
    Post { tag, fail: None, recover: false }
}

fn request() -> Request {
    Request::new(String::from("/"), vec![])
}

#[test]
fn scenario_a_handler_only() {
    let c: DefaultChain<Terminal, Pre, Post> = Chain::new(Terminal { fail: None, recover: false });
    let mut req = request();
    let (resp, r) = c.dispatch(&mut req);
    assert_eq!(resp.status, Some(200));
    assert_eq!(resp.body, vec![1]);
    assert!(r.is_ok());
    assert_eq!(req.body, vec![b'H']);
}

#[test]
fn scenario_b_before_fails_without_recovery() {
    let mut c: DefaultChain<Terminal, Pre, Post> = Chain::new(Terminal { fail: None, recover: false });
    c.link_before(Pre { tag: 1, fail: Some(41), recover: false });
    let mut req = request();
    let (resp, r) = c.dispatch(&mut req);
    assert_eq!(resp.status, None);
    assert!(resp.body.is_empty());
    assert_eq!(r, Err(Error::new(41)));
    // the before-stage and its catch ran; the handler did not
    assert_eq!(req.body, vec![1, 101]);
}

#[test]
fn scenario_c_after_catch_recovers_fallback() {
    let mut c: DefaultChain<Terminal, Pre, Post> = Chain::new(Terminal { fail: Some(42), recover: true });
    c.link_after(Post { tag: 5, fail: None, recover: true });
    let mut req = request();
    let (resp, r) = c.dispatch(&mut req);
    assert_eq!(resp.status, Some(500));
    // the fallback body, marked by the after-stage's catch with the origin failure
    assert_eq!(resp.body, vec![9, 105, 42]);
    assert!(r.is_ok());
    assert_eq!(req.body, vec![b'H', b'h']);
}

#[test]
fn scenario_d_after_failure_is_carried() {
    let mut c: DefaultChain<Terminal, Pre, Post> = Chain::new(Terminal { fail: None, recover: false });
    c.link_after(Post { tag: 1, fail: Some(43), recover: false });
    c.link_after(ok_post(2));
    let mut req = request();
    let (resp, r) = c.dispatch(&mut req);
    // the second stage's catch ran with the carried failure, not its after
    assert_eq!(resp.body, vec![1, 1, 102, 43]);
    assert_eq!(r, Err(Error::new(43)));
}

#[test]
fn empty_chain_failure_is_handler_catch() {
    let c: DefaultChain<Terminal, Pre, Post> = Chain::new(Terminal { fail: Some(7), recover: false });
    let mut req = request();
    let (resp, r) = c.dispatch(&mut req);
    assert_eq!(resp.status, Some(500));
    assert_eq!(resp.body, vec![9]);
    assert_eq!(r, Err(Error::new(7)));

    let c2: DefaultChain<Terminal, Pre, Post> = Chain::new(Terminal { fail: Some(7), recover: true });
    let mut req2 = request();
    let (resp2, r2) = c2.dispatch(&mut req2);
    assert_eq!(resp2.body, vec![9]);
    assert!(r2.is_ok());
}

#[test]
fn unrecovered_before_skips_rest_and_handler() {
    let mut c: DefaultChain<Terminal, Pre, Post> = Chain::new(Terminal { fail: None, recover: false });
    c.link_before(ok_pre(1));
    c.link_before(Pre { tag: 2, fail: Some(8), recover: false });
    c.link_before(ok_pre(3));
    c.link_after(ok_post(4));
    let mut req = request();
    let (resp, r) = c.dispatch(&mut req);
    assert_eq!(req.body, vec![1, 2, 102]);
    // the after-stage ran in abnormal mode on the empty response
    assert_eq!(resp.status, None);
    assert_eq!(resp.body, vec![104, 8]);
    assert_eq!(r, Err(Error::new(8)));
}

#[test]
fn recovered_before_continues() {
    let mut c: DefaultChain<Terminal, Pre, Post> = Chain::new(Terminal { fail: None, recover: false });
    c.link_before(ok_pre(1));
    c.link_before(Pre { tag: 2, fail: Some(8), recover: true });
    c.link_before(ok_pre(3));
    c.link_after(ok_post(4));
    let mut req = request();
    let (resp, r) = c.dispatch(&mut req);
    assert_eq!(req.body, vec![1, 2, 102, 3, b'H']);
    assert_eq!(resp.body, vec![1, 4]);
    assert!(r.is_ok());
}

#[test]
fn normal_response_runs_after_only() {
    let mut c: DefaultChain<Terminal, Pre, Post> = Chain::new(Terminal { fail: None, recover: false });
    c.link_after(ok_post(1));
    c.link_after(ok_post(2));
    c.link_after(ok_post(3));
    let mut req = request();
    let (resp, r) = c.dispatch(&mut req);
    assert_eq!(resp.body, vec![1, 1, 2, 3]);
    assert!(r.is_ok());
}

#[test]
fn abnormal_response_stays_abnormal() {
    let mut c: DefaultChain<Terminal, Pre, Post> = Chain::new(Terminal { fail: Some(6), recover: true });
    c.link_after(Post { tag: 1, fail: None, recover: true });
    c.link_after(Post { tag: 2, fail: None, recover: true });
    let mut req = request();
    let (resp, r) = c.dispatch(&mut req);
    assert_eq!(resp.body, vec![9, 101, 6, 102, 6]);
    assert!(r.is_ok());
}

#[test]
fn after_catch_without_recovery_keeps_failure() {
    let mut c: DefaultChain<Terminal, Pre, Post> = Chain::new(Terminal { fail: Some(6), recover: false });
    c.link_after(ok_post(1));
    let mut req = request();
    let (resp, r) = c.dispatch(&mut req);
    assert_eq!(resp.body, vec![9, 101, 6]);
    assert_eq!(r, Err(Error::new(6)));
}

#[test]
fn dispatch_twice_gives_equal_outcomes() {
    let mut c: DefaultChain<Terminal, Pre, Post> = Chain::new(Terminal { fail: Some(3), recover: false });
    c.link((ok_pre(1), Post { tag: 2, fail: None, recover: true }));
    let mut req1 = request();
    let mut req2 = request();
    let (resp1, r1) = c.dispatch(&mut req1);
    let (resp2, r2) = c.dispatch(&mut req2);
    assert_eq!(resp1.status, resp2.status);
    assert_eq!(resp1.body, resp2.body);
    assert_eq!(r1, r2);
    assert_eq!(req1.body, req2.body);
    assert_eq!(req1.path, req2.path);
}

#[test]
fn link_appends_in_insertion_order() {
    let mut c: DefaultChain<Terminal, Pre, Post> = Chain::new(Terminal { fail: None, recover: false });
    c.link((ok_pre(1), ok_post(11)));
    c.link_before(ok_pre(2));
    c.link_after(ok_post(12));
    c.link((ok_pre(3), ok_post(13)));
    let mut req = request();
    let (resp, r) = c.dispatch(&mut req);
    assert_eq!(req.body, vec![1, 2, 3, b'H']);
    assert_eq!(resp.body, vec![1, 11, 12, 13]);
    assert!(r.is_ok());
}

#[test]
fn chain_as_handler_call() {
    let mut c: DefaultChain<Terminal, Pre, Post> = Chain::new(Terminal { fail: None, recover: false });
    c.link_after(ok_post(4));
    let mut req = request();
    let resp = c.call(&mut req).unwrap();
    assert_eq!(resp.body, vec![1, 4]);

    c.link_before(Pre { tag: 1, fail: Some(12), recover: false });
    let mut req2 = request();
    assert_eq!(c.call(&mut req2).err(), Some(Error::new(12)));
}

#[test]
fn chain_as_handler_catch() {
    let mut c: DefaultChain<Terminal, Pre, Post> = Chain::new(Terminal { fail: None, recover: false });
    c.link_after(Post { tag: 4, fail: None, recover: true });
    let mut req = request();
    let (resp, r) = Handler::catch(&c, &mut req, Error::new(30));
    assert_eq!(resp.status, Some(500));
    assert_eq!(resp.body, vec![9, 104, 30]);
    assert!(r.is_ok());
    assert_eq!(req.body, vec![b'h']);
}

#[test]
fn nested_chain_as_handler() {
    let inner: DefaultChain<Terminal, Pre, Post> = Chain::new(Terminal { fail: None, recover: false });
    let mut outer: DefaultChain<DefaultChain<Terminal, Pre, Post>, Pre, Post> = Chain::new(inner);
    outer.link((ok_pre(1), ok_post(2)));
    let mut req = request();
    let (resp, r) = outer.dispatch(&mut req);
    assert_eq!(req.body, vec![1, b'H']);
    assert_eq!(resp.body, vec![1, 2]);
    assert!(r.is_ok());
}

#[test]
fn fresh_response_is_empty() {
    let resp = Response::new();
    assert_eq!(resp.status, None);
    assert!(resp.body.is_empty());
    let req = Request::new(String::from("/a"), vec![3]);
    assert_eq!(req.path, "/a");
    assert_eq!(req.body, vec![3]);
}
