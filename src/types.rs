use vstd::prelude::*;

verus! {

/// A failure carried through a dispatch. This layer compares failures only by
/// presence or absence; the code lets the stages themselves tell them apart.
#[derive(Clone, Copy, Debug, PartialEq, Eq, Structural)]
pub struct Error {
    pub code: u64,
}

impl Error {
    pub fn new(code: u64) -> (r: Error)
        ensures
            r.code == code,
    {
        Error { code }
    }
}

/// The outcome of a stage: success with a value, or a carried failure.
pub type IronResult<T> = Result<T, Error>;

/// The mutable per-dispatch context handed to every stage.
pub struct Request {
    pub path: String,
    pub body: Vec<u8>,
}

/// What a request holds, as mathematical values.
pub ghost struct RequestView {
    pub path: Seq<char>,
    pub body: Seq<u8>,
}

impl View for Request {
    type V = RequestView;

    open spec fn view(&self) -> RequestView {
        RequestView { path: self.path@, body: self.body@ }
    }
}

impl Request {
    pub fn new(path: String, body: Vec<u8>) -> (r: Request)
        ensures
            r@.path == path@,
            r@.body == body@,
    {
        Request { path, body }
    }
}

/// The output of a dispatch; after-stages may change it.
pub struct Response {
    pub status: Option<u16>,
    pub body: Vec<u8>,
}

/// What a response holds, as mathematical values.
pub ghost struct ResponseView {
    pub status: Option<u16>,
    pub body: Seq<u8>,
}

impl View for Response {
    type V = ResponseView;

    open spec fn view(&self) -> ResponseView {
        ResponseView { status: self.status, body: self.body@ }
    }
}

/// The empty response: no status and no body. It is the fallback outcome of a
/// dispatch that fails before any response was produced.
pub open spec fn empty_response() -> ResponseView {
    ResponseView { status: None, body: Seq::empty() }
}

impl Response {
    pub fn new() -> (r: Response)
        ensures
            r@ == empty_response(),
    {
        Response { status: None, body: Vec::new() }
    }

    pub fn with_body(status: u16, body: Vec<u8>) -> (r: Response)
        ensures
            r@.status == Some(status),
            r@.body == body@,
    {
        Response { status: Some(status), body }
    }
}

/// The view of a handler's result.
pub open spec fn result_view(r: IronResult<Response>) -> IronResult<ResponseView> {
    match r {
        Ok(resp) => Ok(resp@),
        Err(e) => Err(e),
    }
}

} // verus!
