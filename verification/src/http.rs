//! Requests to a web service and what comes back, as plain values.

use vstd::prelude::*;

verus! {

#[derive(Debug, Clone, Copy, PartialEq, Eq, Structural)]
pub enum Method {
    Get,
    Post,
    Put,
}

/// A request that is to be sent.
#[derive(Debug)]
pub struct HttpRequest {
    pub method: Method,
    pub url: String,
    /// Parameters behind the address.
    pub query: Vec<(String, String)>,
    /// Fields of a form in the body.
    pub form: Vec<(String, String)>,
    pub headers: Vec<(String, String)>,
}

/// What an [`HttpRequest`] asks.
pub ghost struct RequestView {
    pub method: Method,
    pub url: Seq<char>,
    pub query: Seq<(Seq<char>, Seq<char>)>,
    pub form: Seq<(Seq<char>, Seq<char>)>,
    pub headers: Seq<(Seq<char>, Seq<char>)>,
}

impl View for HttpRequest {
    type V = RequestView;

    open spec fn view(&self) -> RequestView {
        RequestView {
            method: self.method,
            url: self.url@,
            query: self.query.deep_view(),
            form: self.form.deep_view(),
            headers: self.headers.deep_view(),
        }
    }
}

/// How sending or receiving failed.
#[derive(Debug, Clone, Copy, PartialEq, Eq, Structural)]
pub struct Fault {
    /// Nothing came in time.
    pub timeout: bool,
    /// What came could not be decoded.
    pub decode: bool,
}

/// What became of a request.
#[derive(Debug)]
pub enum Reply {
    /// Nothing came back.
    Failed(Fault),
    /// A status came back, and a body, unless reading it failed.
    Answered { status: u16, body: Result<Vec<u8>, Fault> },
}

/// What a [`Reply`] says.
pub ghost enum ReplyView {
    Failed(Fault),
    Answered { status: u16, body: Result<Seq<u8>, Fault> },
}

impl View for Reply {
    type V = ReplyView;

    open spec fn view(&self) -> ReplyView {
        match *self {
            Reply::Failed(fault) => ReplyView::Failed(fault),
            Reply::Answered { status, body } => ReplyView::Answered {
                status,
                body: match body {
                    Ok(bytes) => Ok(bytes@),
                    Err(fault) => Err(fault),
                },
            },
        }
    }
}

/// What the replies that came so far say.
pub open spec fn replies_of(replies: Seq<Reply>) -> Seq<ReplyView> {
    Seq::new(replies.len(), |i: int| replies[i]@)
}

/// Whether a status says that the request succeeded.
pub open spec fn success(status: u16) -> bool {
    200 <= status < 300
}

pub fn is_success(status: u16) -> (r: bool)
    ensures
        r == success(status),
{
    200 <= status && status < 300
}

/// Add a named value to a list of them.
pub fn push_pair(list: &mut Vec<(String, String)>, name: &str, value: &str)
    ensures
        final(list).deep_view() == old(list).deep_view().push((name@, value@)),
{
    let ghost before = list.deep_view();
    list.push((name.to_owned(), value.to_owned()));
    assert(list.deep_view() =~= before.push((name@, value@)));
}

/// An empty list of named values.
pub fn no_pairs() -> (list: Vec<(String, String)>)
    ensures
        list.deep_view() == Seq::<(Seq<char>, Seq<char>)>::empty(),
{
    let list: Vec<(String, String)> = Vec::new();
    assert(list.deep_view() =~= Seq::<(Seq<char>, Seq<char>)>::empty());
    list
}

/// The header that asks for JSON.
pub open spec fn accept_json() -> (Seq<char>, Seq<char>) {
    ("Accept"@, "application/json"@)
}

} // verus!
