//! The client: one transport, and the record of what went through it.

use crate::error::TransportError;
use vstd::prelude::*;
use vstd::string::*;

verus! {

/// The HTTP verbs the operations use.
#[derive(Debug, Clone, Copy, PartialEq, Eq, Structural)]
pub enum Method {
    Get,
    Post,
    Put,
    Delete,
}

/// What is handed to the transport: a verb, a path from the server's root,
/// and the JSON text of the body if the operation has one.
#[derive(Debug, Clone, PartialEq, Eq)]
pub struct Request {
    pub method: Method,
    pub path: String,
    pub body: Option<String>,
}

/// A request as contracts speak of it.
pub struct RequestView {
    pub method: Method,
    pub path: Seq<char>,
    pub body: Option<Seq<char>>,
}

impl View for Request {
    type V = RequestView;

    open spec fn view(&self) -> RequestView {
        RequestView {
            method: self.method,
            path: self.path@,
            body: match self.body {
                Some(text) => Some(text@),
                None => None,
            },
        }
    }
}

/// What the transport hands back when the exchange itself went through:
/// the status code and the body as text, not yet decoded.
#[derive(Debug, Clone, PartialEq, Eq)]
pub struct EsResponse {
    pub status: u16,
    pub body: String,
}

impl EsResponse {
    pub fn status_code(&self) -> (code: u16)
        ensures
            code == self.status,
    {
        self.status
    }
}

/// One round trip: the request as it was handed to the transport and what
/// the transport returned for it.
pub struct Exchange {
    pub request: Request,
    pub outcome: Result<EsResponse, TransportError>,
}

/// The root of the library. It owns the transport, a function that
/// performs one request, and every operation goes through it.
///
/// `history()` is the ghost record of the round trips made so far, in
/// order; contracts use it to say how many requests a call issued and
/// which.
pub struct Client<T: Fn(Request) -> Result<EsResponse, TransportError>> {
    transport: T,
    history: Ghost<Seq<Exchange>>,
}

impl<T: Fn(Request) -> Result<EsResponse, TransportError>> Client<T> {
    #[verifier::type_invariant]
    spec fn takes_every_request(self) -> bool {
        forall|request: Request| call_requires(self.transport, (request,))
    }

    /// The transport this client was made with.
    pub closed spec fn transport(&self) -> T {
        self.transport
    }

    /// The round trips made through this client, oldest first.
    pub closed spec fn history(&self) -> Seq<Exchange> {
        self.history@
    }

    /// `outcome` is something the transport can return for `request`.
    pub open spec fn may_answer(
        &self,
        request: Request,
        outcome: Result<EsResponse, TransportError>,
    ) -> bool {
        call_ensures(self.transport(), (request,), outcome)
    }

    /// `after` is `before` with exactly one more round trip: a request that
    /// reads `request`, answered by the transport with `outcome`.
    pub open spec fn exchanged(
        before: Self,
        after: Self,
        request: RequestView,
        outcome: Result<EsResponse, TransportError>,
    ) -> bool {
        &&& after.transport() == before.transport()
        &&& after.history().len() == before.history().len() + 1
        &&& after.history().drop_last() == before.history()
        &&& after.history().last().request@ == request
        &&& after.history().last().outcome == outcome
        &&& before.may_answer(after.history().last().request, outcome)
    }

    /// A client over `transport`, which must take every request.
    pub fn new(transport: T) -> (client: Self)
        requires
            forall|request: Request| call_requires(transport, (request,)),
        ensures
            client.transport() == transport,
            client.history() == Seq::<Exchange>::empty(),
    {
        Client { transport, history: Ghost(Seq::empty()) }
    }

    /// Hands `request` to the transport, once, and returns what came back
    /// untouched. Nothing is retried.
    pub fn request(&mut self, request: Request) -> (outcome: Result<EsResponse, TransportError>)
        ensures
            final(self).transport() == old(self).transport(),
            final(self).history() == old(self).history().push(Exchange { request, outcome }),
            old(self).may_answer(request, outcome),
            Self::exchanged(*old(self), *final(self), request@, outcome),
    {
        proof {
            use_type_invariant(&*self);
        }
        let ghost sent = request;
        let outcome = (self.transport)(request);
        proof {
            self.history@ = self.history@.push(Exchange { request: sent, outcome });
            assert(self.history@.drop_last() =~= old(self).history@);
        }
        outcome
    }

    /// One GET of `path`.
    pub fn get_op(&mut self, path: &str) -> (outcome: Result<EsResponse, TransportError>)
        ensures
            Self::exchanged(
                *old(self),
                *final(self),
                RequestView { method: Method::Get, path: path@, body: None },
                outcome,
            ),
    {
        self.request(Request { method: Method::Get, path: String::from_str(path), body: None })
    }

    /// One POST to `path`, without a body.
    pub fn post_op(&mut self, path: &str) -> (outcome: Result<EsResponse, TransportError>)
        ensures
            Self::exchanged(
                *old(self),
                *final(self),
                RequestView { method: Method::Post, path: path@, body: None },
                outcome,
            ),
    {
        self.request(Request { method: Method::Post, path: String::from_str(path), body: None })
    }

    /// One PUT to `path` of `body`, which is JSON text.
    pub fn put_body_op(&mut self, path: &str, body: &str) -> (outcome: Result<
        EsResponse,
        TransportError,
    >)
        ensures
            Self::exchanged(
                *old(self),
                *final(self),
                RequestView { method: Method::Put, path: path@, body: Some(body@) },
                outcome,
            ),
    {
        self.request(
            Request {
                method: Method::Put,
                path: String::from_str(path),
                body: Some(String::from_str(body)),
            },
        )
    }

    /// One DELETE of `path`.
    pub fn delete_op(&mut self, path: &str) -> (outcome: Result<EsResponse, TransportError>)
        ensures
            Self::exchanged(
                *old(self),
                *final(self),
                RequestView { method: Method::Delete, path: path@, body: None },
                outcome,
            ),
    {
        self.request(Request { method: Method::Delete, path: String::from_str(path), body: None })
    }
}

} // verus!
