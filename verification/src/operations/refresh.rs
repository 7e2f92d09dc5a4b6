//! Refreshing indexes, so that what was written to them can be searched.

use crate::client::{Client, EsResponse, Exchange, Method, Request, RequestView};
use crate::error::{EsError, TransportError};
use crate::json::{json_numbers, Document};
use crate::operations::{comma_joined, format_multi, shard_counts_in, texts, ShardCountResult};
use vstd::prelude::*;
use vstd::string::*;

verus! {

/// The path that refreshes `indexes`: the names, comma-joined, before
/// `_refresh`; with no name the segment is left out and all indexes are
/// meant.
pub open spec fn refresh_path(indexes: Seq<Seq<char>>) -> Seq<char> {
    if indexes.len() == 0 {
        "/_refresh"@
    } else {
        "/"@ + comma_joined(indexes) + "/_refresh"@
    }
}

/// The one request of a refresh of `indexes`: a POST without a body.
pub open spec fn refresh_request(indexes: Seq<Seq<char>>) -> RequestView {
    RequestView { method: Method::Post, path: refresh_path(indexes), body: None }
}

/// What a body decodes to: the shard counts under `_shards`, or a codec
/// error where the body is no JSON or does not hold all of them.
pub open spec fn refresh_decoding(body: Seq<char>) -> Result<RefreshResult, EsError> {
    match json_numbers(body) {
        Some(numbers) => match shard_counts_in(numbers) {
            Some(shards) => Ok(RefreshResult { shards }),
            None => Err(EsError::CodecError),
        },
        None => Err(EsError::CodecError),
    }
}

/// What a refresh makes of the transport's answer. A transport failure is
/// handed on as it is and no body is looked at. Only status 200 is
/// accepted, and then the body has to decode; any other status is the
/// error, whatever the body holds.
pub open spec fn refresh_outcome(reply: Result<EsResponse, TransportError>) -> Result<
    RefreshResult,
    EsError,
> {
    match reply {
        Err(failure) => Err(EsError::TransportError(failure)),
        Ok(response) => if response.status == 200 {
            refresh_decoding(response.body@)
        } else {
            Err(EsError::UnexpectedStatus(response.status))
        },
    }
}

/// What a refresh reports: the shards it reached.
#[derive(Debug, Clone, Copy, PartialEq, Eq)]
pub struct RefreshResult {
    pub shards: ShardCountResult,
}

impl RefreshResult {
    /// Decodes the body of a refresh response.
    pub fn decode(body: &str) -> (r: Result<RefreshResult, EsError>)
        ensures
            r == refresh_decoding(body@),
    {
        match Document::parse(body) {
            Some(document) => match ShardCountResult::from_document(&document) {
                Some(shards) => Ok(RefreshResult { shards }),
                None => Err(EsError::CodecError),
            },
            None => Err(EsError::CodecError),
        }
    }
}

/// A refresh, being configured. It borrows the client until it is dropped.
pub struct RefreshOperation<'a, T: Fn(Request) -> Result<EsResponse, TransportError>> {
    /// The client that the request goes through.
    pub client: &'a mut Client<T>,
    /// The indexes being refreshed; none stands for all.
    pub indexes: Vec<String>,
}

impl<'a, T: Fn(Request) -> Result<EsResponse, TransportError>> RefreshOperation<'a, T> {
    /// The round trips that the builder's client has made, as they stand.
    pub open spec fn history(self) -> Seq<Exchange> {
        self.client.history()
    }

    /// A call of `send` took the builder from `before` to `after` and
    /// returned `result`: the configuration is as it was, the client made
    /// exactly one round trip, with the request of this configuration, and
    /// `result` is read off the answer of that round trip.
    pub open spec fn sent(before: Self, after: Self, result: Result<RefreshResult, EsError>) -> bool {
        let reply = after.history().last().outcome;
        &&& after.indexes == before.indexes
        &&& Client::exchanged(
            *before.client,
            *after.client,
            refresh_request(texts(before.indexes@)),
            reply,
        )
        &&& result == refresh_outcome(reply)
    }

    /// A refresh of all indexes through `client`.
    pub fn new(client: &'a mut Client<T>) -> (op: Self)
        ensures
            op.indexes@ == Seq::<String>::empty(),
            *op.client == *old(client),
            *final(op.client) == *final(client),
    {
        RefreshOperation { client, indexes: Vec::new() }
    }

    /// Names the indexes to refresh, in place of those named before.
    pub fn with_indexes(&mut self, indexes: &[&str]) -> (op: &mut Self)
        ensures
            texts(op.indexes@) == indexes@.map_values(|name: &str| name@),
            op.client == old(self).client,
            *final(self) == *final(op),
    {
        let mut names: Vec<String> = Vec::new();
        let mut copied: usize = 0;
        while copied < indexes.len()
            invariant
                copied <= indexes.len(),
                names@.len() == copied,
                forall|at: int| 0 <= at < copied ==> names@[at]@ == indexes@[at]@,
            decreases indexes.len() - copied,
        {
            names.push(String::from_str(indexes[copied]));
            copied += 1;
        }
        assert(texts(names@) =~= indexes@.map_values(|name: &str| name@));
        self.indexes = names;
        self
    }

    /// The path of the request.
    pub fn path(&self) -> (path: String)
        ensures
            path@ == refresh_path(texts(self.indexes@)),
    {
        if self.indexes.len() == 0 {
            String::from_str("/_refresh")
        } else {
            let mut path = String::from_str("/");
            path.append(format_multi(&self.indexes).as_str());
            path.append("/_refresh");
            path
        }
    }

    /// The request that `send` issues.
    pub fn request(&self) -> (request: Request)
        ensures
            request@ == refresh_request(texts(self.indexes@)),
    {
        Request { method: Method::Post, path: self.path(), body: None }
    }

    /// Reads the transport's answer to the request.
    pub fn read_reply(reply: Result<EsResponse, TransportError>) -> (r: Result<RefreshResult, EsError>)
        ensures
            r == refresh_outcome(reply),
    {
        match reply {
            Err(failure) => Err(EsError::TransportError(failure)),
            Ok(response) => {
                if response.status_code() == 200 {
                    RefreshResult::decode(response.body.as_str())
                } else {
                    Err(EsError::UnexpectedStatus(response.status_code()))
                }
            },
        }
    }

    /// Issues the request, once, and reads the answer.
    pub fn send(&mut self) -> (r: Result<RefreshResult, EsError>)
        ensures
            Self::sent(*old(self), *final(self), r),
            *final(final(self).client) == *final(old(self).client),
    {
        let request = self.request();
        let reply = self.client.request(request);
        Self::read_reply(reply)
    }
}

/// A refresh path has one of three shapes. With no index it is `/_refresh`.
/// With one it is the name between two slashes, before `_refresh`. With
/// more, every name but the first follows a comma, and no comma follows
/// the last.
pub proof fn lemma_refresh_path_shapes(indexes: Seq<Seq<char>>)
    ensures
        indexes.len() == 0 ==> refresh_path(indexes) == "/_refresh"@,
        indexes.len() == 1 ==> refresh_path(indexes) == "/"@ + indexes[0] + "/_refresh"@,
        indexes.len() == 2 ==> refresh_path(indexes) == "/"@ + indexes[0] + ","@ + indexes[1]
            + "/_refresh"@,
        indexes.len() > 1 ==> refresh_path(indexes) == "/"@ + comma_joined(indexes.drop_last())
            + ","@ + indexes.last() + "/_refresh"@,
{
    reveal_strlit(",");
    assert(","@ =~= seq![',']);
    if indexes.len() > 1 {
        let front = comma_joined(indexes.drop_last());
        assert(comma_joined(indexes) == front + ","@ + indexes.last());
        assert("/"@ + (front + ","@ + indexes.last()) =~= "/"@ + front + ","@ + indexes.last());
        if indexes.len() == 2 {
            assert(indexes.drop_last().len() == 1);
            assert(front == indexes[0]);
        }
    }
}

impl<'a, T: Fn(Request) -> Result<EsResponse, TransportError>> RefreshOperation<'a, T> {
    /// A `send` succeeds exactly if the transport brought a response of
    /// status 200 whose body holds the three shard counts, and what it
    /// returns then are those counts. A response of any other status ends
    /// in that status as the error, whatever its body holds.
    pub proof fn lemma_send_succeeds_on_200_alone(
        before: Self,
        after: Self,
        result: Result<RefreshResult, EsError>,
    )
        requires
            Self::sent(before, after, result),
        ensures
            ({
                let reply = after.history().last().outcome;
                &&& result is Ok <==> reply is Ok && reply->Ok_0.status == 200 && json_numbers(
                    reply->Ok_0.body@,
                ) is Some && shard_counts_in(json_numbers(reply->Ok_0.body@)->Some_0) is Some
                &&& result is Ok ==> Some(result->Ok_0.shards) == shard_counts_in(
                    json_numbers(reply->Ok_0.body@)->Some_0,
                )
                &&& reply is Ok && reply->Ok_0.status != 200 ==> result == Err::<
                    RefreshResult,
                    EsError,
                >(EsError::UnexpectedStatus(reply->Ok_0.status))
            }),
    {
    }

    /// A response of status 200 whose body is no JSON, or holds no
    /// unsigned integer under one of `/_shards/total`,
    /// `/_shards/successful` and `/_shards/failed`, ends a `send` in a
    /// codec error.
    pub proof fn lemma_send_fails_to_decode(
        before: Self,
        after: Self,
        result: Result<RefreshResult, EsError>,
    )
        requires
            Self::sent(before, after, result),
            after.history().last().outcome is Ok,
            after.history().last().outcome->Ok_0.status == 200,
        ensures
            ({
                let body = after.history().last().outcome->Ok_0.body@;
                let numbers = json_numbers(body)->Some_0;
                let codec_error = Err::<RefreshResult, EsError>(EsError::CodecError);
                &&& json_numbers(body) is None ==> result == codec_error
                &&& !numbers.contains_key("/_shards/total"@) ==> result == codec_error
                &&& !numbers.contains_key("/_shards/successful"@) ==> result == codec_error
                &&& !numbers.contains_key("/_shards/failed"@) ==> result == codec_error
            }),
    {
    }

    /// A failure of the transport ends a `send` in that very failure; there
    /// is no body then, and none is decoded.
    pub proof fn lemma_send_hands_failure_on(
        before: Self,
        after: Self,
        result: Result<RefreshResult, EsError>,
    )
        requires
            Self::sent(before, after, result),
            after.history().last().outcome is Err,
        ensures
            result == Err::<RefreshResult, EsError>(
                EsError::TransportError(after.history().last().outcome->Err_0),
            ),
    {
    }

    /// Two calls of `send` on one builder make two round trips, one after
    /// the other and both with the request of the builder's configuration,
    /// and each call returns what its own round trip brought: nothing of
    /// the first answer is kept for the second.
    pub proof fn lemma_send_twice(
        start: Self,
        between: Self,
        end: Self,
        first: Result<RefreshResult, EsError>,
        second: Result<RefreshResult, EsError>,
    )
        requires
            Self::sent(start, between, first),
            Self::sent(between, end, second),
        ensures
            ({
                let earlier = start.history();
                let later = end.history();
                let at = earlier.len() as int;
                &&& end.indexes == start.indexes
                &&& later.len() == earlier.len() + 2
                &&& later.take(at) == earlier
                &&& later[at].request@ == refresh_request(texts(start.indexes@))
                &&& later[at + 1].request@ == refresh_request(texts(start.indexes@))
                &&& first == refresh_outcome(later[at].outcome)
                &&& second == refresh_outcome(later[at + 1].outcome)
            }),
    {
        let earlier = start.history();
        let middle = between.history();
        let later = end.history();
        assert(middle == later.drop_last());
        assert(earlier == middle.drop_last());
        assert(later.take(earlier.len() as int) =~= earlier);
        assert(later[earlier.len() as int] == middle.last());
    }
}

impl<T: Fn(Request) -> Result<EsResponse, TransportError>> Client<T> {
    /// A refresh through this client, of all indexes until it is told
    /// otherwise.
    pub fn refresh<'a>(&'a mut self) -> (op: RefreshOperation<'a, T>)
        ensures
            op.indexes@ == Seq::<String>::empty(),
            *op.client == *old(self),
            *final(op.client) == *final(self),
    {
        RefreshOperation::new(self)
    }
}

} // verus!
