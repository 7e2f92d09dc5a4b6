//! Creating an index with the mapping of one document type.

use crate::client::{Client, EsResponse, Exchange, Method, Request, RequestView};
use crate::error::{EsError, TransportError};
use crate::json::{json_quoted, quote};
use crate::operations::{comma_join, comma_joined, texts};
use vstd::prelude::*;
use vstd::string::*;

verus! {

/// The keys of a list of entries, in order.
pub open spec fn keys<V>(entries: Seq<(Seq<char>, V)>) -> Seq<Seq<char>> {
    entries.map_values(|entry: (Seq<char>, V)| entry.0)
}

/// `entries` with `value` under `key`: in the place of the entry that had
/// the key, or at the end where none had it.
pub open spec fn attributes_put(
    entries: Seq<(Seq<char>, Seq<char>)>,
    key: Seq<char>,
    value: Seq<char>,
) -> Seq<(Seq<char>, Seq<char>)> {
    if keys(entries).contains(key) {
        entries.update(keys(entries).index_of(key), (key, value))
    } else {
        entries.push((key, value))
    }
}

/// `fields` with `value` under `key` among the attributes of `field`; a
/// field that was not there comes last, with that one attribute.
pub open spec fn properties_put(
    fields: Seq<(Seq<char>, Seq<(Seq<char>, Seq<char>)>)>,
    field: Seq<char>,
    key: Seq<char>,
    value: Seq<char>,
) -> Seq<(Seq<char>, Seq<(Seq<char>, Seq<char>)>)> {
    if keys(fields).contains(field) {
        let at = keys(fields).index_of(field);
        fields.update(at, (field, attributes_put(fields[at].1, key, value)))
    } else {
        fields.push((field, seq![(key, value)]))
    }
}

/// One attribute as a member of a JSON object.
pub open spec fn attribute_member(entry: (Seq<char>, Seq<char>)) -> Seq<char> {
    json_quoted(entry.0) + ":"@ + json_quoted(entry.1)
}

/// The attributes of a field as a JSON object, in their order.
pub open spec fn attributes_text(entries: Seq<(Seq<char>, Seq<char>)>) -> Seq<char> {
    "{"@ + comma_joined(entries.map_values(|entry: (Seq<char>, Seq<char>)| attribute_member(entry)))
        + "}"@
}

/// One field with its attributes as a member of a JSON object.
pub open spec fn field_member(field: (Seq<char>, Seq<(Seq<char>, Seq<char>)>)) -> Seq<char> {
    json_quoted(field.0) + ":"@ + attributes_text(field.1)
}

/// The fields as a JSON object, in their order.
pub open spec fn properties_text(fields: Seq<(Seq<char>, Seq<(Seq<char>, Seq<char>)>)>) -> Seq<
    char,
> {
    "{"@ + comma_joined(
        fields.map_values(|field: (Seq<char>, Seq<(Seq<char>, Seq<char>)>)| field_member(field)),
    ) + "}"@
}

/// The body that maps `doc_type`: the fields under `properties`, under the
/// type's name, under `mappings`.
pub open spec fn mapping_body(
    doc_type: Seq<char>,
    fields: Seq<(Seq<char>, Seq<(Seq<char>, Seq<char>)>)>,
) -> Seq<char> {
    "{\"mappings\":{"@ + json_quoted(doc_type) + ":{\"properties\":"@ + properties_text(fields)
        + "}}}"@
}

/// The one request of a mapping: a PUT to the index with the body.
pub open spec fn mapping_request(
    index: Seq<char>,
    doc_type: Seq<char>,
    fields: Seq<(Seq<char>, Seq<(Seq<char>, Seq<char>)>)>,
) -> RequestView {
    RequestView {
        method: Method::Put,
        path: "/"@ + index,
        body: Some(mapping_body(doc_type, fields)),
    }
}

/// What a mapping makes of the transport's answer. A transport failure is
/// handed on as it is. Any response is success: neither its status nor its
/// body is looked at.
pub open spec fn mapping_outcome(reply: Result<EsResponse, TransportError>) -> Result<
    MappingResult,
    EsError,
> {
    match reply {
        Err(failure) => Err(EsError::TransportError(failure)),
        Ok(_) => Ok(MappingResult),
    }
}

/// Where `key` stands among the keys of `entries`.
fn position<V>(entries: &Vec<(String, V)>, key: &String) -> (found: Option<usize>)
    ensures
        match found {
            Some(at) => at < entries.len() && entries[at as int].0@ == key@,
            None => forall|at: int| 0 <= at < entries.len() ==> entries[at].0@ != key@,
        },
{
    let mut at: usize = 0;
    while at < entries.len()
        invariant
            at <= entries.len(),
            forall|before: int| 0 <= before < at ==> entries[before].0@ != key@,
        decreases entries.len() - at,
    {
        if entries[at].0 == *key {
            return Some(at);
        }
        at += 1;
    }
    None
}

/// Among keys that are all different, a key is found where it stands.
pub proof fn lemma_index_of_distinct(all: Seq<Seq<char>>, at: int)
    requires
        all.no_duplicates(),
        0 <= at < all.len(),
    ensures
        all.contains(all[at]),
        all.index_of(all[at]) == at,
{
    assert(all.contains(all[at]));
    let found = all.index_of(all[at]);
    assert(0 <= found < all.len() && all[found] == all[at]);
}

/// The attributes of one field: values under keys, no key twice, in the
/// order in which the keys were first given.
pub struct Attributes {
    entries: Vec<(String, String)>,
}

impl View for Attributes {
    type V = Seq<(Seq<char>, Seq<char>)>;

    closed spec fn view(&self) -> Seq<(Seq<char>, Seq<char>)> {
        attribute_views(self.entries@)
    }
}

spec fn attribute_views(entries: Seq<(String, String)>) -> Seq<(Seq<char>, Seq<char>)> {
    entries.map_values(|entry: (String, String)| (entry.0@, entry.1@))
}

spec fn field_views(fields: Seq<(String, Attributes)>) -> Seq<
    (Seq<char>, Seq<(Seq<char>, Seq<char>)>),
> {
    fields.map_values(|field: (String, Attributes)| (field.0@, field.1@))
}

impl Attributes {
    #[verifier::type_invariant]
    spec fn no_key_twice(self) -> bool {
        keys(self@).no_duplicates()
    }

    /// No attribute.
    pub fn new() -> (attributes: Self)
        ensures
            attributes@ == Seq::<(Seq<char>, Seq<char>)>::empty(),
    {
        let attributes = Attributes { entries: Vec::new() };
        assert(attributes@ =~= Seq::<(Seq<char>, Seq<char>)>::empty());
        attributes
    }

    /// Puts `value` under `key`, in place of the value that was there.
    pub fn insert(&mut self, key: &str, value: &str)
        ensures
            final(self)@ == attributes_put(old(self)@, key@, value@),
            keys(final(self)@).no_duplicates(),
    {
        proof {
            use_type_invariant(&*self);
        }
        let key = String::from_str(key);
        let value = String::from_str(value);
        let ghost before = self@;
        assert(keys(before).len() == self.entries.len());
        assert forall|at: int| 0 <= at < self.entries.len() implies keys(before)[at]
            == self.entries[at].0@ by {}
        let mut entries: Vec<(String, String)> = Vec::new();
        std::mem::swap(&mut self.entries, &mut entries);
        match position(&entries, &key) {
            Some(at) => {
                proof {
                    lemma_index_of_distinct(keys(before), at as int);
                }
                entries.set(at, (key, value));
                assert(attribute_views(entries@) =~= before.update(at as int, (key@, value@)));
                assert(keys(attribute_views(entries@)) =~= keys(before));
                self.entries = entries;
            },
            None => {
                assert(!keys(before).contains(key@));
                entries.push((key, value));
                assert(attribute_views(entries@) =~= before.push((key@, value@)));
                assert(keys(attribute_views(entries@)) =~= keys(before).push(key@));
                self.entries = entries;
            },
        }
    }

    /// The attributes as a JSON object.
    pub fn to_json(&self) -> (text: String)
        ensures
            text@ == attributes_text(self@),
    {
        let ghost members = self@.map_values(
            |entry: (Seq<char>, Seq<char>)| attribute_member(entry),
        );
        let mut written: Vec<String> = Vec::new();
        let mut at: usize = 0;
        while at < self.entries.len()
            invariant
                at <= self.entries.len(),
                self@.len() == self.entries.len(),
                members == self@.map_values(|entry: (Seq<char>, Seq<char>)| attribute_member(entry)),
                written@.len() == at,
                forall|before: int| 0 <= before < at ==> written@[before]@ == members[before],
            decreases self.entries.len() - at,
        {
            let mut member = quote(self.entries[at].0.as_str());
            member.append(":");
            member.append(quote(self.entries[at].1.as_str()).as_str());
            assert(self@[at as int] == (self.entries[at as int].0@, self.entries[at as int].1@));
            written.push(member);
            at += 1;
        }
        assert(texts(written@) =~= members);
        let mut text = String::from_str("{");
        text.append(comma_join(&written).as_str());
        text.append("}");
        text
    }
}

/// How the fields of a document type are to be indexed: for each field
/// its attributes, no field twice, in the order in which the fields were
/// first named.
pub struct Properties {
    fields: Vec<(String, Attributes)>,
}

impl View for Properties {
    type V = Seq<(Seq<char>, Seq<(Seq<char>, Seq<char>)>)>;

    closed spec fn view(&self) -> Seq<(Seq<char>, Seq<(Seq<char>, Seq<char>)>)> {
        field_views(self.fields@)
    }
}

impl Properties {
    #[verifier::type_invariant]
    spec fn no_field_twice(self) -> bool {
        keys(self@).no_duplicates()
    }

    /// No field.
    pub fn new() -> (properties: Self)
        ensures
            properties@ == Seq::<(Seq<char>, Seq<(Seq<char>, Seq<char>)>)>::empty(),
    {
        let properties = Properties { fields: Vec::new() };
        assert(properties@ =~= Seq::<(Seq<char>, Seq<(Seq<char>, Seq<char>)>)>::empty());
        properties
    }

    /// Puts `value` under `key` among the attributes of `field`.
    pub fn insert(&mut self, field: &str, key: &str, value: &str)
        ensures
            final(self)@ == properties_put(old(self)@, field@, key@, value@),
            keys(final(self)@).no_duplicates(),
    {
        proof {
            use_type_invariant(&*self);
        }
        let field = String::from_str(field);
        let ghost before = self@;
        assert(keys(before).len() == self.fields.len());
        assert forall|at: int| 0 <= at < self.fields.len() implies keys(before)[at]
            == self.fields[at].0@ by {}
        let mut fields: Vec<(String, Attributes)> = Vec::new();
        std::mem::swap(&mut self.fields, &mut fields);
        match position(&fields, &field) {
            Some(at) => {
                proof {
                    lemma_index_of_distinct(keys(before), at as int);
                }
                fields[at].1.insert(key, value);
                assert(field_views(fields@) =~= before.update(
                    at as int,
                    (field@, attributes_put(before[at as int].1, key@, value@)),
                ));
                assert(keys(field_views(fields@)) =~= keys(before));
                self.fields = fields;
            },
            None => {
                assert(!keys(before).contains(field@));
                let mut attributes = Attributes::new();
                attributes.insert(key, value);
                assert(attributes@ =~= seq![(key@, value@)]);
                fields.push((field, attributes));
                assert(field_views(fields@) =~= before.push((field@, seq![(key@, value@)])));
                assert(keys(field_views(fields@)) =~= keys(before).push(field@));
                self.fields = fields;
            },
        }
    }

    /// The fields as a JSON object.
    pub fn to_json(&self) -> (text: String)
        ensures
            text@ == properties_text(self@),
    {
        let ghost members = self@.map_values(
            |field: (Seq<char>, Seq<(Seq<char>, Seq<char>)>)| field_member(field),
        );
        let mut written: Vec<String> = Vec::new();
        let mut at: usize = 0;
        while at < self.fields.len()
            invariant
                at <= self.fields.len(),
                self@.len() == self.fields.len(),
                members == self@.map_values(
                    |field: (Seq<char>, Seq<(Seq<char>, Seq<char>)>)| field_member(field),
                ),
                written@.len() == at,
                forall|before: int| 0 <= before < at ==> written@[before]@ == members[before],
            decreases self.fields.len() - at,
        {
            let mut member = quote(self.fields[at].0.as_str());
            member.append(":");
            member.append(self.fields[at].1.to_json().as_str());
            assert(self@[at as int] == (self.fields[at as int].0@, self.fields[at as int].1@));
            written.push(member);
            at += 1;
        }
        assert(texts(written@) =~= members);
        let mut text = String::from_str("{");
        text.append(comma_join(&written).as_str());
        text.append("}");
        text
    }
}

/// The mapping of one document type, to be sent when its index is created.
/// It borrows the client until it is dropped.
pub struct MappingOperation<'a, 'b, T: Fn(Request) -> Result<EsResponse, TransportError>> {
    /// The client that the request goes through.
    pub client: &'a mut Client<T>,
    /// The index that is created.
    pub index: &'b str,
    /// The document type that is mapped.
    pub doc_type: &'b str,
    /// The mapping itself.
    pub properties: &'b Properties,
}

impl<'a, 'b, T: Fn(Request) -> Result<EsResponse, TransportError>> MappingOperation<'a, 'b, T> {
    /// The round trips that the builder's client has made, as they stand.
    pub open spec fn history(self) -> Seq<Exchange> {
        self.client.history()
    }

    /// A call of `send` took the builder from `before` to `after` and
    /// returned `result`: the configuration is as it was, the client made
    /// exactly one round trip, with the request of this configuration, and
    /// `result` is read off the answer of that round trip.
    pub open spec fn sent(before: Self, after: Self, result: Result<MappingResult, EsError>) -> bool {
        let reply = after.history().last().outcome;
        &&& after.index == before.index
        &&& after.doc_type == before.doc_type
        &&& after.properties == before.properties
        &&& Client::exchanged(
            *before.client,
            *after.client,
            mapping_request(before.index@, before.doc_type@, before.properties@),
            reply,
        )
        &&& result == mapping_outcome(reply)
    }

    /// The mapping `properties` of `doc_type` in `index`, to go through
    /// `client`.
    pub fn new(
        client: &'a mut Client<T>,
        index: &'b str,
        doc_type: &'b str,
        properties: &'b Properties,
    ) -> (op: Self)
        ensures
            *op.client == *old(client),
            *final(op.client) == *final(client),
            op.index == index,
            op.doc_type == doc_type,
            op.properties == properties,
    {
        MappingOperation { client, index, doc_type, properties }
    }

    /// The body of the request.
    pub fn body(&self) -> (body: String)
        ensures
            body@ == mapping_body(self.doc_type@, self.properties@),
    {
        let mut body = String::from_str("{\"mappings\":{");
        body.append(quote(self.doc_type).as_str());
        body.append(":{\"properties\":");
        body.append(self.properties.to_json().as_str());
        body.append("}}}");
        body
    }

    /// The request that `send` issues.
    pub fn request(&self) -> (request: Request)
        ensures
            request@ == mapping_request(self.index@, self.doc_type@, self.properties@),
    {
        let mut path = String::from_str("/");
        path.append(self.index);
        Request { method: Method::Put, path, body: Some(self.body()) }
    }

    /// Reads the transport's answer to the request.
    pub fn read_reply(reply: Result<EsResponse, TransportError>) -> (r: Result<MappingResult, EsError>)
        ensures
            r == mapping_outcome(reply),
    {
        match reply {
            Err(failure) => Err(EsError::TransportError(failure)),
            Ok(_) => Ok(MappingResult),
        }
    }

    /// Issues the request, once, and reads the answer.
    pub fn send(&mut self) -> (r: Result<MappingResult, EsError>)
        ensures
            Self::sent(*old(self), *final(self), r),
            *final(final(self).client) == *final(old(self).client),
    {
        let request = self.request();
        let reply = self.client.request(request);
        Self::read_reply(reply)
    }
}

impl<'a, 'b, T: Fn(Request) -> Result<EsResponse, TransportError>> MappingOperation<'a, 'b, T> {
    /// Once the transport has brought a response, a `send` succeeds,
    /// whatever the status of the response and whatever its body: a 404
    /// too is success.
    pub proof fn lemma_send_succeeds_on_any_response(
        before: Self,
        after: Self,
        result: Result<MappingResult, EsError>,
    )
        requires
            Self::sent(before, after, result),
            after.history().last().outcome is Ok,
        ensures
            result == Ok::<MappingResult, EsError>(MappingResult),
    {
    }

    /// A failure of the transport ends a `send` in that very failure.
    pub proof fn lemma_send_hands_failure_on(
        before: Self,
        after: Self,
        result: Result<MappingResult, EsError>,
    )
        requires
            Self::sent(before, after, result),
            after.history().last().outcome is Err,
        ensures
            result == Err::<MappingResult, EsError>(
                EsError::TransportError(after.history().last().outcome->Err_0),
            ),
    {
    }

    /// Two calls of `send` on one builder make two round trips, one after
    /// the other and both with the request of the builder's configuration,
    /// and each call returns what its own round trip brought.
    pub proof fn lemma_send_twice(
        start: Self,
        between: Self,
        end: Self,
        first: Result<MappingResult, EsError>,
        second: Result<MappingResult, EsError>,
    )
        requires
            Self::sent(start, between, first),
            Self::sent(between, end, second),
        ensures
            ({
                let earlier = start.history();
                let later = end.history();
                let request = mapping_request(start.index@, start.doc_type@, start.properties@);
                let at = earlier.len() as int;
                &&& later.len() == earlier.len() + 2
                &&& later.take(at) == earlier
                &&& later[at].request@ == request
                &&& later[at + 1].request@ == request
                &&& first == mapping_outcome(later[at].outcome)
                &&& second == mapping_outcome(later[at + 1].outcome)
            }),
    {
        let earlier = start.history();
        let middle = between.history();
        let later = end.history();
        assert(middle == later.drop_last());
        assert(earlier == middle.drop_last());
        assert(later.take(earlier.len() as int) =~= earlier);
        assert(later[earlier.len() as int] == middle.last());
    }
}

impl<T: Fn(Request) -> Result<EsResponse, TransportError>> Client<T> {
    /// The mapping `properties` of `doc_type` in `index`, to go through
    /// this client.
    pub fn mapping<'a, 'b>(
        &'a mut self,
        index: &'b str,
        doc_type: &'b str,
        properties: &'b Properties,
    ) -> (op: MappingOperation<'a, 'b, T>)
        ensures
            *op.client == *old(self),
            *final(op.client) == *final(self),
            op.index == index,
            op.doc_type == doc_type,
            op.properties == properties,
    {
        MappingOperation::new(self, index, doc_type, properties)
    }
}

/// The acknowledgement of a mapping: it carries nothing, a response
/// arrived.
#[derive(Debug, Clone, Copy, PartialEq, Eq)]
pub struct MappingResult;

} // verus!
