use std::cell::RefCell;
use std::rc::Rc;

use rs_es::operations::mapping::{Attributes, MappingOperation, MappingResult, Properties};
use rs_es::{Client, EsError, EsResponse, Method, Request, TransportError};

fn answer(status: u16, body: &str) -> Result<EsResponse, TransportError> {
    Ok(EsResponse { status, body: body.to_string() })
}

#[test]
fn test_mapping() {
    let index_name = "tests_test_mapping";
    let mut client = Client::new(|_request: Request| answer(200, "{\"acknowledged\":true}"));

    client.delete_op(&format!("/{}", index_name)).unwrap();

    let mut mapping = Properties::new();
    mapping.insert("created_at", "type", "date");
    mapping.insert("created_at", "format", "strict_date_optional_time");
    mapping.insert("title", "type", "string");
    mapping.insert("title", "index", "not_analyzed");

    let result = MappingOperation::new(&mut client, index_name, "sample", &mapping).send();
    assert!(result.is_ok());
}

#[test]
fn mapping_sends_put_with_nested_body() {
    let seen: Rc<RefCell<Vec<Request>>> = Rc::new(RefCell::new(Vec::new()));
    let log = seen.clone();
    let mut client = Client::new(move |request: Request| {
        log.borrow_mut().push(request);
        answer(200, "{}")
    });
    let mut properties = Properties::new();
    properties.insert("title", "type", "string");

    let result = client.mapping("articles", "post", &properties).send();

    assert_eq!(result, Ok(MappingResult));
    let seen = seen.borrow();
    assert_eq!(seen.len(), 1);
    assert_eq!(seen[0].method, Method::Put);
    assert_eq!(seen[0].path, "/articles");
    assert_eq!(
        seen[0].body.as_deref(),
        Some("{\"mappings\":{\"post\":{\"properties\":{\"title\":{\"type\":\"string\"}}}}}")
    );
}

#[test]
fn mapping_request_is_what_send_issues() {
    let seen: Rc<RefCell<Vec<Request>>> = Rc::new(RefCell::new(Vec::new()));
    let log = seen.clone();
    let mut client = Client::new(move |request: Request| {
        log.borrow_mut().push(request);
        answer(200, "")
    });
    let mut properties = Properties::new();
    properties.insert("created_at", "type", "date");
    properties.insert("created_at", "format", "strict_date_optional_time");
    properties.insert("title", "type", "string");
    let mut op = MappingOperation::new(&mut client, "logs", "entry", &properties);

    let planned = op.request();
    op.send().unwrap();

    assert_eq!(
        planned.body.as_deref(),
        Some(
            "{\"mappings\":{\"entry\":{\"properties\":{\"created_at\":{\"type\":\"date\",\
             \"format\":\"strict_date_optional_time\"},\"title\":{\"type\":\"string\"}}}}}"
        )
    );
    assert_eq!(seen.borrow()[0], planned);
}

#[test]
fn mapping_body_is_valid_json_of_the_given_shape() {
    let mut client = Client::new(|_request: Request| answer(200, ""));
    let mut properties = Properties::new();
    properties.insert("title", "type", "string");
    properties.insert("title", "index", "not_analyzed");
    let op = MappingOperation::new(&mut client, "articles", "post", &properties);

    let parsed: serde_json::Value = serde_json::from_str(&op.body()).unwrap();

    assert_eq!(
        parsed.pointer("/mappings/post/properties/title/type").and_then(|v| v.as_str()),
        Some("string")
    );
    assert_eq!(
        parsed.pointer("/mappings/post/properties/title/index").and_then(|v| v.as_str()),
        Some("not_analyzed")
    );
    assert_eq!(parsed.as_object().map(|top| top.len()), Some(1));
}

#[test]
fn mapping_body_escapes_what_json_does_not_allow() {
    let mut client = Client::new(|_request: Request| answer(200, ""));
    let mut properties = Properties::new();
    properties.insert("na\"me", "ty\\pe", "line\nbreak");
    let op = MappingOperation::new(&mut client, "articles", "po\"st", &properties);

    let body = op.body();

    assert_eq!(
        body,
        "{\"mappings\":{\"po\\\"st\":{\"properties\":{\"na\\\"me\":{\"ty\\\\pe\":\"line\\nbreak\"}}}}}"
    );
    let parsed: serde_json::Value = serde_json::from_str(&body).unwrap();
    assert_eq!(
        parsed.pointer("/mappings/po\"st/properties/na\"me/ty\\pe").and_then(|v| v.as_str()),
        Some("line\nbreak")
    );
}

#[test]
fn mapping_with_no_field_sends_empty_properties() {
    let mut client = Client::new(|_request: Request| answer(200, ""));
    let properties = Properties::new();
    let op = MappingOperation::new(&mut client, "articles", "post", &properties);

    assert_eq!(op.body(), "{\"mappings\":{\"post\":{\"properties\":{}}}}");
    assert_eq!(op.request().path, "/articles");
}

#[test]
fn mapping_succeeds_whatever_the_status() {
    for status in [200u16, 201, 204, 301, 400, 404, 500, 0, u16::MAX] {
        let mut client = Client::new(move |_request: Request| answer(status, "not even json"));
        let mut properties = Properties::new();
        properties.insert("title", "type", "string");

        let result = MappingOperation::new(&mut client, "articles", "post", &properties).send();

        assert_eq!(result, Ok(MappingResult));
    }
}

#[test]
fn mapping_reads_any_response_as_success() {
    let reply = answer(404, "{\"error\":\"IndexMissingException\"}");
    let read: Result<MappingResult, EsError> =
        MappingOperation::<fn(Request) -> Result<EsResponse, TransportError>>::read_reply(reply);
    assert_eq!(read, Ok(MappingResult));
}

#[test]
fn mapping_hands_on_a_transport_failure() {
    let mut client = Client::new(|_request: Request| -> Result<EsResponse, TransportError> {
        Err(TransportError { message: "connection refused".to_string() })
    });
    let mut properties = Properties::new();
    properties.insert("title", "type", "string");

    let result = MappingOperation::new(&mut client, "articles", "post", &properties).send();

    assert_eq!(
        result,
        Err(EsError::TransportError(TransportError { message: "connection refused".to_string() }))
    );
}

#[test]
fn mapping_sent_twice_issues_two_requests() {
    let seen: Rc<RefCell<Vec<Request>>> = Rc::new(RefCell::new(Vec::new()));
    let log = seen.clone();
    let mut client = Client::new(move |request: Request| {
        log.borrow_mut().push(request);
        answer(200, "")
    });
    let mut properties = Properties::new();
    properties.insert("title", "type", "string");
    let mut op = MappingOperation::new(&mut client, "articles", "post", &properties);

    assert_eq!(op.send(), Ok(MappingResult));
    assert_eq!(op.send(), Ok(MappingResult));

    let seen = seen.borrow();
    assert_eq!(seen.len(), 2);
    assert_eq!(seen[0], seen[1]);
}

#[test]
fn properties_keep_first_order_and_last_value() {
    let mut client = Client::new(|_request: Request| answer(200, ""));
    let mut properties = Properties::new();
    properties.insert("b", "type", "string");
    properties.insert("a", "type", "date");
    properties.insert("b", "index", "analyzed");
    properties.insert("b", "type", "long");
    properties.insert("a", "type", "date");

    assert_eq!(
        properties.to_json(),
        "{\"b\":{\"type\":\"long\",\"index\":\"analyzed\"},\"a\":{\"type\":\"date\"}}"
    );
    let op = MappingOperation::new(&mut client, "i", "t", &properties);
    assert_eq!(
        op.body(),
        "{\"mappings\":{\"t\":{\"properties\":{\"b\":{\"type\":\"long\",\"index\":\"analyzed\"},\
         \"a\":{\"type\":\"date\"}}}}}"
    );
}

#[test]
fn attributes_replace_in_place_and_append_new_keys() {
    let mut attributes = Attributes::new();
    assert_eq!(attributes.to_json(), "{}");
    attributes.insert("type", "string");
    assert_eq!(attributes.to_json(), "{\"type\":\"string\"}");
    attributes.insert("index", "not_analyzed");
    attributes.insert("type", "date");
    assert_eq!(attributes.to_json(), "{\"type\":\"date\",\"index\":\"not_analyzed\"}");
    attributes.insert("", "");
    assert_eq!(attributes.to_json(), "{\"type\":\"date\",\"index\":\"not_analyzed\",\"\":\"\"}");
}
