use pact_protobuf::descriptor::{
    DescriptorProto, FieldDescriptorProto, FileDescriptorProto, FileDescriptorSet, LookupError,
};
use pact_protobuf::message_decoder::{MessageError, ProtobufFieldData};
use pact_protobuf::metadata::{
    build_metadata, left_out, LeftOut, MetadataEntry, MetadataValue,
};
use pact_protobuf::request::{
    build_grpc_request, destination, find_path_text, grpc_destination, request_path, RequestError,
};
use pact_protobuf::verification::{
    conclude_interaction, conclude_verification, expected_body, find_method_messages, grpc_error,
    prepare_verification, verification_output, verify_response, BodyMatchResult, CallOutcome,
    Interaction, InteractionError, MessageContents, MethodDescriptorProto, MismatchResult,
    ServiceDescriptorProto, VerificationError,
};
use pact_protobuf::wire::WireType;
use prost_types::value::Kind;
use serde_json::Value;
use tonic::metadata::MetadataMap;

fn text(value: &str) -> Option<MetadataValue> {
    proto(Some(Kind::StringValue(value.to_string())))
}

fn proto(kind: Option<Kind>) -> Option<MetadataValue> {
    Some(MetadataValue::NonBinary(prost_types::Value { kind }))
}

fn binary(value: &[u8]) -> Option<MetadataValue> {
    Some(MetadataValue::Binary(value.to_vec()))
}

fn entry(key: &str, value: Option<MetadataValue>) -> MetadataEntry {
    MetadataEntry { key: key.to_string(), value }
}

fn message(name: &str, field: Vec<FieldDescriptorProto>) -> DescriptorProto {
    DescriptorProto {
        name: Some(name.to_string()),
        field,
        nested_type: vec![],
        enum_type: vec![],
        encoded: vec![],
    }
}

fn int_field() -> FieldDescriptorProto {
    FieldDescriptorProto {
        name: None,
        number: Some(1),
        field_type: Some(5),
        named_type: None,
        default_value: None,
        encoded: vec![],
    }
}

fn files() -> FileDescriptorSet {
    FileDescriptorSet {
        file: vec![FileDescriptorProto {
            message_type: vec![message("In", vec![int_field()]), message("Out", vec![])],
        }],
    }
}

fn service() -> ServiceDescriptorProto {
    ServiceDescriptorProto { name: Some("Calculator".to_string()) }
}

fn method() -> MethodDescriptorProto {
    MethodDescriptorProto {
        name: Some("add".to_string()),
        input_type: Some(".area.In".to_string()),
        output_type: Some(".area.Out".to_string()),
    }
}

fn config(values: Vec<(&str, Value)>) -> Vec<(String, Value)> {
    values.into_iter().map(|(key, value)| (key.to_string(), value)).collect()
}

#[test]
fn metadata_of_both_encodings() {
    let map = build_metadata(&vec![
        entry("X-Text", text("some text")),
        entry("trace-BIN", binary(&[1, 2, 250])),
    ])
    .unwrap();
    assert_eq!(map.len(), 2);
    assert_eq!(map.get("x-text").unwrap().to_str().unwrap(), "some text");
    assert_eq!(map.get_bin("trace-bin").unwrap().to_bytes().unwrap().to_vec(), vec![1, 2, 250]);
}

#[test]
fn metadata_that_is_left_out() {
    let map = build_metadata(&vec![
        entry("request-path", text("/area.Calculator/add")),
        entry("not-set", None),
        entry("bad key", text("a")),
        entry("", text("a")),
        entry("bad(bin)-bin", binary(&[1])),
        entry("\u{e9}", text("a")),
        entry("control", text("a\nb")),
        entry("deleted", text("a\u{7f}b")),
        entry("control-bin", text("a\nb")),
    ])
    .unwrap();
    assert!(map.is_empty());
}

#[test]
fn metadata_texts() {
    let map = build_metadata(&vec![
        entry("number", proto(Some(Kind::NumberValue(12.5)))),
        entry("flag", proto(Some(Kind::BoolValue(true)))),
        entry("null", proto(Some(Kind::NullValue(0)))),
        entry("none", proto(None)),
        entry("tab", text("a\tb")),
        entry("accent", text("\u{e9}")),
    ])
    .unwrap();
    assert_eq!(map.get("number").unwrap().as_bytes(), b"12.5");
    assert_eq!(map.get("flag").unwrap().as_bytes(), b"true");
    assert_eq!(map.get("null").unwrap().as_bytes(), b"");
    assert_eq!(map.get("none").unwrap().as_bytes(), b"");
    assert_eq!(map.get("tab").unwrap().as_bytes(), b"a\tb");
    assert_eq!(map.get("accent").unwrap().as_bytes(), "\u{e9}".as_bytes());
}

#[test]
fn the_last_value_under_a_key_stays() {
    let map = build_metadata(&vec![
        entry("key", text("one")),
        entry("KEY", text("two")),
        entry("other", text("three")),
        entry("Request-Path", text("/four")),
    ])
    .unwrap();
    assert_eq!(map.len(), 3);
    assert_eq!(map.get("key").unwrap().as_bytes(), b"two");
    assert_eq!(map.get("request-path").unwrap().as_bytes(), b"/four");
}

#[test]
fn the_order_of_different_keys_does_not_matter() {
    let one = build_metadata(&vec![entry("a", text("1")), entry("b", text("2"))]).unwrap();
    let other = build_metadata(&vec![entry("b", text("2")), entry("a", text("1"))]).unwrap();
    for key in ["a", "b"] {
        assert_eq!(one.get(key), other.get(key));
    }
    assert_eq!(one.len(), other.len());
}

#[test]
fn every_character_of_a_key() {
    for c in 0..256u32 {
        let c = char::from_u32(c).unwrap();
        let valid = c.is_ascii_alphanumeric() || "!\"#$%&'*+-.^_`|~".contains(c);
        let map = build_metadata(&vec![entry(&format!("k{}", c), text("v"))]).unwrap();
        assert_eq!(map.len(), if valid { 1 } else { 0 });
    }
}

#[test]
fn every_character_of_a_value() {
    for c in 0..256u32 {
        let c = char::from_u32(c).unwrap();
        let valid = c == '\t' || (c >= ' ' && c != '\u{7f}');
        let value = format!("v{}", c);
        let map = build_metadata(&vec![entry("key", text(&value))]).unwrap();
        let expected = if valid { Some(value.as_bytes()) } else { None };
        assert_eq!(map.get("key").map(|v| v.as_bytes()), expected);
    }
}

#[test]
fn the_longest_key() {
    let longest = "k".repeat(0xffff);
    assert_eq!(build_metadata(&vec![entry(&longest, text("v"))]).unwrap().len(), 1);
    let longer = "k".repeat(0x10000);
    assert_eq!(build_metadata(&vec![entry(&longer, text("v"))]).unwrap().len(), 0);
}

#[test]
fn values_under_keys_of_the_other_encoding() {
    assert!(build_metadata(&vec![entry("a-bin", text("v"))]).is_none());
    assert!(build_metadata(&vec![entry("a", binary(&[1]))]).is_none());
    assert!(build_metadata(&vec![entry("a", text("v")), entry("A-Bin", text("v"))]).is_none());
    assert!(build_metadata(&vec![entry("bin", binary(&[1]))]).is_none());
    assert!(build_metadata(&vec![entry("-bin", binary(&[1]))]).is_some());
}

#[test]
fn as_many_keys_as_a_map_can_hold() {
    let mut entries: Vec<MetadataEntry> =
        (0..6554).map(|i| entry(&format!("key-{}", i), text("v"))).collect();
    assert_eq!(build_metadata(&entries).unwrap().len(), 6554);
    entries.extend((6554..10000).map(|i| entry(&format!("key-{}-bin", i), binary(&[1]))));
    let map = build_metadata(&entries).unwrap();
    assert_eq!(map.len(), 10000);
    assert_eq!(map.get("key-0").unwrap().as_bytes(), b"v");
    assert_eq!(map.get_bin("key-9999-bin").unwrap().to_bytes().unwrap().to_vec(), vec![1]);
    entries.extend((10000..24577).map(|i| entry(&format!("key-{}", i), text("v"))));
    assert!(build_metadata(&entries).is_none());
}

#[test]
fn entries_that_add_no_key_do_not_count() {
    let mut entries: Vec<MetadataEntry> = (0..7000).map(|_| entry("not-set", None)).collect();
    entries.extend((0..7000).map(|i| entry(&format!("bad key {}", i), text("v"))));
    entries.extend((0..7000).map(|_| entry("same-key", text("v"))));
    entries.push(entry("SAME-KEY", text("w")));
    let map = build_metadata(&entries).unwrap();
    assert_eq!(map.len(), 1);
    assert_eq!(map.get("same-key").unwrap().as_bytes(), b"w");
}

#[test]
fn reasons_to_leave_an_entry_out() {
    assert_eq!(left_out(&entry("a", text("v"))), None);
    assert_eq!(left_out(&entry("a", None)), None);
    assert_eq!(left_out(&entry("request-path", text("\n"))), None);
    assert_eq!(left_out(&entry("a b", text("v"))), Some(LeftOut::InvalidKey));
    assert_eq!(left_out(&entry("a b", binary(&[1]))), Some(LeftOut::InvalidKey));
    assert_eq!(left_out(&entry("a b", text("\n"))), Some(LeftOut::InvalidValue));
    assert_eq!(left_out(&entry("a-bin", binary(&[1]))), None);
}

#[test]
fn addresses() {
    assert_eq!(destination(None, None), "http://[::1]:8080");
    assert_eq!(destination(Some("host".to_string()), Some(0)), "http://host:0");
}

#[test]
fn addresses_from_a_configuration() {
    assert_eq!(grpc_destination(&config(vec![])), "http://[::1]:8080");
    let values = config(vec![
        ("port", Value::from(50051)),
        ("host", Value::String("example.org".to_string())),
    ]);
    assert_eq!(grpc_destination(&values), "http://example.org:50051");
    let values = config(vec![
        ("host", Value::Bool(true)),
        ("port", Value::String("99".to_string())),
    ]);
    assert_eq!(grpc_destination(&values), "http://true:99");
    let values = config(vec![("host", Value::Null), ("port", Value::Bool(true))]);
    assert_eq!(grpc_destination(&values), "http://:8080");
    assert_eq!(grpc_destination(&config(vec![("port", Value::from(-1))])), "http://[::1]:8080");
}

#[test]
fn paths() {
    let metadata = vec![entry("a", text("b")), entry("request-path", text("/area.Calculator/add"))];
    assert_eq!(request_path(&metadata).unwrap(), "/area.Calculator/add");
    let metadata = vec![entry("request-path", text("/a?b#c"))];
    assert_eq!(find_path_text(&metadata).unwrap(), "/a?b#c");
    assert_eq!(request_path(&metadata).unwrap(), "/a?b");
    assert_eq!(request_path(&vec![entry("request-path", proto(None))]).unwrap(), "/");
}

#[test]
fn paths_that_are_missing_or_not_valid() {
    let not_set = "INTERNAL ERROR: request-path is not set in the request metadata";
    let not_text = "INTERNAL ERROR: request-path is not set correctly in the request metadata";
    let error = request_path(&vec![]).unwrap_err();
    assert!(matches!(error, RequestError::PathNotSet));
    assert_eq!(error.describe(), not_set);
    let error = request_path(&vec![entry("Request-Path", text("/a"))]).unwrap_err();
    assert!(matches!(error, RequestError::PathNotSet));
    let error = request_path(&vec![entry("request-path", None)]).unwrap_err();
    assert_eq!(error.describe(), not_set);
    let error = request_path(&vec![entry("request-path", binary(b"/a"))]).unwrap_err();
    assert!(matches!(error, RequestError::PathNotText));
    assert_eq!(error.describe(), not_text);
    let error = request_path(&vec![entry("request-path", text("/a b"))]).unwrap_err();
    assert!(matches!(error, RequestError::InvalidPath(_)));
    assert_eq!(error.describe(), "invalid uri character");
}

#[test]
fn requests_from_bodies() {
    let input = message("In", vec![int_field()]);
    let metadata = vec![entry("a", text("b"))];
    let build = |body: Option<Vec<u8>>| build_grpc_request(&body, &metadata, &files(), &input);
    let request = build(Some(vec![8, 5])).unwrap().unwrap();
    assert_eq!(request.fields.len(), 1);
    assert_eq!(request.fields[0].wire_type, WireType::Varint);
    assert_eq!(request.fields[0].data, ProtobufFieldData::Integer32(5));
    assert_eq!(request.metadata.get("a").unwrap().as_bytes(), b"b");
    let request = build(None).unwrap().unwrap();
    assert!(request.fields.is_empty());
}

#[test]
fn requests_that_cannot_be_built() {
    let input = message("In", vec![int_field()]);
    let misplaced = vec![entry("a-bin", text("b"))];
    let checked = |body: &[u8], metadata: &Vec<MetadataEntry>| {
        build_grpc_request(&Some(body.to_vec()), metadata, &files(), &input)
    };
    assert!(checked(&[8, 5], &vec![]).unwrap().is_ok());
    assert!(checked(&[8, 5], &misplaced).is_none());
    assert!(checked(&[13, 1], &vec![]).is_none());
    // a body that cannot be decoded is reported before the metadata is looked at
    let error = checked(&[8], &misplaced).unwrap().err().unwrap();
    assert!(matches!(error, RequestError::Message(MessageError::Varint(_))));
    assert_eq!(error.describe(), "failed to decode Protobuf message: invalid varint");
}

#[test]
fn messages_of_a_method() {
    let (input, output) = find_method_messages(&method(), &files()).unwrap();
    assert_eq!(input.name, Some("In".to_string()));
    assert_eq!(output.name, Some("Out".to_string()));
    let none = FileDescriptorSet { file: vec![] };
    assert_eq!(
        find_method_messages(&method(), &none),
        Err(LookupError::MessageNotFound("In".to_string()))
    );
    let method = MethodDescriptorProto { output_type: None, ..method() };
    assert_eq!(
        find_method_messages(&method, &files()),
        Err(LookupError::MessageNotFound(String::new()))
    );
}

#[test]
fn prepared_requests() {
    let metadata = vec![
        entry("request-path", text("/area.Calculator/add")),
        entry("a", text("b")),
    ];
    let values = config(vec![("port", Value::from(1234))]);
    let prepared = prepare_verification(&method(), &Some(vec![8, 5]), &metadata, &values, &files())
        .unwrap()
        .unwrap();
    assert_eq!(prepared.input, message("In", vec![int_field()]));
    assert_eq!(prepared.output, message("Out", vec![]));
    assert_eq!(prepared.request.fields[0].data, ProtobufFieldData::Integer32(5));
    assert_eq!(prepared.request.metadata.len(), 1);
    assert_eq!(prepared.destination, "http://[::1]:1234");
    assert_eq!(prepared.path, "/area.Calculator/add");
}

#[test]
fn requests_that_are_not_prepared() {
    let path = || entry("request-path", text("/area.Calculator/add"));
    let prepare = |body: &[u8], metadata: Vec<MetadataEntry>, files: &FileDescriptorSet| {
        prepare_verification(&method(), &Some(body.to_vec()), &metadata, &vec![], files)
    };
    let none = FileDescriptorSet { file: vec![] };
    assert!(matches!(
        prepare(&[8], vec![], &none),
        Some(Err(VerificationError::Lookup(LookupError::MessageNotFound(name)))) if name == "In"
    ));
    assert!(matches!(
        prepare(&[8], vec![path()], &files()),
        Some(Err(VerificationError::Request(RequestError::Message(MessageError::Varint(_)))))
    ));
    assert!(matches!(
        prepare(&[8, 5], vec![], &files()),
        Some(Err(VerificationError::Request(RequestError::PathNotSet)))
    ));
    assert!(matches!(
        prepare(&[8, 5], vec![entry("request-path", text(" "))], &files()),
        Some(Err(VerificationError::Request(RequestError::InvalidPath(_))))
    ));
    assert!(prepare(&[13], vec![path()], &files()).is_none());
    assert!(prepare(&[8, 5], vec![path(), entry("a-bin", text("b"))], &files()).is_none());
}

fn response(body: Option<&[u8]>) -> MessageContents {
    MessageContents { contents: body.map(|body| body.to_vec()), metadata: vec![] }
}

fn verify(
    matched: Option<Result<BodyMatchResult<u8>, String>>,
    id: &Option<String>,
) -> Vec<MismatchResult<u8>> {
    verify_response(&vec![response(Some(&[8, 1]))], &MetadataMap::new(), matched, id)
}

#[test]
fn expected_bodies() {
    assert_eq!(expected_body(&vec![]), None);
    assert_eq!(expected_body(&vec![response(None), response(Some(&[1]))]), None);
    assert_eq!(
        expected_body(&vec![response(Some(&[2])), response(Some(&[1]))]),
        Some(&vec![2])
    );
}

#[test]
fn responses_without_mismatches() {
    let id = Some("1".to_string());
    assert_eq!(verify(None, &id), vec![]);
    assert_eq!(verify(Some(Ok(BodyMatchResult::Matched)), &id), vec![]);
    assert_eq!(verify(Some(Ok(BodyMatchResult::BodyMismatches(vec![]))), &id), vec![]);
}

#[test]
fn responses_without_an_expected_body() {
    let failed = || Some(Err::<BodyMatchResult<u8>, String>("broken".to_string()));
    let metadata = MetadataMap::new();
    assert_eq!(verify_response(&vec![], &metadata, failed(), &None), vec![]);
    assert_eq!(verify_response(&vec![response(None)], &metadata, failed(), &None), vec![]);
}

#[test]
fn only_the_first_expected_body_counts() {
    let failed = || Some(Err::<BodyMatchResult<u8>, String>("broken".to_string()));
    let mut metadata = MetadataMap::new();
    let one = verify_response(&vec![response(Some(&[1]))], &metadata, failed(), &None);
    metadata.insert("a", "b".parse().unwrap());
    let with_metadata = MessageContents {
        metadata: config(vec![("a", Value::Null)]),
        ..response(Some(&[1]))
    };
    let other = verify_response(&vec![with_metadata, response(None)], &metadata, failed(), &None);
    assert_eq!(one, other);
    assert_eq!(one.len(), 1);
}

#[test]
fn responses_with_mismatches() {
    let id = Some("1".to_string());
    let mismatches = vec![("$.a".to_string(), vec![1, 2]), ("$.b".to_string(), vec![])];
    assert_eq!(
        verify(Some(Ok(BodyMatchResult::BodyMismatches(mismatches))), &id),
        vec![
            MismatchResult::Mismatches { mismatches: vec![1, 2], interaction_id: id.clone() },
            MismatchResult::Mismatches { mismatches: vec![], interaction_id: id.clone() },
        ]
    );
    let result = BodyMatchResult::BodyTypeMismatch { message: "other type".to_string() };
    assert_eq!(
        verify(Some(Ok(result)), &None),
        vec![MismatchResult::Error { error: "other type".to_string(), interaction_id: None }]
    );
    assert_eq!(
        verify(Some(Err("broken".to_string())), &id),
        vec![MismatchResult::Error { error: "broken".to_string(), interaction_id: id.clone() }]
    );
}

#[test]
fn reports() {
    assert_eq!(
        verification_output(&service(), &method(), false),
        vec![
            "Given a \u{1b}[1mCalculator\u{1b}[0m/\u{1b}[1madd\u{1b}[0m request",
            "    with an input \u{1b}[1m.area.In\u{1b}[0m message",
            "    will return an output \u{1b}[1m.area.Out\u{1b}[0m message [\u{1b}[32mOK\u{1b}[0m]",
        ]
    );
    let service = ServiceDescriptorProto { name: None };
    let method = MethodDescriptorProto { name: None, input_type: None, output_type: None };
    assert_eq!(
        verification_output(&service, &method, true),
        vec![
            "Given a \u{1b}[1m\u{1b}[0m/\u{1b}[1m\u{1b}[0m request",
            "    with an input \u{1b}[1m\u{1b}[0m message",
            "    will return an output \u{1b}[1m\u{1b}[0m message [\u{1b}[31mFAILED\u{1b}[0m]",
        ]
    );
}

#[test]
fn an_interaction_fails_where_anything_is_found() {
    let responses = vec![response(Some(&[8, 1]))];
    let conclude = |matched: Option<Result<BodyMatchResult<u8>, String>>| {
        let metadata = MetadataMap::new();
        conclude_verification(&responses, &metadata, matched, &None, &service(), &method())
    };
    let (found, output) = conclude(None);
    assert!(found.is_empty());
    assert!(output[2].contains("OK"));
    let (found, output) = conclude(Some(Err("broken".to_string())));
    assert_eq!(found.len(), 1);
    assert!(output[2].contains("FAILED"));
}

#[test]
fn interactions_that_the_server_answered() {
    let responses = vec![response(Some(&[8, 1]))];
    let conclude = |matched: Result<BodyMatchResult<u8>, String>| {
        let outcome = CallOutcome::<u8, u8>::Answered {
            metadata: MetadataMap::new(),
            matched: Some(matched),
        };
        let interaction = Interaction::Called {
            service_desc: service(),
            method_desc: method(),
            outcome,
        };
        conclude_interaction(interaction, &responses, &None).unwrap()
    };
    let (found, output) = conclude(Ok(BodyMatchResult::Matched));
    assert!(found.is_empty());
    assert_eq!(output, verification_output(&service(), &method(), false));
    let (found, output) = conclude(Err("broken".to_string()));
    assert_eq!(
        found,
        vec![MismatchResult::Error { error: "broken".to_string(), interaction_id: None }]
    );
    assert_eq!(output, verification_output(&service(), &method(), true));
}

#[test]
fn interactions_with_a_step_that_failed() {
    let conclude = |interaction: Interaction<u8, u8>| {
        conclude_interaction(interaction, &vec![response(Some(&[8, 1]))], &None).unwrap_err()
    };
    let called = |outcome: CallOutcome<u8, u8>| Interaction::Called {
        service_desc: service(),
        method_desc: method(),
        outcome,
    };
    assert!(matches!(conclude(Interaction::NotFound(7)), InteractionError::Outside(7)));
    assert!(matches!(conclude(called(CallOutcome::Failed(8))), InteractionError::Outside(8)));
    let status = CallOutcome::Status { code: 5, message: "m".to_string() };
    assert!(matches!(
        conclude(called(status)),
        InteractionError::Text(text) if text == grpc_error(5, "m")
    ));
    let not_found = VerificationError::Lookup(LookupError::MessageNotFound("In".to_string()));
    assert!(matches!(
        conclude(Interaction::NotPrepared(not_found)),
        InteractionError::Text(text)
            if text == "Did not find a message type 'In' in the descriptors"
    ));
    let no_path = VerificationError::Request(RequestError::PathNotSet);
    assert_eq!(
        no_path.describe(),
        "INTERNAL ERROR: request-path is not set in the request metadata"
    );
}

#[test]
fn errors_of_servers() {
    assert_eq!(
        grpc_error(5, "no such thing"),
        "gRPC error: status Some requested entity was not found, message 'no such thing'"
    );
    assert_eq!(grpc_error(-1, ""), "gRPC error: status Unknown error, message ''");
    assert_eq!(grpc_error(2, ""), "gRPC error: status Unknown error, message ''");
    let texts = [
        (0, "The operation completed successfully"),
        (1, "The operation was cancelled"),
        (3, "Client specified an invalid argument"),
        (4, "Deadline expired before operation could complete"),
        (6, "Some entity that we attempted to create already exists"),
        (7, "The caller does not have permission to execute the specified operation"),
        (8, "Some resource has been exhausted"),
        (9, "The system is not in a state required for the operation's execution"),
        (10, "The operation was aborted"),
        (11, "Operation was attempted past the valid range"),
        (12, "Operation is not implemented or not supported"),
        (13, "Internal error"),
        (14, "The service is currently unavailable"),
        (15, "Unrecoverable data loss or corruption"),
        (16, "The request does not have valid authentication credentials"),
        (17, "Unknown error"),
    ];
    for (code, description) in texts {
        let expected = format!("gRPC error: status {}, message 'm'", description);
        assert_eq!(grpc_error(code, "m"), expected);
    }
}
