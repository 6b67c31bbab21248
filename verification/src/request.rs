//! Requests to gRPC servers: where they go, and what they carry.
use crate::descriptor::{first_where, DescriptorProto, FileDescriptorSet};
use crate::field::ProtobufField;
use crate::message_decoder::{
    checked_decode_message, error_cause, error_text, error_type, field_views, stably_sorted,
    wire_fields, ErrorView, MessageError, Outcome,
};
use crate::metadata::{
    build_metadata, entry_views, is_unbuildable, map_contents, may_be_full, request_metadata,
    value_text, EntryView, MetadataEntry, MetadataValue, ValueView, REQUEST_PATH,
};
use crate::text::{debug_text, decimal, push_decimal, same_text};
use vstd::prelude::*;

verus! {

#[verifier::external_type_specification]
#[verifier::external_body]
pub struct ExJsonValue(serde_json::Value);

/// The text that `json_to_string` gives for a JSON value.
pub uninterp spec fn json_text(value: serde_json::Value) -> Seq<char>;

/// `pact_models::json_utils::json_to_string`: the text of a JSON value. A string is its own text,
/// null has the empty text, and other values are written as JSON. What the text is is left to the
/// name.
#[verifier::external_body]
fn json_to_string(value: &serde_json::Value) -> (r: String)
    ensures
        r@ == json_text(*value),
{
    pact_models::json_utils::json_to_string(value)
}

/// The number that `json_to_num` gives for a JSON value, where `largest` is the largest `usize`.
pub uninterp spec fn json_number(value: Option<serde_json::Value>, largest: nat) -> Option<usize>;

/// `pact_models::json_utils::json_to_num`: the number of a JSON value, if it is a number or a
/// string that holds one. Without a value there is none. What the number is is left to the name.
#[verifier::external_body]
fn json_to_num(value: Option<&serde_json::Value>) -> (r: Option<usize>)
    ensures
        r == json_number(
            match value {
                Some(value) => Some(*value),
                None => None,
            },
            usize::MAX as nat,
        ),
        value is None ==> r is None,
{
    pact_models::json_utils::json_to_num(value.cloned())
}

/// The address of a server: that of the local machine where there is no host, and the port 8080
/// where there is no port.
pub open spec fn destination_text(host: Option<Seq<char>>, port: Option<usize>) -> Seq<char> {
    "http://"@ + (match host {
        Some(host) => host,
        None => "[::1]"@,
    }) + ":"@ + decimal(
        match port {
            Some(port) => port as nat,
            None => 8080,
        },
    )
}

/// The value of a configuration under a key.
pub open spec fn config_value(config: Seq<(String, serde_json::Value)>, key: Seq<char>) -> Option<
    serde_json::Value,
> {
    match first_where(config, |entry: (String, serde_json::Value)| entry.0@ == key) {
        Some(entry) => Some(entry.1),
        None => None,
    }
}

/// The address of the server that a configuration gives under "host" and "port".
pub open spec fn configured_destination(config: Seq<(String, serde_json::Value)>) -> Seq<char> {
    destination_text(
        match config_value(config, "host"@) {
            Some(host) => Some(json_text(host)),
            None => None,
        },
        json_number(config_value(config, "port"@), usize::MAX as nat),
    )
}

/// The address of a server.
pub fn destination(host: Option<String>, port: Option<usize>) -> (r: String)
    ensures
        r@ == destination_text(host.deep_view(), port),
{
    let mut text = "http://".to_owned();
    match host {
        Some(host) => text.append(host.as_str()),
        None => text.append("[::1]"),
    }
    text.append(":");
    push_decimal(&mut text, port.unwrap_or(8080) as u64);
    text
}

/// The value of a configuration under a key.
fn find_config<'a>(config: &'a Vec<(String, serde_json::Value)>, key: &str) -> (r: Option<
    &'a serde_json::Value,
>)
    ensures
        match r {
            Some(value) => config_value(config@, key@) == Some(*value),
            None => config_value(config@, key@) is None,
        },
{
    let ghost accepts = |entry: (String, serde_json::Value)| entry.0@ == key@;
    let mut i: usize = 0;
    assert(config@.skip(0) =~= config@);
    while i < config.len()
        invariant
            i <= config@.len(),
            accepts == (|entry: (String, serde_json::Value)| entry.0@ == key@),
            first_where(config@, accepts) == first_where(config@.skip(i as int), accepts),
        decreases config@.len() - i,
    {
        assert(config@.skip(i as int).skip(1) =~= config@.skip(i + 1));
        if same_text(config[i].0.as_str(), key) {
            return Some(&config[i].1);
        }
        i += 1;
    }
    None
}

/// The address of the server that a configuration gives under "host" and "port".
pub fn grpc_destination(config: &Vec<(String, serde_json::Value)>) -> (r: String)
    ensures
        r@ == configured_destination(config@),
{
    let host = match find_config(config, "host") {
        Some(host) => Some(json_to_string(host)),
        None => None,
    };
    destination(host, json_to_num(find_config(config, "port")))
}

#[verifier::external_type_specification]
#[verifier::external_body]
pub struct ExInvalidUri(http::uri::InvalidUri);

/// The text that `Display` gives for an error in a URI.
pub uninterp spec fn uri_error_text(error: http::uri::InvalidUri) -> Seq<char>;

/// `http::uri::InvalidUri` as `Display` writes it. What the text is is left to the name.
#[verifier::external_body]
fn describe_uri_error(error: &http::uri::InvalidUri) -> (r: String)
    ensures
        r@ == uri_error_text(*error),
{
    error.to_string()
}

/// The error for a text that is no path.
pub open spec fn invalid_path() -> RequestErrorView {
    RequestErrorView::InvalidPath("invalid uri character"@)
}

/// Why a request could not be prepared.
#[derive(Debug)]
pub enum RequestError {
    /// The body is not a valid message
    Message(MessageError),
    /// The metadata does not give the path of the request
    PathNotSet,
    /// The path of the request is given as bytes
    PathNotText,
    /// The path of the request is not valid
    InvalidPath(http::uri::InvalidUri),
}

/// Why a request could not be prepared, with its text in the place of an outside error.
pub ghost enum RequestErrorView {
    Message(ErrorView),
    PathNotSet,
    PathNotText,
    InvalidPath(Seq<char>),
}

impl View for RequestError {
    type V = RequestErrorView;

    open spec fn view(&self) -> RequestErrorView {
        match *self {
            RequestError::Message(error) => RequestErrorView::Message(error@),
            RequestError::PathNotSet => RequestErrorView::PathNotSet,
            RequestError::PathNotText => RequestErrorView::PathNotText,
            RequestError::InvalidPath(error) => RequestErrorView::InvalidPath(
                uri_error_text(error),
            ),
        }
    }
}

/// The text of an error.
pub open spec fn request_error_text(error: RequestErrorView) -> Seq<char> {
    match error {
        RequestErrorView::Message(error) => error_text(
            error,
            error_cause(error),
            debug_text(error_type(error)),
        ),
        RequestErrorView::PathNotSet => {
            "INTERNAL ERROR: request-path is not set in the request metadata"@
        },
        RequestErrorView::PathNotText => {
            "INTERNAL ERROR: request-path is not set correctly in the request metadata"@
        },
        RequestErrorView::InvalidPath(cause) => cause,
    }
}

impl RequestError {
    /// The text of the error.
    pub fn describe(&self) -> (r: String)
        ensures
            r@ == request_error_text(self@),
    {
        match self {
            RequestError::Message(error) => error.describe(),
            RequestError::PathNotSet => {
                let text = "INTERNAL ERROR: request-path is not set in the request metadata";
                text.to_owned()
            },
            RequestError::PathNotText => {
                let text =
                    "INTERNAL ERROR: request-path is not set correctly in the request metadata";
                text.to_owned()
            },
            RequestError::InvalidPath(error) => describe_uri_error(error),
        }
    }
}

/// The path and query that `PathAndQuery::try_from` reads from a text, if it is valid.
pub uninterp spec fn path_and_query(text: Seq<char>) -> Option<Seq<char>>;

/// `http::uri::PathAndQuery::try_from`: the path and query that a text holds. It fails where the
/// text holds a character that is not valid, with an error that says so. Which texts are valid,
/// and what is left of them, is left to the name.
#[verifier::external_body]
fn parse_path(text: String) -> (r: Result<String, http::uri::InvalidUri>)
    ensures
        match r {
            Ok(path) => path_and_query(text@) == Some(path@),
            Err(error) => path_and_query(text@) is None && uri_error_text(error)
                == "invalid uri character"@,
        },
{
    http::uri::PathAndQuery::try_from(text).map(|path| path.as_str().to_owned())
}

/// The text of the path that the metadata gives for a request.
pub open spec fn path_text(entries: Seq<EntryView>) -> Result<Seq<char>, RequestErrorView> {
    match first_where(entries, |entry: EntryView| entry.key == REQUEST_PATH@) {
        Some(EntryView { value: Some(ValueView::Text(text)), .. }) => Ok(text),
        Some(EntryView { value: Some(ValueView::Binary(_)), .. }) => Err(
            RequestErrorView::PathNotText,
        ),
        _ => Err(RequestErrorView::PathNotSet),
    }
}

/// The text of the path that the metadata gives for a request.
pub fn find_path_text(metadata: &Vec<MetadataEntry>) -> (r: Result<String, RequestError>)
    ensures
        match r {
            Ok(text) => path_text(entry_views(metadata@)) == Ok::<Seq<char>, RequestErrorView>(
                text@,
            ),
            Err(error) => path_text(entry_views(metadata@)) == Err::<Seq<char>, RequestErrorView>(
                error@,
            ),
        },
{
    let ghost accepts = |entry: EntryView| entry.key == REQUEST_PATH@;
    let ghost entries = entry_views(metadata@);
    let mut i: usize = 0;
    assert(entries.skip(0) =~= entries);
    while i < metadata.len()
        invariant
            i <= metadata@.len(),
            entries == entry_views(metadata@),
            accepts == (|entry: EntryView| entry.key == REQUEST_PATH@),
            first_where(entries, accepts) == first_where(entries.skip(i as int), accepts),
        decreases metadata@.len() - i,
    {
        assert(entries[i as int] == metadata@[i as int]@);
        assert(entries.skip(i as int).skip(1) =~= entries.skip(i + 1));
        if same_text(metadata[i].key.as_str(), REQUEST_PATH) {
            return match &metadata[i].value {
                Some(MetadataValue::NonBinary(value)) => Ok(value_text(value)),
                Some(MetadataValue::Binary(_)) => Err(RequestError::PathNotText),
                None => Err(RequestError::PathNotSet),
            };
        }
        i += 1;
    }
    Err(RequestError::PathNotSet)
}

/// The path of a request.
pub fn request_path(metadata: &Vec<MetadataEntry>) -> (r: Result<String, RequestError>)
    ensures
        match path_text(entry_views(metadata@)) {
            Ok(text) => match path_and_query(text) {
                Some(path) => r matches Ok(found) && found@ == path,
                None => r matches Err(error) && error@ == invalid_path(),
            },
            Err(error) => r matches Err(found) && found@ == error,
        },
{
    match parse_path(find_path_text(metadata)?) {
        Ok(path) => Ok(path),
        Err(error) => Err(RequestError::InvalidPath(error)),
    }
}

/// A request to a gRPC server
pub struct GrpcRequest {
    /// Fields of the message
    pub fields: Vec<ProtobufField>,
    /// Metadata of the request
    pub metadata: tonic::metadata::MetadataMap,
}

/// The bytes of a body; a missing body has none.
pub open spec fn body_bytes(body: Option<Vec<u8>>) -> Seq<u8> {
    match body {
        Some(bytes) => bytes@,
        None => Seq::empty(),
    }
}

/// Builds a request from the bytes of its body and the metadata entries. There is no result where
/// the body ends in the middle of a payload whose end it must hold, or where the body is valid and
/// a metadata map does not take what the entries add.
pub fn build_grpc_request(
    body: &Option<Vec<u8>>,
    metadata: &Vec<MetadataEntry>,
    file_desc: &FileDescriptorSet,
    input_desc: &DescriptorProto,
) -> (r: Option<Result<GrpcRequest, RequestError>>)
    ensures
        match wire_fields(body_bytes(*body), input_desc@, file_desc@) {
            Outcome::Fields(in_order) => match r {
                Some(Ok(request)) => {
                    &&& stably_sorted(in_order, field_views(request.fields@))
                    &&& map_contents(request.metadata) == request_metadata(entry_views(metadata@))
                    &&& !is_unbuildable(entry_views(metadata@))
                },
                Some(Err(_)) => false,
                None => is_unbuildable(entry_views(metadata@)) || may_be_full(
                    entry_views(metadata@),
                ),
            },
            Outcome::Failed(error) => r matches Some(Err(found)) && found@
                == RequestErrorView::Message(error),
            Outcome::Truncated => r is None,
        },
{
    let empty: Vec<u8> = Vec::new();
    let mut bytes: &[u8] = match body {
        Some(bytes) => bytes.as_slice(),
        None => empty.as_slice(),
    };
    assert(bytes@ =~= body_bytes(*body));
    match checked_decode_message(&mut bytes, input_desc, file_desc) {
        Some(Ok(fields)) => match build_metadata(metadata) {
            Some(metadata) => Some(Ok(GrpcRequest { fields, metadata })),
            None => None,
        },
        Some(Err(error)) => Some(Err(RequestError::Message(error))),
        None => None,
    }
}

} // verus!
