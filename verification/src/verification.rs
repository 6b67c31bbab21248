//! The decisions in verifying a gRPC interaction: what to send, and what to make of the reply.
use crate::descriptor::{
    find_message_type_by_name, last_name, lookup_error_text, message_named, spec_last_name,
    text_or_default, text_or_empty, DescriptorProto, DescriptorView, FileDescriptorSet, LookupError,
};
use crate::message_decoder::{field_views, stably_sorted, wire_fields, Outcome};
use crate::metadata::{
    entry_views, is_unbuildable, map_contents, may_be_full, request_metadata, EntryView,
    MetadataEntry,
};
use crate::request::{
    body_bytes, build_grpc_request, configured_destination, grpc_destination, invalid_path,
    path_and_query, path_text, request_error_text, request_path, GrpcRequest, RequestError,
    RequestErrorView,
};
use vstd::prelude::*;

verus! {

/// Text between the codes that switch a style of the terminal on and all styles off.
pub open spec fn painted(style: Seq<char>, text: Seq<char>) -> Seq<char> {
    "\x1b["@ + style + "m"@ + text + "\x1b[0m"@
}

/// `ansi_term::Style::paint` with the bold style.
#[verifier::external_body]
fn paint_bold(text: &str) -> (r: String)
    ensures
        r@ == painted("1"@, text@),
{
    ansi_term::Style::new().bold().paint(text).to_string()
}

/// `ansi_term::Colour::paint` with the colour red.
#[verifier::external_body]
fn paint_red(text: &str) -> (r: String)
    ensures
        r@ == painted("31"@, text@),
{
    ansi_term::Colour::Red.paint(text).to_string()
}

/// `ansi_term::Colour::paint` with the colour green.
#[verifier::external_body]
fn paint_green(text: &str) -> (r: String)
    ensures
        r@ == painted("32"@, text@),
{
    ansi_term::Colour::Green.paint(text).to_string()
}

/// Describes a service
#[derive(Debug, PartialEq)]
pub struct ServiceDescriptorProto {
    /// Name of the service
    pub name: Option<String>,
}

/// Describes a method of a service
#[derive(Debug, PartialEq)]
pub struct MethodDescriptorProto {
    /// Name of the method
    pub name: Option<String>,
    /// Name of the type of the message that the method takes
    pub input_type: Option<String>,
    /// Name of the type of the message that the method gives
    pub output_type: Option<String>,
}

/// The result of matching a message body
#[derive(Debug, PartialEq)]
pub enum BodyMatchResult<M> {
    /// Matched OK
    Matched,
    /// Mismatch in the content type of the body
    BodyTypeMismatch {
        /// Message
        message: String,
    },
    /// Mismatches with the body contents, by path
    BodyMismatches(Vec<(String, Vec<M>)>),
}

/// A mismatch that verification found
#[derive(Debug, PartialEq)]
pub enum MismatchResult<M> {
    /// Response mismatches
    Mismatches {
        /// Mismatches that occurred
        mismatches: Vec<M>,
        /// Interaction ID if fetched from a pact broker
        interaction_id: Option<String>,
    },
    /// Error occurred
    Error {
        /// Error that occurred
        error: String,
        /// Interaction ID if fetched from a pact broker
        interaction_id: Option<String>,
    },
}

/// A mismatch that verification found, as mathematical values.
pub ghost enum MismatchView<M> {
    Mismatches(Seq<M>, Option<Seq<char>>),
    Error(Seq<char>, Option<Seq<char>>),
}

impl<M> View for MismatchResult<M> {
    type V = MismatchView<M>;

    open spec fn view(&self) -> MismatchView<M> {
        match *self {
            MismatchResult::Mismatches { mismatches, interaction_id } => MismatchView::Mismatches(
                mismatches@,
                interaction_id.deep_view(),
            ),
            MismatchResult::Error { error, interaction_id } => MismatchView::Error(
                error@,
                interaction_id.deep_view(),
            ),
        }
    }
}

/// The results as mathematical values.
pub open spec fn mismatch_views<M>(results: Seq<MismatchResult<M>>) -> Seq<MismatchView<M>> {
    results.map_values(|result: MismatchResult<M>| result@)
}

/// What verification finds in a response, from what matching its body against the expected one
/// came to. Without an expected body nothing is matched and nothing found.
pub open spec fn response_mismatches<M>(
    matched: Option<Result<BodyMatchResult<M>, String>>,
    interaction_id: Option<Seq<char>>,
) -> Seq<MismatchView<M>> {
    match matched {
        None => seq![],
        Some(Ok(BodyMatchResult::Matched)) => seq![],
        Some(Ok(BodyMatchResult::BodyTypeMismatch { message })) => seq![
            MismatchView::Error(message@, interaction_id),
        ],
        Some(Ok(BodyMatchResult::BodyMismatches(mismatches))) => mismatches@.map_values(
            |entry: (String, Vec<M>)| MismatchView::Mismatches(entry.1@, interaction_id),
        ),
        Some(Err(error)) => seq![MismatchView::Error(error@, interaction_id)],
    }
}

/// The contents of a message that an interaction expects
pub struct MessageContents {
    /// The contents of the message, if it has any
    pub contents: Option<Vec<u8>>,
    /// Metadata associated with this message
    pub metadata: Vec<(String, serde_json::Value)>,
}

/// The body that an interaction expects: that of the first response.
pub open spec fn first_body(responses: Seq<MessageContents>) -> Option<Seq<u8>> {
    if responses.len() == 0 {
        None
    } else {
        match responses[0].contents {
            Some(body) => Some(body@),
            None => None,
        }
    }
}

/// The body that an interaction expects: that of the first response. The body of the response is
/// matched against it.
pub fn expected_body(responses: &Vec<MessageContents>) -> (r: Option<&Vec<u8>>)
    ensures
        match r {
            Some(body) => first_body(responses@) == Some(body@),
            None => first_body(responses@) is None,
        },
{
    if responses.len() == 0 {
        None
    } else {
        responses[0].contents.as_ref()
    }
}

/// What verification finds in a response with this metadata, where `matched` is what matching its
/// body against the expected one came to. The metadata is not matched.
pub open spec fn verification_result<M>(
    responses: Seq<MessageContents>,
    response_metadata: Map<Seq<char>, Seq<Seq<u8>>>,
    matched: Option<Result<BodyMatchResult<M>, String>>,
    interaction_id: Option<Seq<char>>,
) -> Seq<MismatchView<M>> {
    response_mismatches(
        if first_body(responses) is Some {
            matched
        } else {
            None
        },
        interaction_id,
    )
}

/// Verifies a response, given what matching its body against the expected one came to: an error
/// where the matching failed or the bodies are of different types, and the mismatches under each
/// path where the contents differ. Without an expected body nothing is found. The metadata is not
/// matched.
pub fn verify_response<M>(
    responses: &Vec<MessageContents>,
    response_metadata: &tonic::metadata::MetadataMap,
    matched: Option<Result<BodyMatchResult<M>, String>>,
    interaction_id: &Option<String>,
) -> (r: Vec<MismatchResult<M>>)
    ensures
        mismatch_views(r@) == verification_result(
            responses@,
            map_contents(*response_metadata),
            matched,
            interaction_id.deep_view(),
        ),
{
    match expected_body(responses) {
        Some(_) => collect_mismatches(matched, interaction_id),
        None => collect_mismatches(None, interaction_id),
    }
}

/// What matching the body of a response found.
fn collect_mismatches<M>(
    matched: Option<Result<BodyMatchResult<M>, String>>,
    interaction_id: &Option<String>,
) -> (r: Vec<MismatchResult<M>>)
    ensures
        mismatch_views(r@) == response_mismatches(matched, interaction_id.deep_view()),
{
    let mut results: Vec<MismatchResult<M>> = Vec::new();
    match matched {
        Some(Ok(BodyMatchResult::Matched)) => {},
        Some(Ok(BodyMatchResult::BodyTypeMismatch { message })) => {
            results.push(
                MismatchResult::Error { error: message, interaction_id: interaction_id.clone() },
            );
        },
        Some(Ok(BodyMatchResult::BodyMismatches(mismatches))) => {
            let ghost expected = response_mismatches(matched, interaction_id.deep_view());
            for entry in it: mismatches
                invariant
                    it.seq() == mismatches@,
                    expected.len() == mismatches@.len(),
                    forall|i: int|
                        0 <= i < expected.len() ==> expected[i] == MismatchView::Mismatches(
                            mismatches@[i].1@,
                            interaction_id.deep_view(),
                        ),
                    mismatch_views(results@) == expected.take(it.index()),
            {
                let ghost before = mismatch_views(results@);
                let ghost path = it.index();
                assert(entry == mismatches@[path]);
                results.push(
                    MismatchResult::Mismatches {
                        mismatches: entry.1,
                        interaction_id: interaction_id.clone(),
                    },
                );
                assert(results@.last()@ == expected[path]);
                assert(mismatch_views(results@) =~= before.push(expected[path]));
                assert(mismatch_views(results@) =~= expected.take(path + 1));
            }
            assert(expected.take(expected.len() as int) =~= expected);
        },
        Some(Err(error)) => {
            results.push(MismatchResult::Error { error, interaction_id: interaction_id.clone() });
        },
        None => {},
    }
    assert(mismatch_views(results@) =~= response_mismatches(matched, interaction_id.deep_view()));
    results
}

/// What a gRPC status code stands for. Numbers that are no status code stand for an unknown error.
pub open spec fn code_text(code: i32) -> Seq<char> {
    match code {
        0 => "The operation completed successfully"@,
        1 => "The operation was cancelled"@,
        3 => "Client specified an invalid argument"@,
        4 => "Deadline expired before operation could complete"@,
        5 => "Some requested entity was not found"@,
        6 => "Some entity that we attempted to create already exists"@,
        7 => "The caller does not have permission to execute the specified operation"@,
        8 => "Some resource has been exhausted"@,
        9 => "The system is not in a state required for the operation's execution"@,
        10 => "The operation was aborted"@,
        11 => "Operation was attempted past the valid range"@,
        12 => "Operation is not implemented or not supported"@,
        13 => "Internal error"@,
        14 => "The service is currently unavailable"@,
        15 => "Unrecoverable data loss or corruption"@,
        16 => "The request does not have valid authentication credentials"@,
        _ => "Unknown error"@,
    }
}

/// `tonic::Code::from_i32` and the text of the code: what a gRPC status code stands for.
#[verifier::external_body]
fn describe_code(code: i32) -> (r: String)
    ensures
        r@ == code_text(code),
{
    tonic::Code::from_i32(code).to_string()
}

/// The error for a request that the server answered with a status.
pub fn grpc_error(code: i32, message: &str) -> (r: String)
    ensures
        r@ == grpc_error_text(code, message@),
{
    let mut text = "gRPC error: status ".to_owned();
    text.append(describe_code(code).as_str());
    text.append(", message '");
    text.append(message);
    text.append("'");
    text
}

/// The lines that report on an interaction.
pub open spec fn report(
    service: Option<Seq<char>>,
    method: Option<Seq<char>>,
    input_type: Option<Seq<char>>,
    output_type: Option<Seq<char>>,
    failed: bool,
) -> Seq<Seq<char>> {
    let status = if failed {
        painted("31"@, "FAILED"@)
    } else {
        painted("32"@, "OK"@)
    };
    seq![
        "Given a "@ + painted("1"@, text_or_empty(service)) + "/"@ + painted(
            "1"@,
            text_or_empty(method),
        ) + " request"@,
        "    with an input "@ + painted("1"@, text_or_empty(input_type)) + " message"@,
        "    will return an output "@ + painted("1"@, text_or_empty(output_type)) + " message ["@
            + status + "]"@,
    ]
}

/// The text in bold, empty where there is none.
fn bold(text: &Option<String>) -> (r: String)
    ensures
        r@ == painted("1"@, text_or_empty(text.deep_view())),
{
    paint_bold(text_or_default(text).as_str())
}

/// The lines that report on an interaction, failed or not.
pub fn verification_output(
    service_desc: &ServiceDescriptorProto,
    method_desc: &MethodDescriptorProto,
    failed: bool,
) -> (r: Vec<String>)
    ensures
        r@.map_values(|line: String| line@) == report(
            service_desc.name.deep_view(),
            method_desc.name.deep_view(),
            method_desc.input_type.deep_view(),
            method_desc.output_type.deep_view(),
            failed,
        ),
{
    let mut request = "Given a ".to_owned();
    request.append(bold(&service_desc.name).as_str());
    request.append("/");
    request.append(bold(&method_desc.name).as_str());
    request.append(" request");
    let mut input = "    with an input ".to_owned();
    input.append(bold(&method_desc.input_type).as_str());
    input.append(" message");
    let mut output = "    will return an output ".to_owned();
    output.append(bold(&method_desc.output_type).as_str());
    output.append(" message [");
    if failed {
        output.append(paint_red("FAILED").as_str());
    } else {
        output.append(paint_green("OK").as_str());
    }
    output.append("]");
    let lines: Vec<String> = vec![request, input, output];
    assert(lines@.map_values(|line: String| line@) =~= report(
        service_desc.name.deep_view(),
        method_desc.name.deep_view(),
        method_desc.input_type.deep_view(),
        method_desc.output_type.deep_view(),
        failed,
    ));
    lines
}

/// Concludes the verification of an interaction that the server answered with a response: what
/// was found in the response, and the lines that report on it. The interaction failed where
/// anything was found.
pub fn conclude_verification<M>(
    responses: &Vec<MessageContents>,
    response_metadata: &tonic::metadata::MetadataMap,
    matched: Option<Result<BodyMatchResult<M>, String>>,
    interaction_id: &Option<String>,
    service_desc: &ServiceDescriptorProto,
    method_desc: &MethodDescriptorProto,
) -> (r: (Vec<MismatchResult<M>>, Vec<String>))
    ensures
        mismatch_views(r.0@) == verification_result(
            responses@,
            map_contents(*response_metadata),
            matched,
            interaction_id.deep_view(),
        ),
        r.1@.map_values(|line: String| line@) == report(
            service_desc.name.deep_view(),
            method_desc.name.deep_view(),
            method_desc.input_type.deep_view(),
            method_desc.output_type.deep_view(),
            verification_result(
                responses@,
                map_contents(*response_metadata),
                matched,
                interaction_id.deep_view(),
            ).len() > 0,
        ),
{
    let result = verify_response(responses, response_metadata, matched, interaction_id);
    assert(result@.len() == mismatch_views(result@).len());
    let failed = result.len() > 0;
    (result, verification_output(service_desc, method_desc, failed))
}

/// The name of a message type, without the names of what it is declared in.
pub open spec fn message_name(named_type: Option<Seq<char>>) -> Seq<char> {
    spec_last_name(text_or_empty(named_type))
}

/// The first message that the files declare under the last part of a name.
fn find_message(named_type: &Option<String>, descriptors: &FileDescriptorSet) -> (r: Result<
    DescriptorProto,
    LookupError,
>)
    ensures
        match message_named(descriptors@, message_name(named_type.deep_view())) {
            Some(message) => r matches Ok(found) && found@ == message,
            None => r matches Err(LookupError::MessageNotFound(name)) && name@ == message_name(
                named_type.deep_view(),
            ),
        },
{
    let full_name = text_or_default(named_type);
    find_message_type_by_name(last_name(full_name.as_str()), descriptors)
}

/// Finds the messages that a method takes and gives.
pub fn find_method_messages(
    method_desc: &MethodDescriptorProto,
    descriptors: &FileDescriptorSet,
) -> (r: Result<(DescriptorProto, DescriptorProto), LookupError>)
    ensures
        ({
            let input_name = message_name(method_desc.input_type.deep_view());
            let output_name = message_name(method_desc.output_type.deep_view());
            match (
                message_named(descriptors@, input_name),
                message_named(descriptors@, output_name),
            ) {
                (Some(input), Some(output)) => r matches Ok((found_input, found_output))
                    && found_input@ == input && found_output@ == output,
                (None, _) => r matches Err(LookupError::MessageNotFound(name)) && name@
                    == input_name,
                (Some(_), None) => r matches Err(LookupError::MessageNotFound(name)) && name@
                    == output_name,
            }
        }),
{
    let input = find_message(&method_desc.input_type, descriptors)?;
    let output = find_message(&method_desc.output_type, descriptors)?;
    Ok((input, output))
}

/// Why the request for an interaction could not be prepared.
#[derive(Debug)]
pub enum VerificationError {
    /// The files do not declare a message of the method
    Lookup(LookupError),
    /// The request could not be prepared
    Request(RequestError),
}

/// The text of an error in preparing the request for an interaction.
pub open spec fn verification_error_text(error: VerificationError) -> Seq<char> {
    match error {
        VerificationError::Lookup(error) => lookup_error_text(error),
        VerificationError::Request(error) => request_error_text(error@),
    }
}

impl VerificationError {
    /// The text of the error.
    pub fn describe(&self) -> (r: String)
        ensures
            r@ == verification_error_text(*self),
    {
        match self {
            VerificationError::Lookup(error) => error.describe(),
            VerificationError::Request(error) => error.describe(),
        }
    }
}

/// What a request for an interaction takes.
pub struct PreparedRequest {
    /// The message that the method takes
    pub input: DescriptorProto,
    /// The message that the method gives
    pub output: DescriptorProto,
    /// The request
    pub request: GrpcRequest,
    /// The address of the server
    pub destination: String,
    /// The path of the request
    pub path: String,
}

/// Whether every step of preparing a request succeeds: the files declare both messages of the
/// method, the body decodes, and the metadata gives a valid path.
pub open spec fn is_preparable(
    input_type: Option<Seq<char>>,
    output_type: Option<Seq<char>>,
    body: Seq<u8>,
    entries: Seq<EntryView>,
    files: Seq<Seq<DescriptorView>>,
) -> bool {
    &&& message_named(files, message_name(input_type)) matches Some(input) && wire_fields(
        body,
        input,
        files,
    ) is Fields
    &&& message_named(files, message_name(output_type)) is Some
    &&& path_text(entries) matches Ok(text) && path_and_query(text) is Some
}

/// Prepares the request for an interaction: the messages of the method, the request from its body
/// and metadata, the address of the server and the path. There is no result where the body or the
/// metadata are such that no request can be built.
#[verifier::rlimit(40)]
pub fn prepare_verification(
    method_desc: &MethodDescriptorProto,
    request_body: &Option<Vec<u8>>,
    metadata: &Vec<MetadataEntry>,
    config: &Vec<(String, serde_json::Value)>,
    file_desc: &FileDescriptorSet,
) -> (r: Option<Result<PreparedRequest, VerificationError>>)
    ensures
        r matches Some(result) ==> (result is Ok <==> is_preparable(
            method_desc.input_type.deep_view(),
            method_desc.output_type.deep_view(),
            body_bytes(*request_body),
            entry_views(metadata@),
            file_desc@,
        )),
        ({
            let input_name = message_name(method_desc.input_type.deep_view());
            let output_name = message_name(method_desc.output_type.deep_view());
            let entries = entry_views(metadata@);
            match (message_named(file_desc@, input_name), message_named(file_desc@, output_name)) {
                (None, _) => r matches Some(
                    Err(VerificationError::Lookup(LookupError::MessageNotFound(name))),
                ) && name@ == input_name,
                (Some(_), None) => r matches Some(
                    Err(VerificationError::Lookup(LookupError::MessageNotFound(name))),
                ) && name@ == output_name,
                (Some(input), Some(output)) => match wire_fields(
                    body_bytes(*request_body),
                    input,
                    file_desc@,
                ) {
                    Outcome::Truncated => r is None,
                    Outcome::Failed(error) => r matches Some(Err(VerificationError::Request(found)))
                        && found@ == RequestErrorView::Message(error),
                    Outcome::Fields(in_order) => if r is None {
                        is_unbuildable(entries) || may_be_full(entries)
                    } else {
                        !is_unbuildable(entries) && match path_text(entries) {
                            Err(error) => r matches Some(Err(VerificationError::Request(found)))
                                && found@ == error,
                            Ok(text) => match path_and_query(text) {
                                None => r matches Some(Err(VerificationError::Request(found)))
                                    && found@ == invalid_path(),
                                Some(path) => r matches Some(Ok(prepared)) && {
                                    &&& prepared.input@ == input
                                    &&& prepared.output@ == output
                                    &&& stably_sorted(
                                        in_order,
                                        field_views(prepared.request.fields@),
                                    )
                                    &&& map_contents(prepared.request.metadata) == request_metadata(
                                        entries,
                                    )
                                    &&& prepared.destination@ == configured_destination(config@)
                                    &&& prepared.path@ == path
                                },
                            },
                        }
                    },
                },
            }
        }),
{
    let (input, output) = match find_method_messages(method_desc, file_desc) {
        Ok(messages) => messages,
        Err(error) => {
            return Some(Err(VerificationError::Lookup(error)));
        },
    };
    let request = match build_grpc_request(request_body, metadata, file_desc, &input) {
        Some(Ok(request)) => request,
        Some(Err(error)) => {
            return Some(Err(VerificationError::Request(error)));
        },
        None => {
            return None;
        },
    };
    let destination = grpc_destination(config);
    match request_path(metadata) {
        Ok(path) => Some(Ok(PreparedRequest { input, output, request, destination, path })),
        Err(error) => Some(Err(VerificationError::Request(error))),
    }
}

/// What came of a request to a server, where `E` is an error from outside
pub enum CallOutcome<M, E> {
    /// The server answered
    Answered {
        /// Metadata of the response
        metadata: tonic::metadata::MetadataMap,
        /// What matching the body of the response against the expected one came to
        matched: Option<Result<BodyMatchResult<M>, String>>,
    },
    /// The server answered with a status
    Status {
        /// Code of the status
        code: i32,
        /// Message of the status
        message: String,
    },
    /// The request could not be made, or its response not be read
    Failed(E),
}

/// What came of the steps of verifying an interaction, up to the first that failed, where `E` is
/// an error from outside
pub enum Interaction<M, E> {
    /// The descriptors for the interaction were not found
    NotFound(E),
    /// The request was not prepared
    NotPrepared(VerificationError),
    /// The request was made
    Called {
        /// The service of the interaction
        service_desc: ServiceDescriptorProto,
        /// The method of the interaction
        method_desc: MethodDescriptorProto,
        /// What came of the request
        outcome: CallOutcome<M, E>,
    },
}

/// Why an interaction could not be verified
#[derive(Debug)]
pub enum InteractionError<E> {
    /// An error from outside
    Outside(E),
    /// An error with this text
    Text(String),
}

/// Why an interaction could not be verified, as mathematical values.
pub ghost enum InteractionErrorView<E> {
    Outside(E),
    Text(Seq<char>),
}

impl<E> View for InteractionError<E> {
    type V = InteractionErrorView<E>;

    open spec fn view(&self) -> InteractionErrorView<E> {
        match *self {
            InteractionError::Outside(error) => InteractionErrorView::Outside(error),
            InteractionError::Text(text) => InteractionErrorView::Text(text@),
        }
    }
}

/// The text of the error for a request that the server answered with a status.
pub open spec fn grpc_error_text(code: i32, message: Seq<char>) -> Seq<char> {
    "gRPC error: status "@ + code_text(code) + ", message '"@ + message + "'"@
}

/// What verifying an interaction gives: what was found in the response and the lines that report
/// on it where the server answered, whatever was found, and the error of the step that failed where
/// one did.
pub open spec fn interaction_result<M, E>(
    interaction: Interaction<M, E>,
    responses: Seq<MessageContents>,
    interaction_id: Option<Seq<char>>,
) -> Result<(Seq<MismatchView<M>>, Seq<Seq<char>>), InteractionErrorView<E>> {
    match interaction {
        Interaction::NotFound(error) => Err(InteractionErrorView::Outside(error)),
        Interaction::NotPrepared(error) => Err(
            InteractionErrorView::Text(verification_error_text(error)),
        ),
        Interaction::Called { service_desc, method_desc, outcome } => match outcome {
            CallOutcome::Answered { metadata, matched } => {
                let found = verification_result(
                    responses,
                    map_contents(metadata),
                    matched,
                    interaction_id,
                );
                Ok(
                    (
                        found,
                        report(
                            service_desc.name.deep_view(),
                            method_desc.name.deep_view(),
                            method_desc.input_type.deep_view(),
                            method_desc.output_type.deep_view(),
                            found.len() > 0,
                        ),
                    ),
                )
            },
            CallOutcome::Status { code, message } => Err(
                InteractionErrorView::Text(grpc_error_text(code, message@)),
            ),
            CallOutcome::Failed(error) => Err(InteractionErrorView::Outside(error)),
        },
    }
}

/// Concludes the verification of an interaction, from what came of its steps.
pub fn conclude_interaction<M, E>(
    interaction: Interaction<M, E>,
    responses: &Vec<MessageContents>,
    interaction_id: &Option<String>,
) -> (r: Result<(Vec<MismatchResult<M>>, Vec<String>), InteractionError<E>>)
    ensures
        match interaction_result(interaction, responses@, interaction_id.deep_view()) {
            Ok((found, lines)) => r matches Ok((results, output)) && mismatch_views(results@)
                == found && output@.map_values(|line: String| line@) == lines,
            Err(error) => r matches Err(found) && found@ == error,
        },
{
    match interaction {
        Interaction::NotFound(error) => Err(InteractionError::Outside(error)),
        Interaction::NotPrepared(error) => Err(InteractionError::Text(error.describe())),
        Interaction::Called { service_desc, method_desc, outcome } => match outcome {
            CallOutcome::Answered { metadata, matched } => Ok(
                conclude_verification(
                    responses,
                    &metadata,
                    matched,
                    interaction_id,
                    &service_desc,
                    &method_desc,
                ),
            ),
            CallOutcome::Status { code, message } => Err(
                InteractionError::Text(grpc_error(code, message.as_str())),
            ),
            CallOutcome::Failed(error) => Err(InteractionError::Outside(error)),
        },
    }
}

/// Verifying an interaction succeeds exactly where every step does: the descriptors are found, the
/// request is prepared, and the server answers. What it gives is then what verifying the response
/// finds, so a response that does not match is a success with something found.
pub proof fn lemma_success_of_every_step<M, E>(
    interaction: Interaction<M, E>,
    responses: Seq<MessageContents>,
    interaction_id: Option<Seq<char>>,
)
    ensures
        interaction_result(interaction, responses, interaction_id) is Ok <==> interaction is Called
            && interaction->outcome is Answered,
        interaction matches Interaction::Called {
            outcome: CallOutcome::Answered { metadata, matched },
            ..
        } ==> {
            let found = verification_result(
                responses,
                map_contents(metadata),
                matched,
                interaction_id,
            );
            &&& (interaction_result(interaction, responses, interaction_id)->Ok_0).0 == found
            &&& found.len() > 0 <==> first_body(responses) is Some && match matched {
                Some(Ok(BodyMatchResult::Matched)) => false,
                Some(Ok(BodyMatchResult::BodyMismatches(mismatches))) => mismatches@.len() > 0,
                Some(_) => true,
                None => false,
            }
        },
{
}

/// Nothing is found in a response exactly where no body is expected, or its body matches, or the
/// mismatches are under no path at all.
pub proof fn lemma_nothing_found<M>(
    matched: Option<Result<BodyMatchResult<M>, String>>,
    interaction_id: Option<Seq<char>>,
)
    ensures
        response_mismatches(matched, interaction_id).len() == 0 <==> match matched {
            None => true,
            Some(Ok(BodyMatchResult::Matched)) => true,
            Some(Ok(BodyMatchResult::BodyMismatches(mismatches))) => mismatches@.len() == 0,
            _ => false,
        },
{
}

/// The metadata of the response, that of the expected responses, and the expected responses after
/// the first have no part in what verification finds.
pub proof fn lemma_only_first_body_counts<M>(
    a: Seq<MessageContents>,
    b: Seq<MessageContents>,
    metadata_a: Map<Seq<char>, Seq<Seq<u8>>>,
    metadata_b: Map<Seq<char>, Seq<Seq<u8>>>,
    matched: Option<Result<BodyMatchResult<M>, String>>,
    interaction_id: Option<Seq<char>>,
)
    requires
        a.len() > 0 <==> b.len() > 0,
        a.len() > 0 ==> a[0].contents == b[0].contents,
    ensures
        first_body(a) == first_body(b),
        verification_result(a, metadata_a, matched, interaction_id) == verification_result(
            b,
            metadata_b,
            matched,
            interaction_id,
        ),
{
}

/// Nothing is found in a response where no body is expected.
pub proof fn lemma_no_expected_body<M>(
    responses: Seq<MessageContents>,
    metadata: Map<Seq<char>, Seq<Seq<u8>>>,
    matched: Option<Result<BodyMatchResult<M>, String>>,
    interaction_id: Option<Seq<char>>,
)
    requires
        first_body(responses) is None,
    ensures
        verification_result(responses, metadata, matched, interaction_id).len() == 0,
{
}

/// All that is found in a response carries the id of the interaction.
pub proof fn lemma_interaction_id<M>(
    matched: Option<Result<BodyMatchResult<M>, String>>,
    interaction_id: Option<Seq<char>>,
)
    ensures
        forall|i: int|
            0 <= i < response_mismatches(matched, interaction_id).len() ==> match (
            #[trigger] response_mismatches(matched, interaction_id)[i]) {
                MismatchView::Mismatches(_, id) => id == interaction_id,
                MismatchView::Error(_, id) => id == interaction_id,
            },
{
}

} // verus!
