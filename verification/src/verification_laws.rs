//! What verification finds and reports, in terms of what the matching and the server gave.
use crate::descriptor::{lookup_error_text, LookupError};
use crate::descriptor_laws::{is_last_part, lemma_last_part};
use crate::metadata::map_contents;
use crate::request::{request_error_text, RequestError};
use crate::verification::{
    code_text, first_body, grpc_error_text, interaction_result, message_name, mismatch_views,
    painted, report, verification_error_text, verification_result,
    BodyMatchResult, CallOutcome, Interaction, InteractionError, InteractionErrorView,
    MessageContents, MethodDescriptorProto, MismatchResult, MismatchView, ServiceDescriptorProto,
    VerificationError,
};
use vstd::prelude::*;

verus! {

/// Where a body is expected and the contents differ, there is one result for each path, in order,
/// with all the mismatches under that path and the id of the interaction.
pub proof fn lemma_every_path_counts<M>(
    responses: Seq<MessageContents>,
    metadata: Map<Seq<char>, Seq<Seq<u8>>>,
    mismatches: Vec<(String, Vec<M>)>,
    interaction_id: Option<Seq<char>>,
)
    requires
        responses.len() > 0,
        responses[0].contents is Some,
    ensures
        ({
            let found = verification_result(
                responses,
                metadata,
                Some(Ok(BodyMatchResult::BodyMismatches(mismatches))),
                interaction_id,
            );
            &&& found.len() == mismatches@.len()
            &&& forall|i: int|
                0 <= i < mismatches@.len() ==> #[trigger] found[i] == MismatchView::Mismatches(
                    mismatches@[i].1@,
                    interaction_id,
                )
        }),
{
}

/// Where a body is expected, a failed matching and bodies of different types give one error each,
/// with the whole text and the id of the interaction, and a body that matches gives nothing.
pub proof fn lemma_other_results<M>(
    responses: Seq<MessageContents>,
    metadata: Map<Seq<char>, Seq<Seq<u8>>>,
    text: String,
    interaction_id: Option<Seq<char>>,
)
    requires
        responses.len() > 0,
        responses[0].contents is Some,
    ensures
        verification_result::<M>(
            responses,
            metadata,
            Some(Ok(BodyMatchResult::BodyTypeMismatch { message: text })),
            interaction_id,
        ) == seq![MismatchView::<M>::Error(text@, interaction_id)],
        verification_result::<M>(responses, metadata, Some(Err(text)), interaction_id) == seq![
            MismatchView::<M>::Error(text@, interaction_id),
        ],
        verification_result::<M>(
            responses,
            metadata,
            Some(Ok(BodyMatchResult::Matched)),
            interaction_id,
        ).len() == 0,
        verification_result::<M>(responses, metadata, None, interaction_id).len() == 0,
{
}

/// Where the first response is missing or has no contents, nothing is found; the body that is
/// expected is all the contents of the first response.
pub proof fn lemma_expected_bodies<M>(
    responses: Seq<MessageContents>,
    metadata: Map<Seq<char>, Seq<Seq<u8>>>,
    matched: Option<Result<BodyMatchResult<M>, String>>,
    interaction_id: Option<Seq<char>>,
)
    ensures
        responses.len() == 0 || responses[0].contents is None ==> verification_result(
            responses,
            metadata,
            matched,
            interaction_id,
        ).len() == 0 && first_body(responses) is None,
        responses.len() > 0 ==> (responses[0].contents matches Some(body) ==> first_body(responses)
            == Some(body@)),
{
}

/// The views of results show each result, in order, with all its mismatches or its whole text, and
/// its id.
pub proof fn lemma_result_views<M>(results: Seq<MismatchResult<M>>, i: int)
    requires
        0 <= i < results.len(),
    ensures
        mismatch_views(results).len() == results.len(),
        match results[i] {
            MismatchResult::Mismatches { mismatches, interaction_id } => mismatch_views(results)[i]
                == MismatchView::Mismatches(mismatches@, interaction_id.deep_view()),
            MismatchResult::Error { error, interaction_id } => mismatch_views(results)[i]
                == MismatchView::<M>::Error(error@, interaction_id.deep_view()),
        },
{
}

/// The three lines of a report: the whole names of the service, the method and both messages in
/// bold, and the status in its colour.
pub proof fn lemma_reports(
    service: Seq<char>,
    method: Seq<char>,
    input_type: Seq<char>,
    output_type: Seq<char>,
    failed: bool,
)
    ensures
        ({
            let lines = report(
                Some(service),
                Some(method),
                Some(input_type),
                Some(output_type),
                failed,
            );
            &&& lines.len() == 3
            &&& lines[0] == "Given a \x1b[1m"@ + (service + ("\x1b[0m/\x1b[1m"@ + (method
                + "\x1b[0m request"@)))
            &&& lines[1] == "    with an input \x1b[1m"@ + (input_type + "\x1b[0m message"@)
            &&& lines[2] == "    will return an output \x1b[1m"@ + (output_type + (if failed {
                "\x1b[0m message [\x1b[31mFAILED\x1b[0m]"@
            } else {
                "\x1b[0m message [\x1b[32mOK\x1b[0m]"@
            }))
        }),
{
    reveal_strlit("\x1b[");
    reveal_strlit("m");
    reveal_strlit("\x1b[0m");
    reveal_strlit("1");
    reveal_strlit("31");
    reveal_strlit("32");
    reveal_strlit("/");
    reveal_strlit("Given a ");
    reveal_strlit(" request");
    reveal_strlit("    with an input ");
    reveal_strlit(" message");
    reveal_strlit("    will return an output ");
    reveal_strlit(" message [");
    reveal_strlit("]");
    reveal_strlit("FAILED");
    reveal_strlit("OK");
    reveal_strlit("Given a \x1b[1m");
    reveal_strlit("\x1b[0m/\x1b[1m");
    reveal_strlit("\x1b[0m request");
    reveal_strlit("    with an input \x1b[1m");
    reveal_strlit("\x1b[0m message");
    reveal_strlit("    will return an output \x1b[1m");
    reveal_strlit("\x1b[0m message [\x1b[31mFAILED\x1b[0m]");
    reveal_strlit("\x1b[0m message [\x1b[32mOK\x1b[0m]");
    let lines = report(Some(service), Some(method), Some(input_type), Some(output_type), failed);
    assert(lines[0] =~= "Given a \x1b[1m"@ + (service + ("\x1b[0m/\x1b[1m"@ + (method
        + "\x1b[0m request"@))));
    assert(lines[1] =~= "    with an input \x1b[1m"@ + (input_type + "\x1b[0m message"@));
    if failed {
        assert(lines[2] =~= "    will return an output \x1b[1m"@ + (output_type
            + "\x1b[0m message [\x1b[31mFAILED\x1b[0m]"@));
    } else {
        assert(lines[2] =~= "    will return an output \x1b[1m"@ + (output_type
            + "\x1b[0m message [\x1b[32mOK\x1b[0m]"@));
    }
}

/// A missing name is reported as an empty one, each on its own.
pub proof fn lemma_missing_names(
    service: Option<Seq<char>>,
    method: Option<Seq<char>>,
    input_type: Option<Seq<char>>,
    output_type: Option<Seq<char>>,
    failed: bool,
)
    ensures
        report(None, method, input_type, output_type, failed) == report(
            Some(seq![]),
            method,
            input_type,
            output_type,
            failed,
        ),
        report(service, None, input_type, output_type, failed) == report(
            service,
            Some(seq![]),
            input_type,
            output_type,
            failed,
        ),
        report(service, method, None, output_type, failed) == report(
            service,
            method,
            Some(seq![]),
            output_type,
            failed,
        ),
        report(service, method, input_type, None, failed) == report(
            service,
            method,
            input_type,
            Some(seq![]),
            failed,
        ),
{
}

/// What the status codes stand for. All other numbers, and two, stand for an unknown error.
pub proof fn lemma_codes(code: i32)
    ensures
        code == 0 ==> code_text(code) == "The operation completed successfully"@,
        code == 1 ==> code_text(code) == "The operation was cancelled"@,
        code == 3 ==> code_text(code) == "Client specified an invalid argument"@,
        code == 4 ==> code_text(code) == "Deadline expired before operation could complete"@,
        code == 5 ==> code_text(code) == "Some requested entity was not found"@,
        code == 6 ==> code_text(code) == "Some entity that we attempted to create already exists"@,
        code == 7 ==> code_text(code)
            == "The caller does not have permission to execute the specified operation"@,
        code == 8 ==> code_text(code) == "Some resource has been exhausted"@,
        code == 9 ==> code_text(code)
            == "The system is not in a state required for the operation's execution"@,
        code == 10 ==> code_text(code) == "The operation was aborted"@,
        code == 11 ==> code_text(code) == "Operation was attempted past the valid range"@,
        code == 12 ==> code_text(code) == "Operation is not implemented or not supported"@,
        code == 13 ==> code_text(code) == "Internal error"@,
        code == 14 ==> code_text(code) == "The service is currently unavailable"@,
        code == 15 ==> code_text(code) == "Unrecoverable data loss or corruption"@,
        code == 16 ==> code_text(code)
            == "The request does not have valid authentication credentials"@,
        code < 0 || code == 2 || code > 16 ==> code_text(code) == "Unknown error"@,
{
}

/// The error for a status holds what its code stands for and its whole message.
pub proof fn lemma_status_errors(code: i32, message: Seq<char>)
    ensures
        grpc_error_text(code, message) == "gRPC error: status "@ + (code_text(code) + (
        ", message '"@ + (message + "'"@))),
{
    assert(grpc_error_text(code, message) =~= "gRPC error: status "@ + (code_text(code) + (
    ", message '"@ + (message + "'"@))));
}

/// The messages of a method are looked for by the last parts of their dotted names.
pub proof fn lemma_message_names(name: Seq<char>, part: Seq<char>)
    ensures
        is_last_part(part, name) <==> message_name(Some(name)) == part,
        message_name(None).len() == 0,
{
    lemma_last_part(part, name);
}

/// The error for a request that was not prepared has the text of its cause.
pub proof fn lemma_preparation_errors(lookup: LookupError, request: RequestError)
    ensures
        verification_error_text(VerificationError::Lookup(lookup)) == lookup_error_text(lookup),
        verification_error_text(VerificationError::Request(request)) == request_error_text(
            request@,
        ),
{
}

/// Where a step fails, verifying an interaction gives its error: one from outside as it is, that of
/// a request that was not prepared and that of a status as a text.
pub proof fn lemma_failed_steps<M, E>(
    responses: Seq<MessageContents>,
    interaction_id: Option<Seq<char>>,
    outside: E,
    error: VerificationError,
    service_desc: ServiceDescriptorProto,
    method_desc: MethodDescriptorProto,
    code: i32,
    message: String,
)
    ensures
        interaction_result(Interaction::<M, E>::NotFound(outside), responses, interaction_id) is Err,
        interaction_result(
            Interaction::<M, E>::NotFound(outside),
            responses,
            interaction_id,
        )->Err_0 == InteractionErrorView::Outside(outside),
        interaction_result(Interaction::<M, E>::NotPrepared(error), responses, interaction_id) is Err,
        interaction_result(
            Interaction::<M, E>::NotPrepared(error),
            responses,
            interaction_id,
        )->Err_0 == InteractionErrorView::<E>::Text(verification_error_text(error)),
        ({
            let failed = Interaction::<M, E>::Called {
                service_desc,
                method_desc,
                outcome: CallOutcome::Failed(outside),
            };
            let status = Interaction::<M, E>::Called {
                service_desc,
                method_desc,
                outcome: CallOutcome::Status { code, message },
            };
            &&& interaction_result(failed, responses, interaction_id) is Err
            &&& interaction_result(failed, responses, interaction_id)->Err_0
                == InteractionErrorView::Outside(outside)
            &&& interaction_result(status, responses, interaction_id) is Err
            &&& interaction_result(status, responses, interaction_id)->Err_0
                == InteractionErrorView::<E>::Text(grpc_error_text(code, message@))
        }),
{
}

/// Where the server answered, the report names the service and the method and tells whether
/// anything was found.
pub proof fn lemma_answered_report<M, E>(
    responses: Seq<MessageContents>,
    interaction_id: Option<Seq<char>>,
    service_desc: ServiceDescriptorProto,
    method_desc: MethodDescriptorProto,
    metadata: tonic::metadata::MetadataMap,
    matched: Option<Result<BodyMatchResult<M>, String>>,
)
    ensures
        ({
            let answered = Interaction::<M, E>::Called {
                service_desc,
                method_desc,
                outcome: CallOutcome::Answered { metadata, matched },
            };
            let found = verification_result(
                responses,
                map_contents(metadata),
                matched,
                interaction_id,
            );
            interaction_result(answered, responses, interaction_id) matches Ok((results, lines))
                && results == found && lines == report(
                service_desc.name.deep_view(),
                method_desc.name.deep_view(),
                method_desc.input_type.deep_view(),
                method_desc.output_type.deep_view(),
                found.len() > 0,
            )
        }),
{
}

/// The view of an error shows the error from outside, or the whole text.
pub proof fn lemma_interaction_error_views<E>(error: InteractionError<E>)
    ensures
        match error {
            InteractionError::Outside(outside) => error@ == InteractionErrorView::Outside(outside),
            InteractionError::Text(text) => error@ == InteractionErrorView::<E>::Text(text@),
        },
{
}

/// Painted text is the whole text between the codes for the style and for the end of all styles.
pub proof fn lemma_painted(style: Seq<char>, text: Seq<char>)
    ensures
        painted(style, text) == "\x1b["@ + (style + ("m"@ + (text + "\x1b[0m"@))),
{
    assert(painted(style, text) =~= "\x1b["@ + (style + ("m"@ + (text + "\x1b[0m"@))));
}

} // verus!
