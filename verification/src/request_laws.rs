//! Where requests go, in terms of what the configuration and the metadata hold.
use crate::descriptor::{first_where, lemma_first_where};
use crate::message_decoder::{error_cause, error_text, error_type, ErrorView};
use crate::metadata::{EntryView, ValueView, REQUEST_PATH};
use crate::request::{
    body_bytes, config_value, configured_destination, destination_text, invalid_path, json_number,
    json_text, path_text, request_error_text, uri_error_text, RequestError, RequestErrorView,
};
use crate::text::{debug_text, decimal};
use vstd::prelude::*;

verus! {

/// The address of a server has the whole host and the whole port in their places. The local machine
/// stands in for the host, and 8080 for the port.
pub proof fn lemma_addresses(host: Seq<char>, port: usize)
    ensures
        destination_text(Some(host), Some(port)) == "http://"@ + (host + (":"@ + decimal(
            port as nat,
        ))),
        destination_text(None, Some(port)) == "http://[::1]:"@ + decimal(port as nat),
        destination_text(Some(host), None) == "http://"@ + (host + ":8080"@),
        destination_text(None, None) == "http://[::1]:8080"@,
{
    reveal_strlit("http://");
    reveal_strlit("[::1]");
    reveal_strlit(":");
    reveal_strlit("http://[::1]:");
    reveal_strlit(":8080");
    reveal_strlit("http://[::1]:8080");
    reveal_with_fuel(decimal, 5);
    assert(destination_text(Some(host), Some(port)) =~= "http://"@ + (host + (":"@ + decimal(
        port as nat,
    ))));
    assert(destination_text(None, Some(port)) =~= "http://[::1]:"@ + decimal(port as nat));
    assert(decimal(8080) =~= seq!['8', '0', '8', '0']);
    assert(destination_text(Some(host), None) =~= "http://"@ + (host + ":8080"@));
    assert(destination_text(None, None) =~= "http://[::1]:8080"@);
}

/// Whether the value at an index of a configuration is the first under a key.
pub open spec fn configures(
    config: Seq<(String, serde_json::Value)>,
    i: int,
    key: Seq<char>,
) -> bool {
    &&& 0 <= i < config.len()
    &&& config[i].0@ == key
    &&& forall|j: int| 0 <= j < i ==> (#[trigger] config[j]).0@ != key
}

/// The value of a configuration under a key is the first one there, and there is none only where no
/// value has the key.
pub proof fn lemma_config_values(config: Seq<(String, serde_json::Value)>, key: Seq<char>)
    ensures
        forall|i: int| #[trigger]
            configures(config, i, key) ==> config_value(config, key) == Some(config[i].1),
        config_value(config, key) is None <==> forall|i: int|
            0 <= i < config.len() ==> (#[trigger] config[i]).0@ != key,
    decreases config.len(),
{
    lemma_config_step(config, key);
    if config.len() > 0 {
        let rest = config.skip(1);
        lemma_config_values(rest, key);
        assert forall|i: int| #[trigger] configures(config, i, key) implies config_value(config, key)
            == Some(config[i].1) by {
            if i > 0 {
                assert(config[0].0@ != key);
                assert forall|j: int| 0 <= j < i - 1 implies (#[trigger] rest[j]).0@ != key by {
                    assert(config[j + 1].0@ != key);
                }
                assert(configures(rest, i - 1, key));
            } else {
                assert(i == 0);
            }
        }
        if config_value(config, key) is None {
            assert forall|i: int| 0 <= i < config.len() implies (#[trigger] config[i]).0@
                != key by {
                if i > 0 {
                    assert(rest[i - 1].0@ != key);
                }
            }
        } else if config[0].0@ != key {
            let k = choose|k: int| 0 <= k < rest.len() && (#[trigger] rest[k]).0@ == key;
            assert(config[k + 1].0@ == key);
        }
    }
}

proof fn lemma_config_step(config: Seq<(String, serde_json::Value)>, key: Seq<char>)
    ensures
        config.len() == 0 ==> config_value(config, key) is None,
        config.len() > 0 ==> config_value(config, key) == (if config[0].0@ == key {
            Some(config[0].1)
        } else {
            config_value(config.skip(1), key)
        }),
{
}

/// The address of the server is made of the values under "host" and "port", as the text and the
/// number that they stand for.
pub proof fn lemma_configured_addresses(
    config: Seq<(String, serde_json::Value)>,
    h: int,
    p: int,
)
    ensures
        configures(config, h, "host"@) && configures(config, p, "port"@) ==> configured_destination(
            config,
        ) == destination_text(
            Some(json_text(config[h].1)),
            json_number(Some(config[p].1), usize::MAX as nat),
        ),
        configures(config, h, "host"@) && (forall|i: int|
            0 <= i < config.len() ==> (#[trigger] config[i]).0@ != "port"@)
            ==> configured_destination(config) == destination_text(
            Some(json_text(config[h].1)),
            json_number(None, usize::MAX as nat),
        ),
        configures(config, p, "port"@) && (forall|i: int|
            0 <= i < config.len() ==> (#[trigger] config[i]).0@ != "host"@)
            ==> configured_destination(config) == destination_text(
            None,
            json_number(Some(config[p].1), usize::MAX as nat),
        ),
        (forall|i: int|
            0 <= i < config.len() ==> (#[trigger] config[i]).0@ != "host"@ && config[i].0@
                != "port"@) ==> configured_destination(config) == destination_text(
            None,
            json_number(None, usize::MAX as nat),
        ),
{
    lemma_config_values(config, "host"@);
    lemma_config_values(config, "port"@);
}

/// Whether the entry at an index is the first under "request-path".
pub open spec fn gives_path(entries: Seq<EntryView>, i: int) -> bool {
    &&& 0 <= i < entries.len()
    &&& entries[i].key == "request-path"@
    &&& forall|j: int| 0 <= j < i ==> (#[trigger] entries[j]).key != "request-path"@
}

/// The path is the whole text of the first entry under "request-path". It is not set where there is
/// no such entry or it is not set, and not a text where it is binary.
pub proof fn lemma_paths(entries: Seq<EntryView>)
    ensures
        forall|i: int| #[trigger]
            gives_path(entries, i) ==> path_text(entries) == (match entries[i].value {
                Some(ValueView::Text(text)) => Ok(text),
                Some(ValueView::Binary(_)) => Err(RequestErrorView::PathNotText),
                None => Err(RequestErrorView::PathNotSet),
            }),
        (forall|i: int| 0 <= i < entries.len() ==> (#[trigger] entries[i]).key != "request-path"@)
            ==> path_text(entries) == Err::<Seq<char>, RequestErrorView>(
            RequestErrorView::PathNotSet,
        ),
{
    let accepts = |entry: EntryView| entry.key == REQUEST_PATH@;
    lemma_first_where(entries, accepts);
    assert forall|i: int| #[trigger] gives_path(entries, i) implies first_where(entries, accepts)
        == Some(entries[i]) by {
        assert(accepts(entries[i]));
        let found = first_where(entries, accepts)->0;
        let k = choose|k: int|
            0 <= k < entries.len() && #[trigger] entries[k] == found && accepts(found) && (forall|
                j: int,
            |
                0 <= j < k ==> !accepts(#[trigger] entries[j]));
        if k < i {
            assert(entries[k].key != "request-path"@);
        } else if i < k {
            assert(!accepts(entries[i]));
        }
    }
    if first_where(entries, accepts) is Some {
        let found = first_where(entries, accepts)->0;
        let k = choose|k: int|
            0 <= k < entries.len() && #[trigger] entries[k] == found && accepts(found);
        assert(entries[k].key == "request-path"@);
    }
}

/// The bytes of a body are all its bytes, and a missing body has none.
pub proof fn lemma_bodies(bytes: Vec<u8>)
    ensures
        body_bytes(Some(bytes)) == bytes@,
        body_bytes(None).len() == 0,
{
}

/// The texts of the errors of requests.
pub proof fn lemma_request_errors(error: ErrorView, cause: Seq<char>)
    ensures
        request_error_text(RequestErrorView::Message(error)) == error_text(
            error,
            error_cause(error),
            debug_text(error_type(error)),
        ),
        request_error_text(RequestErrorView::PathNotSet)
            == "INTERNAL ERROR: request-path is not set in the request metadata"@,
        request_error_text(RequestErrorView::PathNotText)
            == "INTERNAL ERROR: request-path is not set correctly in the request metadata"@,
        request_error_text(RequestErrorView::InvalidPath(cause)) == cause,
        invalid_path() == RequestErrorView::InvalidPath("invalid uri character"@),
{
}

/// The view of an error shows which it is, with all that it holds.
pub proof fn lemma_request_error_views(error: RequestError)
    ensures
        match error {
            RequestError::Message(cause) => error@ == RequestErrorView::Message(cause@),
            RequestError::PathNotSet => error@ == RequestErrorView::PathNotSet,
            RequestError::PathNotText => error@ == RequestErrorView::PathNotText,
            RequestError::InvalidPath(cause) => error@ == RequestErrorView::InvalidPath(
                uri_error_text(cause),
            ),
        },
{
}

} // verus!
