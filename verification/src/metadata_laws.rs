//! What becomes of each metadata entry, in terms of its key and its value.
use crate::metadata::{
    added_value, adds_beyond, entry_views, is_ascii_text, is_binary_name, is_key_char, is_misplaced,
    is_refused, is_unbuildable, key_name, lemma_last_value_stays, lower_case, may_be_full,
    proto_text, reason_left_out, request_metadata, EntryView, LeftOut, MetadataEntry, MetadataValue,
    ValueView, REQUEST_PATH, SURE_KEYS,
};
use vstd::prelude::*;
use vstd::utf8::encode_utf8;

verus! {

/// A character that a metadata key may hold: a letter, a digit or one of these signs.
pub open spec fn may_be_in_key(c: char) -> bool {
    ||| 'a' <= c <= 'z'
    ||| 'A' <= c <= 'Z'
    ||| '0' <= c <= '9'
    ||| c == '!' || c == '"' || c == '#' || c == '$' || c == '%' || c == '&' || c == '\''
    ||| c == '*' || c == '+' || c == '-' || c == '.' || c == '^' || c == '_' || c == '`'
    ||| c == '|' || c == '~'
}

/// Whether `name` is the key in lower case: as long, with each letter from A to Z replaced by that
/// from a to z and all other characters as they are.
pub open spec fn is_lower_case_of(name: Seq<char>, key: Seq<char>) -> bool {
    name.len() == key.len() && forall|i: int|
        0 <= i < key.len() ==> if 'A' <= key[i] <= 'Z' {
            (#[trigger] name[i]) as int == key[i] as int + 32
        } else {
            name[i] == key[i]
        }
}

/// Whether a text is a metadata key: not empty, at most 65535 characters long, and of the characters
/// that a key may hold.
pub open spec fn is_key(key: Seq<char>) -> bool {
    0 < key.len() < 0x1_0000 && forall|i: int|
        0 <= i < key.len() ==> may_be_in_key(#[trigger] key[i])
}

/// Whether a key ends in "-bin", in either case.
pub open spec fn ends_in_bin(key: Seq<char>) -> bool {
    let n = key.len() as int;
    &&& n >= 4
    &&& key[n - 4] == '-'
    &&& key[n - 3] == 'b' || key[n - 3] == 'B'
    &&& key[n - 2] == 'i' || key[n - 2] == 'I'
    &&& key[n - 1] == 'n' || key[n - 1] == 'N'
}

/// Whether a text may be an ascii value: it has no control characters but tabs.
pub open spec fn is_value(text: Seq<char>) -> bool {
    forall|i: int|
        0 <= i < text.len() ==> {
            let c = (#[trigger] text[i]) as int;
            c == 9 || 32 <= c <= 126 || c >= 128
        }
}

/// The names of keys are the keys in lower case, and there are no others.
pub proof fn lemma_key_names(key: Seq<char>, name: Seq<char>)
    ensures
        is_key(key) && is_lower_case_of(name, key) <==> key_name(key) == Some(name),
        key_name(key) is None <==> !is_key(key),
        is_key(key) && is_lower_case_of(name, key) ==> (is_binary_name(name) <==> ends_in_bin(key)),
{
    assert forall|i: int| 0 <= i < key.len() implies is_key_char(#[trigger] key[i])
        == may_be_in_key(key[i]) by {}
    if is_key(key) {
        let lower = key.map_values(|c: char| lower_case(c));
        if is_lower_case_of(name, key) {
            assert forall|i: int| 0 <= i < key.len() implies #[trigger] name[i] == lower[i] by {
                assert(may_be_in_key(key[i]));
            }
            assert(name =~= lower);
            lemma_bin_ending(key, name);
        }
        if key_name(key) == Some(name) {
            assert(name == lower);
            assert(is_lower_case_of(name, key));
        }
    } else if key_name(key) is Some {
        assert forall|i: int| 0 <= i < key.len() implies may_be_in_key(#[trigger] key[i]) by {
            assert(is_key_char(key[i]));
        }
    }
}

proof fn lemma_bin_ending(key: Seq<char>, name: Seq<char>)
    requires
        is_lower_case_of(name, key),
    ensures
        is_binary_name(name) <==> ends_in_bin(key),
{
    reveal_strlit("-bin");
    let n = key.len() as int;
    if n >= 4 {
        assert(is_binary_name(name) <==> name.subrange(n - 4, n) =~= "-bin"@);
        let tail = name.subrange(n - 4, n);
        assert(tail[0] == name[n - 4] && tail[1] == name[n - 3]);
        assert(tail[2] == name[n - 2] && tail[3] == name[n - 1]);
        if tail[0] == '-' && tail[1] == 'b' && tail[2] == 'i' && tail[3] == 'n' {
            assert(tail =~= "-bin"@);
        }
    }
}

/// The texts of ascii values.
pub proof fn lemma_values(text: Seq<char>)
    ensures
        is_ascii_text(text) <==> is_value(text),
{
    if is_ascii_text(text) {
        assert forall|i: int| 0 <= i < text.len() implies ({
            let c = (#[trigger] text[i]) as int;
            c == 9 || 32 <= c <= 126 || c >= 128
        }) by {
            let c = text[i];
        }
    }
    if is_value(text) {
        assert forall|i: int| 0 <= i < text.len() implies ({
            let c = #[trigger] text[i];
            c == '\t' || (c >= ' ' && c != '\x7f')
        }) by {
            let c = text[i] as int;
        }
    }
}

/// Whether an entry carries bytes for a name: it is not the path of the request, its key in lower
/// case is the name, and its value is these bytes, or a text that may be an ascii value, whole and
/// in UTF-8.
pub open spec fn carries(entry: EntryView, name: Seq<char>, bytes: Seq<u8>) -> bool {
    &&& entry.key != "request-path"@
    &&& is_key(entry.key) && is_lower_case_of(name, entry.key)
    &&& match entry.value {
        Some(ValueView::Text(text)) => is_value(text) && bytes == encode_utf8(text),
        Some(ValueView::Binary(value)) => bytes == value,
        None => false,
    }
}

proof fn lemma_carries(entry: EntryView, name: Seq<char>, bytes: Seq<u8>)
    ensures
        carries(entry, name, bytes) <==> added_value(entry) == Some((name, bytes)),
{
    lemma_key_names(entry.key, name);
    if let Some(ValueView::Text(text)) = entry.value {
        lemma_values(text);
    }
}

/// The metadata holds, under the key in lower case, the one value of the last entry that carries
/// one there: the whole text or all the bytes, whatever their length. It holds no other keys.
pub proof fn lemma_values_arrive(entries: Seq<EntryView>, name: Seq<char>)
    ensures
        forall|i: int, bytes: Seq<u8>|
            0 <= i < entries.len() && #[trigger] carries(entries[i], name, bytes) && (forall|
                j: int,
                other: Seq<u8>,
            |
                i < j < entries.len() ==> !(#[trigger] carries(entries[j], name, other)))
                ==> request_metadata(entries).contains_key(name) && request_metadata(entries)[name]
                == seq![bytes],
        (forall|i: int, bytes: Seq<u8>|
            0 <= i < entries.len() ==> !(#[trigger] carries(entries[i], name, bytes)))
            ==> !request_metadata(entries).contains_key(name),
{
    lemma_last_value_stays(entries, name);
    let metadata = request_metadata(entries);
    assert forall|i: int, bytes: Seq<u8>|
        0 <= i < entries.len() && #[trigger] carries(entries[i], name, bytes) && (forall|
            j: int,
            other: Seq<u8>,
        |
            i < j < entries.len() ==> !(#[trigger] carries(
                entries[j],
                name,
                other,
            ))) implies metadata.contains_key(name) && metadata[name] == seq![bytes] by {
        lemma_carries(entries[i], name, bytes);
        let k = choose|k: int|
            0 <= k < entries.len() && (#[trigger] added_value(entries[k]) matches Some(
                (added, found),
            ) && added == name && metadata[name] == seq![found]) && (forall|j: int|
                k < j < entries.len() ==> !(#[trigger] added_value(entries[j]) matches Some(
                    (added, _),
                ) && added == name));
        let found = (added_value(entries[k])->0).1;
        lemma_carries(entries[k], name, found);
        if i < k {
            assert(!carries(entries[k], name, found));
        } else if k < i {
            assert(added_value(entries[i]) == Some((name, bytes)));
        }
    }
    if metadata.contains_key(name) {
        let k = choose|k: int|
            0 <= k < entries.len() && (#[trigger] added_value(entries[k]) matches Some((added, _))
                && added == name);
        let found = (added_value(entries[k])->0).1;
        lemma_carries(entries[k], name, found);
        assert(carries(entries[k], name, found));
    }
}

/// Whether an entry carries a text under a key that ends in "-bin", or bytes under one that does
/// not.
pub open spec fn is_under_wrong_key(entry: EntryView) -> bool {
    &&& entry.key != "request-path"@
    &&& is_key(entry.key)
    &&& match entry.value {
        Some(ValueView::Text(text)) => is_value(text) && ends_in_bin(entry.key),
        Some(ValueView::Binary(_)) => !ends_in_bin(entry.key),
        None => false,
    }
}

proof fn lemma_wrong_key(entry: EntryView)
    ensures
        is_under_wrong_key(entry) <==> is_misplaced(entry),
{
    let name = entry.key.map_values(|c: char| lower_case(c));
    lemma_key_names(entry.key, name);
    if is_key(entry.key) {
        assert(key_name(entry.key) == Some(name)) by {
            assert forall|i: int| 0 <= i < entry.key.len() implies is_key_char(
                #[trigger] entry.key[i],
            ) by {
                assert(may_be_in_key(entry.key[i]));
            }
        }
    }
    if let Some(ValueView::Text(text)) = entry.value {
        lemma_values(text);
    }
}

/// Metadata with an entry under a wrong key is never built. Without one, and with at most 6554
/// entries, it always is.
pub proof fn lemma_metadata_is_built(entries: Seq<EntryView>)
    ensures
        (exists|i: int| 0 <= i < entries.len() && is_under_wrong_key(#[trigger] entries[i]))
            ==> is_unbuildable(entries),
        entries.len() <= 6554 && (forall|i: int|
            0 <= i < entries.len() ==> !is_under_wrong_key(#[trigger] entries[i]))
            ==> !is_unbuildable(entries) && !may_be_full(entries),
{
    if exists|i: int| 0 <= i < entries.len() && is_under_wrong_key(#[trigger] entries[i]) {
        let i = choose|i: int|
            0 <= i < entries.len() && is_under_wrong_key(#[trigger] entries[i]);
        lemma_wrong_key(entries[i]);
        assert(is_refused(entries, i));
    } else if entries.len() <= 6554 {
        assert forall|i: int| 0 <= i < entries.len() implies !(#[trigger] is_refused(
            entries,
            i,
        )) by {
            lemma_wrong_key(entries[i]);
            lemma_key_bound(entries.take(i));
        }
        assert forall|i: int| 0 <= i < entries.len() implies !(#[trigger] adds_beyond(
            entries,
            i,
            SURE_KEYS as nat,
        )) by {
            lemma_key_bound(entries.take(i));
        }
    }
}

proof fn lemma_key_bound(entries: Seq<EntryView>)
    ensures
        request_metadata(entries).dom().finite(),
        request_metadata(entries).dom().len() <= entries.len(),
    decreases entries.len(),
{
    if entries.len() > 0 {
        lemma_key_bound(entries.drop_last());
    }
}

/// Why an entry that is set is left out: a text that may not be a value comes first, then a key
/// that is none.
pub proof fn lemma_reasons(entry: EntryView)
    ensures
        reason_left_out(entry) == Some(LeftOut::InvalidValue) <==> entry.key != "request-path"@ && (
        entry.value matches Some(ValueView::Text(text)) && !is_value(text)),
        reason_left_out(entry) == Some(LeftOut::InvalidKey) <==> entry.key != "request-path"@
            && entry.value is Some && !is_key(entry.key) && !(entry.value matches Some(
            ValueView::Text(text),
        ) && !is_value(text)),
{
    lemma_key_names(entry.key, entry.key);
    if let Some(ValueView::Text(text)) = entry.value {
        lemma_values(text);
    }
}

/// The views of entries show each entry, in order, with its whole key, and its value as the text of
/// a value that is not binary or as all its bytes.
pub proof fn lemma_entry_views(entries: Seq<MetadataEntry>, i: int)
    requires
        0 <= i < entries.len(),
    ensures
        entry_views(entries).len() == entries.len(),
        entry_views(entries)[i].key == entries[i].key@,
        match entries[i].value {
            None => entry_views(entries)[i].value is None,
            Some(MetadataValue::Binary(bytes)) => entry_views(entries)[i].value == Some(
                ValueView::Binary(bytes@),
            ),
            Some(MetadataValue::NonBinary(value)) => match proto_text(value) {
                Some(text) => entry_views(entries)[i].value == Some(ValueView::Text(text)),
                None => entry_views(entries)[i].value == Some(ValueView::Text(seq![])),
            },
        },
        REQUEST_PATH@ == "request-path"@,
{
}

} // verus!
