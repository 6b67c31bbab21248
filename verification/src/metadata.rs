//! Metadata of gRPC requests: keys, values, and the map that goes with a request.
use crate::descriptor::text_or_empty;
use crate::text::same_text;
use vstd::prelude::*;
use vstd::utf8::encode_utf8;

verus! {

#[verifier::external_type_specification]
#[verifier::external_body]
pub struct ExMetadataMap(tonic::metadata::MetadataMap);

/// The values under each key of a metadata map, as the bytes that `MetadataValue::to_bytes`
/// gives: those of the text for ascii values, the decoded ones for binary values.
pub uninterp spec fn map_contents(map: tonic::metadata::MetadataMap) -> Map<
    Seq<char>,
    Seq<Seq<u8>>,
>;

/// A character that a metadata key may hold.
pub open spec fn is_key_char(c: char) -> bool {
    ||| '!' <= c <= '\''
    ||| c == '*' || c == '+' || c == '-' || c == '.'
    ||| '0' <= c <= '9'
    ||| 'A' <= c <= 'Z'
    ||| '^' <= c <= 'z'
    ||| c == '|' || c == '~'
}

/// The character in lower case.
pub open spec fn lower_case(c: char) -> char {
    if 'A' <= c <= 'Z' {
        (c as u32 + 32) as char
    } else {
        c
    }
}

/// The metadata key that a text stands for: the text in lower case, if it is not empty, not
/// longer than a key can be, and holds the characters of keys alone.
pub open spec fn key_name(text: Seq<char>) -> Option<Seq<char>> {
    if 1 <= text.len() <= 0xffff && (forall|i: int|
        0 <= i < text.len() ==> is_key_char(#[trigger] text[i])) {
        Some(text.map_values(|c: char| lower_case(c)))
    } else {
        None
    }
}

/// Whether a key is one for binary values.
pub open spec fn is_binary_name(name: Seq<char>) -> bool {
    "-bin"@.is_suffix_of(name)
}

/// A text that an ascii metadata value may hold: no control characters but tabs.
pub open spec fn is_ascii_text(text: Seq<char>) -> bool {
    forall|i: int|
        0 <= i < text.len() ==> {
            let c = #[trigger] text[i];
            c == '\t' || (c >= ' ' && c != '\x7f')
        }
}

/// `MetadataMap::new`: a map without values.
#[verifier::external_body]
pub(crate) fn new_map() -> (r: tonic::metadata::MetadataMap)
    ensures
        map_contents(r) == (Map::<Seq<char>, Seq<Seq<u8>>>::empty()),
{
    tonic::metadata::MetadataMap::new()
}

/// `str::parse::<MetadataValue<Ascii>>`: whether the text can be an ascii metadata value.
#[verifier::external_body]
pub(crate) fn parses_as_value(text: &str) -> (r: bool)
    ensures
        r == is_ascii_text(text@),
{
    text.parse::<tonic::metadata::MetadataValue<tonic::metadata::Ascii>>().is_ok()
}

/// `str::parse::<MetadataKey<Ascii>>`: whether the text can be a key for ascii values. The call
/// panics on a text that is a key for binary values.
#[verifier::external_body]
fn parses_as_ascii_key(text: &str) -> (r: bool)
    requires
        key_name(text@) matches Some(name) ==> !is_binary_name(name),
    ensures
        r == (key_name(text@) is Some),
{
    text.parse::<tonic::metadata::MetadataKey<tonic::metadata::Ascii>>().is_ok()
}

/// `str::parse::<MetadataKey<Binary>>`: whether the text can be a key for binary values. The call
/// panics on a text that is a key for ascii values.
#[verifier::external_body]
fn parses_as_binary_key(text: &str) -> (r: bool)
    requires
        key_name(text@) matches Some(name) ==> is_binary_name(name),
    ensures
        r == (key_name(text@) is Some),
{
    text.parse::<tonic::metadata::MetadataKey<tonic::metadata::Binary>>().is_ok()
}

/// `HeaderMap::try_insert` on the headers of a metadata map, which `MetadataMap::insert` calls
/// and panics where it fails: puts an ascii value in the place of all values under the key, or
/// fails, as the table is full. It does not fail below the first bound on the number of keys, and
/// does from the second on, also where the key is there. In between it rests on how the names of
/// the keys spread over the table, of which nothing is said.
#[verifier::external_body]
fn insert_ascii(map: &mut tonic::metadata::MetadataMap, key: &str, value: &str) -> (r: bool)
    requires
        key_name(key@) matches Some(name) && !is_binary_name(name),
        is_ascii_text(value@),
    ensures
        map_contents(*final(map)) == (if r {
            map_contents(*old(map)).insert(key_name(key@)->0, seq![encode_utf8(value@)])
        } else {
            map_contents(*old(map))
        }),
        map_contents(*old(map)).dom().len() < SURE_KEYS ==> r,
        map_contents(*old(map)).dom().len() >= MAX_KEYS ==> !r,
{
    let mut headers = std::mem::take(map).into_headers();
    let name = http::header::HeaderName::from_bytes(key.as_bytes()).unwrap();
    let r = headers.try_insert(name, http::HeaderValue::from_str(value).unwrap());
    *map = tonic::metadata::MetadataMap::from_headers(headers);
    r.is_ok()
}

/// `HeaderMap::try_insert` on the headers of a metadata map, which `MetadataMap::insert_bin` calls
/// and panics where it fails: puts a binary value, as `MetadataValue::from_bytes` encodes it, in
/// the place of all values under the key, or fails, as the table is full. What is said of failing
/// is what is said for ascii values.
#[verifier::external_body]
fn insert_binary(map: &mut tonic::metadata::MetadataMap, key: &str, value: &Vec<u8>) -> (r: bool)
    requires
        key_name(key@) matches Some(name) && is_binary_name(name),
    ensures
        map_contents(*final(map)) == (if r {
            map_contents(*old(map)).insert(key_name(key@)->0, seq![value@])
        } else {
            map_contents(*old(map))
        }),
        map_contents(*old(map)).dom().len() < SURE_KEYS ==> r,
        map_contents(*old(map)).dom().len() >= MAX_KEYS ==> !r,
{
    let mut headers = std::mem::take(map).into_headers();
    let name = http::header::HeaderName::from_bytes(key.as_bytes()).unwrap();
    let value = tonic::metadata::MetadataValue::from_bytes(value);
    let encoded = http::HeaderValue::from_bytes(value.as_encoded_bytes()).unwrap();
    let r = headers.try_insert(name, encoded);
    *map = tonic::metadata::MetadataMap::from_headers(headers);
    r.is_ok()
}

#[verifier::external_type_specification]
#[verifier::external_body]
pub struct ExProtoValue(prost_types::Value);

/// The text that `proto_value_to_string` gives for a value.
pub uninterp spec fn proto_text(value: prost_types::Value) -> Option<Seq<char>>;

/// `pact_plugin_driver::utils::proto_value_to_string`: the text of a value, if it has one. A
/// string is its own text, booleans and numbers have the text that `to_string` gives, structures
/// and lists are written as JSON, and null and missing values have none. What the text is is left
/// to the name.
#[verifier::external_body]
fn proto_value_to_string(value: &prost_types::Value) -> (r: Option<String>)
    ensures
        r.deep_view() == proto_text(*value),
{
    pact_plugin_driver::utils::proto_value_to_string(value)
}

/// The number of keys that a metadata map is sure to hold: with fewer there is room for one more.
pub const SURE_KEYS: usize = 6554;

/// The number of keys that a metadata map can hold: with as many there is no room for one more.
pub const MAX_KEYS: usize = 24576;

/// The key of the metadata entry that holds the path of the request.
pub const REQUEST_PATH: &'static str = "request-path";

/// The value of a metadata entry
pub enum MetadataValue {
    /// A value with a text
    NonBinary(prost_types::Value),
    /// Bytes
    Binary(Vec<u8>),
}

/// A metadata entry
pub struct MetadataEntry {
    /// Key of the entry
    pub key: String,
    /// Value of the entry, if it is set
    pub value: Option<MetadataValue>,
}

/// The value of a metadata entry, with its text in the place of a value that is not binary.
pub ghost enum ValueView {
    Text(Seq<char>),
    Binary(Seq<u8>),
}

/// A metadata entry as mathematical values.
pub ghost struct EntryView {
    pub key: Seq<char>,
    pub value: Option<ValueView>,
}

impl View for MetadataValue {
    type V = ValueView;

    open spec fn view(&self) -> ValueView {
        match *self {
            MetadataValue::NonBinary(value) => ValueView::Text(text_or_empty(proto_text(value))),
            MetadataValue::Binary(bytes) => ValueView::Binary(bytes@),
        }
    }
}

impl View for MetadataEntry {
    type V = EntryView;

    open spec fn view(&self) -> EntryView {
        EntryView {
            key: self.key@,
            value: match self.value {
                Some(value) => Some(value@),
                None => None,
            },
        }
    }
}

/// The entries as mathematical values.
pub open spec fn entry_views(entries: Seq<MetadataEntry>) -> Seq<EntryView> {
    entries.map_values(|entry: MetadataEntry| entry@)
}

/// The key and the bytes that an entry adds to the metadata of a request. The path of the
/// request, entries that are not set, and those whose key or text cannot be metadata add nothing.
pub open spec fn added_value(entry: EntryView) -> Option<(Seq<char>, Seq<u8>)> {
    if entry.key == REQUEST_PATH@ {
        None
    } else {
        match (entry.value, key_name(entry.key)) {
            (Some(ValueView::Text(text)), Some(name)) => if is_ascii_text(text) {
                Some((name, encode_utf8(text)))
            } else {
                None
            },
            (Some(ValueView::Binary(bytes)), Some(name)) => Some((name, bytes)),
            _ => None,
        }
    }
}

/// Whether an entry adds a value of the one encoding under a key for the other.
pub open spec fn is_misplaced(entry: EntryView) -> bool {
    added_value(entry) matches Some((name, _)) && (is_binary_name(name) <==> entry.value->0 is Text)
}

/// The metadata of a request: the values that the entries add, where later ones take the place
/// of earlier ones under the same key.
pub open spec fn request_metadata(entries: Seq<EntryView>) -> Map<Seq<char>, Seq<Seq<u8>>>
    decreases entries.len(),
{
    if entries.len() == 0 {
        Map::empty()
    } else {
        let before = request_metadata(entries.drop_last());
        match added_value(entries.last()) {
            Some((name, bytes)) => before.insert(name, seq![bytes]),
            None => before,
        }
    }
}

/// Whether an entry adds a value to metadata that holds at least `keys` keys.
pub open spec fn adds_beyond(entries: Seq<EntryView>, i: int, keys: nat) -> bool {
    added_value(entries[i]) is Some && request_metadata(entries.take(i)).dom().len() >= keys
}

/// Whether a metadata map cannot take what an entry adds: a value of the one encoding under a key
/// for the other, or one beyond the keys that a map can hold.
pub open spec fn is_refused(entries: Seq<EntryView>, i: int) -> bool {
    is_misplaced(entries[i]) || adds_beyond(entries, i, MAX_KEYS as nat)
}

/// Whether a metadata map cannot take all that the entries add, one after the other.
pub open spec fn is_unbuildable(entries: Seq<EntryView>) -> bool {
    exists|i: int| 0 <= i < entries.len() && #[trigger] is_refused(entries, i)
}

/// Whether a metadata map may be full before it has taken all that the entries add: one adds a
/// value beyond the keys that a map is sure to hold.
pub open spec fn may_be_full(entries: Seq<EntryView>) -> bool {
    exists|i: int| 0 <= i < entries.len() && #[trigger] adds_beyond(entries, i, SURE_KEYS as nat)
}

/// The metadata key that a text stands for, if it is one.
fn find_key_name(text: &str) -> (r: Option<String>)
    ensures
        r.deep_view() == key_name(text@),
{
    let length: usize = text.unicode_len();
    if length == 0 || length > 0xffff {
        return None;
    }
    let mut name = String::new();
    for c in it: text.chars()
        invariant
            it.seq() == text@,
            forall|i: int| 0 <= i < it.index() ==> is_key_char(#[trigger] text@[i]),
            name@ == text@.take(it.index()).map_values(|c: char| lower_case(c)),
    {
        let valid = ('!' <= c && c <= '\'') || c == '*' || c == '+' || c == '-' || c == '.' || (
        '0' <= c && c <= '9') || ('A' <= c && c <= 'Z') || ('^' <= c && c <= 'z') || c == '|' || c
            == '~';
        if !valid {
            assert(!is_key_char(text@[it.index()]));
            return None;
        }
        if 'A' <= c && c <= 'Z' {
            name.push((c as u8 + 32) as char);
        } else {
            name.push(c);
        }
        assert(name@ =~= text@.take(it.index() + 1).map_values(|c: char| lower_case(c)));
    }
    assert(text@.take(text@.len() as int) =~= text@);
    Some(name)
}

/// Whether a key is one for binary values.
fn has_binary_name(name: &str) -> (r: bool)
    ensures
        r == is_binary_name(name@),
{
    let length: usize = name.unicode_len();
    proof {
        reveal_strlit("-bin");
    }
    if length < 4 {
        return false;
    }
    assert(is_binary_name(name@) <==> name@.subrange(length - 4, length as int) == "-bin"@);
    same_text(name.substring_char(length - 4, length), "-bin")
}

/// The text of a value, or the empty text where it has none.
pub(crate) fn value_text(value: &prost_types::Value) -> (r: String)
    ensures
        r@ == text_or_empty(proto_text(*value)),
{
    match proto_value_to_string(value) {
        Some(text) => text,
        None => String::new(),
    }
}

/// Adds what an entry adds to the metadata of a request, and tells whether the map took it: what
/// it does not take is left out.
fn add_entry(map: &mut tonic::metadata::MetadataMap, entry: &MetadataEntry) -> (r: bool)
    ensures
        map_contents(*final(map)) == (match added_value(entry@) {
            Some((name, bytes)) => if r {
                map_contents(*old(map)).insert(name, seq![bytes])
            } else {
                map_contents(*old(map))
            },
            None => map_contents(*old(map)),
        }),
        added_value(entry@) is None ==> r,
        is_misplaced(entry@) ==> !r,
        added_value(entry@) is Some && map_contents(*old(map)).dom().len() >= MAX_KEYS ==> !r,
        !r ==> is_misplaced(entry@) || map_contents(*old(map)).dom().len() >= SURE_KEYS,
{
    let key = entry.key.as_str();
    if same_text(key, REQUEST_PATH) {
        return true;
    }
    let binary_key = match find_key_name(key) {
        Some(name) => Some(has_binary_name(name.as_str())),
        None => None,
    };
    match &entry.value {
        Some(MetadataValue::NonBinary(value)) => {
            let text = value_text(value);
            if parses_as_value(text.as_str()) {
                if let Some(true) = binary_key {
                    return false;
                }
                if parses_as_ascii_key(key) {
                    return insert_ascii(map, key, text.as_str());
                }
            }
        },
        Some(MetadataValue::Binary(bytes)) => {
            if let Some(false) = binary_key {
                return false;
            }
            if parses_as_binary_key(key) {
                return insert_binary(map, key, bytes);
            }
        },
        None => {},
    }
    true
}

/// Builds the metadata of a request. There is none where a metadata map does not take what the
/// entries add: where it cannot, and where it is full.
pub fn build_metadata(entries: &Vec<MetadataEntry>) -> (r: Option<tonic::metadata::MetadataMap>)
    ensures
        match r {
            Some(map) => !is_unbuildable(entry_views(entries@)) && map_contents(map)
                == request_metadata(entry_views(entries@)),
            None => is_unbuildable(entry_views(entries@)) || may_be_full(entry_views(entries@)),
        },
{
    let ghost views = entry_views(entries@);
    let mut map = new_map();
    let mut i: usize = 0;
    while i < entries.len()
        invariant
            i <= entries@.len(),
            views == entry_views(entries@),
            map_contents(map) == request_metadata(views.take(i as int)),
            forall|j: int| 0 <= j < i ==> !(#[trigger] is_refused(views, j)),
        decreases entries@.len() - i,
    {
        assert(views.take(i + 1).drop_last() =~= views.take(i as int));
        assert(views.take(i + 1).last() == entries@[i as int]@);
        if !add_entry(&mut map, &entries[i]) {
            assert(is_refused(views, i as int) || adds_beyond(views, i as int, SURE_KEYS as nat));
            return None;
        }
        i += 1;
    }
    assert(views.take(i as int) =~= views);
    Some(map)
}

/// Why an entry that is set is left out of the metadata of a request
#[derive(Clone, Copy, Debug, PartialEq, Eq, Structural)]
pub enum LeftOut {
    /// Its text cannot be a metadata value
    InvalidValue,
    /// Its key cannot be a metadata key
    InvalidKey,
}

/// Why an entry that is set is left out of the metadata of a request, if it is. The path of the
/// request belongs elsewhere, and is not left out.
pub open spec fn reason_left_out(entry: EntryView) -> Option<LeftOut> {
    match entry.value {
        Some(ValueView::Text(text)) => if entry.key == REQUEST_PATH@ {
            None
        } else if !is_ascii_text(text) {
            Some(LeftOut::InvalidValue)
        } else if key_name(entry.key) is None {
            Some(LeftOut::InvalidKey)
        } else {
            None
        },
        Some(ValueView::Binary(_)) => if entry.key != REQUEST_PATH@ && key_name(
            entry.key,
        ) is None {
            Some(LeftOut::InvalidKey)
        } else {
            None
        },
        None => None,
    }
}

/// Why an entry that is set is left out of the metadata of a request, if it is.
pub fn left_out(entry: &MetadataEntry) -> (r: Option<LeftOut>)
    ensures
        r == reason_left_out(entry@),
{
    let key = entry.key.as_str();
    if same_text(key, REQUEST_PATH) {
        return None;
    }
    match &entry.value {
        Some(value) => {
            if let MetadataValue::NonBinary(value) = value {
                if !parses_as_value(value_text(value).as_str()) {
                    return Some(LeftOut::InvalidValue);
                }
            }
            match find_key_name(key) {
                Some(_) => None,
                None => Some(LeftOut::InvalidKey),
            }
        },
        None => None,
    }
}

/// An entry that is set adds its value exactly where it is not the path of the request and there
/// is no reason to leave it out.
pub proof fn lemma_added_or_left_out(entry: EntryView)
    ensures
        added_value(entry) is Some <==> entry.value is Some && entry.key != REQUEST_PATH@
            && reason_left_out(entry) is None,
{
}

/// An entry that adds nothing has no part in the metadata.
pub proof fn lemma_entry_without_value(entries: Seq<EntryView>, i: int)
    requires
        0 <= i < entries.len(),
        added_value(entries[i]) is None,
    ensures
        request_metadata(entries.remove(i)) == request_metadata(entries),
    decreases entries.len(),
{
    if i == entries.len() - 1 {
        assert(entries.remove(i) =~= entries.drop_last());
    } else {
        let rest = entries.drop_last();
        lemma_entry_without_value(rest, i);
        assert(entries.remove(i).drop_last() =~= rest.remove(i));
        assert(entries.remove(i).last() == entries.last());
    }
}

proof fn lemma_keys_grow(entries: Seq<EntryView>, i: int)
    requires
        0 <= i <= entries.len(),
    ensures
        request_metadata(entries).dom().finite(),
        request_metadata(entries.take(i)).dom().subset_of(request_metadata(entries).dom()),
        request_metadata(entries.take(i)).dom().len() <= request_metadata(entries).dom().len(),
    decreases entries.len(),
{
    if entries.len() > 0 {
        let rest = entries.drop_last();
        if i < entries.len() {
            lemma_keys_grow(rest, i);
            assert(rest.take(i) =~= entries.take(i));
        } else {
            lemma_keys_grow(rest, rest.len() as int);
        }
    }
    if i == entries.len() {
        assert(entries.take(i) =~= entries);
    }
    vstd::set_lib::lemma_len_subset(
        request_metadata(entries.take(i)).dom(),
        request_metadata(entries).dom(),
    );
}

/// Without values under keys of the other encoding, the number of different keys decides whether
/// the metadata can be built: fewer than a map is sure to hold can, more than it can hold cannot.
pub proof fn lemma_keys_decide(entries: Seq<EntryView>)
    requires
        forall|i: int| 0 <= i < entries.len() ==> !is_misplaced(#[trigger] entries[i]),
    ensures
        request_metadata(entries).dom().len() < SURE_KEYS ==> !is_unbuildable(entries)
            && !may_be_full(entries),
        request_metadata(entries).dom().len() > MAX_KEYS ==> is_unbuildable(entries),
    decreases entries.len(),
{
    let keys = request_metadata(entries).dom().len();
    if keys < SURE_KEYS {
        assert forall|i: int| 0 <= i < entries.len() implies !(#[trigger] adds_beyond(
            entries,
            i,
            SURE_KEYS as nat,
        )) by {
            lemma_keys_grow(entries, i);
        }
        assert forall|i: int| 0 <= i < entries.len() implies !(#[trigger] is_refused(
            entries,
            i,
        )) by {
            lemma_keys_grow(entries, i);
            assert(!is_misplaced(entries[i]));
        }
    }
    if keys > MAX_KEYS && entries.len() > 0 {
        let last = entries.len() - 1;
        let rest = entries.drop_last();
        assert(rest =~= entries.take(last));
        assert(entries[last] == entries.last());
        lemma_keys_grow(entries, last);
        if request_metadata(rest).dom().len() > MAX_KEYS {
            assert forall|i: int| 0 <= i < rest.len() implies !is_misplaced(#[trigger] rest[i]) by {
                assert(rest[i] == entries[i]);
            }
            lemma_keys_decide(rest);
            let i = choose|i: int| 0 <= i < rest.len() && #[trigger] is_refused(rest, i);
            assert(rest.take(i) =~= entries.take(i));
            assert(is_refused(entries, i));
        } else {
            assert(is_refused(entries, last));
        }
    }
}

/// A metadata key is its own name.
pub proof fn lemma_key_name_normal(text: Seq<char>)
    ensures
        key_name(text) matches Some(name) ==> key_name(name) == Some(name),
{
    if let Some(name) = key_name(text) {
        assert forall|i: int| 0 <= i < name.len() implies is_key_char(#[trigger] name[i])
            && lower_case(name[i]) == name[i] by {
            assert(is_key_char(text[i]));
        }
        assert(name.map_values(|c: char| lower_case(c)) =~= name);
    }
}

/// The value under each key of the metadata is that of the last entry that adds one there, and
/// every entry that adds a value has its key there.
pub proof fn lemma_last_value_stays(entries: Seq<EntryView>, name: Seq<char>)
    ensures
        request_metadata(entries).contains_key(name) <==> exists|i: int|
            0 <= i < entries.len() && (#[trigger] added_value(entries[i]) matches Some((added, _))
                && added == name),
        request_metadata(entries).contains_key(name) ==> exists|i: int|
            0 <= i < entries.len() && (#[trigger] added_value(entries[i]) matches Some(
                (added, bytes),
            ) && added == name && request_metadata(entries)[name] == seq![bytes]) && (forall|j: int|
                i < j < entries.len() ==> !(#[trigger] added_value(entries[j]) matches Some(
                    (added, _),
                ) && added == name)),
    decreases entries.len(),
{
    if entries.len() > 0 {
        let rest = entries.drop_last();
        let last = entries.len() - 1;
        lemma_last_value_stays(rest, name);
        assert(entries[last] == entries.last());
        if added_value(entries[last]) matches Some((added, _)) && added == name {
        } else {
            assert forall|i: int| 0 <= i < last implies rest[i] == #[trigger] entries[i] by {}
            if request_metadata(rest).contains_key(name) {
                let i = choose|i: int|
                    0 <= i < rest.len() && (#[trigger] added_value(rest[i]) matches Some(
                        (added, bytes),
                    ) && added == name && request_metadata(rest)[name] == seq![bytes]) && (forall|
                        j: int,
                    |
                        i < j < rest.len() ==> !(#[trigger] added_value(rest[j]) matches Some(
                            (added, _),
                        ) && added == name));
                assert(added_value(entries[i]) == added_value(rest[i]));
                assert forall|j: int| i < j < entries.len() implies !(#[trigger] added_value(
                    entries[j],
                ) matches Some((added, _)) && added == name) by {
                    if j < last {
                        assert(added_value(rest[j]) == added_value(entries[j]));
                    }
                }
            } else {
                assert forall|i: int| 0 <= i < entries.len() implies !(#[trigger] added_value(
                    entries[i],
                ) matches Some((added, _)) && added == name) by {
                    if i < last {
                        assert(added_value(rest[i]) == added_value(entries[i]));
                    }
                }
            }
        }
    }
}

/// Whether no two of the entries add a value under the same key.
pub open spec fn distinct_names(entries: Seq<EntryView>) -> bool {
    forall|i: int, j: int|
        0 <= i < j < entries.len() && #[trigger] added_value(entries[i]) is Some
            && #[trigger] added_value(entries[j]) is Some ==> (added_value(entries[i])->0).0 != (
        added_value(entries[j])->0).0
}

/// Entries that add their values under different keys make the same metadata in any order.
pub proof fn lemma_entry_order(a: Seq<EntryView>, b: Seq<EntryView>)
    requires
        a.to_multiset() == b.to_multiset(),
        distinct_names(a),
    ensures
        request_metadata(a) == request_metadata(b),
{
    broadcast use vstd::seq_lib::group_to_multiset_ensures;

    let from_a = request_metadata(a);
    let from_b = request_metadata(b);
    assert forall|name: Seq<char>|
        #![trigger from_a.dom().contains(name)]
        #![trigger from_b.dom().contains(name)]
        from_a.contains_key(name) == from_b.contains_key(name) && (from_a.contains_key(name)
            ==> from_a[name] == from_b[name]) by {
        lemma_last_value_stays(a, name);
        lemma_last_value_stays(b, name);
        if from_b.contains_key(name) {
            let i = choose|i: int|
                0 <= i < b.len() && (#[trigger] added_value(b[i]) matches Some((added, bytes))
                    && added == name && from_b[name] == seq![bytes]);
            assert(b.to_multiset().count(b[i]) > 0);
            assert(a.contains(b[i]));
            let j = choose|j: int| 0 <= j < a.len() && a[j] == b[i];
            assert(added_value(a[j]) is Some);
        }
        if from_a.contains_key(name) {
            let i = choose|i: int|
                0 <= i < a.len() && (#[trigger] added_value(a[i]) matches Some((added, bytes))
                    && added == name && from_a[name] == seq![bytes]);
            assert(a.to_multiset().count(a[i]) > 0);
            assert(b.contains(a[i]));
            let j = choose|j: int| 0 <= j < b.len() && b[j] == a[i];
            assert(added_value(b[j]) is Some);
        }
    }
    assert(from_a =~= from_b);
}

} // verus!
