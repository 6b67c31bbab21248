//! The parts of Protobuf descriptors that decoding reads, and the look-ups in them.
use crate::text::{push_signed_decimal, same_text, signed_decimal};
use vstd::prelude::*;
use vstd::std_specs::cmp::PartialEqSpecImpl;

verus! {

/// The type of a field in its descriptor.
#[derive(Clone, Copy, Debug, PartialEq, Eq, Structural)]
pub enum Type {
    Double,
    Float,
    Int64,
    Uint64,
    Int32,
    Fixed64,
    Fixed32,
    Bool,
    String,
    Group,
    Message,
    Bytes,
    Uint32,
    Enum,
    Sfixed32,
    Sfixed64,
    Sint32,
    Sint64,
}

/// The type that a number stands for in a field descriptor.
pub open spec fn type_of_number(number: int) -> Option<Type> {
    if number == 1 {
        Some(Type::Double)
    } else if number == 2 {
        Some(Type::Float)
    } else if number == 3 {
        Some(Type::Int64)
    } else if number == 4 {
        Some(Type::Uint64)
    } else if number == 5 {
        Some(Type::Int32)
    } else if number == 6 {
        Some(Type::Fixed64)
    } else if number == 7 {
        Some(Type::Fixed32)
    } else if number == 8 {
        Some(Type::Bool)
    } else if number == 9 {
        Some(Type::String)
    } else if number == 10 {
        Some(Type::Group)
    } else if number == 11 {
        Some(Type::Message)
    } else if number == 12 {
        Some(Type::Bytes)
    } else if number == 13 {
        Some(Type::Uint32)
    } else if number == 14 {
        Some(Type::Enum)
    } else if number == 15 {
        Some(Type::Sfixed32)
    } else if number == 16 {
        Some(Type::Sfixed64)
    } else if number == 17 {
        Some(Type::Sint32)
    } else if number == 18 {
        Some(Type::Sint64)
    } else {
        None
    }
}

/// The default value of a field.
#[derive(Debug)]
pub struct DefaultValue {
    /// The text of the value
    pub text: String,
    /// The bits of the 32 bit floating point number that the text stands for, if it does
    pub float: Option<u32>,
    /// The bits of the 64 bit floating point number that the text stands for, if it does
    pub double: Option<u64>,
}

/// Describes a field within a message.
#[derive(Debug)]
pub struct FieldDescriptorProto {
    /// Name of the field
    pub name: Option<String>,
    /// Field number
    pub number: Option<i32>,
    /// Number of the field's type
    pub field_type: Option<i32>,
    /// Name of the message or enum type, for fields of those types
    pub named_type: Option<String>,
    /// Default value
    pub default_value: Option<DefaultValue>,
    /// The whole descriptor in its Protobuf encoding, with the parts that nothing here reads
    pub encoded: Vec<u8>,
}

/// Describes a value within an enum.
#[derive(Debug)]
pub struct EnumValueDescriptorProto {
    /// Name of the value
    pub name: Option<String>,
    /// Number of the value
    pub number: Option<i32>,
}

/// Describes an enum type.
#[derive(Debug)]
pub struct EnumDescriptorProto {
    /// Name of the enum
    pub name: Option<String>,
    /// The values of the enum
    pub value: Vec<EnumValueDescriptorProto>,
    /// The whole descriptor in its Protobuf encoding, with the parts that nothing here reads
    pub encoded: Vec<u8>,
}

/// Describes a message type.
#[derive(Debug)]
pub struct DescriptorProto {
    /// Name of the message
    pub name: Option<String>,
    /// The fields of the message
    pub field: Vec<FieldDescriptorProto>,
    /// The message types declared inside the message
    pub nested_type: Vec<DescriptorProto>,
    /// The enum types declared inside the message
    pub enum_type: Vec<EnumDescriptorProto>,
    /// The whole descriptor in its Protobuf encoding, with the parts that nothing here reads
    pub encoded: Vec<u8>,
}

/// Describes a proto file.
#[derive(Debug, PartialEq)]
pub struct FileDescriptorProto {
    /// The message types declared in the file
    pub message_type: Vec<DescriptorProto>,
}

/// Describes a set of proto files.
#[derive(Debug, PartialEq)]
pub struct FileDescriptorSet {
    /// The files
    pub file: Vec<FileDescriptorProto>,
}

/// A default value, with its text as a sequence of characters.
pub ghost struct DefaultValueView {
    pub text: Seq<char>,
    pub float: Option<u32>,
    pub double: Option<u64>,
}

/// A field descriptor, with its texts as sequences of characters.
pub ghost struct FieldDescriptorView {
    pub name: Option<Seq<char>>,
    pub number: Option<i32>,
    pub field_type: Option<i32>,
    pub named_type: Option<Seq<char>>,
    pub default_value: Option<DefaultValueView>,
    pub encoded: Seq<u8>,
}

/// An enum value, with its name as a sequence of characters.
pub ghost struct EnumValueView {
    pub name: Option<Seq<char>>,
    pub number: Option<i32>,
}

/// An enum descriptor as mathematical values.
pub ghost struct EnumDescriptorView {
    pub name: Option<Seq<char>>,
    pub value: Seq<EnumValueView>,
    pub encoded: Seq<u8>,
}

/// A message descriptor as mathematical values.
pub ghost struct DescriptorView {
    pub name: Option<Seq<char>>,
    pub field: Seq<FieldDescriptorView>,
    pub nested_type: Seq<DescriptorView>,
    pub enum_type: Seq<EnumDescriptorView>,
    pub encoded: Seq<u8>,
}

impl View for DefaultValue {
    type V = DefaultValueView;

    open spec fn view(&self) -> DefaultValueView {
        DefaultValueView { text: self.text@, float: self.float, double: self.double }
    }
}

impl View for FieldDescriptorProto {
    type V = FieldDescriptorView;

    open spec fn view(&self) -> FieldDescriptorView {
        FieldDescriptorView {
            name: self.name.deep_view(),
            number: self.number,
            field_type: self.field_type,
            named_type: self.named_type.deep_view(),
            default_value: match self.default_value {
                Some(value) => Some(value@),
                None => None,
            },
            encoded: self.encoded@,
        }
    }
}

impl View for EnumValueDescriptorProto {
    type V = EnumValueView;

    open spec fn view(&self) -> EnumValueView {
        EnumValueView { name: self.name.deep_view(), number: self.number }
    }
}

impl View for EnumDescriptorProto {
    type V = EnumDescriptorView;

    open spec fn view(&self) -> EnumDescriptorView {
        EnumDescriptorView {
            name: self.name.deep_view(),
            value: self.value@.map_values(|value: EnumValueDescriptorProto| value@),
            encoded: self.encoded@,
        }
    }
}

impl DescriptorProto {
    /// The descriptor as mathematical values.
    pub open spec fn model(self) -> DescriptorView
        decreases self,
    {
        DescriptorView {
            name: self.name.deep_view(),
            field: self.field@.map_values(|field: FieldDescriptorProto| field@),
            nested_type: Seq::new(
                self.nested_type@.len(),
                |i: int|
                    if 0 <= i < self.nested_type@.len() {
                        self.nested_type@[i].model()
                    } else {
                        arbitrary()
                    },
            ),
            enum_type: self.enum_type@.map_values(|enum_type: EnumDescriptorProto| enum_type@),
            encoded: self.encoded@,
        }
    }
}

impl View for DescriptorProto {
    type V = DescriptorView;

    open spec fn view(&self) -> DescriptorView {
        self.model()
    }
}

impl View for FileDescriptorProto {
    type V = Seq<DescriptorView>;

    open spec fn view(&self) -> Seq<DescriptorView> {
        self.message_type@.map_values(|message: DescriptorProto| message@)
    }
}

impl View for FileDescriptorSet {
    type V = Seq<Seq<DescriptorView>>;

    open spec fn view(&self) -> Seq<Seq<DescriptorView>> {
        self.file@.map_values(|file: FileDescriptorProto| file@)
    }
}

impl Clone for DefaultValue {
    fn clone(&self) -> (r: Self)
        ensures
            r@ == self@,
    {
        DefaultValue { text: self.text.clone(), float: self.float, double: self.double }
    }
}

impl Clone for FieldDescriptorProto {
    fn clone(&self) -> (r: Self)
        ensures
            r@ == self@,
    {
        FieldDescriptorProto {
            name: self.name.clone(),
            number: self.number,
            field_type: self.field_type,
            named_type: self.named_type.clone(),
            default_value: self.default_value.clone(),
            encoded: self.encoded.clone(),
        }
    }
}

impl Clone for EnumValueDescriptorProto {
    fn clone(&self) -> (r: Self)
        ensures
            r@ == self@,
    {
        EnumValueDescriptorProto { name: self.name.clone(), number: self.number }
    }
}

impl Clone for EnumDescriptorProto {
    fn clone(&self) -> (r: Self)
        ensures
            r@ == self@,
    {
        let r = EnumDescriptorProto {
            name: self.name.clone(),
            value: self.value.clone(),
            encoded: self.encoded.clone(),
        };
        assert(r@.value =~= self@.value) by {
            assert forall|i: int| 0 <= i < self.value@.len() implies r.value@[i]@
                == self.value@[i]@ by {
                assert(cloned(self.value@[i], r.value@[i]));
            }
        }
        r
    }
}

impl Clone for DescriptorProto {
    fn clone(&self) -> (r: Self)
        ensures
            r@ == self@,
        decreases self,
    {
        let mut nested_type: Vec<DescriptorProto> = Vec::new();
        let mut i: usize = 0;
        while i < self.nested_type.len()
            invariant
                i <= self.nested_type@.len(),
                nested_type@.len() == i,
                forall|j: int| 0 <= j < i ==> nested_type@[j]@ == self.nested_type@[j]@,
            decreases self.nested_type@.len() - i,
        {
            let nested = self.nested_type[i].clone();
            nested_type.push(nested);
            i += 1;
        }
        let r = DescriptorProto {
            name: self.name.clone(),
            field: self.field.clone(),
            nested_type,
            enum_type: self.enum_type.clone(),
            encoded: self.encoded.clone(),
        };
        assert(r@.field =~= self@.field) by {
            assert forall|j: int| 0 <= j < self.field@.len() implies r.field@[j]@
                == self.field@[j]@ by {
                assert(cloned(self.field@[j], r.field@[j]));
            }
        }
        assert(r@.enum_type =~= self@.enum_type) by {
            assert forall|j: int| 0 <= j < self.enum_type@.len() implies r.enum_type@[j]@
                == self.enum_type@[j]@ by {
                assert(cloned(self.enum_type@[j], r.enum_type@[j]));
            }
        }
        assert(r@.nested_type =~= self@.nested_type) by {
            assert forall|j: int| 0 <= j < self.nested_type@.len() implies r@.nested_type[j]
                == self@.nested_type[j] by {
                assert(r.nested_type@[j]@ == self.nested_type@[j]@);
            }
        }
        r
    }
}

/// Whether two rows of bytes are equal.
pub(crate) fn same_bytes(a: &Vec<u8>, b: &Vec<u8>) -> (r: bool)
    ensures
        r == (a@ == b@),
{
    let r = *a == *b;
    assert(r ==> a@ =~= b@);
    r
}

impl PartialEq for DefaultValue {
    fn eq(&self, other: &Self) -> (r: bool) {
        same_text(self.text.as_str(), other.text.as_str()) && self.float == other.float
            && self.double == other.double
    }
}

impl PartialEqSpecImpl for DefaultValue {
    open spec fn obeys_eq_spec() -> bool {
        true
    }

    open spec fn eq_spec(&self, other: &Self) -> bool {
        self@ == other@
    }
}

impl PartialEq for FieldDescriptorProto {
    fn eq(&self, other: &Self) -> (r: bool) {
        same_optional_text(&self.name, &other.name) && self.number == other.number
            && self.field_type == other.field_type && same_optional_text(
            &self.named_type,
            &other.named_type,
        ) && self.default_value == other.default_value && same_bytes(&self.encoded, &other.encoded)
    }
}

impl PartialEqSpecImpl for FieldDescriptorProto {
    open spec fn obeys_eq_spec() -> bool {
        true
    }

    open spec fn eq_spec(&self, other: &Self) -> bool {
        self@ == other@
    }
}

impl PartialEq for EnumValueDescriptorProto {
    fn eq(&self, other: &Self) -> (r: bool) {
        same_optional_text(&self.name, &other.name) && self.number == other.number
    }
}

impl PartialEqSpecImpl for EnumValueDescriptorProto {
    open spec fn obeys_eq_spec() -> bool {
        true
    }

    open spec fn eq_spec(&self, other: &Self) -> bool {
        self@ == other@
    }
}

proof fn lemma_same_views<T, V>(a: Seq<T>, b: Seq<T>, view: spec_fn(T) -> V)
    ensures
        a.map_values(view) == b.map_values(view) <==> a.len() == b.len() && (forall|i: int|
            0 <= i < a.len() ==> view(#[trigger] a[i]) == view(b[i])),
{
    let views_a = a.map_values(view);
    let views_b = b.map_values(view);
    if views_a == views_b {
        assert(views_a.len() == a.len() && views_b.len() == b.len());
        assert forall|i: int| 0 <= i < a.len() implies view(#[trigger] a[i]) == view(b[i]) by {
            assert(views_a[i] == view(a[i]) && views_b[i] == view(b[i]));
        }
    } else if a.len() == b.len() && (forall|i: int|
        0 <= i < a.len() ==> view(#[trigger] a[i]) == view(b[i])) {
        assert(views_a =~= views_b);
    }
}

impl PartialEq for EnumDescriptorProto {
    fn eq(&self, other: &Self) -> (r: bool) {
        let same_values = self.value == other.value;
        proof {
            lemma_same_views(
                self.value@,
                other.value@,
                |value: EnumValueDescriptorProto| value@,
            );
        }
        same_values && same_optional_text(&self.name, &other.name) && same_bytes(
            &self.encoded,
            &other.encoded,
        )
    }
}

impl PartialEqSpecImpl for EnumDescriptorProto {
    open spec fn obeys_eq_spec() -> bool {
        true
    }

    open spec fn eq_spec(&self, other: &Self) -> bool {
        self@ == other@
    }
}

/// Whether two message descriptors are equal.
fn same_message(a: &DescriptorProto, b: &DescriptorProto) -> (r: bool)
    ensures
        r == (a@ == b@),
    decreases a,
{
    proof {
        lemma_same_views(a.field@, b.field@, |field: FieldDescriptorProto| field@);
        lemma_same_views(a.enum_type@, b.enum_type@, |enum_type: EnumDescriptorProto| enum_type@);
    }
    let same_fields = a.field == b.field;
    let same_enums = a.enum_type == b.enum_type;
    if !same_fields || !same_enums || !same_optional_text(&a.name, &b.name) || !same_bytes(
        &a.encoded,
        &b.encoded,
    ) {
        return false;
    }
    if a.nested_type.len() != b.nested_type.len() {
        assert(a@.nested_type.len() != b@.nested_type.len());
        return false;
    }
    let mut i: usize = 0;
    while i < a.nested_type.len()
        invariant
            i <= a.nested_type@.len() == b.nested_type@.len(),
            forall|j: int| 0 <= j < i ==> a.nested_type@[j]@ == b.nested_type@[j]@,
        decreases a.nested_type@.len() - i,
    {
        if !same_message(&a.nested_type[i], &b.nested_type[i]) {
            assert(a@.nested_type[i as int] == a.nested_type@[i as int]@);
            assert(b@.nested_type[i as int] == b.nested_type@[i as int]@);
            return false;
        }
        i += 1;
    }
    assert(a@.nested_type =~= b@.nested_type) by {
        assert forall|j: int| 0 <= j < a.nested_type@.len() implies a@.nested_type[j]
            == b@.nested_type[j] by {
            assert(a.nested_type@[j]@ == b.nested_type@[j]@);
        }
    }
    true
}

impl PartialEq for DescriptorProto {
    fn eq(&self, other: &Self) -> (r: bool) {
        same_message(self, other)
    }
}

impl PartialEqSpecImpl for DescriptorProto {
    open spec fn obeys_eq_spec() -> bool {
        true
    }

    open spec fn eq_spec(&self, other: &Self) -> bool {
        self@ == other@
    }
}

/// Why a look-up in a descriptor failed.
#[derive(Debug, PartialEq)]
pub enum LookupError {
    /// No field has the number
    FieldNotFound(i32),
    /// No message has the name
    MessageNotFound(String),
}

/// The text of a failed look-up.
pub open spec fn lookup_error_text(error: LookupError) -> Seq<char> {
    match error {
        LookupError::FieldNotFound(number) => "Did not find a field with number "@ + signed_decimal(
            number as int,
        ) + " in the descriptor"@,
        LookupError::MessageNotFound(name) => "Did not find a message type '"@ + name@
            + "' in the descriptors"@,
    }
}

impl LookupError {
    /// The text of the error.
    pub fn describe(&self) -> (r: String)
        ensures
            r@ == lookup_error_text(*self),
    {
        let mut text = String::new();
        match self {
            LookupError::FieldNotFound(number) => {
                text.append("Did not find a field with number ");
                push_signed_decimal(&mut text, *number as i64);
                text.append(" in the descriptor");
            },
            LookupError::MessageNotFound(name) => {
                text.append("Did not find a message type '");
                text.append(name.as_str());
                text.append("' in the descriptors");
            },
        }
        assert(text@ =~= lookup_error_text(*self));
        text
    }
}

/// The first item of `items` that `accepts` holds of.
pub open spec fn first_where<A>(items: Seq<A>, accepts: spec_fn(A) -> bool) -> Option<A>
    decreases items.len(),
{
    if items.len() == 0 {
        None
    } else if accepts(items[0]) {
        Some(items[0])
    } else {
        first_where(items.skip(1), accepts)
    }
}

/// The text, or the empty text where there is none.
pub open spec fn text_or_empty(text: Option<Seq<char>>) -> Seq<char> {
    match text {
        Some(text) => text,
        None => Seq::empty(),
    }
}

/// The part of a dotted name after its last dot; the whole name where it has no dot.
pub open spec fn spec_last_name(name: Seq<char>) -> Seq<char>
    decreases name.len(),
{
    if name.len() == 0 || name.last() == '.' {
        Seq::empty()
    } else {
        spec_last_name(name.drop_last()).push(name.last())
    }
}

/// The type that a field descriptor gives: `Double` where it gives none or an unknown one.
pub open spec fn declared_type(number: Option<i32>) -> Type {
    match number {
        Some(number) => match type_of_number(number as int) {
            Some(field_type) => field_type,
            None => Type::Double,
        },
        None => Type::Double,
    }
}

/// The first field of a message with the number `field_num`.
pub open spec fn field_of(message: DescriptorView, field_num: i32) -> Option<FieldDescriptorView> {
    first_where(message.field, |field: FieldDescriptorView| field.number == Some(field_num))
}

/// The first enum declared in a message under the last part of the name `named_type`.
pub open spec fn enum_of(message: DescriptorView, named_type: Option<Seq<char>>) -> Option<
    EnumDescriptorView,
> {
    first_where(
        message.enum_type,
        |enum_type: EnumDescriptorView|
            text_or_empty(enum_type.name) == spec_last_name(text_or_empty(named_type)),
    )
}

/// The first message of that name that the files declare, file by file.
pub open spec fn message_named(files: Seq<Seq<DescriptorView>>, name: Seq<char>) -> Option<
    DescriptorView,
>
    decreases files.len(),
{
    if files.len() == 0 {
        None
    } else {
        match first_where(files[0], |message: DescriptorView| text_or_empty(message.name) == name) {
            Some(message) => Some(message),
            None => message_named(files.skip(1), name),
        }
    }
}

/// The message type that a field of a message has under the name `named_type`: one declared
/// inside the message, or else one that the files declare.
pub open spec fn message_of(
    message: DescriptorView,
    named_type: Option<Seq<char>>,
    files: Seq<Seq<DescriptorView>>,
) -> Option<DescriptorView> {
    let name = match named_type {
        Some(named_type) => Some(spec_last_name(named_type)),
        None => None,
    };
    match first_where(message.nested_type, |nested: DescriptorView| nested.name == name) {
        Some(nested) => Some(nested),
        None => message_named(files, text_or_empty(name)),
    }
}

/// `prost_types::field_descriptor_proto::Type::from_i32`: gives the number back where it is
/// that of a field type, one of 1 to 18.
#[verifier::external_body]
fn known_type_number(number: i32) -> (r: Option<i32>)
    ensures
        r == (if 1 <= number <= 18 { Some(number) } else { None::<i32> }),
{
    match prost_types::field_descriptor_proto::Type::from_i32(number) {
        Some(field_type) => Some(field_type as i32),
        None => None,
    }
}

impl FieldDescriptorProto {
    /// The type of the field, or `Double` where the descriptor gives none or an unknown one.
    pub fn declared_type(&self) -> (r: Type)
        ensures
            r == declared_type(self@.field_type),
    {
        let number: i32 = match self.field_type {
            Some(number) => match known_type_number(number) {
                Some(known) => known,
                None => return Type::Double,
            },
            None => return Type::Double,
        };
        match number {
            1 => Type::Double,
            2 => Type::Float,
            3 => Type::Int64,
            4 => Type::Uint64,
            5 => Type::Int32,
            6 => Type::Fixed64,
            7 => Type::Fixed32,
            8 => Type::Bool,
            9 => Type::String,
            10 => Type::Group,
            11 => Type::Message,
            12 => Type::Bytes,
            13 => Type::Uint32,
            14 => Type::Enum,
            15 => Type::Sfixed32,
            16 => Type::Sfixed64,
            17 => Type::Sint32,
            _ => Type::Sint64,
        }
    }
}

/// The text, or the empty text where there is none.
pub(crate) fn text_or_default(text: &Option<String>) -> (r: String)
    ensures
        r@ == text_or_empty(text.deep_view()),
{
    match text {
        Some(text) => text.clone(),
        None => String::new(),
    }
}

/// The part of a dotted name after its last dot; the whole name where it has no dot.
pub fn last_name(name: &str) -> (r: &str)
    ensures
        r@ == spec_last_name(name@),
{
    let mut count: usize = 0;
    let mut start: usize = 0;
    let length: usize = name.unicode_len();
    for c in it: name.chars()
        invariant
            it.seq() == name@,
            count == it.index(),
            length == name@.len(),
            start <= count <= length,
            name@.subrange(start as int, count as int) == spec_last_name(name@.take(count as int)),
    {
        count += 1;
        if c == '.' {
            start = count;
        }
        assert(name@.take(count as int).drop_last() =~= name@.take(count - 1));
        assert(name@.subrange(start as int, count as int) =~= spec_last_name(
            name@.take(count as int),
        ));
    }
    assert(name@.take(count as int) =~= name@);
    name.substring_char(start, count)
}

/// The first field of a message with the number `field_num`.
pub fn find_field_descriptor(field_num: i32, descriptor: &DescriptorProto) -> (r: Result<
    FieldDescriptorProto,
    LookupError,
>)
    ensures
        match r {
            Ok(field) => field_of(descriptor@, field_num) == Some(field@),
            Err(error) => field_of(descriptor@, field_num) is None && error
                == LookupError::FieldNotFound(field_num),
        },
{
    let ghost accepts = |field: FieldDescriptorView| field.number == Some(field_num);
    let ghost fields = descriptor@.field;
    let mut i: usize = 0;
    assert(fields.skip(0) =~= fields);
    while i < descriptor.field.len()
        invariant
            i <= descriptor.field@.len(),
            fields == descriptor@.field,
            fields.len() == descriptor.field@.len(),
            accepts == (|field: FieldDescriptorView| field.number == Some(field_num)),
            first_where(fields, accepts) == first_where(fields.skip(i as int), accepts),
        decreases descriptor.field@.len() - i,
    {
        assert(fields[i as int] == descriptor.field@[i as int]@);
        assert(fields.skip(i as int).skip(1) =~= fields.skip(i + 1));
        if let Some(number) = descriptor.field[i].number {
            if number == field_num {
                return Ok(descriptor.field[i].clone());
            }
        }
        i += 1;
    }
    Err(LookupError::FieldNotFound(field_num))
}

/// The first enum declared in a message under the last part of the name `named_type`.
pub(crate) fn find_enum_type(named_type: &Option<String>, descriptor: &DescriptorProto) -> (r:
    Option<EnumDescriptorProto>)
    ensures
        match r {
            Some(found) => enum_of(descriptor@, named_type.deep_view()) == Some(found@),
            None => enum_of(descriptor@, named_type.deep_view()) is None,
        },
{
    let full_name = text_or_default(named_type);
    let name = last_name(full_name.as_str());
    let ghost accepts = |enum_type: EnumDescriptorView|
        text_or_empty(enum_type.name) == spec_last_name(text_or_empty(named_type.deep_view()));
    let ghost enums = descriptor@.enum_type;
    let mut i: usize = 0;
    assert(enums.skip(0) =~= enums);
    while i < descriptor.enum_type.len()
        invariant
            i <= descriptor.enum_type@.len(),
            enums == descriptor@.enum_type,
            enums.len() == descriptor.enum_type@.len(),
            name@ == spec_last_name(text_or_empty(named_type.deep_view())),
            accepts == (|enum_type: EnumDescriptorView|
                text_or_empty(enum_type.name) == spec_last_name(
                    text_or_empty(named_type.deep_view()),
                )),
            first_where(enums, accepts) == first_where(enums.skip(i as int), accepts),
        decreases descriptor.enum_type@.len() - i,
    {
        assert(enums[i as int] == descriptor.enum_type@[i as int]@);
        assert(enums.skip(i as int).skip(1) =~= enums.skip(i + 1));
        let enum_name = text_or_default(&descriptor.enum_type[i].name);
        if same_text(enum_name.as_str(), name) {
            return Some(descriptor.enum_type[i].clone());
        }
        i += 1;
    }
    None
}

/// The index of the first message of that name.
fn position_of_message(name: &str, messages: &Vec<DescriptorProto>) -> (r: Option<usize>)
    ensures
        ({
            let views = messages@.map_values(|message: DescriptorProto| message@);
            let found = first_where(
                views,
                |message: DescriptorView| text_or_empty(message.name) == name@,
            );
            match r {
                Some(i) => i < messages@.len() && found == Some(messages@[i as int]@),
                None => found is None,
            }
        }),
{
    let ghost accepts = |message: DescriptorView| text_or_empty(message.name) == name@;
    let ghost views = messages@.map_values(|message: DescriptorProto| message@);
    let mut i: usize = 0;
    assert(views.skip(0) =~= views);
    while i < messages.len()
        invariant
            i <= messages@.len(),
            views == messages@.map_values(|message: DescriptorProto| message@),
            accepts == (|message: DescriptorView| text_or_empty(message.name) == name@),
            first_where(views, accepts) == first_where(views.skip(i as int), accepts),
        decreases messages@.len() - i,
    {
        assert(views[i as int] == messages@[i as int]@);
        assert(views.skip(i as int).skip(1) =~= views.skip(i + 1));
        let message_name = text_or_default(&messages[i].name);
        if same_text(message_name.as_str(), name) {
            return Some(i);
        }
        i += 1;
    }
    None
}

/// The first message of that name that the files declare, file by file.
pub fn find_message_type_by_name(message_name: &str, descriptors: &FileDescriptorSet) -> (r: Result<
    DescriptorProto,
    LookupError,
>)
    ensures
        match r {
            Ok(message) => message_named(descriptors@, message_name@) == Some(message@),
            Err(error) => message_named(descriptors@, message_name@) is None && (error matches
                LookupError::MessageNotFound(name) && name@ == message_name@),
        },
{
    let ghost files = descriptors@;
    let mut i: usize = 0;
    assert(files.skip(0) =~= files);
    while i < descriptors.file.len()
        invariant
            i <= descriptors.file@.len(),
            files == descriptors@,
            message_named(files, message_name@) == message_named(
                files.skip(i as int),
                message_name@,
            ),
        decreases descriptors.file@.len() - i,
    {
        assert(files[i as int] == descriptors.file@[i as int]@);
        assert(files.skip(i as int).skip(1) =~= files.skip(i + 1));
        match position_of_message(message_name, &descriptors.file[i].message_type) {
            Some(j) => {
                return Ok(descriptors.file[i].message_type[j].clone());
            },
            None => {},
        }
        i += 1;
    }
    Err(LookupError::MessageNotFound(message_name.to_owned()))
}

/// Whether two optional texts are equal.
fn same_optional_text(a: &Option<String>, b: &Option<String>) -> (r: bool)
    ensures
        r == (a.deep_view() == b.deep_view()),
{
    match (a, b) {
        (Some(a), Some(b)) => same_text(a.as_str(), b.as_str()),
        (None, None) => true,
        _ => false,
    }
}

/// The message type that a field of a message has under the name `named_type`: one declared
/// inside the message, or else one that the files declare.
pub(crate) fn find_embedded_message(
    named_type: &Option<String>,
    descriptor: &DescriptorProto,
    descriptors: &FileDescriptorSet,
) -> (r: Option<DescriptorProto>)
    ensures
        match r {
            Some(found) => message_of(descriptor@, named_type.deep_view(), descriptors@) == Some(
                found@,
            ),
            None => message_of(descriptor@, named_type.deep_view(), descriptors@) is None,
        },
{
    let name: Option<String> = match named_type {
        Some(named_type) => Some(last_name(named_type.as_str()).to_owned()),
        None => None,
    };
    let ghost accepts = |nested: DescriptorView| nested.name == name.deep_view();
    let ghost nested = descriptor@.nested_type;
    let mut i: usize = 0;
    assert(nested.skip(0) =~= nested);
    while i < descriptor.nested_type.len()
        invariant
            i <= descriptor.nested_type@.len(),
            nested == descriptor@.nested_type,
            nested.len() == descriptor.nested_type@.len(),
            name.deep_view() == (match named_type.deep_view() {
                Some(named_type) => Some(spec_last_name(named_type)),
                None => None,
            }),
            accepts == (|nested: DescriptorView| nested.name == name.deep_view()),
            first_where(nested, accepts) == first_where(nested.skip(i as int), accepts),
        decreases descriptor.nested_type@.len() - i,
    {
        assert(nested[i as int] == descriptor.nested_type@[i as int]@);
        assert(nested.skip(i as int).skip(1) =~= nested.skip(i + 1));
        if same_optional_text(&descriptor.nested_type[i].name, &name) {
            return Some(descriptor.nested_type[i].clone());
        }
        i += 1;
    }
    let file_name = text_or_default(&name);
    match find_message_type_by_name(file_name.as_str(), descriptors) {
        Ok(message) => Some(message),
        Err(_) => None,
    }
}

/// The last part of a dotted name ends the name and holds no dot. A dot stands in front of it
/// where it is not the whole name.
pub proof fn lemma_last_name(name: Seq<char>)
    ensures
        spec_last_name(name).is_suffix_of(name),
        !spec_last_name(name).contains('.'),
        spec_last_name(name).len() < name.len() ==> '.' == name[name.len() - spec_last_name(
            name,
        ).len() - 1],
        spec_last_name(name) == name <==> !name.contains('.'),
    decreases name.len(),
{
    if name.len() > 0 && name.last() != '.' {
        let rest = name.drop_last();
        lemma_last_name(rest);
        assert(name =~= rest.push(name.last()));
        assert(spec_last_name(name).is_suffix_of(name)) by {
            assert(rest.skip(rest.len() - spec_last_name(rest).len()) =~= spec_last_name(rest));
            assert(name.skip(name.len() - spec_last_name(name).len()) =~= spec_last_name(name));
        }
        if spec_last_name(name) == name {
            assert(spec_last_name(rest) =~= spec_last_name(name).drop_last());
        }
        if rest.contains('.') {
            let i = choose|i: int| 0 <= i < rest.len() && rest[i] == '.';
            assert(name[i] == '.');
        }
    } else if name.len() > 0 {
        assert(name.contains(name.last()));
    } else {
        assert(name =~= Seq::empty());
    }
}

/// What is found first is an item that is accepted, and nothing is found only where no item is.
pub proof fn lemma_first_where<A>(items: Seq<A>, accepts: spec_fn(A) -> bool)
    ensures
        match first_where(items, accepts) {
            Some(found) => exists|i: int|
                0 <= i < items.len() && #[trigger] items[i] == found && accepts(found) && (forall|
                    j: int,
                |
                    0 <= j < i ==> !accepts(#[trigger] items[j])),
            None => forall|i: int| 0 <= i < items.len() ==> !accepts(#[trigger] items[i]),
        },
    decreases items.len(),
{
    if items.len() > 0 && !accepts(items[0]) {
        let rest = items.skip(1);
        lemma_first_where(rest, accepts);
        match first_where(rest, accepts) {
            Some(found) => {
                let i = choose|i: int|
                    0 <= i < rest.len() && #[trigger] rest[i] == found && (forall|j: int|
                        0 <= j < i ==> !accepts(#[trigger] rest[j]));
                assert(items[i + 1] == found);
                assert forall|j: int| 0 <= j < i + 1 implies !accepts(#[trigger] items[j]) by {
                    if j > 0 {
                        assert(!accepts(rest[j - 1]));
                    }
                }
            },
            None => {
                assert forall|i: int| 0 <= i < items.len() implies !accepts(
                    #[trigger] items[i],
                ) by {
                    if i > 0 {
                        assert(!accepts(rest[i - 1]));
                    }
                }
            },
        }
    } else if items.len() > 0 {
        assert(items[0] == first_where(items, accepts)->0);
    }
}

} // verus!
