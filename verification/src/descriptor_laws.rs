//! What holds of the look-ups in descriptors, for all descriptors.
use crate::descriptor::{
    declared_type, enum_of, field_of, first_where, lemma_first_where, lemma_last_name,
    lookup_error_text, message_named, message_of, spec_last_name, text_or_empty, DefaultValue,
    DescriptorProto, DescriptorView, EnumDescriptorProto, EnumDescriptorView,
    EnumValueDescriptorProto, FieldDescriptorProto, FieldDescriptorView, FileDescriptorSet,
    LookupError, Type,
};
use crate::text::signed_decimal;
use vstd::prelude::*;
use vstd::std_specs::cmp::PartialEqSpec;

verus! {

/// Every field that a message lists is found by its number, if none before it has that number, and
/// nothing is found only where no field has the number.
pub proof fn lemma_field_found(message: DescriptorView, field_num: i32)
    ensures
        forall|i: int|
            0 <= i < message.field.len() && (#[trigger] message.field[i]).number == Some(field_num)
                && (forall|j: int|
                0 <= j < i ==> (#[trigger] message.field[j]).number != Some(field_num)) ==> field_of(
                message,
                field_num,
            ) == Some(message.field[i]),
        field_of(message, field_num) is None <==> forall|i: int|
            0 <= i < message.field.len() ==> (#[trigger] message.field[i]).number != Some(
                field_num,
            ),
{
    let accepts = |field: FieldDescriptorView| field.number == Some(field_num);
    lemma_first_where(message.field, accepts);
    assert forall|i: int|
        0 <= i < message.field.len() && (#[trigger] message.field[i]).number == Some(field_num) && (
        forall|j: int|
            0 <= j < i ==> (#[trigger] message.field[j]).number != Some(
                field_num,
            )) implies field_of(message, field_num) == Some(message.field[i]) by {
        assert(accepts(message.field[i]));
        let found = field_of(message, field_num)->0;
        let k = choose|k: int|
            0 <= k < message.field.len() && #[trigger] message.field[k] == found && accepts(found)
                && (forall|j: int| 0 <= j < k ==> !accepts(#[trigger] message.field[j]));
        if k < i {
            assert(message.field[k].number != Some(field_num));
        } else if i < k {
            assert(!accepts(message.field[i]));
        }
    }
    if field_of(message, field_num) is None {
        assert forall|i: int| 0 <= i < message.field.len() implies (
        #[trigger] message.field[i]).number != Some(field_num) by {
            assert(!accepts(message.field[i]));
        }
    } else {
        let found = field_of(message, field_num)->0;
        let k = choose|k: int|
            0 <= k < message.field.len() && #[trigger] message.field[k] == found && accepts(found);
        assert(message.field[k].number == Some(field_num));
    }
}

/// Whether `part` is the part of a dotted name after its last dot.
pub open spec fn is_last_part(part: Seq<char>, name: Seq<char>) -> bool {
    &&& part.len() <= name.len()
    &&& forall|i: int|
        0 <= i < part.len() ==> #[trigger] part[i] == name[name.len() - part.len() + i]
    &&& forall|i: int| 0 <= i < part.len() ==> #[trigger] part[i] != '.'
    &&& part.len() < name.len() ==> name[name.len() - part.len() - 1] == '.'
}

/// A dotted name has one last part, and that is the name that look-ups go by.
pub proof fn lemma_last_part(part: Seq<char>, name: Seq<char>)
    ensures
        is_last_part(part, name) <==> part == spec_last_name(name),
{
    let found = spec_last_name(name);
    lemma_last_name(name);
    assert(name.skip(name.len() - found.len()) =~= found);
    assert forall|i: int| 0 <= i < found.len() implies #[trigger] found[i] == name[name.len()
        - found.len() + i] && found[i] != '.' by {
        assert(name.skip(name.len() - found.len())[i] == name[name.len() - found.len() + i]);
        assert(found.contains(found[i]));
    }
    assert(is_last_part(found, name));
    if is_last_part(part, name) {
        if part.len() < found.len() {
            assert(found[found.len() - part.len() - 1] == '.');
        } else if found.len() < part.len() {
            assert(part[part.len() - found.len() - 1] == '.');
        }
        assert(part =~= found);
    }
}

/// Whether a declaration goes by a name; one without a name goes by the empty one.
pub open spec fn goes_by(declared: Option<Seq<char>>, name: Seq<char>) -> bool {
    declared == Some(name) || (declared is None && name.len() == 0)
}

proof fn lemma_goes_by(declared: Option<Seq<char>>, name: Seq<char>)
    ensures
        goes_by(declared, name) <==> text_or_empty(declared) == name,
{
    if declared is None && name.len() == 0 {
        assert(name =~= Seq::empty());
    }
}

/// Every enum that a message declares is found by the last part of its dotted name, if none before
/// it goes by that name, and nothing is found only where no enum does.
pub proof fn lemma_enum_found(message: DescriptorView, name: Seq<char>, part: Seq<char>)
    requires
        is_last_part(part, name),
    ensures
        forall|i: int|
            0 <= i < message.enum_type.len() && goes_by((#[trigger] message.enum_type[i]).name, part)
                && (forall|j: int|
                0 <= j < i ==> !goes_by((#[trigger] message.enum_type[j]).name, part)) ==> enum_of(
                message,
                Some(name),
            ) == Some(message.enum_type[i]),
        enum_of(message, Some(name)) is None <==> forall|i: int|
            0 <= i < message.enum_type.len() ==> !goes_by(
                (#[trigger] message.enum_type[i]).name,
                part,
            ),
        name.len() == 0 ==> enum_of(message, None) == enum_of(message, Some(name)),
{
    lemma_last_part(part, name);
    let accepts = |enum_type: EnumDescriptorView|
        text_or_empty(enum_type.name) == spec_last_name(text_or_empty(Some(name)));
    assert forall|i: int| 0 <= i < message.enum_type.len() implies accepts(
        #[trigger] message.enum_type[i],
    ) == goes_by(message.enum_type[i].name, part) by {
        lemma_goes_by(message.enum_type[i].name, part);
    }
    lemma_first_where(message.enum_type, accepts);
    assert forall|i: int|
        0 <= i < message.enum_type.len() && goes_by((#[trigger] message.enum_type[i]).name, part)
            && (forall|j: int|
            0 <= j < i ==> !goes_by((#[trigger] message.enum_type[j]).name, part)) implies enum_of(
        message,
        Some(name),
    ) == Some(message.enum_type[i]) by {
        assert(accepts(message.enum_type[i]));
        let found = enum_of(message, Some(name))->0;
        let k = choose|k: int|
            0 <= k < message.enum_type.len() && #[trigger] message.enum_type[k] == found && accepts(
                found,
            ) && (forall|j: int| 0 <= j < k ==> !accepts(#[trigger] message.enum_type[j]));
        if k < i {
            assert(!goes_by(message.enum_type[k].name, part));
        } else if i < k {
            assert(!accepts(message.enum_type[i]));
        }
    }
    if enum_of(message, Some(name)) is None {
        assert forall|i: int| 0 <= i < message.enum_type.len() implies !goes_by(
            (#[trigger] message.enum_type[i]).name,
            part,
        ) by {
            assert(!accepts(message.enum_type[i]));
        }
    } else {
        let found = enum_of(message, Some(name))->0;
        let k = choose|k: int|
            0 <= k < message.enum_type.len() && #[trigger] message.enum_type[k] == found && accepts(
                found,
            );
        assert(goes_by(message.enum_type[k].name, part));
    }
    if name.len() == 0 {
        assert(name =~= Seq::empty());
    }
}

/// Whether no message before the one at an index of a file goes by a name, in that file and in
/// the files before it.
pub open spec fn is_first_named(
    files: Seq<Seq<DescriptorView>>,
    name: Seq<char>,
    file: int,
    index: int,
) -> bool {
    &&& forall|f: int, i: int|
        0 <= f < file && 0 <= i < files[f].len() ==> !goes_by((#[trigger] files[f][i]).name, name)
    &&& forall|i: int| 0 <= i < index ==> !goes_by((#[trigger] files[file][i]).name, name)
}

/// Every message that the files declare is found by its name, if none before it goes by that name,
/// and nothing is found only where no message does.
pub proof fn lemma_message_found(files: Seq<Seq<DescriptorView>>, name: Seq<char>)
    ensures
        forall|f: int, i: int|
            0 <= f < files.len() && 0 <= i < files[f].len() && goes_by(
                (#[trigger] files[f][i]).name,
                name,
            ) && is_first_named(files, name, f, i) ==> message_named(files, name) == Some(
                files[f][i],
            ),
        (forall|f: int, i: int|
            0 <= f < files.len() && 0 <= i < files[f].len() ==> !goes_by(
                (#[trigger] files[f][i]).name,
                name,
            )) ==> message_named(files, name) is None,
        message_named(files, name) is Some ==> exists|f: int, i: int|
            0 <= f < files.len() && 0 <= i < files[f].len() && #[trigger] files[f][i]
                == message_named(files, name)->0 && goes_by(files[f][i].name, name)
                && is_first_named(files, name, f, i),
    decreases files.len(),
{
    if files.len() > 0 {
        let accepts = |message: DescriptorView| text_or_empty(message.name) == name;
        let head = files[0];
        let rest = files.skip(1);
        assert forall|i: int| 0 <= i < head.len() implies accepts(#[trigger] head[i]) == goes_by(
            head[i].name,
            name,
        ) by {
            lemma_goes_by(head[i].name, name);
        }
        lemma_first_where(head, accepts);
        lemma_message_found(rest, name);
        assert forall|f: int, i: int|
            0 < f < files.len() && 0 <= i < files[f].len() implies #[trigger] files[f][i] == rest[f
            - 1][i] by {}
        match first_where(head, accepts) {
            Some(found) => {
                let k = choose|k: int|
                    0 <= k < head.len() && #[trigger] head[k] == found && accepts(found) && (forall|
                        j: int,
                    |
                        0 <= j < k ==> !accepts(#[trigger] head[j]));
                assert(goes_by(files[0][k].name, name));
                assert(is_first_named(files, name, 0, k));
                assert(files[0][k] == found);
                assert forall|f: int, i: int|
                    0 <= f < files.len() && 0 <= i < files[f].len() && goes_by(
                        (#[trigger] files[f][i]).name,
                        name,
                    ) && is_first_named(files, name, f, i) implies f == 0 && i == k by {
                    if f > 0 {
                        assert(!goes_by(files[0][k].name, name));
                    } else if i < k {
                        assert(!accepts(head[i]));
                    } else if k < i {
                        assert(!goes_by(files[f][k].name, name));
                    }
                }
            },
            None => {
                assert forall|i: int| 0 <= i < head.len() implies !goes_by(
                    (#[trigger] files[0][i]).name,
                    name,
                ) by {
                    assert(!accepts(head[i]));
                }
                assert forall|f: int, i: int|
                    0 <= f < files.len() && 0 <= i < files[f].len() && goes_by(
                        (#[trigger] files[f][i]).name,
                        name,
                    ) && is_first_named(files, name, f, i) implies message_named(files, name)
                    == Some(files[f][i]) by {
                    assert(f > 0);
                    assert(rest[f - 1][i] == files[f][i]);
                    assert forall|g: int, j: int|
                        0 <= g < f - 1 && 0 <= j < rest[g].len() implies !goes_by(
                        (#[trigger] rest[g][j]).name,
                        name,
                    ) by {
                        assert(files[g + 1][j] == rest[g][j]);
                    }
                    assert forall|j: int| 0 <= j < i implies !goes_by(
                        (#[trigger] rest[f - 1][j]).name,
                        name,
                    ) by {
                        assert(files[f][j] == rest[f - 1][j]);
                    }
                    assert(is_first_named(rest, name, f - 1, i));
                }
                if message_named(rest, name) is Some {
                    let (g, j) = choose|g: int, j: int|
                        0 <= g < rest.len() && 0 <= j < rest[g].len() && #[trigger] rest[g][j]
                            == message_named(rest, name)->0 && goes_by(rest[g][j].name, name)
                            && is_first_named(rest, name, g, j);
                    assert(files[g + 1][j] == rest[g][j]);
                    assert forall|f: int, i: int|
                        0 <= f < g + 1 && 0 <= i < files[f].len() implies !goes_by(
                        (#[trigger] files[f][i]).name,
                        name,
                    ) by {
                        if f > 0 {
                            assert(!goes_by(rest[f - 1][i].name, name));
                        }
                    }
                    assert forall|i: int| 0 <= i < j implies !goes_by(
                        (#[trigger] files[g + 1][i]).name,
                        name,
                    ) by {
                        assert(!goes_by(rest[g][i].name, name));
                    }
                    assert(is_first_named(files, name, g + 1, j));
                }
                if forall|f: int, i: int|
                    0 <= f < files.len() && 0 <= i < files[f].len() ==> !goes_by(
                        (#[trigger] files[f][i]).name,
                        name,
                    ) {
                    assert forall|f: int, i: int|
                        0 <= f < rest.len() && 0 <= i < rest[f].len() implies !goes_by(
                        (#[trigger] rest[f][i]).name,
                        name,
                    ) by {
                        assert(files[f + 1][i] == rest[f][i]);
                    }
                }
            },
        }
    }
}

/// The message type of a field is the first message declared inside its message under the last
/// part of the dotted name; where there is none, it is the one that the files declare under that
/// name.
pub proof fn lemma_embedded_message_found(
    message: DescriptorView,
    name: Seq<char>,
    part: Seq<char>,
    files: Seq<Seq<DescriptorView>>,
)
    requires
        is_last_part(part, name),
    ensures
        forall|i: int|
            0 <= i < message.nested_type.len() && (#[trigger] message.nested_type[i]).name == Some(
                part,
            ) && (forall|j: int|
                0 <= j < i ==> (#[trigger] message.nested_type[j]).name != Some(part))
                ==> message_of(message, Some(name), files) == Some(message.nested_type[i]),
        (forall|i: int|
            0 <= i < message.nested_type.len() ==> (#[trigger] message.nested_type[i]).name != Some(
                part,
            )) ==> message_of(message, Some(name), files) == message_named(files, part),
{
    lemma_last_part(part, name);
    let accepts = |nested: DescriptorView| nested.name == Some(part);
    lemma_first_where(message.nested_type, accepts);
    assert(message_of(message, Some(name), files) == match first_where(
        message.nested_type,
        accepts,
    ) {
        Some(nested) => Some(nested),
        None => message_named(files, part),
    });
    assert forall|i: int|
        0 <= i < message.nested_type.len() && (#[trigger] message.nested_type[i]).name == Some(part)
            && (forall|j: int|
            0 <= j < i ==> (#[trigger] message.nested_type[j]).name != Some(
                part,
            )) implies message_of(message, Some(name), files) == Some(message.nested_type[i]) by {
        assert(accepts(message.nested_type[i]));
        let found = first_where(message.nested_type, accepts)->0;
        let k = choose|k: int|
            0 <= k < message.nested_type.len() && #[trigger] message.nested_type[k] == found
                && accepts(found) && (forall|j: int|
                0 <= j < k ==> !accepts(#[trigger] message.nested_type[j]));
        if k < i {
            assert(message.nested_type[k].name != Some(part));
        } else if i < k {
            assert(!accepts(message.nested_type[i]));
        }
    }
    if forall|i: int|
        0 <= i < message.nested_type.len() ==> (#[trigger] message.nested_type[i]).name != Some(
            part,
        ) {
        match first_where(message.nested_type, accepts) {
            Some(found) => {
                let k = choose|k: int|
                    0 <= k < message.nested_type.len() && #[trigger] message.nested_type[k] == found
                        && accepts(found);
                assert(message.nested_type[k].name == Some(part));
            },
            None => {},
        }
    }
}

/// A field without a type name has the type of the first nested message without a name; where there
/// is none, that of the message that the files declare without a name.
pub proof fn lemma_unnamed_message_found(
    message: DescriptorView,
    files: Seq<Seq<DescriptorView>>,
)
    ensures
        (forall|i: int|
            0 <= i < message.nested_type.len() ==> (#[trigger] message.nested_type[i]).name is Some)
            ==> message_of(message, None, files) == message_named(files, Seq::empty()),
        forall|i: int|
            0 <= i < message.nested_type.len() && (#[trigger] message.nested_type[i]).name is None
                && (forall|j: int| 0 <= j < i ==> (#[trigger] message.nested_type[j]).name is Some)
                ==> message_of(message, None, files) == Some(message.nested_type[i]),
{
    let accepts = |nested: DescriptorView| nested.name == None::<Seq<char>>;
    lemma_first_where(message.nested_type, accepts);
    assert(message_of(message, None, files) == match first_where(message.nested_type, accepts) {
        Some(nested) => Some(nested),
        None => message_named(files, Seq::empty()),
    });
    assert forall|i: int|
        0 <= i < message.nested_type.len() && (#[trigger] message.nested_type[i]).name is None && (
        forall|j: int|
            0 <= j < i ==> (#[trigger] message.nested_type[j]).name is Some) implies message_of(
        message,
        None,
        files,
    ) == Some(message.nested_type[i]) by {
        assert(accepts(message.nested_type[i]));
        let found = first_where(message.nested_type, accepts)->0;
        let k = choose|k: int|
            0 <= k < message.nested_type.len() && #[trigger] message.nested_type[k] == found
                && accepts(found) && (forall|j: int|
                0 <= j < k ==> !accepts(#[trigger] message.nested_type[j]));
        if k < i {
            assert(message.nested_type[k].name is Some);
        } else if i < k {
            assert(!accepts(message.nested_type[i]));
        }
    }
    if forall|i: int|
        0 <= i < message.nested_type.len() ==> (#[trigger] message.nested_type[i]).name is Some {
        match first_where(message.nested_type, accepts) {
            Some(found) => {
                let k = choose|k: int|
                    0 <= k < message.nested_type.len() && #[trigger] message.nested_type[k] == found
                        && accepts(found);
                assert(message.nested_type[k].name is Some);
            },
            None => {},
        }
    }
}

/// The field types have the numbers from 1 to 18, in this order. All other numbers, and none at
/// all, stand for a double.
pub proof fn lemma_type_numbers(number: i32)
    ensures
        declared_type(Some(number)) == (match number {
            2 => Type::Float,
            3 => Type::Int64,
            4 => Type::Uint64,
            5 => Type::Int32,
            6 => Type::Fixed64,
            7 => Type::Fixed32,
            8 => Type::Bool,
            9 => Type::String,
            10 => Type::Group,
            11 => Type::Message,
            12 => Type::Bytes,
            13 => Type::Uint32,
            14 => Type::Enum,
            15 => Type::Sfixed32,
            16 => Type::Sfixed64,
            17 => Type::Sint32,
            18 => Type::Sint64,
            _ => Type::Double,
        }),
        declared_type(None) == Type::Double,
{
}

/// The text of a failed look-up holds the whole number or name that was looked for.
pub proof fn lemma_lookup_error_texts(number: i32, name: String)
    ensures
        lookup_error_text(LookupError::FieldNotFound(number)) == "Did not find a field with number "@
            + (signed_decimal(number as int) + " in the descriptor"@),
        lookup_error_text(LookupError::MessageNotFound(name)) == "Did not find a message type '"@ + (
        name@ + "' in the descriptors"@),
{
    assert("Did not find a field with number "@ + (signed_decimal(number as int)
        + " in the descriptor"@) =~= lookup_error_text(LookupError::FieldNotFound(number)));
    assert("Did not find a message type '"@ + (name@ + "' in the descriptors"@)
        =~= lookup_error_text(LookupError::MessageNotFound(name)));
}

/// Descriptors compare equal exactly where all that they hold is the same.
pub proof fn lemma_equal_descriptors(
    default_value: (DefaultValue, DefaultValue),
    field: (FieldDescriptorProto, FieldDescriptorProto),
    value: (EnumValueDescriptorProto, EnumValueDescriptorProto),
    enum_type: (EnumDescriptorProto, EnumDescriptorProto),
    message: (DescriptorProto, DescriptorProto),
)
    ensures
        DefaultValue::obeys_eq_spec(),
        FieldDescriptorProto::obeys_eq_spec(),
        EnumValueDescriptorProto::obeys_eq_spec(),
        EnumDescriptorProto::obeys_eq_spec(),
        DescriptorProto::obeys_eq_spec(),
        default_value.0.eq_spec(&default_value.1) <==> default_value.0@ == default_value.1@,
        field.0.eq_spec(&field.1) <==> field.0@ == field.1@,
        value.0.eq_spec(&value.1) <==> value.0@ == value.1@,
        enum_type.0.eq_spec(&enum_type.1) <==> enum_type.0@ == enum_type.1@,
        message.0.eq_spec(&message.1) <==> message.0@ == message.1@,
{
}

/// The views of descriptors show all that the descriptors hold, part for part and in order.
pub proof fn lemma_descriptor_views(
    default_value: DefaultValue,
    field: FieldDescriptorProto,
    value: EnumValueDescriptorProto,
    enum_type: EnumDescriptorProto,
    message: DescriptorProto,
    files: FileDescriptorSet,
)
    ensures
        default_value@.text == default_value.text@,
        default_value@.float == default_value.float,
        default_value@.double == default_value.double,
        field@.name == field.name.deep_view(),
        field@.number == field.number,
        field@.field_type == field.field_type,
        field@.named_type == field.named_type.deep_view(),
        field.default_value is None <==> field@.default_value is None,
        field.default_value matches Some(default) ==> field@.default_value == Some(default@),
        field@.encoded == field.encoded@,
        value@.name == value.name.deep_view(),
        value@.number == value.number,
        enum_type@.name == enum_type.name.deep_view(),
        enum_type@.value.len() == enum_type.value@.len(),
        forall|i: int|
            0 <= i < enum_type.value@.len() ==> #[trigger] enum_type@.value[i]
                == enum_type.value@[i]@,
        enum_type@.encoded == enum_type.encoded@,
        message@.name == message.name.deep_view(),
        message@.field.len() == message.field@.len(),
        forall|i: int|
            0 <= i < message.field@.len() ==> #[trigger] message@.field[i] == message.field@[i]@,
        message@.nested_type.len() == message.nested_type@.len(),
        forall|i: int|
            0 <= i < message.nested_type@.len() ==> #[trigger] message@.nested_type[i]
                == message.nested_type@[i]@,
        message@.enum_type.len() == message.enum_type@.len(),
        forall|i: int|
            0 <= i < message.enum_type@.len() ==> #[trigger] message@.enum_type[i]
                == message.enum_type@[i]@,
        message@.encoded == message.encoded@,
        files@.len() == files.file@.len(),
        forall|f: int|
            0 <= f < files.file@.len() ==> (#[trigger] files@[f]).len()
                == files.file@[f].message_type@.len(),
        forall|f: int, i: int|
            0 <= f < files.file@.len() && 0 <= i < files.file@[f].message_type@.len()
                ==> #[trigger] files@[f][i] == files.file@[f].message_type@[i]@,
{
}

} // verus!
