# pact_protobuf

Decodes Protobuf messages against their descriptors, and holds the rules by which a gRPC
interaction of a pact is verified. The library under `src/` is verified with Verus.

- `wire`: varints, field keys and fixed width integers
- `text`: decimal and hexadecimal forms, and the integers that texts stand for
- `escape`: C escaped texts, and the bytes that they stand for
- `descriptor`: descriptors of messages, and look-ups in them
- `field`: decoded fields, their default values, bytes and texts
- `message_decoder`: decoding of messages
- `message_laws`: what holds of decoding for all messages
- `metadata`: the metadata of a request
- `request`: the address, path, message and metadata of a request
- `verification`: preparing a request, and what to make of the response

`app/` converts from `prost_types` and the pact crates, handles floating point numbers, and makes
the calls to the server. Numbers of the floating point kinds are held as their bits in `src/`, and
compare as the numbers do. Descriptors hold the parts that the rules read, and the whole descriptor
in its Protobuf encoding.
