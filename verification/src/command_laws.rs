//! What holds of commands whatever their contents: each command that this
//! crate writes, it reads back as the command that was meant.

use vstd::prelude::*;
use vstd::string::*;
use crate::amf0::{
    be16, be16_at, be64, be64_at, number_value, null_value, property, string_at, string_property,
    string_value, text, value_end, MARKER_NULL, MARKER_NUMBER, MARKER_OBJECT, MARKER_OBJECT_END,
    MARKER_STRING, MAX_DEPTH, NUMBER_ONE, NUMBER_ZERO,
};
use crate::chunk::wire::{be32, lemma_be32_round_trip, lemma_wire_lengths};
use crate::command::{
    command_head, command_of, connect_command, connect_result, create_stream_command,
    create_stream_result, delete_stream_command, envelope, lemma_name_lengths, object_string,
    play_command, publish_command, status_code, status_command, string_entry, CommandView, Envelope,
    MAX_STRING, NUMBER_TWO,
};

verus! {

/// A two-byte length that was written is read back as it was.
proof fn be16_round_trip(v: int, bytes: Seq<u8>, at: int)
    requires
        0 <= v <= 0xFFFF,
        0 <= at,
        at + 2 <= bytes.len(),
        bytes.subrange(at, at + 2) == be16(v),
    ensures
        be16_at(bytes, at) == v,
{
    let b = bytes.subrange(at, at + 2);
    assert(b[0] == bytes[at] && b[1] == bytes[at + 1]);
}

/// A number that was written is read back as it was.
proof fn be64_round_trip(v: u64, bytes: Seq<u8>, at: int)
    requires
        0 <= at,
        at + 8 <= bytes.len(),
        bytes.subrange(at, at + 8) == be64(v),
    ensures
        be64_at(bytes, at) == v,
{
    let hi = (v / 0x1_0000_0000) as u32;
    let lo = (v % 0x1_0000_0000) as u32;
    lemma_wire_lengths(hi);
    lemma_wire_lengths(lo);
    let whole = bytes.subrange(at, at + 8);
    assert(whole.subrange(0, 4) =~= be32(hi));
    assert(whole.subrange(4, 8) =~= be32(lo));
    assert(bytes.subrange(at, at + 4) =~= whole.subrange(0, 4));
    assert(bytes.subrange(at + 4, at + 8) =~= whole.subrange(4, 8));
    lemma_be32_round_trip(hi, bytes, at);
    lemma_be32_round_trip(lo, bytes, at + 4);
}

/// A string value that was written is read back as the string, and ends
/// where its bytes end.
pub proof fn string_value_round_trip(pre: Seq<u8>, s: Seq<u8>, post: Seq<u8>, depth: nat)
    requires
        s.len() <= MAX_STRING,
    ensures
        string_at(pre + string_value(s) + post, pre.len() as int) == Some(s),
        value_end(pre + string_value(s) + post, pre.len() as int, depth) == Some(
            pre.len() as int + 3 + s.len(),
        ),
        string_value(s).len() == 3 + s.len(),
{
    let bytes = pre + string_value(s) + post;
    let at = pre.len() as int;
    assert(bytes[at] == MARKER_STRING);
    assert(bytes.subrange(at + 1, at + 3) =~= be16(s.len() as int));
    be16_round_trip(s.len() as int, bytes, at + 1);
    assert(bytes.subrange(at + 3, at + 3 + s.len()) =~= s);
}

/// A number value that was written ends where its bytes end, and its
/// eight bytes are read back as they were.
pub proof fn number_value_round_trip(pre: Seq<u8>, bits: u64, post: Seq<u8>, depth: nat)
    ensures
        (pre + number_value(bits) + post)[pre.len() as int] == MARKER_NUMBER,
        be64_at(pre + number_value(bits) + post, pre.len() as int + 1) == bits,
        value_end(pre + number_value(bits) + post, pre.len() as int, depth) == Some(
            pre.len() as int + 9,
        ),
        number_value(bits).len() == 9,
{
    let bytes = pre + number_value(bits) + post;
    let at = pre.len() as int;
    lemma_wire_lengths((bits / 0x1_0000_0000) as u32);
    lemma_wire_lengths((bits % 0x1_0000_0000) as u32);
    assert(bytes[at] == MARKER_NUMBER);
    assert(bytes.subrange(at + 1, at + 9) =~= be64(bits));
    be64_round_trip(bits, bytes, at + 1);
}

/// The start of a command that was written is read back as it was.
pub proof fn head_round_trip(name: Seq<u8>, transaction_id: u64, rest: Seq<u8>)
    requires
        name.len() <= MAX_STRING,
    ensures
        envelope(command_head(name, transaction_id) + rest) == Some(
            Envelope { name, transaction_id, object_at: 12 + name.len() as int },
        ),
        command_head(name, transaction_id).len() == 12 + name.len(),
{
    let bytes = command_head(name, transaction_id) + rest;
    let none = Seq::<u8>::empty();
    assert(bytes =~= none + string_value(name) + (number_value(transaction_id) + rest));
    string_value_round_trip(none, name, number_value(transaction_id) + rest, 0);
    assert(bytes =~= string_value(name) + number_value(transaction_id) + rest);
    number_value_round_trip(string_value(name), transaction_id, rest, 0);
}

/// The names of the commands differ from one another.
proof fn names_differ()
    ensures
        text("connect") != text("publish"),
        text("connect") != text("_result"),
        text("publish") != text("_result"),
        text("createStream") != text("deleteStream"),
        text("closeStream") != text("FCUnpublish"),
{
    reveal_strlit("connect");
    reveal_strlit("publish");
    reveal_strlit("_result");
    reveal_strlit("createStream");
    reveal_strlit("deleteStream");
    reveal_strlit("closeStream");
    reveal_strlit("FCUnpublish");
    assert(is_ascii("connect"));
    assert(is_ascii("publish"));
    assert(is_ascii("_result"));
    assert(is_ascii("createStream"));
    assert(is_ascii("deleteStream"));
    assert(is_ascii("closeStream"));
    assert(is_ascii("FCUnpublish"));
    assert(text("connect")[0] != text("publish")[0]);
    assert(text("connect")[0] != text("_result")[0]);
    assert(text("publish")[0] != text("_result")[0]);
    assert(text("createStream")[0] != text("deleteStream")[0]);
    assert(text("closeStream")[0] != text("FCUnpublish")[0]);
}

/// The keys that are looked up differ from those that stand before them.
proof fn keys_differ()
    ensures
        text("level") != text("code"),
        text("level").len() == 5,
        text("code").len() == 4,
        text("app").len() == 3,
{
    reveal_strlit("level");
    reveal_strlit("code");
    reveal_strlit("app");
    assert(is_ascii("level"));
    assert(is_ascii("code"));
    assert(is_ascii("app"));
}

/// `createStream` is read back as `createStream`.
pub proof fn create_stream_round_trip()
    ensures
        command_of(create_stream_command()) == Some(
            CommandView::CreateStream { transaction_id: NUMBER_TWO },
        ),
{
    reveal(command_of);
    lemma_name_lengths();
    names_differ();
    head_round_trip(text("createStream"), NUMBER_TWO, null_value());
}

/// `deleteStream` is read back as the end of the stream.
pub proof fn delete_stream_round_trip()
    ensures
        command_of(delete_stream_command()) == Some(CommandView::DeleteStream),
{
    reveal(command_of);
    lemma_name_lengths();
    names_differ();
    head_round_trip(text("deleteStream"), NUMBER_ZERO, null_value() + number_value(NUMBER_ONE));
    assert(delete_stream_command() =~= command_head(text("deleteStream"), NUMBER_ZERO) + (
    null_value() + number_value(NUMBER_ONE)));
}

/// The answer to `createStream` is read back as a result with the
/// transaction id of the request.
pub proof fn create_stream_result_round_trip(transaction_id: u64)
    ensures
        command_of(create_stream_result(transaction_id)) == Some(
            CommandView::Result { transaction_id },
        ),
{
    reveal(command_of);
    lemma_name_lengths();
    names_differ();
    head_round_trip(text("_result"), transaction_id, null_value() + number_value(NUMBER_ONE));
    assert(create_stream_result(transaction_id) =~= command_head(text("_result"), transaction_id)
        + (null_value() + number_value(NUMBER_ONE)));
}

/// The answer to `connect` is read back as a result with the transaction
/// id of the request.
pub proof fn connect_result_round_trip(transaction_id: u64)
    ensures
        command_of(connect_result(transaction_id)) == Some(CommandView::Result { transaction_id }),
{
    reveal(command_of);
    lemma_name_lengths();
    names_differ();
    let head = command_head(text("_result"), transaction_id);
    let whole = connect_result(transaction_id);
    let rest = whole.skip(head.len() as int);
    assert(whole =~= head + rest);
    head_round_trip(text("_result"), transaction_id, rest);
}

/// `publish` is read back as `publish` of the same stream name.
pub proof fn publish_round_trip(stream_name: Seq<u8>)
    requires
        stream_name.len() <= MAX_STRING,
    ensures
        command_of(publish_command(stream_name)) == Some(CommandView::Publish { stream_name }),
{
    reveal(command_of);
    lemma_name_lengths();
    names_differ();
    let head = command_head(text("publish"), NUMBER_ZERO);
    let tail = string_value(text("live"));
    let bytes = publish_command(stream_name);
    assert(bytes =~= head + (null_value() + string_value(stream_name) + tail));
    head_round_trip(text("publish"), NUMBER_ZERO, null_value() + string_value(stream_name) + tail);
    let at = head.len() as int;
    assert(bytes[at] == MARKER_NULL);
    assert(value_end(bytes, at, MAX_DEPTH as nat) == Some(at + 1));
    assert(bytes =~= (head + null_value()) + string_value(stream_name) + tail);
    string_value_round_trip(head + null_value(), stream_name, tail, 0);
}

/// `play` is read back as `play` of the same stream name.
pub proof fn play_round_trip(stream_name: Seq<u8>)
    requires
        stream_name.len() <= MAX_STRING,
    ensures
        command_of(play_command(stream_name)) == Some(CommandView::Play { stream_name }),
{
    reveal(command_of);
    lemma_name_lengths();
    names_differ();
    let head = command_head(text("play"), NUMBER_ZERO);
    let none = Seq::<u8>::empty();
    let bytes = play_command(stream_name);
    assert(bytes =~= head + (null_value() + string_value(stream_name)));
    head_round_trip(text("play"), NUMBER_ZERO, null_value() + string_value(stream_name));
    let at = head.len() as int;
    assert(bytes[at] == MARKER_NULL);
    assert(value_end(bytes, at, MAX_DEPTH as nat) == Some(at + 1));
    assert(bytes =~= (head + null_value()) + string_value(stream_name) + none);
    string_value_round_trip(head + null_value(), stream_name, none, 0);
}

/// The first property of a list is found under its key.
proof fn first_property_found(pre: Seq<u8>, key: Seq<u8>, value: Seq<u8>, post: Seq<u8>, depth: nat)
    requires
        1 <= key.len() <= MAX_STRING,
        value.len() <= MAX_STRING,
    ensures
        string_property(
            pre + string_entry(key, value) + post,
            pre.len() as int,
            key,
            depth,
        ) == Some(value),
{
    let bytes = pre + string_entry(key, value) + post;
    let at = pre.len() as int;
    assert(bytes.subrange(at, at + 2) =~= be16(key.len() as int));
    be16_round_trip(key.len() as int, bytes, at);
    assert(bytes.subrange(at + 2, at + 2 + key.len()) =~= key);
    assert(bytes =~= (pre + be16(key.len() as int) + key) + string_value(value) + post);
    string_value_round_trip(pre + be16(key.len() as int) + key, value, post, 0);
}

/// A string property under another key is stepped over.
proof fn other_property_skipped(
    pre: Seq<u8>,
    other: Seq<u8>,
    value: Seq<u8>,
    post: Seq<u8>,
    key: Seq<u8>,
    depth: nat,
)
    requires
        1 <= other.len() <= MAX_STRING,
        value.len() <= MAX_STRING,
        other != key,
    ensures
        string_property(pre + string_entry(other, value) + post, pre.len() as int, key, depth)
            == string_property(
            pre + string_entry(other, value) + post,
            pre.len() as int + string_entry(other, value).len(),
            key,
            depth,
        ),
        string_entry(other, value).len() == 5 + other.len() + value.len(),
{
    let bytes = pre + string_entry(other, value) + post;
    let at = pre.len() as int;
    assert(bytes.subrange(at, at + 2) =~= be16(other.len() as int));
    be16_round_trip(other.len() as int, bytes, at);
    assert(bytes.subrange(at + 2, at + 2 + other.len()) =~= other);
    assert(bytes =~= (pre + be16(other.len() as int) + other) + string_value(value) + post);
    string_value_round_trip(pre + be16(other.len() as int) + other, value, post, depth);
}

/// How the bytes of a `connect` command are laid out.
proof fn connect_layout(app: Seq<u8>, tc_url: Seq<u8>)
    ensures
        ({
            let head = command_head(text("connect"), NUMBER_ONE);
            let first = string_entry(text("app"), app);
            let later = string_entry(text("tcUrl"), tc_url) + seq![0u8, 0u8, MARKER_OBJECT_END];
            &&& connect_command(app, tc_url) == head + (seq![MARKER_OBJECT] + first + later)
            &&& connect_command(app, tc_url) == (head + seq![MARKER_OBJECT]) + first + later
            &&& connect_command(app, tc_url)[head.len() as int] == MARKER_OBJECT
        }),
{
    let head = command_head(text("connect"), NUMBER_ONE);
    let first = string_entry(text("app"), app);
    let later = string_entry(text("tcUrl"), tc_url) + seq![0u8, 0u8, MARKER_OBJECT_END];
    let bytes = connect_command(app, tc_url);
    assert(bytes =~= head + (seq![MARKER_OBJECT] + first + later));
    assert(bytes =~= (head + seq![MARKER_OBJECT]) + first + later);
}

/// A command with the name `connect` whose command object names the
/// application is a `connect` command.
proof fn connect_by_parts(bytes: Seq<u8>, e: Envelope, app: Seq<u8>)
    requires
        envelope(bytes) == Some(e),
        e.name == text("connect"),
        object_string(bytes, e.object_at, text("app")) == Some(app),
    ensures
        command_of(bytes) == Some(
            CommandView::Connect { transaction_id: e.transaction_id, app },
        ),
{
    reveal(command_of);
}

/// `connect` is read back as `connect` to the same application.
pub proof fn connect_round_trip(app: Seq<u8>, tc_url: Seq<u8>)
    requires
        app.len() <= MAX_STRING,
        tc_url.len() <= MAX_STRING,
    ensures
        command_of(connect_command(app, tc_url)) == Some(
            CommandView::Connect { transaction_id: NUMBER_ONE, app },
        ),
{
    reveal(command_of);
    lemma_name_lengths();
    keys_differ();
    let head = command_head(text("connect"), NUMBER_ONE);
    let first = string_entry(text("app"), app);
    let later = string_entry(text("tcUrl"), tc_url) + seq![0u8, 0u8, MARKER_OBJECT_END];
    let bytes = connect_command(app, tc_url);
    connect_layout(app, tc_url);
    head_round_trip(text("connect"), NUMBER_ONE, seq![MARKER_OBJECT] + first + later);
    first_property_found(
        head + seq![MARKER_OBJECT],
        text("app"),
        app,
        later,
        (MAX_DEPTH - 1) as nat,
    );
    let e = Envelope { name: text("connect"), transaction_id: NUMBER_ONE, object_at: 19 };
    assert(object_string(bytes, 19, text("app")) == Some(app));
    connect_by_parts(bytes, e, app);
}

/// How the bytes of an `onStatus` command are laid out.
proof fn status_layout(level: Seq<u8>, code: Seq<u8>)
    ensures
        ({
            let head = command_head(text("onStatus"), NUMBER_ZERO);
            let first = string_entry(text("level"), level);
            let second = string_entry(text("code"), code);
            let close = seq![0u8, 0u8, MARKER_OBJECT_END];
            let pre = head + null_value() + seq![MARKER_OBJECT];
            let bytes = status_command(level, code);
            &&& bytes == head + (null_value() + (seq![MARKER_OBJECT] + first + second + close))
            &&& bytes == pre + first + (second + close)
            &&& bytes == (pre + first) + second + close
            &&& bytes[head.len() as int] == MARKER_NULL
            &&& bytes[head.len() as int + 1] == MARKER_OBJECT
            &&& pre.len() == head.len() + 2
        }),
{
    let head = command_head(text("onStatus"), NUMBER_ZERO);
    let first = string_entry(text("level"), level);
    let second = string_entry(text("code"), code);
    let close = seq![0u8, 0u8, MARKER_OBJECT_END];
    let pre = head + null_value() + seq![MARKER_OBJECT];
    let bytes = status_command(level, code);
    assert(bytes =~= head + (null_value() + (seq![MARKER_OBJECT] + first + second + close)));
    assert(bytes =~= pre + first + (second + close));
    assert(bytes =~= (pre + first) + second + close);
}

/// A command with the name `onStatus` whose information object has a code
/// is a status with that code.
proof fn status_by_parts(bytes: Seq<u8>, e: Envelope, code: Seq<u8>)
    requires
        envelope(bytes) == Some(e),
        e.name == text("onStatus"),
        status_code(bytes, e.object_at) == Some(code),
    ensures
        command_of(bytes) == Some(CommandView::Status { code }),
{
    reveal(command_of);
    lemma_name_lengths();
}

/// `onStatus` is read back as a status with the same code.
pub proof fn status_round_trip(level: Seq<u8>, code: Seq<u8>)
    requires
        level.len() <= MAX_STRING,
        code.len() <= MAX_STRING,
    ensures
        command_of(status_command(level, code)) == Some(CommandView::Status { code }),
{
    reveal(command_of);
    lemma_name_lengths();
    keys_differ();
    let head = command_head(text("onStatus"), NUMBER_ZERO);
    let first = string_entry(text("level"), level);
    let second = string_entry(text("code"), code);
    let close = seq![0u8, 0u8, MARKER_OBJECT_END];
    let bytes = status_command(level, code);
    let pre = head + null_value() + seq![MARKER_OBJECT];
    status_layout(level, code);
    head_round_trip(
        text("onStatus"),
        NUMBER_ZERO,
        null_value() + (seq![MARKER_OBJECT] + first + second + close),
    );
    let at = head.len() as int;
    assert(value_end(bytes, at, MAX_DEPTH as nat) == Some(at + 1));
    other_property_skipped(pre, text("level"), level, second + close, text("code"), (MAX_DEPTH
        - 1) as nat);
    first_property_found(pre + first, text("code"), code, close, (MAX_DEPTH - 1) as nat);
    let e = Envelope { name: text("onStatus"), transaction_id: NUMBER_ZERO, object_at: at };
    assert(object_string(bytes, at + 1, text("code")) == Some(code));
    assert(status_code(bytes, at) == Some(code));
    status_by_parts(bytes, e, code);
}

} // verus!
