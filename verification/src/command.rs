//! Command messages: `connect`, `createStream`, `publish`, `play` and their
//! answers.
//!
//! A command is a name, a transaction id, a command object (or null), and
//! arguments, each an AMF0 value.

use vstd::prelude::*;
use vstd::string::*;
use crate::amf0::{
    be64_at, close_object, find_value_end, is_text, number_value, null_value, object_value,
    open_object, property, put_key, put_null, put_number, put_string, put_text, read_string,
    read_string_property, string_at, string_property, string_value, text, value_end, MARKER_NUMBER,
    MARKER_OBJECT, MAX_DEPTH, NUMBER_ONE, NUMBER_ZERO,
};

verus! {

/// What a command asks for or reports, as far as a session cares.
#[derive(Debug, PartialEq, Eq)]
pub enum Command {
    /// `connect`: the peer wants to use the application `app`.
    Connect { transaction_id: u64, app: Vec<u8> },
    /// `createStream`: the peer wants a message stream.
    CreateStream { transaction_id: u64 },
    /// `publish`: the peer wants to publish under `stream_name`.
    Publish { stream_name: Vec<u8> },
    /// `play`: the peer wants to receive `stream_name`.
    Play { stream_name: Vec<u8> },
    /// `deleteStream`, `closeStream` or `FCUnpublish`: the peer is done
    /// with its stream.
    DeleteStream,
    /// `_result`: the peer grants the request with this transaction id.
    Result { transaction_id: u64 },
    /// `_error`: the peer refuses the request with this transaction id.
    Error { transaction_id: u64 },
    /// `onStatus`: the peer reports on the stream, with this status code.
    Status { code: Vec<u8> },
    /// Any other command.
    Other,
}

pub ghost enum CommandView {
    Connect { transaction_id: u64, app: Seq<u8> },
    CreateStream { transaction_id: u64 },
    Publish { stream_name: Seq<u8> },
    Play { stream_name: Seq<u8> },
    DeleteStream,
    Result { transaction_id: u64 },
    Error { transaction_id: u64 },
    Status { code: Seq<u8> },
    Other,
}

impl View for Command {
    type V = CommandView;

    open spec fn view(&self) -> CommandView {
        match *self {
            Command::Connect { transaction_id, app } => CommandView::Connect {
                transaction_id,
                app: app@,
            },
            Command::CreateStream { transaction_id } => CommandView::CreateStream {
                transaction_id,
            },
            Command::Publish { stream_name } => CommandView::Publish { stream_name: stream_name@ },
            Command::Play { stream_name } => CommandView::Play { stream_name: stream_name@ },
            Command::DeleteStream => CommandView::DeleteStream,
            Command::Result { transaction_id } => CommandView::Result { transaction_id },
            Command::Error { transaction_id } => CommandView::Error { transaction_id },
            Command::Status { code } => CommandView::Status { code: code@ },
            Command::Other => CommandView::Other,
        }
    }
}

/// The view of an optional command.
pub open spec fn command_view(c: Option<Command>) -> Option<CommandView> {
    match c {
        Some(c) => Some(c@),
        None => None,
    }
}

/// The fixed start of a command: its name, its transaction id, and where
/// the command object starts.
pub ghost struct Envelope {
    pub name: Seq<u8>,
    pub transaction_id: u64,
    pub object_at: int,
}

/// The start of the command in `payload`: a string value, then a number
/// value.
pub open spec fn envelope(payload: Seq<u8>) -> Option<Envelope> {
    match string_at(payload, 0) {
        None => None,
        Some(name) => {
            let at = 3 + name.len() as int;
            if at + 9 <= payload.len() && payload[at] == MARKER_NUMBER {
                Some(Envelope { name, transaction_id: be64_at(payload, at + 1), object_at: at + 9 })
            } else {
                None
            }
        },
    }
}

/// The string value of the property `key` of the object that starts at
/// `at`, if an object starts there and has it.
pub open spec fn object_string(payload: Seq<u8>, at: int, key: Seq<u8>) -> Option<Seq<u8>> {
    if 0 <= at < payload.len() && payload[at] == MARKER_OBJECT {
        string_property(payload, at + 1, key, (MAX_DEPTH - 1) as nat)
    } else {
        None
    }
}

/// The first argument, if it is a string: the value behind the command
/// object.
pub open spec fn string_argument(payload: Seq<u8>, object_at: int) -> Option<Seq<u8>> {
    match value_end(payload, object_at, MAX_DEPTH as nat) {
        Some(at) => string_at(payload, at),
        None => None,
    }
}

/// The status code of an `onStatus` command: the string property `code` of
/// the object behind the command object.
pub open spec fn status_code(payload: Seq<u8>, object_at: int) -> Option<Seq<u8>> {
    match value_end(payload, object_at, MAX_DEPTH as nat) {
        Some(at) => object_string(payload, at, text("code")),
        None => None,
    }
}

/// The command in `payload`; nothing if the payload is no command, or
/// lacks what a command of its name must have.
#[verifier::opaque]
pub open spec fn command_of(payload: Seq<u8>) -> Option<CommandView> {
    match envelope(payload) {
        None => None,
        Some(e) => {
            if e.name == text("connect") {
                match object_string(payload, e.object_at, text("app")) {
                    Some(app) => Some(
                        CommandView::Connect { transaction_id: e.transaction_id, app },
                    ),
                    None => None,
                }
            } else if e.name == text("createStream") {
                Some(CommandView::CreateStream { transaction_id: e.transaction_id })
            } else if e.name == text("publish") {
                match string_argument(payload, e.object_at) {
                    Some(stream_name) => Some(CommandView::Publish { stream_name }),
                    None => None,
                }
            } else if e.name == text("play") {
                match string_argument(payload, e.object_at) {
                    Some(stream_name) => Some(CommandView::Play { stream_name }),
                    None => None,
                }
            } else if e.name == text("deleteStream") || e.name == text("closeStream") || e.name
                == text("FCUnpublish") {
                Some(CommandView::DeleteStream)
            } else if e.name == text("_result") {
                Some(CommandView::Result { transaction_id: e.transaction_id })
            } else if e.name == text("_error") {
                Some(CommandView::Error { transaction_id: e.transaction_id })
            } else if e.name == text("onStatus") {
                match status_code(payload, e.object_at) {
                    Some(code) => Some(CommandView::Status { code }),
                    None => None,
                }
            } else {
                Some(CommandView::Other)
            }
        },
    }
}

fn read_object_string(payload: &Vec<u8>, at: usize, key: &str) -> (s: Option<Vec<u8>>)
    ensures
        match s {
            Some(v) => object_string(payload@, at as int, text(key)) == Some(v@),
            None => object_string(payload@, at as int, text(key)) is None,
        },
{
    if at < payload.len() && payload[at] == MARKER_OBJECT {
        read_string_property(payload, at + 1, key, MAX_DEPTH - 1)
    } else {
        None
    }
}

fn read_string_argument(payload: &Vec<u8>, object_at: usize) -> (s: Option<Vec<u8>>)
    ensures
        match s {
            Some(v) => string_argument(payload@, object_at as int) == Some(v@),
            None => string_argument(payload@, object_at as int) is None,
        },
{
    match find_value_end(payload, object_at, MAX_DEPTH) {
        Some(at) => read_string(payload, at),
        None => None,
    }
}

fn read_status_code(payload: &Vec<u8>, object_at: usize) -> (s: Option<Vec<u8>>)
    ensures
        match s {
            Some(v) => status_code(payload@, object_at as int) == Some(v@),
            None => status_code(payload@, object_at as int) is None,
        },
{
    match find_value_end(payload, object_at, MAX_DEPTH) {
        Some(at) => read_object_string(payload, at, "code"),
        None => None,
    }
}

/// Reads the command in the payload of a command message.
pub fn parse_command(payload: &Vec<u8>) -> (command: Option<Command>)
    ensures
        command_view(command) == command_of(payload@),
{
    reveal(command_of);
    let name = match read_string(payload, 0) {
        Some(name) => name,
        None => {
            return None;
        },
    };
    let at = 3 + name.len();
    if payload.len() - at < 9 || payload[at] != MARKER_NUMBER {
        return None;
    }
    let transaction_id = crate::amf0::read_number_bits(payload, at + 1);
    let object_at = at + 9;
    if is_text(&name, "connect") {
        match read_object_string(payload, object_at, "app") {
            Some(app) => Some(Command::Connect { transaction_id, app }),
            None => None,
        }
    } else if is_text(&name, "createStream") {
        Some(Command::CreateStream { transaction_id })
    } else if is_text(&name, "publish") {
        match read_string_argument(payload, object_at) {
            Some(stream_name) => Some(Command::Publish { stream_name }),
            None => None,
        }
    } else if is_text(&name, "play") {
        match read_string_argument(payload, object_at) {
            Some(stream_name) => Some(Command::Play { stream_name }),
            None => None,
        }
    } else if is_text(&name, "deleteStream") || is_text(&name, "closeStream") || is_text(
        &name,
        "FCUnpublish",
    ) {
        Some(Command::DeleteStream)
    } else if is_text(&name, "_result") {
        Some(Command::Result { transaction_id })
    } else if is_text(&name, "_error") {
        Some(Command::Error { transaction_id })
    } else if is_text(&name, "onStatus") {
        match read_status_code(payload, object_at) {
            Some(code) => Some(Command::Status { code }),
            None => None,
        }
    } else {
        Some(Command::Other)
    }
}

/// The number 2.0 as it travels.
pub const NUMBER_TWO: u64 = 0x4000_0000_0000_0000;

/// The number 31.0 as it travels.
pub const NUMBER_THIRTY_ONE: u64 = 0x403F_0000_0000_0000;

/// The longest string that a string value can carry.
pub const MAX_STRING: usize = 0xFFFF;

/// The start of every command: its name and its transaction id.
pub open spec fn command_head(name: Seq<u8>, transaction_id: u64) -> Seq<u8> {
    string_value(name) + number_value(transaction_id)
}

/// A property whose value is a string.
pub open spec fn string_entry(key: Seq<u8>, value: Seq<u8>) -> Seq<u8> {
    property(key, string_value(value))
}

/// A property whose value is a number.
pub open spec fn number_entry(key: Seq<u8>, bits: u64) -> Seq<u8> {
    property(key, number_value(bits))
}

/// `connect`, with transaction id 1: the application, and the URL it is
/// reached under.
pub open spec fn connect_command(app: Seq<u8>, tc_url: Seq<u8>) -> Seq<u8> {
    command_head(text("connect"), NUMBER_ONE) + object_value(
        string_entry(text("app"), app) + string_entry(text("tcUrl"), tc_url),
    )
}

/// `createStream`, with transaction id 2.
pub open spec fn create_stream_command() -> Seq<u8> {
    command_head(text("createStream"), NUMBER_TWO) + null_value()
}

/// `publish` of a live stream.
pub open spec fn publish_command(stream_name: Seq<u8>) -> Seq<u8> {
    command_head(text("publish"), NUMBER_ZERO) + null_value() + string_value(stream_name)
        + string_value(text("live"))
}

/// `play`.
pub open spec fn play_command(stream_name: Seq<u8>) -> Seq<u8> {
    command_head(text("play"), NUMBER_ZERO) + null_value() + string_value(stream_name)
}

/// `deleteStream` of message stream 1.
pub open spec fn delete_stream_command() -> Seq<u8> {
    command_head(text("deleteStream"), NUMBER_ZERO) + null_value() + number_value(NUMBER_ONE)
}

/// The answer to `connect`: `_result` with the server's properties and the
/// status `NetConnection.Connect.Success`.
pub open spec fn connect_result(transaction_id: u64) -> Seq<u8> {
    command_head(text("_result"), transaction_id) + object_value(
        string_entry(text("fmsVer"), text("FMS/3,0,1,123")) + number_entry(
            text("capabilities"),
            NUMBER_THIRTY_ONE,
        ),
    ) + object_value(
        string_entry(text("level"), text("status")) + string_entry(
            text("code"),
            text("NetConnection.Connect.Success"),
        ) + string_entry(text("description"), text("Connection succeeded."))
            + number_entry(text("objectEncoding"), NUMBER_ZERO),
    )
}

/// The answer to `createStream`: `_result` with message stream 1.
pub open spec fn create_stream_result(transaction_id: u64) -> Seq<u8> {
    command_head(text("_result"), transaction_id) + null_value() + number_value(NUMBER_ONE)
}

/// `onStatus` with the given level (`status` or `error`) and code.
pub open spec fn status_command(level: Seq<u8>, code: Seq<u8>) -> Seq<u8> {
    command_head(text("onStatus"), NUMBER_ZERO) + null_value() + object_value(
        string_entry(text("level"), level) + string_entry(text("code"), code),
    )
}

fn put_head(out: &mut Vec<u8>, name: &str, transaction_id: u64)
    requires
        text(name).len() <= MAX_STRING,
    ensures
        final(out)@ == old(out)@ + command_head(text(name), transaction_id),
{
    put_text(out, name);
    put_number(out, transaction_id);
    assert(out@ =~= old(out)@ + command_head(text(name), transaction_id));
}

fn put_string_entry(out: &mut Vec<u8>, key: &str, value: &Vec<u8>)
    requires
        text(key).len() <= MAX_STRING,
        value.len() <= MAX_STRING,
    ensures
        final(out)@ == old(out)@ + string_entry(text(key), value@),
{
    put_key(out, key);
    put_string(out, value);
    assert(out@ =~= old(out)@ + string_entry(text(key), value@));
}

fn put_text_entry(out: &mut Vec<u8>, key: &str, value: &str)
    requires
        text(key).len() <= MAX_STRING,
        text(value).len() <= MAX_STRING,
    ensures
        final(out)@ == old(out)@ + string_entry(text(key), text(value)),
{
    put_key(out, key);
    put_text(out, value);
    assert(out@ =~= old(out)@ + string_entry(text(key), text(value)));
}

fn put_number_entry(out: &mut Vec<u8>, key: &str, bits: u64)
    requires
        text(key).len() <= MAX_STRING,
    ensures
        final(out)@ == old(out)@ + number_entry(text(key), bits),
{
    put_key(out, key);
    put_number(out, bits);
    assert(out@ =~= old(out)@ + number_entry(text(key), bits));
}

/// How long the names of the commands are.
pub proof fn lemma_name_lengths()
    ensures
        text("connect").len() == 7,
        text("createStream").len() == 12,
        text("publish").len() == 7,
        text("play").len() == 4,
        text("deleteStream").len() == 12,
        text("closeStream").len() == 11,
        text("FCUnpublish").len() == 11,
        text("_result").len() == 7,
        text("_error").len() == 6,
        text("onStatus").len() == 8,
{
    reveal_strlit("connect");
    reveal_strlit("createStream");
    reveal_strlit("publish");
    reveal_strlit("play");
    reveal_strlit("deleteStream");
    reveal_strlit("closeStream");
    reveal_strlit("FCUnpublish");
    reveal_strlit("_result");
    reveal_strlit("_error");
    reveal_strlit("onStatus");
    assert(is_ascii("connect"));
    assert(is_ascii("createStream"));
    assert(is_ascii("publish"));
    assert(is_ascii("play"));
    assert(is_ascii("deleteStream"));
    assert(is_ascii("closeStream"));
    assert(is_ascii("FCUnpublish"));
    assert(is_ascii("_result"));
    assert(is_ascii("_error"));
    assert(is_ascii("onStatus"));
}

/// How long the fixed keys and values are.
pub proof fn lemma_texts_are_short()
    ensures
        text("app").len() == 3,
        text("tcUrl").len() == 5,
        text("live").len() == 4,
        text("level").len() == 5,
        text("code").len() == 4,
        text("description").len() == 11,
        text("fmsVer").len() == 6,
        text("capabilities").len() == 12,
        text("objectEncoding").len() == 14,
        text("status").len() == 6,
        text("FMS/3,0,1,123").len() == 13,
        text("NetConnection.Connect.Success").len() == 29,
        text("Connection succeeded.").len() == 21,
{
    reveal_strlit("app");
    reveal_strlit("tcUrl");
    reveal_strlit("live");
    reveal_strlit("level");
    reveal_strlit("code");
    reveal_strlit("description");
    reveal_strlit("fmsVer");
    reveal_strlit("capabilities");
    reveal_strlit("objectEncoding");
    reveal_strlit("status");
    reveal_strlit("FMS/3,0,1,123");
    reveal_strlit("NetConnection.Connect.Success");
    reveal_strlit("Connection succeeded.");
    assert(is_ascii("app"));
    assert(is_ascii("tcUrl"));
    assert(is_ascii("live"));
    assert(is_ascii("level"));
    assert(is_ascii("code"));
    assert(is_ascii("description"));
    assert(is_ascii("fmsVer"));
    assert(is_ascii("capabilities"));
    assert(is_ascii("objectEncoding"));
    assert(is_ascii("status"));
    assert(is_ascii("FMS/3,0,1,123"));
    assert(is_ascii("NetConnection.Connect.Success"));
    assert(is_ascii("Connection succeeded."));
}

/// Builds the payload of a `connect` command.
pub(crate) fn make_connect(app: &Vec<u8>, tc_url: &Vec<u8>) -> (payload: Vec<u8>)
    requires
        app.len() <= MAX_STRING,
        tc_url.len() <= MAX_STRING,
    ensures
        payload@ == connect_command(app@, tc_url@),
{
    proof {
        lemma_name_lengths();
        lemma_texts_are_short();
    }
    let mut out: Vec<u8> = Vec::new();
    put_head(&mut out, "connect", NUMBER_ONE);
    open_object(&mut out);
    put_string_entry(&mut out, "app", app);
    put_string_entry(&mut out, "tcUrl", tc_url);
    close_object(&mut out);
    assert(out@ =~= connect_command(app@, tc_url@));
    out
}

/// Builds the payload of a `createStream` command.
pub fn make_create_stream() -> (payload: Vec<u8>)
    ensures
        payload@ == create_stream_command(),
{
    proof {
        lemma_name_lengths();
        lemma_texts_are_short();
    }
    let mut out: Vec<u8> = Vec::new();
    put_head(&mut out, "createStream", NUMBER_TWO);
    put_null(&mut out);
    assert(out@ =~= create_stream_command());
    out
}

/// Builds the payload of a `publish` command.
pub(crate) fn make_publish(stream_name: &Vec<u8>) -> (payload: Vec<u8>)
    requires
        stream_name.len() <= MAX_STRING,
    ensures
        payload@ == publish_command(stream_name@),
{
    proof {
        lemma_name_lengths();
        lemma_texts_are_short();
    }
    let mut out: Vec<u8> = Vec::new();
    put_head(&mut out, "publish", NUMBER_ZERO);
    put_null(&mut out);
    put_string(&mut out, stream_name);
    put_text(&mut out, "live");
    assert(out@ =~= publish_command(stream_name@));
    out
}

/// Builds the payload of a `play` command.
pub(crate) fn make_play(stream_name: &Vec<u8>) -> (payload: Vec<u8>)
    requires
        stream_name.len() <= MAX_STRING,
    ensures
        payload@ == play_command(stream_name@),
{
    proof {
        lemma_name_lengths();
        lemma_texts_are_short();
    }
    let mut out: Vec<u8> = Vec::new();
    put_head(&mut out, "play", NUMBER_ZERO);
    put_null(&mut out);
    put_string(&mut out, stream_name);
    assert(out@ =~= play_command(stream_name@));
    out
}

/// Builds the payload of a `deleteStream` command.
pub fn make_delete_stream() -> (payload: Vec<u8>)
    ensures
        payload@ == delete_stream_command(),
{
    proof {
        lemma_name_lengths();
        lemma_texts_are_short();
    }
    let mut out: Vec<u8> = Vec::new();
    put_head(&mut out, "deleteStream", NUMBER_ZERO);
    put_null(&mut out);
    put_number(&mut out, NUMBER_ONE);
    assert(out@ =~= delete_stream_command());
    out
}

/// Builds the payload of the answer to `connect`.
pub fn make_connect_result(transaction_id: u64) -> (payload: Vec<u8>)
    ensures
        payload@ == connect_result(transaction_id),
{
    proof {
        lemma_name_lengths();
        lemma_texts_are_short();
    }
    let mut out: Vec<u8> = Vec::new();
    put_head(&mut out, "_result", transaction_id);
    let ghost head = out@;
    open_object(&mut out);
    put_text_entry(&mut out, "fmsVer", "FMS/3,0,1,123");
    put_number_entry(&mut out, "capabilities", NUMBER_THIRTY_ONE);
    close_object(&mut out);
    let ghost first = out@;
    assert(first =~= head + object_value(
        string_entry(text("fmsVer"), text("FMS/3,0,1,123")) + number_entry(
            text("capabilities"),
            NUMBER_THIRTY_ONE,
        ),
    ));
    open_object(&mut out);
    put_text_entry(&mut out, "level", "status");
    put_text_entry(&mut out, "code", "NetConnection.Connect.Success");
    put_text_entry(&mut out, "description", "Connection succeeded.");
    put_number_entry(&mut out, "objectEncoding", NUMBER_ZERO);
    close_object(&mut out);
    assert(out@ =~= first + object_value(
        string_entry(text("level"), text("status")) + string_entry(
            text("code"),
            text("NetConnection.Connect.Success"),
        ) + string_entry(text("description"), text("Connection succeeded."))
            + number_entry(text("objectEncoding"), NUMBER_ZERO),
    ));
    out
}

/// Builds the payload of the answer to `createStream`.
pub fn make_create_stream_result(transaction_id: u64) -> (payload: Vec<u8>)
    ensures
        payload@ == create_stream_result(transaction_id),
{
    proof {
        lemma_name_lengths();
        lemma_texts_are_short();
    }
    let mut out: Vec<u8> = Vec::new();
    put_head(&mut out, "_result", transaction_id);
    put_null(&mut out);
    put_number(&mut out, NUMBER_ONE);
    assert(out@ =~= create_stream_result(transaction_id));
    out
}

/// Builds the payload of an `onStatus` command.
pub(crate) fn make_status(level: &str, code: &str) -> (payload: Vec<u8>)
    requires
        text(level).len() <= MAX_STRING,
        text(code).len() <= MAX_STRING,
    ensures
        payload@ == status_command(text(level), text(code)),
{
    proof {
        lemma_name_lengths();
        lemma_texts_are_short();
    }
    let mut out: Vec<u8> = Vec::new();
    put_head(&mut out, "onStatus", NUMBER_ZERO);
    put_null(&mut out);
    open_object(&mut out);
    put_text_entry(&mut out, "level", level);
    put_text_entry(&mut out, "code", code);
    close_object(&mut out);
    assert(out@ =~= status_command(text(level), text(code)));
    out
}

} // verus!
