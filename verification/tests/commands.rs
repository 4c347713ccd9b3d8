use xiu::amf0::{find_value_end, read_string, read_string_property};
use xiu::command::{
    make_connect_result, make_create_stream, make_create_stream_result, make_delete_stream,
    parse_command, Command,
};

fn string(s: &str) -> Vec<u8> {
    let mut v = vec![0x02, (s.len() >> 8) as u8, s.len() as u8];
    v.extend_from_slice(s.as_bytes());
    v
}

fn number(x: f64) -> Vec<u8> {
    let mut v = vec![0x00];
    v.extend_from_slice(&x.to_be_bytes());
    v
}

fn key(s: &str) -> Vec<u8> {
    let mut v = vec![(s.len() >> 8) as u8, s.len() as u8];
    v.extend_from_slice(s.as_bytes());
    v
}

fn object(properties: &[(&str, Vec<u8>)]) -> Vec<u8> {
    let mut v = vec![0x03];
    for (k, value) in properties {
        v.extend(key(k));
        v.extend(value.clone());
    }
    v.extend([0, 0, 9]);
    v
}

fn join(parts: &[Vec<u8>]) -> Vec<u8> {
    parts.concat()
}

#[test]
fn connect_is_read_with_its_application() {
    let payload = join(&[
        string("connect"),
        number(1.0),
        object(&[
            ("flashVer", string("FMLE/3.0")),
            ("capabilities", number(239.0)),
            ("fpad", vec![0x01, 0x00]),
            ("nested", object(&[("app", string("decoy")), ("n", vec![0x05])])),
            ("app", string("live")),
            ("tcUrl", string("rtmp://example/live")),
        ]),
    ]);
    assert_eq!(
        parse_command(&payload),
        Some(Command::Connect { transaction_id: 1.0f64.to_bits(), app: b"live".to_vec() })
    );
}

#[test]
fn connect_without_an_application_is_no_command() {
    let payload = join(&[string("connect"), number(1.0), object(&[("tcUrl", string("x"))])]);
    assert_eq!(parse_command(&payload), None);
    let null_object = join(&[string("connect"), number(1.0), vec![0x05]]);
    assert_eq!(parse_command(&null_object), None);
    let number_app = join(&[string("connect"), number(1.0), object(&[("app", number(3.0))])]);
    assert_eq!(parse_command(&number_app), None);
}

#[test]
fn publish_and_play_are_read_with_their_stream_names() {
    let publish =
        join(&[string("publish"), number(5.0), vec![0x05], string("cam1"), string("live")]);
    assert_eq!(parse_command(&publish), Some(Command::Publish { stream_name: b"cam1".to_vec() }));
    let play = join(&[string("play"), number(0.0), vec![0x05], string("cam1")]);
    assert_eq!(parse_command(&play), Some(Command::Play { stream_name: b"cam1".to_vec() }));
    let after_object = join(&[
        string("play"),
        number(0.0),
        object(&[("a", object(&[("b", vec![0x06])]))]),
        string("deep"),
    ]);
    assert_eq!(parse_command(&after_object), Some(Command::Play { stream_name: b"deep".to_vec() }));
    let nameless = join(&[string("publish"), number(5.0), vec![0x05]]);
    assert_eq!(parse_command(&nameless), None);
    let number_name = join(&[string("play"), number(0.0), vec![0x05], number(1.0)]);
    assert_eq!(parse_command(&number_name), None);
}

#[test]
fn other_commands_are_told_apart() {
    let create = join(&[string("createStream"), number(4.0), vec![0x05]]);
    assert_eq!(
        parse_command(&create),
        Some(Command::CreateStream { transaction_id: 4.0f64.to_bits() })
    );
    for name in ["deleteStream", "closeStream", "FCUnpublish"] {
        let payload = join(&[string(name), number(0.0), vec![0x05], number(1.0)]);
        assert_eq!(parse_command(&payload), Some(Command::DeleteStream));
    }
    let result = join(&[string("_result"), number(2.0), vec![0x05], number(1.0)]);
    assert_eq!(parse_command(&result), Some(Command::Result { transaction_id: 2.0f64.to_bits() }));
    let error = join(&[string("_error"), number(2.0), vec![0x05]]);
    assert_eq!(parse_command(&error), Some(Command::Error { transaction_id: 2.0f64.to_bits() }));
    let other = join(&[string("releaseStream"), number(2.0), vec![0x05], string("x")]);
    assert_eq!(parse_command(&other), Some(Command::Other));
}

#[test]
fn status_is_read_with_its_code() {
    let payload = join(&[
        string("onStatus"),
        number(0.0),
        vec![0x05],
        object(&[
            ("level", string("status")),
            ("code", string("NetStream.Play.Start")),
            ("description", string("go")),
        ]),
    ]);
    assert_eq!(
        parse_command(&payload),
        Some(Command::Status { code: b"NetStream.Play.Start".to_vec() })
    );
    let codeless =
        join(&[string("onStatus"), number(0.0), vec![0x05], object(&[("level", string("x"))])]);
    assert_eq!(parse_command(&codeless), None);
}

#[test]
fn what_is_no_command_is_refused() {
    assert_eq!(parse_command(&Vec::new()), None);
    assert_eq!(parse_command(&number(1.0)), None);
    assert_eq!(parse_command(&string("connect")), None);
    assert_eq!(parse_command(&join(&[string("connect"), string("x")])), None);
    let mut cut = join(&[string("createStream"), number(4.0)]);
    cut.pop();
    assert_eq!(parse_command(&cut), None);
    // a string whose length field runs past the end
    assert_eq!(parse_command(&vec![0x02, 0x00, 0x09, b'c', b'o']), None);
}

#[test]
fn the_answers_this_server_builds_are_read_back() {
    let bits = 7.0f64.to_bits();
    assert_eq!(
        parse_command(&make_connect_result(bits)),
        Some(Command::Result { transaction_id: bits })
    );
    assert_eq!(
        parse_command(&make_create_stream_result(bits)),
        Some(Command::Result { transaction_id: bits })
    );
    assert_eq!(
        parse_command(&make_create_stream()),
        Some(Command::CreateStream { transaction_id: 2.0f64.to_bits() })
    );
    assert_eq!(parse_command(&make_delete_stream()), Some(Command::DeleteStream));
}

#[test]
fn create_stream_result_has_the_expected_bytes() {
    let expected = join(&[string("_result"), number(3.0), vec![0x05], number(1.0)]);
    assert_eq!(make_create_stream_result(3.0f64.to_bits()), expected);
    let expected = join(&[string("createStream"), number(2.0), vec![0x05]]);
    assert_eq!(make_create_stream(), expected);
}

#[test]
fn connect_result_has_the_expected_bytes() {
    let expected = join(&[
        string("_result"),
        number(1.0),
        object(&[("fmsVer", string("FMS/3,0,1,123")), ("capabilities", number(31.0))]),
        object(&[
            ("level", string("status")),
            ("code", string("NetConnection.Connect.Success")),
            ("description", string("Connection succeeded.")),
            ("objectEncoding", number(0.0)),
        ]),
    ]);
    assert_eq!(make_connect_result(1.0f64.to_bits()), expected);
}

#[test]
fn values_are_skipped_by_kind() {
    let cases: Vec<(Vec<u8>, Option<usize>)> = vec![
        (number(1.5), Some(9)),
        (vec![0x01, 0x01], Some(2)),
        (string("abc"), Some(6)),
        (vec![0x05], Some(1)),
        (vec![0x06], Some(1)),
        (object(&[]), Some(4)),
        (object(&[("k", number(0.0))]), Some(1 + 3 + 9 + 3)),
        (vec![0x08, 0, 0, 0, 1, 0, 1, b'k', 0x05, 0, 0, 9], Some(12)),
        (vec![0x0A, 0, 0, 0, 2, 0x05, 0x01, 0x00], Some(8)),
        (vec![0x0A, 0, 0, 0, 2, 0x05], None),
        (vec![0x0B, 0, 0, 0, 0, 0, 0, 0, 0, 0, 0], Some(11)),
        (vec![0x0C, 0, 0, 0, 2, b'a', b'b'], Some(7)),
        (vec![0x0C, 0, 0, 0, 3, b'a', b'b'], None),
        (vec![0x07, 0, 1], None),
        (vec![0x00, 1, 2, 3], None),
        (vec![0x03, 0, 1, b'k'], None),
        (Vec::new(), None),
    ];
    for (bytes, end) in cases {
        assert_eq!(find_value_end(&bytes, 0, 16), end, "for {:?}", bytes);
    }
}

#[test]
fn nesting_is_limited() {
    let mut deep = vec![0x05];
    for _ in 0..16 {
        deep = object(&[("k", deep)]);
    }
    assert_eq!(find_value_end(&deep, 0, 16), Some(deep.len()));
    let deeper = object(&[("k", deep)]);
    assert_eq!(find_value_end(&deeper, 0, 16), None);
    assert_eq!(find_value_end(&object(&[]), 0, 0), None);
}

#[test]
fn strings_and_properties_are_read() {
    let s = string("hello");
    assert_eq!(read_string(&s, 0), Some(b"hello".to_vec()));
    assert_eq!(read_string(&s, 1), None);
    assert_eq!(read_string(&string(""), 0), Some(Vec::new()));
    let o = object(&[("a", number(1.0)), ("b", string("x")), ("b", string("y"))]);
    assert_eq!(read_string_property(&o, 1, "b", 15), Some(b"x".to_vec()));
    assert_eq!(read_string_property(&o, 1, "a", 15), None);
    assert_eq!(read_string_property(&o, 1, "c", 15), None);
}
