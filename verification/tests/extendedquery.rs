use bytes::BytesMut;
use pgwire::messages::extendedquery::{
    Bind, BindComplete, Close, CloseComplete, Describe, Execute, Parse, ParseComplete,
    MESSAGE_TYPE_BYTE_BIND, MESSAGE_TYPE_BYTE_BIND_COMPLETE, MESSAGE_TYPE_BYTE_CLOSE,
    MESSAGE_TYPE_BYTE_CLOSE_COMPLETE, MESSAGE_TYPE_BYTE_DESCRIBE, MESSAGE_TYPE_BYTE_EXECUTE,
    MESSAGE_TYPE_BYTE_PARSE, MESSAGE_TYPE_BYTE_PARSE_COMPLETE, TARGET_TYPE_BYTE_PORTAL,
    TARGET_TYPE_BYTE_STATEMENT,
};
use pgwire::messages::Message;

fn body<M: Message>(m: &M) -> Vec<u8> {
    let mut buf = BytesMut::new();
    assert!(m.has_room(&buf));
    m.encode_body(&mut buf).unwrap();
    assert_eq!(m.body_length(), Some(buf.len()));
    buf.to_vec()
}

fn read<M: Message>(bytes: &[u8]) -> (M, Vec<u8>) {
    let mut buf = BytesMut::from(bytes);
    assert!(M::is_readable(&buf));
    let m = M::decode_body(&mut buf).unwrap();
    (m, buf.to_vec())
}

fn readable<M: Message>(bytes: &[u8]) -> bool {
    M::is_readable(&BytesMut::from(bytes))
}

/// A message is written as `bytes`, and read from them with whatever follows left in place.
fn assert_round_trip<M: Message + PartialEq + std::fmt::Debug>(m: M, bytes: &[u8]) {
    assert_eq!(body(&m), bytes.to_vec());
    let mut followed = bytes.to_vec();
    followed.extend_from_slice(&[9, 0, 8]);
    let (back, rest) = read::<M>(&followed);
    assert_eq!(back, m);
    assert_eq!(rest, vec![9, 0, 8]);
    assert_eq!(body(&back), bytes.to_vec());
}

fn some(s: &str) -> Option<String> {
    Some(s.to_owned())
}

#[test]
fn type_bytes_are_those_of_the_protocol() {
    assert_eq!(MESSAGE_TYPE_BYTE_PARSE, b'P');
    assert_eq!(MESSAGE_TYPE_BYTE_PARSE_COMPLETE, b'1');
    assert_eq!(MESSAGE_TYPE_BYTE_CLOSE, b'C');
    assert_eq!(MESSAGE_TYPE_BYTE_CLOSE_COMPLETE, b'3');
    assert_eq!(MESSAGE_TYPE_BYTE_BIND, b'B');
    assert_eq!(MESSAGE_TYPE_BYTE_BIND_COMPLETE, b'2');
    assert_eq!(MESSAGE_TYPE_BYTE_DESCRIBE, b'D');
    assert_eq!(MESSAGE_TYPE_BYTE_EXECUTE, b'E');
    assert_eq!(TARGET_TYPE_BYTE_STATEMENT, b'S');
    assert_eq!(TARGET_TYPE_BYTE_PORTAL, b'P');
    assert_eq!(Parse::message_type(), Some(b'P'));
    assert_eq!(ParseComplete::message_type(), Some(b'1'));
    assert_eq!(Close::message_type(), Some(b'C'));
    assert_eq!(CloseComplete::message_type(), Some(b'3'));
    assert_eq!(Bind::message_type(), Some(b'B'));
    assert_eq!(BindComplete::message_type(), Some(b'2'));
    assert_eq!(Describe::message_type(), Some(b'D'));
    assert_eq!(Execute::message_type(), Some(b'E'));
}

#[test]
fn parse_round_trip() {
    assert_round_trip(
        Parse::new(some("st"), "SELECT $1".to_owned(), vec![25, -1]),
        b"st\0SELECT $1\0\0\x02\0\0\0\x19\xff\xff\xff\xff",
    );
    assert_round_trip(Parse::new(None, String::new(), vec![]), b"\0\0\0\0");
}

#[test]
fn parse_length_leaves_out_the_type_count() {
    let m = Parse::new(some("st"), "SELECT $1".to_owned(), vec![25, -1]);
    assert_eq!(m.message_length(), 4 + 3 + 10 + 8);
    assert_eq!(m.message_length() + 2, 4 + body(&m).len());
}

#[test]
fn empty_name_reads_as_none() {
    let m = Parse::new(some(""), "q".to_owned(), vec![]);
    let (back, _) = read::<Parse>(&body(&m));
    assert_eq!(back, Parse::new(None, "q".to_owned(), vec![]));
}

#[test]
fn zero_character_ends_a_string() {
    let m = Execute::new(some("a\0b"), 0);
    let (back, rest) = read::<Execute>(&body(&m));
    assert_eq!(back, Execute::new(some("a"), 0x6200_0000));
    assert_eq!(rest, vec![0, 0]);
}

#[test]
fn invalid_utf8_is_replaced() {
    let (m, _) = read::<Execute>(b"a\xffb\0\0\0\0\x01");
    assert_eq!(m, Execute::new(some("a\u{fffd}b"), 1));
    assert_eq!(body(&m), b"a\xef\xbf\xbdb\0\0\0\0\x01".to_vec());
}

#[test]
fn names_are_utf8() {
    assert_round_trip(
        Execute::new(some("h\u{e9}\u{1f980}"), i32::MIN),
        b"h\xc3\xa9\xf0\x9f\xa6\x80\0\x80\0\0\0",
    );
}

#[test]
fn unreadable_parse_bodies() {
    assert!(!readable::<Parse>(b""));
    assert!(!readable::<Parse>(b"name"));
    assert!(!readable::<Parse>(b"name\0query"));
    assert!(!readable::<Parse>(b"name\0query\0"));
    assert!(!readable::<Parse>(b"name\0query\0\0"));
    assert!(readable::<Parse>(b"name\0query\0\0\0"));
    assert!(!readable::<Parse>(b"name\0query\0\0\x01\0\0\0"));
    assert!(readable::<Parse>(b"name\0query\0\0\x01\0\0\0\x17"));
    assert!(!readable::<Parse>(b"name\0query\0\xff\xff"));
}

#[test]
fn item_count_wraps() {
    let m = Parse::new(None, String::new(), vec![0; 0x1_0001]);
    let bytes = body(&m);
    assert_eq!(bytes.len(), 4 + 4 * 0x1_0001);
    assert_eq!(&bytes[..4], &[0u8, 0, 0, 1][..]);
    let (back, _) = read::<Parse>(&bytes);
    assert_eq!(back, Parse::new(None, String::new(), vec![0]));
}

#[test]
fn empty_messages() {
    assert_round_trip(ParseComplete::new(), b"");
    assert_round_trip(CloseComplete::new(), b"");
    assert_round_trip(BindComplete::new(), b"");
    assert_eq!(ParseComplete::new().message_length(), 4);
    assert_eq!(CloseComplete::new().message_length(), 4);
    assert_eq!(BindComplete::new().message_length(), 4);
}

#[test]
fn close_round_trip() {
    assert_round_trip(Close::new(TARGET_TYPE_BYTE_STATEMENT, some("st")), b"Sst\0");
    assert_round_trip(Close::new(TARGET_TYPE_BYTE_PORTAL, None), b"P\0");
    assert!(!readable::<Close>(b""));
    assert!(!readable::<Close>(b"Sst"));
}

#[test]
fn describe_round_trip() {
    assert_round_trip(Describe::new(TARGET_TYPE_BYTE_PORTAL, some("p")), b"Pp\0");
    assert_round_trip(Describe::new(TARGET_TYPE_BYTE_STATEMENT, None), b"S\0");
    assert!(!readable::<Describe>(b""));
    assert!(!readable::<Describe>(b"P"));
}

#[test]
fn execute_round_trip() {
    assert_round_trip(Execute::new(some("p"), 7), b"p\0\0\0\0\x07");
    assert_round_trip(Execute::new(None, -2), b"\0\xff\xff\xff\xfe");
    assert!(!readable::<Execute>(b"p\0\0\0\0"));
    assert!(!readable::<Execute>(b"p"));
}

#[test]
fn bind_round_trip() {
    assert_round_trip(
        Bind::new(
            some("po"),
            some("st"),
            vec![0, 1],
            vec![Some(vec![7, 8, 9]), None, Some(vec![])],
            vec![-1],
        ),
        b"po\0st\0\0\x02\0\0\0\x01\0\x03\0\0\0\x03\x07\x08\x09\xff\xff\xff\xff\0\0\0\0\0\x01\xff\xff",
    );
    assert_round_trip(Bind::new(None, None, vec![], vec![], vec![]), b"\0\0\0\0\0\0\0\0");
}

#[test]
fn any_negative_field_length_is_null() {
    let bytes = b"\0\0\0\0\0\x01\xff\xff\xff\xfe\0\0";
    let (m, rest) = read::<Bind>(bytes);
    assert_eq!(m, Bind::new(None, None, vec![], vec![None], vec![]));
    assert!(rest.is_empty());
    assert_eq!(body(&m), b"\0\0\0\0\0\x01\xff\xff\xff\xff\0\0".to_vec());
}

#[test]
fn unreadable_bind_bodies() {
    assert!(!readable::<Bind>(b"\0"));
    assert!(!readable::<Bind>(b"\0\0"));
    assert!(!readable::<Bind>(b"\0\0\0\0"));
    assert!(!readable::<Bind>(b"\0\0\0\0\0\0"));
    assert!(readable::<Bind>(b"\0\0\0\0\0\0\0\0"));
    assert!(!readable::<Bind>(b"\0\0\xff\xff\0\0\0\0"));
    assert!(!readable::<Bind>(b"\0\0\0\0\xff\xff\0\0"));
    assert!(!readable::<Bind>(b"\0\0\0\0\0\x01\0\0\0\x03\x01\x02"));
    assert!(!readable::<Bind>(b"\0\0\0\0\0\x01\0\0\0\x03\x01\x02\x03"));
    assert!(readable::<Bind>(b"\0\0\0\0\0\x01\0\0\0\x03\x01\x02\x03\0\0"));
}

#[test]
fn announced_lengths_count_the_body() {
    let close = Close::new(b'S', some("st"));
    assert_eq!(close.message_length(), 8);
    assert_eq!(close.message_length(), 4 + body(&close).len());
    let describe = Describe::new(b'P', None);
    assert_eq!(describe.message_length(), 6);
    assert_eq!(describe.message_length(), 4 + body(&describe).len());
    let execute = Execute::new(some("p"), 7);
    assert_eq!(execute.message_length(), 10);
    assert_eq!(execute.message_length(), 4 + body(&execute).len());
    let bind = Bind::new(some("p"), None, vec![0], vec![Some(vec![1, 2]), None], vec![1, 1]);
    assert_eq!(bind.message_length(), 4 + 2 + 1 + 2 + 2 + 2 + (4 + 2) + 4 + 2 + 4);
    assert_eq!(bind.message_length(), 4 + body(&bind).len());
}

#[test]
fn bodies_are_appended() {
    let mut buf = BytesMut::new();
    Close::new(b'S', some("a")).encode_body(&mut buf).unwrap();
    Execute::new(None, 1).encode_body(&mut buf).unwrap();
    assert_eq!(&buf[..], &b"Sa\0\0\0\0\0\x01"[..]);
}

#[test]
fn fields_can_be_read_and_replaced() {
    let mut parse = Parse::new(None, "a".to_owned(), vec![1]);
    parse.set_name(some("n")).set_query("b".to_owned()).set_type_oids(vec![2]);
    assert_eq!(parse, Parse::new(some("n"), "b".to_owned(), vec![2]));
    *parse.name_mut() = None;
    parse.query_mut().push('c');
    parse.type_oids_mut().push(3);
    assert_eq!(parse.name(), &None);
    assert_eq!(parse.query(), "bc");
    assert_eq!(parse.type_oids(), &vec![2, 3]);

    let mut close = Close::new(b'S', None);
    close.set_target_type(b'P').set_name(some("x"));
    assert_eq!((close.target_type(), close.name()), (&b'P', &some("x")));
    *close.target_type_mut() = b'S';
    *close.name_mut() = None;
    assert_eq!(close, Close::new(b'S', None));

    let mut describe = Describe::new(b'S', None);
    describe.set_target_type(b'P').set_name(some("x"));
    assert_eq!((describe.target_type(), describe.name()), (&b'P', &some("x")));
    *describe.target_type_mut() = b'S';
    *describe.name_mut() = None;
    assert_eq!(describe, Describe::new(b'S', None));

    let mut execute = Execute::new(None, 1);
    execute.set_name(some("x")).set_max_rows(2);
    assert_eq!((execute.name(), execute.max_rows()), (&some("x"), &2));
    *execute.name_mut() = None;
    *execute.max_rows_mut() = 3;
    assert_eq!(execute, Execute::new(None, 3));

    let mut bind = Bind::new(None, None, vec![], vec![], vec![]);
    bind.set_portal_name(some("p"))
        .set_statement_name(some("s"))
        .set_parameter_format_codes(vec![1])
        .set_parameters(vec![None])
        .set_result_column_format_codes(vec![2]);
    assert_eq!(bind.portal_name(), &some("p"));
    assert_eq!(bind.statement_name(), &some("s"));
    assert_eq!(bind.parameter_format_codes(), &vec![1]);
    assert_eq!(bind.parameters(), &vec![None]);
    assert_eq!(bind.result_column_format_codes(), &vec![2]);
    *bind.portal_name_mut() = None;
    *bind.statement_name_mut() = None;
    bind.parameter_format_codes_mut().push(3);
    bind.parameters_mut().push(Some(vec![1]));
    bind.result_column_format_codes_mut().clear();
    assert_eq!(bind, Bind::new(None, None, vec![1, 3], vec![None, Some(vec![1])], vec![]));
}
