use fourth::servers::protocol::tls::{
    collect_decoded, collect_extension_names, collect_message_names, get_sni, Extension, Message,
};

const BUF: [u8; 517] = [
    0x16, 0x03, 0x01, 0x02, 0x00, 0x01, 0x00, 0x01, 0xfc, 0x03, 0x03, 0x35, 0x7a, 0xba,
    0x3d, 0x89, 0xd2, 0x5e, 0x7a, 0xa2, 0xd4, 0xe5, 0x6d, 0xd5, 0xa3, 0x98, 0x41, 0xb0,
    0xae, 0x41, 0xfc, 0xe6, 0x64, 0xfd, 0xae, 0x0b, 0x27, 0x6d, 0x90, 0xa8, 0x0a, 0xfa,
    0x90, 0x20, 0x59, 0x6f, 0x13, 0x18, 0x4a, 0xd1, 0x1c, 0xc4, 0x83, 0x8c, 0xfc, 0x93,
    0xac, 0x6b, 0x3b, 0xac, 0x67, 0xd0, 0x36, 0xb0, 0xa2, 0x1b, 0x04, 0xf7, 0xde, 0x02,
    0xfb, 0x96, 0x1e, 0xdc, 0x76, 0xa8, 0x00, 0x20, 0x2a, 0x2a, 0x13, 0x01, 0x13, 0x02,
    0x13, 0x03, 0xc0, 0x2b, 0xc0, 0x2f, 0xc0, 0x2c, 0xc0, 0x30, 0xcc, 0xa9, 0xcc, 0xa8,
    0xc0, 0x13, 0xc0, 0x14, 0x00, 0x9c, 0x00, 0x9d, 0x00, 0x2f, 0x00, 0x35, 0x01, 0x00,
    0x01, 0x93, 0xea, 0xea, 0x00, 0x00, 0x00, 0x00, 0x00, 0x13, 0x00, 0x11, 0x00, 0x00,
    0x0e, 0x77, 0x77, 0x77, 0x2e, 0x6c, 0x69, 0x72, 0x75, 0x69, 0x2e, 0x74, 0x65, 0x63,
    0x68, 0x00, 0x17, 0x00, 0x00, 0xff, 0x01, 0x00, 0x01, 0x00, 0x00, 0x0a, 0x00, 0x0a,
    0x00, 0x08, 0xba, 0xba, 0x00, 0x1d, 0x00, 0x17, 0x00, 0x18, 0x00, 0x0b, 0x00, 0x02,
    0x01, 0x00, 0x00, 0x23, 0x00, 0x00, 0x00, 0x10, 0x00, 0x0e, 0x00, 0x0c, 0x02, 0x68,
    0x32, 0x08, 0x68, 0x74, 0x74, 0x70, 0x2f, 0x31, 0x2e, 0x31, 0x00, 0x05, 0x00, 0x05,
    0x01, 0x00, 0x00, 0x00, 0x00, 0x00, 0x0d, 0x00, 0x12, 0x00, 0x10, 0x04, 0x03, 0x08,
    0x04, 0x04, 0x01, 0x05, 0x03, 0x08, 0x05, 0x05, 0x01, 0x08, 0x06, 0x06, 0x01, 0x00,
    0x12, 0x00, 0x00, 0x00, 0x33, 0x00, 0x2b, 0x00, 0x29, 0xba, 0xba, 0x00, 0x01, 0x00,
    0x00, 0x1d, 0x00, 0x20, 0x3b, 0x45, 0xf9, 0xbc, 0x6e, 0x23, 0x86, 0x41, 0xa5, 0xb2,
    0xf5, 0x03, 0xec, 0x67, 0x4a, 0xd7, 0x9a, 0x17, 0x9f, 0x0c, 0x38, 0x6d, 0x36, 0xf3,
    0x4e, 0x5d, 0xa4, 0x7d, 0x15, 0x79, 0xa4, 0x3f, 0x00, 0x2d, 0x00, 0x02, 0x01, 0x01,
    0x00, 0x2b, 0x00, 0x0b, 0x0a, 0xba, 0xba, 0x03, 0x04, 0x03, 0x03, 0x03, 0x02, 0x03,
    0x01, 0x00, 0x1b, 0x00, 0x03, 0x02, 0x00, 0x02, 0x44, 0x69, 0x00, 0x05, 0x00, 0x03,
    0x02, 0x68, 0x32, 0xda, 0xda, 0x00, 0x01, 0x00, 0x00, 0x15, 0x00, 0xc5, 0x00, 0x00,
    0x00, 0x00, 0x00, 0x00, 0x00, 0x00, 0x00, 0x00, 0x00, 0x00, 0x00, 0x00, 0x00, 0x00,
    0x00, 0x00, 0x00, 0x00, 0x00, 0x00, 0x00, 0x00, 0x00, 0x00, 0x00, 0x00, 0x00, 0x00,
    0x00, 0x00, 0x00, 0x00, 0x00, 0x00, 0x00, 0x00, 0x00, 0x00, 0x00, 0x00, 0x00, 0x00,
    0x00, 0x00, 0x00, 0x00, 0x00, 0x00, 0x00, 0x00, 0x00, 0x00, 0x00, 0x00, 0x00, 0x00,
    0x00, 0x00, 0x00, 0x00, 0x00, 0x00, 0x00, 0x00, 0x00, 0x00, 0x00, 0x00, 0x00, 0x00,
    0x00, 0x00, 0x00, 0x00, 0x00, 0x00, 0x00, 0x00, 0x00, 0x00, 0x00, 0x00, 0x00, 0x00,
    0x00, 0x00, 0x00, 0x00, 0x00, 0x00, 0x00, 0x00, 0x00, 0x00, 0x00, 0x00, 0x00, 0x00,
    0x00, 0x00, 0x00, 0x00, 0x00, 0x00, 0x00, 0x00, 0x00, 0x00, 0x00, 0x00, 0x00, 0x00,
    0x00, 0x00, 0x00, 0x00, 0x00, 0x00, 0x00, 0x00, 0x00, 0x00, 0x00, 0x00, 0x00, 0x00,
    0x00, 0x00, 0x00, 0x00, 0x00, 0x00, 0x00, 0x00, 0x00, 0x00, 0x00, 0x00, 0x00, 0x00,
    0x00, 0x00, 0x00, 0x00, 0x00, 0x00, 0x00, 0x00, 0x00, 0x00, 0x00, 0x00, 0x00, 0x00,
    0x00, 0x00, 0x00, 0x00, 0x00, 0x00, 0x00, 0x00, 0x00, 0x00, 0x00, 0x00, 0x00, 0x00,
    0x00, 0x00, 0x00, 0x00, 0x00, 0x00, 0x00, 0x00, 0x00, 0x00, 0x00, 0x00, 0x00, 0x00,
    0x00, 0x00, 0x00, 0x00, 0x00, 0x00, 0x00, 0x00, 0x00, 0x00, 0x00, 0x00, 0x00,
];

#[test]
fn test_sni_extract() {
    let sni = get_sni(&BUF);
    assert!(sni[0] == "www.lirui.tech".to_string());
}

#[test]
fn client_hello_announces_exactly_one_name() {
    assert_eq!(get_sni(&BUF), vec!["www.lirui.tech".to_string()]);
}

#[test]
fn padding_behind_the_record_is_not_read() {
    let mut peeked = vec![0u8; 1024];
    peeked[..517].copy_from_slice(&BUF);
    assert_eq!(get_sni(&peeked), vec!["www.lirui.tech".to_string()]);
}

#[test]
fn short_and_empty_buffers_give_no_names() {
    assert!(get_sni(&[]).is_empty());
    assert!(get_sni(&[0x16]).is_empty());
    assert!(get_sni(&[0x16, 0x03, 0x01, 0x02]).is_empty());
    assert!(get_sni(&BUF[..5]).is_empty());
    assert!(get_sni(&BUF[..516]).is_empty());
    assert!(get_sni(&BUF[..100]).is_empty());
}

#[test]
fn bytes_that_are_no_handshake_give_no_names() {
    assert!(get_sni(&[0u8; 1024]).is_empty());
    assert!(get_sni(b"GET / HTTP/1.1\r\nHost: www.lirui.tech\r\n\r\n").is_empty());
    let mut alert = BUF;
    alert[0] = 0x15;
    assert!(get_sni(&alert).is_empty());
    let mut server_hello = BUF;
    server_hello[5] = 0x02;
    assert!(get_sni(&server_hello).is_empty());
}

#[test]
fn oversized_record_length_gives_no_names() {
    let mut long = vec![0u8; 5 + 0x4001];
    long[0] = 0x16;
    long[1] = 0x03;
    long[2] = 0x01;
    long[3] = 0x40;
    long[4] = 0x01;
    assert!(get_sni(&long).is_empty());
}

fn extension_block(names: &[&[u8]]) -> Vec<u8> {
    let mut list = Vec::new();
    for name in names {
        list.push(0u8);
        list.extend_from_slice(&(name.len() as u16).to_be_bytes());
        list.extend_from_slice(name);
    }
    let mut block = vec![0u8, 0u8];
    block.extend_from_slice(&((list.len() + 2) as u16).to_be_bytes());
    block.extend_from_slice(&(list.len() as u16).to_be_bytes());
    block.extend_from_slice(&list);
    block
}

fn client_hello(extensions: &[u8]) -> Vec<u8> {
    let mut hello = vec![0x03, 0x03];
    hello.extend_from_slice(&[0u8; 32]);
    hello.push(0);
    hello.extend_from_slice(&[0x00, 0x02, 0x13, 0x01]);
    hello.extend_from_slice(&[0x01, 0x00]);
    hello.extend_from_slice(&(extensions.len() as u16).to_be_bytes());
    hello.extend_from_slice(extensions);
    let mut message = vec![0x01, 0x00];
    message.extend_from_slice(&(hello.len() as u16).to_be_bytes());
    message.extend_from_slice(&hello);
    let mut record = vec![0x16, 0x03, 0x01];
    record.extend_from_slice(&(message.len() as u16).to_be_bytes());
    record.extend_from_slice(&message);
    record
}

#[test]
fn names_keep_their_order() {
    let record = client_hello(&extension_block(&[b"a", b"b"]));
    assert_eq!(get_sni(&record), vec!["a".to_string(), "b".to_string()]);
    let record = client_hello(&extension_block(&[b"b", b"a"]));
    assert_eq!(get_sni(&record), vec!["b".to_string(), "a".to_string()]);
}

#[test]
fn malformed_names_are_left_out_and_the_rest_kept() {
    let record = client_hello(&extension_block(&[b"first", &[0xff, 0xfe], b"last"]));
    assert_eq!(get_sni(&record), vec!["first".to_string(), "last".to_string()]);
}

#[test]
fn names_are_decoded_as_utf8() {
    let record = client_hello(&extension_block(&["b\u{fc}cher.example".as_bytes()]));
    assert_eq!(get_sni(&record), vec!["b\u{fc}cher.example".to_string()]);
}

#[test]
fn hello_without_server_name_gives_no_names() {
    assert!(get_sni(&client_hello(&[])).is_empty());
    let other = [0x00, 0x17, 0x00, 0x00];
    assert!(get_sni(&client_hello(&other)).is_empty());
}

#[test]
fn collect_decoded_appends_valid_names() {
    let entries = vec![(0u8, b"one".to_vec()), (0u8, vec![0xc3]), (7u8, b"two".to_vec())];
    let mut names = vec!["zero".to_string()];
    collect_decoded(&entries, &mut names);
    assert_eq!(names, vec!["zero".to_string(), "one".to_string(), "two".to_string()]);
}

#[test]
fn collect_extension_names_skips_other_extensions() {
    let extensions = vec![
        Extension::Other,
        Extension::ServerName(vec![(0, b"a".to_vec())]),
        Extension::Other,
        Extension::ServerName(vec![(0, b"b".to_vec()), (0, b"c".to_vec())]),
    ];
    let mut names = Vec::new();
    collect_extension_names(&extensions, &mut names);
    assert_eq!(names, vec!["a".to_string(), "b".to_string(), "c".to_string()]);
}

#[test]
fn collect_message_names_reads_every_client_hello() {
    let messages = vec![
        Message::Other,
        Message::ClientHello { extensions: Some(extension_block(&[b"x"])) },
        Message::ClientHello { extensions: None },
        Message::ClientHello { extensions: Some(extension_block(&[b"y"])) },
    ];
    let mut names = Vec::new();
    collect_message_names(&messages, &mut names);
    assert_eq!(names, vec!["x".to_string(), "y".to_string()]);
}
