//! Reading the server names out of the first bytes of a TLS connection.

use crate::names::viewed;
use tls_parser::{
    TlsExtension, TlsMessage, TlsMessageHandshake, TlsRecordHeader, TlsRecordType, TlsVersion,
};
use vstd::prelude::*;
use vstd::utf8::{decode_utf8, valid_utf8};

verus! {

/// The five bytes in front of every TLS record.
#[derive(Debug, Clone, Copy)]
pub struct RecordHeader {
    pub record_type: u8,
    pub version: u16,
    pub len: u16,
}

/// One TLS record: its header and the bytes the header announces.
#[derive(Debug)]
pub struct RawRecord {
    pub header: RecordHeader,
    pub data: Vec<u8>,
}

impl View for RawRecord {
    type V = (RecordHeader, Seq<u8>);

    open spec fn view(&self) -> (RecordHeader, Seq<u8>) {
        (self.header, self.data@)
    }
}

/// The longest payload a TLS record may announce.
pub open spec fn max_record_len() -> int {
    16384
}

/// The number that two bytes write, the first being the high one.
pub open spec fn be16(high: u8, low: u8) -> u16 {
    (high as int * 256 + low as int) as u16
}

/// The record at the front of `buf`: present when `buf` holds a whole
/// header, the header announces no more than [`max_record_len`] bytes,
/// and `buf` holds that many after the header.
pub open spec fn raw_record(buf: Seq<u8>) -> Option<(RecordHeader, Seq<u8>)> {
    if buf.len() < 5 {
        None
    } else {
        let len = be16(buf[3], buf[4]);
        if len > max_record_len() || buf.len() < 5 + len {
            None
        } else {
            Some(
                (
                    RecordHeader { record_type: buf[0], version: be16(buf[1], buf[2]), len },
                    buf.subrange(5, 5 + len),
                ),
            )
        }
    }
}

/// Calls `tls_parser::parse_tls_raw_record`, which reads the type, the
/// version and the length, refuses a length above 2^14, and takes that
/// many bytes; any failure, an incomplete record too, gives `None`.
#[verifier::external_body]
fn parse_raw_record(buf: &[u8]) -> (record: Option<RawRecord>)
    ensures
        viewed(record) == raw_record(buf@),
{
    match tls_parser::parse_tls_raw_record(buf) {
        Ok((_, record)) => Some(
            RawRecord {
                header: RecordHeader {
                    record_type: record.hdr.record_type.0,
                    version: record.hdr.version.0,
                    len: record.hdr.len,
                },
                data: record.data.to_vec(),
            },
        ),
        Err(_) => None,
    }
}

/// A message inside a TLS record, as far as routing reads it.
#[derive(Debug)]
pub enum Message {
    /// A ClientHello, with its extension block where it has one.
    ClientHello { extensions: Option<Vec<u8>> },
    /// Anything else.
    Other,
}

/// What a [`Message`] stands for.
pub enum MessageView {
    ClientHello { extensions: Option<Seq<u8>> },
    Other,
}

impl DeepView for Message {
    type V = MessageView;

    open spec fn deep_view(&self) -> MessageView {
        match self {
            Message::ClientHello { extensions } => MessageView::ClientHello {
                extensions: viewed(*extensions),
            },
            Message::Other => MessageView::Other,
        }
    }
}

/// The messages that `tls_parser::parse_tls_record_with_header` finds in
/// the payload `data` of a record with the given header fields, or `None`
/// where it fails.
pub uninterp spec fn record_messages(data: Seq<u8>, record_type: u8, version: u16, len: u16)
    -> Option<Seq<MessageView>>;

/// Calls `tls_parser::parse_tls_record_with_header` and keeps of each
/// message whether it is a ClientHello and, if so, its extension block.
/// The contract only gives the outcome its name, [`record_messages`].
#[verifier::external_body]
fn parse_record_messages(data: &[u8], header: &RecordHeader) -> (messages: Option<Vec<Message>>)
    ensures
        match messages {
            Some(list) => record_messages(data@, header.record_type, header.version, header.len)
                == Some(list.deep_view()),
            None => record_messages(data@, header.record_type, header.version, header.len)
                is None,
        },
{
    let hdr = TlsRecordHeader {
        record_type: TlsRecordType(header.record_type),
        version: TlsVersion(header.version),
        len: header.len,
    };
    let list = tls_parser::parse_tls_record_with_header(data, &hdr).ok()?.1;
    let keep = |message| match message {
        TlsMessage::Handshake(TlsMessageHandshake::ClientHello(hello)) => Message::ClientHello {
            extensions: hello.ext.map(|bytes| bytes.to_vec()),
        },
        _ => Message::Other,
    };
    Some(list.into_iter().map(keep).collect())
}

/// A ClientHello extension, as far as routing reads it.
#[derive(Debug)]
pub enum Extension {
    /// The server name extension: each entry is a name type and the bytes
    /// of the name.
    ServerName(Vec<(u8, Vec<u8>)>),
    /// Anything else.
    Other,
}

/// What an [`Extension`] stands for.
pub enum ExtensionView {
    ServerName(Seq<(u8, Seq<u8>)>),
    Other,
}

impl DeepView for Extension {
    type V = ExtensionView;

    open spec fn deep_view(&self) -> ExtensionView {
        match self {
            Extension::ServerName(entries) => ExtensionView::ServerName(entries.deep_view()),
            Extension::Other => ExtensionView::Other,
        }
    }
}

/// The extensions that `tls_parser::parse_tls_extensions` finds in an
/// extension block, or `None` where it fails.
pub uninterp spec fn tls_extensions(block: Seq<u8>) -> Option<Seq<ExtensionView>>;

/// Calls `tls_parser::parse_tls_extensions` and keeps of each extension
/// whether it is the server name extension and, if so, its entries. The
/// contract only gives the outcome its name, [`tls_extensions`].
#[verifier::external_body]
fn parse_extensions(block: &[u8]) -> (extensions: Option<Vec<Extension>>)
    ensures
        match extensions {
            Some(list) => tls_extensions(block@) == Some(list.deep_view()),
            None => tls_extensions(block@) is None,
        },
{
    let list = tls_parser::parse_tls_extensions(block).ok()?.1;
    let keep = |extension| match extension {
        TlsExtension::SNI(entries) => Extension::ServerName(
            entries.into_iter().map(|(kind, name)| (kind.0, name.to_vec())).collect(),
        ),
        _ => Extension::Other,
    };
    Some(list.into_iter().map(keep).collect())
}

/// Calls `String::from_utf8`, which gives the text that `bytes` encode
/// where they are valid UTF-8 and fails otherwise.
#[verifier::external_body]
fn utf8_text(bytes: Vec<u8>) -> (text: Option<String>)
    ensures
        text is Some <==> valid_utf8(bytes@),
        text matches Some(t) ==> t@ == decode_utf8(bytes@),
{
    String::from_utf8(bytes).ok()
}

/// The names among `entries` that are valid UTF-8, decoded, in order.
pub open spec fn decoded_names(entries: Seq<(u8, Seq<u8>)>) -> Seq<Seq<char>>
    decreases entries.len(),
{
    if entries.len() == 0 {
        Seq::empty()
    } else if valid_utf8(entries.last().1) {
        decoded_names(entries.drop_last()).push(decode_utf8(entries.last().1))
    } else {
        decoded_names(entries.drop_last())
    }
}

/// The names of one extension: those of a server name extension, none of
/// any other.
pub open spec fn names_of_extension(extension: ExtensionView) -> Seq<Seq<char>> {
    match extension {
        ExtensionView::ServerName(entries) => decoded_names(entries),
        ExtensionView::Other => Seq::empty(),
    }
}

/// The names of all server name extensions among `extensions`, in order.
pub open spec fn extension_names(extensions: Seq<ExtensionView>) -> Seq<Seq<char>>
    decreases extensions.len(),
{
    if extensions.len() == 0 {
        Seq::empty()
    } else {
        extension_names(extensions.drop_last()) + names_of_extension(extensions.last())
    }
}

/// The names of one message: those in the extension block of a
/// ClientHello, where the block parses; none otherwise. A ClientHello
/// without a block counts as one with an empty block.
pub open spec fn names_of_message(message: MessageView) -> Seq<Seq<char>> {
    match message {
        MessageView::ClientHello { extensions } => {
            let block = match extensions {
                Some(bytes) => bytes,
                None => Seq::empty(),
            };
            match tls_extensions(block) {
                Some(list) => extension_names(list),
                None => Seq::empty(),
            }
        },
        MessageView::Other => Seq::empty(),
    }
}

/// The names of all ClientHello messages among `messages`, in order.
pub open spec fn message_names(messages: Seq<MessageView>) -> Seq<Seq<char>>
    decreases messages.len(),
{
    if messages.len() == 0 {
        Seq::empty()
    } else {
        message_names(messages.drop_last()) + names_of_message(messages.last())
    }
}

/// The server names that the bytes `buf` announce: those of the
/// ClientHello messages in the TLS record at the front of `buf`, and none
/// where `buf` does not start with a whole record or the record does not
/// parse.
pub open spec fn sni_names(buf: Seq<u8>) -> Seq<Seq<char>> {
    match raw_record(buf) {
        None => Seq::empty(),
        Some((header, data)) => match record_messages(
            data,
            header.record_type,
            header.version,
            header.len,
        ) {
            None => Seq::empty(),
            Some(messages) => message_names(messages),
        },
    }
}

fn copy_bytes(bytes: &Vec<u8>) -> (copy: Vec<u8>)
    ensures
        copy@ == bytes@,
{
    let mut copy: Vec<u8> = Vec::new();
    let mut i: usize = 0;
    while i < bytes.len()
        invariant
            i <= bytes.len(),
            copy@ == bytes@.take(i as int),
        decreases bytes.len() - i,
    {
        copy.push(bytes[i]);
        i += 1;
    }
    copy
}

/// Appends to `names` the entries of a server name extension that are
/// valid UTF-8, decoded, in order; the others are left out.
pub fn collect_decoded(entries: &Vec<(u8, Vec<u8>)>, names: &mut Vec<String>)
    ensures
        final(names).deep_view() == old(names).deep_view() + decoded_names(entries.deep_view()),
{
    let ghost before = names.deep_view();
    let ghost all = entries.deep_view();
    let mut i: usize = 0;
    while i < entries.len()
        invariant
            i <= entries.len(),
            all == entries.deep_view(),
            names.deep_view() == before + decoded_names(all.take(i as int)),
        decreases entries.len() - i,
    {
        proof {
            assert(all.take(i + 1).drop_last() =~= all.take(i as int));
            assert(all[i as int].1 == entries[i as int].1@);
        }
        let ghost earlier = names.deep_view();
        match utf8_text(copy_bytes(&entries[i].1)) {
            Some(name) => {
                names.push(name);
                assert(names.deep_view() =~= earlier.push(name@));
            },
            None => {},
        }
        i += 1;
    }
    assert(all.take(i as int) =~= all);
}

/// Appends to `names` the names of every server name extension among
/// `extensions`, in order.
pub fn collect_extension_names(extensions: &Vec<Extension>, names: &mut Vec<String>)
    ensures
        final(names).deep_view() == old(names).deep_view() + extension_names(
            extensions.deep_view(),
        ),
{
    let ghost before = names.deep_view();
    let ghost all = extensions.deep_view();
    let mut i: usize = 0;
    while i < extensions.len()
        invariant
            i <= extensions.len(),
            all == extensions.deep_view(),
            names.deep_view() == before + extension_names(all.take(i as int)),
        decreases extensions.len() - i,
    {
        proof {
            assert(all.take(i + 1).drop_last() =~= all.take(i as int));
        }
        match &extensions[i] {
            Extension::ServerName(entries) => {
                collect_decoded(entries, names);
            },
            Extension::Other => {},
        }
        i += 1;
    }
    assert(all.take(i as int) =~= all);
}

/// Appends to `names` the names that every ClientHello among `messages`
/// announces, in order.
pub fn collect_message_names(messages: &Vec<Message>, names: &mut Vec<String>)
    ensures
        final(names).deep_view() == old(names).deep_view() + message_names(messages.deep_view()),
{
    let ghost before = names.deep_view();
    let ghost all = messages.deep_view();
    let mut i: usize = 0;
    while i < messages.len()
        invariant
            i <= messages.len(),
            all == messages.deep_view(),
            names.deep_view() == before + message_names(all.take(i as int)),
        decreases messages.len() - i,
    {
        proof {
            assert(all.take(i + 1).drop_last() =~= all.take(i as int));
        }
        match &messages[i] {
            Message::ClientHello { extensions } => {
                let parsed = match extensions {
                    Some(block) => parse_extensions(block.as_slice()),
                    None => {
                        let empty: Vec<u8> = Vec::new();
                        parse_extensions(empty.as_slice())
                    },
                };
                match parsed {
                    Some(list) => {
                        collect_extension_names(&list, names);
                    },
                    None => {},
                }
            },
            Message::Other => {},
        }
        i += 1;
    }
    assert(all.take(i as int) =~= all);
}

/// The server names that a client announces in the first bytes of a TLS
/// connection, in the order it gives them. Bytes that are no TLS record
/// with a ClientHello give no names.
pub fn get_sni(buf: &[u8]) -> (snis: Vec<String>)
    ensures
        snis.deep_view() == sni_names(buf@),
{
    let mut snis: Vec<String> = Vec::new();
    match parse_raw_record(buf) {
        Some(record) => {
            match parse_record_messages(record.data.as_slice(), &record.header) {
                Some(messages) => {
                    collect_message_names(&messages, &mut snis);
                },
                None => {},
            }
        },
        None => {},
    }
    snis
}

} // verus!
