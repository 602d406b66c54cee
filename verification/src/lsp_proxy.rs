//! The relay between a message transport (one message per unit, as a
//! WebSocket gives it) and UCM's language server, which speaks over a byte
//! stream with length-prefixed messages.
//!
//! Towards UCM every message is written as
//! `Content-Length: <N>\r\n\r\n` followed by exactly `N` bytes of UTF-8. From
//! UCM the header is read byte by byte up to the blank line, the declared
//! length is taken from it, and exactly that many bytes are the message. A
//! message that cannot be read whole is an error, never a partial success.

use crate::decimal::{
    decimal, is_digit, lemma_decimal_digits, lemma_parse_decimal, parse_usize, push_decimal,
    text_parse_usize,
};
use crate::text::{
    after_first, append_str, before_first, lemma_find_is, lemma_find_none, lemma_line_end_is,
    lemma_trim_is, line_at, lines, matches_at, starts_with, string_of, text_after, text_before,
    text_lines, text_starts_with, text_trim, texts, trim, utf8_text,
};
use vstd::prelude::*;
use vstd::slice::slice_subrange;
use vstd::utf8::{
    decode_utf8, encode_utf8, encode_utf8_decode_utf8, encode_utf8_valid_utf8, valid_utf8,
};

verus! {

/// Where the relay listens and where it forwards to.
#[derive(Debug, Clone)]
pub struct LspProxy {
    ws_port: u16,
    lsp_host: String,
    lsp_port: u16,
}

/// A relay's configuration as plain values.
pub struct ProxyView {
    pub ws_port: u16,
    pub lsp_host: Seq<char>,
    pub lsp_port: u16,
}

impl View for LspProxy {
    type V = ProxyView;

    closed spec fn view(&self) -> ProxyView {
        ProxyView { ws_port: self.ws_port, lsp_host: self.lsp_host@, lsp_port: self.lsp_port }
    }
}

impl LspProxy {
    /// A relay that listens on `ws_port` and forwards to the given host and port.
    pub fn new(ws_port: u16, lsp_host: String, lsp_port: u16) -> (r: LspProxy)
        ensures
            r@ == (ProxyView { ws_port: ws_port, lsp_host: lsp_host@, lsp_port: lsp_port }),
    {
        LspProxy { ws_port: ws_port, lsp_host: lsp_host, lsp_port: lsp_port }
    }

    /// The port on which clients are accepted.
    pub fn ws_port(&self) -> (r: u16)
        ensures
            r == self@.ws_port,
    {
        self.ws_port
    }

    /// The port of the language server.
    pub fn lsp_port(&self) -> (r: u16)
        ensures
            r == self@.lsp_port,
    {
        self.lsp_port
    }

    /// The host of the language server.
    pub fn lsp_host(&self) -> (r: &str)
        ensures
            r@ == self@.lsp_host,
    {
        self.lsp_host.as_str()
    }

    /// The local address on which clients are accepted.
    pub fn listen_address(&self) -> (r: String)
        ensures
            r@ == "127.0.0.1:"@ + decimal(self@.ws_port as nat),
    {
        let mut out: Vec<char> = Vec::new();
        append_str(&mut out, "127.0.0.1:");
        push_decimal(&mut out, self.ws_port as u64);
        string_of(&out)
    }

    /// The address of the language server that each client is bridged to.
    pub fn upstream_address(&self) -> (r: String)
        ensures
            r@ == self@.lsp_host + ":"@ + decimal(self@.lsp_port as nat),
    {
        let mut out: Vec<char> = Vec::new();
        append_str(&mut out, self.lsp_host.as_str());
        append_str(&mut out, ":");
        push_decimal(&mut out, self.lsp_port as u64);
        assert(out@ =~= self@.lsp_host + ":"@ + decimal(self@.lsp_port as nat));
        string_of(&out)
    }
}

/// Why a message could not be read from the stream.
#[derive(Debug, Clone, Copy, PartialEq, Eq, Structural)]
pub enum FramingError {
    /// The stream ended before the blank line that ends the header.
    TruncatedHeader,
    /// The header holds no `Content-Length` line with a number that can be
    /// read.
    MissingContentLength,
    /// The stream ended before the declared number of bytes.
    TruncatedBody,
    /// The body is not valid UTF-8.
    InvalidUtf8,
}

impl FramingError {
    /// What the error says.
    pub open spec fn text(self) -> Seq<char> {
        match self {
            FramingError::TruncatedHeader => "Failed to read header byte"@,
            FramingError::MissingContentLength => "Missing or invalid Content-Length header"@,
            FramingError::TruncatedBody => "Failed to read message content"@,
            FramingError::InvalidUtf8 => "Invalid UTF-8 in message content"@,
        }
    }

    /// What the error says.
    pub fn message(&self) -> (r: String)
        ensures
            r@ == self.text(),
    {
        match self {
            FramingError::TruncatedHeader => "Failed to read header byte".to_owned(),
            FramingError::MissingContentLength => "Missing or invalid Content-Length header".to_owned(),
            FramingError::TruncatedBody => "Failed to read message content".to_owned(),
            FramingError::InvalidUtf8 => "Invalid UTF-8 in message content".to_owned(),
        }
    }
}

/// The bytes of a text whose characters all fit in one byte.
pub open spec fn byte_text(s: Seq<char>) -> Seq<u8> {
    Seq::new(s.len(), |i: int| s[i] as u8)
}

/// The header bytes read as text, each byte as the character of that code.
pub open spec fn header_text(h: Seq<u8>) -> Seq<char> {
    Seq::new(h.len(), |i: int| h[i] as char)
}

/// The header that declares a body of `n` bytes.
pub open spec fn header_for(n: nat) -> Seq<char> {
    "Content-Length: "@ + decimal(n) + "\r\n\r\n"@
}

/// A message as it goes to the language server: the header that declares
/// the byte length of its UTF-8 form, then that form.
pub open spec fn framed(body: Seq<char>) -> Seq<u8> {
    byte_text(header_for(encode_utf8(body).len())) + encode_utf8(body)
}

/// Wraps a message for the language server.
pub fn frame_message(body: &str) -> (r: Vec<u8>)
    ensures
        r@ == framed(body@),
{
    let content = body.as_bytes();
    let mut header: Vec<char> = Vec::new();
    append_str(&mut header, "Content-Length: ");
    push_decimal(&mut header, content.len() as u64);
    append_str(&mut header, "\r\n\r\n");
    assert(header@ =~= header_for(encode_utf8(body@).len()));
    let mut out: Vec<u8> = Vec::new();
    let mut i: usize = 0;
    while i < header.len()
        invariant
            i <= header.len(),
            out@ == byte_text(header@.take(i as int)),
        decreases header.len() - i,
    {
        out.push(header[i] as u8);
        assert(out@ =~= byte_text(header@.take(i + 1)));
        i += 1;
    }
    assert(header@.take(header.len() as int) =~= header@);
    let mut j: usize = 0;
    while j < content.len()
        invariant
            j <= content.len(),
            out@ == byte_text(header@) + content@.take(j as int),
        decreases content.len() - j,
    {
        out.push(content[j]);
        assert(out@ =~= byte_text(header@) + content@.take(j + 1));
        j += 1;
    }
    assert(content@.take(content.len() as int) =~= content@);
    out
}

/// A unit that arrived from the client.
#[derive(Debug)]
pub enum ClientMessage {
    /// A text message: one message of the protocol.
    Text(String),
    /// The client closes the connection.
    Close,
    /// Anything else: binary data, ping, pong.
    Other,
    /// Reading from the client failed.
    Failed,
}

/// A unit from the client as plain values.
pub enum ClientMessageView {
    Text(Seq<char>),
    Close,
    Other,
    Failed,
}

impl View for ClientMessage {
    type V = ClientMessageView;

    open spec fn view(&self) -> ClientMessageView {
        match self {
            ClientMessage::Text(s) => ClientMessageView::Text(s@),
            ClientMessage::Close => ClientMessageView::Close,
            ClientMessage::Other => ClientMessageView::Other,
            ClientMessage::Failed => ClientMessageView::Failed,
        }
    }
}

/// What the client-to-server direction does with a unit from the client.
#[derive(Debug)]
pub enum ForwardAction {
    /// Write these bytes upstream and flush.
    Send(Vec<u8>),
    /// Drop the unit and go on.
    Skip,
    /// End this direction.
    Stop,
}

/// What to do with a unit from the client, as plain values.
pub enum ForwardView {
    Send(Seq<u8>),
    Skip,
    Stop,
}

impl View for ForwardAction {
    type V = ForwardView;

    open spec fn view(&self) -> ForwardView {
        match self {
            ForwardAction::Send(b) => ForwardView::Send(b@),
            ForwardAction::Skip => ForwardView::Skip,
            ForwardAction::Stop => ForwardView::Stop,
        }
    }
}

/// A text message goes upstream framed; a close or a failure ends the
/// direction; everything else is dropped.
pub open spec fn forward_of(m: ClientMessageView) -> ForwardView {
    match m {
        ClientMessageView::Text(s) => ForwardView::Send(framed(s)),
        ClientMessageView::Close => ForwardView::Stop,
        ClientMessageView::Other => ForwardView::Skip,
        ClientMessageView::Failed => ForwardView::Stop,
    }
}

/// Decides what to do with a unit that arrived from the client.
pub fn forward_ws_to_lsp(message: &ClientMessage) -> (r: ForwardAction)
    ensures
        r@ == forward_of(message@),
{
    match message {
        ClientMessage::Text(s) => ForwardAction::Send(frame_message(s.as_str())),
        ClientMessage::Close => ForwardAction::Stop,
        ClientMessage::Other => ForwardAction::Skip,
        ClientMessage::Failed => ForwardAction::Stop,
    }
}

/// The four bytes that end a header: a line ending and a blank line.
pub open spec fn blank_line() -> Seq<u8> {
    seq![13u8, 10u8, 13u8, 10u8]
}

/// The header is complete: its last four bytes are the blank line.
pub open spec fn header_complete(h: Seq<u8>) -> bool {
    h.len() >= 4 && h.subrange(h.len() - 4, h.len() as int) == blank_line()
}

/// The first line at or after index `i` that starts with `Content-Length:`.
pub open spec fn length_line(all: Seq<Seq<char>>, i: int) -> Option<Seq<char>>
    decreases all.len() - i,
{
    if i < 0 || i >= all.len() {
        None
    } else if starts_with(all[i], "Content-Length:"@) {
        Some(all[i])
    } else {
        length_line(all, i + 1)
    }
}

/// The number that a `Content-Length` line declares: what stands between
/// its first and second colon (or the end), trimmed and read as a number.
pub open spec fn length_on_line(line: Seq<char>) -> Option<usize> {
    match after_first(line, ":"@) {
        Some(rest) => parse_usize(trim(before_first(rest, ":"@))),
        None => None,
    }
}

/// The body length that a header declares, taken from its first
/// `Content-Length` line. Nothing where there is no such line or its number
/// cannot be read.
pub open spec fn declared_length(header: Seq<char>) -> Option<usize> {
    match length_line(lines(header), 0) {
        Some(line) => length_on_line(line),
        None => None,
    }
}

/// Reads the declared body length from a complete header.
pub fn parse_content_length(header: &Vec<u8>) -> (r: Option<usize>)
    ensures
        r == declared_length(header_text(header@)),
{
    let mut text: Vec<char> = Vec::new();
    let mut k: usize = 0;
    while k < header.len()
        invariant
            k <= header.len(),
            text@ == header_text(header@.take(k as int)),
        decreases header.len() - k,
    {
        text.push(header[k] as char);
        assert(text@ =~= header_text(header@.take(k + 1)));
        k += 1;
    }
    assert(header@.take(header.len() as int) =~= header@);
    let all = text_lines(&text);
    let mut i: usize = 0;
    while i < all.len()
        invariant
            i <= all.len(),
            texts(all@) == lines(text@),
            text@ == header_text(header@),
            length_line(lines(text@), 0) == length_line(lines(text@), i as int),
        decreases all.len() - i,
    {
        assert(texts(all@)[i as int] == all@[i as int]@);
        if text_starts_with(&all[i], "Content-Length:") {
            return match text_after(&all[i], ":") {
                Some(rest) => text_parse_usize(&text_trim(&text_before(&rest, ":"))),
                None => None,
            };
        }
        i += 1;
    }
    None
}

/// What one more header byte leads to.
#[derive(Debug, Clone, Copy, PartialEq, Eq, Structural)]
pub enum HeaderStep {
    /// The header is not complete: read one more byte.
    More,
    /// The header is complete: read exactly this many bytes as the body.
    Body(usize),
    /// The header is complete and declares no length.
    Invalid,
}

/// What a header that has grown to `h` leads to.
pub open spec fn header_step(h: Seq<u8>) -> HeaderStep {
    if !header_complete(h) {
        HeaderStep::More
    } else {
        match declared_length(header_text(h)) {
            Some(n) => HeaderStep::Body(n),
            None => HeaderStep::Invalid,
        }
    }
}

/// Gathers the header of one message, byte by byte.
#[derive(Debug)]
pub struct FrameReader {
    header: Vec<u8>,
}

impl View for FrameReader {
    type V = Seq<u8>;

    closed spec fn view(&self) -> Seq<u8> {
        self.header@
    }
}

impl FrameReader {
    /// A reader that has read nothing yet.
    pub fn new() -> (r: FrameReader)
        ensures
            r@ == Seq::<u8>::empty(),
    {
        FrameReader { header: Vec::new() }
    }

    /// Takes the next byte of the stream. Once the header is complete the
    /// reader starts over, ready for the header of the next message.
    pub fn push(&mut self, byte: u8) -> (step: HeaderStep)
        ensures
            step == header_step(old(self)@.push(byte)),
            step == HeaderStep::More ==> final(self)@ == old(self)@.push(byte),
            step != HeaderStep::More ==> final(self)@ == Seq::<u8>::empty(),
    {
        self.header.push(byte);
        let n: usize = self.header.len();
        if n >= 4 && self.header[n - 4] == 13 && self.header[n - 3] == 10 && self.header[n - 2]
            == 13 && self.header[n - 1] == 10 {
            assert(self.header@.subrange(n - 4, n as int) =~= blank_line());
            let length = parse_content_length(&self.header);
            self.header = Vec::new();
            match length {
                Some(len) => HeaderStep::Body(len),
                None => HeaderStep::Invalid,
            }
        } else {
            proof {
                if n >= 4 {
                    let tail = self.header@.subrange(n - 4, n as int);
                    assert(tail[0] == self.header@[n - 4]);
                    assert(tail[1] == self.header@[n - 3]);
                    assert(tail[2] == self.header@[n - 2]);
                    assert(tail[3] == self.header@[n - 1]);
                }
            }
            HeaderStep::More
        }
    }
}

/// The length of the header at the start of `bytes`: the least count `n`,
/// not below `from`, of leading bytes that end in the blank line.
pub open spec fn header_length(bytes: Seq<u8>, from: int) -> Option<int>
    decreases bytes.len() - from,
{
    if from < 0 || from > bytes.len() {
        None
    } else if header_complete(bytes.take(from)) {
        Some(from)
    } else if from == bytes.len() {
        None
    } else {
        header_length(bytes, from + 1)
    }
}

/// A message read from a stream, and how many bytes of the stream it took.
pub struct ReadView {
    pub body: Seq<char>,
    pub consumed: int,
}

/// The first message of a byte stream.
///
/// The header runs up to the first blank line. Its declared length says how
/// many bytes follow as the body, and the body is the text that those bytes
/// encode. Each way in which this can fail has its own error.
pub open spec fn first_message(bytes: Seq<u8>) -> Result<ReadView, FramingError> {
    match header_length(bytes, 0) {
        None => Err(FramingError::TruncatedHeader),
        Some(n) => match declared_length(header_text(bytes.take(n))) {
            None => Err(FramingError::MissingContentLength),
            Some(len) => if n + len > bytes.len() {
                Err(FramingError::TruncatedBody)
            } else if !valid_utf8(bytes.subrange(n, n + len)) {
                Err(FramingError::InvalidUtf8)
            } else {
                Ok(ReadView { body: decode_utf8(bytes.subrange(n, n + len)), consumed: n + len })
            },
        },
    }
}

/// The outcome of reading a message as plain values.
pub open spec fn read_view(r: Result<(String, usize), FramingError>) -> Result<
    ReadView,
    FramingError,
> {
    match r {
        Ok((body, consumed)) => Ok(ReadView { body: body@, consumed: consumed as int }),
        Err(e) => Err(e),
    }
}

/// The first line of the header that declares `n`.
pub open spec fn length_field(n: nat) -> Seq<char> {
    "Content-Length: "@ + decimal(n)
}

/// A character that a header may hold without ending a line: it fits in
/// seven bits and is neither a carriage return nor a line feed.
pub open spec fn plain(c: char) -> bool {
    c as u32 <= 127 && c != '\r' && c != '\n'
}

proof fn lemma_length_field(n: nat)
    ensures
        length_field(n).len() == 16 + decimal(n).len(),
        decimal(n).len() > 0,
        forall|i: int| 0 <= i < length_field(n).len() ==> plain(#[trigger] length_field(n)[i]),
        forall|i: int| 0 <= i < 14 ==> #[trigger] length_field(n)[i] != ':',
        length_field(n)[14] == ':',
        length_field(n)[15] == ' ',
        forall|i: int| 16 <= i < length_field(n).len() ==> is_digit(#[trigger] length_field(n)[i]),
        starts_with(length_field(n), "Content-Length:"@),
{
    reveal_strlit("Content-Length: ");
    reveal_strlit("Content-Length:");
    lemma_decimal_digits(n);
    let f = length_field(n);
    let d = decimal(n);
    assert forall|i: int| 16 <= i < f.len() implies is_digit(#[trigger] f[i]) by {
        assert(f[i] == d[i - 16]);
    }
    assert forall|i: int| 0 <= i < f.len() implies plain(#[trigger] f[i]) by {
        if i >= 16 {
            assert(is_digit(f[i]));
        }
    }
    assert(f.subrange(0, 15) =~= "Content-Length:"@);
}

/// The header written for a length declares that length.
pub proof fn lemma_header_declares(n: nat)
    requires
        n <= usize::MAX,
    ensures
        declared_length(header_for(n)) == Some(n as usize),
{
    reveal_strlit("\r\n\r\n");
    reveal_strlit(":");
    lemma_length_field(n);
    lemma_decimal_digits(n);
    lemma_parse_decimal(n);
    let f = length_field(n);
    let d = decimal(n);
    let h = header_for(n);
    let flen = f.len() as int;
    assert(h =~= f + "\r\n\r\n"@);
    assert(h.len() == flen + 4);
    assert forall|k: int| 0 <= k < flen + 1 implies h[k] != '\n' by {
        if k < flen {
            assert(h[k] == f[k]);
            assert(plain(f[k]));
        }
    }
    lemma_line_end_is(h, 0, flen + 1);
    assert(line_at(h, 0, flen + 1) =~= f);
    let all = lines(h);
    assert(all[0] == f);
    assert(all.len() >= 1);
    assert(length_line(all, 0) == Some(f));
    // The number stands between the first colon and the end of the line.
    assert(matches_at(f, ":"@, 14)) by {
        assert(f.subrange(14, 15) =~= ":"@);
    }
    assert forall|j: int| 0 <= j < 14 implies !matches_at(f, ":"@, j) by {
        if matches_at(f, ":"@, j) {
            assert(f.subrange(j, j + 1)[0] == f[j]);
        }
    }
    lemma_find_is(f, ":"@, 0, 14);
    let rest = f.subrange(15, flen);
    assert(after_first(f, ":"@) == Some(rest));
    assert(rest.len() == d.len() + 1);
    assert(rest[0] == ' ');
    assert forall|k: int| 1 <= k < rest.len() implies is_digit(#[trigger] rest[k]) by {
        assert(rest[k] == f[k + 15]);
    }
    assert forall|j: int| 0 <= j implies !matches_at(rest, ":"@, j) by {
        if matches_at(rest, ":"@, j) {
            assert(rest.subrange(j, j + 1)[0] == rest[j]);
            if j >= 1 {
                assert(is_digit(rest[j]));
            }
        }
    }
    lemma_find_none(rest, ":"@, 0);
    assert(before_first(rest, ":"@) == rest);
    assert(is_digit(rest[1]));
    assert(is_digit(rest[rest.len() - 1]));
    lemma_trim_is(rest, 1, rest.len() as int);
    assert(rest.subrange(1, rest.len() as int) =~= d);
}

proof fn lemma_byte_reads_back(c: char)
    requires
        c as u32 <= 127,
    ensures
        ((c as u8) as char) == c,
{
}

/// Header bytes that were written from plain characters read back as those
/// characters.
pub proof fn lemma_header_text(s: Seq<char>)
    requires
        forall|i: int| 0 <= i < s.len() ==> (#[trigger] s[i]) as u32 <= 127,
    ensures
        header_text(byte_text(s)) == s,
{
    let back = header_text(byte_text(s));
    assert(back.len() == s.len());
    assert forall|i: int| 0 <= i < s.len() implies back[i] == s[i] by {
        let c = s[i];
        assert(c as u32 <= 127);
        assert(byte_text(s)[i] == c as u8);
        lemma_byte_reads_back(c);
    }
    assert(back =~= s);
}

/// A stream that starts with a frame yields the framed message and leaves
/// what follows the frame untouched.
pub proof fn lemma_frame_reads_back(body: Seq<char>, rest: Seq<u8>)
    requires
        encode_utf8(body).len() <= usize::MAX,
    ensures
        first_message(framed(body) + rest) == Ok::<ReadView, FramingError>(
            ReadView { body: body, consumed: framed(body).len() as int },
        ),
{
    reveal_strlit("\r\n\r\n");
    let content = encode_utf8(body);
    let n = content.len();
    lemma_length_field(n);
    lemma_header_declares(n);
    let f = length_field(n);
    let h = header_for(n);
    let hb = byte_text(h);
    let bytes = framed(body) + rest;
    let hlen = h.len() as int;
    assert(h =~= f + "\r\n\r\n"@);
    assert(hlen == f.len() + 4);
    assert(bytes =~= hb + content + rest);
    assert forall|i: int| 0 <= i < h.len() implies (#[trigger] h[i]) as u32 <= 127 by {
        if i < f.len() {
            assert(h[i] == f[i]);
            assert(plain(f[i]));
        }
    }
    lemma_header_text(h);
    assert(bytes.take(hlen) =~= hb);
    assert(header_complete(bytes.take(hlen))) by {
        assert(bytes.take(hlen).subrange(hlen - 4, hlen) =~= blank_line());
    }
    assert forall|k: int| 0 <= k < hlen implies !header_complete(bytes.take(k)) by {
        if k >= 4 {
            let window = bytes.take(k).subrange(k - 4, k);
            assert(window[0] == bytes[k - 4]);
            assert(bytes[k - 4] == hb[k - 4]);
            assert(h[k - 4] == f[k - 4]);
            assert(plain(f[k - 4]));
        }
    }
    lemma_header_length_is(bytes, 0, hlen);
    assert(bytes.subrange(hlen, hlen + n) =~= content);
    encode_utf8_valid_utf8(body);
    encode_utf8_decode_utf8(body);
}

/// The first count of leading bytes that ends in the blank line is the
/// header's length.
pub proof fn lemma_header_length_is(bytes: Seq<u8>, from: int, n: int)
    requires
        0 <= from <= n <= bytes.len(),
        header_complete(bytes.take(n)),
        forall|k: int| from <= k < n ==> !header_complete(bytes.take(k)),
    ensures
        header_length(bytes, from) == Some(n),
    decreases n - from,
{
    if from < n {
        lemma_header_length_is(bytes, from + 1, n);
    }
}

/// A header without a `Content-Length` line whose number can be read ends
/// the reading with an error, whatever follows it in the stream. The outcome
/// depends on the bytes of this one stream alone.
pub proof fn lemma_header_without_length_fails(bytes: Seq<u8>)
    requires
        header_length(bytes, 0) is Some,
        declared_length(header_text(bytes.take(header_length(bytes, 0)->0))) is None,
    ensures
        first_message(bytes) == Err::<ReadView, FramingError>(FramingError::MissingContentLength),
{
}

/// The text that the bytes of a body encode.
pub fn decode_body(content: &[u8]) -> (r: Result<String, FramingError>)
    ensures
        match r {
            Ok(body) => valid_utf8(content@) && body@ == decode_utf8(content@),
            Err(e) => !valid_utf8(content@) && e == FramingError::InvalidUtf8,
        },
{
    match utf8_text(content) {
        Some(text) => Ok(text.to_owned()),
        None => Err(FramingError::InvalidUtf8),
    }
}

/// Reads the first message from the bytes of a stream and says how many
/// bytes it took.
pub fn read_lsp_message(stream: &[u8]) -> (r: Result<(String, usize), FramingError>)
    ensures
        read_view(r) == first_message(stream@),
{
    let mut reader = FrameReader::new();
    let mut i: usize = 0;
    assert(stream@.take(0) =~= Seq::<u8>::empty());
    while i < stream.len()
        invariant
            i <= stream.len(),
            reader@ == stream@.take(i as int),
            !header_complete(stream@.take(i as int)),
            header_length(stream@, 0) == header_length(stream@, i as int),
        decreases stream.len() - i,
    {
        let step = reader.push(stream[i]);
        assert(stream@.take(i as int).push(stream@[i as int]) =~= stream@.take(i + 1));
        i += 1;
        match step {
            HeaderStep::More => {},
            HeaderStep::Invalid => {
                return Err(FramingError::MissingContentLength);
            },
            HeaderStep::Body(len) => {
                if len > stream.len() - i {
                    return Err(FramingError::TruncatedBody);
                }
                let content = slice_subrange(stream, i, i + len);
                return match decode_body(content) {
                    Ok(body) => Ok((body, i + len)),
                    Err(e) => Err(e),
                };
            },
        }
    }
    Err(FramingError::TruncatedHeader)
}

} // verus!
