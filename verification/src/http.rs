//! HTTP as the set-up server speaks it: reading a request, telling what it asks for, framing the
//! response.
use crate::text::{
    all_white, chars_of, decimal, digit_value, find, find_bytes, find_chars, first_at, is_white,
    law_decimal_reads_back, law_prefix_can_be_completed, law_trim_takes_the_white_ends,
    lemma_decimal, lemma_find, lemma_find_in_front, lemma_find_some, lemma_white_end,
    lemma_word_end, none_white, occurs_at, parse, parse_unsigned, prefix_at, same_text, skip_white,
    skip_word, trim, trim_chars, white_end, word_end,
};
use vstd::prelude::*;
use vstd::utf8::{
    decode_utf8, decode_utf8_encode_utf8, decode_utf8_split, encode_utf8, encode_utf8_decode_utf8,
    encode_utf8_valid_utf8, is_ascii_chars, is_ascii_chars_encode_utf8, is_char_boundary,
    is_char_boundary_iff_is_leading_byte, partial_valid_partial_invalid_utf8, valid_utf8,
};

verus! {

/// The end of a line.
pub open spec fn crlf() -> Seq<char> {
    seq!['\r', '\n']
}

/// The end of a header, in bytes.
pub open spec fn blank_line() -> Seq<u8> {
    seq![13u8, 10u8, 13u8, 10u8]
}

/// The lines of a text: what stands before, between and after its line ends.
pub open spec fn lines(s: Seq<char>) -> Seq<Seq<char>>
    decreases s.len(),
{
    match find(s, crlf()) {
        Some(i) => {
            proof {
                lemma_find(s, crlf());
            }
            seq![s.take(i)] + lines(s.skip(i + 2))
        },
        None => seq![s],
    }
}

/// The first word of a request line; empty where there is none.
pub open spec fn method_of(line: Seq<char>) -> Seq<char> {
    let from = white_end(line, 0);
    line.subrange(from, word_end(line, from))
}

/// The second word of a request line; `/` where there is none.
pub open spec fn path_of(line: Seq<char>) -> Seq<char> {
    let from = white_end(line, word_end(line, white_end(line, 0)));
    let to = word_end(line, from);
    if from < to {
        line.subrange(from, to)
    } else {
        "/"@
    }
}

/// The number after `Content-Length:`; zero where no number stands there.
pub open spec fn length_in(line: Seq<char>) -> int {
    match parse(trim(line.skip(15)), 10, usize::MAX as int) {
        Some(n) => n,
        None => 0,
    }
}

/// The length that the last `Content-Length:` line before the first empty line gives, and
/// `so_far` where no line gives one.
pub open spec fn content_length(headers: Seq<Seq<char>>, so_far: int) -> int
    decreases headers.len(),
{
    if headers.len() == 0 || headers[0].len() == 0 {
        so_far
    } else {
        let length = if occurs_at(headers[0], "Content-Length:"@, 0) {
            length_in(headers[0])
        } else {
            so_far
        };
        content_length(headers.drop_first(), length)
    }
}

/// What the header of a request says.
#[derive(Debug, PartialEq, Eq)]
pub struct Head {
    pub method: String,
    pub path: String,
    /// How many bytes of body are announced.
    pub content_length: usize,
    /// How many bytes the header takes, its blank line included.
    pub header_end: usize,
}

/// The model of a [`Head`].
pub struct HeadView {
    pub method: Seq<char>,
    pub path: Seq<char>,
    pub content_length: int,
    pub header_end: int,
}

impl View for Head {
    type V = HeadView;

    open spec fn view(&self) -> HeadView {
        HeadView {
            method: self.method@,
            path: self.path@,
            content_length: self.content_length as int,
            header_end: self.header_end as int,
        }
    }
}

/// Where the header ends in the bytes of its text.
pub open spec fn header_end(text: Seq<char>, received: int) -> int {
    match find(encode_utf8(text), blank_line()) {
        Some(i) => i + 4,
        None => received,
    }
}

/// What the text of a header says. `received` is the number of bytes that were decoded: all of
/// them are header where the text has no blank line.
pub open spec fn head_of(text: Seq<char>, received: int) -> HeadView {
    let line = lines(text)[0];
    HeadView {
        method: method_of(line),
        path: path_of(line),
        content_length: content_length(lines(text).drop_first(), 0),
        header_end: header_end(text, received),
    }
}

/// Reads the length that the lines after the request line announce.
fn announced_length(text: &[char]) -> (length: usize)
    ensures
        length == content_length(lines(text@).drop_first(), 0),
{
    let end_of_line: [char; 2] = ['\r', '\n'];
    let name = chars_of("Content-Length:");
    assert(end_of_line@ =~= crlf());
    proof {
        reveal_strlit("Content-Length:");
        lemma_find(text@, crlf());
    }
    let mut rest: &[char] = match find_chars(text, end_of_line.as_slice()) {
        Some(i) => {
            assert(text@.skip(i + 2) =~= text@.subrange(i + 2, text@.len() as int));
            assert(lines(text@).drop_first() =~= lines(text@.skip(i + 2)));
            assert(crlf().len() == 2);
            vstd::slice::slice_subrange(text, i + 2, text.len())
        },
        None => {
            assert(lines(text@).drop_first() =~= Seq::empty());
            return 0;
        },
    };
    let mut length: usize = 0;
    loop
        invariant
            end_of_line@ == crlf(),
            crlf().len() == 2,
            name@ == "Content-Length:"@,
            "Content-Length:"@.len() == 15,
            content_length(lines(text@).drop_first(), 0) == content_length(
                lines(rest@),
                length as int,
            ),
        decreases rest@.len(),
    {
        proof {
            lemma_find(rest@, crlf());
        }
        let found = find_chars(rest, end_of_line.as_slice());
        let end: usize = match found {
            Some(i) => i,
            None => rest.len(),
        };
        let line = vstd::slice::slice_subrange(rest, 0, end);
        assert(line@ =~= lines(rest@)[0]);
        if end == 0 {
            return length;
        }
        if prefix_at(line, name.as_slice(), 0) {
            let value = trim_chars(vstd::slice::slice_subrange(line, 15, end));
            assert(line@.skip(15) =~= line@.subrange(15, end as int));
            length = match parse_unsigned(value, 10, usize::MAX as u64) {
                Some(n) => n as usize,
                None => 0,
            };
        }
        match found {
            Some(i) => {
                assert(rest@.skip(i + 2) =~= rest@.subrange(i + 2, rest@.len() as int));
                assert(lines(rest@).drop_first() =~= lines(rest@.skip(i + 2)));
                rest = vstd::slice::slice_subrange(rest, i + 2, rest.len());
            },
            None => {
                proof {
                    assert(lines(rest@).drop_first() =~= Seq::empty());
                    reveal_with_fuel(content_length, 2);
                }
                return length;
            },
        }
    }
}

fn find_header_end(text: &str, received: usize) -> (end: usize)
    ensures
        end == header_end(text@, received as int),
{
    let blank: [u8; 4] = [13, 10, 13, 10];
    assert(blank@ =~= blank_line());
    assert(blank_line().len() == 4);
    match find_bytes(text.as_bytes(), blank.as_slice()) {
        Some(i) => i + 4,
        None => received,
    }
}

/// Reads the header of a request.
pub fn read_head(text: &str, received: usize) -> (head: Head)
    ensures
        head@ == head_of(text@, received as int),
{
    let chars = chars_of(text);
    let end_of_line: [char; 2] = ['\r', '\n'];
    assert(end_of_line@ =~= crlf());
    let end: usize = match find_chars(chars.as_slice(), end_of_line.as_slice()) {
        Some(i) => i,
        None => chars.len(),
    };
    let line = vstd::slice::slice_subrange(chars.as_slice(), 0, end);
    assert(line@ =~= lines(text@)[0]);
    let a = skip_white(line, 0);
    let b = skip_word(line, a);
    let c = skip_white(line, b);
    let d = skip_word(line, c);
    let method = text.substring_char(a, b).to_owned();
    assert(method@ =~= line@.subrange(a as int, b as int));
    let path = if c < d {
        let path = text.substring_char(c, d).to_owned();
        assert(path@ =~= line@.subrange(c as int, d as int));
        path
    } else {
        "/".to_owned()
    };
    Head {
        method,
        path,
        content_length: announced_length(chars.as_slice()),
        header_end: find_header_end(text, received),
    }
}

/// What `String::from_utf8_lossy` makes of bytes.
pub uninterp spec fn lossy_text(bytes: Seq<u8>) -> Seq<char>;

/// A text keeps the bytes at its start as far as they are UTF-8.
pub open spec fn keeps_valid_start(bytes: Seq<u8>, text: Seq<char>) -> bool {
    forall|k: int|
        0 <= k <= bytes.len() && valid_utf8(#[trigger] bytes.take(k)) ==> {
            &&& k <= encode_utf8(text).len()
            &&& encode_utf8(text).take(k) == bytes.take(k)
        }
}

/// Decodes bytes with `String::from_utf8_lossy`, which puts U+FFFD in the place of what is not
/// UTF-8. The text, named by `lossy_text`, depends on the bytes alone; bytes at the start that
/// are UTF-8 are the bytes at the start of the text.
#[verifier::external_body]
fn decode_lossy(bytes: &[u8]) -> (text: String)
    ensures
        text@ == lossy_text(bytes@),
        keeps_valid_start(bytes@, text@),
{
    String::from_utf8_lossy(bytes).into_owned()
}

/// Bytes that a header may take.
pub const HEADER_CAPACITY: usize = 8192;

/// Bytes of a body that are read at once.
pub const BODY_CHUNK: usize = 1024;

/// A request that has been read.
#[derive(Debug, PartialEq, Eq)]
pub struct HttpRequest {
    pub head: Head,
    pub body: Vec<u8>,
}

/// Reads a request from a connection, piece by piece.
#[derive(Debug, PartialEq, Eq)]
pub enum Reader {
    /// The header is not complete; these bytes have come.
    Header(Vec<u8>),
    /// The header is complete, the body is not; these bytes of it have come.
    Body(Head, Vec<u8>),
}

/// The model of a [`Reader`].
pub enum ReaderView {
    Header(Seq<u8>),
    Body(HeadView, Seq<u8>),
}

impl View for Reader {
    type V = ReaderView;

    open spec fn view(&self) -> ReaderView {
        match *self {
            Reader::Header(bytes) => ReaderView::Header(bytes@),
            Reader::Body(head, body) => ReaderView::Body(head@, body@),
        }
    }
}

/// What came of a piece.
#[derive(Debug, PartialEq, Eq)]
pub enum Received {
    /// More is to be read.
    More(Reader),
    /// The request is complete, or no more of it will come.
    Ready(HttpRequest),
    /// The connection ended within the header.
    Closed,
}

/// The model of [`Received`].
pub enum ReceivedView {
    More(ReaderView),
    Ready(HeadView, Seq<u8>),
    Closed,
}

impl View for Received {
    type V = ReceivedView;

    open spec fn view(&self) -> ReceivedView {
        match *self {
            Received::More(reader) => ReceivedView::More(reader@),
            Received::Ready(request) => ReceivedView::Ready(request.head@, request.body@),
            Received::Closed => ReceivedView::Closed,
        }
    }
}

/// Nothing more of a header is read: its blank line has come, or there is no room left.
pub open spec fn header_done(bytes: Seq<u8>) -> bool {
    find(bytes, blank_line()) is Some || bytes.len() == HEADER_CAPACITY
}

impl ReaderView {
    /// What has been read does not yet make up a request.
    pub open spec fn wf(self) -> bool {
        match self {
            ReaderView::Header(bytes) => bytes.len() < HEADER_CAPACITY && !header_done(bytes),
            ReaderView::Body(head, body) => body.len() < head.content_length,
        }
    }

    /// How many bytes may be read next.
    pub open spec fn room(self) -> int {
        match self {
            ReaderView::Header(bytes) => HEADER_CAPACITY - bytes.len(),
            ReaderView::Body(..) => BODY_CHUNK as int,
        }
    }

    /// What comes of a piece; an empty one tells that the peer sends no more.
    pub open spec fn after(self, piece: Seq<u8>) -> ReceivedView {
        match self {
            ReaderView::Header(bytes) => if piece.len() == 0 {
                ReceivedView::Closed
            } else if header_done(bytes + piece) {
                let all = bytes + piece;
                let head = head_of(lossy_text(all), all.len() as int);
                let body = if head.header_end < all.len() {
                    all.skip(head.header_end)
                } else {
                    Seq::empty()
                };
                body_so_far(head, body)
            } else {
                ReceivedView::More(ReaderView::Header(bytes + piece))
            },
            ReaderView::Body(head, body) => if piece.len() == 0 {
                ReceivedView::Ready(head, body)
            } else {
                body_so_far(head, body + piece)
            },
        }
    }

    /// What comes of a failure to read.
    pub open spec fn after_failure(self) -> ReceivedView {
        match self {
            ReaderView::Header(_) => ReceivedView::Closed,
            ReaderView::Body(head, body) => ReceivedView::Ready(head, body),
        }
    }
}

/// A body is read on until it has the length that was announced.
pub open spec fn body_so_far(head: HeadView, body: Seq<u8>) -> ReceivedView {
    if body.len() < head.content_length {
        ReceivedView::More(ReaderView::Body(head, body))
    } else {
        ReceivedView::Ready(head, body)
    }
}

/// What was received is a request, or a part of one that can be read on.
pub open spec fn received_wf(received: ReceivedView) -> bool {
    received matches ReceivedView::More(reader) ==> reader.wf()
}

/// The header that these bytes begin with ends where its blank line does: it says what its own text
/// says, and what was received after it, and nothing else, is the body.
pub open spec fn split_at_blank_line(bytes: Seq<u8>, received: ReceivedView) -> bool {
    let end = find(bytes, blank_line())->0 + 4;
    let head = head_of(decode_utf8(bytes.take(end)), end);
    received == body_so_far(head, bytes.skip(end)) && head.header_end == end
}

/// The UTF-8 form of two texts in a row is that of the first and then that of the second.
pub proof fn lemma_encode_concat(a: Seq<char>, b: Seq<char>)
    ensures
        encode_utf8(a + b) == encode_utf8(a) + encode_utf8(b),
    decreases a.len(),
{
    if a.len() == 0 {
        assert(a + b =~= b);
        assert(encode_utf8(a) =~= Seq::empty());
        assert(encode_utf8(a) + encode_utf8(b) =~= encode_utf8(b));
    } else {
        assert((a + b).drop_first() =~= a.drop_first() + b);
        lemma_encode_concat(a.drop_first(), b);
        assert(encode_utf8(a + b) =~= encode_utf8(a) + encode_utf8(b));
    }
}

/// A text whose UTF-8 form begins with that of another text begins with that text.
proof fn lemma_text_begins_with(text: Seq<char>, bytes: Seq<u8>) -> (tail: Seq<char>)
    requires
        valid_utf8(bytes),
        bytes.len() <= encode_utf8(text).len(),
        encode_utf8(text).take(bytes.len() as int) == bytes,
    ensures
        text == decode_utf8(bytes) + tail,
{
    let all = encode_utf8(text);
    let k = bytes.len() as int;
    let rest = all.skip(k);
    encode_utf8_valid_utf8(text);
    assert(all.subrange(0, k) =~= bytes);
    assert(all.subrange(k, all.len() as int) =~= rest);
    if !valid_utf8(rest) {
        partial_valid_partial_invalid_utf8(all, k);
    }
    let tail = decode_utf8(rest);
    decode_utf8_encode_utf8(bytes);
    decode_utf8_encode_utf8(rest);
    lemma_encode_concat(decode_utf8(bytes), tail);
    assert(all =~= bytes + rest);
    encode_utf8_decode_utf8(text);
    encode_utf8_decode_utf8(decode_utf8(bytes) + tail);
    tail
}

/// The text of bytes that end with a blank line ends with one too.
proof fn lemma_text_ends_with_blank_line(bytes: Seq<u8>)
    requires
        valid_utf8(bytes),
        bytes.len() >= 4,
        bytes.skip(bytes.len() - 4) == blank_line(),
    ensures
        decode_utf8(bytes).len() >= 4,
        decode_utf8(bytes).skip(decode_utf8(bytes).len() - 4) == crlf() + crlf(),
{
    let i = bytes.len() - 4;
    let last = crlf() + crlf();
    assert(bytes.skip(i)[0] == 13);
    assert(bytes[i] == 13);
    is_char_boundary_iff_is_leading_byte(bytes, i);
    assert(is_char_boundary(bytes, i));
    decode_utf8_split(bytes, i);
    assert(bytes.subrange(i, bytes.len() as int) =~= blank_line());
    assert(is_ascii_chars(last));
    is_ascii_chars_encode_utf8(last);
    assert(encode_utf8(last) =~= blank_line());
    encode_utf8_decode_utf8(last);
    assert(decode_utf8(blank_line()) == last);
    assert(decode_utf8(bytes).skip(decode_utf8(bytes).len() - 4) =~= last);
}

proof fn lemma_head_of_valid_header(bytes: Seq<u8>, text: Seq<char>, received: int)
    requires
        keeps_valid_start(bytes, text),
        find(bytes, blank_line()) is Some,
        valid_utf8(bytes.take(find(bytes, blank_line())->0 + 4)),
    ensures
        ({
            let end = find(bytes, blank_line())->0 + 4;
            &&& 4 <= end <= bytes.len()
            &&& head_of(text, received) == head_of(decode_utf8(bytes.take(end)), end)
            &&& head_of(text, received).header_end == end
        }),
{
    lemma_find(bytes, blank_line());
    let i = find(bytes, blank_line())->0;
    assert(blank_line().len() == 4);
    let end = i + 4;
    let header = bytes.take(end);
    let encoded = encode_utf8(text);
    assert(encoded.take(end) == header);
    assert forall|j: int| 0 <= j <= i implies #[trigger] occurs_at(encoded, blank_line(), j)
        == occurs_at(bytes, blank_line(), j) by {
        assert(encoded.subrange(j, j + 4) =~= encoded.take(end).subrange(j, j + 4));
        assert(bytes.subrange(j, j + 4) =~= header.subrange(j, j + 4));
    }
    assert(first_at(encoded, blank_line(), i));
    lemma_find_some(encoded, blank_line(), i);
    assert forall|j: int| 0 <= j <= i implies #[trigger] occurs_at(header, blank_line(), j)
        == occurs_at(bytes, blank_line(), j) by {
        assert(bytes.subrange(j, j + 4) =~= header.subrange(j, j + 4));
    }
    assert(first_at(header, blank_line(), i));
    lemma_find_some(header, blank_line(), i);
    decode_utf8_encode_utf8(header);
    let tail = lemma_text_begins_with(text, header);
    assert(header.skip(header.len() - 4) =~= bytes.subrange(i, i + 4));
    lemma_text_ends_with_blank_line(header);
    law_header_ends_at_its_blank_line(decode_utf8(header), tail, received, end);
}

impl Reader {
    /// A reader to which nothing has come.
    pub fn new() -> (reader: Reader)
        ensures
            reader@ == ReaderView::Header(Seq::empty()),
            reader@.wf(),
    {
        let bytes: Vec<u8> = Vec::new();
        proof {
            lemma_find(bytes@, blank_line());
            assert(blank_line().len() == 4);
        }
        Reader::Header(bytes)
    }

    /// How many bytes may be read next.
    pub fn room(&self) -> (room: usize)
        requires
            self@.wf(),
        ensures
            room == self@.room(),
            room > 0,
    {
        match self {
            Reader::Header(bytes) => HEADER_CAPACITY - bytes.len(),
            Reader::Body(..) => BODY_CHUNK,
        }
    }

    /// Takes a piece that was read; an empty one tells that the peer sends no more.
    pub fn received(self, piece: &[u8]) -> (received: Received)
        requires
            self@.wf(),
            piece@.len() <= self@.room(),
        ensures
            received@ == self@.after(piece@),
            received_wf(received@),
            // A header in UTF-8 is read up to its blank line, and no byte after it is lost.
            self@ matches ReaderView::Header(bytes) ==> piece@.len() > 0 && find(
                bytes + piece@,
                blank_line(),
            ) is Some && valid_utf8(
                (bytes + piece@).take(find(bytes + piece@, blank_line())->0 + 4),
            ) ==> split_at_blank_line(bytes + piece@, received@),
    {
        match self {
            Reader::Header(bytes) => {
                if piece.len() == 0 {
                    return Received::Closed;
                }
                let mut all = bytes;
                all.extend_from_slice(piece);
                assert(all@ =~= bytes@ + piece@);
                let blank: [u8; 4] = [13, 10, 13, 10];
                assert(blank@ =~= blank_line());
                if find_bytes(all.as_slice(), blank.as_slice()).is_none() && all.len()
                    != HEADER_CAPACITY {
                    return Received::More(Reader::Header(all));
                }
                let text = decode_lossy(all.as_slice());
                let head = read_head(text.as_str(), all.len());
                let body: Vec<u8> = if head.header_end < all.len() {
                    let rest = vstd::slice::slice_subrange(
                        all.as_slice(),
                        head.header_end,
                        all.len(),
                    );
                    let mut body: Vec<u8> = Vec::new();
                    body.extend_from_slice(rest);
                    assert(body@ =~= all@.skip(head.header_end as int));
                    body
                } else {
                    Vec::new()
                };
                proof {
                    lemma_find(all@, blank_line());
                    assert(blank_line().len() == 4);
                    if find(all@, blank_line()) is Some && valid_utf8(
                        all@.take(find(all@, blank_line())->0 + 4),
                    ) {
                        lemma_head_of_valid_header(all@, text@, all@.len() as int);
                        assert(body@ =~= all@.skip(head.header_end as int));
                    }
                }
                if body.len() < head.content_length {
                    Received::More(Reader::Body(head, body))
                } else {
                    Received::Ready(HttpRequest { head, body })
                }
            },
            Reader::Body(head, body) => {
                if piece.len() == 0 {
                    return Received::Ready(HttpRequest { head, body });
                }
                let mut body = body;
                let ghost before = body@;
                body.extend_from_slice(piece);
                assert(body@ =~= before + piece@);
                if body.len() < head.content_length {
                    Received::More(Reader::Body(head, body))
                } else {
                    Received::Ready(HttpRequest { head, body })
                }
            },
        }
    }

    /// Takes a failure to read.
    pub fn failed(self) -> (received: Received)
        ensures
            received@ == self@.after_failure(),
    {
        match self {
            Reader::Header(_) => Received::Closed,
            Reader::Body(head, body) => Received::Ready(HttpRequest { head, body }),
        }
    }
}

/// A request is handed on with a whole body unless the peer stopped before its end.
pub proof fn law_body_is_whole(reader: ReaderView, piece: Seq<u8>)
    requires
        reader.wf(),
        0 < piece.len() <= reader.room(),
    ensures
        reader.after(piece) matches ReceivedView::Ready(head, body) ==> body.len()
            >= head.content_length,
        reader.after(piece) matches ReceivedView::More(next) ==> next.wf(),
{
}

/// The pieces of a body are put together in the order in which they came, and none is lost.
pub proof fn law_body_is_what_came(head: HeadView, body: Seq<u8>, first: Seq<u8>, second: Seq<u8>)
    requires
        first.len() > 0,
        second.len() > 0,
        (body + first).len() < head.content_length,
    ensures
        ReaderView::Body(head, body).after(first) matches ReceivedView::More(next)
            && next.after(second) == ReaderView::Body(head, body).after(first + second),
{
    assert(body + first + second =~= body + (first + second));
}

/// The text ends with a line end that stands alone or behind another line end.
spec fn ends_blank(s: Seq<char>) -> bool {
    s == crlf() || (s.len() >= 4 && s.skip(s.len() - 4) == crlf() + crlf())
}

/// A text that ends with a blank line has a line end, and either that blank line is all that
/// follows it or what follows it ends with a blank line too.
proof fn lemma_ends_blank(s: Seq<char>)
    requires
        ends_blank(s),
    ensures
        find(s, crlf()) matches Some(i) && 0 <= i <= s.len() - 2 && (s.len() > 2 ==> ends_blank(
            s.skip(i + 2),
        )),
{
    assert(crlf().len() == 2);
    lemma_find(s, crlf());
    if s == crlf() {
        assert(s.subrange(0, 2) =~= crlf());
        assert(occurs_at(s, crlf(), 0));
    } else {
        let k = s.len() - 4;
        let last = crlf() + crlf();
        assert(s.skip(k)[0] == last[0] && s.skip(k)[1] == last[1] && s.skip(k)[2] == last[2]
            && s.skip(k)[3] == last[3]);
        assert(s[k] == '\r' && s[k + 1] == '\n' && s[k + 2] == '\r' && s[k + 3] == '\n');
        assert(s.subrange(k, k + 2) =~= crlf());
        assert(occurs_at(s, crlf(), k));
        let i = find(s, crlf())->0;
        assert(i <= k) by {
            if i > k {
                assert(!occurs_at(s, crlf(), k));
            }
        }
        assert(s.subrange(i, i + 2)[1] == '\n');
        assert(s[i + 1] == '\n');
        let rest = s.skip(i + 2);
        if i == k {
            assert(rest =~= crlf());
        } else {
            assert(i + 1 != k);
            assert(rest.skip(rest.len() - 4) =~= s.skip(k));
        }
    }
}

proof fn lemma_lines_split(s: Seq<char>)
    requires
        find(s, crlf()) is Some,
    ensures
        lines(s)[0] == s.take(find(s, crlf())->0),
        lines(s).drop_first() == lines(s.skip(find(s, crlf())->0 + 2)),
{
    let i = find(s, crlf())->0;
    assert(lines(s) =~= seq![s.take(i)] + lines(s.skip(i + 2)));
    assert(lines(s).drop_first() =~= lines(s.skip(i + 2)));
}

proof fn lemma_length_ignores_tail(header: Seq<char>, tail: Seq<char>, so_far: int)
    requires
        ends_blank(header),
    ensures
        content_length(lines(header + tail), so_far) == content_length(lines(header), so_far),
    decreases header.len(),
{
    lemma_ends_blank(header);
    lemma_find_in_front(header, tail, crlf());
    lemma_lines_split(header);
    lemma_lines_split(header + tail);
    let i = find(header, crlf())->0;
    assert((header + tail).take(i) =~= header.take(i));
    if i > 0 {
        assert((header + tail).skip(i + 2) =~= header.skip(i + 2) + tail);
        let length = if occurs_at(header.take(i), "Content-Length:"@, 0) {
            length_in(header.take(i))
        } else {
            so_far
        };
        lemma_length_ignores_tail(header.skip(i + 2), tail, length);
    }
}

/// What a header says does not depend on what follows its blank line.
pub proof fn law_header_ends_at_its_blank_line(
    header: Seq<char>,
    tail: Seq<char>,
    received: int,
    received_alone: int,
)
    requires
        header.len() >= 4,
        header.skip(header.len() - 4) == crlf() + crlf(),
    ensures
        head_of(header + tail, received).method == head_of(header, received_alone).method,
        head_of(header + tail, received).path == head_of(header, received_alone).path,
        head_of(header + tail, received).content_length == head_of(
            header,
            received_alone,
        ).content_length,
{
    lemma_ends_blank(header);
    lemma_find_in_front(header, tail, crlf());
    lemma_lines_split(header);
    lemma_lines_split(header + tail);
    let i = find(header, crlf())->0;
    assert((header + tail).take(i) =~= header.take(i));
    assert((header + tail).skip(i + 2) =~= header.skip(i + 2) + tail);
    lemma_length_ignores_tail(header.skip(i + 2), tail, 0);
}

/// No line end stands in the text.
pub open spec fn one_line(s: Seq<char>) -> bool {
    forall|i: int| 0 <= i < s.len() - 1 ==> !(#[trigger] s[i] == '\r' && s[i + 1] == '\n')
}

/// The lines, each closed by a line end.
pub open spec fn closed(lines: Seq<Seq<char>>) -> Seq<char>
    decreases lines.len(),
{
    if lines.len() == 0 {
        seq![]
    } else {
        lines[0] + seq!['\r', '\n'] + closed(lines.drop_first())
    }
}

/// A text is split at its first line end.
pub proof fn lemma_first_line(line: Seq<char>, rest: Seq<char>)
    requires
        one_line(line),
    ensures
        lines(line + seq!['\r', '\n'] + rest)[0] == line,
        lines(line + seq!['\r', '\n'] + rest).drop_first() == lines(rest),
        lines(line + seq!['\r', '\n'] + rest) == seq![line] + lines(rest),
{
    let s = line + seq!['\r', '\n'] + rest;
    let n = line.len() as int;
    assert(crlf() =~= seq!['\r', '\n']);
    assert(s.subrange(n, n + 2) =~= crlf());
    assert forall|j: int| 0 <= j < n implies !#[trigger] occurs_at(s, crlf(), j) by {
        if occurs_at(s, crlf(), j) {
            assert(s.subrange(j, j + 2)[0] == s[j] && s.subrange(j, j + 2)[1] == s[j + 1]);
            assert(s[j] == line[j]);
            if j + 1 < n {
                assert(s[j + 1] == line[j + 1]);
            } else {
                assert(s[j + 1] == '\r');
            }
        }
    }
    assert(first_at(s, crlf(), n));
    lemma_find_some(s, crlf(), n);
    assert(s.take(n) =~= line);
    assert(s.skip(n + 2) =~= rest);
    assert(lines(s) =~= seq![line] + lines(rest));
    assert(lines(s).drop_first() =~= lines(rest));
}

/// A text without a line end is one line.
proof fn lemma_only_line(line: Seq<char>)
    requires
        one_line(line),
    ensures
        lines(line) == seq![line],
{
    lemma_find(line, crlf());
    if let Some(i) = find(line, crlf()) {
        assert(line.subrange(i, i + 2)[0] == line[i] && line.subrange(i, i + 2)[1] == line[i + 1]);
        assert(crlf()[0] == '\r' && crlf()[1] == '\n');
    }
}

/// The lines of a text are what its line ends part: lines that were closed by line ends, and then
/// one that was not, are found again.
pub proof fn law_lines_are_found_again(closed_lines: Seq<Seq<char>>, last: Seq<char>)
    requires
        forall|i: int| 0 <= i < closed_lines.len() ==> one_line(#[trigger] closed_lines[i]),
        one_line(last),
    ensures
        lines(closed(closed_lines) + last) == closed_lines.push(last),
    decreases closed_lines.len(),
{
    if closed_lines.len() == 0 {
        assert(closed(closed_lines) + last =~= last);
        lemma_only_line(last);
        assert(closed_lines.push(last) =~= seq![last]);
    } else {
        let rest = closed_lines.drop_first();
        assert forall|i: int| 0 <= i < rest.len() implies one_line(#[trigger] rest[i]) by {
            assert(rest[i] == closed_lines[i + 1]);
        }
        law_lines_are_found_again(rest, last);
        lemma_first_line(closed_lines[0], closed(rest) + last);
        assert(closed(closed_lines) + last =~= closed_lines[0] + seq!['\r', '\n'] + (closed(rest)
            + last));
        assert(closed_lines.push(last) =~= seq![closed_lines[0]] + rest.push(last));
    }
}

proof fn lemma_closed_lines(closed_lines: Seq<Seq<char>>, rest: Seq<char>)
    requires
        forall|i: int| 0 <= i < closed_lines.len() ==> one_line(#[trigger] closed_lines[i]),
    ensures
        lines(closed(closed_lines) + rest) == closed_lines + lines(rest),
    decreases closed_lines.len(),
{
    if closed_lines.len() == 0 {
        assert(closed(closed_lines) + rest =~= rest);
        assert(closed_lines + lines(rest) =~= lines(rest));
    } else {
        let others = closed_lines.drop_first();
        assert forall|i: int| 0 <= i < others.len() implies one_line(#[trigger] others[i]) by {
            assert(others[i] == closed_lines[i + 1]);
        }
        lemma_closed_lines(others, rest);
        lemma_first_line(closed_lines[0], closed(others) + rest);
        assert(closed(closed_lines) + rest =~= closed_lines[0] + seq!['\r', '\n'] + (closed(others)
            + rest));
        assert(seq![closed_lines[0]] + (others + lines(rest)) =~= closed_lines + lines(rest));
    }
}

/// The first word of a request line is its method and the second its path, whatever white space
/// stands before, between and behind them and whatever follows.
pub proof fn law_request_line_has_two_words(
    before: Seq<char>,
    method: Seq<char>,
    between: Seq<char>,
    path: Seq<char>,
    rest: Seq<char>,
)
    requires
        all_white(before),
        none_white(method),
        method.len() > 0,
        all_white(between),
        between.len() > 0,
        none_white(path),
        path.len() > 0,
        rest.len() > 0 ==> is_white(rest[0]),
    ensures
        method_of(before + method + between + path + rest) == method,
        path_of(before + method + between + path + rest) == path,
{
    let line = before + method + between + path + rest;
    let a = before.len() as int;
    let b = a + method.len();
    let c = b + between.len();
    let d = c + path.len();
    assert(line.subrange(0, a) =~= before);
    assert(line.subrange(a, b) =~= method);
    assert(line.subrange(b, c) =~= between);
    assert(line.subrange(c, d) =~= path);
    assert(line[a] == method[0]);
    assert(line[b] == between[0]);
    assert(line[c] == path[0]);
    if rest.len() > 0 {
        assert(line[d] == rest[0]);
    }
    lemma_white_end(line, 0, a);
    lemma_word_end(line, a, b);
    lemma_white_end(line, b, c);
    lemma_word_end(line, c, d);
}

/// A request line with one word has the path `/`, and one without words an empty method too.
pub proof fn law_request_line_may_lack_words(
    before: Seq<char>,
    method: Seq<char>,
    after: Seq<char>,
)
    requires
        all_white(before),
        none_white(method),
        all_white(after),
    ensures
        method_of(before + method + after) == method,
        path_of(before + method + after) == seq!['/'],
{
    reveal_strlit("/");
    assert("/"@ =~= seq!['/']);
    let line = before + method + after;
    let a = before.len() as int;
    let b = a + method.len();
    let n = line.len() as int;
    if method.len() > 0 {
        assert(line.subrange(0, a) =~= before);
        assert(line.subrange(a, b) =~= method);
        assert(line.subrange(b, n) =~= after);
        assert(line[a] == method[0]);
        if after.len() > 0 {
            assert(line[b] == after[0]);
        }
        lemma_white_end(line, 0, a);
        lemma_word_end(line, a, b);
        lemma_white_end(line, b, n);
        lemma_word_end(line, n, n);
    } else {
        assert forall|i: int| 0 <= i < n implies is_white(#[trigger] line[i]) by {
            if i < a {
                assert(line[i] == before[i]);
            } else {
                assert(line[i] == after[i - a]);
            }
        }
        assert(line.subrange(0, n) =~= line);
        lemma_white_end(line, 0, n);
        lemma_word_end(line, n, n);
        lemma_white_end(line, n, n);
        assert(line.subrange(n, n) =~= method);
    }
}

/// A header line with a length.
pub open spec fn length_line(value: Seq<char>) -> Seq<char> {
    "Content-Length:"@ + value
}

/// A line tells no length.
pub open spec fn tells_no_length(line: Seq<char>) -> bool {
    forall|value: Seq<char>| line != #[trigger] length_line(value)
}

proof fn lemma_other_line(line: Seq<char>)
    requires
        tells_no_length(line),
    ensures
        !occurs_at(line, "Content-Length:"@, 0),
{
    law_prefix_can_be_completed(line, "Content-Length:"@);
    if occurs_at(line, "Content-Length:"@, 0) {
        assert(line == length_line(line.skip("Content-Length:"@.len() as int)));
    }
}

proof fn lemma_other_lines_keep_the_length(
    others: Seq<Seq<char>>,
    end: Seq<Seq<char>>,
    so_far: int,
)
    requires
        forall|i: int|
            0 <= i < others.len() ==> (#[trigger] others[i]).len() > 0 && tells_no_length(
                others[i],
            ),
        end.len() == 0 || end[0].len() == 0,
    ensures
        content_length(others + end, so_far) == so_far,
    decreases others.len(),
{
    let all = others + end;
    if others.len() > 0 {
        assert(all[0] == others[0]);
        lemma_other_line(others[0]);
        let rest = others.drop_first();
        assert forall|i: int| 0 <= i < rest.len() implies (#[trigger] rest[i]).len() > 0
            && tells_no_length(rest[i]) by {
            assert(rest[i] == others[i + 1]);
        }
        lemma_other_lines_keep_the_length(rest, end, so_far);
        assert(all.drop_first() =~= rest + end);
    } else {
        assert(all =~= end);
    }
}

proof fn lemma_last_length_counts(
    before: Seq<Seq<char>>,
    value: Seq<char>,
    after: Seq<Seq<char>>,
    end: Seq<Seq<char>>,
    so_far: int,
)
    requires
        forall|i: int| 0 <= i < before.len() ==> (#[trigger] before[i]).len() > 0,
        forall|i: int| 0 <= i < after.len() ==> (#[trigger] after[i]).len() > 0 && tells_no_length(
            after[i],
        ),
        end.len() == 0 || end[0].len() == 0,
    ensures
        content_length(before + seq![length_line(value)] + after + end, so_far) == match parse(
            trim(value),
            10,
            usize::MAX as int,
        ) {
            Some(n) => n,
            None => 0,
        },
    decreases before.len(),
{
    let line = length_line(value);
    let all = before + seq![line] + after + end;
    reveal_strlit("Content-Length:");
    if before.len() > 0 {
        assert(all[0] == before[0]);
        let rest = before.drop_first();
        assert forall|i: int| 0 <= i < rest.len() implies (#[trigger] rest[i]).len() > 0 by {
            assert(rest[i] == before[i + 1]);
        }
        assert(all.drop_first() =~= rest + seq![line] + after + end);
        let length = if occurs_at(before[0], "Content-Length:"@, 0) {
            length_in(before[0])
        } else {
            so_far
        };
        lemma_last_length_counts(rest, value, after, end, length);
    } else {
        assert(all[0] == line);
        law_prefix_can_be_completed(line, "Content-Length:"@);
        assert(line.skip(15) =~= value);
        assert(all.drop_first() =~= after + end);
        lemma_other_lines_keep_the_length(after, end, length_in(line));
    }
}

/// The length that a header announces is the number on its last length line, wherever that stands:
/// lines that tell no length do not touch it, before it or behind it, and neither does anything
/// behind the blank line. What is no number there counts as zero.
pub proof fn law_last_length_line_counts(
    request: Seq<char>,
    before: Seq<Seq<char>>,
    value: Seq<char>,
    after: Seq<Seq<char>>,
    tail: Seq<char>,
    received: int,
)
    requires
        one_line(request),
        forall|i: int|
            0 <= i < before.len() ==> one_line(#[trigger] before[i]) && before[i].len() > 0,
        one_line(length_line(value)),
        forall|i: int|
            0 <= i < after.len() ==> one_line(#[trigger] after[i]) && after[i].len() > 0
                && tells_no_length(after[i]),
    ensures
        head_of(
            closed(seq![request] + before + seq![length_line(value)] + after) + seq!['\r', '\n']
                + tail,
            received,
        ).content_length == match parse(trim(value), 10, usize::MAX as int) {
            Some(n) => n,
            None => 0,
        },
{
    let heads = seq![request] + before + seq![length_line(value)] + after;
    let text = closed(heads) + seq!['\r', '\n'] + tail;
    assert forall|i: int| 0 <= i < heads.len() implies one_line(#[trigger] heads[i]) by {
        if i == 0 {
        } else if i <= before.len() {
            assert(heads[i] == before[i - 1]);
        } else if i == before.len() + 1 {
        } else {
            assert(heads[i] == after[i - before.len() - 2]);
        }
    }
    let empty = Seq::<char>::empty();
    let rest = empty + seq!['\r', '\n'] + tail;
    assert(text =~= closed(heads) + rest);
    lemma_closed_lines(heads, rest);
    lemma_first_line(empty, tail);
    let end = seq![empty] + lines(tail);
    assert(lines(text).drop_first() =~= before + seq![length_line(value)] + after + end);
    lemma_last_length_counts(before, value, after, end, 0);
}

/// A number that a length line gives, with white space around it or without, is the length.
pub proof fn law_length_is_the_number_given(
    request: Seq<char>,
    before: Seq<Seq<char>>,
    left: Seq<char>,
    n: nat,
    right: Seq<char>,
    after: Seq<Seq<char>>,
    tail: Seq<char>,
    received: int,
)
    requires
        n <= usize::MAX,
        all_white(left),
        all_white(right),
        one_line(request),
        forall|i: int|
            0 <= i < before.len() ==> one_line(#[trigger] before[i]) && before[i].len() > 0,
        one_line(length_line(left + decimal(n) + right)),
        forall|i: int|
            0 <= i < after.len() ==> one_line(#[trigger] after[i]) && after[i].len() > 0
                && tells_no_length(after[i]),
    ensures
        head_of(
            closed(seq![request] + before + seq![length_line(left + decimal(n) + right)] + after)
                + seq!['\r', '\n'] + tail,
            received,
        ).content_length == n,
{
    lemma_decimal(n);
    let digits = decimal(n);
    assert(digit_value(digits[0]) < 10 && digit_value(digits[digits.len() - 1]) < 10);
    law_trim_takes_the_white_ends(left, digits, right);
    law_decimal_reads_back(n, usize::MAX as int);
    law_last_length_line_counts(request, before, left + digits + right, after, tail, received);
}

/// A header without a length line announces nothing.
pub proof fn law_no_length_line_is_no_length(
    request: Seq<char>,
    others: Seq<Seq<char>>,
    tail: Seq<char>,
    received: int,
)
    requires
        one_line(request),
        forall|i: int|
            0 <= i < others.len() ==> one_line(#[trigger] others[i]) && others[i].len() > 0
                && tells_no_length(others[i]),
    ensures
        head_of(closed(seq![request] + others) + seq!['\r', '\n'] + tail, received).content_length
            == 0,
{
    let heads = seq![request] + others;
    let text = closed(heads) + seq!['\r', '\n'] + tail;
    assert forall|i: int| 0 <= i < heads.len() implies one_line(#[trigger] heads[i]) by {
        if i > 0 {
            assert(heads[i] == others[i - 1]);
        }
    }
    let empty = Seq::<char>::empty();
    let rest = empty + seq!['\r', '\n'] + tail;
    assert(text =~= closed(heads) + rest);
    lemma_closed_lines(heads, rest);
    lemma_first_line(empty, tail);
    let end = seq![empty] + lines(tail);
    assert(lines(text).drop_first() =~= others + end);
    lemma_other_lines_keep_the_length(others, end, 0);
}

/// A header that was cut short announces the number on its last length line too, be that line the
/// last one or not.
pub proof fn law_length_of_a_header_that_was_cut(
    request: Seq<char>,
    before: Seq<Seq<char>>,
    value: Seq<char>,
    after: Seq<Seq<char>>,
    last: Seq<char>,
    received: int,
)
    requires
        one_line(request),
        forall|i: int|
            0 <= i < before.len() ==> one_line(#[trigger] before[i]) && before[i].len() > 0,
        one_line(length_line(value)),
        forall|i: int|
            0 <= i < after.len() ==> one_line(#[trigger] after[i]) && after[i].len() > 0
                && tells_no_length(after[i]),
        one_line(last) && last.len() > 0 && tells_no_length(last),
    ensures
        ({
            let announced = match parse(trim(value), 10, usize::MAX as int) {
                Some(n) => n,
                None => 0,
            };
            let front = seq![request] + before;
            &&& head_of(closed(front) + length_line(value), received).content_length == announced
            &&& head_of(
                closed(front + seq![length_line(value)] + after) + last,
                received,
            ).content_length == announced
        }),
{
    let front = seq![request] + before;
    let line = length_line(value);
    let none = Seq::<Seq<char>>::empty();
    assert forall|i: int| 0 <= i < front.len() implies one_line(#[trigger] front[i]) by {
        if i > 0 {
            assert(front[i] == before[i - 1]);
        }
    }
    law_lines_are_found_again(front, line);
    assert(front.push(line).drop_first() =~= before + seq![line] + none + none);
    lemma_last_length_counts(before, value, none, none, 0);
    let heads = front + seq![line] + after;
    assert forall|i: int| 0 <= i < heads.len() implies one_line(#[trigger] heads[i]) by {
        if i < front.len() {
            assert(heads[i] == front[i]);
        } else if i > front.len() {
            assert(heads[i] == after[i - front.len() - 1]);
        }
    }
    law_lines_are_found_again(heads, last);
    let rest = after.push(last);
    assert(heads.push(last).drop_first() =~= before + seq![line] + rest + none);
    lemma_last_length_counts(before, value, rest, none, 0);
}

/// The method and the path of a header are those of its first line, whatever follows it.
pub proof fn law_method_and_path_stand_in_the_first_line(
    request: Seq<char>,
    rest: Seq<char>,
    received: int,
)
    requires
        one_line(request),
    ensures
        head_of(request + seq!['\r', '\n'] + rest, received).method == method_of(request),
        head_of(request + seq!['\r', '\n'] + rest, received).path == path_of(request),
        head_of(request, received).method == method_of(request),
        head_of(request, received).path == path_of(request),
{
    lemma_first_line(request, rest);
    lemma_only_line(request);
}

/// A header takes the bytes up to and with its first blank line, and all that was received where it
/// has none.
pub proof fn law_header_end_is_behind_the_first_blank_line(text: Seq<char>, received: int)
    ensures
        ({
            let bytes = encode_utf8(text);
            let end = header_end(text, received);
            let blank_at = |j: int|
                0 <= j <= bytes.len() - 4 && bytes[j] == 13 && bytes[j + 1] == 10 && bytes[j + 2]
                    == 13 && bytes[j + 3] == 10;
            ||| blank_at(end - 4) && forall|j: int| j < end - 4 ==> !(#[trigger] blank_at(j))
            ||| end == received && forall|j: int| !(#[trigger] blank_at(j))
        }),
{
    let bytes = encode_utf8(text);
    lemma_find(bytes, blank_line());
    assert(blank_line().len() == 4);
    assert(blank_line()[0] == 13 && blank_line()[1] == 10 && blank_line()[2] == 13
        && blank_line()[3] == 10);
    let blank_at = |j: int|
        0 <= j <= bytes.len() - 4 && bytes[j] == 13 && bytes[j + 1] == 10 && bytes[j + 2] == 13
            && bytes[j + 3] == 10;
    assert forall|j: int| #[trigger] blank_at(j) implies occurs_at(bytes, blank_line(), j) by {
        assert(bytes.subrange(j, j + 4) =~= blank_line());
    }
    if let Some(i) = find(bytes, blank_line()) {
        let part = bytes.subrange(i, i + 4);
        assert(part[0] == bytes[i] && part[1] == bytes[i + 1] && part[2] == bytes[i + 2] && part[3]
            == bytes[i + 3]);
        assert(blank_at(i));
        assert forall|j: int| j < i implies !(#[trigger] blank_at(j)) by {
            if blank_at(j) {
                assert(!occurs_at(bytes, blank_line(), j));
            }
        }
    }
}

/// What comes of pieces that are read one after the other, up to the first that ends it.
pub open spec fn read_in_pieces(reader: ReaderView, pieces: Seq<Seq<u8>>) -> ReceivedView
    decreases pieces.len(),
{
    if pieces.len() == 0 {
        ReceivedView::More(reader)
    } else {
        match reader.after(pieces[0]) {
            ReceivedView::More(next) => read_in_pieces(next, pieces.drop_first()),
            end => end,
        }
    }
}

proof fn lemma_body_in_pieces(
    head: HeadView,
    come: Seq<u8>,
    pieces: Seq<Seq<u8>>,
    body: Seq<u8>,
)
    requires
        forall|i: int| 0 <= i < pieces.len() ==> (#[trigger] pieces[i]).len() > 0,
        come + pieces.flatten() == body,
        come.len() < body.len(),
        head.content_length == body.len(),
    ensures
        read_in_pieces(ReaderView::Body(head, come), pieces) == ReceivedView::Ready(head, body),
    decreases pieces.len(),
{
    if pieces.len() == 0 {
        assert(pieces.flatten() =~= Seq::<u8>::empty());
        assert(come + pieces.flatten() =~= come);
    } else {
        let rest = pieces.drop_first();
        let next = come + pieces[0];
        assert(pieces.flatten() == pieces[0] + rest.flatten());
        assert(next + rest.flatten() =~= body);
        assert forall|i: int| 0 <= i < rest.len() implies (#[trigger] rest[i]).len() > 0 by {
            assert(rest[i] == pieces[i + 1]);
        }
        if next.len() < body.len() {
            lemma_body_in_pieces(head, next, rest, body);
        } else {
            assert(rest.flatten().len() == 0);
            assert(next =~= body);
        }
    }
}

proof fn lemma_header_in_pieces(
    come: Seq<u8>,
    pieces: Seq<Seq<u8>>,
    header: Seq<u8>,
    body: Seq<u8>,
)
    requires
        forall|b: Seq<u8>| keeps_valid_start(b, #[trigger] lossy_text(b)),
        forall|i: int| 0 <= i < pieces.len() ==> (#[trigger] pieces[i]).len() > 0,
        come + pieces.flatten() == header + body,
        come.len() < header.len() <= HEADER_CAPACITY,
        find(header, blank_line()) == Some(header.len() - 4),
        valid_utf8(header),
        head_of(decode_utf8(header), header.len() as int).content_length == body.len(),
    ensures
        read_in_pieces(ReaderView::Header(come), pieces) == ReceivedView::Ready(
            head_of(decode_utf8(header), header.len() as int),
            body,
        ),
    decreases pieces.len(),
{
    let head = head_of(decode_utf8(header), header.len() as int);
    assert(blank_line().len() == 4);
    lemma_find(header, blank_line());
    if pieces.len() == 0 {
        assert(pieces.flatten() =~= Seq::<u8>::empty());
        assert(come + pieces.flatten() =~= come);
    } else {
        let rest = pieces.drop_first();
        let all = come + pieces[0];
        assert(pieces.flatten() == pieces[0] + rest.flatten());
        assert(all + rest.flatten() =~= header + body);
        assert forall|i: int| 0 <= i < rest.len() implies (#[trigger] rest[i]).len() > 0 by {
            assert(rest[i] == pieces[i + 1]);
        }
        assert forall|i: int| 0 <= i < all.len() implies all[i] == (header + body)[i] by {
            assert((all + rest.flatten())[i] == all[i]);
        }
        if all.len() < header.len() {
            lemma_find(all, blank_line());
            if let Some(i) = find(all, blank_line()) {
                assert(all.subrange(i, i + 4) =~= header.subrange(i, i + 4));
                assert(occurs_at(header, blank_line(), i));
            }
            lemma_header_in_pieces(all, rest, header, body);
        } else {
            let come_body = all.skip(header.len() as int);
            assert(all =~= header + come_body);
            lemma_find_in_front(header, come_body, blank_line());
            assert(all.take(header.len() as int) =~= header);
            assert(keeps_valid_start(all, lossy_text(all)));
            lemma_head_of_valid_header(all, lossy_text(all), all.len() as int);
            assert(head_of(lossy_text(all), all.len() as int) == head);
            assert(come_body + rest.flatten() =~= body) by {
                assert forall|i: int| 0 <= i < body.len() implies (come_body + rest.flatten())[i]
                    == body[i] by {
                    assert((all + rest.flatten())[header.len() + i] == (header + body)[header.len()
                        + i]);
                }
            }
            if head.header_end >= all.len() {
                assert(come_body =~= Seq::<u8>::empty());
            }
            assert(ReaderView::Header(come).after(pieces[0]) == body_so_far(head, come_body));
            if come_body.len() < body.len() {
                lemma_body_in_pieces(head, come_body, rest, body);
            } else {
                assert(rest.flatten().len() == 0);
                assert(come_body =~= body);
            }
        }
    }
}

/// However a request comes, it is read whole: a header in UTF-8 of at most 8192 bytes and a body of
/// the length that it announces, cut into any pieces, give the same request, with what the header's
/// own text says and the body byte for byte. (The premise is what decoding promises of every text.)
pub proof fn law_request_is_read_in_any_pieces(
    pieces: Seq<Seq<u8>>,
    header: Seq<u8>,
    body: Seq<u8>,
)
    ensures
        ({
            &&& forall|b: Seq<u8>| keeps_valid_start(b, #[trigger] lossy_text(b))
            &&& forall|i: int| 0 <= i < pieces.len() ==> (#[trigger] pieces[i]).len() > 0
            &&& pieces.flatten() == header + body
            &&& 4 <= header.len() <= 8192
            &&& find(header, seq![13u8, 10u8, 13u8, 10u8]) == Some(header.len() - 4)
            &&& valid_utf8(header)
            &&& head_of(decode_utf8(header), header.len() as int).content_length == body.len()
        }) ==> read_in_pieces(ReaderView::Header(Seq::empty()), pieces) == ReceivedView::Ready(
            head_of(decode_utf8(header), header.len() as int),
            body,
        ),
{
    if {
        &&& forall|b: Seq<u8>| keeps_valid_start(b, #[trigger] lossy_text(b))
        &&& forall|i: int| 0 <= i < pieces.len() ==> (#[trigger] pieces[i]).len() > 0
        &&& pieces.flatten() == header + body
        &&& 4 <= header.len() <= 8192
        &&& find(header, seq![13u8, 10u8, 13u8, 10u8]) == Some(header.len() - 4)
        &&& valid_utf8(header)
        &&& head_of(decode_utf8(header), header.len() as int).content_length == body.len()
    } {
        assert(blank_line() =~= seq![13u8, 10u8, 13u8, 10u8]);
        assert(Seq::<u8>::empty() + pieces.flatten() =~= header + body);
        lemma_header_in_pieces(Seq::empty(), pieces, header, body);
    }
}

/// A peer that sends no more, or cannot be read from, is left alone within the header, and within
/// the body its request counts with what has come.
pub proof fn law_peer_may_stop(bytes: Seq<u8>, head: HeadView, body: Seq<u8>)
    ensures
        ReaderView::Header(bytes).after(Seq::empty()) == ReceivedView::Closed,
        ReaderView::Header(bytes).after_failure() == ReceivedView::Closed,
        ReaderView::Body(head, body).after(Seq::empty()) == ReceivedView::Ready(head, body),
        ReaderView::Body(head, body).after_failure() == ReceivedView::Ready(head, body),
        ReaderView::Body(head, body).room() == 1024,
        ReaderView::Header(bytes).room() == 8192 - bytes.len(),
{
}

/// Once its blank line has come, or 8192 bytes have, a header is read as the text that it decodes
/// to; what was received behind its end begins the body, which is read on until it is as long as
/// the header announces.
pub proof fn law_complete_header_begins_the_body(bytes: Seq<u8>, piece: Seq<u8>)
    requires
        piece.len() > 0,
        find(bytes + piece, seq![13u8, 10u8, 13u8, 10u8]) is Some || (bytes + piece).len() == 8192,
    ensures
        ({
            let all = bytes + piece;
            let head = head_of(lossy_text(all), all.len() as int);
            let body = if head.header_end < all.len() {
                all.skip(head.header_end)
            } else {
                seq![]
            };
            ReaderView::Header(bytes).after(piece) == if body.len() < head.content_length {
                ReceivedView::More(ReaderView::Body(head, body))
            } else {
                ReceivedView::Ready(head, body)
            }
        }),
{
    assert(blank_line() =~= seq![13u8, 10u8, 13u8, 10u8]);
}

/// A body is read on until it is as long as its header announces; every piece of it is kept, the
/// last one whole.
pub proof fn law_body_is_read_on(head: HeadView, body: Seq<u8>, piece: Seq<u8>)
    requires
        piece.len() > 0,
    ensures
        ReaderView::Body(head, body).after(piece) == if (body + piece).len() < head.content_length {
            ReceivedView::More(ReaderView::Body(head, body + piece))
        } else {
            ReceivedView::Ready(head, body + piece)
        },
{
}

/// A header whose blank line does not come is read on as long as there is room.
pub proof fn law_header_is_read_on(bytes: Seq<u8>, piece: Seq<u8>)
    requires
        piece.len() > 0,
        bytes.len() + piece.len() < 8192,
        find(bytes + piece, seq![13u8, 10u8, 13u8, 10u8]) is None,
    ensures
        ReaderView::Header(bytes).after(piece) == ReceivedView::More(
            ReaderView::Header(bytes + piece),
        ),
{
    assert(blank_line() =~= seq![13u8, 10u8, 13u8, 10u8]);
}

/// What a request asks for.
#[derive(Clone, Copy, Debug, PartialEq, Eq, Structural)]
pub enum Route {
    /// The page on which the device is set up.
    SetupPage,
    /// The settings, as a JSON document.
    ReadSettings,
    /// A change of the settings.
    Change(Target),
    /// Nothing that the server has.
    NotFound,
}

/// Which settings are to be changed.
#[derive(Clone, Copy, Debug, PartialEq, Eq, Structural)]
pub enum Target {
    Madctl,
    Gap,
    Rotate,
    Settings,
    /// None that the device knows.
    Unknown,
}

/// Which settings a path names.
pub open spec fn target_of(path: Seq<char>) -> Target {
    if path == "/api/set/madctl"@ {
        Target::Madctl
    } else if path == "/api/set/gap"@ {
        Target::Gap
    } else if path == "/api/set/rotate"@ {
        Target::Rotate
    } else if path == "/api/set/settings"@ {
        Target::Settings
    } else {
        Target::Unknown
    }
}

/// What a request with this method and this path asks for.
pub open spec fn route_of(method: Seq<char>, path: Seq<char>) -> Route {
    if method == "GET"@ && (path == "/"@ || path == "/setup"@) {
        Route::SetupPage
    } else if method == "GET"@ && path == "/api/settings"@ {
        Route::ReadSettings
    } else if method == "POST"@ && occurs_at(path, "/api/set/"@, 0) {
        Route::Change(target_of(path))
    } else {
        Route::NotFound
    }
}

/// Tells what a request asks for.
pub fn route(method: &str, path: &str) -> (route: Route)
    ensures
        route == route_of(method@, path@),
{
    let get = same_text(method, "GET");
    if get && (same_text(path, "/") || same_text(path, "/setup")) {
        Route::SetupPage
    } else if get && same_text(path, "/api/settings") {
        Route::ReadSettings
    } else if same_text(method, "POST") && prefix_at(
        chars_of(path).as_slice(),
        chars_of("/api/set/").as_slice(),
        0,
    ) {
        if same_text(path, "/api/set/madctl") {
            Route::Change(Target::Madctl)
        } else if same_text(path, "/api/set/gap") {
            Route::Change(Target::Gap)
        } else if same_text(path, "/api/set/rotate") {
            Route::Change(Target::Rotate)
        } else if same_text(path, "/api/set/settings") {
            Route::Change(Target::Settings)
        } else {
            Route::Change(Target::Unknown)
        }
    } else {
        Route::NotFound
    }
}

/// What the server has: the page at `/` and `/setup`, the settings at `/api/settings`, and for a
/// change every path below `/api/set/`, of which four name something to change. For any other
/// method or path it has nothing.
pub proof fn law_routes(method: Seq<char>, path: Seq<char>)
    ensures
        route_of(method, path) == Route::SetupPage <==> method == "GET"@ && (path == "/"@ || path
            == "/setup"@),
        route_of(method, path) == Route::ReadSettings <==> method == "GET"@ && path
            == "/api/settings"@,
        route_of(method, path) is Change <==> method == "POST"@ && path.len() >= 9 && path.take(9)
            == "/api/set/"@,
        method == "POST"@ ==> {
            &&& route_of(method, path) == Route::Change(Target::Madctl) <==> path
                == "/api/set/madctl"@
            &&& route_of(method, path) == Route::Change(Target::Gap) <==> path == "/api/set/gap"@
            &&& route_of(method, path) == Route::Change(Target::Rotate) <==> path
                == "/api/set/rotate"@
            &&& route_of(method, path) == Route::Change(Target::Settings) <==> path
                == "/api/set/settings"@
        },
{
    reveal_strlit("GET");
    reveal_strlit("POST");
    reveal_strlit("/");
    reveal_strlit("/setup");
    reveal_strlit("/api/settings");
    reveal_strlit("/api/set/");
    reveal_strlit("/api/set/madctl");
    reveal_strlit("/api/set/gap");
    reveal_strlit("/api/set/rotate");
    reveal_strlit("/api/set/settings");
    assert("GET"@.len() != "POST"@.len());
    assert("/"@.len() == 1 && "/setup"@.len() == 6 && "/api/settings"@.len() == 13);
    assert("/api/set/"@.len() == 9);
    assert("/api/set/madctl"@.len() == 15 && "/api/set/rotate"@.len() == 15);
    assert("/api/set/madctl"@[9] == 'm' && "/api/set/rotate"@[9] == 'r');
    assert("/api/set/gap"@.len() == 12 && "/api/set/settings"@.len() == 17);
    if path.len() >= 9 {
        assert(path.take(9) =~= path.subrange(0, 9));
    }
    assert("/api/set/madctl"@.subrange(0, 9) =~= "/api/set/"@);
    assert("/api/set/gap"@.subrange(0, 9) =~= "/api/set/"@);
    assert("/api/set/rotate"@.subrange(0, 9) =~= "/api/set/"@);
    assert("/api/set/settings"@.subrange(0, 9) =~= "/api/set/"@);
}

} // verus!
