//! Responses of the set-up server.
use crate::http::{
    blank_line, content_length, crlf, head_of, header_end, law_header_ends_at_its_blank_line,
    lemma_encode_concat, length_in, lines,
};
use crate::text::{
    decimal, decimal_text, digit_value, find, first_at, is_white, law_decimal_reads_back,
    lemma_decimal, lemma_find, lemma_find_in_front, lemma_find_some, occurs_at, trim, white_end,
    white_start,
};
use vstd::prelude::*;
use vstd::utf8::{encode_utf8, is_ascii_chars, is_ascii_chars_encode_utf8};

verus! {

/// The media type of a page.
pub const HTML: &'static str = "text/html; charset=utf-8";

/// The media type of a document.
pub const JSON: &'static str = "application/json";

/// The answer to a change.
pub const CHANGED: &'static str = "{\"ok\":true}";

/// The header of a response with a body of `length` bytes.
pub open spec fn response_head(media_type: Seq<char>, length: nat) -> Seq<char> {
    "HTTP/1.1 200 OK\r\nContent-Type: "@ + media_type + "\r\nContent-Length: "@ + decimal(length)
        + "\r\n\r\n"@
}

/// A response that brings a body.
pub open spec fn response(media_type: Seq<char>, body: Seq<char>) -> Seq<char> {
    response_head(media_type, encode_utf8(body).len()) + body
}

/// Frames a response that brings a body.
pub fn ok_response(media_type: &str, body: &str) -> (text: String)
    ensures
        text@ == response(media_type@, body@),
{
    let mut text = "HTTP/1.1 200 OK\r\nContent-Type: ".to_owned();
    text.append(media_type);
    text.append("\r\nContent-Length: ");
    text.append(decimal_text(body.as_bytes().len() as u64).as_str());
    text.append("\r\n\r\n");
    text.append(body);
    text
}

/// The response to a request for something that is not there.
pub fn not_found_response() -> (text: &'static str)
    ensures
        text@ == "HTTP/1.1 404 Not Found\r\nContent-Length: 0\r\n\r\n"@,
{
    "HTTP/1.1 404 Not Found\r\nContent-Length: 0\r\n\r\n"
}

proof fn lemma_one_line(line: Seq<char>, rest: Seq<char>)
    requires
        !line.contains('\r'),
    ensures
        lines(line + crlf() + rest)[0] == line,
        lines(line + crlf() + rest).drop_first() == lines(rest),
{
    let s = line + crlf() + rest;
    let n = line.len() as int;
    assert(crlf().len() == 2);
    assert(s.subrange(n, n + 2) =~= crlf());
    assert forall|j: int| 0 <= j < n implies !#[trigger] occurs_at(s, crlf(), j) by {
        assert(s.subrange(j, j + 2)[0] == line[j]);
        assert(crlf()[0] == '\r');
    }
    assert(first_at(s, crlf(), n));
    lemma_find_some(s, crlf(), n);
    assert(s.take(n) =~= line);
    assert(s.skip(n + 2) =~= rest);
    assert(lines(s) =~= seq![line] + lines(rest));
    assert(lines(s).drop_first() =~= lines(rest));
}

proof fn lemma_trim_number(n: nat)
    ensures
        trim(seq![' '] + decimal(n)) == decimal(n),
{
    lemma_decimal(n);
    let s = seq![' '] + decimal(n);
    let last = decimal(n)[decimal(n).len() - 1];
    assert(s[0] == ' ');
    assert(s[1] == decimal(n)[0]);
    assert(digit_value(decimal(n)[0]) < 10);
    assert(digit_value(last) < 10);
    assert(s[s.len() - 1] == last);
    assert(!is_white(s[1]) && !is_white(last));
    reveal_with_fuel(white_end, 2);
    assert(white_end(s, 0) == 1);
    assert(white_start(s, s.len() as int) == s.len());
    assert(s.subrange(1, s.len() as int) =~= decimal(n));
}

proof fn lemma_head_lines(media_type: Seq<char>, length: nat)
    ensures
        response_head(media_type, length) == "HTTP/1.1 200 OK"@ + crlf() + ("Content-Type: "@
            + media_type + crlf() + ("Content-Length: "@ + decimal(length) + crlf() + crlf())),
{
    reveal_strlit("HTTP/1.1 200 OK\r\nContent-Type: ");
    reveal_strlit("HTTP/1.1 200 OK");
    reveal_strlit("Content-Type: ");
    reveal_strlit("\r\nContent-Length: ");
    reveal_strlit("Content-Length: ");
    reveal_strlit("\r\n\r\n");
    assert("HTTP/1.1 200 OK\r\nContent-Type: "@ =~= "HTTP/1.1 200 OK"@ + crlf()
        + "Content-Type: "@);
    assert("\r\nContent-Length: "@ =~= crlf() + "Content-Length: "@);
    assert("\r\n\r\n"@ =~= crlf() + crlf());
    assert(response_head(media_type, length) =~= "HTTP/1.1 200 OK"@ + crlf() + ("Content-Type: "@
        + media_type + crlf() + ("Content-Length: "@ + decimal(length) + crlf() + crlf())));
}

proof fn lemma_type_line(media_type: Seq<char>)
    requires
        !media_type.contains('\r'),
    ensures
        !("Content-Type: "@ + media_type).contains('\r'),
        ("Content-Type: "@ + media_type).len() > 0,
        !occurs_at("Content-Type: "@ + media_type, "Content-Length:"@, 0),
{
    reveal_strlit("Content-Type: ");
    reveal_strlit("Content-Length:");
    let line = "Content-Type: "@ + media_type;
    if line.contains('\r') {
        let k = choose|k: int| 0 <= k < line.len() && line[k] == '\r';
        if k >= 14 {
            assert(media_type[k - 14] == '\r');
        }
    }
    if occurs_at(line, "Content-Length:"@, 0) {
        assert(line.subrange(0, 15)[8] == "Content-Length:"@[8]);
        assert(line[8] == 'T');
    }
}

proof fn lemma_length_line(length: nat)
    requires
        length <= usize::MAX,
    ensures
        !("Content-Length: "@ + decimal(length)).contains('\r'),
        ("Content-Length: "@ + decimal(length)).len() > 0,
        occurs_at("Content-Length: "@ + decimal(length), "Content-Length:"@, 0),
        length_in("Content-Length: "@ + decimal(length)) == length,
{
    reveal_strlit("Content-Length: ");
    reveal_strlit("Content-Length:");
    lemma_decimal(length);
    let digits = decimal(length);
    let line = "Content-Length: "@ + digits;
    if line.contains('\r') {
        let k = choose|k: int| 0 <= k < line.len() && line[k] == '\r';
        if k >= 16 {
            assert(digit_value(digits[k - 16]) < 10);
        }
    }
    assert(line.subrange(0, 15) =~= "Content-Length:"@);
    assert(line.skip(15) =~= seq![' '] + digits);
    lemma_trim_number(length);
    law_decimal_reads_back(length, usize::MAX as int);
}

proof fn lemma_announced_length(media_type: Seq<char>, length: nat)
    requires
        !media_type.contains('\r'),
        length <= usize::MAX,
    ensures
        content_length(lines(response_head(media_type, length)).drop_first(), 0) == length,
{
    lemma_head_lines(media_type, length);
    lemma_type_line(media_type);
    lemma_length_line(length);
    let first = "HTTP/1.1 200 OK"@;
    let second = "Content-Type: "@ + media_type;
    let third = "Content-Length: "@ + decimal(length);
    let after_second = third + crlf() + crlf();
    let after_first = second + crlf() + after_second;
    assert(!first.contains('\r')) by {
        reveal_strlit("HTTP/1.1 200 OK");
    }
    lemma_one_line(first, after_first);
    lemma_one_line(second, after_second);
    lemma_one_line(third, crlf());
    lemma_one_line(Seq::empty(), Seq::empty());
    assert(Seq::<char>::empty() + crlf() + Seq::<char>::empty() =~= crlf());
    assert(content_length(lines(crlf()), length as int) == length);
    assert(content_length(lines(after_second), 0) == length);
    assert(content_length(lines(after_first), 0) == length);
}

proof fn lemma_only_blank_line(media_type: Seq<char>, length: nat)
    requires
        is_ascii_chars(media_type),
        !media_type.contains('\r'),
    ensures
        find(encode_utf8(response_head(media_type, length)), blank_line()) == Some(
            encode_utf8(response_head(media_type, length)).len() - 4,
        ),
{
    reveal_strlit("HTTP/1.1 200 OK");
    reveal_strlit("Content-Type: ");
    reveal_strlit("Content-Length: ");
    lemma_head_lines(media_type, length);
    lemma_decimal(length);
    let head = response_head(media_type, length);
    let digits = decimal(length);
    let m = media_type.len() as int;
    let p2 = 31 + m;
    let p3 = p2 + 18 + digits.len() as int;
    assert(head.len() == p3 + 4);
    assert(forall|j: int| 0 <= j < 15 ==> head[j] == "HTTP/1.1 200 OK"@[j]);
    assert(head[15] == '\r' && head[16] == '\n');
    assert(forall|j: int| 17 <= j < 31 ==> head[j] == "Content-Type: "@[j - 17]);
    assert(forall|j: int| 31 <= j < p2 ==> head[j] == media_type[j - 31]);
    assert(head[p2] == '\r' && head[p2 + 1] == '\n');
    assert(forall|j: int| p2 + 2 <= j < p2 + 18 ==> head[j] == "Content-Length: "@[j - p2 - 2]);
    assert(forall|j: int| p2 + 18 <= j < p3 ==> head[j] == digits[j - p2 - 18]);
    assert(head[p3] == '\r' && head[p3 + 1] == '\n' && head[p3 + 2] == '\r' && head[p3 + 3]
        == '\n');
    assert forall|j: int| 0 <= j < p3 && head[j] == '\r' implies j == 15 || j == p2 by {
        if 31 <= j < p2 {
            assert(media_type[j - 31] == '\r');
        } else if p2 + 18 <= j {
            assert(digit_value(digits[j - p2 - 18]) < 10);
        }
    }
    assert(head[17] == 'C' && head[p2 + 2] == 'C');
    assert(is_ascii_chars(head)) by {
        assert forall|j: int| 0 <= j < head.len() implies '\0' <= #[trigger] head[j]
            <= '\u{7f}' by {
            if p2 + 18 <= j < p3 {
                assert(digit_value(digits[j - p2 - 18]) < 10);
            }
        }
    }
    is_ascii_chars_encode_utf8(head);
    let bytes = encode_utf8(head);
    assert(blank_line().len() == 4);
    assert(bytes.subrange(p3, p3 + 4) =~= blank_line()) by {
        assert(bytes[p3] == head[p3] as u8 && bytes[p3 + 1] == head[p3 + 1] as u8 && bytes[p3 + 2]
            == head[p3 + 2] as u8 && bytes[p3 + 3] == head[p3 + 3] as u8);
    }
    assert forall|j: int| 0 <= j < p3 implies !#[trigger] occurs_at(bytes, blank_line(), j) by {
        if occurs_at(bytes, blank_line(), j) {
            assert(bytes.subrange(j, j + 4)[0] == 13 && bytes.subrange(j, j + 4)[2] == 13);
            assert(bytes[j] == head[j] as u8 && bytes[j + 2] == head[j + 2] as u8);
            assert(head[j] as u8 == 13 && head[j + 2] as u8 == 13);
            assert('\0' <= head[j] <= '\u{7f}' && '\0' <= head[j + 2] <= '\u{7f}');
            assert(head[j] == '\r' && head[j + 2] == '\r');
        }
    }
    assert(first_at(bytes, blank_line(), p3));
    lemma_find_some(bytes, blank_line(), p3);
}

/// A response is framed so that its body is found again: read with the rules for a request, its
/// header announces as many bytes as the body has and ends where the body begins.
pub proof fn law_response_is_framed(media_type: Seq<char>, body: Seq<char>, received: int)
    requires
        is_ascii_chars(media_type),
        !media_type.contains('\r'),
        encode_utf8(body).len() <= usize::MAX,
    ensures
        ({
            let bytes = encode_utf8(response(media_type, body));
            let head = head_of(response(media_type, body), received);
            &&& head.content_length == encode_utf8(body).len()
            &&& 0 <= head.header_end <= bytes.len()
            &&& bytes.skip(head.header_end) == encode_utf8(body)
        }),
{
    let length = encode_utf8(body).len();
    let head = response_head(media_type, length);
    lemma_announced_length(media_type, length);
    lemma_head_lines(media_type, length);
    assert(head.skip(head.len() - 4) =~= crlf() + crlf());
    law_header_ends_at_its_blank_line(head, body, received, received);
    lemma_only_blank_line(media_type, length);
    lemma_encode_concat(head, body);
    lemma_find_in_front(encode_utf8(head), encode_utf8(body), blank_line());
    lemma_find(encode_utf8(head), blank_line());
    let end = encode_utf8(head).len() as int;
    assert(header_end(response(media_type, body), received) == end);
    assert((encode_utf8(head) + encode_utf8(body)).skip(end) =~= encode_utf8(body));
}

/// A response is, letter for letter, its status, its media type, the length of its body in bytes
/// and its body.
pub proof fn law_response_is_written_out(media_type: Seq<char>, body: Seq<char>)
    ensures
        response(media_type, body) == "HTTP/1.1 200 OK\r\nContent-Type: "@ + media_type
            + "\r\nContent-Length: "@ + decimal(encode_utf8(body).len()) + "\r\n\r\n"@ + body,
{
}

} // verus!
