//! What holds of the two sides of the opening handshake together.

use crate::ascii::{
    eq_ignore_case, first_index, is_space, lemma_trim_end_padded, occurs_at, starts_with, tidy,
    trim_end,
};
use crate::handshake::{
    accept_for, block_end, client_answer, client_request, crlf, header, header_line, is_base64,
    judge_upgrade, server_answer, upgrade_response, ClientAnswer, ClientHandshake,
    ServerAnswer, LF,
};
use crate::hash::is_base64_char;
use crate::lines::{
    flat, fold_fields, is_line, lemma_block_end_lines, lemma_crlf_is_blank,
    lemma_field_of_header_line, lemma_flat_push, lemma_flat_slice, lemma_header_line_is_line,
    lemma_line_end, lemma_lookup_lines, lemma_offset_ends, offset, on_one_line, without_colon,
};
use vstd::prelude::*;
use vstd::utf8::*;

verus! {

/// Whether `n` can stand as the name of a header line: not empty, on one
/// line, without a colon or white space at its ends.
pub open spec fn is_name(n: Seq<u8>) -> bool {
    n.len() > 0 && without_colon(n) && on_one_line(n) && tidy(n)
}

proof fn lemma_name_host()
    ensures
        is_name(encode_utf8("Host"@)),
        encode_utf8("Host"@).len() == 4,
{
    reveal_strlit("Host");
    assert(is_ascii_chars("Host"@));
    is_ascii_chars_encode_utf8("Host"@);
}

proof fn lemma_name_upgrade()
    ensures
        is_name(encode_utf8("Upgrade"@)),
        encode_utf8("Upgrade"@).len() == 7,
        encode_utf8("upgrade"@).len() == 7,
        eq_ignore_case(encode_utf8("Upgrade"@), encode_utf8("upgrade"@)),
{
    reveal_strlit("Upgrade");
    reveal_strlit("upgrade");
    assert(is_ascii_chars("Upgrade"@));
    assert(is_ascii_chars("upgrade"@));
    is_ascii_chars_encode_utf8("Upgrade"@);
    is_ascii_chars_encode_utf8("upgrade"@);
}

proof fn lemma_name_connection()
    ensures
        is_name(encode_utf8("Connection"@)),
        encode_utf8("Connection"@).len() == 10,
        encode_utf8("connection"@).len() == 10,
        eq_ignore_case(encode_utf8("Connection"@), encode_utf8("connection"@)),
{
    reveal_strlit("Connection");
    reveal_strlit("connection");
    assert(is_ascii_chars("Connection"@));
    assert(is_ascii_chars("connection"@));
    is_ascii_chars_encode_utf8("Connection"@);
    is_ascii_chars_encode_utf8("connection"@);
}

proof fn lemma_name_key()
    ensures
        is_name(encode_utf8("Sec-WebSocket-Key"@)),
        encode_utf8("Sec-WebSocket-Key"@).len() == 17,
        encode_utf8("sec-websocket-key"@).len() == 17,
        eq_ignore_case(encode_utf8("Sec-WebSocket-Key"@), encode_utf8("sec-websocket-key"@)),
{
    reveal_strlit("Sec-WebSocket-Key");
    reveal_strlit("sec-websocket-key");
    assert(is_ascii_chars("Sec-WebSocket-Key"@));
    assert(is_ascii_chars("sec-websocket-key"@));
    is_ascii_chars_encode_utf8("Sec-WebSocket-Key"@);
    is_ascii_chars_encode_utf8("sec-websocket-key"@);
}

proof fn lemma_name_version()
    ensures
        is_name(encode_utf8("Sec-WebSocket-Version"@)),
        encode_utf8("Sec-WebSocket-Version"@).len() == 21,
        encode_utf8("sec-websocket-version"@).len() == 21,
        eq_ignore_case(
            encode_utf8("Sec-WebSocket-Version"@),
            encode_utf8("sec-websocket-version"@),
        ),
{
    reveal_strlit("Sec-WebSocket-Version");
    reveal_strlit("sec-websocket-version");
    assert(is_ascii_chars("Sec-WebSocket-Version"@));
    assert(is_ascii_chars("sec-websocket-version"@));
    is_ascii_chars_encode_utf8("Sec-WebSocket-Version"@);
    is_ascii_chars_encode_utf8("sec-websocket-version"@);
}

proof fn lemma_name_accept()
    ensures
        is_name(encode_utf8("Sec-WebSocket-Accept"@)),
        encode_utf8("Sec-WebSocket-Accept"@).len() == 20,
        encode_utf8("sec-websocket-accept"@).len() == 20,
        eq_ignore_case(
            encode_utf8("Sec-WebSocket-Accept"@),
            encode_utf8("sec-websocket-accept"@),
        ),
{
    reveal_strlit("Sec-WebSocket-Accept");
    reveal_strlit("sec-websocket-accept");
    assert(is_ascii_chars("Sec-WebSocket-Accept"@));
    assert(is_ascii_chars("sec-websocket-accept"@));
    is_ascii_chars_encode_utf8("Sec-WebSocket-Accept"@);
    is_ascii_chars_encode_utf8("sec-websocket-accept"@);
}

proof fn lemma_values()
    ensures
        on_one_line(encode_utf8("websocket"@)),
        tidy(encode_utf8("websocket"@)),
        on_one_line(encode_utf8("13"@)),
        tidy(encode_utf8("13"@)),
{
    reveal_strlit("websocket");
    reveal_strlit("13");
    assert(is_ascii_chars("websocket"@));
    assert(is_ascii_chars("13"@));
    is_ascii_chars_encode_utf8("websocket"@);
    is_ascii_chars_encode_utf8("13"@);
}

/// Base64 text, as bytes, is on one line and tidy.
proof fn lemma_base64_bytes(text: Seq<char>)
    requires
        is_base64(text),
    ensures
        on_one_line(encode_utf8(text)),
        tidy(encode_utf8(text)),
        encode_utf8(text).len() == text.len(),
{
    assert(is_ascii_chars(text)) by {
        assert forall|i: int| 0 <= i < text.len() implies '\0' <= #[trigger] text[i]
            <= '\u{7f}' by {
            assert(is_base64_char(text[i]));
        }
    }
    is_ascii_chars_encode_utf8(text);
    let b = encode_utf8(text);
    assert forall|i: int| 0 <= i < b.len() implies b[i] != LF && !is_space(#[trigger] b[i]) by {
        assert(is_base64_char(text[i]));
        assert(b[i] == text[i] as u8);
    }
}

/// The request line of an upgrade request is a line that begins with `GET`
/// and not with `HEAD`.
proof fn lemma_request_line(path: Seq<u8>)
    requires
        on_one_line(path),
    ensures
        ({
            let line = encode_utf8("GET "@) + path + encode_utf8(" HTTP/1.1"@) + crlf();
            &&& is_line(line)
            &&& starts_with(trim_end(line), encode_utf8("GET"@))
            &&& !starts_with(trim_end(line), encode_utf8("HEAD"@))
        }),
{
    reveal_strlit("GET ");
    reveal_strlit(" HTTP/1.1");
    reveal_strlit("GET");
    reveal_strlit("HEAD");
    assert(is_ascii_chars("GET "@));
    assert(is_ascii_chars(" HTTP/1.1"@));
    assert(is_ascii_chars("GET"@));
    assert(is_ascii_chars("HEAD"@));
    is_ascii_chars_encode_utf8("GET "@);
    is_ascii_chars_encode_utf8(" HTTP/1.1"@);
    is_ascii_chars_encode_utf8("GET"@);
    is_ascii_chars_encode_utf8("HEAD"@);
    let get = encode_utf8("GET "@);
    let tail = encode_utf8(" HTTP/1.1"@);
    let body = get + path + tail;
    let line = body + crlf();
    assert(body.last() == tail[8]);
    lemma_trim_end_padded(body, crlf());
    assert(body.subrange(0, 3) =~= encode_utf8("GET"@));
    assert(body[0] == get[0]);
    if starts_with(body, encode_utf8("HEAD"@)) {
        assert(body.subrange(0, 4)[0] == encode_utf8("HEAD"@)[0]);
    }
    assert forall|i: int| 0 <= i < line.len() - 1 implies line[i] != LF by {
        if i < 4 {
            assert(line[i] == get[i]);
        } else if i < 4 + path.len() {
            assert(line[i] == path[i - 4]);
        } else if i < body.len() {
            assert(line[i] == tail[i - 4 - path.len()]);
        } else {
            assert(line[i] == 13u8);
        }
    }
}

/// The lines of an upgrade request for `path` at the host `addr` with the
/// key `key`, all three as bytes.
pub open spec fn request_lines(path: Seq<u8>, addr: Seq<u8>, key: Seq<u8>) -> Seq<Seq<u8>> {
    seq![
        encode_utf8("GET "@) + path + encode_utf8(" HTTP/1.1"@) + crlf(),
        header_line("Host"@, addr),
        header_line("Upgrade"@, encode_utf8("websocket"@)),
        header_line("Connection"@, encode_utf8("Upgrade"@)),
        header_line("Sec-WebSocket-Key"@, key),
        header_line("Sec-WebSocket-Version"@, encode_utf8("13"@)),
        crlf(),
    ]
}

/// An upgrade request is its lines, one after another.
proof fn lemma_request_is_flat(path: Seq<char>, addr: Seq<char>, key: Seq<char>)
    ensures
        flat(request_lines(encode_utf8(path), encode_utf8(addr), encode_utf8(key)))
            == client_request(path, addr, key),
{
    let l0 = encode_utf8("GET "@) + encode_utf8(path) + encode_utf8(" HTTP/1.1"@) + crlf();
    let l1 = header_line("Host"@, encode_utf8(addr));
    let l2 = header_line("Upgrade"@, encode_utf8("websocket"@));
    let l3 = header_line("Connection"@, encode_utf8("Upgrade"@));
    let l4 = header_line("Sec-WebSocket-Key"@, encode_utf8(key));
    let l5 = header_line("Sec-WebSocket-Version"@, encode_utf8("13"@));
    let l6 = crlf();
    let e = Seq::<Seq<u8>>::empty();
    lemma_flat_push(e, l0);
    lemma_flat_push(e.push(l0), l1);
    lemma_flat_push(e.push(l0).push(l1), l2);
    lemma_flat_push(e.push(l0).push(l1).push(l2), l3);
    lemma_flat_push(e.push(l0).push(l1).push(l2).push(l3), l4);
    lemma_flat_push(e.push(l0).push(l1).push(l2).push(l3).push(l4), l5);
    lemma_flat_push(e.push(l0).push(l1).push(l2).push(l3).push(l4).push(l5), l6);
    assert(flat(e) + l0 =~= l0);
    let lines = e.push(l0).push(l1).push(l2).push(l3).push(l4).push(l5).push(l6);
    assert(request_lines(encode_utf8(path), encode_utf8(addr), encode_utf8(key)) =~= lines);
    assert(flat(lines) =~= client_request(path, addr, key));
}

/// The lines of an upgrade request are lines, and only the last is blank.
proof fn lemma_request_lines_are_lines(path: Seq<u8>, addr: Seq<u8>, key: Seq<u8>)
    requires
        on_one_line(path),
        on_one_line(addr),
        on_one_line(key),
    ensures
        forall|i: int|
            0 <= i < 7 ==> is_line(#[trigger] request_lines(path, addr, key)[i]),
        forall|i: int|
            1 <= i < 6 ==> !crate::handshake::is_blank(
                #[trigger] request_lines(path, addr, key)[i],
                true,
            ),
        crate::handshake::is_blank(request_lines(path, addr, key).last(), true),
{
    let lines = request_lines(path, addr, key);
    lemma_name_host();
    lemma_name_upgrade();
    lemma_name_connection();
    lemma_name_key();
    lemma_name_version();
    lemma_values();
    lemma_request_line(path);
    lemma_header_line_is_line("Host"@, addr);
    lemma_header_line_is_line("Upgrade"@, encode_utf8("websocket"@));
    lemma_header_line_is_line("Connection"@, encode_utf8("Upgrade"@));
    lemma_header_line_is_line("Sec-WebSocket-Key"@, key);
    lemma_header_line_is_line("Sec-WebSocket-Version"@, encode_utf8("13"@));
    lemma_crlf_is_blank(Seq::empty(), true);
    assert forall|i: int| 0 <= i < 7 implies is_line(#[trigger] lines[i]) by {
        if i == 0 {
        } else if i == 1 {
        } else if i == 2 {
        } else if i == 3 {
        } else if i == 4 {
        } else if i == 5 {
        } else {
        }
    }
    assert forall|i: int| 1 <= i < 6 implies !crate::handshake::is_blank(
        #[trigger] lines[i],
        true,
    ) by {
        if i == 1 {
        } else if i == 2 {
        } else if i == 3 {
        } else if i == 4 {
        } else {
        }
    }
}

/// The server upgrades where the four headers read as an upgrade request
/// of the client gives them.
proof fn lemma_judge_upgrade(s: Seq<u8>, from: int, end: int, key: Seq<u8>)
    requires
        header(s, from, end, "upgrade"@, true) == Some(encode_utf8("websocket"@)),
        header(s, from, end, "sec-websocket-key"@, true) == Some(key),
        header(s, from, end, "sec-websocket-version"@, true) == Some(encode_utf8("13"@)),
        header(s, from, end, "connection"@, true) == Some(encode_utf8("Upgrade"@)),
    ensures
        judge_upgrade(s, from, end) == (ServerAnswer::Upgrade { key, consumed: end as nat }),
{
    lemma_name_upgrade();
    let upgrade = encode_utf8("Upgrade"@);
    assert(upgrade.subrange(0, 7) =~= upgrade);
    assert(occurs_at(upgrade, encode_utf8("upgrade"@), 0));
}

/// An upgrade request, as the client writes it, is an upgrade request as
/// the server reads it: the server takes all of it and finds the client's
/// key.
pub proof fn lemma_server_reads_client_request(path: Seq<char>, addr: Seq<char>, key: Seq<char>)
    requires
        on_one_line(encode_utf8(path)),
        on_one_line(encode_utf8(addr)),
        is_base64(key),
    ensures
        server_answer(client_request(path, addr, key)) == (ServerAnswer::Upgrade {
            key: encode_utf8(key),
            consumed: client_request(path, addr, key).len(),
        }),
{
    let request = client_request(path, addr, key);
    let k = encode_utf8(key);
    let lines = request_lines(encode_utf8(path), encode_utf8(addr), k);
    lemma_base64_bytes(key);
    lemma_request_is_flat(path, addr, key);
    lemma_request_lines_are_lines(encode_utf8(path), encode_utf8(addr), k);
    lemma_request_line(encode_utf8(path));
    lemma_offset_ends(lines);
    lemma_flat_slice(lines, 0);
    lemma_line_end(lines, 0);
    lemma_block_end_lines(lines, 1, true);
    let from = offset(lines, 1);
    let end = request.len() as int;
    lemma_server_headers(lines, encode_utf8(addr), k);
    lemma_lookup_lines(lines, 1, encode_utf8("upgrade"@), true, None);
    lemma_lookup_lines(lines, 1, encode_utf8("sec-websocket-key"@), true, None);
    lemma_lookup_lines(lines, 1, encode_utf8("sec-websocket-version"@), true, None);
    lemma_lookup_lines(lines, 1, encode_utf8("connection"@), true, None);
    lemma_judge_upgrade(request, from, end, k);
}

/// The four headers that the server asks for, as an upgrade request of the
/// client gives them.
proof fn lemma_server_headers(lines: Seq<Seq<u8>>, addr: Seq<u8>, key: Seq<u8>)
    requires
        lines.len() == 7,
        lines[1] == header_line("Host"@, addr),
        lines[2] == header_line("Upgrade"@, encode_utf8("websocket"@)),
        lines[3] == header_line("Connection"@, encode_utf8("Upgrade"@)),
        lines[4] == header_line("Sec-WebSocket-Key"@, key),
        lines[5] == header_line("Sec-WebSocket-Version"@, encode_utf8("13"@)),
        lines[6] == crlf(),
        tidy(key),
    ensures
        fold_fields(lines, 1, encode_utf8("upgrade"@), true, None) == Some(
            encode_utf8("websocket"@),
        ),
        fold_fields(lines, 1, encode_utf8("sec-websocket-key"@), true, None) == Some(key),
        fold_fields(lines, 1, encode_utf8("sec-websocket-version"@), true, None) == Some(
            encode_utf8("13"@),
        ),
        fold_fields(lines, 1, encode_utf8("connection"@), true, None) == Some(
            encode_utf8("Upgrade"@),
        ),
{
    lemma_name_host();
    lemma_name_upgrade();
    lemma_name_connection();
    lemma_name_key();
    lemma_name_version();
    lemma_values();
    lemma_header_fold(lines, addr, key, encode_utf8("upgrade"@));
    lemma_header_fold(lines, addr, key, encode_utf8("sec-websocket-key"@));
    lemma_header_fold(lines, addr, key, encode_utf8("sec-websocket-version"@));
    lemma_header_fold(lines, addr, key, encode_utf8("connection"@));
}

/// What each line of an upgrade request gives to the name `wanted`, and
/// what that comes to over the whole block.
proof fn lemma_header_fold(lines: Seq<Seq<u8>>, addr: Seq<u8>, key: Seq<u8>, wanted: Seq<u8>)
    requires
        lines.len() == 7,
        lines[1] == header_line("Host"@, addr),
        lines[2] == header_line("Upgrade"@, encode_utf8("websocket"@)),
        lines[3] == header_line("Connection"@, encode_utf8("Upgrade"@)),
        lines[4] == header_line("Sec-WebSocket-Key"@, key),
        lines[5] == header_line("Sec-WebSocket-Version"@, encode_utf8("13"@)),
        lines[6] == crlf(),
        tidy(key),
        is_name(encode_utf8("Host"@)),
        is_name(encode_utf8("Upgrade"@)),
        is_name(encode_utf8("Connection"@)),
        is_name(encode_utf8("Sec-WebSocket-Key"@)),
        is_name(encode_utf8("Sec-WebSocket-Version"@)),
        tidy(encode_utf8("websocket"@)),
        tidy(encode_utf8("13"@)),
    ensures
        fold_fields(lines, 1, wanted, true, None) == if eq_ignore_case(
            encode_utf8("Sec-WebSocket-Version"@),
            wanted,
        ) {
            Some(encode_utf8("13"@))
        } else if eq_ignore_case(encode_utf8("Sec-WebSocket-Key"@), wanted) {
            Some(key)
        } else if eq_ignore_case(encode_utf8("Connection"@), wanted) {
            Some(encode_utf8("Upgrade"@))
        } else if eq_ignore_case(encode_utf8("Upgrade"@), wanted) {
            Some(encode_utf8("websocket"@))
        } else if eq_ignore_case(encode_utf8("Host"@), wanted) {
            Some(crate::ascii::trim(seq![32u8] + addr + crlf()))
        } else {
            None
        },
{
    lemma_field_of_header_line("Host"@, addr, wanted, true);
    lemma_field_of_header_line("Upgrade"@, encode_utf8("websocket"@), wanted, true);
    lemma_field_of_header_line("Connection"@, encode_utf8("Upgrade"@), wanted, true);
    lemma_field_of_header_line("Sec-WebSocket-Key"@, key, wanted, true);
    lemma_field_of_header_line("Sec-WebSocket-Version"@, encode_utf8("13"@), wanted, true);
    lemma_crlf_is_blank(wanted, true);
    reveal_with_fuel(fold_fields, 8);
}

/// The lines of the answer that switches protocols, with the accept value
/// `accept` as bytes.
pub open spec fn response_lines(accept: Seq<u8>) -> Seq<Seq<u8>> {
    seq![
        encode_utf8("HTTP/1.1 101 Switching Protocols"@) + crlf(),
        header_line("Upgrade"@, encode_utf8("websocket"@)),
        header_line("Connection"@, encode_utf8("Upgrade"@)),
        header_line("Sec-WebSocket-Accept"@, accept),
        crlf(),
    ]
}

/// The status line of the answer that switches protocols is a line that
/// begins with `HTTP/1.1 101`.
proof fn lemma_status_line()
    ensures
        is_line(encode_utf8("HTTP/1.1 101 Switching Protocols"@) + crlf()),
        starts_with(
            encode_utf8("HTTP/1.1 101 Switching Protocols"@) + crlf(),
            encode_utf8("HTTP/1.1 101"@),
        ),
{
    reveal_strlit("HTTP/1.1 101 Switching Protocols");
    reveal_strlit("HTTP/1.1 101");
    assert(is_ascii_chars("HTTP/1.1 101 Switching Protocols"@));
    assert(is_ascii_chars("HTTP/1.1 101"@));
    is_ascii_chars_encode_utf8("HTTP/1.1 101 Switching Protocols"@);
    is_ascii_chars_encode_utf8("HTTP/1.1 101"@);
    let status = encode_utf8("HTTP/1.1 101 Switching Protocols"@);
    let line = status + crlf();
    assert(line.subrange(0, 12) =~= encode_utf8("HTTP/1.1 101"@));
    assert forall|i: int| 0 <= i < line.len() - 1 implies line[i] != LF by {
        if i < status.len() {
            assert(line[i] == status[i]);
        } else {
            assert(line[i] == 13u8);
        }
    }
}

/// The answer that switches protocols is its lines, one after another.
proof fn lemma_response_is_flat(accept: Seq<char>)
    ensures
        flat(response_lines(encode_utf8(accept))) == upgrade_response(accept),
{
    let l0 = encode_utf8("HTTP/1.1 101 Switching Protocols"@) + crlf();
    let l1 = header_line("Upgrade"@, encode_utf8("websocket"@));
    let l2 = header_line("Connection"@, encode_utf8("Upgrade"@));
    let l3 = header_line("Sec-WebSocket-Accept"@, encode_utf8(accept));
    let l4 = crlf();
    let e = Seq::<Seq<u8>>::empty();
    lemma_flat_push(e, l0);
    lemma_flat_push(e.push(l0), l1);
    lemma_flat_push(e.push(l0).push(l1), l2);
    lemma_flat_push(e.push(l0).push(l1).push(l2), l3);
    lemma_flat_push(e.push(l0).push(l1).push(l2).push(l3), l4);
    assert(flat(e) + l0 =~= l0);
    let lines = e.push(l0).push(l1).push(l2).push(l3).push(l4);
    assert(response_lines(encode_utf8(accept)) =~= lines);
    assert(flat(lines) =~= upgrade_response(accept));
}

/// The lines of the answer that switches protocols are lines, and only the
/// last is blank.
proof fn lemma_response_lines_are_lines(accept: Seq<u8>)
    requires
        on_one_line(accept),
    ensures
        forall|i: int| 0 <= i < 5 ==> is_line(#[trigger] response_lines(accept)[i]),
        forall|i: int|
            1 <= i < 4 ==> !crate::handshake::is_blank(#[trigger] response_lines(accept)[i], false),
        crate::handshake::is_blank(response_lines(accept).last(), false),
{
    let lines = response_lines(accept);
    lemma_name_upgrade();
    lemma_name_connection();
    lemma_name_accept();
    lemma_values();
    lemma_status_line();
    lemma_header_line_is_line("Upgrade"@, encode_utf8("websocket"@));
    lemma_header_line_is_line("Connection"@, encode_utf8("Upgrade"@));
    lemma_header_line_is_line("Sec-WebSocket-Accept"@, accept);
    lemma_crlf_is_blank(Seq::empty(), false);
    assert forall|i: int| 0 <= i < 5 implies is_line(#[trigger] lines[i]) by {
        if i == 0 {
        } else if i == 1 {
        } else if i == 2 {
        } else if i == 3 {
        } else {
        }
    }
    assert forall|i: int| 1 <= i < 4 implies !crate::handshake::is_blank(
        #[trigger] lines[i],
        false,
    ) by {
        if i == 1 {
        } else if i == 2 {
        } else {
        }
    }
}

/// The accept header, as the answer that switches protocols gives it.
proof fn lemma_client_header(lines: Seq<Seq<u8>>, accept: Seq<u8>)
    requires
        lines.len() == 5,
        lines[1] == header_line("Upgrade"@, encode_utf8("websocket"@)),
        lines[2] == header_line("Connection"@, encode_utf8("Upgrade"@)),
        lines[3] == header_line("Sec-WebSocket-Accept"@, accept),
        lines[4] == crlf(),
        tidy(accept),
    ensures
        fold_fields(lines, 1, encode_utf8("sec-websocket-accept"@), false, None) == Some(accept),
{
    let wanted = encode_utf8("sec-websocket-accept"@);
    lemma_name_upgrade();
    lemma_name_connection();
    lemma_name_accept();
    lemma_field_of_header_line("Upgrade"@, encode_utf8("websocket"@), wanted, false);
    lemma_field_of_header_line("Connection"@, encode_utf8("Upgrade"@), wanted, false);
    lemma_field_of_header_line("Sec-WebSocket-Accept"@, accept, wanted, false);
    lemma_crlf_is_blank(wanted, false);
    reveal_with_fuel(fold_fields, 6);
}

/// The answer that switches protocols, as the server writes it, is one
/// that the client accepts, all of it, where it bears the accept value that
/// the client waits for.
pub proof fn lemma_client_reads_upgrade_response(accept: Seq<char>)
    requires
        is_base64(accept),
    ensures
        client_answer(upgrade_response(accept), encode_utf8(accept)) == (ClientAnswer::Accepted {
            consumed: upgrade_response(accept).len(),
        }),
{
    let response = upgrade_response(accept);
    let a = encode_utf8(accept);
    let lines = response_lines(a);
    lemma_base64_bytes(accept);
    lemma_response_is_flat(accept);
    lemma_response_lines_are_lines(a);
    lemma_status_line();
    lemma_offset_ends(lines);
    lemma_flat_slice(lines, 0);
    lemma_line_end(lines, 0);
    lemma_block_end_lines(lines, 1, false);
    lemma_client_header(lines, a);
    lemma_lookup_lines(lines, 1, encode_utf8("sec-websocket-accept"@), false, None);
}

/// The client accepts no answer but one that bears the accept value it
/// waits for: an accepted answer has a status line that begins with
/// `HTTP/1.1 101`, a complete header block, and in it, as the last header
/// of that name, a `Sec-WebSocket-Accept` of exactly that value.
pub proof fn lemma_client_accepts_only_the_digest(s: Seq<u8>, expected: Seq<u8>)
    requires
        client_answer(s, expected) is Accepted,
    ensures
        first_index(s, 0, LF) is Some,
        ({
            let from = first_index(s, 0, LF)->0 + 1;
            &&& starts_with(s.subrange(0, from), encode_utf8("HTTP/1.1 101"@))
            &&& block_end(s, from, false) is Some
            &&& header(s, from, block_end(s, from, false)->0, "sec-websocket-accept"@, false)
                == Some(expected)
        }),
{
}

/// The handshake goes round: for every key that a client makes, the
/// request it writes is upgraded by the server, which finds that key in
/// it; the accept value that the server computes for the key is the one
/// that the client waits for; and the answer that the server writes with
/// it is accepted by the client.
pub proof fn lemma_handshake_round_trip(client: ClientHandshake, path: Seq<char>, addr: Seq<char>)
    requires
        client.wf(),
        on_one_line(encode_utf8(path)),
        on_one_line(encode_utf8(addr)),
    ensures
        server_answer(client_request(path, addr, client.key_text())) == (ServerAnswer::Upgrade {
            key: encode_utf8(client.key_text()),
            consumed: client_request(path, addr, client.key_text()).len(),
        }),
        accept_for(encode_utf8(client.key_text())) == client.expected(),
        client_answer(upgrade_response(client.expected()), encode_utf8(client.expected())) == (
        ClientAnswer::Accepted { consumed: upgrade_response(client.expected()).len() }),
{
    lemma_server_reads_client_request(path, addr, client.key_text());
    lemma_client_reads_upgrade_response(client.expected());
}

} // verus!
