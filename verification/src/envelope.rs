//! The JSON object that stands in for a response when the bridge fails.
use vstd::prelude::*;
use vstd::utf8::*;

verus! {

/// One character of a JSON string: backslashes and quotes get a backslash in
/// front, everything else stands for itself.
pub open spec fn escape_char(c: char) -> Seq<char> {
    if c == '\\' {
        seq!['\\', '\\']
    } else if c == '"' {
        seq!['\\', '"']
    } else {
        seq![c]
    }
}

/// The characters of `message`, each escaped.
pub open spec fn escape(message: Seq<char>) -> Seq<char>
    decreases message.len(),
{
    if message.len() == 0 {
        Seq::empty()
    } else {
        escape_char(message[0]) + escape(message.drop_first())
    }
}

/// The text of the error object that carries `message`.
pub open spec fn error_envelope(message: Seq<char>) -> Seq<char> {
    "{\"__frachterBridgeError\":\""@ + escape(message) + "\"}"@
}

spec fn escape_byte(b: u8) -> Seq<u8> {
    if b == 0x5c {
        seq![0x5cu8, 0x5cu8]
    } else if b == 0x22 {
        seq![0x5cu8, 0x22u8]
    } else {
        seq![b]
    }
}

spec fn escape_bytes(bytes: Seq<u8>) -> Seq<u8>
    decreases bytes.len(),
{
    if bytes.len() == 0 {
        Seq::empty()
    } else {
        escape_byte(bytes[0]) + escape_bytes(bytes.drop_first())
    }
}

proof fn lemma_escape_bytes_concat(a: Seq<u8>, b: Seq<u8>)
    ensures
        escape_bytes(a + b) == escape_bytes(a) + escape_bytes(b),
    decreases a.len(),
{
    if a.len() == 0 {
        assert(a + b =~= b);
    } else {
        lemma_escape_bytes_concat(a.drop_first(), b);
        assert((a + b).drop_first() =~= a.drop_first() + b);
    }
}

proof fn lemma_escape_bytes_push(s: Seq<u8>, b: u8)
    ensures
        escape_bytes(s.push(b)) == escape_bytes(s) + escape_byte(b),
{
    lemma_escape_bytes_concat(s, seq![b]);
    assert(s + seq![b] =~= s.push(b));
    assert(seq![b].drop_first() =~= Seq::<u8>::empty());
    assert(escape_bytes(seq![b].drop_first()) =~= Seq::<u8>::empty());
    assert(escape_bytes(seq![b]) =~= escape_byte(b));
}

proof fn lemma_escape_bytes_unchanged(s: Seq<u8>)
    requires
        forall|i: int| 0 <= i < s.len() ==> s[i] != 0x5c && s[i] != 0x22,
    ensures
        escape_bytes(s) == s,
    decreases s.len(),
{
    if s.len() > 0 {
        lemma_escape_bytes_unchanged(s.drop_first());
        assert(seq![s[0]] + s.drop_first() =~= s);
    }
}

proof fn lemma_encode_utf8_concat(a: Seq<char>, b: Seq<char>)
    ensures
        encode_utf8(a + b) == encode_utf8(a) + encode_utf8(b),
    decreases a.len(),
{
    if a.len() == 0 {
        assert(a + b =~= b);
    } else {
        lemma_encode_utf8_concat(a.drop_first(), b);
        assert((a + b).drop_first() =~= a.drop_first() + b);
    }
}

proof fn lemma_encode_ascii(c: char)
    requires
        (c as u32) <= 0x7f,
    ensures
        encode_scalar(c as u32) == seq![c as u8],
{
    let v = c as u32;
    assert((v & 0x7f) as u8 == v as u8) by (bit_vector)
        requires
            v <= 0x7f,
    ;
}

/// Outside ASCII no byte of an encoded character is a backslash or a quote.
proof fn lemma_encode_scalar_high_bytes(c: char)
    requires
        (c as u32) > 0x7f,
    ensures
        forall|i: int|
            0 <= i < encode_scalar(c as u32).len() ==> #[trigger] encode_scalar(c as u32)[i] >= 0x80,
{
    let v = c as u32;
    char_is_scalar(c);
    assert(forall|x: u8| #[trigger] (0x80u8 | x) >= 0x80) by (bit_vector);
    assert(forall|x: u8| #[trigger] (0xC0u8 | x) >= 0x80) by (bit_vector);
    assert(forall|x: u8| #[trigger] (0xE0u8 | x) >= 0x80) by (bit_vector);
    assert(forall|x: u8| #[trigger] (0xF0u8 | x) >= 0x80) by (bit_vector);
    if has_width_2_encoding(v) {
    } else if has_width_3_encoding(v) {
    } else {
    }
}

proof fn lemma_encode_escape_char(c: char)
    ensures
        encode_utf8(escape_char(c)) == escape_bytes(encode_scalar(c as u32)),
{
    let e = escape_char(c);
    if c == '\\' || c == '"' {
        lemma_encode_ascii('\\');
        lemma_encode_ascii('"');
        assert(e.drop_first() =~= seq![c]);
        assert(seq![c].drop_first() =~= Seq::<char>::empty());
        assert(encode_utf8(seq![c].drop_first()) =~= Seq::<u8>::empty());
        assert(encode_utf8(seq![c]) =~= seq![c as u8]);
        assert(encode_utf8(e) =~= seq![0x5cu8, c as u8]);
        assert(seq![c as u8].drop_first() =~= Seq::<u8>::empty());
        assert(escape_bytes(seq![c as u8].drop_first()) =~= Seq::<u8>::empty());
        assert(escape_bytes(seq![c as u8]) =~= seq![0x5cu8, c as u8]);
    } else {
        assert(e.drop_first() =~= Seq::<char>::empty());
        assert(encode_utf8(e.drop_first()) =~= Seq::<u8>::empty());
        assert(encode_utf8(e) =~= encode_scalar(c as u32));
        if (c as u32) <= 0x7f {
            lemma_encode_ascii(c);
        } else {
            lemma_encode_scalar_high_bytes(c);
        }
        lemma_escape_bytes_unchanged(encode_scalar(c as u32));
    }
}

/// Escaping the characters and escaping the encoded bytes come to the same.
proof fn lemma_encode_escape(message: Seq<char>)
    ensures
        encode_utf8(escape(message)) == escape_bytes(encode_utf8(message)),
    decreases message.len(),
{
    if message.len() > 0 {
        let rest = message.drop_first();
        lemma_encode_escape(rest);
        lemma_encode_escape_char(message[0]);
        lemma_encode_utf8_concat(escape_char(message[0]), escape(rest));
        lemma_escape_bytes_concat(encode_scalar(message[0] as u32), encode_utf8(rest));
    }
}

/// The UTF-8 bytes of the error object that carries `message`.
pub fn bridge_error(message: &str) -> (bytes: Vec<u8>)
    ensures
        bytes@ == encode_utf8(error_envelope(message@)),
{
    let open: &[u8] = "{\"__frachterBridgeError\":\"".as_bytes();
    let text: &[u8] = message.as_bytes();
    let close: &[u8] = "\"}".as_bytes();
    let mut out: Vec<u8> = Vec::new();
    out.extend_from_slice(open);
    assert(out@ =~= open@);
    let mut i: usize = 0;
    while i < text.len()
        invariant
            i <= text@.len(),
            out@ == open@ + escape_bytes(text@.take(i as int)),
        decreases text@.len() - i,
    {
        let b: u8 = text[i];
        if b == 0x5c || b == 0x22 {
            out.push(0x5c);
        }
        out.push(b);
        proof {
            assert(text@.take(i + 1) =~= text@.take(i as int).push(b));
            lemma_escape_bytes_push(text@.take(i as int), b);
        }
        i += 1;
    }
    let ghost before = out@;
    out.extend_from_slice(close);
    proof {
        assert(text@.take(i as int) =~= text@);
        assert(out@ =~= before + close@);
        lemma_encode_escape(message@);
        lemma_encode_utf8_concat(
            "{\"__frachterBridgeError\":\""@ + escape(message@),
            "\"}"@,
        );
        lemma_encode_utf8_concat("{\"__frachterBridgeError\":\""@, escape(message@));
    }
    out
}

/// `text` with every occurrence of `from` replaced by `to`.
pub open spec fn replace_char(text: Seq<char>, from: char, to: Seq<char>) -> Seq<char>
    decreases text.len(),
{
    if text.len() == 0 {
        Seq::empty()
    } else {
        (if text[0] == from {
            to
        } else {
            seq![text[0]]
        }) + replace_char(text.drop_first(), from, to)
    }
}

/// The character is one that JSON takes in a string only as an escape by its
/// number.
pub open spec fn is_control(c: char) -> bool {
    (c as u32) < 0x20
}

/// No character of `message` is a control character.
pub open spec fn is_free_of_controls(message: Seq<char>) -> bool {
    forall|i: int| 0 <= i < message.len() ==> !is_control(#[trigger] message[i])
}

/// What a JSON reader makes of the text behind an opening quote: the string's
/// contents and the text behind its closing quote. `None` when the string does
/// not end, holds a control character, or has an escape other than a backslash or
/// a quote.
pub open spec fn read_json_string(text: Seq<char>) -> Option<(Seq<char>, Seq<char>)>
    decreases text.len(),
{
    if text.len() == 0 {
        None
    } else if text[0] == '"' {
        Some((Seq::empty(), text.drop_first()))
    } else if text[0] == '\\' {
        if text.len() >= 2 && (text[1] == '\\' || text[1] == '"') {
            match read_json_string(text.skip(2)) {
                Some((contents, rest)) => Some((seq![text[1]] + contents, rest)),
                None => None,
            }
        } else {
            None
        }
    } else if is_control(text[0]) {
        None
    } else {
        match read_json_string(text.drop_first()) {
            Some((contents, rest)) => Some((seq![text[0]] + contents, rest)),
            None => None,
        }
    }
}

proof fn lemma_replace_char_concat(a: Seq<char>, b: Seq<char>, from: char, to: Seq<char>)
    ensures
        replace_char(a + b, from, to) == replace_char(a, from, to) + replace_char(b, from, to),
    decreases a.len(),
{
    if a.len() == 0 {
        assert(a + b =~= b);
    } else {
        lemma_replace_char_concat(a.drop_first(), b, from, to);
        assert((a + b).drop_first() =~= a.drop_first() + b);
    }
}

/// Escaping is doubling the backslashes first and putting a backslash in front
/// of the quotes then.
pub proof fn law_escape_is_two_replacements(message: Seq<char>)
    ensures
        escape(message) == replace_char(
            replace_char(message, '\\', seq!['\\', '\\']),
            '"',
            seq!['\\', '"'],
        ),
    decreases message.len(),
{
    let slashes = seq!['\\', '\\'];
    let quote = seq!['\\', '"'];
    if message.len() > 0 {
        let c = message[0];
        let rest = message.drop_first();
        law_escape_is_two_replacements(rest);
        let head = if c == '\\' { slashes } else { seq![c] };
        lemma_replace_char_concat(head, replace_char(rest, '\\', slashes), '"', quote);
        reveal_with_fuel(replace_char, 3);
        assert(head.drop_first() =~= if c == '\\' { seq!['\\'] } else { Seq::<char>::empty() });
        assert(seq!['\\'].drop_first() =~= Seq::<char>::empty());
        assert(replace_char(head, '"', quote) =~= escape_char(c));
    }
}

/// An escaped message without control characters, closed by a quote, reads back
/// as the message: no quote inside it ends the string early.
pub proof fn law_escaped_message_reads_back(message: Seq<char>, rest: Seq<char>)
    requires
        is_free_of_controls(message),
    ensures
        read_json_string(escape(message) + seq!['"'] + rest) == Some((message, rest)),
    decreases message.len(),
{
    let text = escape(message) + seq!['"'] + rest;
    if message.len() == 0 {
        assert(text.drop_first() =~= rest);
        assert(message =~= Seq::<char>::empty());
    } else {
        let c = message[0];
        let tail = message.drop_first();
        assert forall|i: int| 0 <= i < tail.len() implies !is_control(#[trigger] tail[i]) by {
            assert(tail[i] == message[i + 1]);
        }
        law_escaped_message_reads_back(tail, rest);
        let text_tail = escape(tail) + seq!['"'] + rest;
        assert(text =~= escape_char(c) + text_tail);
        assert(seq![c] + tail =~= message);
        if c == '\\' || c == '"' {
            assert(text.skip(2) =~= text_tail);
        } else {
            assert(text.drop_first() =~= text_tail);
        }
    }
}

/// The error object is its key, a colon and the message as a JSON string, in
/// braces, for a message without control characters.
pub proof fn law_error_envelope_carries_message(message: Seq<char>)
    requires
        is_free_of_controls(message),
    ensures
        error_envelope(message).take(26) == "{\"__frachterBridgeError\":\""@,
        read_json_string(error_envelope(message).skip(26)) == Some((message, seq!['}'])),
{
    reveal_strlit("{\"__frachterBridgeError\":\"");
    reveal_strlit("\"}");
    let open = "{\"__frachterBridgeError\":\""@;
    assert(error_envelope(message).take(26) =~= open);
    assert(error_envelope(message).skip(26) =~= escape(message) + seq!['"'] + seq!['}']);
    law_escaped_message_reads_back(message, seq!['}']);
}

/// A message without backslashes and quotes is not changed by escaping.
pub proof fn law_plain_message_is_not_changed(message: Seq<char>)
    requires
        forall|i: int|
            0 <= i < message.len() ==> #[trigger] message[i] != '\\' && message[i] != '"',
    ensures
        escape(message) == message,
    decreases message.len(),
{
    if message.len() > 0 {
        let rest = message.drop_first();
        assert forall|i: int| 0 <= i < rest.len() implies #[trigger] rest[i] != '\\' && rest[i]
            != '"' by {
            assert(rest[i] == message[i + 1]);
        }
        law_plain_message_is_not_changed(rest);
        assert(seq![message[0]] + rest =~= message);
    }
}

/// Escaping goes character by character: that of a text is that of its parts, a
/// backslash and a quote get a backslash in front, and no other character changes.
pub proof fn law_escaping_goes_by_characters(a: Seq<char>, b: Seq<char>, c: char)
    ensures
        escape(a + b) == escape(a) + escape(b),
        escape(seq!['\\']) == seq!['\\', '\\'],
        escape(seq!['"']) == seq!['\\', '"'],
        c != '\\' && c != '"' ==> escape(seq![c]) == seq![c],
    decreases a.len(),
{
    reveal_with_fuel(escape, 2);
    assert(seq!['\\'].drop_first() =~= Seq::<char>::empty());
    assert(seq!['"'].drop_first() =~= Seq::<char>::empty());
    assert(seq![c].drop_first() =~= Seq::<char>::empty());
    if a.len() == 0 {
        assert(a + b =~= b);
    } else {
        law_escaping_goes_by_characters(a.drop_first(), b, c);
        assert((a + b).drop_first() =~= a.drop_first() + b);
    }
}

/// Whatever the message, the error object is its opening, the escaped message and
/// its end.
pub proof fn law_error_envelope_frames_message(message: Seq<char>)
    ensures
        ({
            let text = error_envelope(message);
            let end = text.len() - 2;
            &&& text.take(26) == "{\"__frachterBridgeError\":\""@
            &&& text.subrange(26, end) == escape(message)
            &&& text.skip(end) == "\"}"@
        }),
{
    reveal_strlit("{\"__frachterBridgeError\":\"");
    reveal_strlit("\"}");
}

} // verus!
