//! From the WebAssembly text format to binaries.
use vstd::prelude::*;
use vstd::utf8::*;

verus! {

/// Why a module's text was not turned into a binary.
#[derive(Debug)]
pub struct WatError {
    /// What the parser says of the text.
    pub message: String,
}

/// What `wasmer::wat2wasm` makes of `bytes`: the binary, or the text of the
/// error it returns.
pub uninterp spec fn wat_binary(bytes: Seq<u8>) -> Result<Seq<u8>, Seq<char>>;

/// The bytes start like a WebAssembly binary.
pub open spec fn is_wasm_binary(bytes: Seq<u8>) -> bool {
    bytes.len() >= 4 && bytes.take(4) == seq![0x00u8, 0x61u8, 0x73u8, 0x6du8]
}

/// The longest text, in bytes, whose encoding keeps all its lengths within 32
/// bits when it groups no imports: such a text encodes to less than eight times
/// its own size.
pub const MAX_TEXT: usize = 0x1fff_ffff;

/// The longest text, in bytes, for which the same holds with grouped imports,
/// whose encoding can grow with the square of the text.
pub const MAX_GROUPED_TEXT: usize = 0x4_0000;

/// The byte can stand in a keyword: printable ASCII but for the quote, the comma,
/// the semicolon and the brackets.
pub open spec fn is_id_char(byte: u8) -> bool {
    &&& 0x21 <= byte <= 0x7e
    &&& byte != 0x22 && byte != 0x28 && byte != 0x29 && byte != 0x2c && byte != 0x3b
    &&& byte != 0x5b && byte != 0x5d && byte != 0x7b && byte != 0x7d
}

/// `word` stands at `at` in `bytes`, with no keyword character before or behind.
pub open spec fn is_token_at(bytes: Seq<u8>, word: Seq<u8>, at: int) -> bool {
    &&& 0 <= at <= bytes.len() - word.len()
    &&& bytes.subrange(at, at + word.len()) == word
    &&& at == 0 || !is_id_char(bytes[at - 1])
    &&& at + word.len() == bytes.len() || !is_id_char(bytes[at + word.len()])
}

/// `word` stands somewhere in `bytes`, with no keyword character before or
/// behind.
pub open spec fn holds_token(bytes: Seq<u8>, word: Seq<u8>) -> bool {
    exists|at: int| is_token_at(bytes, word, at)
}

/// The text has every keyword of a component that declares a core module type
/// with a table or a global of a reference type, and an identifier that this type
/// can go by.
pub open spec fn may_name_reference_in_module_type(bytes: Seq<u8>) -> bool {
    &&& holds_token(bytes, encode_utf8("component"@))
    &&& holds_token(bytes, encode_utf8("core"@))
    &&& holds_token(bytes, encode_utf8("module"@))
    &&& holds_token(bytes, encode_utf8("ref"@))
    &&& holds_token(bytes, encode_utf8("table"@)) || holds_token(bytes, encode_utf8("global"@))
    &&& bytes.contains(0x24u8)
}

/// The text has both keywords of an import whose items share a module name or a
/// type.
pub open spec fn may_group_imports(bytes: Seq<u8>) -> bool {
    holds_token(bytes, encode_utf8("import"@)) && holds_token(bytes, encode_utf8("item"@))
}

/// The parser returns on `bytes`: they start like a binary, or they are a text
/// with no reference type that it may leave unresolved, short enough for the
/// lengths in its encoding. The parser also returns on most other texts; which
/// ones takes the whole grammar to say.
pub open spec fn parser_returns(bytes: Seq<u8>) -> bool {
    ||| is_wasm_binary(bytes)
    ||| !may_name_reference_in_module_type(bytes) && (bytes.len() <= MAX_GROUPED_TEXT
        || bytes.len() <= MAX_TEXT && !may_group_imports(bytes))
}

/// The parser's outcome, by its views.
pub open spec fn parsed_view(parsed: Result<Vec<u8>, String>) -> Result<Seq<u8>, Seq<char>> {
    match parsed {
        Ok(binary) => Ok(binary@),
        Err(message) => Err(message@),
    }
}

/// What [`wat2wasm`] returns, by its views.
pub open spec fn outcome_view(outcome: Result<Vec<u8>, WatError>) -> Result<Seq<u8>, Seq<char>> {
    match outcome {
        Ok(binary) => Ok(binary@),
        Err(error) => Err(error.message@),
    }
}

/// `wasmer::wat2wasm`, with the error turned into its text.
///
/// Trusted: on the texts of [`parser_returns`] the call returns, the outcome is a
/// function of the bytes, named [`wat_binary`], and bytes that start with `\0asm`
/// come back verbatim. What the text format encodes to, and which texts are
/// refused, is left to that name.
///
/// The call panics on two kinds of text. One is a component with a core module
/// type that imports or exports a table or a global whose reference type goes by
/// an identifier: the identifier is never resolved. The other is a text whose
/// encoding has a length of more than 32 bits, or a hexadecimal float of more than
/// 2^29 digits. Nothing is stated of a text outside of [`parser_returns`], though
/// the call returns on most of them.
#[verifier::external_body]
fn parse_wat(bytes: &[u8]) -> (parsed: Result<Vec<u8>, String>)
    requires
        parser_returns(bytes@),
    ensures
        parsed_view(parsed) == wat_binary(bytes@),
        is_wasm_binary(bytes@) ==> parsed is Ok && parsed->Ok_0@ == bytes@,
{
    wasmer::wat2wasm(bytes).map(|binary| binary.into_owned()).map_err(|error| error.to_string())
}

/// What the caller of [`wat2wasm`] gets for the parser's outcome.
pub fn wat_outcome(parsed: Result<Vec<u8>, String>) -> (outcome: Result<Vec<u8>, WatError>)
    ensures
        outcome_view(outcome) == parsed_view(parsed),
        parsed matches Ok(binary) ==> outcome is Ok && outcome->Ok_0@ == binary@,
        parsed matches Err(message) ==> outcome is Err && outcome->Err_0.message@ == message@,
{
    match parsed {
        Ok(binary) => Ok(binary),
        Err(message) => Err(WatError { message }),
    }
}

/// Whether the byte can stand in a keyword.
fn id_char(byte: u8) -> (found: bool)
    ensures
        found == is_id_char(byte),
{
    0x21 <= byte && byte <= 0x7e && byte != 0x22 && byte != 0x28 && byte != 0x29 && byte != 0x2c
        && byte != 0x3b && byte != 0x5b && byte != 0x5d && byte != 0x7b && byte != 0x7d
}

/// Whether `word` stands at `at` in `bytes`, with no keyword character before or
/// behind.
fn token_at(bytes: &[u8], word: &[u8], at: usize) -> (found: bool)
    requires
        at <= bytes@.len() - word@.len(),
    ensures
        found == is_token_at(bytes@, word@, at as int),
{
    if at > 0 && id_char(bytes[at - 1]) {
        return false;
    }
    let end: usize = at + word.len();
    if end < bytes.len() && id_char(bytes[end]) {
        return false;
    }
    let ghost part = bytes@.subrange(at as int, at + word@.len());
    let mut j: usize = 0;
    while j < word.len()
        invariant
            end == at + word.len(),
            end <= bytes.len(),
            j <= word.len(),
            part == bytes@.subrange(at as int, at + word@.len()),
            forall|k: int| 0 <= k < j ==> part[k] == word@[k],
        decreases word.len() - j,
    {
        if bytes[at + j] != word[j] {
            assert(part[j as int] != word@[j as int]);
            return false;
        }
        j += 1;
    }
    assert(part =~= word@);
    true
}

/// Whether `word` stands somewhere in `bytes`, with no keyword character before
/// or behind.
fn contains_token(bytes: &[u8], word: &[u8]) -> (found: bool)
    ensures
        found == holds_token(bytes@, word@),
{
    if word.len() > bytes.len() {
        return false;
    }
    let last: usize = bytes.len() - word.len();
    let mut at: usize = 0;
    loop
        invariant
            last == bytes.len() - word.len(),
            at <= last,
            forall|k: int| 0 <= k < at ==> !is_token_at(bytes@, word@, k),
        decreases last - at,
    {
        if token_at(bytes, word, at) {
            return true;
        }
        if at == last {
            return false;
        }
        at += 1;
    }
}

/// Whether `byte` stands somewhere in `bytes`.
fn contains_byte(bytes: &[u8], byte: u8) -> (found: bool)
    ensures
        found == bytes@.contains(byte),
{
    let mut i: usize = 0;
    while i < bytes.len()
        invariant
            i <= bytes.len(),
            forall|k: int| 0 <= k < i ==> bytes@[k] != byte,
        decreases bytes.len() - i,
    {
        if bytes[i] == byte {
            return true;
        }
        i += 1;
    }
    false
}

/// Whether [`wat2wasm`] takes `wat`.
pub fn is_parser_text(wat: &str) -> (ok: bool)
    ensures
        ok == parser_returns(encode_utf8(wat@)),
{
    let bytes: &[u8] = wat.as_bytes();
    if bytes.len() >= 4 && bytes[0] == 0x00 && bytes[1] == 0x61 && bytes[2] == 0x73 && bytes[3]
        == 0x6d {
        assert(bytes@.take(4) =~= seq![0x00u8, 0x61u8, 0x73u8, 0x6du8]);
        return true;
    }
    assert(!is_wasm_binary(bytes@)) by {
        if is_wasm_binary(bytes@) {
            let head = bytes@.take(4);
            assert(head[0] == bytes@[0] && head[1] == bytes@[1] && head[2] == bytes@[2] && head[3]
                == bytes@[3]);
        }
    }
    let named: bool = contains_byte(bytes, 0x24) && contains_token(bytes, "component".as_bytes())
        && contains_token(bytes, "core".as_bytes()) && contains_token(bytes, "module".as_bytes())
        && contains_token(bytes, "ref".as_bytes()) && (contains_token(bytes, "table".as_bytes())
        || contains_token(bytes, "global".as_bytes()));
    !named && (bytes.len() <= MAX_GROUPED_TEXT || bytes.len() <= MAX_TEXT && !(contains_token(
        bytes,
        "import".as_bytes(),
    ) && contains_token(bytes, "item".as_bytes())))
}

/// Turns the text of a WebAssembly module into its binary. Text that already is
/// a binary comes back unchanged. [`is_parser_text`] tells which texts it takes.
pub fn wat2wasm(wat: String) -> (outcome: Result<Vec<u8>, WatError>)
    requires
        parser_returns(encode_utf8(wat@)),
    ensures
        outcome_view(outcome) == wat_binary(encode_utf8(wat@)),
        is_wasm_binary(encode_utf8(wat@)) ==> outcome is Ok && outcome->Ok_0@ == encode_utf8(wat@),
{
    wat_outcome(parse_wat(wat.as_str().as_bytes()))
}

/// The parser's outcome and what the caller gets are seen for what they are: the
/// binary's bytes, or the characters of the message.
pub proof fn law_outcomes_are_shown(binary: Vec<u8>, message: String, error: WatError)
    ensures
        parsed_view(Ok(binary)) == Ok::<Seq<u8>, Seq<char>>(binary@),
        parsed_view(Err(message)) == Err::<Seq<u8>, Seq<char>>(message@),
        outcome_view(Ok(binary)) == Ok::<Seq<u8>, Seq<char>>(binary@),
        outcome_view(Err(error)) == Err::<Seq<u8>, Seq<char>>(error.message@),
{
}

/// Bytes start like a binary exactly when a zero byte and `asm` come first.
pub proof fn law_binaries_start_with_magic(bytes: Seq<u8>, rest: Seq<u8>)
    ensures
        is_wasm_binary(seq![0x00u8, 0x61u8, 0x73u8, 0x6du8] + rest),
        is_wasm_binary(bytes) ==> bytes.len() >= 4 && bytes[0] == 0x00 && bytes[1] == 0x61
            && bytes[2] == 0x73 && bytes[3] == 0x6d,
{
    let magic = seq![0x00u8, 0x61u8, 0x73u8, 0x6du8];
    assert((magic + rest).take(4) =~= magic);
    if is_wasm_binary(bytes) {
        let head = bytes.take(4);
        assert(head[0] == bytes[0] && head[1] == bytes[1] && head[2] == bytes[2] && head[3]
            == bytes[3]);
    }
}

/// A word is found as a token wherever it stands apart from its surroundings, and
/// only there.
pub proof fn law_tokens_stand_apart(before: Seq<u8>, word: Seq<u8>, behind: Seq<u8>)
    requires
        word.len() > 0,
    ensures
        is_token_at(before + word + behind, word, before.len() as int) <==> (before.len() == 0
            || !is_id_char(before.last())) && (behind.len() == 0 || !is_id_char(behind[0])),
        (before.len() == 0 || !is_id_char(before.last())) && (behind.len() == 0 || !is_id_char(
            behind[0],
        )) ==> holds_token(before + word + behind, word),
        holds_token(before, word) ==> exists|at: int|
            0 <= at <= before.len() - word.len() && #[trigger] before.subrange(
                at,
                at + word.len(),
            ) == word,
{
    let whole = before + word + behind;
    assert(whole.subrange(before.len() as int, (before.len() + word.len()) as int) =~= word);
    if before.len() > 0 {
        assert(whole[before.len() - 1] == before.last());
    }
    if behind.len() > 0 {
        assert(whole[(before.len() + word.len()) as int] == behind[0]);
    }
    if holds_token(before, word) {
        let at = choose|at: int| is_token_at(before, word, at);
        assert(before.subrange(at, at + word.len()) == word);
    }
}

/// A text without identifiers is taken up to 256 KiB, and up to 512 MiB without
/// either keyword of grouped imports; a binary is taken at any length.
pub proof fn law_plain_texts_are_taken(bytes: Seq<u8>, rest: Seq<u8>)
    ensures
        !bytes.contains(0x24u8) && bytes.len() <= 262_144 ==> parser_returns(bytes),
        !bytes.contains(0x24u8) && bytes.len() < 536_870_912 && !(holds_token(
            bytes,
            encode_utf8("item"@),
        ) && holds_token(bytes, encode_utf8("import"@))) ==> parser_returns(bytes),
        parser_returns(seq![0x00u8, 0x61u8, 0x73u8, 0x6du8] + rest),
{
    law_binaries_start_with_magic(bytes, rest);
}

/// A text is taken, up to the same lengths, if it lacks one of the keywords of a
/// component, of its core module types and of reference types.
pub proof fn law_texts_without_a_keyword_are_taken(bytes: Seq<u8>)
    requires
        bytes.len() <= 262_144 || bytes.len() < 536_870_912 && !(holds_token(
            bytes,
            encode_utf8("item"@),
        ) && holds_token(bytes, encode_utf8("import"@))),
        ({
            ||| !holds_token(bytes, encode_utf8("component"@))
            ||| !holds_token(bytes, encode_utf8("core"@))
            ||| !holds_token(bytes, encode_utf8("module"@))
            ||| !holds_token(bytes, encode_utf8("ref"@))
            ||| !holds_token(bytes, encode_utf8("table"@)) && !holds_token(
                bytes,
                encode_utf8("global"@),
            )
        }),
    ensures
        parser_returns(bytes),
{
}

/// Keywords are made of letters, digits and marks; blanks, quotes, commas,
/// semicolons and brackets end them, and so does every byte outside ASCII.
pub proof fn law_keyword_characters(byte: u8)
    ensures
        byte <= 0x20 || byte >= 0x7f ==> !is_id_char(byte),
        0x30 <= byte <= 0x39 || 0x41 <= byte <= 0x5a || 0x61 <= byte <= 0x7a ==> is_id_char(byte),
        seq![0x22u8, 0x28u8, 0x29u8, 0x2cu8, 0x3bu8, 0x5bu8, 0x5du8, 0x7bu8, 0x7du8].contains(byte)
            ==> !is_id_char(byte),
        0x21 <= byte <= 0x7e && !is_id_char(byte) ==> seq![
            0x22u8,
            0x28u8,
            0x29u8,
            0x2cu8,
            0x3bu8,
            0x5bu8,
            0x5du8,
            0x7bu8,
            0x7du8,
        ].contains(byte),
{
    let marks = seq![0x22u8, 0x28u8, 0x29u8, 0x2cu8, 0x3bu8, 0x5bu8, 0x5du8, 0x7bu8, 0x7du8];
    assert(marks[0] == 0x22 && marks[1] == 0x28 && marks[2] == 0x29 && marks[3] == 0x2c && marks[4]
        == 0x3b && marks[5] == 0x5b && marks[6] == 0x5d && marks[7] == 0x7b && marks[8] == 0x7d);
}

/// A text that does not start like a binary is left out when it has an identifier
/// and all keywords of a component with a reference type in a core module type,
/// when it is over 256 KiB long and may group imports, and when it is 512 MiB long.
pub proof fn law_other_texts_are_left_out(bytes: Seq<u8>)
    requires
        bytes.len() > 0,
        bytes[0] != 0x00,
    ensures
        bytes.contains(0x24u8) && holds_token(bytes, encode_utf8("component"@)) && holds_token(
            bytes,
            encode_utf8("core"@),
        ) && holds_token(bytes, encode_utf8("module"@)) && holds_token(bytes, encode_utf8("ref"@))
            && (holds_token(bytes, encode_utf8("table"@)) || holds_token(
            bytes,
            encode_utf8("global"@),
        )) ==> !parser_returns(bytes),
        bytes.len() > 262_144 && holds_token(bytes, encode_utf8("import"@)) && holds_token(
            bytes,
            encode_utf8("item"@),
        ) ==> !parser_returns(bytes),
        bytes.len() >= 536_870_912 ==> !parser_returns(bytes),
{
    law_binaries_start_with_magic(bytes, bytes);
}

} // verus!
