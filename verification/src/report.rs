//! A textual probe of the bridge, for diagnosing how threads see it.
use crate::bridge::Bridge;
use vstd::prelude::*;
use vstd::string::*;

verus! {

/// The decimal digit for `d`.
pub open spec fn digit(d: nat) -> char {
    (('0' as u32 + d) as u32) as char
}

/// `n` in decimal, without leading zeros.
pub open spec fn decimal(n: nat) -> Seq<char>
    decreases n,
{
    if n < 10 {
        seq![digit(n)]
    } else {
        decimal(n / 10).push(digit(n % 10))
    }
}

/// `n` in decimal, with a minus sign in front of a negative number.
pub open spec fn signed_decimal(n: int) -> Seq<char> {
    if n < 0 {
        "-"@ + decimal((-n) as nat)
    } else {
        decimal(n as nat)
    }
}

/// The number that a string of decimal digits denotes.
pub open spec fn decimal_value(text: Seq<char>) -> int
    decreases text.len(),
{
    if text.len() == 0 {
        0
    } else {
        decimal_value(text.drop_last()) * 10 + (text.last() as int - '0' as int)
    }
}

/// The text of the probe for these words, lengths and address.
pub open spec fn debug_report(
    req_seq: i32,
    resp_seq: i32,
    req_len: u32,
    resp_len: u32,
    addr: usize,
) -> Seq<char> {
    "{\"reqSeq\":"@ + signed_decimal(req_seq as int) + ",\"respSeq\":"@ + signed_decimal(
        resp_seq as int,
    ) + ",\"reqLen\":"@ + decimal(req_len as nat) + ",\"respLen\":"@ + decimal(resp_len as nat)
        + ",\"reqSeqAddr\":"@ + decimal(addr as nat) + "}"@
}

/// How many characters of `text` come before its first `mark`; all of them, where
/// it has none.
pub open spec fn span_before(text: Seq<char>, mark: char) -> nat
    decreases text.len(),
{
    if text.len() == 0 || text[0] == mark {
        0
    } else {
        1 + span_before(text.drop_first(), mark)
    }
}

/// How many characters at the front of `text` are digits or minus signs.
pub open spec fn number_span(text: Seq<char>) -> nat
    decreases text.len(),
{
    if text.len() == 0 || !(text[0] == '-' || '0' <= text[0] <= '9') {
        0
    } else {
        1 + number_span(text.drop_first())
    }
}

/// The text is a natural number as JSON writes it: digits, with no zero in front
/// of others.
pub open spec fn is_natural(text: Seq<char>) -> bool {
    &&& text.len() > 0
    &&& forall|i: int| 0 <= i < text.len() ==> '0' <= #[trigger] text[i] <= '9'
    &&& text[0] == '0' ==> text.len() == 1
}

/// The integer that `text` is, as JSON writes it.
pub open spec fn read_integer(text: Seq<char>) -> Option<int> {
    if is_natural(text) {
        Some(decimal_value(text))
    } else if text.len() > 1 && text[0] == '-' && text[1] != '0' && is_natural(text.drop_first()) {
        Some(-decimal_value(text.drop_first()))
    } else {
        None
    }
}

/// The keys and the integers of the members of a JSON object without blanks, read
/// from behind its opening brace to the end of `text`.
pub open spec fn read_members(text: Seq<char>) -> Option<Seq<(Seq<char>, int)>>
    decreases text.len(),
{
    proof {
        lemma_spans_within();
    }
    if text.len() == 0 || text[0] != '"' {
        None
    } else {
        let quoted = text.drop_first();
        let key_len = span_before(quoted, '"') as int;
        if key_len + 1 >= quoted.len() || quoted[key_len + 1] != ':' {
            None
        } else {
            let value = quoted.skip(key_len + 2);
            let value_len = number_span(value) as int;
            match read_integer(value.take(value_len)) {
                None => None,
                Some(number) => {
                    let member = seq![(quoted.take(key_len), number)];
                    if value_len == value.len() {
                        None
                    } else if value[value_len] == '}' && value_len + 1 == value.len() {
                        Some(member)
                    } else if value[value_len] == ',' {
                        match read_members(value.skip(value_len + 1)) {
                            Some(members) => Some(member + members),
                            None => None,
                        }
                    } else {
                        None
                    }
                },
            }
        }
    }
}

/// The keys and the integers of a JSON object that is all of `text` and has no
/// blanks.
pub open spec fn read_object(text: Seq<char>) -> Option<Seq<(Seq<char>, int)>> {
    if text.len() > 0 && text[0] == '{' {
        read_members(text.drop_first())
    } else {
        None
    }
}

/// Spans lie within their text, wherever it is cut.
pub proof fn lemma_spans_within()
    ensures
        forall|part: Seq<char>, mark: char| #[trigger] span_before(part, mark) <= part.len(),
        forall|part: Seq<char>| #[trigger] number_span(part) <= part.len(),
{
    assert forall|part: Seq<char>, mark: char| #[trigger]
        span_before(part, mark) <= part.len() by {
        lemma_span_before_within(part, mark);
    }
    assert forall|part: Seq<char>| #[trigger] number_span(part) <= part.len() by {
        lemma_number_span_within(part);
    }
}

proof fn lemma_span_before_within(part: Seq<char>, mark: char)
    ensures
        span_before(part, mark) <= part.len(),
    decreases part.len(),
{
    if part.len() > 0 {
        lemma_span_before_within(part.drop_first(), mark);
    }
}

proof fn lemma_number_span_within(part: Seq<char>)
    ensures
        number_span(part) <= part.len(),
    decreases part.len(),
{
    if part.len() > 0 {
        lemma_number_span_within(part.drop_first());
    }
}

fn digit_str(d: u64) -> (text: &'static str)
    requires
        d < 10,
    ensures
        text@ == seq![digit(d as nat)],
{
    proof {
        reveal_strlit("0");
        reveal_strlit("1");
        reveal_strlit("2");
        reveal_strlit("3");
        reveal_strlit("4");
        reveal_strlit("5");
        reveal_strlit("6");
        reveal_strlit("7");
        reveal_strlit("8");
        reveal_strlit("9");
    }
    match d {
        0 => "0",
        1 => "1",
        2 => "2",
        3 => "3",
        4 => "4",
        5 => "5",
        6 => "6",
        7 => "7",
        8 => "8",
        _ => "9",
    }
}

fn push_decimal(out: &mut String, n: u64)
    ensures
        final(out)@ == old(out)@ + decimal(n as nat),
    decreases n,
{
    if n >= 10 {
        push_decimal(out, n / 10);
    }
    out.append(digit_str(n % 10));
    assert(out@ =~= old(out)@ + decimal(n as nat));
}

fn push_signed_decimal(out: &mut String, n: i32)
    ensures
        final(out)@ == old(out)@ + signed_decimal(n as int),
{
    if n < 0 {
        out.append("-");
        push_decimal(out, (-(n as i64)) as u64);
    } else {
        push_decimal(out, n as u64);
    }
    assert(out@ =~= old(out)@ + signed_decimal(n as int));
}

/// Reports the sequence words and payload lengths, as the calling thread sees
/// them, together with the address of the request word.
pub fn fetch_bridge_debug_state<const N: usize>(bridge: &Bridge<N>, req_seq_addr: usize) -> (report:
    String)
    ensures
        report@ == debug_report(
            bridge.req_seq,
            bridge.resp_seq,
            bridge.req_len,
            bridge.resp_len,
            req_seq_addr,
        ),
        read_object(report@) == Some(
            seq![
                ("reqSeq"@, bridge.req_seq as int),
                ("respSeq"@, bridge.resp_seq as int),
                ("reqLen"@, bridge.req_len as int),
                ("respLen"@, bridge.resp_len as int),
                ("reqSeqAddr"@, req_seq_addr as int),
            ],
        ),
{
    let mut out: String = String::new();
    out.append("{\"reqSeq\":");
    push_signed_decimal(&mut out, bridge.req_seq);
    out.append(",\"respSeq\":");
    push_signed_decimal(&mut out, bridge.resp_seq);
    out.append(",\"reqLen\":");
    push_decimal(&mut out, bridge.req_len as u64);
    out.append(",\"respLen\":");
    push_decimal(&mut out, bridge.resp_len as u64);
    out.append(",\"reqSeqAddr\":");
    push_decimal(&mut out, req_seq_addr as u64);
    out.append("}");
    assert(out@ =~= debug_report(
        bridge.req_seq,
        bridge.resp_seq,
        bridge.req_len,
        bridge.resp_len,
        req_seq_addr,
    ));
    proof {
        law_report_reads_back(
            bridge.req_seq,
            bridge.resp_seq,
            bridge.req_len,
            bridge.resp_len,
            req_seq_addr,
        );
    }
    out
}

/// A number in decimal denotes that number.
pub proof fn law_decimal_denotes_number(n: nat)
    ensures
        decimal_value(decimal(n)) == n,
    decreases n,
{
    if n < 10 {
        assert(decimal(n).drop_last() =~= Seq::<char>::empty());
        assert(decimal_value(decimal(n).drop_last()) == 0);
    } else {
        law_decimal_denotes_number(n / 10);
        assert(decimal(n).drop_last() =~= decimal(n / 10));
    }
}

proof fn lemma_decimal_is_digits(n: nat)
    ensures
        decimal(n).len() > 0,
        forall|i: int| 0 <= i < decimal(n).len() ==> '0' <= #[trigger] decimal(n)[i] <= '9',
    decreases n,
{
    if n >= 10 {
        lemma_decimal_is_digits(n / 10);
    }
}

proof fn lemma_signed_decimal(n: int)
    ensures
        forall|i: int|
            0 <= i < signed_decimal(n).len() ==> #[trigger] signed_decimal(n)[i] == '-' || '0'
                <= signed_decimal(n)[i] <= '9',
{
    reveal_strlit("-");
    if n < 0 {
        lemma_decimal_is_digits((-n) as nat);
    } else {
        lemma_decimal_is_digits(n as nat);
    }
}

proof fn lemma_signed_decimal_injective(a: int, b: int)
    requires
        signed_decimal(a) == signed_decimal(b),
    ensures
        a == b,
{
    reveal_strlit("-");
    let (abs_a, abs_b) = (if a < 0 { -a } else { a }, if b < 0 { -b } else { b });
    lemma_decimal_is_digits(abs_a as nat);
    lemma_decimal_is_digits(abs_b as nat);
    law_decimal_denotes_number(abs_a as nat);
    law_decimal_denotes_number(abs_b as nat);
    if a < 0 {
        assert(signed_decimal(a)[0] == '-');
        assert(signed_decimal(a).skip(1) =~= decimal(abs_a as nat));
    }
    if b < 0 {
        assert(signed_decimal(b)[0] == '-');
        assert(signed_decimal(b).skip(1) =~= decimal(abs_b as nat));
    }
}

/// Two texts that agree, each cut where its first `mark` stands, agree in both
/// parts.
proof fn lemma_cut_at_mark(
    a: Seq<char>,
    rest_a: Seq<char>,
    b: Seq<char>,
    rest_b: Seq<char>,
    mark: char,
)
    requires
        a + rest_a == b + rest_b,
        rest_a.len() > 0 && rest_a[0] == mark,
        rest_b.len() > 0 && rest_b[0] == mark,
        forall|i: int| 0 <= i < a.len() ==> a[i] != mark,
        forall|i: int| 0 <= i < b.len() ==> b[i] != mark,
    ensures
        a == b,
        rest_a == rest_b,
{
    let whole = a + rest_a;
    assert(whole[a.len() as int] == mark);
    assert((b + rest_b)[b.len() as int] == mark);
    if a.len() < b.len() {
        assert((b + rest_b)[a.len() as int] == b[a.len() as int]);
    }
    if b.len() < a.len() {
        assert(whole[b.len() as int] == a[b.len() as int]);
    }
    assert(a =~= whole.take(a.len() as int));
    assert(b =~= (b + rest_b).take(b.len() as int));
    assert(rest_a =~= whole.skip(a.len() as int));
    assert(rest_b =~= (b + rest_b).skip(b.len() as int));
}

proof fn lemma_strip_prefix(prefix: Seq<char>, a: Seq<char>, b: Seq<char>)
    requires
        prefix + a == prefix + b,
    ensures
        a == b,
{
    assert(a =~= (prefix + a).skip(prefix.len() as int));
    assert(b =~= (prefix + b).skip(prefix.len() as int));
}

proof fn lemma_regroup(parts: Seq<Seq<char>>)
    requires
        parts.len() == 11,
    ensures
        parts[0] + parts[1] + parts[2] + parts[3] + parts[4] + parts[5] + parts[6] + parts[7]
            + parts[8] + parts[9] + parts[10] == parts[0] + (parts[1] + (parts[2] + (parts[3] + (
        parts[4] + (parts[5] + (parts[6] + (parts[7] + (parts[8] + (parts[9] + parts[10]))))))))),
{
    let t8 = parts[8] + (parts[9] + parts[10]);
    let t6 = parts[6] + (parts[7] + t8);
    let t4 = parts[4] + (parts[5] + t6);
    let t2 = parts[2] + (parts[3] + t4);
    let h2 = parts[0] + parts[1];
    let h4 = h2 + parts[2] + parts[3];
    let h6 = h4 + parts[4] + parts[5];
    let h8 = h6 + parts[6] + parts[7];
    assert(h8 + parts[8] + parts[9] + parts[10] =~= h8 + t8);
    assert(h6 + parts[6] + parts[7] + t8 =~= h6 + t6);
    assert(h4 + parts[4] + parts[5] + t6 =~= h4 + t4);
    assert(h2 + parts[2] + parts[3] + t4 =~= h2 + t2);
    assert(h2 + t2 =~= parts[0] + (parts[1] + t2));
}

/// Two reports that agree from a labelled number on agree in that number's text
/// and in what follows it.
proof fn lemma_cut_labelled(
    label: Seq<char>,
    a: Seq<char>,
    rest_a: Seq<char>,
    b: Seq<char>,
    rest_b: Seq<char>,
    mark: char,
)
    requires
        label + (a + rest_a) == label + (b + rest_b),
        rest_a.len() > 0 && rest_a[0] == mark,
        rest_b.len() > 0 && rest_b[0] == mark,
        forall|i: int| 0 <= i < a.len() ==> a[i] != mark,
        forall|i: int| 0 <= i < b.len() ==> b[i] != mark,
    ensures
        a == b,
        rest_a == rest_b,
{
    lemma_strip_prefix(label, a + rest_a, b + rest_b);
    lemma_cut_at_mark(a, rest_a, b, rest_b, mark);
}

/// The tail of a report, from the label of its first length on.
spec fn lengths_report(req_len: u32, resp_len: u32, addr: usize) -> Seq<char> {
    ",\"reqLen\":"@ + (decimal(req_len as nat) + (",\"respLen\":"@ + (decimal(resp_len as nat) + (
    ",\"reqSeqAddr\":"@ + (decimal(addr as nat) + "}"@)))))
}

proof fn lemma_lengths_report_tells_apart(a: (u32, u32, usize), b: (u32, u32, usize))
    requires
        lengths_report(a.0, a.1, a.2) == lengths_report(b.0, b.1, b.2),
    ensures
        a == b,
{
    reveal_strlit(",\"respLen\":");
    reveal_strlit(",\"reqSeqAddr\":");
    reveal_strlit("}");
    let ra1 = ",\"reqSeqAddr\":"@ + (decimal(a.2 as nat) + "}"@);
    let rb1 = ",\"reqSeqAddr\":"@ + (decimal(b.2 as nat) + "}"@);
    let ra0 = ",\"respLen\":"@ + (decimal(a.1 as nat) + ra1);
    let rb0 = ",\"respLen\":"@ + (decimal(b.1 as nat) + rb1);
    lemma_decimal_is_digits(a.0 as nat);
    lemma_decimal_is_digits(b.0 as nat);
    lemma_cut_labelled(",\"reqLen\":"@, decimal(a.0 as nat), ra0, decimal(b.0 as nat), rb0, ',');
    law_decimal_denotes_number(a.0 as nat);
    law_decimal_denotes_number(b.0 as nat);
    lemma_decimal_is_digits(a.1 as nat);
    lemma_decimal_is_digits(b.1 as nat);
    lemma_cut_labelled(",\"respLen\":"@, decimal(a.1 as nat), ra1, decimal(b.1 as nat), rb1, ',');
    law_decimal_denotes_number(a.1 as nat);
    law_decimal_denotes_number(b.1 as nat);
    lemma_decimal_is_digits(a.2 as nat);
    lemma_decimal_is_digits(b.2 as nat);
    lemma_cut_labelled(
        ",\"reqSeqAddr\":"@,
        decimal(a.2 as nat),
        "}"@,
        decimal(b.2 as nat),
        "}"@,
        '}',
    );
    law_decimal_denotes_number(a.2 as nat);
    law_decimal_denotes_number(b.2 as nat);
}

proof fn lemma_report_regrouped(
    req_seq: i32,
    resp_seq: i32,
    req_len: u32,
    resp_len: u32,
    addr: usize,
)
    ensures
        debug_report(req_seq, resp_seq, req_len, resp_len, addr) == "{\"reqSeq\":"@ + (
        signed_decimal(req_seq as int) + (",\"respSeq\":"@ + (signed_decimal(resp_seq as int)
            + lengths_report(req_len, resp_len, addr)))),
{
    lemma_regroup(
        seq![
            "{\"reqSeq\":"@,
            signed_decimal(req_seq as int),
            ",\"respSeq\":"@,
            signed_decimal(resp_seq as int),
            ",\"reqLen\":"@,
            decimal(req_len as nat),
            ",\"respLen\":"@,
            decimal(resp_len as nat),
            ",\"reqSeqAddr\":"@,
            decimal(addr as nat),
            "}"@,
        ],
    );
}

/// Threads whose reports agree see the same words, lengths and address.
pub proof fn law_report_tells_states_apart(
    a: (i32, i32, u32, u32, usize),
    b: (i32, i32, u32, u32, usize),
)
    requires
        debug_report(a.0, a.1, a.2, a.3, a.4) == debug_report(b.0, b.1, b.2, b.3, b.4),
    ensures
        a == b,
{
    lemma_report_regrouped(a.0, a.1, a.2, a.3, a.4);
    lemma_report_regrouped(b.0, b.1, b.2, b.3, b.4);
    let ra1 = lengths_report(a.2, a.3, a.4);
    let rb1 = lengths_report(b.2, b.3, b.4);
    let ra0 = ",\"respSeq\":"@ + (signed_decimal(a.1 as int) + ra1);
    let rb0 = ",\"respSeq\":"@ + (signed_decimal(b.1 as int) + rb1);
    reveal_strlit(",\"respSeq\":");
    reveal_strlit(",\"reqLen\":");
    lemma_signed_decimal(a.0 as int);
    lemma_signed_decimal(b.0 as int);
    lemma_cut_labelled(
        "{\"reqSeq\":"@,
        signed_decimal(a.0 as int),
        ra0,
        signed_decimal(b.0 as int),
        rb0,
        ',',
    );
    lemma_signed_decimal_injective(a.0 as int, b.0 as int);
    lemma_signed_decimal(a.1 as int);
    lemma_signed_decimal(b.1 as int);
    lemma_cut_labelled(
        ",\"respSeq\":"@,
        signed_decimal(a.1 as int),
        ra1,
        signed_decimal(b.1 as int),
        rb1,
        ',',
    );
    lemma_signed_decimal_injective(a.1 as int, b.1 as int);
    lemma_lengths_report_tells_apart((a.2, a.3, a.4), (b.2, b.3, b.4));
}

/// The digits of a number below ten stand for themselves, and one more digit
/// behind a number makes it ten times as large and adds its own value; what the
/// text of a number denotes follows the same rule.
pub proof fn law_digits_count_in_tens(n: nat, d: nat, text: Seq<char>)
    requires
        d < 10,
    ensures
        decimal(d) == seq!["0123456789"@[d as int]],
        n > 0 ==> decimal(10 * n + d) == decimal(n).push("0123456789"@[d as int]),
        decimal_value(Seq::<char>::empty()) == 0,
        decimal_value(text.push("0123456789"@[d as int])) == 10 * decimal_value(text) + d,
{
    reveal_strlit("0123456789");
    assert("0123456789"@[d as int] == digit(d));
    assert(text.push(digit(d)).drop_last() =~= text);
    assert((10 * n + d) / 10 == n && (10 * n + d) % 10 == d);
}

/// A negative number is a minus sign and the digits of its amount.
pub proof fn law_minus_stands_in_front(n: nat)
    ensures
        signed_decimal(n as int) == decimal(n),
        n > 0 ==> signed_decimal(-n) == seq!['-'] + decimal(n),
{
    reveal_strlit("-");
    assert("-"@ =~= seq!['-']);
}

proof fn lemma_decimal_is_natural(n: nat)
    ensures
        is_natural(decimal(n)),
        n > 0 ==> decimal(n)[0] != '0',
    decreases n,
{
    lemma_decimal_is_digits(n);
    if n >= 10 {
        lemma_decimal_is_natural(n / 10);
    }
}

proof fn lemma_signed_decimal_reads_back(n: int)
    ensures
        read_integer(signed_decimal(n)) == Some(n),
{
    reveal_strlit("-");
    if n < 0 {
        let amount = (-n) as nat;
        lemma_decimal_is_natural(amount);
        law_decimal_denotes_number(amount);
        assert(signed_decimal(n).drop_first() =~= decimal(amount));
        assert(signed_decimal(n)[0] == '-');
    } else {
        lemma_decimal_is_natural(n as nat);
        law_decimal_denotes_number(n as nat);
    }
}

proof fn lemma_span_before_mark(head: Seq<char>, mark: char, tail: Seq<char>)
    requires
        forall|i: int| 0 <= i < head.len() ==> head[i] != mark,
    ensures
        span_before(head + seq![mark] + tail, mark) == head.len(),
    decreases head.len(),
{
    let whole = head + seq![mark] + tail;
    if head.len() > 0 {
        lemma_span_before_mark(head.drop_first(), mark, tail);
        assert(whole.drop_first() =~= head.drop_first() + seq![mark] + tail);
    }
}

proof fn lemma_number_span_before(number: Seq<char>, tail: Seq<char>)
    requires
        forall|i: int|
            0 <= i < number.len() ==> #[trigger] number[i] == '-' || '0' <= number[i] <= '9',
        tail.len() > 0,
        tail[0] == ',' || tail[0] == '}',
    ensures
        number_span(number + tail) == number.len(),
    decreases number.len(),
{
    let whole = number + tail;
    if number.len() > 0 {
        let rest = number.drop_first();
        assert forall|i: int| 0 <= i < rest.len() implies #[trigger] rest[i] == '-' || '0'
            <= rest[i] <= '9' by {
            assert(rest[i] == number[i + 1]);
        }
        lemma_number_span_before(rest, tail);
        assert(whole.drop_first() =~= rest + tail);
    }
}

/// A member in front of other text reads as its key and its number.
proof fn lemma_member_reads_back(key: Seq<char>, n: int, tail: Seq<char>)
    requires
        forall|i: int| 0 <= i < key.len() ==> key[i] != '"',
        tail.len() > 0,
        tail[0] == ',' || tail == seq!['}'],
    ensures
        ({
            let text = seq!['"'] + key + seq!['"', ':'] + signed_decimal(n) + tail;
            read_members(text) == if tail[0] == ',' {
                match read_members(tail.drop_first()) {
                    Some(members) => Some(seq![(key, n)] + members),
                    None => None,
                }
            } else {
                Some(seq![(key, n)])
            }
        }),
{
    let number = signed_decimal(n);
    let text = seq!['"'] + key + seq!['"', ':'] + number + tail;
    let quoted = text.drop_first();
    assert(quoted =~= key + seq!['"'] + (seq![':'] + number + tail));
    lemma_span_before_mark(key, '"', seq![':'] + number + tail);
    let value = quoted.skip(key.len() as int + 2);
    assert(value =~= number + tail);
    lemma_signed_decimal(n);
    lemma_number_span_before(number, tail);
    assert(value.take(number.len() as int) =~= number);
    lemma_signed_decimal_reads_back(n);
    assert(quoted.take(key.len() as int) =~= key);
    assert(quoted[key.len() as int + 1] == ':');
    assert(value[number.len() as int] == tail[0]);
    assert(value.skip(number.len() as int + 1) =~= tail.drop_first());
}

/// The lengths and the address, from the comma in front of them on, read as their
/// three members.
proof fn lemma_lengths_read_back(req_len: u32, resp_len: u32, addr: usize)
    ensures
        lengths_report(req_len, resp_len, addr).len() > 0,
        lengths_report(req_len, resp_len, addr)[0] == ',',
        read_members(lengths_report(req_len, resp_len, addr).drop_first()) == Some(
            seq![
                ("reqLen"@, req_len as int),
                ("respLen"@, resp_len as int),
                ("reqSeqAddr"@, addr as int),
            ],
        ),
{
    reveal_strlit(",\"reqLen\":");
    reveal_strlit(",\"respLen\":");
    reveal_strlit(",\"reqSeqAddr\":");
    reveal_strlit("reqLen");
    reveal_strlit("respLen");
    reveal_strlit("reqSeqAddr");
    reveal_strlit("}");
    let t2 = "}"@;
    assert(t2 =~= seq!['}']);
    let t1 = ",\"reqSeqAddr\":"@ + (decimal(addr as nat) + t2);
    let t0 = ",\"respLen\":"@ + (decimal(resp_len as nat) + t1);
    let whole = lengths_report(req_len, resp_len, addr);
    lemma_member_reads_back("reqSeqAddr"@, addr as int, t2);
    assert(t1.drop_first() =~= seq!['"'] + "reqSeqAddr"@ + seq!['"', ':'] + decimal(addr as nat)
        + t2);
    lemma_member_reads_back("respLen"@, resp_len as int, t1);
    assert(t0.drop_first() =~= seq!['"'] + "respLen"@ + seq!['"', ':'] + decimal(resp_len as nat)
        + t1);
    lemma_member_reads_back("reqLen"@, req_len as int, t0);
    assert(whole.drop_first() =~= seq!['"'] + "reqLen"@ + seq!['"', ':'] + decimal(req_len as nat)
        + t0);
    assert(seq![("respLen"@, resp_len as int)] + seq![("reqSeqAddr"@, addr as int)] =~= seq![
        ("respLen"@, resp_len as int),
        ("reqSeqAddr"@, addr as int),
    ]);
    assert(seq![("reqLen"@, req_len as int)] + seq![
        ("respLen"@, resp_len as int),
        ("reqSeqAddr"@, addr as int),
    ] =~= seq![
        ("reqLen"@, req_len as int),
        ("respLen"@, resp_len as int),
        ("reqSeqAddr"@, addr as int),
    ]);
}

/// The two words, in front of other members, read as the first two.
proof fn lemma_words_read_back(
    req_seq: int,
    resp_seq: int,
    tail: Seq<char>,
    members: Seq<(Seq<char>, int)>,
)
    requires
        tail.len() > 0,
        tail[0] == ',',
        read_members(tail.drop_first()) == Some(members),
    ensures
        read_object(
            "{\"reqSeq\":"@ + (signed_decimal(req_seq) + (",\"respSeq\":"@ + (signed_decimal(resp_seq)
                + tail))),
        ) == Some(seq![("reqSeq"@, req_seq), ("respSeq"@, resp_seq)] + members),
{
    reveal_strlit("{\"reqSeq\":");
    reveal_strlit(",\"respSeq\":");
    reveal_strlit("reqSeq");
    reveal_strlit("respSeq");
    let first = signed_decimal(req_seq);
    let second = signed_decimal(resp_seq);
    let t0 = ",\"respSeq\":"@ + (second + tail);
    let whole = "{\"reqSeq\":"@ + (first + t0);
    lemma_member_reads_back("respSeq"@, resp_seq, tail);
    assert(t0.drop_first() =~= seq!['"'] + "respSeq"@ + seq!['"', ':'] + second + tail);
    lemma_member_reads_back("reqSeq"@, req_seq, t0);
    assert(whole.drop_first() =~= seq!['"'] + "reqSeq"@ + seq!['"', ':'] + first + t0);
    assert(seq![("reqSeq"@, req_seq)] + (seq![("respSeq"@, resp_seq)] + members) =~= seq![
        ("reqSeq"@, req_seq),
        ("respSeq"@, resp_seq),
    ] + members);
}

/// Read back as a JSON object, a report has five members, and under each key that
/// very quantity: the request word, the response word, the length of the request,
/// that of the response, and the address of the request word.
pub proof fn law_report_reads_back(
    req_seq: i32,
    resp_seq: i32,
    req_len: u32,
    resp_len: u32,
    addr: usize,
)
    ensures
        read_object(debug_report(req_seq, resp_seq, req_len, resp_len, addr)) == Some(
            seq![
                ("reqSeq"@, req_seq as int),
                ("respSeq"@, resp_seq as int),
                ("reqLen"@, req_len as int),
                ("respLen"@, resp_len as int),
                ("reqSeqAddr"@, addr as int),
            ],
        ),
{
    let lengths = seq![
        ("reqLen"@, req_len as int),
        ("respLen"@, resp_len as int),
        ("reqSeqAddr"@, addr as int),
    ];
    lemma_lengths_read_back(req_len, resp_len, addr);
    lemma_words_read_back(
        req_seq as int,
        resp_seq as int,
        lengths_report(req_len, resp_len, addr),
        lengths,
    );
    lemma_report_regrouped(req_seq, resp_seq, req_len, resp_len, addr);
    assert(seq![("reqSeq"@, req_seq as int), ("respSeq"@, resp_seq as int)] + lengths =~= seq![
        ("reqSeq"@, req_seq as int),
        ("respSeq"@, resp_seq as int),
        ("reqLen"@, req_len as int),
        ("respLen"@, resp_len as int),
        ("reqSeqAddr"@, addr as int),
    ]);
}

} // verus!
