//! The claims a session token carries, and their text form.
//!
//! Claims travel as one line of JSON with two integer members,
//! `{"account_id":7,"exp":1700000000}`. Exactly one text stands for each
//! claims value: integers are written in decimal without sign for
//! non-negative values, without leading zeros and without white space.
//! Reading accepts that text and nothing else.

use vstd::prelude::*;

verus! {

/// Opens the text and introduces the account identifier.
pub const ID_LABEL: &'static str = "{\"account_id\":";

/// Separates the account identifier from the expiry.
pub const EXPIRY_LABEL: &'static str = ",\"exp\":";

/// Closes the text.
pub const CLOSING: &'static str = "}";

/// What a token says about its bearer: the account it was issued to and the
/// instant, in seconds since the Unix epoch, from which it is no longer valid.
#[derive(Clone, Copy, Debug, PartialEq, Eq, Structural)]
pub struct Claims {
    pub account_id: i32,
    pub expiry: i64,
}

spec fn is_digit(c: char) -> bool {
    '0' <= c && c <= '9'
}

spec fn digit_value(c: char) -> int {
    c as int - '0' as int
}

/// The character that writes the digit `d`.
pub open spec fn digit_char(d: int) -> char {
    if d == 0 {
        '0'
    } else if d == 1 {
        '1'
    } else if d == 2 {
        '2'
    } else if d == 3 {
        '3'
    } else if d == 4 {
        '4'
    } else if d == 5 {
        '5'
    } else if d == 6 {
        '6'
    } else if d == 7 {
        '7'
    } else if d == 8 {
        '8'
    } else {
        '9'
    }
}

/// The decimal digits of a natural number, most significant first.
pub open spec fn decimal_nat(n: nat) -> Seq<char>
    decreases n,
{
    if n < 10 {
        seq![digit_char(n as int)]
    } else {
        decimal_nat(n / 10).push(digit_char((n % 10) as int))
    }
}

/// The decimal text of an integer: a minus sign for negative values, then the
/// digits of the magnitude.
pub open spec fn decimal(n: int) -> Seq<char> {
    if n < 0 {
        seq!['-'] + decimal_nat((-n) as nat)
    } else {
        decimal_nat(n as nat)
    }
}

/// The text that stands for `c`.
pub open spec fn claims_text(c: Claims) -> Seq<char> {
    ID_LABEL@ + decimal(c.account_id as int) + EXPIRY_LABEL@ + decimal(c.expiry as int) + CLOSING@
}

/// The claims that `text` stands for, if it stands for any.
pub open spec fn claims_of(text: Seq<char>) -> Option<Claims> {
    if exists|c: Claims| claims_text(c) == text {
        Some(choose|c: Claims| claims_text(c) == text)
    } else {
        None
    }
}

/// The number that a run of digits denotes.
spec fn digits_value(run: Seq<char>) -> nat
    decreases run.len(),
{
    if run.len() == 0 {
        0
    } else {
        (10 * digits_value(run.drop_last()) + digit_value(run.last())) as nat
    }
}

/// The first position at or after `i` that holds no digit.
spec fn digits_end(s: Seq<char>, i: int) -> int
    decreases s.len() - i,
{
    if 0 <= i < s.len() && is_digit(s[i]) {
        digits_end(s, i + 1)
    } else {
        i
    }
}

/// The integer written at position `i` and the position after it, if a
/// canonical decimal starts there.
spec fn number_at(s: Seq<char>, i: int) -> Option<(int, int)> {
    let negative = 0 <= i < s.len() && s[i] == '-';
    let first = if negative { i + 1 } else { i };
    let end = digits_end(s, first);
    if end == first {
        None
    } else if s[first] == '0' && (negative || end > first + 1) {
        None
    } else {
        let magnitude = digits_value(s.subrange(first, end)) as int;
        Some((if negative { -magnitude } else { magnitude }, end))
    }
}

/// A left-to-right reading of the text form.
spec fn parsed(s: Seq<char>) -> Option<Claims> {
    let a = ID_LABEL@.len() as int;
    if !(a <= s.len() && s.subrange(0, a) == ID_LABEL@) {
        None
    } else {
        match number_at(s, a) {
            None => None,
            Some((id, j)) => {
                let b = j + EXPIRY_LABEL@.len();
                if !(i32::MIN <= id <= i32::MAX) {
                    None
                } else if !(b <= s.len() && s.subrange(j, b) == EXPIRY_LABEL@) {
                    None
                } else {
                    match number_at(s, b) {
                        None => None,
                        Some((expiry, k)) => {
                            if !(i64::MIN <= expiry <= i64::MAX) {
                                None
                            } else if !(k + CLOSING@.len() == s.len() && s.subrange(
                                k,
                                s.len() as int,
                            ) == CLOSING@) {
                                None
                            } else {
                                Some(Claims { account_id: id as i32, expiry: expiry as i64 })
                            }
                        },
                    }
                }
            },
        }
    }
}

proof fn lemma_labels()
    ensures
        ID_LABEL@.len() == 14,
        EXPIRY_LABEL@.len() == 7,
        CLOSING@.len() == 1,
        !is_digit(EXPIRY_LABEL@[0]),
        !is_digit(CLOSING@[0]),
        EXPIRY_LABEL@[0] != '-',
        CLOSING@[0] != '-',
{
    reveal_strlit("{\"account_id\":");
    reveal_strlit(",\"exp\":");
    reveal_strlit("}");
}

proof fn lemma_digits_end_bounds(s: Seq<char>, i: int)
    requires
        0 <= i <= s.len(),
    ensures
        i <= digits_end(s, i) <= s.len(),
        forall|k: int| i <= k < digits_end(s, i) ==> is_digit(#[trigger] s[k]),
        digits_end(s, i) < s.len() ==> !is_digit(s[digits_end(s, i)]),
    decreases s.len() - i,
{
    if i < s.len() && is_digit(s[i]) {
        lemma_digits_end_bounds(s, i + 1);
    }
}

proof fn lemma_digits_end_is(s: Seq<char>, i: int, j: int)
    requires
        0 <= i <= j <= s.len(),
        forall|k: int| i <= k < j ==> is_digit(#[trigger] s[k]),
        j < s.len() ==> !is_digit(s[j]),
    ensures
        digits_end(s, i) == j,
    decreases j - i,
{
    if i < j {
        lemma_digits_end_is(s, i + 1, j);
    }
}

proof fn lemma_digits_value_prefix(run: Seq<char>, k: int)
    requires
        0 <= k <= run.len(),
        forall|i: int| 0 <= i < run.len() ==> is_digit(#[trigger] run[i]),
    ensures
        digits_value(run.take(k)) <= digits_value(run),
    decreases run.len() - k,
{
    if k < run.len() {
        lemma_digits_value_prefix(run, k + 1);
        assert(run.take(k + 1).drop_last() == run.take(k));
    } else {
        assert(run.take(k) == run);
    }
}

proof fn lemma_decimal_nat(n: nat)
    ensures
        decimal_nat(n).len() >= 1,
        forall|i: int| 0 <= i < decimal_nat(n).len() ==> is_digit(#[trigger] decimal_nat(n)[i]),
        decimal_nat(n)[0] == '0' ==> n == 0,
        n < 10 ==> decimal_nat(n).len() == 1,
        n >= 10 ==> decimal_nat(n).len() > 1,
        digits_value(decimal_nat(n)) == n,
    decreases n,
{
    if n < 10 {
        assert(decimal_nat(n).drop_last() == Seq::<char>::empty());
        assert(digits_value(decimal_nat(n).drop_last()) == 0);
    } else {
        lemma_decimal_nat(n / 10);
        assert(decimal_nat(n).drop_last() == decimal_nat(n / 10));
    }
}

proof fn lemma_digits_value_positive(run: Seq<char>)
    requires
        run.len() >= 1,
        forall|i: int| 0 <= i < run.len() ==> is_digit(#[trigger] run[i]),
        run[0] != '0',
    ensures
        digits_value(run) >= 1,
{
    lemma_digits_value_prefix(run, 1);
    assert(run.take(1).drop_last() == Seq::<char>::empty());
    assert(digits_value(run.take(1).drop_last()) == 0);
    assert(run.take(1).last() == run[0]);
}

proof fn lemma_decimal_of_digits(run: Seq<char>)
    requires
        run.len() >= 1,
        forall|i: int| 0 <= i < run.len() ==> is_digit(#[trigger] run[i]),
        run[0] == '0' ==> run.len() == 1,
    ensures
        decimal_nat(digits_value(run)) == run,
    decreases run.len(),
{
    let front = run.drop_last();
    if run.len() == 1 {
        assert(digits_value(front) == 0);
        assert(decimal_nat(digits_value(run)) == run);
    } else {
        assert(front[0] == run[0]);
        lemma_digits_value_positive(front);
        lemma_decimal_of_digits(front);
        assert(front.push(run.last()) == run);
    }
}

/// Where `number_at` finds a number, the text between the two positions is
/// the decimal text of that number.
proof fn lemma_number_at_sound(s: Seq<char>, i: int)
    requires
        0 <= i <= s.len(),
    ensures
        number_at(s, i) matches Some((value, end)) ==> i < end <= s.len() && s.subrange(i, end)
            == decimal(value),
{
    let negative = i < s.len() && s[i] == '-';
    let first = if negative { i + 1 } else { i };
    lemma_digits_end_bounds(s, first);
    let end = digits_end(s, first);
    if let Some((value, e)) = number_at(s, i) {
        let run = s.subrange(first, end);
        lemma_decimal_of_digits(run);
        if negative {
            lemma_digits_value_positive(run);
            assert(s.subrange(i, end) == seq!['-'] + run);
        }
    }
}

/// Where the decimal text of `value` stands at position `i` and no digit
/// follows it, `number_at` finds `value` there.
proof fn lemma_number_at_complete(s: Seq<char>, i: int, value: int)
    requires
        0 <= i,
        i + decimal(value).len() <= s.len(),
        s.subrange(i, i + decimal(value).len()) == decimal(value),
        i + decimal(value).len() < s.len() ==> !is_digit(s[i + decimal(value).len()]),
    ensures
        number_at(s, i) == Some((value, i + decimal(value).len())),
{
    let text = decimal(value);
    let end = i + text.len();
    let magnitude = (if value < 0 { -value } else { value }) as nat;
    lemma_decimal_nat(magnitude);
    let first = if value < 0 { i + 1 } else { i };
    let run = decimal_nat(magnitude);
    assert(s[i] == text[0]);
    assert forall|k: int| first <= k < end implies is_digit(#[trigger] s[k]) by {
        assert(s[k] == text[k - i]);
        assert(text[k - i] == run[k - first]);
    }
    lemma_digits_end_is(s, first, end);
    assert(s.subrange(first, end) == text.subrange(first - i, text.len() as int));
    assert(s.subrange(first, end) == run);
    assert(s[first] == run[0]);
}

/// Reading accepts only the text form of the claims it returns.
proof fn lemma_parsed_sound(s: Seq<char>)
    ensures
        parsed(s) matches Some(c) ==> s == claims_text(c),
{
    lemma_labels();
    if let Some(c) = parsed(s) {
        let a = ID_LABEL@.len() as int;
        lemma_number_at_sound(s, a);
        let (id, j) = number_at(s, a)->0;
        let b = j + EXPIRY_LABEL@.len();
        lemma_number_at_sound(s, b);
        let (expiry, k) = number_at(s, b)->0;
        assert(s == s.subrange(0, a) + s.subrange(a, j) + s.subrange(j, b) + s.subrange(b, k)
            + s.subrange(k, s.len() as int));
    }
}

/// Reading the text form of `c` gives `c` back.
proof fn lemma_parsed_complete(c: Claims)
    ensures
        parsed(claims_text(c)) == Some(c),
{
    lemma_labels();
    let s = claims_text(c);
    let id_text = decimal(c.account_id as int);
    let expiry_text = decimal(c.expiry as int);
    let a = ID_LABEL@.len() as int;
    let j = a + id_text.len();
    let b = j + EXPIRY_LABEL@.len();
    let k = b + expiry_text.len();
    assert(s.subrange(0, a) == ID_LABEL@);
    assert(s.subrange(a, j) == id_text);
    assert(s.subrange(j, b) == EXPIRY_LABEL@);
    assert(s.subrange(b, k) == expiry_text);
    assert(s.subrange(k, s.len() as int) == CLOSING@);
    assert(s[j] == EXPIRY_LABEL@[0]);
    assert(s[k] == CLOSING@[0]);
    lemma_number_at_complete(s, a, c.account_id as int);
    lemma_number_at_complete(s, b, c.expiry as int);
}

/// No two claims share a text form.
pub proof fn lemma_claims_text_injective(c1: Claims, c2: Claims)
    requires
        claims_text(c1) == claims_text(c2),
    ensures
        c1 == c2,
{
    lemma_parsed_complete(c1);
    lemma_parsed_complete(c2);
}

/// Writing claims and reading the text back gives the same claims.
pub proof fn lemma_claims_round_trip(c: Claims)
    ensures
        claims_of(claims_text(c)) == Some(c),
{
    let found = choose|d: Claims| claims_text(d) == claims_text(c);
    lemma_claims_text_injective(found, c);
}

proof fn lemma_parsed_is_claims_of(s: Seq<char>)
    ensures
        parsed(s) == claims_of(s),
{
    lemma_parsed_sound(s);
    if exists|c: Claims| claims_text(c) == s {
        let c = choose|c: Claims| claims_text(c) == s;
        lemma_parsed_complete(c);
    }
}


/// The characters of `text`, in order.
fn chars_of(text: &str) -> (v: Vec<char>)
    ensures
        v@ == text@,
{
    let mut v: Vec<char> = Vec::new();
    for c in it: text.chars()
        invariant
            v@ == it.seq().take(it.index() as int),
            it.seq() == text@,
    {
        v.push(c);
    }
    v
}

/// Whether `label` stands in `text` at position `at`.
fn has_label_at(text: &Vec<char>, at: usize, label: &str) -> (found: bool)
    requires
        at <= text.len(),
    ensures
        found == (at + label@.len() <= text.len() && text@.subrange(
            at as int,
            at + label@.len(),
        ) == label@),
{
    let width = label.unicode_len();
    if width > text.len() - at {
        return false;
    }
    let mut i: usize = 0;
    while i < width
        invariant
            i <= width,
            width == label@.len(),
            at + width <= text.len(),
            text@.subrange(at as int, at + i) == label@.take(i as int),
        decreases width - i,
    {
        if text[at + i] != label.get_char(i) {
            assert(text@.subrange(at as int, at + width)[i as int] != label@[i as int]);
            return false;
        }
        assert(text@.subrange(at as int, at + i + 1) == text@.subrange(at as int, at + i).push(
            text@[at + i],
        ));
        assert(label@.take(i + 1) == label@.take(i as int).push(label@[i as int]));
        i += 1;
    }
    assert(label@.take(width as int) == label@);
    true
}

/// What `number_at` finds, where it fits an `i64`.
spec fn number_in_range(s: Seq<char>, i: int) -> Option<(int, int)> {
    match number_at(s, i) {
        Some((value, end)) if i64::MIN <= value <= i64::MAX => Some((value, end)),
        _ => None,
    }
}

/// Reads the canonical decimal that starts at `start`.
fn scan_number(text: &Vec<char>, start: usize) -> (r: Option<(i64, usize)>)
    requires
        start <= text.len(),
    ensures
        match r {
            Some((value, end)) => number_in_range(text@, start as int) == Some(
                (value as int, end as int),
            ) && start < end <= text.len(),
            None => number_in_range(text@, start as int) is None,
        },
{
    let n = text.len();
    let negative = start < n && text[start] == '-';
    let first: usize = if negative { start + 1 } else { start };
    proof {
        lemma_digits_end_bounds(text@, first as int);
    }
    if first >= n || !(text[first] >= '0' && text[first] <= '9') {
        return None;
    }
    if text[first] == '0' {
        if negative || (first + 1 < n && text[first + 1] >= '0' && text[first + 1] <= '9') {
            proof {
                lemma_digits_end_bounds(text@, first + 1);
            }
            return None;
        }
        proof {
            lemma_digits_end_is(text@, first as int, first + 1);
            let run = text@.subrange(first as int, first + 1);
            assert(run.drop_last() == Seq::<char>::empty());
            assert(digits_value(run.drop_last()) == 0);
        }
        return Some((0, first + 1));
    }
    let limit: u64 = if negative { 0x8000_0000_0000_0000 } else { 0x7FFF_FFFF_FFFF_FFFF };
    let ghost end = digits_end(text@, first as int);
    let ghost run = text@.subrange(first as int, end);
    let mut magnitude: u64 = 0;
    let mut i: usize = first;
    assert(text@.subrange(first as int, first as int) == Seq::<char>::empty());
    while i < n && text[i] >= '0' && text[i] <= '9'
        invariant
            first <= i <= end <= n,
            n == text.len(),
            negative == (start < n && text@[start as int] == '-'),
            first == if negative { start + 1 } else { start as int },
            first < end,
            text@[first as int] != '0',
            end == digits_end(text@, first as int),
            run == text@.subrange(first as int, end),
            forall|k: int| first <= k < end ==> is_digit(#[trigger] text@[k]),
            end < n ==> !is_digit(text@[end]),
            magnitude == digits_value(text@.subrange(first as int, i as int)),
            magnitude <= limit,
            limit == if negative { 0x8000_0000_0000_0000u64 } else { 0x7FFF_FFFF_FFFF_FFFFu64 },
        decreases n - i,
    {
        let digit: u64 = (text[i] as u64) - 48;
        proof {
            assert(i < end);
            assert(text@.subrange(first as int, i + 1).drop_last() == text@.subrange(
                first as int,
                i as int,
            ));
            assert(digits_value(text@.subrange(first as int, i + 1)) == 10 * magnitude + digit);
        }
        if magnitude > (limit - digit) / 10 {
            proof {
                assert forall|k: int| 0 <= k < run.len() implies is_digit(#[trigger] run[k]) by {
                    assert(run[k] == text@[first + k]);
                }
                lemma_digits_value_prefix(run, i + 1 - first);
                assert(run.take(i + 1 - first) == text@.subrange(first as int, i + 1));
            }
            return None;
        }
        magnitude = magnitude * 10 + digit;
        i += 1;
    }
    assert(i == end);
    let value: i64 = if !negative {
        magnitude as i64
    } else if magnitude == 0x8000_0000_0000_0000 {
        i64::MIN
    } else {
        -(magnitude as i64)
    };
    Some((value, i))
}

/// Appends the decimal digits of `n`.
fn push_decimal_nat(out: &mut String, n: u64)
    ensures
        final(out)@ == old(out)@ + decimal_nat(n as nat),
    decreases n,
{
    if n >= 10 {
        push_decimal_nat(out, n / 10);
    }
    let digit: &str = match n % 10 {
        0 => "0",
        1 => "1",
        2 => "2",
        3 => "3",
        4 => "4",
        5 => "5",
        6 => "6",
        7 => "7",
        8 => "8",
        _ => "9",
    };
    proof {
        reveal_strlit("0");
        reveal_strlit("1");
        reveal_strlit("2");
        reveal_strlit("3");
        reveal_strlit("4");
        reveal_strlit("5");
        reveal_strlit("6");
        reveal_strlit("7");
        reveal_strlit("8");
        reveal_strlit("9");
        assert(digit@ == seq![digit_char((n % 10) as int)]);
    }
    out.append(digit);
    assert(out@ == old(out)@ + decimal_nat(n as nat));
}

/// Appends the decimal text of `n`.
fn push_decimal(out: &mut String, n: i64)
    ensures
        final(out)@ == old(out)@ + decimal(n as int),
{
    if n < 0 {
        let magnitude: u64 = if n == i64::MIN {
            0x8000_0000_0000_0000
        } else {
            (-n) as u64
        };
        out.append("-");
        proof {
            reveal_strlit("-");
            assert("-"@ == seq!['-']);
        }
        push_decimal_nat(out, magnitude);
        assert(out@ == old(out)@ + decimal(n as int));
    } else {
        push_decimal_nat(out, n as u64);
    }
}

/// Writes `claims` in their text form.
pub fn encode_claims(claims: Claims) -> (text: String)
    ensures
        text@ == claims_text(claims),
{
    let mut out = String::from_str(ID_LABEL);
    push_decimal(&mut out, claims.account_id as i64);
    out.append(EXPIRY_LABEL);
    push_decimal(&mut out, claims.expiry);
    out.append(CLOSING);
    out
}

/// Reads claims from their text form. Returns the claims that `text` stands
/// for, and `None` where it is the text form of no claims.
pub fn decode_claims(text: &str) -> (claims: Option<Claims>)
    ensures
        claims == claims_of(text@),
{
    proof {
        lemma_parsed_is_claims_of(text@);
        lemma_labels();
    }
    let chars = chars_of(text);
    if !has_label_at(&chars, 0, ID_LABEL) {
        return None;
    }
    let a = ID_LABEL.unicode_len();
    let (id, j) = match scan_number(&chars, a) {
        Some(found) => found,
        None => {
            return None;
        },
    };
    if id < -0x8000_0000 || id > 0x7FFF_FFFF {
        return None;
    }
    if !has_label_at(&chars, j, EXPIRY_LABEL) {
        return None;
    }
    let b = j + EXPIRY_LABEL.unicode_len();
    let (expiry, k) = match scan_number(&chars, b) {
        Some(found) => found,
        None => {
            return None;
        },
    };
    if !has_label_at(&chars, k, CLOSING) || chars.len() - k != 1 {
        return None;
    }
    Some(Claims { account_id: id as i32, expiry })
}

} // verus!
