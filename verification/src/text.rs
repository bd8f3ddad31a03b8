//! Text forms that Knot puts in replies and endpoint names.
use vstd::prelude::*;

verus! {

/// The character of a decimal digit.
pub open spec fn digit_char(d: nat) -> char
    recommends
        d < 10,
{
    (48 + d) as char
}

/// The decimal form of a number: its digits, most significant first, with
/// no sign and no leading zeros.
pub open spec fn decimal(n: nat) -> Seq<char>
    decreases n,
{
    if n < 10 {
        seq![digit_char(n)]
    } else {
        decimal(n / 10).push(digit_char(n % 10))
    }
}

/// What the `Debug` formatting of a string writes for it (the quoted,
/// escaped string); a function of the string alone.
pub uninterp spec fn str_debug_text(s: Seq<char>) -> Seq<char>;

/// What `serde_json::to_string` writes for a list of strings (a JSON array
/// of JSON strings); a function of the strings alone.
pub uninterp spec fn json_string_list(items: Seq<Seq<char>>) -> Seq<char>;

/// A string that JSON writes without escapes: no quote, no backslash and
/// no control character below U+0020.
pub open spec fn json_plain(s: Seq<char>) -> bool {
    forall|i: int| 0 <= i < s.len() ==> #[trigger] s[i] != '"' && s[i] != '\\' && (s[i] as u32)
        >= 32
}

/// A JSON string for a plain string: the string between quotes.
pub open spec fn json_quoted(s: Seq<char>) -> Seq<char> {
    seq!['"'] + s + seq!['"']
}

/// The JSON strings of a list, separated by commas.
pub open spec fn json_items(items: Seq<Seq<char>>) -> Seq<char>
    decreases items.len(),
{
    if items.len() == 0 {
        Seq::empty()
    } else if items.len() == 1 {
        json_quoted(items[0])
    } else {
        json_items(items.drop_last()) + seq![','] + json_quoted(items.last())
    }
}

/// The compact JSON array of a list of plain strings.
pub open spec fn json_array_text(items: Seq<Seq<char>>) -> Seq<char> {
    seq!['['] + json_items(items) + seq![']']
}

/// The one-character string of a decimal digit.
fn digit_str(d: u64) -> (r: &'static str)
    requires
        d < 10,
    ensures
        r@ == seq![digit_char(d as nat)],
{
    proof {
        reveal_strlit("0");
        reveal_strlit("1");
        reveal_strlit("2");
        reveal_strlit("3");
        reveal_strlit("4");
        reveal_strlit("5");
        reveal_strlit("6");
        reveal_strlit("7");
        reveal_strlit("8");
        reveal_strlit("9");
    }
    match d {
        0 => "0",
        1 => "1",
        2 => "2",
        3 => "3",
        4 => "4",
        5 => "5",
        6 => "6",
        7 => "7",
        8 => "8",
        _ => "9",
    }
}

/// Appends the decimal form of `n` to `s`.
fn append_decimal(s: &mut String, n: u64)
    ensures
        final(s)@ == old(s)@ + decimal(n as nat),
    decreases n,
{
    if n >= 10 {
        append_decimal(s, n / 10);
    }
    let ghost before = s@;
    s.append(digit_str(n % 10));
    proof {
        if n >= 10 {
            assert(decimal(n as nat) == decimal((n / 10) as nat).push(digit_char((n % 10) as nat)));
        }
        assert(s@ =~= old(s)@ + decimal(n as nat));
    }
}

/// The decimal form of a number, as its `Display` writes it.
pub fn u64_to_decimal(n: u64) -> (r: String)
    ensures
        r@ == decimal(n as nat),
{
    let mut s = String::from_str("");
    proof {
        reveal_strlit("");
    }
    append_decimal(&mut s, n);
    assert(s@ =~= decimal(n as nat));
    s
}

/// `format!("{:?}", s)` of a string.
#[verifier::external_body]
pub(crate) fn str_debug(s: &str) -> (r: String)
    ensures
        r@ == str_debug_text(s@),
{
    format!("{:?}", s)
}

/// `serde_json::to_string` of a list of strings. Serializing strings cannot
/// fail (the crate fails only for maps with non-string keys or a failing
/// `Serialize` impl), so the error arm is never taken. The compact writer
/// puts the strings between `[` and `]`, separated by `,` with no spaces,
/// each between quotes; only quotes, backslashes and control characters
/// below U+0020 are escaped, so a list of plain strings is written as is.
#[verifier::external_body]
pub(crate) fn strings_to_json(items: &Vec<&str>) -> (r: String)
    ensures
        r@ == json_string_list(items@.map_values(|s: &str| s@)),
        (forall|i: int| 0 <= i < items@.len() ==> json_plain(#[trigger] items@[i]@)) ==> r@
            == json_array_text(items@.map_values(|s: &str| s@)),
{
    match serde_json::to_string(items) {
        Ok(text) => text,
        Err(_) => String::new(),
    }
}

/// `prefix`, then the decimal form of `n`, then `suffix`.
pub fn decimal_between(prefix: &str, n: u64, suffix: &str) -> (r: String)
    ensures
        r@ == prefix@ + decimal(n as nat) + suffix@,
{
    let mut s = String::from_str(prefix);
    let digits = u64_to_decimal(n);
    s.append(digits.as_str());
    s.append(suffix);
    s
}

/// The number that a decimal digit character stands for.
pub open spec fn digit_value(c: char) -> int {
    c as u32 - '0' as u32
}

/// The number that a string of decimal digits reads as, most significant
/// digit first.
pub open spec fn decimal_value(s: Seq<char>) -> int
    decreases s.len(),
{
    if s.len() == 0 {
        0
    } else {
        decimal_value(s.drop_last()) * 10 + digit_value(s.last())
    }
}

/// The character of each digit is the digit's place after '0' in the
/// character set: '0' for 0 up to '9' for 9.
pub proof fn lemma_digit_char(d: nat)
    requires
        d < 10,
    ensures
        digit_char(d) as u32 == '0' as u32 + d,
        '0' <= digit_char(d) <= '9',
        digit_value(digit_char(d)) == d,
{
}

/// The decimal form of a number is a non-empty string of the characters
/// '0' to '9', with no leading zero, and it reads back as the number; so
/// two numbers with the same decimal form are equal.
pub proof fn lemma_decimal_reads_back(n: nat)
    ensures
        decimal(n).len() >= 1,
        forall|i: int| 0 <= i < decimal(n).len() ==> '0' <= #[trigger] decimal(n)[i] <= '9',
        n >= 10 ==> decimal(n)[0] != '0',
        decimal_value(decimal(n)) == n,
    decreases n,
{
    if n < 10 {
        lemma_digit_char(n);
        assert(decimal(n).drop_last() =~= Seq::<char>::empty());
        assert(decimal_value(decimal(n)) == decimal_value(Seq::<char>::empty()) * 10 + digit_value(
            digit_char(n),
        ));
    } else {
        lemma_decimal_reads_back(n / 10);
        lemma_digit_char(n % 10);
        let s = decimal(n);
        assert(s.drop_last() =~= decimal(n / 10));
        assert(s[0] == decimal(n / 10)[0]);
        assert(s.last() == digit_char(n % 10));
        assert(decimal_value(s) == decimal_value(decimal(n / 10)) * 10 + digit_value(
            digit_char(n % 10),
        ));
        let q = decimal_value(decimal(n / 10));
        assert(q == n / 10);
        assert(q * 10 == (n / 10) * 10);
        assert(n == (n / 10) * 10 + n % 10);
    }
}

/// Different numbers have different decimal forms.
pub proof fn lemma_decimal_injective(a: nat, b: nat)
    requires
        decimal(a) == decimal(b),
    ensures
        a == b,
{
    lemma_decimal_reads_back(a);
    lemma_decimal_reads_back(b);
}

} // verus!
