//! Page addresses: `{base}/{page}`, the page number in decimal.

use vstd::prelude::*;
use vstd::string::StringExecFns;

verus! {

/// Default base URL of the skills.sh paginated API.
pub const DEFAULT_API_BASE: &'static str = "https://skills.sh/api/skills/all-time";

/// The character that writes the decimal digit `d`.
pub open spec fn digit_char(d: nat) -> char {
    if d == 0 {
        '0'
    } else if d == 1 {
        '1'
    } else if d == 2 {
        '2'
    } else if d == 3 {
        '3'
    } else if d == 4 {
        '4'
    } else if d == 5 {
        '5'
    } else if d == 6 {
        '6'
    } else if d == 7 {
        '7'
    } else if d == 8 {
        '8'
    } else {
        '9'
    }
}

/// The value of a decimal digit character (`'0'..='9'`).
pub open spec fn char_digit(c: char) -> nat {
    if c == '0' {
        0
    } else if c == '1' {
        1
    } else if c == '2' {
        2
    } else if c == '3' {
        3
    } else if c == '4' {
        4
    } else if c == '5' {
        5
    } else if c == '6' {
        6
    } else if c == '7' {
        7
    } else if c == '8' {
        8
    } else {
        9
    }
}

/// `n` written in decimal, most significant digit first, without leading zeros
/// (zero is `"0"`).
pub open spec fn decimal(n: nat) -> Seq<char>
    decreases n,
{
    if n < 10 {
        seq![digit_char(n)]
    } else {
        decimal(n / 10).push(digit_char(n % 10))
    }
}

/// The number that a string of decimal digits denotes.
pub open spec fn decimal_value(s: Seq<char>) -> nat
    decreases s.len(),
{
    if s.len() == 0 {
        0
    } else {
        decimal_value(s.drop_last()) * 10 + char_digit(s.last())
    }
}

/// The address of page `page` under `base`: `{base}/{page}`.
pub open spec fn page_url_of(base: Seq<char>, page: nat) -> Seq<char> {
    base + seq!['/'] + decimal(page)
}

/// A one-character string holding the digit `d`.
fn digit_str(d: u64) -> (s: &'static str)
    requires
        d < 10,
    ensures
        s@ == seq![digit_char(d as nat)],
{
    if d == 0 {
        proof { reveal_strlit("0"); }
        "0"
    } else if d == 1 {
        proof { reveal_strlit("1"); }
        "1"
    } else if d == 2 {
        proof { reveal_strlit("2"); }
        "2"
    } else if d == 3 {
        proof { reveal_strlit("3"); }
        "3"
    } else if d == 4 {
        proof { reveal_strlit("4"); }
        "4"
    } else if d == 5 {
        proof { reveal_strlit("5"); }
        "5"
    } else if d == 6 {
        proof { reveal_strlit("6"); }
        "6"
    } else if d == 7 {
        proof { reveal_strlit("7"); }
        "7"
    } else if d == 8 {
        proof { reveal_strlit("8"); }
        "8"
    } else {
        proof { reveal_strlit("9"); }
        "9"
    }
}

/// `n` in decimal, as `format!("{n}")` writes it.
pub fn decimal_string(n: u64) -> (s: String)
    ensures
        s@ == decimal(n as nat),
    decreases n,
{
    if n < 10 {
        digit_str(n).to_owned()
    } else {
        let mut s = decimal_string(n / 10);
        s.append(digit_str(n % 10));
        s
    }
}

/// The URL of page `page` of the API rooted at `base_url`: `{base_url}/{page}`.
pub fn page_url(base_url: &str, page: u64) -> (url: String)
    ensures
        url@ == page_url_of(base_url@, page as nat),
        url@.len() == base_url@.len() + 1 + decimal(page as nat).len(),
        url@.subrange(0, base_url@.len() as int) == base_url@,
        url@[base_url@.len() as int] == '/',
        url@.subrange(base_url@.len() + 1int, url@.len() as int) == decimal(page as nat),
{
    let mut url = base_url.to_owned();
    proof { reveal_strlit("/"); }
    url.append("/");
    let digits = decimal_string(page);
    url.append(digits.as_str());
    proof { law_page_url_parts(base_url@, page as nat); }
    url
}

/// Decimal writing is read back: the digits of `n` denote `n`.
pub proof fn lemma_decimal_value(n: nat)
    ensures
        decimal_value(decimal(n)) == n,
        decimal(n).len() >= 1,
    decreases n,
{
    if n < 10 {
        assert(decimal(n).drop_last() =~= Seq::<char>::empty());
        assert(char_digit(digit_char(n)) == n);
        assert(decimal_value(decimal(n)) == decimal_value(Seq::<char>::empty()) * 10 + n);
    } else {
        lemma_decimal_value(n / 10);
        let s = decimal(n);
        assert(s.drop_last() =~= decimal(n / 10));
        assert(s.last() == digit_char(n % 10));
        assert(char_digit(digit_char(n % 10)) == n % 10);
        assert(decimal_value(s) == decimal_value(decimal(n / 10)) * 10 + n % 10);
        assert(n == (n / 10) * 10 + n % 10) by (nonlinear_arith);
    }
}

/// Distinct numbers are written differently.
pub proof fn lemma_decimal_injective(a: nat, b: nat)
    requires
        decimal(a) == decimal(b),
    ensures
        a == b,
{
    lemma_decimal_value(a);
    lemma_decimal_value(b);
}

/// Every page of an API has an address of its own: two pages share a URL only
/// if they are the same page.
pub proof fn law_page_urls_distinct(base: Seq<char>, a: nat, b: nat)
    requires
        page_url_of(base, a) == page_url_of(base, b),
    ensures
        a == b,
{
    let pre = base + seq!['/'];
    let ua = page_url_of(base, a);
    assert(ua.subrange(pre.len() as int, ua.len() as int) =~= decimal(a));
    assert(ua.subrange(pre.len() as int, ua.len() as int) =~= decimal(b));
    lemma_decimal_injective(a, b);
}

/// A page URL is the whole base, a slash, then the page number in decimal.
pub proof fn law_page_url_parts(base: Seq<char>, page: nat)
    ensures
        page_url_of(base, page).len() == base.len() + 1 + decimal(page).len(),
        page_url_of(base, page).subrange(0, base.len() as int) == base,
        page_url_of(base, page)[base.len() as int] == '/',
        page_url_of(base, page).subrange(base.len() + 1int, page_url_of(base, page).len() as int)
            == decimal(page),
{
    let u = page_url_of(base, page);
    assert(u.subrange(0, base.len() as int) =~= base);
    assert(u.subrange(base.len() + 1int, u.len() as int) =~= decimal(page));
}

/// The decimal writing of `n` is made of the digits `'0'` to `'9'`, starts with
/// a digit other than `'0'` unless `n` is zero, and is the single digit `n` for
/// `n` below ten.
pub proof fn law_decimal_digits(n: nat)
    ensures
        decimal(n).len() >= 1,
        forall|i: int| 0 <= i < decimal(n).len() ==> '0' <= #[trigger] decimal(n)[i] && decimal(n)[i] <= '9',
        n > 0 ==> decimal(n)[0] != '0',
        n == 0 ==> decimal(n) == seq!['0'],
        n < 10 ==> decimal(n).len() == 1 && char_digit(decimal(n)[0]) == n,
    decreases n,
{
    if n >= 10 {
        law_decimal_digits(n / 10);
        let s = decimal(n);
        assert(s =~= decimal(n / 10).push(digit_char(n % 10)));
        assert(s[0] == decimal(n / 10)[0]);
    }
}

} // verus!
