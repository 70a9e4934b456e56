//! Text primitives shared by the configuration resolver and the token scheme:
//! trimming, case normalisation, comparison, joining and decimal ports.

use vstd::prelude::*;
use vstd::string::*;

verus! {

/// Whether `c` has the Unicode `White_Space` property.
pub uninterp spec fn white_space(c: char) -> bool;

/// The Unicode lower-case form of a text.
pub uninterp spec fn lowercase(s: Seq<char>) -> Seq<char>;

/// `char::is_whitespace`: true exactly for the characters with the Unicode
/// `White_Space` property, which `white_space` stands for.
#[verifier::external_body]
pub(crate) fn is_whitespace(c: char) -> (r: bool)
    ensures
        r == white_space(c),
{
    c.is_whitespace()
}

/// `str::to_lowercase`: the lower-case equivalent of the text as a new
/// `String`, which `lowercase` stands for.
#[verifier::external_body]
pub(crate) fn to_lowercase(s: &str) -> (r: String)
    ensures
        r@ == lowercase(s@),
{
    s.to_lowercase()
}

/// `==` on `str`: true exactly when both texts hold the same characters.
#[verifier::external_body]
pub(crate) fn same_text(a: &str, b: &str) -> (r: bool)
    ensures
        r == (a@ == b@),
{
    a == b
}

/// `s` without its leading white space.
pub open spec fn skip_ws(s: Seq<char>) -> Seq<char>
    decreases s.len(),
{
    if s.len() > 0 && white_space(s[0]) {
        skip_ws(s.drop_first())
    } else {
        s
    }
}

/// `s` without its trailing white space.
pub open spec fn drop_ws(s: Seq<char>) -> Seq<char>
    decreases s.len(),
{
    if s.len() > 0 && white_space(s.last()) {
        drop_ws(s.drop_last())
    } else {
        s
    }
}

/// `s` without leading and trailing white space.
pub open spec fn trimmed(s: Seq<char>) -> Seq<char> {
    drop_ws(skip_ws(s))
}

/// The form under which a tenant or profile name is embedded in a token:
/// trimmed, then lower-cased.
pub open spec fn normalized(s: Seq<char>) -> Seq<char> {
    lowercase(trimmed(s))
}

/// Skipping white space leaves the text from the first character on that is
/// not white space.
pub proof fn lemma_skip_ws(s: Seq<char>, k: int)
    requires
        0 <= k <= s.len(),
        forall|i: int| 0 <= i < k ==> white_space(#[trigger] s[i]),
        k == s.len() || !white_space(s[k]),
    ensures
        skip_ws(s) == s.subrange(k, s.len() as int),
    decreases k,
{
    if k == 0 {
        assert(s.subrange(0, s.len() as int) =~= s);
    } else {
        let t = s.drop_first();
        assert(white_space(s[0]));
        assert forall|i: int| 0 <= i < k - 1 implies white_space(#[trigger] t[i]) by {
            assert(t[i] == s[i + 1]);
        }
        lemma_skip_ws(t, k - 1);
        assert(t.subrange(k - 1, t.len() as int) =~= s.subrange(k, s.len() as int));
    }
}

/// Dropping white space leaves the text up to the last character that is not
/// white space.
pub proof fn lemma_drop_ws(s: Seq<char>, k: int)
    requires
        0 <= k <= s.len(),
        forall|i: int| k <= i < s.len() ==> white_space(#[trigger] s[i]),
        k == 0 || !white_space(s[k - 1]),
    ensures
        drop_ws(s) == s.subrange(0, k),
    decreases s.len() - k,
{
    if k == s.len() {
        assert(s.subrange(0, k) =~= s);
    } else {
        let t = s.drop_last();
        assert(white_space(s[s.len() - 1]));
        assert forall|i: int| k <= i < t.len() implies white_space(#[trigger] t[i]) by {
            assert(t[i] == s[i]);
        }
        lemma_drop_ws(t, k);
        assert(t.subrange(0, k) =~= s.subrange(0, k));
    }
}

/// The text without leading and trailing white space.
pub fn trim(s: &str) -> (r: &str)
    ensures
        r@ == trimmed(s@),
{
    let len = s.unicode_len();
    let mut i: usize = 0;
    let mut start: usize = 0;
    let mut end: usize = 0;
    for c in it: s.chars()
        invariant
            it.seq() == s@,
            len == s@.len(),
            i == it.index(),
            start <= end <= i,
            end == 0 ==> start == 0,
            end == 0 ==> forall|j: int| 0 <= j < i ==> white_space(#[trigger] s@[j]),
            end > 0 ==> start < end,
            end > 0 ==> forall|j: int| 0 <= j < start ==> white_space(#[trigger] s@[j]),
            end > 0 ==> !white_space(s@[start as int]),
            end > 0 ==> !white_space(s@[end - 1]),
            end > 0 ==> forall|j: int| end <= j < i ==> white_space(#[trigger] s@[j]),
    {
        if !is_whitespace(c) {
            if end == 0 {
                start = i;
            }
            end = i + 1;
        }
        i = i + 1;
    }
    proof {
        let full = s@;
        if end == 0 {
            lemma_skip_ws(full, full.len() as int);
            assert(skip_ws(full).len() == 0);
            assert(full.subrange(0, 0) =~= skip_ws(full));
        } else {
            lemma_skip_ws(full, start as int);
            let rest = full.subrange(start as int, full.len() as int);
            assert forall|j: int| end - start <= j < rest.len() implies white_space(
                #[trigger] rest[j],
            ) by {
                assert(rest[j] == full[j + start]);
            }
            assert(rest[end - start - 1] == full[end - 1]);
            lemma_drop_ws(rest, end - start);
            assert(rest.subrange(0, end - start) =~= full.subrange(start as int, end as int));
        }
    }
    s.substring_char(start, end)
}

/// The text trimmed and lower-cased, as tokens embed it.
pub fn normalize(s: &str) -> (r: String)
    ensures
        r@ == normalized(s@),
{
    to_lowercase(trim(s))
}

/// `a` followed by `b`.
pub fn join(a: &str, b: &str) -> (r: String)
    ensures
        r@ == a@ + b@,
{
    let mut r = a.to_owned();
    r.append(b);
    r
}

/// Whether `needle` stands in `haystack` at position `at`.
pub open spec fn occurs_at(haystack: Seq<char>, needle: Seq<char>, at: int) -> bool {
    0 <= at && at + needle.len() <= haystack.len() && haystack.subrange(at, at + needle.len())
        == needle
}

/// Whether `needle` stands somewhere in `haystack`.
pub open spec fn occurs(haystack: Seq<char>, needle: Seq<char>) -> bool {
    exists|at: int| occurs_at(haystack, needle, at)
}

/// Whether the text begins with `prefix`.
pub fn starts_with(text: &str, prefix: &str) -> (begins: bool)
    ensures
        begins == prefix@.is_prefix_of(text@),
{
    let len = text.unicode_len();
    let prefix_len = prefix.unicode_len();
    if prefix_len > len {
        return false;
    }
    same_text(text.substring_char(0, prefix_len), prefix)
}

/// The first position at which `needle` stands in `haystack`, if it stands
/// there at all.
pub fn find_text(haystack: &str, needle: &str) -> (found: Option<usize>)
    ensures
        match found {
            Some(at) => occurs_at(haystack@, needle@, at as int) && forall|earlier: int|
                0 <= earlier < at ==> !occurs_at(haystack@, needle@, earlier),
            None => !occurs(haystack@, needle@),
        },
{
    let len = haystack.unicode_len();
    let needle_len = needle.unicode_len();
    if needle_len > len {
        return None;
    }
    if needle_len == 0 {
        assert(haystack@.subrange(0, 0) =~= needle@);
        return Some(0);
    }
    let last = len - needle_len;
    let mut at: usize = 0;
    while at <= last
        invariant
            at <= last + 1,
            needle_len > 0,
            last == len - needle_len,
            len == haystack@.len(),
            needle_len == needle@.len(),
            forall|earlier: int| 0 <= earlier < at ==> !occurs_at(haystack@, needle@, earlier),
        decreases last + 1 - at,
    {
        if same_text(haystack.substring_char(at, at + needle_len), needle) {
            return Some(at);
        }
        at = at + 1;
    }
    None
}

/// Whether `needle` stands somewhere in `haystack`.
pub fn contains_text(haystack: &str, needle: &str) -> (found: bool)
    ensures
        found == occurs(haystack@, needle@),
{
    find_text(haystack, needle).is_some()
}

/// `a`, `b` and `c` in a row.
pub fn join3(a: &str, b: &str, c: &str) -> (r: String)
    ensures
        r@ == a@ + b@ + c@,
{
    let mut r = a.to_owned();
    r.append(b);
    r.append(c);
    r
}

/// The text of one decimal digit.
pub open spec fn digit_text(digit: nat) -> Seq<char> {
    if digit == 0 {
        "0"@
    } else if digit == 1 {
        "1"@
    } else if digit == 2 {
        "2"@
    } else if digit == 3 {
        "3"@
    } else if digit == 4 {
        "4"@
    } else if digit == 5 {
        "5"@
    } else if digit == 6 {
        "6"@
    } else if digit == 7 {
        "7"@
    } else if digit == 8 {
        "8"@
    } else {
        "9"@
    }
}

/// A number written in decimal digits, without leading zeros.
pub open spec fn decimal_text(number: nat) -> Seq<char>
    decreases number,
{
    if number < 10 {
        digit_text(number)
    } else {
        decimal_text(number / 10) + digit_text(number % 10)
    }
}

/// The text of one decimal digit.
fn render_digit(digit: u16) -> (text: &'static str)
    requires
        digit < 10,
    ensures
        text@ == digit_text(digit as nat),
{
    if digit == 0 {
        "0"
    } else if digit == 1 {
        "1"
    } else if digit == 2 {
        "2"
    } else if digit == 3 {
        "3"
    } else if digit == 4 {
        "4"
    } else if digit == 5 {
        "5"
    } else if digit == 6 {
        "6"
    } else if digit == 7 {
        "7"
    } else if digit == 8 {
        "8"
    } else {
        "9"
    }
}

/// Writes a port number in decimal digits, without leading zeros.
pub fn render_port(port: u16) -> (text: String)
    ensures
        text@ == decimal_text(port as nat),
    decreases port,
{
    if port < 10 {
        render_digit(port).to_owned()
    } else {
        let mut text = render_port(port / 10);
        text.append(render_digit(port % 10));
        text
    }
}

/// Whether `c` is one of the ten decimal digits.
pub open spec fn is_digit(c: char) -> bool {
    '0' <= c && c <= '9'
}

/// The number that a text of decimal digits writes.
pub open spec fn decimal_value(digits: Seq<char>) -> nat
    decreases digits.len(),
{
    if digits.len() == 0 {
        0
    } else {
        (10 * decimal_value(digits.drop_last()) + (digits.last() as int - '0' as int)) as nat
    }
}

/// Whether every character of the text is a decimal digit.
pub open spec fn all_digits(digits: Seq<char>) -> bool {
    forall|i: int| 0 <= i < digits.len() ==> is_digit(#[trigger] digits[i])
}

/// The text behind one leading `+`, or the text itself where it has none.
pub open spec fn unsigned_part(text: Seq<char>) -> Seq<char> {
    if text.len() > 0 && text[0] == '+' {
        text.drop_first()
    } else {
        text
    }
}

/// The port that a text writes: decimal digits, one `+` before them allowed,
/// nothing else, and a value of at most 65535.
pub open spec fn parsed_port(text: Seq<char>) -> Option<u16> {
    let digits = unsigned_part(text);
    if digits.len() > 0 && all_digits(digits) && decimal_value(digits) <= u16::MAX {
        Some(decimal_value(digits) as u16)
    } else {
        None
    }
}

/// The text of a digit is that digit's one character.
pub proof fn lemma_digit_text(digit: nat)
    requires
        digit < 10,
    ensures
        digit_text(digit).len() == 1,
        digit_text(digit)[0] as int == '0' as int + digit,
        is_digit(digit_text(digit)[0]),
{
    reveal_strlit("0");
    reveal_strlit("1");
    reveal_strlit("2");
    reveal_strlit("3");
    reveal_strlit("4");
    reveal_strlit("5");
    reveal_strlit("6");
    reveal_strlit("7");
    reveal_strlit("8");
    reveal_strlit("9");
}

/// A number's decimal text is made of digits and writes that number.
pub proof fn lemma_decimal_text(number: nat)
    ensures
        decimal_text(number).len() > 0,
        all_digits(decimal_text(number)),
        decimal_value(decimal_text(number)) == number,
    decreases number,
{
    if number < 10 {
        lemma_digit_text(number);
        let text = decimal_text(number);
        assert(text.drop_last().len() == 0);
        assert(decimal_value(text.drop_last()) == 0);
        assert(text.last() == text[0]);
        assert(decimal_value(text) == number);
    } else {
        lemma_decimal_text(number / 10);
        lemma_digit_text(number % 10);
        let front = decimal_text(number / 10);
        let text = decimal_text(number);
        assert(text.drop_last() =~= front);
        assert(text.last() == digit_text(number % 10)[0]);
        assert(decimal_value(text) == 10 * decimal_value(front) + (number % 10));
        assert(decimal_value(text) == number);
        assert forall|i: int| 0 <= i < text.len() implies is_digit(#[trigger] text[i]) by {
            if i < front.len() {
                assert(text[i] == front[i]);
            }
        }
    }
}

/// A port that is written and read back is the same port.
pub proof fn lemma_port_round_trip(port: u16)
    ensures
        parsed_port(decimal_text(port as nat)) == Some(port),
{
    lemma_decimal_text(port as nat);
    let text = decimal_text(port as nat);
    assert(is_digit(text[0]));
}

/// Reads a port number; `None` where the text writes none.
pub fn parse_port(text: &str) -> (port: Option<u16>)
    ensures
        port == parsed_port(text@),
{
    let len = text.unicode_len();
    let mut i: usize = 0;
    let mut value: u32 = 0;
    let mut signed: bool = false;
    let mut valid: bool = true;
    let mut fits: bool = true;
    for c in it: text.chars()
        invariant
            it.seq() == text@,
            len == text@.len(),
            i == it.index(),
            signed ==> i > 0 && text@[0] == '+',
            !signed && i > 0 ==> text@[0] != '+',
            valid <==> all_digits(text@.subrange(if signed { 1int } else { 0int }, i as int)),
            valid && fits ==> value == decimal_value(
                text@.subrange(if signed { 1int } else { 0int }, i as int),
            ) && value <= u16::MAX,
            valid && !fits ==> decimal_value(
                text@.subrange(if signed { 1int } else { 0int }, i as int),
            ) > u16::MAX,
    {
        let ghost from = if signed { 1int } else { 0int };
        let ghost before = text@.subrange(from, i as int);
        if i == 0 && c == '+' {
            signed = true;
            assert(text@.subrange(1, 1) =~= Seq::<char>::empty());
        } else {
            let ghost after = text@.subrange(from, i + 1);
            assert(after.drop_last() =~= before);
            assert(after.last() == c);
            if c >= '0' && c <= '9' {
                assert(is_digit(c));
                if valid {
                    assert forall|j: int| 0 <= j < after.len() implies is_digit(
                        #[trigger] after[j],
                    ) by {
                        if j < before.len() {
                            assert(after[j] == before[j]);
                        }
                    }
                    if fits {
                        let digit: u32 = c as u32 - '0' as u32;
                        let next: u32 = value * 10 + digit;
                        if next > 65535 {
                            fits = false;
                        } else {
                            value = next;
                        }
                    }
                } else {
                    assert(!all_digits(after)) by {
                        if all_digits(after) {
                            assert forall|j: int| 0 <= j < before.len() implies is_digit(
                                #[trigger] before[j],
                            ) by {
                                assert(before[j] == after[j]);
                            }
                        }
                    }
                }
            } else {
                assert(!is_digit(after[after.len() - 1]));
                valid = false;
            }
        }
        i = i + 1;
    }
    proof {
        let from = if signed { 1int } else { 0int };
        assert(text@.subrange(from, text@.len() as int) =~= unsigned_part(text@));
    }
    let digits = if signed { len - 1 } else { len };
    if digits > 0 && valid && fits {
        Some(value as u16)
    } else {
        None
    }
}

} // verus!
