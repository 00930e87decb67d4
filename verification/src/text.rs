//! Small pieces of text handling shared by the other modules.
use vstd::prelude::*;
use vstd::string::*;
use vstd::utf8::*;

verus! {

/// `String::push`: appends one character to the end of the string.
pub assume_specification[ String::push ](text: &mut String, c: char)
    ensures
        final(text)@ == old(text)@.push(c),
;

/// The decimal digit for a number below ten.
pub open spec fn digit(n: nat) -> char {
    (n + 48) as char
}

/// A number in decimal, without leading zeros.
pub open spec fn decimal(n: nat) -> Seq<char>
    decreases n,
{
    if n < 10 {
        seq![digit(n)]
    } else {
        decimal(n / 10).push(digit(n % 10))
    }
}

/// A number in decimal with exactly four digits, the lowest ones.
pub open spec fn four_digits(n: nat) -> Seq<char> {
    seq![digit(n / 1000 % 10), digit(n / 100 % 10), digit(n / 10 % 10), digit(n % 10)]
}

/// The digit of a number below ten.
pub fn digit_char(n: u64) -> (c: char)
    requires
        n < 10,
    ensures
        c == digit(n as nat),
{
    (48u8 + n as u8) as char
}

/// A number as decimal text.
pub fn decimal_text(n: u64) -> (text: String)
    ensures
        text@ == decimal(n as nat),
    decreases n,
{
    if n < 10 {
        let mut text = String::new();
        text.push(digit_char(n));
        assert(text@ =~= decimal(n as nat));
        text
    } else {
        let mut text = decimal_text(n / 10);
        text.push(digit_char(n % 10));
        text
    }
}

/// The lowest four decimal digits of a number.
pub fn four_digit_text(n: u64) -> (text: String)
    ensures
        text@ == four_digits(n as nat),
{
    let mut text = String::new();
    text.push(digit_char(n / 1000 % 10));
    text.push(digit_char(n / 100 % 10));
    text.push(digit_char(n / 10 % 10));
    text.push(digit_char(n % 10));
    assert(text@ =~= four_digits(n as nat));
    text
}

/// One text after another.
pub fn after_each_other(head: &str, tail: &str) -> (text: String)
    ensures
        text@ == head@ + tail@,
{
    head.to_owned().concat(tail)
}

/// Whether two texts hold the same characters.
pub fn same_text(a: &str, b: &str) -> (same: bool)
    ensures
        same == (a@ == b@),
{
    let left = a.as_bytes();
    let right = b.as_bytes();
    proof {
        encode_utf8_decode_utf8(a@);
        encode_utf8_decode_utf8(b@);
    }
    same_bytes(left, right)
}

/// Whether two byte strings are equal.
pub fn same_bytes(a: &[u8], b: &[u8]) -> (same: bool)
    ensures
        same == (a@ == b@),
{
    if a.len() != b.len() {
        return false;
    }
    let mut i: usize = 0;
    while i < a.len()
        invariant
            i <= a@.len(),
            a@.len() == b@.len(),
            forall|j: int| 0 <= j < i ==> a@[j] == b@[j],
        decreases a.len() - i,
    {
        if a[i] != b[i] {
            return false;
        }
        i += 1;
    }
    assert(a@ =~= b@);
    true
}

/// The characters that Unicode counts as white space.
pub open spec fn white_space(c: char) -> bool {
    ||| 0x09 <= c as u32 <= 0x0d
    ||| c as u32 == 0x20
    ||| c as u32 == 0x85
    ||| c as u32 == 0xa0
    ||| c as u32 == 0x1680
    ||| 0x2000 <= c as u32 <= 0x200a
    ||| c as u32 == 0x2028
    ||| c as u32 == 0x2029
    ||| c as u32 == 0x202f
    ||| c as u32 == 0x205f
    ||| c as u32 == 0x3000
}

/// Whether a text holds nothing but white space.
pub open spec fn blank(text: Seq<char>) -> bool {
    forall|i: int| 0 <= i < text.len() ==> white_space(#[trigger] text[i])
}

/// Whether a text holds any white space.
pub open spec fn has_white_space(text: Seq<char>) -> bool {
    exists|i: int| 0 <= i < text.len() && white_space(#[trigger] text[i])
}

/// The control characters: the two blocks that Unicode puts into category `Cc`.
pub open spec fn control(c: char) -> bool {
    c as u32 <= 0x1f || 0x7f <= c as u32 <= 0x9f
}

/// The characters of an identifier: ASCII letters, digits, underscores and hyphens.
pub open spec fn identifier_char(c: char) -> bool {
    ||| 'a' <= c <= 'z'
    ||| 'A' <= c <= 'Z'
    ||| '0' <= c <= '9'
    ||| c == '_'
    ||| c == '-'
}

/// A nonempty text of identifier characters.
pub open spec fn identifier(text: Seq<char>) -> bool {
    text.len() > 0 && forall|i: int| 0 <= i < text.len() ==> identifier_char(#[trigger] text[i])
}

/// Identifiers joined by single slashes.
pub open spec fn identifier_path(text: Seq<char>) -> bool {
    &&& text.len() > 0
    &&& forall|i: int|
        0 <= i < text.len() ==> identifier_char(#[trigger] text[i]) || text[i] == '/'
    &&& text[0] != '/'
    &&& text.last() != '/'
    &&& forall|i: int, j: int|
        0 <= i < text.len() && j == i + 1 && j < text.len() && #[trigger] text[i] == '/'
            ==> #[trigger] text[j] != '/'
}

/// A text with its trailing line ends taken off.
pub open spec fn without_line_end(text: Seq<char>) -> Seq<char>
    decreases text.len(),
{
    if text.len() > 0 && (text.last() == '\r' || text.last() == '\n') {
        without_line_end(text.drop_last())
    } else {
        text
    }
}

/// Whether a character is white space.
pub fn is_white_space(c: char) -> (yes: bool)
    ensures
        yes == white_space(c),
{
    let n: u32 = c as u32;
    (0x09 <= n && n <= 0x0d) || n == 0x20 || n == 0x85 || n == 0xa0 || n == 0x1680 || (0x2000 <= n
        && n <= 0x200a) || n == 0x2028 || n == 0x2029 || n == 0x202f || n == 0x205f || n == 0x3000
}

/// Whether a character is a control character.
pub fn is_control(c: char) -> (yes: bool)
    ensures
        yes == control(c),
{
    let n: u32 = c as u32;
    n <= 0x1f || (0x7f <= n && n <= 0x9f)
}

/// Whether a character may stand in an identifier.
pub fn is_identifier_char(c: char) -> (yes: bool)
    ensures
        yes == identifier_char(c),
{
    ('a' <= c && c <= 'z') || ('A' <= c && c <= 'Z') || ('0' <= c && c <= '9') || c == '_' || c
        == '-'
}

/// Whether a text is empty once white space is trimmed from it.
pub fn is_blank(text: &str) -> (yes: bool)
    ensures
        yes == blank(text@),
{
    let n: usize = text.unicode_len();
    let mut i: usize = 0;
    while i < n
        invariant
            i <= n == text@.len(),
            forall|j: int| 0 <= j < i ==> white_space(#[trigger] text@[j]),
        decreases n - i,
    {
        if !is_white_space(text.get_char(i)) {
            return false;
        }
        i += 1;
    }
    true
}

/// Whether any character of a text is white space.
pub fn contains_white_space(text: &str) -> (yes: bool)
    ensures
        yes == has_white_space(text@),
{
    let n: usize = text.unicode_len();
    let mut i: usize = 0;
    while i < n
        invariant
            i <= n == text@.len(),
            forall|j: int| 0 <= j < i ==> !white_space(#[trigger] text@[j]),
        decreases n - i,
    {
        if is_white_space(text.get_char(i)) {
            return true;
        }
        i += 1;
    }
    false
}

/// Whether a text is an identifier.
pub fn is_identifier(text: &str) -> (yes: bool)
    ensures
        yes == identifier(text@),
{
    let n: usize = text.unicode_len();
    let mut i: usize = 0;
    while i < n
        invariant
            i <= n == text@.len(),
            forall|j: int| 0 <= j < i ==> identifier_char(#[trigger] text@[j]),
        decreases n - i,
    {
        if !is_identifier_char(text.get_char(i)) {
            return false;
        }
        i += 1;
    }
    n > 0
}

/// Whether a text is a path of identifiers.
pub fn is_identifier_path(text: &str) -> (yes: bool)
    ensures
        yes == identifier_path(text@),
{
    let n: usize = text.unicode_len();
    if n == 0 {
        return false;
    }
    let mut after_slash: bool = true;
    let mut i: usize = 0;
    while i < n
        invariant
            0 < n,
            i <= n == text@.len(),
            forall|j: int|
                0 <= j < i ==> identifier_char(#[trigger] text@[j]) || text@[j] == '/',
            i > 0 ==> text@[0] != '/',
            after_slash == (i == 0 || text@[i - 1] == '/'),
            forall|j: int, k: int|
                0 <= j && k == j + 1 && k < i && #[trigger] text@[j] == '/'
                    ==> #[trigger] text@[k] != '/',
        decreases n - i,
    {
        let c = text.get_char(i);
        if c == '/' {
            if after_slash {
                assert(i > 0 ==> text@[i - 1] == '/' && text@[i as int] == '/');
                return false;
            }
            after_slash = true;
        } else if is_identifier_char(c) {
            after_slash = false;
        } else {
            return false;
        }
        i += 1;
    }
    !after_slash
}

/// A text without its trailing carriage returns and newlines.
pub fn trim_line_end(text: &str) -> (trimmed: &str)
    ensures
        trimmed@ == without_line_end(text@),
{
    let mut n: usize = text.unicode_len();
    assert(text@.take(n as int) =~= text@);
    while n > 0
        invariant
            n <= text@.len(),
            without_line_end(text@) == without_line_end(text@.take(n as int)),
        ensures
            n <= text@.len(),
            without_line_end(text@) == text@.take(n as int),
        decreases n,
    {
        let c = text.get_char(n - 1);
        if c != '\r' && c != '\n' {
            break;
        }
        assert(text@.take(n as int).drop_last() =~= text@.take(n - 1));
        n -= 1;
    }
    assert(text@.subrange(0, n as int) =~= text@.take(n as int));
    text.substring_char(0, n)
}

/// The number that decimal digits stand for.
pub open spec fn number_in(digits: Seq<char>) -> int
    decreases digits.len(),
{
    if digits.len() == 0 {
        0
    } else {
        10 * number_in(digits.drop_last()) + (digits.last() as u32 - '0' as u32)
    }
}

/// A number in decimal is made of digits, without a leading zero, and reads as that number.
pub proof fn law_decimal_reads_as_the_number(n: nat)
    ensures
        number_in(decimal(n)) == n,
        decimal(n).len() >= 1,
        forall|i: int| 0 <= i < decimal(n).len() ==> '0' <= #[trigger] decimal(n)[i] <= '9',
        decimal(n).len() > 1 <==> n >= 10,
        n > 0 ==> decimal(n)[0] != '0',
    decreases n,
{
    if n < 10 {
        let digits = decimal(n);
        assert(digits =~= seq![digit(n)]);
        assert(digits.drop_last() =~= Seq::<char>::empty());
        assert(number_in(digits.drop_last()) == 0);
        assert(digits.last() == digit(n));
    } else {
        law_decimal_reads_as_the_number(n / 10);
        let rest = decimal(n / 10);
        assert(decimal(n).drop_last() =~= rest);
        assert forall|i: int| 0 <= i < decimal(n).len() implies '0' <= #[trigger] decimal(n)[i]
            <= '9' by {
            if i < rest.len() {
                assert(decimal(n)[i] == rest[i]);
            }
        }
        assert(decimal(n)[0] == rest[0]);
    }
}

/// The last four digits of a number, with zeros where it has fewer.
pub proof fn law_four_digits(n: nat)
    ensures
        four_digits(n).len() == 4,
        number_in(four_digits(n)) == n % 10_000,
        forall|i: int| 0 <= i < 4 ==> '0' <= #[trigger] four_digits(n)[i] <= '9',
{
    let all = four_digits(n);
    let three = all.drop_last();
    let two = three.drop_last();
    let one = two.drop_last();
    assert(one.drop_last() =~= Seq::<char>::empty());
    reveal_with_fuel(number_in, 2);
    assert(all[0] as u32 == n / 1000 % 10 + 48);
    assert(all[1] as u32 == n / 100 % 10 + 48);
    assert(all[2] as u32 == n / 10 % 10 + 48);
    assert(all[3] as u32 == n % 10 + 48);
    assert(number_in(one) == n / 1000 % 10);
    assert(number_in(two) == 10 * number_in(one) + n / 100 % 10);
    assert(number_in(three) == 10 * number_in(two) + n / 10 % 10);
    assert(number_in(all) == 10 * number_in(three) + n % 10);
    lemma_digits_make_the_number(n as int);
}

proof fn lemma_digits_make_the_number(n: int)
    requires
        0 <= n,
    ensures
        n % 10_000 == 1000 * (n / 1000 % 10) + 100 * (n / 100 % 10) + 10 * (n / 10 % 10) + n % 10,
{
    assert(n == 10 * (n / 10) + n % 10);
    assert(n / 10 == 10 * (n / 100) + n / 10 % 10);
    assert(n / 100 == 10 * (n / 1000) + n / 100 % 10);
    assert(n / 1000 == 10 * (n / 10_000) + n / 1000 % 10);
}

/// The characters of an identifier are the ASCII letters and digits, `_` and `-`; a path of
/// identifiers has slashes besides, never two in a row nor one at an end.
pub proof fn law_identifiers_are_plain(text: Seq<char>, i: int)
    requires
        0 <= i < text.len(),
    ensures
        identifier(text) ==> 'a' <= text[i] <= 'z' || 'A' <= text[i] <= 'Z' || '0' <= text[i] <= '9'
            || text[i] == '_' || text[i] == '-',
        identifier_path(text) ==> 'a' <= text[i] <= 'z' || 'A' <= text[i] <= 'Z' || '0' <= text[i]
            <= '9' || text[i] == '_' || text[i] == '-' || text[i] == '/' && 0 < i < text.len() - 1
            && text[i - 1] != '/' && text[i + 1] != '/',
{
    if identifier(text) {
        assert(identifier_char(text[i]));
    }
    if identifier_path(text) && text[i] == '/' {
        assert(identifier_char(text[i]) || text[i] == '/');
        assert(text[0] != '/' && text[text.len() - 1] != '/');
        let before = i - 1;
        let after = i + 1;
        assert(0 <= before < text.len());
        assert(text[before] == '/' ==> text[i] != '/');
        assert(text[i] == '/' ==> text[after] != '/');
    }
}

/// Any text of letters, digits, `_` and `-` is an identifier, and so is each part of a path.
pub proof fn law_plain_texts_are_identifiers(text: Seq<char>)
    requires
        text.len() > 0,
        forall|i: int|
            0 <= i < text.len() ==> ('a' <= #[trigger] text[i] <= 'z' || 'A' <= text[i] <= 'Z' || '0'
                <= text[i] <= '9' || text[i] == '_' || text[i] == '-'),
    ensures
        identifier(text),
        identifier_path(text),
{
    assert forall|i: int| 0 <= i < text.len() implies identifier_char(#[trigger] text[i]) by {}
    assert(identifier_char(text[0]));
    assert(identifier_char(text[text.len() - 1]));
}

/// Taking the line end off a text leaves a beginning of it that ends in no line end, and what is
/// taken off is nothing but carriage returns and newlines.
pub proof fn law_only_line_ends_are_taken_off(text: Seq<char>)
    ensures
        ({
            let kept = without_line_end(text);
            &&& kept.len() <= text.len()
            &&& kept == text.take(kept.len() as int)
            &&& kept.len() > 0 ==> kept.last() != '\r' && kept.last() != '\n'
            &&& forall|i: int|
                kept.len() <= i < text.len() ==> (#[trigger] text[i] == '\r' || text[i] == '\n')
        }),
    decreases text.len(),
{
    let kept = without_line_end(text);
    if text.len() > 0 && (text.last() == '\r' || text.last() == '\n') {
        let rest = text.drop_last();
        law_only_line_ends_are_taken_off(rest);
        assert(text.take(kept.len() as int) =~= rest.take(kept.len() as int));
        assert forall|i: int| kept.len() <= i < text.len() implies (#[trigger] text[i] == '\r'
            || text[i] == '\n') by {
            if i < rest.len() {
                assert(rest[i] == text[i]);
            }
        }
    } else {
        assert(text.take(text.len() as int) =~= text);
    }
}

/// White space is the tabulator and line ends, the space, and the spaces of Unicode; no letter,
/// digit or sign of ASCII is.
pub proof fn law_visible_ascii_is_no_white_space(c: char)
    ensures
        '!' <= c <= '~' ==> !white_space(c) && !control(c),
        c == ' ' ==> white_space(c) && !control(c),
        c == '\t' || c == '\n' || c == '\r' ==> white_space(c) && control(c),
        c as u32 <= 0x1f || 0x7f <= c as u32 <= 0x9f <==> control(c),
        c as u32 == 0xa0 || c as u32 == 0x3000 || c as u32 == 0x2028 ==> white_space(c),
{
}

/// A text is blank exactly if it has no character but white space, and has white space exactly
/// if one of its characters is.
pub proof fn law_blank_and_spaced_texts(text: Seq<char>)
    ensures
        text.len() == 0 ==> blank(text) && !has_white_space(text),
        text.len() > 0 && blank(text) ==> has_white_space(text),
{
    if text.len() > 0 && blank(text) {
        assert(white_space(text[0]));
    }
}

/// The white space of Unicode, code point by code point.
pub proof fn law_white_space_of_unicode(c: char)
    ensures
        white_space(c) <==> seq![
            9u32,
            10,
            11,
            12,
            13,
            32,
            133,
            160,
            5760,
            8192,
            8193,
            8194,
            8195,
            8196,
            8197,
            8198,
            8199,
            8200,
            8201,
            8202,
            8232,
            8233,
            8239,
            8287,
            12288,
        ].contains(c as u32),
{
    let all = seq![
        9u32,
        10,
        11,
        12,
        13,
        32,
        133,
        160,
        5760,
        8192,
        8193,
        8194,
        8195,
        8196,
        8197,
        8198,
        8199,
        8200,
        8201,
        8202,
        8232,
        8233,
        8239,
        8287,
        12288,
    ];
    let n = c as u32;
    assert(all[0] == 9 && all[1] == 10 && all[2] == 11 && all[3] == 12 && all[4] == 13);
    assert(all[5] == 32 && all[6] == 133 && all[7] == 160 && all[8] == 5760);
    assert(all[9] == 8192 && all[10] == 8193 && all[11] == 8194 && all[12] == 8195);
    assert(all[13] == 8196 && all[14] == 8197 && all[15] == 8198 && all[16] == 8199);
    assert(all[17] == 8200 && all[18] == 8201 && all[19] == 8202 && all[20] == 8232);
    assert(all[21] == 8233 && all[22] == 8239 && all[23] == 8287 && all[24] == 12288);
}

} // verus!
