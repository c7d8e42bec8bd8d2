//! Text helpers over characters: comparison, decimal numerals, trimming and
//! splitting, each stated over the sequence of characters a string holds.

use vstd::prelude::*;
use vstd::string::*;
use vstd::utf8::{encode_utf8, valid_utf8};

verus! {

/// Whether `c` has the Unicode `White_Space` property: the tab up to the
/// carriage return, the blank, the next line, the no-break space, the Ogham
/// space, the spaces from the en quad up to the hair space, the line and the
/// paragraph separator, the narrow no-break, the mathematical and the
/// ideographic space.
pub open spec fn whitespace(c: char) -> bool {
    let n = c as int;
    ||| 0x9 <= n <= 0xd
    ||| n == 0x20
    ||| n == 0x85
    ||| n == 0xa0
    ||| n == 0x1680
    ||| 0x2000 <= n <= 0x200a
    ||| n == 0x2028
    ||| n == 0x2029
    ||| n == 0x202f
    ||| n == 0x205f
    ||| n == 0x3000
}

/// `char::is_whitespace`: claimed to be true exactly of the characters with the
/// Unicode `White_Space` property.
pub assume_specification[ char::is_whitespace ](c: char) -> (r: bool)
    ensures
        r == whitespace(c),
;

/// `String::push`: claimed to append exactly the one character.
pub assume_specification[ String::push ](s: &mut String, c: char)
    ensures
        final(s)@ == old(s)@.push(c),
;

/// Whether two texts hold the same characters.
pub fn eq(a: &str, b: &str) -> (r: bool)
    ensures
        r == (a@ == b@),
{
    a.to_owned() == b.to_owned()
}

/// The characters of a text.
pub fn chars_of(s: &str) -> (r: Vec<char>)
    ensures
        r@ == s@,
{
    let mut out: Vec<char> = Vec::new();
    for c in it: s.chars()
        invariant
            out@ == it.seq().take(it.index()),
            it.seq() == s@,
    {
        out.push(c);
    }
    out
}

/// The text of a range of characters.
pub fn text_of(chars: &Vec<char>, from: usize, to: usize) -> (r: String)
    requires
        from <= to <= chars@.len(),
    ensures
        r@ == chars@.subrange(from as int, to as int),
{
    let mut out: String = String::new();
    let mut i: usize = from;
    while i < to
        invariant
            from <= i <= to <= chars@.len(),
            out@ == chars@.subrange(from as int, i as int),
        decreases to - i,
    {
        out.push(chars[i]);
        i = i + 1;
        assert(chars@.subrange(from as int, i as int) =~= chars@.subrange(from as int, i - 1).push(
            chars@[i - 1],
        ));
    }
    out
}

/// Whether `s` begins with `prefix`.
pub open spec fn has_prefix(s: Seq<char>, prefix: Seq<char>) -> bool {
    prefix.len() <= s.len() && s.take(prefix.len() as int) == prefix
}

/// Whether a text begins with a prefix.
pub fn starts_with(s: &str, prefix: &str) -> (r: bool)
    ensures
        r == has_prefix(s@, prefix@),
{
    let a: Vec<char> = chars_of(s);
    let b: Vec<char> = chars_of(prefix);
    if b.len() > a.len() {
        return false;
    }
    let mut i: usize = 0;
    while i < b.len()
        invariant
            i <= b@.len() <= a@.len(),
            a@ == s@,
            b@ == prefix@,
            forall|j: int| 0 <= j < i ==> a@[j] == b@[j],
        decreases b@.len() - i,
    {
        if a[i] != b[i] {
            assert(s@.take(prefix@.len() as int)[i as int] != prefix@[i as int]);
            return false;
        }
        i = i + 1;
    }
    assert(s@.take(prefix@.len() as int) =~= prefix@);
    true
}

/// What follows `prefix` in a text that begins with it.
pub fn strip_prefix(s: &str, prefix: &str) -> (r: Option<String>)
    ensures
        r is Some <==> has_prefix(s@, prefix@),
        r is Some ==> r->0@ == s@.skip(prefix@.len() as int),
{
    if starts_with(s, prefix) {
        let a: Vec<char> = chars_of(s);
        let n: usize = chars_of(prefix).len();
        let rest: String = text_of(&a, n, a.len());
        assert(a@.subrange(n as int, a@.len() as int) =~= s@.skip(prefix@.len() as int));
        Some(rest)
    } else {
        None
    }
}

/// Whether some text of a list holds exactly the characters `s`.
pub open spec fn lists(list: Seq<String>, s: Seq<char>) -> bool {
    exists|i: int| 0 <= i < list.len() && (#[trigger] list[i])@ == s
}

/// Whether a list of texts holds `s`.
pub fn contains(list: &Vec<String>, s: &str) -> (r: bool)
    ensures
        r == lists(list@, s@),
{
    let mut i: usize = 0;
    while i < list.len()
        invariant
            i <= list@.len(),
            forall|j: int| 0 <= j < i ==> (#[trigger] list@[j])@ != s@,
        decreases list@.len() - i,
    {
        if eq(list[i].as_str(), s) {
            return true;
        }
        i = i + 1;
    }
    false
}

/// The character of a decimal digit.
pub open spec fn digit(d: nat) -> char {
    (('0' as nat) + d) as char
}

/// The decimal numeral of a number.
pub open spec fn decimal(n: nat) -> Seq<char>
    decreases n,
{
    if n < 10 {
        seq![digit(n)]
    } else {
        decimal(n / 10).push(digit(n % 10))
    }
}

/// The decimal numeral of an integer, with a leading minus where negative.
pub open spec fn signed_decimal(n: int) -> Seq<char> {
    if n < 0 {
        seq!['-'] + decimal((-n) as nat)
    } else {
        decimal(n as nat)
    }
}

/// Write a number in decimal.
pub fn number(n: u64) -> (r: String)
    ensures
        r@ == decimal(n as nat),
    decreases n,
{
    let d: char = (48u8 + (n % 10) as u8) as char;
    assert(d == digit((n % 10) as nat));
    if n < 10 {
        let mut out: String = String::new();
        out.push(d);
        assert(out@ =~= decimal(n as nat));
        out
    } else {
        let mut out: String = number(n / 10);
        out.push(d);
        out
    }
}

/// Write a count in decimal.
pub fn count_text(n: usize) -> (r: String)
    ensures
        r@ == decimal(n as nat),
{
    number(n as u64)
}

/// Write a signed number in decimal.
pub fn signed_number(n: i64) -> (r: String)
    ensures
        r@ == signed_decimal(n as int),
{
    if n < 0 {
        let mut out: String = String::new();
        out.push('-');
        let magnitude: u64 = if n == i64::MIN {
            9223372036854775808
        } else {
            (-n) as u64
        };
        out.append(number(magnitude).as_str());
        assert(out@ =~= signed_decimal(n as int));
        out
    } else {
        number(n as u64)
    }
}

/// Whether a character is an ASCII digit.
pub open spec fn is_digit(c: char) -> bool {
    '0' <= c && c <= '9'
}

/// The value of a sequence of digits.
pub open spec fn digits_value(s: Seq<char>) -> nat
    decreases s.len(),
{
    if s.len() == 0 {
        0
    } else {
        digits_value(s.drop_last()) * 10 + ((s.last() as nat) - ('0' as nat)) as nat
    }
}

/// The digits of a numeral, past an optional leading plus.
pub open spec fn numeral_digits(s: Seq<char>) -> Seq<char> {
    if s.len() > 0 && s[0] == '+' {
        s.skip(1)
    } else {
        s
    }
}

/// The value a text spells as an unsigned decimal numeral: at least one digit,
/// nothing but digits, and at most one leading plus.
pub open spec fn numeral(s: Seq<char>) -> Option<nat> {
    let d = numeral_digits(s);
    if d.len() > 0 && (forall|i: int| 0 <= i < d.len() ==> is_digit(#[trigger] d[i])) {
        Some(digits_value(d))
    } else {
        None
    }
}

proof fn lemma_digits_value_grows(s: Seq<char>, n: int)
    requires
        0 <= n <= s.len(),
        forall|i: int| 0 <= i < s.len() ==> is_digit(#[trigger] s[i]),
    ensures
        digits_value(s.take(n)) <= digits_value(s),
    decreases s.len(),
{
    if n == s.len() {
        assert(s.take(n) =~= s);
    } else {
        let t = s.drop_last();
        assert forall|i: int| 0 <= i < t.len() implies is_digit(#[trigger] t[i]) by {
            assert(is_digit(s[i]));
        }
        lemma_digits_value_grows(t, n);
        assert(t.take(n) =~= s.take(n));
        assert(is_digit(s[s.len() - 1]));
    }
}

/// Parse an unsigned decimal numeral no greater than `max`.
pub fn parse_number(s: &str, max: u64) -> (r: Option<u64>)
    ensures
        r is Some <==> numeral(s@) is Some && numeral(s@)->0 <= max,
        r is Some ==> r->0 as nat == numeral(s@)->0,
{
    let a: Vec<char> = chars_of(s);
    let start: usize = if a.len() > 0 && a[0] == '+' {
        1
    } else {
        0
    };
    let ghost d = numeral_digits(s@);
    assert(d =~= a@.skip(start as int));
    if start == a.len() {
        return None;
    }
    let mut value: u64 = 0;
    let mut i: usize = start;
    while i < a.len()
        invariant
            start <= i <= a@.len(),
            a@ == s@,
            d == numeral_digits(s@),
            d =~= a@.skip(start as int),
            value == digits_value(d.take(i - start)),
            value <= max,
            forall|j: int| 0 <= j < i - start ==> is_digit(#[trigger] d[j]),
        decreases a@.len() - i,
    {
        let c: char = a[i];
        assert(d[i - start] == c);
        if !('0' <= c && c <= '9') {
            assert(!is_digit(d[i - start]));
            return None;
        }
        let ghost longer = d.take(i - start + 1);
        assert(longer.drop_last() =~= d.take(i - start));
        assert(longer.last() == c);
        let wide: u128 = value as u128 * 10 + (c as u32 - 48) as u128;
        assert(wide == digits_value(longer));
        if wide > max as u128 {
            proof {
                if numeral(s@) is Some {
                    lemma_digits_value_grows(d, i - start + 1);
                }
            }
            return None;
        }
        value = wide as u64;
        i = i + 1;
    }
    assert(d.take(i - start) =~= d);
    Some(value)
}

/// The value a text spells as a decimal numeral with an optional sign.
pub open spec fn signed_numeral(s: Seq<char>) -> Option<int> {
    if s.len() > 0 && s[0] == '-' {
        if s.len() > 1 && s[1] == '+' {
            None
        } else {
            match numeral(s.skip(1)) {
                Some(n) => Some(-(n as int)),
                None => None,
            }
        }
    } else {
        match numeral(s) {
            Some(n) => Some(n as int),
            None => None,
        }
    }
}

/// Parse a decimal numeral with an optional sign into 64 bits.
pub fn parse_signed(s: &str) -> (r: Option<i64>)
    ensures
        r is Some <==> signed_numeral(s@) is Some && i64::MIN <= signed_numeral(s@)->0 <= i64::MAX,
        r is Some ==> r->0 as int == signed_numeral(s@)->0,
{
    let a: Vec<char> = chars_of(s);
    if a.len() > 0 && a[0] == '-' {
        if a.len() > 1 && a[1] == '+' {
            return None;
        }
        let rest: String = text_of(&a, 1, a.len());
        assert(rest@ =~= s@.skip(1));
        match parse_number(rest.as_str(), 0x8000_0000_0000_0000) {
            Some(n) => if n == 0x8000_0000_0000_0000 {
                Some(i64::MIN)
            } else {
                Some(-(n as i64))
            },
            None => None,
        }
    } else {
        match parse_number(s, i64::MAX as u64) {
            Some(n) => Some(n as i64),
            None => None,
        }
    }
}

/// `String::from_utf8`: claimed to succeed exactly on valid UTF-8, with the text
/// that those bytes encode.
#[verifier::external_body]
pub(crate) fn from_utf8(bytes: Vec<u8>) -> (r: Option<String>)
    ensures
        r is Some <==> valid_utf8(bytes@),
        r is Some ==> encode_utf8(r->0@) == bytes@,
{
    String::from_utf8(bytes).ok()
}

/// What trimming removes: any Unicode blank, or the four ASCII ones alone.
pub open spec fn strips(ascii_only: bool, c: char) -> bool {
    if ascii_only {
        c == ' ' || c == '\t' || c == '\r' || c == '\n'
    } else {
        whitespace(c)
    }
}

/// A text without its leading blanks.
pub open spec fn trim_start_of(ascii_only: bool, s: Seq<char>) -> Seq<char>
    decreases s.len(),
{
    if s.len() > 0 && strips(ascii_only, s[0]) {
        trim_start_of(ascii_only, s.skip(1))
    } else {
        s
    }
}

/// A text without its trailing blanks.
pub open spec fn trim_end_of(ascii_only: bool, s: Seq<char>) -> Seq<char>
    decreases s.len(),
{
    if s.len() > 0 && strips(ascii_only, s.last()) {
        trim_end_of(ascii_only, s.drop_last())
    } else {
        s
    }
}

/// A text without its leading and trailing blanks.
pub open spec fn trimmed(ascii_only: bool, s: Seq<char>) -> Seq<char> {
    trim_end_of(ascii_only, trim_start_of(ascii_only, s))
}

fn is_stripped(ascii_only: bool, c: char) -> (r: bool)
    ensures
        r == strips(ascii_only, c),
{
    if ascii_only {
        c == ' ' || c == '\t' || c == '\r' || c == '\n'
    } else {
        c.is_whitespace()
    }
}

/// Remove leading blanks.
pub fn trim_start(ascii_only: bool, s: &str) -> (r: String)
    ensures
        r@ == trim_start_of(ascii_only, s@),
{
    let a: Vec<char> = chars_of(s);
    let mut i: usize = 0;
    assert(s@.skip(0) =~= s@);
    while i < a.len() && is_stripped(ascii_only, a[i])
        invariant
            i <= a@.len(),
            a@ == s@,
            trim_start_of(ascii_only, s@) == trim_start_of(ascii_only, s@.skip(i as int)),
        decreases a@.len() - i,
    {
        assert(s@.skip(i as int).skip(1) =~= s@.skip(i + 1));
        i = i + 1;
    }
    assert(a@.subrange(i as int, a@.len() as int) =~= s@.skip(i as int));
    text_of(&a, i, a.len())
}

/// Remove leading and trailing blanks.
pub fn trim(ascii_only: bool, s: &str) -> (r: String)
    ensures
        r@ == trimmed(ascii_only, s@),
{
    let rest: String = trim_start(ascii_only, s);
    let a: Vec<char> = chars_of(rest.as_str());
    let mut n: usize = a.len();
    assert(rest@.take(n as int) =~= rest@);
    while n > 0 && is_stripped(ascii_only, a[n - 1])
        invariant
            n <= a@.len(),
            a@ == rest@,
            trim_end_of(ascii_only, rest@) == trim_end_of(ascii_only, rest@.take(n as int)),
        decreases n,
    {
        assert(rest@.take(n as int).drop_last() =~= rest@.take(n - 1));
        n = n - 1;
    }
    assert(a@.subrange(0, n as int) =~= rest@.take(n as int));
    text_of(&a, 0, n)
}

/// How many characters precede the first blank.
pub open spec fn word_len(s: Seq<char>) -> nat
    decreases s.len(),
{
    if s.len() > 0 && !whitespace(s[0]) {
        1 + word_len(s.skip(1))
    } else {
        0
    }
}

proof fn lemma_word_len_bound(s: Seq<char>)
    ensures
        word_len(s) <= s.len(),
    decreases s.len(),
{
    if s.len() > 0 && !whitespace(s[0]) {
        lemma_word_len_bound(s.skip(1));
    }
}

/// The maximal runs of non-blank characters, in order.
pub open spec fn words(s: Seq<char>) -> Seq<Seq<char>>
    decreases s.len(),
{
    if s.len() == 0 {
        Seq::empty()
    } else if whitespace(s[0]) {
        words(s.skip(1))
    } else if 0 < word_len(s) <= s.len() {
        seq![s.take(word_len(s) as int)] + words(s.skip(word_len(s) as int))
    } else {
        Seq::empty()
    }
}

/// The characters of each text of a list.
pub open spec fn views(list: Seq<String>) -> Seq<Seq<char>> {
    Seq::new(list.len(), |i: int| list[i]@)
}

/// Split a text into its words.
pub fn split_words(s: &str) -> (r: Vec<String>)
    ensures
        views(r@) == words(s@),
{
    let a: Vec<char> = chars_of(s);
    let mut out: Vec<String> = Vec::new();
    let mut i: usize = 0;
    assert(s@.skip(0) =~= s@);
    assert(views(out@) =~= Seq::<Seq<char>>::empty());
    assert(views(out@) + words(s@) =~= words(s@));
    while i < a.len()
        invariant
            i <= a@.len(),
            a@ == s@,
            views(out@) + words(s@.skip(i as int)) == words(s@),
        decreases a@.len() - i,
    {
        let ghost rest = s@.skip(i as int);
        assert(rest[0] == a@[i as int]);
        if a[i].is_whitespace() {
            assert(rest.skip(1) =~= s@.skip(i + 1));
            i = i + 1;
        } else {
            let start: usize = i;
            assert(rest.skip(0) =~= rest);
            while i < a.len() && !a[i].is_whitespace()
                invariant
                    start <= i <= a@.len(),
                    a@ == s@,
                    rest == s@.skip(start as int),
                    start < a@.len(),
                    word_len(rest) == (i - start) + word_len(rest.skip(i - start)),
                decreases a@.len() - i,
            {
                let ghost here = rest.skip(i - start);
                assert(here[0] == a@[i as int]);
                assert(here.skip(1) =~= rest.skip(i - start + 1));
                i = i + 1;
            }
            proof {
                let here = rest.skip(i - start);
                if i < a@.len() {
                    assert(here[0] == a@[i as int]);
                }
                assert(word_len(here) == 0);
                lemma_word_len_bound(rest);
                assert(word_len(rest) == i - start);
                assert(rest.take(i - start) =~= a@.subrange(start as int, i as int));
                assert(rest.skip(i - start) =~= s@.skip(i as int));
            }
            let ghost before = out@;
            out.push(text_of(&a, start, i));
            proof {
                assert(views(out@) =~= views(before).push(rest.take(i - start)));
                assert(views(out@) + words(s@.skip(i as int)) =~= views(before) + (seq![
                    rest.take(i - start),
                ] + words(rest.skip(i - start))));
                assert(words(rest) == seq![rest.take(i - start)] + words(rest.skip(i - start)));
            }
        }
    }
    assert(s@.skip(i as int).len() == 0);
    assert(views(out@) =~= words(s@));
    out
}

/// Texts joined by a separator.
pub open spec fn joined(parts: Seq<Seq<char>>, separator: Seq<char>) -> Seq<char>
    decreases parts.len(),
{
    if parts.len() == 0 {
        Seq::empty()
    } else if parts.len() == 1 {
        parts[0]
    } else {
        joined(parts.drop_last(), separator) + separator + parts.last()
    }
}

/// Join texts by a separator.
pub fn join(parts: &Vec<String>, separator: &str) -> (r: String)
    ensures
        r@ == joined(views(parts@), separator@),
{
    let mut out: String = String::new();
    let mut i: usize = 0;
    let ghost all = views(parts@);
    assert(all.take(0) =~= Seq::<Seq<char>>::empty());
    while i < parts.len()
        invariant
            i <= parts@.len(),
            all == views(parts@),
            out@ == joined(all.take(i as int), separator@),
        decreases parts@.len() - i,
    {
        if i > 0 {
            out.append(separator);
        }
        out.append(parts[i].as_str());
        i = i + 1;
        proof {
            let now = all.take(i as int);
            assert(now.drop_last() =~= all.take(i - 1));
            assert(now.last() == parts@[i - 1]@);
            if i == 1 {
                assert(out@ =~= now[0]);
            }
        }
    }
    assert(all.take(i as int) =~= all);
    out
}

/// A text followed by blanks up to a width.
pub open spec fn padded_right(s: Seq<char>, width: nat) -> Seq<char> {
    if s.len() < width {
        s + Seq::new((width - s.len()) as nat, |i: int| ' ')
    } else {
        s
    }
}

/// A text preceded by blanks up to a width.
pub open spec fn padded_left(s: Seq<char>, width: nat) -> Seq<char> {
    if s.len() < width {
        Seq::new((width - s.len()) as nat, |i: int| ' ') + s
    } else {
        s
    }
}

fn blanks(n: usize) -> (r: String)
    ensures
        r@ == Seq::new(n as nat, |i: int| ' '),
{
    let mut out: String = String::new();
    let mut i: usize = 0;
    while i < n
        invariant
            i <= n,
            out@ =~= Seq::new(i as nat, |j: int| ' '),
        decreases n - i,
    {
        out.push(' ');
        i = i + 1;
    }
    out
}

/// Left-align a text in a column.
pub fn pad_right(s: &str, width: usize) -> (r: String)
    ensures
        r@ == padded_right(s@, width as nat),
{
    let n: usize = chars_of(s).len();
    let mut out: String = s.to_owned();
    if n < width {
        out.append(blanks(width - n).as_str());
    }
    out
}

/// Right-align a text in a column.
pub fn pad_left(s: &str, width: usize) -> (r: String)
    ensures
        r@ == padded_left(s@, width as nat),
{
    let n: usize = chars_of(s).len();
    if n < width {
        let mut out: String = blanks(width - n);
        out.append(s);
        out
    } else {
        s.to_owned()
    }
}

/// A text in upper case.
pub uninterp spec fn uppercased(s: Seq<char>) -> Seq<char>;

/// `str::to_uppercase`: claimed to be a function of the text alone, the one
/// that `uppercased` names.
#[verifier::external_body]
pub(crate) fn to_uppercase(s: &str) -> (r: String)
    ensures
        r@ == uppercased(s@),
{
    s.to_uppercase()
}

/// The lower-case form of an ASCII letter; any other character is kept.
pub open spec fn ascii_lower(c: char) -> char {
    if 'A' <= c && c <= 'Z' {
        ((c as int) + 32) as char
    } else {
        c
    }
}

fn lower(c: char) -> (r: char)
    ensures
        r == ascii_lower(c),
{
    if 'A' <= c && c <= 'Z' {
        let code: u8 = c as u8 + 32;
        code as char
    } else {
        c
    }
}

/// A text with ASCII letters in lower case and underscores as hyphens.
pub open spec fn hyphenated(s: Seq<char>) -> Seq<char> {
    Seq::new(
        s.len(),
        |i: int|
            if s[i] == '_' {
                '-'
            } else {
                ascii_lower(s[i])
            },
    )
}

/// Put ASCII letters in lower case and hyphens for underscores.
pub fn hyphenate(s: &str) -> (r: String)
    ensures
        r@ == hyphenated(s@),
{
    let chars: Vec<char> = chars_of(s);
    let mut out: String = String::new();
    let mut i: usize = 0;
    while i < chars.len()
        invariant
            i <= chars@.len(),
            chars@ == s@,
            out@ =~= hyphenated(s@).take(i as int),
        decreases chars@.len() - i,
    {
        if chars[i] == '_' {
            out.push('-');
        } else {
            out.push(lower(chars[i]));
        }
        i = i + 1;
    }
    assert(hyphenated(s@).take(i as int) =~= hyphenated(s@));
    out
}

/// Whether one text precedes another in the order of their characters.
pub open spec fn text_precedes(a: Seq<char>, b: Seq<char>) -> bool
    decreases a.len(),
{
    if b.len() == 0 {
        false
    } else if a.len() == 0 {
        true
    } else if a[0] == b[0] {
        text_precedes(a.skip(1), b.skip(1))
    } else {
        a[0] < b[0]
    }
}

/// Whether one text precedes another in the order of their characters.
pub fn precedes(a: &str, b: &str) -> (r: bool)
    ensures
        r == text_precedes(a@, b@),
{
    let x: Vec<char> = chars_of(a);
    let y: Vec<char> = chars_of(b);
    let mut i: usize = 0;
    assert(a@.skip(0) =~= a@);
    assert(b@.skip(0) =~= b@);
    while i < x.len() && i < y.len() && x[i] == y[i]
        invariant
            i <= x@.len(),
            i <= y@.len(),
            x@ == a@,
            y@ == b@,
            text_precedes(a@, b@) == text_precedes(a@.skip(i as int), b@.skip(i as int)),
        decreases x@.len() - i,
    {
        assert(a@.skip(i as int).skip(1) =~= a@.skip(i + 1));
        assert(b@.skip(i as int).skip(1) =~= b@.skip(i + 1));
        i = i + 1;
    }
    if i == y.len() {
        false
    } else if i == x.len() {
        true
    } else {
        x[i] < y[i]
    }
}

/// The order of texts is total: two texts neither of which precedes the other
/// are equal.
pub proof fn lemma_precedes_total(a: Seq<char>, b: Seq<char>)
    ensures
        text_precedes(a, b) || text_precedes(b, a) || a == b,
        !(text_precedes(a, b) && text_precedes(b, a)),
    decreases a.len(),
{
    if a.len() > 0 && b.len() > 0 && a[0] == b[0] {
        lemma_precedes_total(a.skip(1), b.skip(1));
        if a.skip(1) == b.skip(1) {
            assert(a =~= seq![a[0]] + a.skip(1));
            assert(b =~= seq![b[0]] + b.skip(1));
        }
    } else if a.len() == 0 && b.len() == 0 {
        assert(a =~= b);
    }
}

/// The order of texts is transitive.
pub proof fn lemma_precedes_transitive(a: Seq<char>, b: Seq<char>, c: Seq<char>)
    requires
        text_precedes(a, b),
        text_precedes(b, c),
    ensures
        text_precedes(a, c),
    decreases a.len(),
{
    if a.len() > 0 && b.len() > 0 && c.len() > 0 && a[0] == b[0] && b[0] == c[0] {
        lemma_precedes_transitive(a.skip(1), b.skip(1), c.skip(1));
    }
}

/// Whether a text is blank throughout.
pub open spec fn blank(s: Seq<char>) -> bool {
    forall|i: int| 0 <= i < s.len() ==> whitespace(#[trigger] s[i])
}

/// Whether a text is one word: not empty, and without a blank.
pub open spec fn one_word(s: Seq<char>) -> bool {
    s.len() > 0 && forall|i: int| 0 <= i < s.len() ==> !whitespace(#[trigger] s[i])
}

/// Blanks before a text add no word to it.
pub proof fn lemma_blanks_add_no_word(before: Seq<char>, s: Seq<char>)
    requires
        blank(before),
    ensures
        words(before + s) == words(s),
    decreases before.len(),
{
    if before.len() == 0 {
        assert(before + s =~= s);
    } else {
        let rest = before.skip(1);
        assert((before + s)[0] == before[0]);
        assert((before + s).skip(1) =~= rest + s);
        assert forall|i: int| 0 <= i < rest.len() implies whitespace(#[trigger] rest[i]) by {
            assert(rest[i] == before[i + 1]);
        }
        lemma_blanks_add_no_word(rest, s);
    }
}

proof fn lemma_word_len_of(word: Seq<char>, after: Seq<char>)
    requires
        forall|i: int| 0 <= i < word.len() ==> !whitespace(#[trigger] word[i]),
        after.len() == 0 || whitespace(after[0]),
    ensures
        word_len(word + after) == word.len(),
    decreases word.len(),
{
    if word.len() == 0 {
        assert(word + after =~= after);
    } else {
        let rest = word.skip(1);
        assert((word + after)[0] == word[0]);
        assert((word + after).skip(1) =~= rest + after);
        assert forall|i: int| 0 <= i < rest.len() implies !whitespace(#[trigger] rest[i]) by {
            assert(rest[i] == word[i + 1]);
        }
        lemma_word_len_of(rest, after);
    }
}

proof fn lemma_first_word(word: Seq<char>, after: Seq<char>)
    requires
        one_word(word),
        after.len() == 0 || whitespace(after[0]),
    ensures
        words(word + after) == seq![word] + words(after),
{
    lemma_word_len_of(word, after);
    assert((word + after)[0] == word[0]);
    assert((word + after).take(word.len() as int) =~= word);
    assert((word + after).skip(word.len() as int) =~= after);
}

proof fn lemma_word_prefix(s: Seq<char>)
    ensures
        forall|i: int| 0 <= i < word_len(s) && i < s.len() ==> !whitespace(#[trigger] s[i]),
    decreases s.len(),
{
    if s.len() > 0 && !whitespace(s[0]) {
        lemma_word_prefix(s.skip(1));
        assert forall|i: int| 0 <= i < word_len(s) && i < s.len() implies !whitespace(
            #[trigger] s[i],
        ) by {
            if i > 0 {
                assert(s.skip(1)[i - 1] == s[i]);
            }
        }
    }
}

/// Each word of a text is one word.
pub proof fn lemma_words_are_words(s: Seq<char>)
    ensures
        forall|i: int| 0 <= i < words(s).len() ==> one_word(#[trigger] words(s)[i]),
    decreases s.len(),
{
    if s.len() > 0 {
        if whitespace(s[0]) {
            lemma_words_are_words(s.skip(1));
            assert(words(s) == words(s.skip(1)));
        } else {
            let n = word_len(s) as int;
            lemma_word_len_bound(s);
            lemma_word_prefix(s);
            lemma_words_are_words(s.skip(n));
            let first = s.take(n);
            assert forall|i: int| 0 <= i < first.len() implies !whitespace(#[trigger] first[i]) by {
                assert(first[i] == s[i]);
            }
            assert forall|i: int| 0 <= i < words(s).len() implies one_word(#[trigger] words(s)[i]) by {
                if i > 0 {
                    assert(words(s)[i] == words(s.skip(n))[i - 1]);
                } else {
                    assert(words(s)[0] == first);
                }
            }
        }
    } else {
        assert(words(s) =~= Seq::<Seq<char>>::empty());
    }
}

/// Words joined by blanks are the words of what they are joined to, before
/// those of what follows after a blank.
pub proof fn lemma_words_of_joined(list: Seq<Seq<char>>, separator: Seq<char>, after: Seq<char>)
    requires
        forall|i: int| 0 <= i < list.len() ==> one_word(#[trigger] list[i]),
        blank(separator),
        separator.len() > 0,
        after.len() == 0 || whitespace(after[0]),
    ensures
        words(joined(list, separator) + after) == list + words(after),
    decreases list.len(),
{
    if list.len() == 0 {
        assert(joined(list, separator) + after =~= after);
        assert(list + words(after) =~= words(after));
    } else if list.len() == 1 {
        lemma_first_word(list[0], after);
        assert(list =~= seq![list[0]]);
    } else {
        let rest = list.drop_last();
        let tail = list.last() + after;
        assert(joined(list, separator) + after =~= joined(rest, separator) + (separator + tail));
        assert((separator + tail)[0] == separator[0]);
        assert forall|i: int| 0 <= i < rest.len() implies one_word(#[trigger] rest[i]) by {
            assert(rest[i] == list[i]);
        }
        lemma_words_of_joined(rest, separator, separator + tail);
        lemma_blanks_add_no_word(separator, tail);
        lemma_first_word(list.last(), after);
        assert(list =~= rest + seq![list.last()]);
        assert(rest + (seq![list.last()] + words(after)) =~= list + words(after));
    }
}

/// Where a text occurs in another.
pub open spec fn occurs_at(text: Seq<char>, part: Seq<char>, at: int) -> bool {
    0 <= at && at + part.len() <= text.len() && text.subrange(at, at + part.len()) == part
}

/// Whether a text occurs in another.
pub open spec fn occurs(text: Seq<char>, part: Seq<char>) -> bool {
    exists|at: int| occurs_at(text, part, at)
}

/// What occurs in a text occurs in any longer one.
pub proof fn lemma_occurs_in_longer(before: Seq<char>, text: Seq<char>, after: Seq<char>)
    ensures
        forall|part: Seq<char>| occurs(text, part) ==> #[trigger] occurs(text + after, part),
        forall|part: Seq<char>| occurs(text, part) ==> #[trigger] occurs(before + text, part),
{
    assert forall|part: Seq<char>| occurs(text, part) implies #[trigger] occurs(
        text + after,
        part,
    ) by {
        let at = choose|at: int| occurs_at(text, part, at);
        assert((text + after).subrange(at, at + part.len()) =~= text.subrange(
            at,
            at + part.len(),
        ));
        assert(occurs_at(text + after, part, at));
    }
    assert forall|part: Seq<char>| occurs(text, part) implies #[trigger] occurs(
        before + text,
        part,
    ) by {
        let at = choose|at: int| occurs_at(text, part, at);
        let n = before.len() as int;
        assert((before + text).subrange(n + at, n + at + part.len()) =~= text.subrange(
            at,
            at + part.len(),
        ));
        assert(occurs_at(before + text, part, n + at));
    }
}

/// A text occurs between any two others.
pub proof fn lemma_occurs_between(before: Seq<char>, part: Seq<char>, after: Seq<char>)
    ensures
        occurs(before + part + after, part),
        occurs(before + part, part),
        occurs(part + after, part),
        occurs(part, part),
{
    let n = before.len() as int;
    assert((before + part + after).subrange(n, n + part.len()) =~= part);
    assert(occurs_at(before + part + after, part, n));
    assert((before + part).subrange(n, n + part.len()) =~= part);
    assert(occurs_at(before + part, part, n));
    assert((part + after).subrange(0, part.len() as int) =~= part);
    assert(occurs_at(part + after, part, 0));
    assert(part.subrange(0, part.len() as int) =~= part);
    assert(occurs_at(part, part, 0));
}

/// A numeral spells its number: it is read back as that number, holds nothing
/// but digits and begins with a zero only where it is that digit alone.
pub proof fn lemma_decimal_reads_back(n: nat)
    ensures
        decimal(n).len() > 0,
        forall|i: int| 0 <= i < decimal(n).len() ==> '0' <= #[trigger] decimal(n)[i] <= '9',
        decimal(n)[0] == '0' ==> decimal(n).len() == 1,
        numeral(decimal(n)) == Some(n),
    decreases n,
{
    lemma_decimal_digits(n);
    let d = decimal(n);
    assert(d[0] != '+');
    assert forall|i: int| 0 <= i < d.len() implies is_digit(#[trigger] d[i]) by {}
}

proof fn lemma_decimal_digits(n: nat)
    ensures
        decimal(n).len() > 0,
        forall|i: int| 0 <= i < decimal(n).len() ==> '0' <= #[trigger] decimal(n)[i] <= '9',
        decimal(n)[0] == '0' ==> n == 0 && decimal(n).len() == 1,
        digits_value(decimal(n)) == n,
    decreases n,
{
    if n < 10 {
        let none = decimal(n).drop_last();
        assert(none =~= Seq::<char>::empty());
        assert(digits_value(none) == 0);
        assert(decimal(n).last() as nat == 48 + n);
    } else {
        lemma_decimal_digits(n / 10);
        assert(decimal(n).last() as nat == 48 + n % 10);
        assert(decimal(n).drop_last() =~= decimal(n / 10));
        assert(decimal(n)[0] == decimal(n / 10)[0]);
    }
}

/// Ten times a number, and a digit, is written with that digit behind it.
pub proof fn lemma_decimal_appends_digit(n: nat, d: nat)
    requires
        0 < n,
        d < 10,
    ensures
        decimal(10 * n + d) == decimal(n).push((48 + d) as char),
        decimal(d) == seq![(48 + d) as char],
{
    assert((10 * n + d) / 10 == n && (10 * n + d) % 10 == d);
}

/// Two numbers with one numeral are one number.
pub proof fn lemma_decimal_injective(a: nat, b: nat)
    requires
        decimal(a) == decimal(b),
    ensures
        a == b,
{
    lemma_decimal_digits(a);
    lemma_decimal_digits(b);
}

/// A negative number is written as its opposite behind a minus.
pub proof fn lemma_signed_decimal(n: int)
    requires
        n > 0,
    ensures
        signed_decimal(n) == decimal(n as nat),
        signed_decimal(-n) == seq!['-'] + decimal(n as nat),
        signed_decimal(0) == seq!['0'],
{
}

/// Whether a text spells a word of small letters and hyphens, in any case and
/// with underscores for hyphens.
pub open spec fn spells(text: Seq<char>, word: Seq<char>) -> bool {
    &&& text.len() == word.len()
    &&& forall|i: int|
        0 <= i < text.len() ==> {
            ||| #[trigger] text[i] == word[i] && !('A' <= text[i] <= 'Z') && text[i] != '_'
            ||| 'A' <= text[i] <= 'Z' && text[i] as int + 32 == word[i] as int
            ||| text[i] == '_' && word[i] == '-'
        }
}

/// A hyphenated text is the word that the text spells.
pub proof fn lemma_hyphenated_spells(text: Seq<char>, word: Seq<char>)
    ensures
        hyphenated(text) == word <==> spells(text, word),
{
    if spells(text, word) {
        assert(hyphenated(text) =~= word);
    } else if hyphenated(text) == word {
        assert forall|i: int| 0 <= i < text.len() implies {
            ||| #[trigger] text[i] == word[i] && !('A' <= text[i] <= 'Z') && text[i] != '_'
            ||| 'A' <= text[i] <= 'Z' && text[i] as int + 32 == word[i] as int
            ||| text[i] == '_' && word[i] == '-'
        } by {
            assert(hyphenated(text)[i] == word[i]);
        }
    }
}

/// The order of texts is that of a dictionary: one precedes another where it is
/// the beginning of it, or has the smaller character at the first place where
/// they differ.
pub proof fn lemma_precedes_as_a_dictionary(a: Seq<char>, b: Seq<char>, n: int)
    requires
        0 <= n <= a.len(),
        n <= b.len(),
        forall|i: int| 0 <= i < n ==> #[trigger] a[i] == b[i],
    ensures
        n == a.len() && n < b.len() ==> text_precedes(a, b) && !text_precedes(b, a),
        n < a.len() && n < b.len() && a[n] < b[n] ==> text_precedes(a, b) && !text_precedes(b, a),
        n == a.len() && n == b.len() ==> !text_precedes(a, b),
    decreases n,
{
    if n > 0 {
        let x = a.skip(1);
        let y = b.skip(1);
        assert(a[0] == b[0]);
        assert forall|i: int| 0 <= i < n - 1 implies #[trigger] x[i] == y[i] by {
            assert(a[i + 1] == b[i + 1]);
        }
        lemma_precedes_as_a_dictionary(x, y, n - 1);
    }
}

/// Whether a text is another one behind some blanks and before others.
pub open spec fn lies_between_blanks(
    ascii_only: bool,
    s: Seq<char>,
    t: Seq<char>,
    before: int,
) -> bool {
    &&& occurs_at(s, t, before)
    &&& forall|i: int|
        0 <= i < before || before + t.len() <= i < s.len() ==> strips(ascii_only, #[trigger] s[i])
}

/// Trimming removes blanks at both ends and nothing else: what is left has none
/// there, and the text is it between two runs of blanks.
pub proof fn lemma_trimmed_between_blanks(ascii_only: bool, s: Seq<char>)
    ensures
        ({
            let t = trimmed(ascii_only, s);
            &&& t.len() > 0 ==> !strips(ascii_only, t[0]) && !strips(ascii_only, t.last())
            &&& exists|before: int| #[trigger] lies_between_blanks(ascii_only, s, t, before)
        }),
{
    let u = trim_start_of(ascii_only, s);
    let t = trim_end_of(ascii_only, u);
    lemma_trim_start(ascii_only, s);
    lemma_trim_end(ascii_only, u);
    let before = s.len() - u.len();
    assert(s.subrange(before, before + t.len()) =~= t);
    assert forall|i: int| 0 <= i < before || before + t.len() <= i < s.len() implies strips(
        ascii_only,
        #[trigger] s[i],
    ) by {
        if i >= before {
            assert(u[i - before] == s[i]);
        }
    }
    assert(lies_between_blanks(ascii_only, s, t, before));
    if t.len() > 0 {
        assert(t[0] == u[0]);
    }
}

proof fn lemma_trim_start(ascii_only: bool, s: Seq<char>)
    ensures
        ({
            let u = trim_start_of(ascii_only, s);
            &&& u.len() <= s.len()
            &&& u == s.skip(s.len() - u.len())
            &&& u.len() > 0 ==> !strips(ascii_only, u[0])
            &&& forall|i: int|
                0 <= i < s.len() - u.len() ==> strips(ascii_only, #[trigger] s[i])
        }),
    decreases s.len(),
{
    let u = trim_start_of(ascii_only, s);
    if s.len() > 0 && strips(ascii_only, s[0]) {
        let t = s.skip(1);
        lemma_trim_start(ascii_only, t);
        assert(u =~= s.skip(s.len() - u.len()));
        assert forall|i: int| 0 <= i < s.len() - u.len() implies strips(
            ascii_only,
            #[trigger] s[i],
        ) by {
            if i > 0 {
                assert(t[i - 1] == s[i]);
            }
        }
    } else {
        assert(s.skip(0) =~= s);
    }
}

proof fn lemma_trim_end(ascii_only: bool, s: Seq<char>)
    ensures
        ({
            let u = trim_end_of(ascii_only, s);
            &&& u.len() <= s.len()
            &&& u == s.take(u.len() as int)
            &&& u.len() > 0 ==> !strips(ascii_only, u.last())
            &&& forall|i: int| u.len() <= i < s.len() ==> strips(ascii_only, #[trigger] s[i])
        }),
    decreases s.len(),
{
    let u = trim_end_of(ascii_only, s);
    if s.len() > 0 && strips(ascii_only, s.last()) {
        let t = s.drop_last();
        lemma_trim_end(ascii_only, t);
        assert(u =~= s.take(u.len() as int));
        assert forall|i: int| u.len() <= i < s.len() implies strips(
            ascii_only,
            #[trigger] s[i],
        ) by {
            if i < t.len() {
                assert(t[i] == s[i]);
            }
        }
    } else {
        assert(s.take(s.len() as int) =~= s);
    }
}

/// Padding fills a text up to its width with blanks, behind it or before it,
/// and leaves a longer one as it is.
pub proof fn lemma_padding_fills_with_blanks(s: Seq<char>, width: nat)
    ensures
        padded_right(s, width).len() == padded_left(s, width).len(),
        padded_right(s, width).len() == if s.len() < width {
            width
        } else {
            s.len()
        },
        padded_right(s, width).take(s.len() as int) == s,
        padded_left(s, width).skip(padded_left(s, width).len() - s.len()) == s,
        forall|i: int|
            s.len() <= i < padded_right(s, width).len() ==> #[trigger] padded_right(s, width)[i]
                == ' ',
        forall|i: int|
            0 <= i < padded_left(s, width).len() - s.len() ==> #[trigger] padded_left(s, width)[i]
                == ' ',
{
    assert(padded_right(s, width).take(s.len() as int) =~= s);
    assert(padded_left(s, width).skip(padded_left(s, width).len() - s.len()) =~= s);
}

/// Whether a text ends in another.
pub open spec fn ends_in(text: Seq<char>, end: Seq<char>) -> bool {
    end.len() <= text.len() && text.skip(text.len() - end.len()) == end
}

/// What occurs in one of two texts occurs in the first followed by the second.
pub proof fn lemma_appended(x: Seq<char>, y: Seq<char>)
    ensures
        occurs(x + y, y),
        forall|part: Seq<char>| occurs(x, part) ==> #[trigger] occurs(x + y, part),
        forall|part: Seq<char>| occurs(y, part) ==> #[trigger] occurs(x + y, part),
{
    lemma_occurs_between(x, y, Seq::empty());
    lemma_occurs_in_longer(Seq::empty(), x, y);
    lemma_occurs_in_longer(x, y, Seq::empty());
}

/// A value that is written behind a label and before a mark is shown between
/// them.
pub proof fn lemma_value_shown(
    text: Seq<char>,
    value: Seq<char>,
    tail: Seq<char>,
    label: Seq<char>,
    mark: Seq<char>,
)
    requires
        ends_in(text, label),
        has_prefix(tail, mark),
    ensures
        occurs(text + value + tail, label + value + mark),
        forall|part: Seq<char>| occurs(text, part) ==> #[trigger] occurs(text + value + tail, part),
{
    let head = text.take(text.len() - label.len());
    let rest = tail.skip(mark.len() as int);
    assert(text =~= head + label);
    assert(tail =~= mark + rest);
    assert(text + value + tail =~= head + (label + value + mark) + rest);
    lemma_occurs_between(head, label + value + mark, rest);
    lemma_appended(text, value);
    lemma_appended(text + value, tail);
}

} // verus!
