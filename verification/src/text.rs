//! Text: characters of strings, decimal and hexadecimal numerals, reading numbers, order.
use vstd::prelude::*;

verus! {

/// `String::push` appends one character.
pub assume_specification[ std::string::String::push ](receiver: &mut String, pushed: char)
    ensures
        final(receiver)@ == old(receiver)@.push(pushed),
;

/// The number of a character.
pub fn code_point(c: char) -> (n: u32)
    ensures
        n == c as int,
{
    c as u32
}

/// The characters of a string, one element each.
pub fn characters(text: &str) -> (chars: Vec<char>)
    ensures
        chars@ == text@,
{
    let mut chars: Vec<char> = Vec::new();
    for c in walk: text.chars()
        invariant
            chars@ == walk.seq().take(walk.index()),
            walk.seq() == text@,
    {
        chars.push(c);
    }
    chars
}

/// Whether `a` stands before `b` when texts are ordered by their first differing character.
pub open spec fn text_before(a: Seq<char>, b: Seq<char>) -> bool
    decreases a.len(),
{
    if b.len() == 0 {
        false
    } else if a.len() == 0 {
        true
    } else if a[0] != b[0] {
        (a[0] as int) < (b[0] as int)
    } else {
        text_before(a.drop_first(), b.drop_first())
    }
}

/// No text stands before itself.
pub proof fn lemma_text_irreflexive(a: Seq<char>)
    ensures
        !text_before(a, a),
    decreases a.len(),
{
    if a.len() > 0 {
        lemma_text_irreflexive(a.drop_first());
    }
}

/// The order of texts is transitive.
pub proof fn lemma_text_transitive(a: Seq<char>, b: Seq<char>, c: Seq<char>)
    requires
        text_before(a, b),
        text_before(b, c),
    ensures
        text_before(a, c),
    decreases a.len(),
{
    if a.len() > 0 && a[0] == b[0] && b[0] == c[0] {
        lemma_text_transitive(a.drop_first(), b.drop_first(), c.drop_first());
    }
}

/// Of two different texts one stands before the other.
pub proof fn lemma_text_total(a: Seq<char>, b: Seq<char>)
    ensures
        text_before(a, b) || text_before(b, a) || a == b,
    decreases a.len(),
{
    if a.len() > 0 && b.len() > 0 && a[0] == b[0] {
        lemma_text_total(a.drop_first(), b.drop_first());
        if a.drop_first() == b.drop_first() {
            assert(a =~= seq![a[0]] + a.drop_first());
            assert(b =~= seq![b[0]] + b.drop_first());
        }
    } else if a.len() == 0 && b.len() == 0 {
        assert(a =~= b);
    }
}

/// Whether `a` stands before `b`.
pub fn precedes(a: &str, b: &str) -> (r: bool)
    ensures
        r == text_before(a@, b@),
{
    let left = characters(a);
    let right = characters(b);
    let mut i: usize = 0;
    proof {
        assert(left@.skip(0) =~= a@);
        assert(right@.skip(0) =~= b@);
    }
    while i < left.len() && i < right.len() && left[i] == right[i]
        invariant
            i <= left@.len(),
            i <= right@.len(),
            text_before(a@, b@) == text_before(left@.skip(i as int), right@.skip(i as int)),
        decreases left@.len() - i,
    {
        proof {
            assert(left@.skip(i as int).drop_first() =~= left@.skip(i + 1));
            assert(right@.skip(i as int).drop_first() =~= right@.skip(i + 1));
        }
        i += 1;
    }
    if i == right.len() {
        false
    } else if i == left.len() {
        true
    } else {
        code_point(left[i]) < code_point(right[i])
    }
}

/// Whether two strings hold the same text.
pub fn equal(a: &str, b: &str) -> (r: bool)
    ensures
        r == (a@ == b@),
{
    let left = characters(a);
    let right = characters(b);
    if left.len() != right.len() {
        return false;
    }
    let mut i: usize = 0;
    while i < left.len()
        invariant
            i <= left@.len(),
            left@.len() == right@.len(),
            left@.take(i as int) == right@.take(i as int),
            left@ == a@,
            right@ == b@,
        decreases left@.len() - i,
    {
        if left[i] != right[i] {
            assert(left@[i as int] != right@[i as int]);
            return false;
        }
        proof {
            assert(left@.take(i + 1) =~= left@.take(i as int).push(left@[i as int]));
            assert(right@.take(i + 1) =~= right@.take(i as int).push(right@[i as int]));
        }
        i += 1;
    }
    proof {
        assert(left@.take(left@.len() as int) =~= left@);
        assert(right@.take(right@.len() as int) =~= right@);
    }
    true
}

/// The decimal numeral of a natural number.
pub open spec fn decimal(n: nat) -> Seq<char>
    decreases n,
{
    if n < 10 {
        seq![digit(n)]
    } else {
        decimal(n / 10).push(digit(n % 10))
    }
}

/// The character of a decimal digit.
pub open spec fn digit(d: nat) -> char {
    (('0' as u32 + d) as u32) as char
}

/// The character of a decimal digit.
pub fn digit_char(d: u8) -> (c: char)
    requires
        d < 10,
    ensures
        c == digit(d as nat),
{
    (48u8 + d) as char
}

/// The decimal numeral of a number.
pub fn decimal_text(n: u64) -> (text: String)
    ensures
        text@ == decimal(n as nat),
    decreases n,
{
    if n < 10 {
        let mut text = String::new();
        text.push(digit_char(n as u8));
        assert(text@ =~= decimal(n as nat));
        text
    } else {
        let mut text = decimal_text(n / 10);
        text.push(digit_char((n % 10) as u8));
        text
    }
}

/// The decimal numeral of an integer, with a sign where it is negative.
pub open spec fn signed_decimal(n: int) -> Seq<char> {
    if n < 0 {
        "-"@ + decimal((-n) as nat)
    } else {
        decimal(n as nat)
    }
}

/// The decimal numeral of an integer, with a sign where it is negative.
pub fn signed_decimal_text(n: i64) -> (text: String)
    ensures
        text@ == signed_decimal(n as int),
{
    if n < 0 {
        let mut text = "-".to_owned();
        let magnitude: u64 = (-(n as i128)) as u64;
        text.append(decimal_text(magnitude).as_str());
        text
    } else {
        decimal_text(n as u64)
    }
}

/// The hexadecimal numeral of a natural number, in small letters.
pub open spec fn hexadecimal(n: nat) -> Seq<char>
    decreases n,
{
    if n < 16 {
        seq![hex_digit(n)]
    } else {
        hexadecimal(n / 16).push(hex_digit(n % 16))
    }
}

/// The character of a hexadecimal digit.
pub open spec fn hex_digit(d: nat) -> char {
    if d < 10 {
        digit(d)
    } else {
        (('a' as u32 + d - 10) as u32) as char
    }
}

/// The character of a hexadecimal digit.
pub fn hex_digit_char(d: u8) -> (c: char)
    requires
        d < 16,
    ensures
        c == hex_digit(d as nat),
{
    if d < 10 {
        digit_char(d)
    } else {
        (87u8 + d) as char
    }
}

/// The hexadecimal numeral of a number, in small letters.
pub fn hexadecimal_text(n: u64) -> (text: String)
    ensures
        text@ == hexadecimal(n as nat),
    decreases n,
{
    if n < 16 {
        let mut text = String::new();
        text.push(hex_digit_char(n as u8));
        assert(text@ =~= hexadecimal(n as nat));
        text
    } else {
        let mut text = hexadecimal_text(n / 16);
        text.push(hex_digit_char((n % 16) as u8));
        text
    }
}

/// The texts of a run of strings.
pub open spec fn texts(strings: Seq<String>) -> Seq<Seq<char>> {
    Seq::new(strings.len(), |i: int| strings[i]@)
}

/// Texts in a row with a separator between each two.
pub open spec fn joined(parts: Seq<Seq<char>>, separator: Seq<char>) -> Seq<char>
    decreases parts.len(),
{
    if parts.len() == 0 {
        Seq::empty()
    } else if parts.len() == 1 {
        parts[0]
    } else {
        joined(parts.drop_last(), separator) + separator + parts.last()
    }
}

/// Texts in a row with a separator between each two.
pub fn join(parts: &[String], separator: &str) -> (text: String)
    ensures
        text@ == joined(texts(parts@), separator@),
{
    let mut text = String::new();
    for i in 0..parts.len()
        invariant
            text@ == joined(texts(parts@.take(i as int)), separator@),
    {
        proof {
            let shown = texts(parts@.take(i as int));
            let longer = texts(parts@.take(i + 1));
            assert(longer.drop_last() =~= shown);
            assert(longer.last() == parts@[i as int]@);
            assert(i == 0 ==> text@ + parts@[0]@ =~= parts@[0]@);
        }
        if i > 0 {
            text.append(separator);
        }
        text.append(parts[i].as_str());
    }
    assert(parts@.take(parts@.len() as int) =~= parts@);
    text
}

/// The text of a string that may be there.
pub open spec fn optional(text: Option<String>) -> Option<Seq<char>> {
    match text {
        Some(string) => Some(string@),
        None => None,
    }
}

/// The same string again, if there is one.
pub fn copy_optional(text: &Option<String>) -> (copy: Option<String>)
    ensures
        copy == *text,
{
    match text {
        Some(string) => Some(string.clone()),
        None => None,
    }
}

/// Whether a character is white space, as Unicode has it.
pub open spec fn is_space(c: char) -> bool {
    let n = c as int;
    ||| 0x9 <= n <= 0xd
    ||| n == 0x20
    ||| n == 0x85
    ||| n == 0xa0
    ||| n == 0x1680
    ||| 0x2000 <= n <= 0x200a
    ||| n == 0x2028
    ||| n == 0x2029
    ||| n == 0x202f
    ||| n == 0x205f
    ||| n == 0x3000
}

/// Whether a character is white space.
pub fn is_white_space(c: char) -> (r: bool)
    ensures
        r == is_space(c),
{
    let n: u32 = code_point(c);
    (0x9 <= n && n <= 0xd) || n == 0x20 || n == 0x85 || n == 0xa0 || n == 0x1680 || (0x2000 <= n
        && n <= 0x200a) || n == 0x2028 || n == 0x2029 || n == 0x202f || n == 0x205f || n == 0x3000
}

/// A text without the white space before it.
pub open spec fn trimmed_start(s: Seq<char>) -> Seq<char>
    decreases s.len(),
{
    if s.len() > 0 && is_space(s[0]) {
        trimmed_start(s.drop_first())
    } else {
        s
    }
}

/// A text without the white space behind it.
pub open spec fn trimmed_end(s: Seq<char>) -> Seq<char>
    decreases s.len(),
{
    if s.len() > 0 && is_space(s.last()) {
        trimmed_end(s.drop_last())
    } else {
        s
    }
}

/// A text without the white space round it.
pub open spec fn trimmed(s: Seq<char>) -> Seq<char> {
    trimmed_end(trimmed_start(s))
}

/// A text without the white space round it.
pub fn trim(s: &str) -> (text: String)
    ensures
        text@ == trimmed(s@),
{
    let chars = characters(s);
    let n: usize = chars.len();
    let mut start: usize = 0;
    assert(chars@.skip(0) =~= chars@);
    while start < n && is_white_space(chars[start])
        invariant
            start <= n == chars@.len(),
            trimmed_start(chars@) == trimmed_start(chars@.skip(start as int)),
        decreases n - start,
    {
        assert(chars@.skip(start as int).drop_first() =~= chars@.skip(start + 1));
        start += 1;
    }
    let ghost body = chars@.skip(start as int);
    assert(trimmed_start(chars@) == body);
    let mut end: usize = n;
    assert(chars@.subrange(start as int, end as int) =~= body);
    while end > start && is_white_space(chars[end - 1])
        invariant
            start <= end <= n == chars@.len(),
            trimmed_end(body) == trimmed_end(chars@.subrange(start as int, end as int)),
        decreases end,
    {
        let ghost shown = chars@.subrange(start as int, end as int);
        assert(shown.drop_last() =~= chars@.subrange(start as int, end - 1));
        end -= 1;
    }
    let mut text = String::new();
    for i in start..end
        invariant
            start <= end <= chars@.len(),
            text@ == chars@.subrange(start as int, i as int),
    {
        text.push(chars[i]);
    }
    text
}

/// Why a text is not a number.
#[derive(Debug, Clone, Copy, PartialEq, Eq, Structural)]
pub enum NumberError {
    Empty,
    InvalidDigit,
    TooLarge,
}

/// The error in words.
pub open spec fn number_error_text(error: NumberError) -> Seq<char> {
    match error {
        NumberError::Empty => "cannot parse integer from empty string"@,
        NumberError::InvalidDigit => "invalid digit found in string"@,
        NumberError::TooLarge => "number too large to fit in target type"@,
    }
}

impl NumberError {
    /// The error in words.
    pub fn message(self) -> (text: &'static str)
        ensures
            text@ == number_error_text(self),
    {
        match self {
            NumberError::Empty => "cannot parse integer from empty string",
            NumberError::InvalidDigit => "invalid digit found in string",
            NumberError::TooLarge => "number too large to fit in target type",
        }
    }
}

/// Whether a character is a decimal digit.
pub open spec fn is_digit(c: char) -> bool {
    '0' <= c <= '9'
}

/// What the first `n` characters of a numeral come to: the first character that is no digit, or
/// that takes the number over `maximum`, decides.
pub open spec fn digits_read(s: Seq<char>, n: nat, maximum: nat) -> Result<nat, NumberError>
    decreases n,
{
    if n == 0 {
        Ok(0)
    } else {
        match digits_read(s, (n - 1) as nat, maximum) {
            Err(error) => Err(error),
            Ok(value) => if !is_digit(s[n - 1]) {
                Err(NumberError::InvalidDigit)
            } else if value * 10 + (s[n - 1] as int - '0' as int) > maximum {
                Err(NumberError::TooLarge)
            } else {
                Ok((value * 10 + (s[n - 1] as int - '0' as int)) as nat)
            },
        }
    }
}

/// The number that a text spells: digits, with a plus sign before them or none.
pub open spec fn number_read(s: Seq<char>, maximum: nat) -> Result<nat, NumberError> {
    if s.len() == 0 {
        Err(NumberError::Empty)
    } else if s.len() > 1 && s[0] == '+' {
        digits_read(s.drop_first(), (s.len() - 1) as nat, maximum)
    } else {
        digits_read(s, s.len(), maximum)
    }
}

/// The number that a text spells, if it is no larger than `maximum`.
pub fn parse_number(s: &str, maximum: u64) -> (r: Result<u64, NumberError>)
    ensures
        match r {
            Ok(value) => number_read(s@, maximum as nat) == Ok::<nat, NumberError>(value as nat)
                && value <= maximum,
            Err(error) => number_read(s@, maximum as nat) == Err::<nat, NumberError>(error),
        },
{
    let chars = characters(s);
    let n: usize = chars.len();
    if n == 0 {
        return Err(NumberError::Empty);
    }
    let start: usize = if n > 1 && chars[0] == '+' {
        1
    } else {
        0
    };
    let ghost body = chars@.skip(start as int);
    proof {
        assert(chars@.skip(0) =~= chars@);
        assert(chars@.skip(1) =~= chars@.drop_first());
    }
    let mut value: u64 = 0;
    let mut i: usize = start;
    while i < n
        invariant
            start <= i <= n == chars@.len(),
            body == chars@.skip(start as int),
            number_read(s@, maximum as nat) == digits_read(body, body.len(), maximum as nat),
            digits_read(body, (i - start) as nat, maximum as nat) == Ok::<nat, NumberError>(
                value as nat,
            ),
            value <= maximum,
        decreases n - i,
    {
        let c: char = chars[i];
        assert(body[i - start] == c);
        if c < '0' || c > '9' {
            proof {
                lemma_error_stays(body, (i - start + 1) as nat, body.len(), maximum as nat);
            }
            return Err(NumberError::InvalidDigit);
        }
        let next: u128 = value as u128 * 10 + (code_point(c) - 48) as u128;
        if next > maximum as u128 {
            proof {
                lemma_error_stays(body, (i - start + 1) as nat, body.len(), maximum as nat);
            }
            return Err(NumberError::TooLarge);
        }
        value = next as u64;
        i += 1;
    }
    Ok(value)
}

/// Once a numeral has gone wrong it stays wrong.
proof fn lemma_error_stays(s: Seq<char>, n: nat, m: nat, maximum: nat)
    requires
        n <= m,
        digits_read(s, n, maximum) is Err,
    ensures
        digits_read(s, m, maximum) == digits_read(s, n, maximum),
    decreases m,
{
    if n < m {
        lemma_error_stays(s, n, (m - 1) as nat, maximum);
    }
}

/// Reading depends on the characters that are read alone.
proof fn lemma_digits_prefix(s: Seq<char>, t: Seq<char>, n: nat, maximum: nat)
    requires
        n <= s.len(),
        n <= t.len(),
        s.take(n as int) == t.take(n as int),
    ensures
        digits_read(s, n, maximum) == digits_read(t, n, maximum),
    decreases n,
{
    if n > 0 {
        assert(s.take(n - 1) =~= s.take(n as int).drop_last());
        assert(t.take(n - 1) =~= t.take(n as int).drop_last());
        lemma_digits_prefix(s, t, (n - 1) as nat, maximum);
        assert(s.take(n as int)[n - 1] == s[n - 1]);
        assert(t.take(n as int)[n - 1] == t[n - 1]);
    }
}

/// Reading a number's numeral gives the number back.
pub proof fn law_numeral_is_read_back(n: nat, maximum: nat)
    requires
        n <= maximum,
    ensures
        number_read(decimal(n), maximum) == Ok::<nat, NumberError>(n),
        digits_read(decimal(n), decimal(n).len(), maximum) == Ok::<nat, NumberError>(n),
        decimal(n).len() > 0,
        is_digit(decimal(n)[0]),
    decreases n,
{
    let s = decimal(n);
    if n < 10 {
        assert(s.len() == 1);
        assert(digits_read(s, 0, maximum) == Ok::<nat, NumberError>(0));
        assert(digits_read(s, 1, maximum) == Ok::<nat, NumberError>(n));
    } else {
        law_numeral_is_read_back(n / 10, maximum);
        let shorter = decimal(n / 10);
        assert(s.take(shorter.len() as int) =~= shorter.take(shorter.len() as int));
        lemma_digits_prefix(s, shorter, shorter.len(), maximum);
        assert(s.last() == digit(n % 10));
        assert(s[0] == shorter[0]);
    }
}

/// Whether two strings that may be there hold the same text.
pub fn same_optional(a: &Option<String>, b: &Option<String>) -> (r: bool)
    ensures
        r == (optional(*a) == optional(*b)),
{
    match (a, b) {
        (Some(left), Some(right)) => equal(left.as_str(), right.as_str()),
        (None, None) => true,
        _ => false,
    }
}

/// Puts the numeral of a number behind a text.
pub fn put_number(out: &mut String, n: u64)
    ensures
        final(out)@ == old(out)@ + decimal(n as nat),
{
    out.append(decimal_text(n).as_str());
}

/// What becomes of each item of a list.
pub fn each<T, F: Fn(&T) -> String>(
    items: &[T],
    write: F,
    Ghost(written): Ghost<spec_fn(T) -> Seq<char>>,
) -> (out: Vec<String>)
    requires
        forall|item: &T| #[trigger] write.requires((item,)),
        forall|item: &T, r: String| #[trigger] write.ensures((item,), r) ==> r@ == written(*item),
    ensures
        texts(out@) == items@.map_values(written),
{
    let mut out: Vec<String> = Vec::new();
    for i in 0..items.len()
        invariant
            forall|item: &T| #[trigger] write.requires((item,)),
            forall|item: &T, r: String| #[trigger]
                write.ensures((item,), r) ==> r@ == written(*item),
            out@.len() == i,
            forall|k: int| 0 <= k < i ==> (#[trigger] out@[k])@ == written(items@[k]),
    {
        out.push(write(&items[i]));
    }
    assert(texts(out@) =~= items@.map_values(written));
    out
}

/// Texts in a row.
pub open spec fn flat(parts: Seq<Seq<char>>) -> Seq<char>
    decreases parts.len(),
{
    if parts.len() == 0 {
        Seq::empty()
    } else {
        flat(parts.drop_last()) + parts.last()
    }
}

/// Puts texts in a row behind a text.
pub fn put_all(out: &mut String, parts: &Vec<String>)
    ensures
        final(out)@ == old(out)@ + flat(texts(parts@)),
{
    let ghost before = out@;
    assert(before + flat(texts(parts@.take(0))) =~= before);
    for i in 0..parts.len()
        invariant
            before == old(out)@,
            out@ == before + flat(texts(parts@.take(i as int))),
    {
        proof {
            let longer = texts(parts@.take(i + 1));
            assert(longer.drop_last() =~= texts(parts@.take(i as int)));
            assert(before + flat(longer) =~= out@ + parts@[i as int]@);
        }
        out.append(parts[i].as_str());
    }
    assert(parts@.take(parts@.len() as int) =~= parts@);
}

/// Four hexadecimal digits.
pub open spec fn four_hex(n: nat) -> Seq<char> {
    seq![
        hex_digit(n / 0x1000 % 0x10),
        hex_digit(n / 0x100 % 0x10),
        hex_digit(n / 0x10 % 0x10),
        hex_digit(n % 0x10),
    ]
}

/// Puts four hexadecimal digits behind a text.
pub fn put_four_hex(out: &mut String, n: u32)
    requires
        n <= 0xffff,
    ensures
        final(out)@ == old(out)@ + four_hex(n as nat),
{
    let ghost before = out@;
    out.push(hex_digit_char((n / 0x1000 % 0x10) as u8));
    out.push(hex_digit_char((n / 0x100 % 0x10) as u8));
    out.push(hex_digit_char((n / 0x10 % 0x10) as u8));
    out.push(hex_digit_char((n % 0x10) as u8));
    assert(out@ =~= before + four_hex(n as nat));
}

/// The text of a string that may be there, or no text.
pub open spec fn text_or_none(text: Option<Seq<char>>) -> Seq<char> {
    match text {
        Some(s) => s,
        None => Seq::empty(),
    }
}

/// The string that may be there, or an empty one.
pub fn or_empty(text: &Option<String>) -> (s: String)
    ensures
        s@ == text_or_none(optional(*text)),
{
    match text {
        Some(s) => s.clone(),
        None => String::new(),
    }
}

/// The parts of a text between the occurrences of a character.
pub open spec fn split(s: Seq<char>, at: char) -> Seq<Seq<char>>
    decreases s.len(),
{
    if s.len() == 0 {
        seq![Seq::empty()]
    } else if s.last() == at {
        split(s.drop_last(), at).push(Seq::empty())
    } else {
        let parts = split(s.drop_last(), at);
        parts.drop_last().push(parts.last().push(s.last()))
    }
}

/// The parts of a text between the occurrences of a character.
pub fn split_at(s: &str, at: char) -> (parts: Vec<String>)
    ensures
        texts(parts@) == split(s@, at),
{
    let chars = characters(s);
    let mut parts: Vec<String> = Vec::new();
    let mut current = String::new();
    assert(s@.take(0) =~= Seq::<char>::empty());
    assert(texts(parts@).push(current@) =~= split(s@.take(0), at));
    for i in 0..chars.len()
        invariant
            chars@ == s@,
            texts(parts@).push(current@) == split(s@.take(i as int), at),
    {
        let ghost before = texts(parts@).push(current@);
        assert(s@.take(i + 1).drop_last() =~= s@.take(i as int));
        assert(before.drop_last() =~= texts(parts@));
        let c: char = chars[i];
        if c == at {
            let ghost held = parts@;
            parts.push(current);
            assert(texts(parts@) =~= before);
            current = String::new();
        } else {
            current.push(c);
        }
        assert(texts(parts@).push(current@) =~= split(s@.take(i + 1), at));
    }
    assert(s@.take(s@.len() as int) =~= s@);
    let ghost before = texts(parts@).push(current@);
    parts.push(current);
    assert(texts(parts@) =~= before);
    parts
}

/// Joining the parts of a text with the character that they were split at gives the text back.
pub proof fn law_split_text_is_joined_back(s: Seq<char>, at: char)
    ensures
        split(s, at).len() >= 1,
        joined(split(s, at), seq![at]) == s,
    decreases s.len(),
{
    if s.len() == 0 {
        reveal_with_fuel(joined, 2);
        assert(joined(split(s, at), seq![at]) =~= s);
    } else {
        let parts = split(s.drop_last(), at);
        law_split_text_is_joined_back(s.drop_last(), at);
        if s.last() == at {
            assert(split(s, at).drop_last() =~= parts);
            assert(joined(split(s, at), seq![at]) =~= s);
        } else {
            let changed = split(s, at);
            assert(changed.drop_last() =~= parts.drop_last());
            assert(s =~= s.drop_last().push(s.last()));
            if parts.len() > 1 {
                let base = joined(parts.drop_last(), seq![at]) + seq![at];
                assert(base + parts.last().push(s.last()) =~= (base + parts.last()).push(s.last()));
            }
            assert(changed.last() == parts.last().push(s.last()));
        }
    }
}

/// Appends a number that may need more than sixty-four bits.
pub fn put_wide_number(out: &mut String, n: u128)
    ensures
        final(out)@ == old(out)@ + decimal(n as nat),
    decreases n,
{
    if n < 10 {
        out.push(digit_char(n as u8));
        assert(out@ =~= old(out)@ + decimal(n as nat));
    } else {
        put_wide_number(out, n / 10);
        out.push(digit_char((n % 10) as u8));
        assert(out@ =~= old(out)@ + decimal(n as nat));
    }
}

} // verus!
