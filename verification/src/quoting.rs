//! Text as it stands in JSON, CSV and Markdown.
use crate::text;
use vstd::prelude::*;

verus! {

/// A character in a JSON string of a snapshot: quotation marks, backslashes and the first thirty-two
/// characters are escaped.
pub open spec fn json_char(c: char) -> Seq<char> {
    if c == '"' {
        "\\\""@
    } else if c == '\\' {
        "\\\\"@
    } else if c == '\n' {
        "\\n"@
    } else if c == '\r' {
        "\\r"@
    } else if c == '\t' {
        "\\t"@
    } else if c as int == 0x8 {
        "\\b"@
    } else if c as int == 0xc {
        "\\f"@
    } else if c as int <= 0x1f {
        "\\u"@ + text::four_hex(c as nat)
    } else {
        seq![c]
    }
}

/// A character in a JSON string of a session: quotation marks, backslashes and control characters
/// are escaped.
pub open spec fn json_control_char(c: char) -> Seq<char> {
    if c == '"' {
        "\\\""@
    } else if c == '\\' {
        "\\\\"@
    } else if c == '\n' {
        "\\n"@
    } else if c == '\r' {
        "\\r"@
    } else if c == '\t' {
        "\\t"@
    } else if c as int <= 0x1f || 0x7f <= c as int <= 0x9f {
        "\\u"@ + text::four_hex(c as nat)
    } else {
        seq![c]
    }
}

/// A character in a quoted CSV field: quotation marks are doubled.
pub open spec fn csv_char(c: char) -> Seq<char> {
    if c == '"' {
        "\"\""@
    } else {
        seq![c]
    }
}

/// A character in a cell of a Markdown table.
pub open spec fn markdown_char(c: char) -> Seq<char> {
    if c == '|' {
        "\\|"@
    } else if c == '\n' {
        " "@
    } else {
        seq![c]
    }
}

/// What the characters of a text become, in a row.
pub open spec fn spelled(s: Seq<char>, spell: spec_fn(char) -> Seq<char>) -> Seq<char> {
    text::flat(s.map_values(spell))
}

/// The inside of a JSON string of a snapshot.
pub open spec fn json_escaped(s: Seq<char>) -> Seq<char> {
    spelled(s, |c: char| json_char(c))
}

/// The inside of a JSON string of a session.
pub open spec fn json_control_escaped(s: Seq<char>) -> Seq<char> {
    spelled(s, |c: char| json_control_char(c))
}

/// A JSON string of a snapshot.
pub open spec fn json_string(s: Seq<char>) -> Seq<char> {
    "\""@ + json_escaped(s) + "\""@
}

/// A JSON string of a snapshot, or `null`.
pub open spec fn json_optional(s: Option<Seq<char>>) -> Seq<char> {
    match s {
        Some(s) => json_string(s),
        None => "null"@,
    }
}

/// A JSON string of a session.
pub open spec fn json_control_string(s: Seq<char>) -> Seq<char> {
    "\""@ + json_control_escaped(s) + "\""@
}

/// A JSON string of a session, or `null`.
pub open spec fn json_control_optional(s: Option<Seq<char>>) -> Seq<char> {
    match s {
        Some(s) => json_control_string(s),
        None => "null"@,
    }
}

/// A quoted CSV field.
pub open spec fn csv_field(s: Seq<char>) -> Seq<char> {
    "\""@ + spelled(s, |c: char| csv_char(c)) + "\""@
}

/// A cell of a Markdown table.
pub open spec fn markdown_cell(s: Seq<char>) -> Seq<char> {
    spelled(s, |c: char| markdown_char(c))
}

/// One more character.
proof fn lemma_spelled_push(s: Seq<char>, i: int, spell: spec_fn(char) -> Seq<char>)
    requires
        0 <= i < s.len(),
    ensures
        spelled(s.take(i + 1), spell) == spelled(s.take(i), spell) + spell(s[i]),
{
    let parts = s.take(i + 1).map_values(spell);
    assert(parts.drop_last() =~= s.take(i).map_values(spell));
    assert(parts.last() == spell(s[i]));
}

/// Puts a JSON string of a snapshot behind a text.
pub fn put_json(out: &mut String, value: &str)
    ensures
        final(out)@ == old(out)@ + json_string(value@),
{
    let chars = text::characters(value);
    out.append("\"");
    let ghost before = out@;
    let ghost spell = |c: char| json_char(c);
    assert(before + spelled(chars@.take(0), spell) =~= before);
    for i in 0..chars.len()
        invariant
            spell == (|c: char| json_char(c)),
            out@ == before + spelled(chars@.take(i as int), spell),
    {
        let c: char = chars[i];
        proof {
            lemma_spelled_push(chars@, i as int, spell);
            assert(before + (spelled(chars@.take(i as int), spell) + json_char(c)) =~= out@
                + json_char(c));
        }
        let n: u32 = text::code_point(c);
        if c == '"' {
            out.append("\\\"");
        } else if c == '\\' {
            out.append("\\\\");
        } else if c == '\n' {
            out.append("\\n");
        } else if c == '\r' {
            out.append("\\r");
        } else if c == '\t' {
            out.append("\\t");
        } else if n == 0x8 {
            out.append("\\b");
        } else if n == 0xc {
            out.append("\\f");
        } else if n <= 0x1f {
            let ghost shown = out@;
            out.append("\\u");
            text::put_four_hex(out, n);
            assert(out@ =~= shown + ("\\u"@ + text::four_hex(n as nat)));
        } else {
            let ghost shown = out@;
            out.push(c);
            assert(out@ =~= shown + seq![c]);
        }
    }
    assert(chars@.take(chars@.len() as int) =~= chars@);
    out.append("\"");
    assert(out@ =~= old(out)@ + json_string(value@));
}

/// Puts a JSON string of a snapshot, or `null`, behind a text.
pub fn put_json_optional(out: &mut String, value: &Option<String>)
    ensures
        final(out)@ == old(out)@ + json_optional(text::optional(*value)),
{
    match value {
        Some(value) => put_json(out, value.as_str()),
        None => out.append("null"),
    }
}

/// Puts a JSON string of a session behind a text.
pub fn put_json_control(out: &mut String, value: &str)
    ensures
        final(out)@ == old(out)@ + json_control_string(value@),
{
    let chars = text::characters(value);
    out.append("\"");
    let ghost before = out@;
    let ghost spell = |c: char| json_control_char(c);
    assert(before + spelled(chars@.take(0), spell) =~= before);
    for i in 0..chars.len()
        invariant
            spell == (|c: char| json_control_char(c)),
            out@ == before + spelled(chars@.take(i as int), spell),
    {
        let c: char = chars[i];
        proof {
            lemma_spelled_push(chars@, i as int, spell);
            assert(before + (spelled(chars@.take(i as int), spell) + json_control_char(c)) =~= out@
                + json_control_char(c));
        }
        let n: u32 = text::code_point(c);
        if c == '"' {
            out.append("\\\"");
        } else if c == '\\' {
            out.append("\\\\");
        } else if c == '\n' {
            out.append("\\n");
        } else if c == '\r' {
            out.append("\\r");
        } else if c == '\t' {
            out.append("\\t");
        } else if n <= 0x1f || (0x7f <= n && n <= 0x9f) {
            let ghost shown = out@;
            out.append("\\u");
            text::put_four_hex(out, n);
            assert(out@ =~= shown + ("\\u"@ + text::four_hex(n as nat)));
        } else {
            let ghost shown = out@;
            out.push(c);
            assert(out@ =~= shown + seq![c]);
        }
    }
    assert(chars@.take(chars@.len() as int) =~= chars@);
    out.append("\"");
    assert(out@ =~= old(out)@ + json_control_string(value@));
}

/// Puts a JSON string of a session, or `null`, behind a text.
pub fn put_json_control_optional(out: &mut String, value: &Option<String>)
    ensures
        final(out)@ == old(out)@ + json_control_optional(text::optional(*value)),
{
    match value {
        Some(value) => put_json_control(out, value.as_str()),
        None => out.append("null"),
    }
}

/// Puts a quoted CSV field behind a text.
pub fn put_csv(out: &mut String, value: &str)
    ensures
        final(out)@ == old(out)@ + csv_field(value@),
{
    let chars = text::characters(value);
    out.append("\"");
    let ghost before = out@;
    let ghost spell = |c: char| csv_char(c);
    assert(before + spelled(chars@.take(0), spell) =~= before);
    for i in 0..chars.len()
        invariant
            spell == (|c: char| csv_char(c)),
            out@ == before + spelled(chars@.take(i as int), spell),
    {
        let c: char = chars[i];
        proof {
            lemma_spelled_push(chars@, i as int, spell);
            assert(before + (spelled(chars@.take(i as int), spell) + csv_char(c)) =~= out@
                + csv_char(c));
        }
        if c == '"' {
            out.append("\"\"");
        } else {
            let ghost shown = out@;
            out.push(c);
            assert(out@ =~= shown + seq![c]);
        }
    }
    assert(chars@.take(chars@.len() as int) =~= chars@);
    out.append("\"");
    assert(out@ =~= old(out)@ + csv_field(value@));
}

/// Puts a cell of a Markdown table behind a text.
pub fn put_markdown(out: &mut String, value: &str)
    ensures
        final(out)@ == old(out)@ + markdown_cell(value@),
{
    let chars = text::characters(value);
    let ghost before = out@;
    let ghost spell = |c: char| markdown_char(c);
    assert(before + spelled(chars@.take(0), spell) =~= before);
    for i in 0..chars.len()
        invariant
            spell == (|c: char| markdown_char(c)),
            out@ == before + spelled(chars@.take(i as int), spell),
    {
        let c: char = chars[i];
        proof {
            lemma_spelled_push(chars@, i as int, spell);
            assert(before + (spelled(chars@.take(i as int), spell) + markdown_char(c)) =~= out@
                + markdown_char(c));
        }
        if c == '|' {
            out.append("\\|");
        } else if c == '\n' {
            out.append(" ");
        } else {
            let ghost shown = out@;
            out.push(c);
            assert(out@ =~= shown + seq![c]);
        }
    }
    assert(chars@.take(chars@.len() as int) =~= chars@);
}

/// A row of quoted CSV fields.
pub open spec fn csv_row(fields: Seq<Seq<char>>) -> Seq<char> {
    text::joined(fields.map_values(|field: Seq<char>| csv_field(field)), ","@) + "\r\n"@
}

/// A row of quoted CSV fields.
pub fn write_csv_row(fields: &Vec<String>) -> (row: String)
    ensures
        row@ == csv_row(text::texts(fields@)),
{
    let write = |field: &String| -> (quoted: String)
        ensures
            quoted@ == csv_field(field@)
    {
        let mut quoted = String::new();
        put_csv(&mut quoted, field.as_str());
        assert(quoted@ =~= csv_field(field@));
        quoted
    };
    let quoted = text::each(
        fields.as_slice(),
        write,
        Ghost(|field: String| csv_field(field@)),
    );
    assert(text::texts(quoted@) =~= text::texts(fields@).map_values(
        |field: Seq<char>| csv_field(field),
    ));
    let mut row = text::join(quoted.as_slice(), ",");
    row.append("\r\n");
    row
}

/// Whether a character is a control character.
pub open spec fn is_control(c: char) -> bool {
    c as int <= 0x1f || 0x7f <= c as int <= 0x9f
}

/// No control character stands in a JSON string of a session, however the text reads.
pub proof fn law_session_json_has_no_raw_control(s: Seq<char>)
    ensures
        forall|i: int|
            0 <= i < json_control_escaped(s).len() ==> !is_control(
                #[trigger] json_control_escaped(s)[i],
            ),
    decreases s.len(),
{
    let spell = |c: char| json_control_char(c);
    if s.len() > 0 {
        let shorter = s.drop_last();
        law_session_json_has_no_raw_control(shorter);
        lemma_spelled_push(s, s.len() - 1, spell);
        assert(s.take(s.len() - 1) =~= shorter);
        assert(s.take(s.len() as int) =~= s);
        let c = s.last();
        reveal_strlit("\\\"");
        reveal_strlit("\\\\");
        reveal_strlit("\\n");
        reveal_strlit("\\r");
        reveal_strlit("\\t");
        reveal_strlit("\\u");
        assert forall|i: int| 0 <= i < json_control_char(c).len() implies !is_control(
            #[trigger] json_control_char(c)[i],
        ) by {}
        assert forall|i: int| 0 <= i < json_control_escaped(s).len() implies !is_control(
            #[trigger] json_control_escaped(s)[i],
        ) by {
            let n = json_control_escaped(shorter).len();
            if i < n {
                assert(json_control_escaped(s)[i] == json_control_escaped(shorter)[i]);
            } else {
                assert(json_control_escaped(s)[i] == json_control_char(c)[i - n]);
            }
        }
    }
}

/// No character under the thirty-second stands in a JSON string of a snapshot, however the text
/// reads.
pub proof fn law_json_has_no_raw_control(s: Seq<char>)
    ensures
        forall|i: int| 0 <= i < json_escaped(s).len() ==> (#[trigger] json_escaped(s)[i]) as int
            >= 0x20,
    decreases s.len(),
{
    let spell = |c: char| json_char(c);
    if s.len() > 0 {
        let shorter = s.drop_last();
        law_json_has_no_raw_control(shorter);
        lemma_spelled_push(s, s.len() - 1, spell);
        assert(s.take(s.len() - 1) =~= shorter);
        assert(s.take(s.len() as int) =~= s);
        let c = s.last();
        reveal_strlit("\\\"");
        reveal_strlit("\\\\");
        reveal_strlit("\\n");
        reveal_strlit("\\r");
        reveal_strlit("\\t");
        reveal_strlit("\\b");
        reveal_strlit("\\f");
        reveal_strlit("\\u");
        assert forall|i: int| 0 <= i < json_char(c).len() implies (
        #[trigger] json_char(c)[i]) as int >= 0x20 by {}
        assert forall|i: int| 0 <= i < json_escaped(s).len() implies (
        #[trigger] json_escaped(s)[i]) as int >= 0x20 by {
            let n = json_escaped(shorter).len();
            if i < n {
                assert(json_escaped(s)[i] == json_escaped(shorter)[i]);
            } else {
                assert(json_escaped(s)[i] == json_char(c)[i - n]);
            }
        }
    }
}

/// What a reader makes of the inside of a quoted CSV field: two quotation marks stand for one.
pub open spec fn csv_unquoted(s: Seq<char>) -> Seq<char>
    decreases s.len(),
{
    if s.len() == 0 {
        s
    } else if s.len() > 1 && s[0] == '"' && s[1] == '"' {
        seq!['"'] + csv_unquoted(s.skip(2))
    } else {
        seq![s[0]] + csv_unquoted(s.skip(1))
    }
}

/// Spelling a text is spelling its first character and then the rest.
pub proof fn lemma_spelled_first(s: Seq<char>, spell: spec_fn(char) -> Seq<char>)
    requires
        s.len() > 0,
    ensures
        spelled(s, spell) == spell(s[0]) + spelled(s.drop_first(), spell),
    decreases s.len(),
{
    let n = s.len() - 1;
    lemma_spelled_push(s, n, spell);
    assert(s.take(s.len() as int) =~= s);
    if n > 0 {
        let shorter = s.take(n);
        lemma_spelled_first(shorter, spell);
        let rest = s.drop_first();
        lemma_spelled_push(rest, n - 1, spell);
        assert(rest.take(n as int) =~= rest);
        assert(rest.take(n - 1) =~= shorter.drop_first());
        assert(spelled(s, spell) =~= spell(s[0]) + spelled(rest, spell));
    } else {
        assert(spelled(s.take(0), spell) =~= Seq::empty());
        assert(spelled(s.drop_first(), spell) =~= Seq::empty());
        assert(spelled(s, spell) =~= spell(s[0]) + spelled(s.drop_first(), spell));
    }
}

/// A quoted CSV field reads back as the text that it was made of.
pub proof fn law_csv_field_is_read_back(s: Seq<char>)
    ensures
        csv_unquoted(spelled(s, |c: char| csv_char(c))) == s,
    decreases s.len(),
{
    let spell = |c: char| csv_char(c);
    if s.len() == 0 {
        assert(spelled(s, spell) =~= Seq::empty());
        assert(s =~= Seq::empty());
    } else {
        lemma_spelled_first(s, spell);
        law_csv_field_is_read_back(s.drop_first());
        let rest = spelled(s.drop_first(), spell);
        let all = spelled(s, spell);
        reveal_strlit("\"\"");
        if s[0] == '"' {
            assert(all[0] == '"' && all[1] == '"');
            assert(all.skip(2) =~= rest);
        } else {
            assert(all[0] == s[0]);
            assert(all.skip(1) =~= rest);
        }
        assert(seq![s[0]] + s.drop_first() =~= s);
    }
}

/// The number of a hexadecimal digit.
pub open spec fn hex_value(c: char) -> Option<nat> {
    let n = c as int;
    if '0' as int <= n <= '9' as int {
        Some((n - '0' as int) as nat)
    } else if 'a' as int <= n <= 'f' as int {
        Some((n - 'a' as int + 10) as nat)
    } else if 'A' as int <= n <= 'F' as int {
        Some((n - 'A' as int + 10) as nat)
    } else {
        None
    }
}

/// The character that a reader of JSON finds at the start of a text, and how long its spelling is.
pub open spec fn json_first(t: Seq<char>) -> Option<(char, int)> {
    if t[0] != '\\' {
        Some((t[0], 1))
    } else if t.len() < 2 {
        None
    } else if t[1] == 'u' {
        if t.len() < 6 {
            None
        } else {
            match (hex_value(t[2]), hex_value(t[3]), hex_value(t[4]), hex_value(t[5])) {
                (Some(a), Some(b), Some(c), Some(d)) => Some(
                    ((a * 0x1000 + b * 0x100 + c * 0x10 + d) as char, 6),
                ),
                _ => None,
            }
        }
    } else if t[1] == '"' || t[1] == '\\' || t[1] == '/' {
        Some((t[1], 2))
    } else if t[1] == 'n' {
        Some(('\n', 2))
    } else if t[1] == 'r' {
        Some(('\r', 2))
    } else if t[1] == 't' {
        Some(('\t', 2))
    } else if t[1] == 'b' {
        Some((0x8 as char, 2))
    } else if t[1] == 'f' {
        Some((0xc as char, 2))
    } else {
        None
    }
}

/// What a reader makes of the inside of a JSON string, where it can be read.
pub open spec fn json_read(t: Seq<char>) -> Option<Seq<char>>
    decreases t.len(),
{
    if t.len() == 0 {
        Some(Seq::empty())
    } else {
        match json_first(t) {
            Some((c, length)) => if 1 <= length <= t.len() {
                match json_read(t.skip(length)) {
                    Some(rest) => Some(seq![c] + rest),
                    None => None,
                }
            } else {
                None
            },
            None => None,
        }
    }
}

proof fn lemma_hex_value(d: nat)
    requires
        d < 16,
    ensures
        hex_value(text::hex_digit(d)) == Some(d),
{
}

/// A character's spelling, with anything behind it, is read as the character.
pub proof fn lemma_json_first(c: char, spelling: Seq<char>, rest: Seq<char>)
    requires
        spelling == json_char(c) || spelling == json_control_char(c),
    ensures
        spelling.len() > 0,
        spelling[0] != '"',
        json_first(spelling + rest) == Some((c, spelling.len() as int)),
{
    reveal_strlit("\\\"");
    reveal_strlit("\\\\");
    reveal_strlit("\\n");
    reveal_strlit("\\r");
    reveal_strlit("\\t");
    reveal_strlit("\\b");
    reveal_strlit("\\f");
    reveal_strlit("\\u");
    let t = spelling + rest;
    let n = c as nat;
    if spelling.len() == 6 {
        assert(n <= 0x9f);
        lemma_hex_value(n / 0x1000 % 0x10);
        lemma_hex_value(n / 0x100 % 0x10);
        lemma_hex_value(n / 0x10 % 0x10);
        lemma_hex_value(n % 0x10);
        assert(t[2] == text::four_hex(n)[0]);
        assert(t[3] == text::four_hex(n)[1]);
        assert(t[4] == text::four_hex(n)[2]);
        assert(t[5] == text::four_hex(n)[3]);
    } else {
        assert(t[0] == spelling[0]);
    }
}

proof fn lemma_json_read(s: Seq<char>, spell: spec_fn(char) -> Seq<char>)
    requires
        forall|c: char|
            #![trigger spell(c)]
            spell(c) == json_char(c) || spell(c) == json_control_char(c),
    ensures
        json_read(spelled(s, spell)) == Some(s),
    decreases s.len(),
{
    if s.len() == 0 {
        assert(spelled(s, spell) =~= Seq::empty());
        assert(s =~= Seq::empty());
    } else {
        lemma_spelled_first(s, spell);
        lemma_json_read(s.drop_first(), spell);
        let rest = spelled(s.drop_first(), spell);
        let spelling = spell(s[0]);
        lemma_json_first(s[0], spelling, rest);
        assert((spelling + rest).skip(spelling.len() as int) =~= rest);
        assert(seq![s[0]] + s.drop_first() =~= s);
    }
}

/// A JSON string reads back as the text that it was made of, in a snapshot and in a session.
pub proof fn law_json_string_is_read_back(s: Seq<char>)
    ensures
        json_read(json_escaped(s)) == Some(s),
        json_read(json_control_escaped(s)) == Some(s),
{
    lemma_json_read(s, |c: char| json_char(c));
    lemma_json_read(s, |c: char| json_control_char(c));
}

/// What a reader of CSV finds inside a quoted field, and what stands behind the closing mark.
pub open spec fn csv_read(t: Seq<char>) -> (Seq<char>, Seq<char>)
    decreases t.len(),
{
    if t.len() == 0 {
        (Seq::empty(), Seq::empty())
    } else if t[0] != '"' {
        let (field, rest) = csv_read(t.skip(1));
        (seq![t[0]] + field, rest)
    } else if t.len() > 1 && t[1] == '"' {
        let (field, rest) = csv_read(t.skip(2));
        (seq!['"'] + field, rest)
    } else {
        (Seq::empty(), t.skip(1))
    }
}

/// The fields that a reader of CSV finds in a row, where it is one.
pub open spec fn csv_read_row(t: Seq<char>) -> Option<Seq<Seq<char>>>
    decreases t.len(),
{
    if t.len() == 0 || t[0] != '"' {
        None
    } else {
        let (field, rest) = csv_read(t.skip(1));
        if rest == "\r\n"@ {
            Some(seq![field])
        } else if 0 < rest.len() <= t.len() && rest[0] == ',' {
            match csv_read_row(rest.skip(1)) {
                Some(fields) => Some(seq![field] + fields),
                None => None,
            }
        } else {
            None
        }
    }
}

pub proof fn lemma_csv_read(s: Seq<char>, rest: Seq<char>)
    requires
        rest.len() > 0,
        rest[0] != '"',
    ensures
        csv_read(spelled(s, |c: char| csv_char(c)) + seq!['"'] + rest) == (s, rest),
    decreases s.len(),
{
    let spell = |c: char| csv_char(c);
    let t = spelled(s, spell) + seq!['"'] + rest;
    if s.len() == 0 {
        assert(spelled(s, spell) =~= Seq::empty());
        assert(t[1] == rest[0]);
        assert(t.skip(1) =~= rest);
        assert(s =~= Seq::empty());
    } else {
        lemma_spelled_first(s, spell);
        lemma_csv_read(s.drop_first(), rest);
        let after = spelled(s.drop_first(), spell) + seq!['"'] + rest;
        reveal_strlit("\"\"");
        assert(seq![s[0]] + s.drop_first() =~= s);
        if s[0] == '"' {
            assert(t[0] == '"' && t[1] == '"');
            assert(t.skip(2) =~= after);
        } else {
            assert(t[0] == s[0]);
            assert(t.skip(1) =~= after);
        }
    }
}

pub proof fn lemma_joined_first(parts: Seq<Seq<char>>, separator: Seq<char>)
    requires
        parts.len() > 1,
    ensures
        text::joined(parts, separator) == parts[0] + separator + text::joined(
            parts.drop_first(),
            separator,
        ),
    decreases parts.len(),
{
    let rest = parts.drop_first();
    reveal_with_fuel(text::joined, 2);
    if parts.len() == 2 {
        assert(text::joined(parts, separator) =~= parts[0] + separator + text::joined(
            rest,
            separator,
        ));
    } else {
        lemma_joined_first(parts.drop_last(), separator);
        assert(parts.drop_last().drop_first() =~= rest.drop_last());
        assert(text::joined(parts, separator) =~= parts[0] + separator + text::joined(
            rest,
            separator,
        ));
    }
}

/// A row of CSV reads back as the fields that it was made of.
pub proof fn law_csv_row_is_read_back(fields: Seq<Seq<char>>)
    requires
        fields.len() > 0,
    ensures
        csv_read_row(csv_row(fields)) == Some(fields),
    decreases fields.len(),
{
    reveal_strlit("\"");
    reveal_strlit(",");
    reveal_strlit("\r\n");
    let quote = |field: Seq<char>| csv_field(field);
    let quoted = fields.map_values(quote);
    let row = csv_row(fields);
    let inside = spelled(fields[0], |c: char| csv_char(c));
    assert(csv_field(fields[0]) =~= seq!['"'] + inside + seq!['"']);
    if fields.len() == 1 {
        assert(row.skip(1) =~= inside + seq!['"'] + "\r\n"@);
        lemma_csv_read(fields[0], "\r\n"@);
        assert(fields =~= seq![fields[0]]);
    } else {
        let others = fields.drop_first();
        law_csv_row_is_read_back(others);
        lemma_joined_first(quoted, ","@);
        assert(quoted.drop_first() =~= others.map_values(quote));
        let rest = ","@ + csv_row(others);
        assert(row.skip(1) =~= inside + seq!['"'] + rest);
        lemma_csv_read(fields[0], rest);
        assert(rest != "\r\n"@) by {
            assert(rest[0] == ',');
        }
        assert(rest.skip(1) =~= csv_row(others));
        assert(fields =~= seq![fields[0]] + others);
    }
}

/// A cell of a report keeps its characters, but for a bar, which is marked, and the end of a line,
/// which becomes a space.
pub proof fn law_cells_keep_their_characters(c: char)
    ensures
        c != '|' && c != '\n' ==> markdown_char(c) == seq![c],
        markdown_char('|') == seq!['\\', '|'],
        markdown_char('\n') == seq![' '],
{
    reveal_strlit("\\|");
    reveal_strlit(" ");
    assert(markdown_char('|') =~= seq!['\\', '|']);
    assert(markdown_char('\n') =~= seq![' ']);
}

} // verus!
