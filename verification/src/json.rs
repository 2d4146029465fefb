//! Reading JSON: what a text says, as any reader of the format finds it.
use crate::quoting;
use crate::text;
use vstd::prelude::*;

verus! {

/// A value of JSON. The members of an object stand in the order of the text.
pub enum Json {
    Null,
    Truth(bool),
    Number(int),
    Text(Seq<char>),
    List(Seq<Json>),
    Object(Seq<(Seq<char>, Json)>),
}

/// Whether a character is white space between the parts of a text.
pub open spec fn is_white(c: char) -> bool {
    c == ' ' || c == '\n' || c == '\r' || c == '\t'
}

/// A text without the white space that it starts with.
pub open spec fn unspaced(t: Seq<char>) -> Seq<char>
    decreases t.len(),
{
    if t.len() > 0 && is_white(t[0]) {
        unspaced(t.drop_first())
    } else {
        t
    }
}

/// The number that the digits at the start of a text spell, behind digits that spelled `n`; and
/// what stands behind them.
pub open spec fn read_digits(t: Seq<char>, n: nat) -> (nat, Seq<char>)
    decreases t.len(),
{
    if t.len() > 0 && '0' <= t[0] <= '9' {
        read_digits(t.drop_first(), (n * 10 + (t[0] as int - '0' as int)) as nat)
    } else {
        (n, t)
    }
}

/// The text up to a closing quotation mark, and what stands behind the mark.
pub open spec fn read_text(t: Seq<char>) -> Option<(Seq<char>, Seq<char>)>
    decreases t.len(),
{
    if t.len() == 0 {
        None
    } else if t[0] == '"' {
        Some((Seq::empty(), t.drop_first()))
    } else {
        match quoting::json_first(t) {
            Some((c, length)) => if 1 <= length <= t.len() {
                match read_text(t.skip(length)) {
                    Some((more, rest)) => Some((seq![c] + more, rest)),
                    None => None,
                }
            } else {
                None
            },
            None => None,
        }
    }
}

/// Whether a text starts with a word.
pub open spec fn starts(t: Seq<char>, word: Seq<char>) -> bool {
    t.len() >= word.len() && t.take(word.len() as int) == word
}

/// The value at the start of a text, and what stands behind it.
pub open spec fn read_value(t: Seq<char>) -> Option<(Json, Seq<char>)>
    decreases t.len(), 0nat,
{
    let u = unspaced(t);
    if u.len() == 0 || u.len() > t.len() {
        None
    } else if u[0] == '{' {
        let inside = unspaced(u.drop_first());
        if inside.len() > 0 && inside[0] == '}' {
            Some((Json::Object(Seq::empty()), inside.drop_first()))
        } else {
            match read_members(u.drop_first()) {
                Some((members, rest)) => Some((Json::Object(members), rest)),
                None => None,
            }
        }
    } else if u[0] == '[' {
        let inside = unspaced(u.drop_first());
        if inside.len() > 0 && inside[0] == ']' {
            Some((Json::List(Seq::empty()), inside.drop_first()))
        } else {
            match read_items(u.drop_first()) {
                Some((items, rest)) => Some((Json::List(items), rest)),
                None => None,
            }
        }
    } else if u[0] == '"' {
        match read_text(u.drop_first()) {
            Some((text, rest)) => Some((Json::Text(text), rest)),
            None => None,
        }
    } else if '0' <= u[0] <= '9' {
        let (n, rest) = read_digits(u, 0);
        Some((Json::Number(n as int), rest))
    } else if u[0] == '-' && u.len() > 1 && '0' <= u[1] <= '9' {
        let (n, rest) = read_digits(u.drop_first(), 0);
        Some((Json::Number(-(n as int)), rest))
    } else if starts(u, seq!['n', 'u', 'l', 'l']) {
        Some((Json::Null, u.skip(4)))
    } else if starts(u, seq!['t', 'r', 'u', 'e']) {
        Some((Json::Truth(true), u.skip(4)))
    } else if starts(u, seq!['f', 'a', 'l', 's', 'e']) {
        Some((Json::Truth(false), u.skip(5)))
    } else {
        None
    }
}

/// The members of an object from a key on, and what stands behind the object.
pub open spec fn read_members(t: Seq<char>) -> Option<(Seq<(Seq<char>, Json)>, Seq<char>)>
    decreases t.len(), 1nat,
{
    let u = unspaced(t);
    if u.len() == 0 || u[0] != '"' {
        None
    } else {
        match read_text(u.drop_first()) {
            Some((key, behind)) => {
                let v = unspaced(behind);
                if v.len() == 0 || v.len() > t.len() || v[0] != ':' {
                    None
                } else {
                    match read_value(v.drop_first()) {
                        Some((value, rest)) => if rest.len() < t.len() {
                            match read_more_members(rest) {
                                Some((more, last)) => Some((seq![(key, value)] + more, last)),
                                None => None,
                            }
                        } else {
                            None
                        },
                        None => None,
                    }
                }
            },
            None => None,
        }
    }
}

/// The members of an object behind one of them, and what stands behind the object.
pub open spec fn read_more_members(t: Seq<char>) -> Option<(Seq<(Seq<char>, Json)>, Seq<char>)>
    decreases t.len(), 0nat,
{
    let u = unspaced(t);
    if u.len() == 0 || u.len() > t.len() {
        None
    } else if u[0] == '}' {
        Some((Seq::empty(), u.drop_first()))
    } else if u[0] == ',' {
        read_members(u.drop_first())
    } else {
        None
    }
}

/// The items of a list, and what stands behind the list.
pub open spec fn read_items(t: Seq<char>) -> Option<(Seq<Json>, Seq<char>)>
    decreases t.len(), 1nat,
{
    match read_value(t) {
        Some((value, rest)) => if rest.len() < t.len() {
            match read_more_items(rest) {
                Some((more, last)) => Some((seq![value] + more, last)),
                None => None,
            }
        } else {
            None
        },
        None => None,
    }
}

/// The items of a list behind one of them, and what stands behind the list.
pub open spec fn read_more_items(t: Seq<char>) -> Option<(Seq<Json>, Seq<char>)>
    decreases t.len(), 0nat,
{
    let u = unspaced(t);
    if u.len() == 0 || u.len() > t.len() {
        None
    } else if u[0] == ']' {
        Some((Seq::empty(), u.drop_first()))
    } else if u[0] == ',' {
        read_items(u.drop_first())
    } else {
        None
    }
}

/// The value that a text is of, if it is of one.
pub open spec fn read(t: Seq<char>) -> Option<Json> {
    match read_value(t) {
        Some((value, rest)) => if unspaced(rest).len() == 0 {
            Some(value)
        } else {
            None
        },
        None => None,
    }
}

/// Whether all of a text is white space.
pub open spec fn all_white(t: Seq<char>) -> bool {
    forall|i: int| 0 <= i < t.len() ==> is_white(#[trigger] t[i])
}

/// Whether a text stands between quotation marks as it is.
pub open spec fn plain(t: Seq<char>) -> bool {
    forall|i: int| 0 <= i < t.len() ==> (#[trigger] t[i]) != '"' && t[i] != '\\'
}

/// Whether a character may stand behind a value.
pub open spec fn ends(c: char) -> bool {
    c == ',' || c == '}' || c == ']' || is_white(c)
}

/// Whether a text is read as a value, whatever stands behind it.
#[verifier::opaque]
pub open spec fn reads_as(t: Seq<char>, value: Json) -> bool {
    &&& t.len() > 0
    &&& forall|rest: Seq<char>|
        rest.len() == 0 || ends(rest[0]) ==> #[trigger] read_value(t + rest) == Some((value, rest))
}

/// Whether a text is read as the end of an object with these members, whatever stands behind it.
#[verifier::opaque]
pub open spec fn ends_object(t: Seq<char>, members: Seq<(Seq<char>, Json)>) -> bool {
    &&& t.len() > 0 && ends(t[0])
    &&& forall|rest: Seq<char>| #[trigger] read_more_members(t + rest) == Some((members, rest))
}

/// Whether a text is read as the end of a list with these items, whatever stands behind it.
#[verifier::opaque]
pub open spec fn ends_list(t: Seq<char>, items: Seq<Json>) -> bool {
    &&& t.len() > 0 && ends(t[0])
    &&& forall|rest: Seq<char>| #[trigger] read_more_items(t + rest) == Some((items, rest))
}

/// A key with its marks and its colon, with white space before and behind.
pub open spec fn label(lead: Seq<char>, key: Seq<char>, gap: Seq<char>) -> Seq<char> {
    lead + seq!['"'] + key + seq!['"', ':'] + gap
}

/// Whether a text is a comma and the label of a key.
#[verifier::opaque]
pub open spec fn is_label(text: Seq<char>, key: Seq<char>) -> bool {
    plain(key) && exists|lead: Seq<char>, gap: Seq<char>|
        all_white(lead) && all_white(gap) && text == seq![','] + #[trigger] label(lead, key, gap)
}

/// Whether a text opens an object with the label of a key.
#[verifier::opaque]
pub open spec fn is_opening(text: Seq<char>, key: Seq<char>) -> bool {
    plain(key) && exists|outer: Seq<char>, lead: Seq<char>, gap: Seq<char>|
        all_white(outer) && all_white(lead) && all_white(gap) && text == (#[trigger] (outer
            + seq!['{'])) + #[trigger] label(lead, key, gap)
}

pub proof fn lemma_label(text: Seq<char>, lead: Seq<char>, key: Seq<char>, gap: Seq<char>)
    requires
        text =~= seq![','] + label(lead, key, gap),
        all_white(lead),
        plain(key),
        all_white(gap),
    ensures
        is_label(text, key),
{
    reveal(is_label);
}

pub proof fn lemma_opening(
    text: Seq<char>,
    outer: Seq<char>,
    lead: Seq<char>,
    key: Seq<char>,
    gap: Seq<char>,
)
    requires
        text =~= outer + seq!['{'] + label(lead, key, gap),
        all_white(outer),
        all_white(lead),
        plain(key),
        all_white(gap),
    ensures
        is_opening(text, key),
{
    reveal(is_opening);
}

/// Texts are put together in one order, however they are grouped.
pub broadcast proof fn lemma_grouping(a: Seq<char>, b: Seq<char>, c: Seq<char>)
    ensures
        #[trigger] ((a + b) + c) == a + (b + c),
{
    assert((a + b) + c =~= a + (b + c));
}

pub proof fn lemma_unspaced(lead: Seq<char>, t: Seq<char>)
    requires
        all_white(lead),
        t.len() == 0 || !is_white(t[0]),
    ensures
        unspaced(lead + t) == t,
    decreases lead.len(),
{
    if lead.len() == 0 {
        assert(lead + t =~= t);
    } else {
        assert(is_white(lead[0]));
        assert((lead + t).drop_first() =~= lead.drop_first() + t);
        assert forall|i: int| 0 <= i < lead.drop_first().len() implies is_white(
            #[trigger] lead.drop_first()[i],
        ) by {
            assert(is_white(lead[i + 1]));
        }
        lemma_unspaced(lead.drop_first(), t);
    }
}

/// White space before white space is left out together with it.
pub proof fn lemma_unspaced_twice(lead: Seq<char>, t: Seq<char>)
    requires
        all_white(lead),
    ensures
        unspaced(lead + t) == unspaced(t),
    decreases lead.len(),
{
    if lead.len() == 0 {
        assert(lead + t =~= t);
    } else {
        assert(is_white(lead[0]));
        assert((lead + t).drop_first() =~= lead.drop_first() + t);
        assert forall|i: int| 0 <= i < lead.drop_first().len() implies is_white(
            #[trigger] lead.drop_first()[i],
        ) by {
            assert(is_white(lead[i + 1]));
        }
        lemma_unspaced_twice(lead.drop_first(), t);
    }
}

/// Leaving out white space makes no text longer.
pub proof fn lemma_unspaced_length(t: Seq<char>)
    ensures
        unspaced(t).len() <= t.len(),
    decreases t.len(),
{
    if t.len() > 0 && is_white(t[0]) {
        lemma_unspaced_length(t.drop_first());
    }
}

/// The digits of a number are read as it.
proof fn lemma_digits(n: nat, rest: Seq<char>)
    ensures
        read_digits(text::decimal(n) + rest, 0) == read_digits(rest, n),
        text::decimal(n).len() > 0,
        '0' <= text::decimal(n)[0] <= '9',
    decreases n,
{
    let t = text::decimal(n) + rest;
    if n < 10 {
        assert(t.drop_first() =~= rest);
        assert(t[0] == text::digit(n));
    } else {
        let shorter = text::decimal(n / 10);
        let last = seq![text::digit(n % 10)] + rest;
        lemma_digits(n / 10, last);
        assert(t =~= shorter + last);
        assert(last.drop_first() =~= rest);
        assert(last[0] == text::digit(n % 10));
        assert(text::decimal(n)[0] == shorter[0]);
    }
}

/// A number is read back.
pub proof fn lemma_number(n: nat)
    ensures
        reads_as(text::decimal(n), Json::Number(n as int)),
{
    reveal(reads_as);
    lemma_digits(n, Seq::empty());
    assert forall|rest: Seq<char>| rest.len() == 0 || ends(rest[0]) implies #[trigger] read_value(
        text::decimal(n) + rest,
    ) == Some((Json::Number(n as int), rest)) by {
        lemma_digits(n, rest);
        let t = text::decimal(n) + rest;
        assert(t[0] == text::decimal(n)[0]);
        lemma_unspaced(Seq::empty(), t);
        assert(Seq::<char>::empty() + t =~= t);
    }
}

/// A number with a sign is read back.
pub proof fn lemma_signed_number(n: int)
    ensures
        reads_as(text::signed_decimal(n), Json::Number(n)),
{
    reveal(reads_as);
    if n >= 0 {
        lemma_number(n as nat);
    } else {
        reveal_strlit("-");
        let m = (-n) as nat;
        lemma_digits(m, Seq::empty());
        assert forall|rest: Seq<char>|
            rest.len() == 0 || ends(rest[0]) implies #[trigger] read_value(
            text::signed_decimal(n) + rest,
        ) == Some((Json::Number(n), rest)) by {
            lemma_digits(m, rest);
            let t = text::signed_decimal(n) + rest;
            assert(t[0] == '-');
            assert(t.drop_first() =~= text::decimal(m) + rest);
            assert(t[1] == text::decimal(m)[0]);
            assert(unspaced(t) == t);
        }
    }
}

/// The word for no value is read as it.
pub proof fn lemma_null()
    ensures
        reads_as("null"@, Json::Null),
{
    reveal(reads_as);
    reveal_strlit("null");
    assert forall|rest: Seq<char>| rest.len() == 0 || ends(rest[0]) implies #[trigger] read_value(
        "null"@ + rest,
    ) == Some((Json::Null, rest)) by {
        let t = "null"@ + rest;
        assert(t.take(4) =~= seq!['n', 'u', 'l', 'l']);
        assert(t.skip(4) =~= rest);
        assert(unspaced(t) == t);
    }
}

/// The words for yes and no are read as them.
pub proof fn lemma_truth()
    ensures
        reads_as("true"@, Json::Truth(true)),
        reads_as("false"@, Json::Truth(false)),
{
    reveal(reads_as);
    reveal_strlit("true");
    reveal_strlit("false");
    assert forall|rest: Seq<char>| rest.len() == 0 || ends(rest[0]) implies #[trigger] read_value(
        "true"@ + rest,
    ) == Some((Json::Truth(true), rest)) by {
        let t = "true"@ + rest;
        assert(t.take(4) =~= seq!['t', 'r', 'u', 'e']);
        assert(t.take(4)[0] == 't');
        assert(!starts(t, seq!['n', 'u', 'l', 'l'])) by {
            if starts(t, seq!['n', 'u', 'l', 'l']) {
                assert(t.take(4)[0] == 'n');
            }
        }
        assert(t.skip(4) =~= rest);
        assert(unspaced(t) == t);
    }
    assert forall|rest: Seq<char>| rest.len() == 0 || ends(rest[0]) implies #[trigger] read_value(
        "false"@ + rest,
    ) == Some((Json::Truth(false), rest)) by {
        let t = "false"@ + rest;
        assert(t.take(5) =~= seq!['f', 'a', 'l', 's', 'e']);
        assert(t.take(4)[0] == 'f');
        assert(!starts(t, seq!['n', 'u', 'l', 'l'])) by {
            if starts(t, seq!['n', 'u', 'l', 'l']) {
                assert(t.take(4)[0] == 'n');
            }
        }
        assert(!starts(t, seq!['t', 'r', 'u', 'e'])) by {
            if starts(t, seq!['t', 'r', 'u', 'e']) {
                assert(t.take(4)[0] == 't');
            }
        }
        assert(t.skip(5) =~= rest);
        assert(unspaced(t) == t);
    }
}

/// What is spelled between quotation marks is read back.
proof fn lemma_spelled_text(s: Seq<char>, spell: spec_fn(char) -> Seq<char>, rest: Seq<char>)
    requires
        forall|c: char|
            #![trigger spell(c)]
            spell(c) == quoting::json_char(c) || spell(c) == quoting::json_control_char(c),
    ensures
        read_text(quoting::spelled(s, spell) + (seq!['"'] + rest)) == Some((s, rest)),
    decreases s.len(),
{
    let t = quoting::spelled(s, spell) + (seq!['"'] + rest);
    if s.len() == 0 {
        assert(quoting::spelled(s, spell) =~= Seq::empty());
        assert(t[0] == '"');
        assert(t.drop_first() =~= rest);
        assert(s =~= Seq::empty());
    } else {
        quoting::lemma_spelled_first(s, spell);
        lemma_spelled_text(s.drop_first(), spell, rest);
        let spelling = spell(s[0]);
        let after = quoting::spelled(s.drop_first(), spell) + (seq!['"'] + rest);
        quoting::lemma_json_first(s[0], spelling, after);
        assert(t =~= spelling + after);
        assert(t[0] == spelling[0]);
        assert(t.skip(spelling.len() as int) =~= after);
        assert(seq![s[0]] + s.drop_first() =~= s);
    }
}

/// A plain text between quotation marks is read as it stands.
proof fn lemma_plain_text(s: Seq<char>, rest: Seq<char>)
    requires
        plain(s),
    ensures
        read_text(s + (seq!['"'] + rest)) == Some((s, rest)),
    decreases s.len(),
{
    let t = s + (seq!['"'] + rest);
    if s.len() == 0 {
        assert(t[0] == '"');
        assert(t.drop_first() =~= rest);
        assert(s =~= Seq::empty());
    } else {
        let s1 = s.drop_first();
        assert forall|i: int| 0 <= i < s1.len() implies (#[trigger] s1[i]) != '"' && s1[i]
            != '\\' by {
            assert(s[i + 1] != '"');
        }
        lemma_plain_text(s1, rest);
        assert(t[0] == s[0]);
        assert(t.skip(1) =~= s1 + (seq!['"'] + rest));
        assert(seq![s[0]] + s1 =~= s);
    }
}

/// A value in quotation marks is read as what stands between them.
proof fn lemma_quoted(inside: Seq<char>, s: Seq<char>)
    requires
        forall|rest: Seq<char>|
            #![trigger inside + (seq!['"'] + rest)]
            read_text(inside + (seq!['"'] + rest)) == Some((s, rest)),
    ensures
        reads_as("\""@ + inside + "\""@, Json::Text(s)),
{
    reveal(reads_as);
    reveal_strlit("\"");
    let quoted = "\""@ + inside + "\""@;
    assert forall|rest: Seq<char>| rest.len() == 0 || ends(rest[0]) implies #[trigger] read_value(
        quoted + rest,
    ) == Some((Json::Text(s), rest)) by {
        let t = quoted + rest;
        assert(t[0] == '"');
        assert(t.drop_first() =~= inside + (seq!['"'] + rest));
        assert(unspaced(t) == t);
    }
}

/// A text is read back from either spelling.
pub proof fn lemma_text(s: Seq<char>)
    ensures
        reads_as(quoting::json_string(s), Json::Text(s)),
        reads_as(quoting::json_control_string(s), Json::Text(s)),
{
    let spell = |c: char| quoting::json_char(c);
    let spell_control = |c: char| quoting::json_control_char(c);
    assert forall|rest: Seq<char>|
        #![trigger quoting::json_escaped(s) + (seq!['"'] + rest)]
        read_text(quoting::json_escaped(s) + (seq!['"'] + rest)) == Some((s, rest)) by {
        lemma_spelled_text(s, spell, rest);
    }
    assert forall|rest: Seq<char>|
        #![trigger quoting::json_control_escaped(s) + (seq!['"'] + rest)]
        read_text(quoting::json_control_escaped(s) + (seq!['"'] + rest)) == Some((s, rest)) by {
        lemma_spelled_text(s, spell_control, rest);
    }
    lemma_quoted(quoting::json_escaped(s), s);
    lemma_quoted(quoting::json_control_escaped(s), s);
}

/// The value of a text that may be there.
pub open spec fn text_or_null(s: Option<Seq<char>>) -> Json {
    match s {
        Some(s) => Json::Text(s),
        None => Json::Null,
    }
}

/// A text that may be there is read back from either spelling.
pub proof fn lemma_optional_text(s: Option<Seq<char>>)
    ensures
        reads_as(quoting::json_optional(s), text_or_null(s)),
        reads_as(quoting::json_control_optional(s), text_or_null(s)),
{
    lemma_null();
    if let Some(s) = s {
        lemma_text(s);
    }
}

/// A plain text between quotation marks is read back.
pub proof fn lemma_plain(s: Seq<char>)
    requires
        plain(s),
    ensures
        reads_as("\""@ + s + "\""@, Json::Text(s)),
{
    assert forall|rest: Seq<char>|
        #![trigger s + (seq!['"'] + rest)]
        read_text(s + (seq!['"'] + rest)) == Some((s, rest)) by {
        lemma_plain_text(s, rest);
    }
    lemma_quoted(s, s);
}

/// A value with the end of a line behind it is the value of the text.
pub proof fn lemma_read(t: Seq<char>, value: Json)
    requires
        reads_as(t, value),
    ensures
        read(t + "\n"@) == Some(value),
{
    reveal(reads_as);
    reveal_strlit("\n");
    assert(read_value(t + "\n"@) == Some((value, "\n"@)));
    lemma_unspaced("\n"@, Seq::empty());
    assert("\n"@ + Seq::empty() =~= "\n"@);
}

/// White space before a value changes nothing.
pub proof fn lemma_spaced(lead: Seq<char>, t: Seq<char>, value: Json)
    requires
        all_white(lead),
        reads_as(t, value),
    ensures
        reads_as(lead + t, value),
{
    reveal(reads_as);
    assert forall|rest: Seq<char>| rest.len() == 0 || ends(rest[0]) implies #[trigger] read_value(
        (lead + t) + rest,
    ) == Some((value, rest)) by {
        lemma_grouping(lead, t, rest);
        lemma_unspaced_twice(lead, t + rest);
        lemma_unspaced_length(t + rest);
        assert(read_value(t + rest) == Some((value, rest)));
    }
}

/// An object ends with its closing mark.
pub proof fn lemma_object_ends(tail: Seq<char>)
    requires
        all_white(tail),
    ensures
        ends_object(tail + seq!['}'], Seq::empty()),
{
    reveal(ends_object);
    let t = tail + seq!['}'];
    assert forall|rest: Seq<char>| #[trigger] read_more_members(t + rest) == Some(
        (Seq::<(Seq<char>, Json)>::empty(), rest),
    ) by {
        lemma_unspaced(tail, seq!['}'] + rest);
        assert(t + rest =~= tail + (seq!['}'] + rest));
        assert((seq!['}'] + rest).drop_first() =~= rest);
    }
    assert(tail.len() > 0 ==> t[0] == tail[0]);
}

/// A list ends with its closing mark.
pub proof fn lemma_list_ends(tail: Seq<char>)
    requires
        all_white(tail),
    ensures
        ends_list(tail + seq![']'], Seq::empty()),
{
    reveal(ends_list);
    let t = tail + seq![']'];
    assert forall|rest: Seq<char>| #[trigger] read_more_items(t + rest) == Some(
        (Seq::<Json>::empty(), rest),
    ) by {
        lemma_unspaced(tail, seq![']'] + rest);
        assert(t + rest =~= tail + (seq![']'] + rest));
        assert((seq![']'] + rest).drop_first() =~= rest);
    }
    assert(tail.len() > 0 ==> t[0] == tail[0]);
}

/// A labelled value and the end of an object are read as the members that they are.
proof fn lemma_labelled(
    lead: Seq<char>,
    key: Seq<char>,
    gap: Seq<char>,
    word: Seq<char>,
    value: Json,
    next: Seq<char>,
    members: Seq<(Seq<char>, Json)>,
    rest: Seq<char>,
)
    requires
        all_white(lead),
        plain(key),
        all_white(gap),
        reads_as(word, value),
        ends_object(next, members),
    ensures
        read_members(label(lead, key, gap) + (word + (next + rest))) == Some(
            (seq![(key, value)] + members, rest),
        ),
        unspaced(label(lead, key, gap) + (word + (next + rest)))[0] == '"',
        unspaced(label(lead, key, gap) + (word + (next + rest))).len() > 0,
{
    reveal(reads_as);
    reveal(ends_object);
    let t = label(lead, key, gap) + (word + (next + rest));
    let behind = seq![':'] + (gap + (word + (next + rest)));
    let u = seq!['"'] + (key + (seq!['"'] + behind));
    assert(t =~= lead + u);
    lemma_unspaced(lead, u);
    assert(u.drop_first() =~= key + (seq!['"'] + behind));
    lemma_plain_text(key, behind);
    assert(unspaced(behind) == behind);
    assert(behind.drop_first() =~= (gap + word) + (next + rest));
    lemma_spaced(gap, word, value);
    assert((next + rest)[0] == next[0]);
    assert(read_value((gap + word) + (next + rest)) == Some((value, next + rest)));
    assert(read_more_members(next + rest) == Some((members, rest)));
}

/// A comma, a labelled value and the end of an object are the end of an object with one member
/// more.
pub proof fn lemma_member(
    text: Seq<char>,
    key: Seq<char>,
    word: Seq<char>,
    value: Json,
    next: Seq<char>,
    members: Seq<(Seq<char>, Json)>,
)
    requires
        is_label(text, key),
        reads_as(word, value),
        ends_object(next, members),
    ensures
        ends_object(text + (word + next), seq![(key, value)] + members),
{
    reveal(ends_object);
    reveal(is_label);
    let (lead, gap) = choose|lead: Seq<char>, gap: Seq<char>|
        all_white(lead) && all_white(gap) && text == seq![','] + #[trigger] label(lead, key, gap);
    let t = text + (word + next);
    assert(t[0] == ',');
    assert forall|rest: Seq<char>| #[trigger] read_more_members(t + rest) == Some(
        (seq![(key, value)] + members, rest),
    ) by {
        lemma_labelled(lead, key, gap, word, value, next, members, rest);
        assert(unspaced(t + rest) == t + rest);
        assert((t + rest).drop_first() =~= label(lead, key, gap) + (word + (next + rest)));
    }
}

/// An opening mark, a labelled value and the end of an object are the object.
pub proof fn lemma_object(
    text: Seq<char>,
    key: Seq<char>,
    word: Seq<char>,
    value: Json,
    next: Seq<char>,
    members: Seq<(Seq<char>, Json)>,
)
    requires
        is_opening(text, key),
        reads_as(word, value),
        ends_object(next, members),
    ensures
        reads_as(text + (word + next), Json::Object(seq![(key, value)] + members)),
{
    reveal(reads_as);
    reveal(is_opening);
    let (outer, lead, gap) = choose|outer: Seq<char>, lead: Seq<char>, gap: Seq<char>|
        all_white(outer) && all_white(lead) && all_white(gap) && text == (#[trigger] (outer
            + seq!['{'])) + #[trigger] label(lead, key, gap);
    let t = text + (word + next);
    assert forall|rest: Seq<char>| rest.len() == 0 || ends(rest[0]) implies #[trigger] read_value(
        t + rest,
    ) == Some((Json::Object(seq![(key, value)] + members), rest)) by {
        lemma_labelled(lead, key, gap, word, value, next, members, rest);
        let inside = label(lead, key, gap) + (word + (next + rest));
        let u = seq!['{'] + inside;
        assert(t + rest =~= outer + u);
        lemma_unspaced(outer, u);
        assert(u.drop_first() =~= inside);
    }
}

/// Values with commas between them and a closing mark are read as a list of them.
pub proof fn lemma_items(words: Seq<Seq<char>>, values: Seq<Json>, tail: Seq<char>)
    requires
        words.len() == values.len(),
        words.len() > 0,
        forall|i: int| 0 <= i < words.len() ==> reads_as(#[trigger] words[i], values[i]),
        all_white(tail),
    ensures
        forall|rest: Seq<char>| #[trigger]
            read_items((text::joined(words, seq![',']) + (tail + seq![']'])) + rest) == Some(
                (values, rest),
            ),
    decreases words.len(),
{
    reveal(reads_as);
    reveal(ends_list);
    let comma = seq![','];
    let close = tail + seq![']'];
    lemma_list_ends(tail);
    assert forall|rest: Seq<char>| #[trigger]
        read_items((text::joined(words, comma) + close) + rest) == Some((values, rest)) by {
        let t = (text::joined(words, comma) + close) + rest;
        assert(reads_as(words[0], values[0]));
        if words.len() == 1 {
            assert(t =~= words[0] + (close + rest));
            assert((close + rest)[0] == close[0]);
            assert(read_value(words[0] + (close + rest)) == Some((values[0], close + rest)));
            assert(read_more_items(close + rest) == Some((Seq::<Json>::empty(), rest)));
            assert(seq![values[0]] + Seq::<Json>::empty() =~= values);
        } else {
            let others = words.drop_first();
            let more = values.drop_first();
            assert forall|i: int| 0 <= i < others.len() implies reads_as(
                #[trigger] others[i],
                more[i],
            ) by {
                assert(reads_as(words[i + 1], values[i + 1]));
            }
            lemma_items(others, more, tail);
            quoting::lemma_joined_first(words, comma);
            let inside = (text::joined(others, comma) + close) + rest;
            let behind = comma + inside;
            assert(t =~= words[0] + behind);
            assert(read_value(words[0] + behind) == Some((values[0], behind)));
            assert(unspaced(behind) == behind);
            assert(behind.drop_first() =~= inside);
            assert(read_items(inside) == Some((more, rest)));
            assert(seq![values[0]] + more =~= values);
        }
    }
}

/// Values with commas between them are read, between the marks of a list, as a list of them.
pub proof fn lemma_list(
    open: Seq<char>,
    words: Seq<Seq<char>>,
    values: Seq<Json>,
    tail: Seq<char>,
)
    requires
        open =~= seq!['['],
        words.len() == values.len(),
        forall|i: int| 0 <= i < words.len() ==> reads_as(#[trigger] words[i], values[i]),
        all_white(tail),
    ensures
        reads_as(open + (text::joined(words, ","@) + (tail + seq![']'])), Json::List(values)),
{
    reveal(reads_as);
    reveal_strlit(",");
    assert(","@ =~= seq![',']);
    let inner = text::joined(words, ","@) + (tail + seq![']']);
    let t = open + inner;
    assert forall|rest: Seq<char>| rest.len() == 0 || ends(rest[0]) implies #[trigger] read_value(
        t + rest,
    ) == Some((Json::List(values), rest)) by {
        assert((t + rest).drop_first() =~= inner + rest);
        assert(unspaced(t + rest) == t + rest);
        if words.len() == 0 {
            lemma_unspaced(tail, seq![']'] + rest);
            assert(inner + rest =~= tail + (seq![']'] + rest));
            assert((seq![']'] + rest).drop_first() =~= rest);
            assert((t + rest)[0] == '[');
            assert(values =~= Seq::empty());
        } else {
            lemma_items(words, values, tail);
            assert(reads_as(words[0], values[0]));
            lemma_value_opens(words[0], values[0]);
            let after = if words.len() == 1 {
                (tail + seq![']']) + rest
            } else {
                ((","@ + text::joined(words.drop_first(), ","@)) + (tail + seq![']'])) + rest
            };
            if words.len() > 1 {
                quoting::lemma_joined_first(words, ","@);
            }
            assert(inner + rest =~= words[0] + after);
            lemma_unspaced_prefix(words[0], after);
            assert(inner == text::joined(words, seq![',']) + (tail + seq![']']));
            assert(read_items(inner + rest) == Some((values, rest)));
            assert((t + rest)[0] == '[');
        }
    }
}

/// No value starts with the mark that closes a list.
proof fn lemma_value_opens(t: Seq<char>, value: Json)
    requires
        reads_as(t, value),
    ensures
        unspaced(t).len() > 0,
        unspaced(t)[0] != ']',
{
    reveal(reads_as);
    assert(t + Seq::empty() =~= t);
    assert(read_value(t + Seq::empty()) == Some((value, Seq::<char>::empty())));
    let u = unspaced(t);
    if u.len() > 0 {
        assert(starts(u, seq!['n', 'u', 'l', 'l']) ==> u.take(4)[0] == 'n');
        assert(starts(u, seq!['t', 'r', 'u', 'e']) ==> u.take(4)[0] == 't');
        assert(starts(u, seq!['f', 'a', 'l', 's', 'e']) ==> u.take(5)[0] == 'f');
    }
}

/// What a text starts with behind white space stays in front, whatever stands behind.
proof fn lemma_unspaced_prefix(t: Seq<char>, rest: Seq<char>)
    requires
        unspaced(t).len() > 0,
    ensures
        unspaced(t + rest).len() > 0,
        unspaced(t + rest)[0] == unspaced(t)[0],
    decreases t.len(),
{
    if t.len() > 0 && is_white(t[0]) {
        assert((t + rest).drop_first() =~= t.drop_first() + rest);
        lemma_unspaced_prefix(t.drop_first(), rest);
    }
}

} // verus!
