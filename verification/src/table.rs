//! Reading CSV: the rows that a text holds, as any reader of the format finds them.
use crate::quoting;
use crate::text;
use vstd::prelude::*;

verus! {

/// What stands before the first comma or end of a line, and what stands from there on.
pub open spec fn read_bare(t: Seq<char>) -> (Seq<char>, Seq<char>)
    decreases t.len(),
{
    if t.len() == 0 || t[0] == ',' || t[0] == '\r' || t[0] == '\n' {
        (Seq::empty(), t)
    } else {
        let (more, rest) = read_bare(t.drop_first());
        (seq![t[0]] + more, rest)
    }
}

/// The field at the start of a text, and what stands behind it.
pub open spec fn read_field(t: Seq<char>) -> (Seq<char>, Seq<char>) {
    if t.len() > 0 && t[0] == '"' {
        quoting::csv_read(t.skip(1))
    } else {
        read_bare(t)
    }
}

/// The fields of the row at the start of a text, and what stands behind the row.
pub open spec fn read_row(t: Seq<char>) -> Option<(Seq<Seq<char>>, Seq<char>)>
    decreases t.len(),
{
    let (field, rest) = read_field(t);
    if rest.len() >= 2 && rest[0] == '\r' && rest[1] == '\n' {
        Some((seq![field], rest.skip(2)))
    } else if 0 < rest.len() <= t.len() && rest[0] == ',' {
        match read_row(rest.skip(1)) {
            Some((fields, behind)) => Some((seq![field] + fields, behind)),
            None => None,
        }
    } else {
        None
    }
}

/// The rows of a text, if it is made of rows.
pub open spec fn read_table(t: Seq<char>) -> Option<Seq<Seq<Seq<char>>>>
    decreases t.len(),
{
    if t.len() == 0 {
        Some(Seq::empty())
    } else {
        match read_row(t) {
            Some((fields, rest)) => if rest.len() < t.len() {
                match read_table(rest) {
                    Some(rows) => Some(seq![fields] + rows),
                    None => None,
                }
            } else {
                None
            },
            None => None,
        }
    }
}

/// Whether a text stands as a field without marks.
pub open spec fn bare(t: Seq<char>) -> bool {
    forall|i: int|
        0 <= i < t.len() ==> (#[trigger] t[i]) != ',' && t[i] != '"' && t[i] != '\r' && t[i] != '\n'
}

/// Whether a text is read as a field, whatever stands behind it.
#[verifier::opaque]
pub open spec fn is_field(t: Seq<char>, field: Seq<char>) -> bool {
    forall|rest: Seq<char>|
        rest.len() > 0 && (rest[0] == ',' || rest[0] == '\r') ==> #[trigger] read_field(t + rest)
            == (field, rest)
}

/// Whether a text is read as a row, whatever stands behind it.
#[verifier::opaque]
pub open spec fn is_row(t: Seq<char>, fields: Seq<Seq<char>>) -> bool {
    t.len() > 0 && forall|rest: Seq<char>| #[trigger]
        read_row(t + rest) == Some((fields, rest))
}

/// Whether a text is read as rows, with the rows of what stands behind it.
#[verifier::opaque]
pub open spec fn is_table(t: Seq<char>, rows: Seq<Seq<Seq<char>>>) -> bool {
    forall|rest: Seq<char>| #[trigger]
        read_table(t + rest) == (match read_table(rest) {
            Some(more) => Some(rows + more),
            None => None,
        })
}

proof fn lemma_bare(t: Seq<char>, rest: Seq<char>)
    requires
        bare(t),
        rest.len() > 0,
        rest[0] == ',' || rest[0] == '\r',
    ensures
        read_bare(t + rest) == (t, rest),
    decreases t.len(),
{
    if t.len() == 0 {
        assert(t + rest =~= rest);
        assert(t =~= Seq::empty());
    } else {
        let shorter = t.drop_first();
        assert forall|i: int| 0 <= i < shorter.len() implies (#[trigger] shorter[i]) != ','
            && shorter[i] != '"' && shorter[i] != '\r' && shorter[i] != '\n' by {
            assert(t[i + 1] != ',');
        }
        lemma_bare(shorter, rest);
        assert((t + rest)[0] == t[0]);
        assert(t[0] != ',');
        assert((t + rest).drop_first() =~= shorter + rest);
        assert(seq![t[0]] + shorter =~= t);
    }
}

/// A field without marks is read as it stands.
pub proof fn lemma_bare_field(t: Seq<char>)
    requires
        bare(t),
    ensures
        is_field(t, t),
{
    reveal(is_field);
    assert forall|rest: Seq<char>|
        rest.len() > 0 && (rest[0] == ',' || rest[0] == '\r') implies #[trigger] read_field(t + rest)
        == (t, rest) by {
        lemma_bare(t, rest);
        if t.len() > 0 {
            assert(t[0] != '"');
            assert((t + rest)[0] == t[0]);
        } else {
            assert(t + rest =~= rest);
        }
    }
}

/// A numeral stands without marks.
pub proof fn lemma_number_field(n: nat)
    ensures
        is_field(text::decimal(n), text::decimal(n)),
{
    lemma_digits_are_bare(n);
    lemma_bare_field(text::decimal(n));
}

proof fn lemma_digits_are_bare(n: nat)
    ensures
        bare(text::decimal(n)),
    decreases n,
{
    let t = text::decimal(n);
    if n >= 10 {
        lemma_digits_are_bare(n / 10);
        let shorter = text::decimal(n / 10);
        assert forall|i: int| 0 <= i < t.len() implies (#[trigger] t[i]) != ',' && t[i] != '"'
            && t[i] != '\r' && t[i] != '\n' by {
            if i < shorter.len() {
                assert(t[i] == shorter[i]);
            }
        }
    }
}

/// A quoted field is read as what was quoted.
pub proof fn lemma_quoted_field(s: Seq<char>)
    ensures
        is_field(quoting::csv_field(s), s),
{
    reveal(is_field);
    reveal_strlit("\"");
    let inside = quoting::spelled(s, |c: char| quoting::csv_char(c));
    assert forall|rest: Seq<char>|
        rest.len() > 0 && (rest[0] == ',' || rest[0] == '\r') implies #[trigger] read_field(
        quoting::csv_field(s) + rest,
    ) == (s, rest) by {
        let t = quoting::csv_field(s) + rest;
        assert(t[0] == '"');
        assert(t.skip(1) =~= inside + seq!['"'] + rest);
        quoting::lemma_csv_read(s, rest);
    }
}

/// Fields with commas between them and the end of a line are read as a row of them.
pub proof fn lemma_row(words: Seq<Seq<char>>, fields: Seq<Seq<char>>)
    requires
        words.len() == fields.len(),
        words.len() > 0,
        forall|i: int| 0 <= i < words.len() ==> is_field(#[trigger] words[i], fields[i]),
    ensures
        is_row(text::joined(words, ","@) + "\r\n"@, fields),
    decreases words.len(),
{
    reveal(is_row);
    reveal(is_field);
    reveal_strlit(",");
    reveal_strlit("\r\n");
    let end = "\r\n"@;
    assert forall|rest: Seq<char>| #[trigger]
        read_row((text::joined(words, ","@) + end) + rest) == Some((fields, rest)) by {
        let t = (text::joined(words, ","@) + end) + rest;
        assert(is_field(words[0], fields[0]));
        if words.len() == 1 {
            assert(t =~= words[0] + (end + rest));
            assert(read_field(words[0] + (end + rest)) == (fields[0], end + rest));
            assert((end + rest).skip(2) =~= rest);
            assert(seq![fields[0]] =~= fields);
        } else {
            let others = words.drop_first();
            let more = fields.drop_first();
            assert forall|i: int| 0 <= i < others.len() implies is_field(
                #[trigger] others[i],
                more[i],
            ) by {
                assert(is_field(words[i + 1], fields[i + 1]));
            }
            lemma_row(others, more);
            quoting::lemma_joined_first(words, ","@);
            let inside = (text::joined(others, ","@) + end) + rest;
            let behind = ","@ + inside;
            assert(t =~= words[0] + behind);
            assert(read_field(words[0] + behind) == (fields[0], behind));
            assert(behind.skip(1) =~= inside);
            assert(read_row(inside) == Some((more, rest)));
            assert(seq![fields[0]] + more =~= fields);
        }
    }
}

/// A row is a table of one row.
pub proof fn lemma_one_row(t: Seq<char>, fields: Seq<Seq<char>>)
    requires
        is_row(t, fields),
    ensures
        is_table(t, seq![fields]),
{
    reveal(is_row);
    reveal(is_table);
    assert forall|rest: Seq<char>| #[trigger]
        read_table(t + rest) == (match read_table(rest) {
            Some(more) => Some(seq![fields] + more),
            None => None,
        }) by {
        assert(read_row(t + rest) == Some((fields, rest)));
    }
}

/// Two tables, one behind the other, are one.
pub proof fn lemma_two_tables(
    a: Seq<char>,
    first: Seq<Seq<Seq<char>>>,
    b: Seq<char>,
    second: Seq<Seq<Seq<char>>>,
)
    requires
        is_table(a, first),
        is_table(b, second),
    ensures
        is_table(a + b, first + second),
{
    reveal(is_table);
    assert forall|rest: Seq<char>| #[trigger]
        read_table((a + b) + rest) == (match read_table(rest) {
            Some(more) => Some((first + second) + more),
            None => None,
        }) by {
        assert((a + b) + rest =~= a + (b + rest));
        assert(read_table(a + (b + rest)) == (match read_table(b + rest) {
            Some(more) => Some(first + more),
            None => None,
        }));
        assert(read_table(b + rest) == (match read_table(rest) {
            Some(more) => Some(second + more),
            None => None,
        }));
        if let Some(more) = read_table(rest) {
            assert(first + (second + more) =~= (first + second) + more);
        }
    }
}

/// Nothing is a table of no rows.
pub proof fn lemma_no_rows()
    ensures
        is_table(Seq::empty(), Seq::empty()),
{
    reveal(is_table);
    assert forall|rest: Seq<char>| #[trigger]
        read_table(Seq::<char>::empty() + rest) == (match read_table(rest) {
            Some(more) => Some(Seq::<Seq<Seq<char>>>::empty() + more),
            None => None,
        }) by {
        assert(Seq::<char>::empty() + rest =~= rest);
        if let Some(more) = read_table(rest) {
            assert(Seq::<Seq<Seq<char>>>::empty() + more =~= more);
        }
    }
}

/// Rows put together are a table of them.
pub proof fn lemma_rows(parts: Seq<Seq<char>>, rows: Seq<Seq<Seq<char>>>)
    requires
        parts.len() == rows.len(),
        forall|i: int| 0 <= i < parts.len() ==> is_row(#[trigger] parts[i], rows[i]),
    ensures
        is_table(text::flat(parts), rows),
    decreases parts.len(),
{
    if parts.len() == 0 {
        lemma_no_rows();
        assert(rows =~= Seq::empty());
    } else {
        let n = parts.len() - 1;
        assert forall|i: int| 0 <= i < parts.drop_last().len() implies is_row(
            #[trigger] parts.drop_last()[i],
            rows.drop_last()[i],
        ) by {
            assert(is_row(parts[i], rows[i]));
        }
        lemma_rows(parts.drop_last(), rows.drop_last());
        assert(is_row(parts[n], rows[n]));
        lemma_one_row(parts.last(), rows.last());
        lemma_two_tables(
            text::flat(parts.drop_last()),
            rows.drop_last(),
            parts.last(),
            seq![rows.last()],
        );
        assert(rows.drop_last() + seq![rows.last()] =~= rows);
    }
}

/// A table is read as its rows.
pub proof fn lemma_read(t: Seq<char>, rows: Seq<Seq<Seq<char>>>)
    requires
        is_table(t, rows),
    ensures
        read_table(t) == Some(rows),
{
    reveal(is_table);
    assert(t + Seq::<char>::empty() =~= t);
    assert(read_table(t + Seq::<char>::empty()) == Some(rows + Seq::<Seq<Seq<char>>>::empty()));
    assert(rows + Seq::<Seq<Seq<char>>>::empty() =~= rows);
}

/// A field, a comma and a row are a row with one field more.
pub proof fn lemma_cell(
    word: Seq<char>,
    field: Seq<char>,
    next: Seq<char>,
    fields: Seq<Seq<char>>,
)
    requires
        is_field(word, field),
        is_row(next, fields),
    ensures
        is_row(word + (","@ + next), seq![field] + fields),
{
    reveal(is_row);
    reveal(is_field);
    reveal_strlit(",");
    let t = word + (","@ + next);
    assert forall|rest: Seq<char>| #[trigger] read_row(t + rest) == Some(
        (seq![field] + fields, rest),
    ) by {
        let behind = ","@ + (next + rest);
        assert(t + rest =~= word + behind);
        assert(read_field(word + behind) == (field, behind));
        assert(behind.skip(1) =~= next + rest);
        assert(read_row(next + rest) == Some((fields, rest)));
    }
}

/// A comma before a row is an empty field more.
pub proof fn lemma_empty_cell(next: Seq<char>, fields: Seq<Seq<char>>)
    requires
        is_row(next, fields),
    ensures
        is_row(","@ + next, seq![""@] + fields),
{
    reveal_strlit("");
    lemma_bare_field(""@);
    lemma_cell(""@, ""@, next, fields);
    assert(""@ + (","@ + next) =~= ","@ + next);
}

/// The last field of a row.
pub proof fn lemma_last_cell(word: Seq<char>, field: Seq<char>)
    requires
        is_field(word, field),
    ensures
        is_row(word + "\r\n"@, seq![field]),
{
    let words = seq![word];
    assert forall|i: int| 0 <= i < words.len() implies is_field(
        #[trigger] words[i],
        seq![field][i],
    ) by {
    }
    lemma_row(words, seq![field]);
    assert(text::joined(words, ","@) == word);
}

} // verus!
