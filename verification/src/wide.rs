//! Text in sixteen-bit units, as the system's calls take and give it.
use crate::cleanup;
use crate::text;
use vstd::prelude::*;

verus! {

/// `std::char::from_u32` gives the character of a number: every number up to 0x10FFFF but those
/// from 0xD800 to 0xDFFF has one.
pub assume_specification[ std::char::from_u32 ](i: u32) -> (found: Option<char>)
    ensures
        match found {
            Some(c) => c as int == i && i <= 0x10FFFF && !(0xD800 <= i <= 0xDFFF),
            None => i > 0x10FFFF || 0xD800 <= i <= 0xDFFF,
        },
;

/// The units of one character: one below 0x10000, otherwise a high and a low surrogate.
pub open spec fn units_of(c: char) -> Seq<u16> {
    let n = c as int;
    if n < 0x10000 {
        seq![n as u16]
    } else {
        seq![
            (0xD800 + (n - 0x10000) / 0x400) as u16,
            (0xDC00 + (n - 0x10000) % 0x400) as u16,
        ]
    }
}

/// The units of a text.
pub open spec fn encoded(s: Seq<char>) -> Seq<u16>
    decreases s.len(),
{
    if s.len() == 0 {
        Seq::empty()
    } else {
        encoded(s.drop_last()) + units_of(s.last())
    }
}

/// The character that stands for a unit that is no part of one.
pub const REPLACEMENT: char = '\u{FFFD}';

/// Whether a unit is the first of a pair.
pub open spec fn is_high(unit: u16) -> bool {
    0xD800 <= unit <= 0xDBFF
}

/// Whether a unit is the second of a pair.
pub open spec fn is_low(unit: u16) -> bool {
    0xDC00 <= unit <= 0xDFFF
}

/// The text of a run of units, with the replacement character for each unit that is no part of a
/// character.
pub open spec fn decoded(units: Seq<u16>) -> Seq<char>
    decreases units.len(),
{
    if units.len() == 0 {
        Seq::empty()
    } else if is_high(units[0]) && units.len() > 1 && is_low(units[1]) {
        seq![(0x10000 + (units[0] - 0xD800) * 0x400 + (units[1] - 0xDC00)) as char] + decoded(
            units.skip(2),
        )
    } else if is_high(units[0]) || is_low(units[0]) {
        seq![REPLACEMENT] + decoded(units.skip(1))
    } else {
        seq![units[0] as char] + decoded(units.skip(1))
    }
}

/// The units of a text.
pub fn encode(s: &str) -> (units: Vec<u16>)
    ensures
        units@ == encoded(s@),
{
    let chars = text::characters(s);
    let mut units: Vec<u16> = Vec::new();
    assert(s@.take(0) =~= Seq::<char>::empty());
    for i in 0..chars.len()
        invariant
            chars@ == s@,
            units@ == encoded(s@.take(i as int)),
    {
        let n: u32 = text::code_point(chars[i]);
        assert(s@.take(i + 1).drop_last() =~= s@.take(i as int));
        if n < 0x10000 {
            units.push(n as u16);
        } else {
            units.push((0xD800 + (n - 0x10000) / 0x400) as u16);
            units.push((0xDC00 + (n - 0x10000) % 0x400) as u16);
        }
        assert(units@ =~= encoded(s@.take(i as int)) + units_of(s@[i as int]));
    }
    assert(s@.take(s@.len() as int) =~= s@);
    units
}

/// The text of a run of units.
pub fn decode(units: &[u16]) -> (text: String)
    ensures
        text@ == decoded(units@),
{
    let mut out = String::new();
    let mut i: usize = 0;
    assert(units@.skip(0) =~= units@);
    while i < units.len()
        invariant
            i <= units@.len(),
            out@ + decoded(units@.skip(i as int)) == decoded(units@),
        decreases units@.len() - i,
    {
        let unit: u16 = units[i];
        let ghost rest = units@.skip(i as int);
        let ghost before = out@;
        if 0xD800 <= unit && unit <= 0xDBFF && i + 1 < units.len() && 0xDC00 <= units[i + 1] && units[i
            + 1] <= 0xDFFF {
            let n: u32 = 0x10000 + (unit as u32 - 0xD800) * 0x400 + (units[i + 1] as u32 - 0xDC00);
            let c: char = match std::char::from_u32(n) {
                Some(c) => c,
                None => REPLACEMENT,
            };
            out.push(c);
            assert(rest.skip(2) =~= units@.skip(i + 2));
            assert(decoded(rest) == seq![c] + decoded(rest.skip(2)));
            assert(out@ =~= before + seq![c]);
            assert(before + (seq![c] + decoded(rest.skip(2))) =~= out@ + decoded(rest.skip(2)));
            i = i + 2;
        } else {
            let c: char = match std::char::from_u32(unit as u32) {
                Some(c) => c,
                None => REPLACEMENT,
            };
            out.push(c);
            assert(rest.skip(1) =~= units@.skip(i + 1));
            assert(decoded(rest) == seq![c] + decoded(rest.skip(1)));
            assert(out@ =~= before + seq![c]);
            assert(before + (seq![c] + decoded(rest.skip(1))) =~= out@ + decoded(rest.skip(1)));
            i = i + 1;
        }
    }
    assert(units@.skip(units@.len() as int) =~= Seq::<u16>::empty());
    assert(out@ + Seq::<char>::empty() =~= out@);
    out
}

proof fn lemma_encoded_parts(a: Seq<char>, b: Seq<char>)
    ensures
        encoded(a + b) == encoded(a) + encoded(b),
    decreases b.len(),
{
    if b.len() == 0 {
        assert(a + b =~= a);
        assert(encoded(a) + Seq::<u16>::empty() =~= encoded(a));
    } else {
        lemma_encoded_parts(a, b.drop_last());
        assert((a + b).drop_last() =~= a + b.drop_last());
        assert(encoded(a) + (encoded(b.drop_last()) + units_of(b.last())) =~= (encoded(a) + encoded(
            b.drop_last(),
        )) + units_of(b.last()));
    }
}

proof fn lemma_char_range(c: char)
    ensures
        0 <= c as int <= 0x10FFFF,
        !(0xD800 <= c as int <= 0xDFFF),
{
}

/// A text that was turned into units is read back as it was.
pub proof fn law_encoded_text_is_read_back(s: Seq<char>)
    ensures
        decoded(encoded(s)) == s,
    decreases s.len(),
{
    if s.len() > 0 {
        let c = s[0];
        let rest = s.drop_first();
        law_encoded_text_is_read_back(rest);
        lemma_encoded_parts(seq![c], rest);
        assert(s =~= seq![c] + rest);
        assert(seq![c].drop_last() =~= Seq::<char>::empty());
        assert(encoded(Seq::<char>::empty()) =~= Seq::<u16>::empty());
        assert(encoded(seq![c]) =~= units_of(c));
        let all = units_of(c) + encoded(rest);
        assert(encoded(s) == all);
        let n = c as int;
        lemma_char_range(c);
        if n < 0x10000 {
            assert(all[0] == n);
            assert(all.skip(1) =~= encoded(rest));
        } else {
            assert(all[0] == 0xD800 + (n - 0x10000) / 0x400);
            assert(all[1] == 0xDC00 + (n - 0x10000) % 0x400);
            assert(all.skip(2) =~= encoded(rest));
        }
    }
}

/// How many units stand before the first zero.
pub open spec fn before_zero(units: Seq<u16>) -> nat
    decreases units.len(),
{
    if units.len() == 0 || units[0] == 0 {
        0
    } else {
        1 + before_zero(units.skip(1))
    }
}

/// The text of a run of units that ends before the first zero, or at its end.
pub fn utf16_z(units: &[u16]) -> (text: String)
    ensures
        text@ == decoded(units@.take(before_zero(units@) as int)),
{
    let mut n: usize = 0;
    assert(units@.skip(0) =~= units@);
    while n < units.len() && units[n] != 0
        invariant
            n <= units@.len(),
            n + before_zero(units@.skip(n as int)) == before_zero(units@),
        decreases units@.len() - n,
    {
        assert(units@.skip(n as int).skip(1) =~= units@.skip(n + 1));
        n = n + 1;
    }
    first_units(units, n)
}

/// The text of the first units of a run; of all of them where the run is shorter.
pub fn first_units(units: &[u16], count: usize) -> (text: String)
    ensures
        text@ == decoded(
            if count < units@.len() {
                units@.take(count as int)
            } else {
                units@
            },
        ),
{
    if count < units.len() {
        let mut part: Vec<u16> = Vec::new();
        for i in 0..count
            invariant
                count < units@.len(),
                part@ == units@.take(i as int),
        {
            part.push(units[i]);
        }
        decode(part.as_slice())
    } else {
        assert(units@.take(units@.len() as int) =~= units@);
        decode(units)
    }
}

/// A session's name with an end mark. One that is too long or holds a zero is refused.
pub fn encode_wide(value: &str) -> (r: Result<Vec<u16>, u32>)
    ensures
        match r {
            Ok(wide) => wide@ == encoded(value@).push(0) && encoded(value@).len()
                <= cleanup::MAX_SESSION_NAME_CHARS && !encoded(value@).contains(0),
            Err(code) => code == cleanup::ERROR_INVALID_PARAMETER && (encoded(value@).len()
                > cleanup::MAX_SESSION_NAME_CHARS || encoded(value@).contains(0)),
        },
{
    let mut wide = encode(value);
    if wide.len() > cleanup::MAX_SESSION_NAME_CHARS {
        return Err(cleanup::ERROR_INVALID_PARAMETER);
    }
    for i in 0..wide.len()
        invariant
            wide@ == encoded(value@),
            forall|j: int| 0 <= j < i ==> #[trigger] wide@[j] != 0,
    {
        if wide[i] == 0 {
            assert(encoded(value@)[i as int] == 0);
            return Err(cleanup::ERROR_INVALID_PARAMETER);
        }
    }
    wide.push(0);
    Ok(wide)
}

} // verus!
