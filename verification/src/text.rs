//! Decimal numbers and separated fields in ASCII text.

use vstd::prelude::*;

verus! {

/// The ASCII code of the digit zero.
pub const ZERO: u8 = 48;

/// The ASCII digit for a value below ten.
pub open spec fn digit(value: nat) -> u8
    recommends
        value < 10,
{
    (ZERO + value) as u8
}

/// Whether a byte is an ASCII digit.
pub open spec fn is_digit(byte: u8) -> bool {
    ZERO <= byte <= ZERO + 9
}

/// Whether every byte of a text is an ASCII digit.
pub open spec fn all_digits(text: Seq<u8>) -> bool {
    forall|i: int| 0 <= i < text.len() ==> is_digit(#[trigger] text[i])
}

/// A number in decimal, without sign and without leading zeros.
pub open spec fn decimal(value: nat) -> Seq<u8>
    decreases value,
{
    if value < 10 {
        seq![digit(value)]
    } else {
        decimal(value / 10).push(digit(value % 10))
    }
}

/// The number that a text of digits stands for; zero for the empty text.
pub open spec fn decimal_value(text: Seq<u8>) -> nat
    decreases text.len(),
{
    if text.len() == 0 {
        0
    } else {
        10 * decimal_value(text.drop_last()) + (text.last() - ZERO) as nat
    }
}

/// What a text gives when read as a number of at most `limit`: the text
/// must be digits only and at least one of them.
pub open spec fn number_in(text: Seq<u8>, limit: nat) -> Option<nat> {
    if text.len() > 0 && all_digits(text) && decimal_value(text) <= limit {
        Some(decimal_value(text))
    } else {
        None
    }
}

/// A number in decimal is digits only, at least one, and reads back as
/// the number.
pub proof fn lemma_decimal_reads_back(value: nat)
    ensures
        decimal(value).len() > 0,
        all_digits(decimal(value)),
        decimal_value(decimal(value)) == value,
    decreases value,
{
    if value < 10 {
        let text = decimal(value);
        assert(text.drop_last() =~= Seq::<u8>::empty());
        assert(decimal_value(text.drop_last()) == 0);
    } else {
        lemma_decimal_reads_back(value / 10);
        let text = decimal(value);
        assert(text.drop_last() =~= decimal(value / 10));
    }
}

/// A number in decimal reads back under every limit that it respects.
pub proof fn lemma_decimal_number_in(value: nat, limit: nat)
    requires
        value <= limit,
    ensures
        number_in(decimal(value), limit) == Some(value),
{
    lemma_decimal_reads_back(value);
}

/// Digits that follow only make a number larger.
pub proof fn lemma_value_grows(text: Seq<u8>, shorter: int)
    requires
        0 <= shorter <= text.len(),
        all_digits(text),
    ensures
        decimal_value(text.take(shorter)) <= decimal_value(text),
    decreases text.len() - shorter,
{
    if shorter < text.len() {
        lemma_value_grows(text.drop_last(), shorter);
        assert(text.drop_last().take(shorter) =~= text.take(shorter));
    } else {
        assert(text.take(shorter) =~= text);
    }
}

/// Appends a number in decimal to a text.
pub fn push_decimal(out: &mut Vec<u8>, value: u64)
    ensures
        final(out)@ == old(out)@ + decimal(value as nat),
    decreases value,
{
    if value >= 10 {
        push_decimal(out, value / 10);
    }
    out.push(ZERO + (value % 10) as u8);
    assert(out@ =~= old(out)@ + decimal(value as nat));
}

/// Reads the text from `start` to its end as a number of at most `limit`.
pub fn parse_decimal(text: &[u8], start: usize, limit: u64) -> (number: Option<u64>)
    requires
        start <= text@.len(),
    ensures
        match number {
            Some(value) => number_in(text@.skip(start as int), limit as nat) == Some(value as nat),
            None => number_in(text@.skip(start as int), limit as nat) is None,
        },
{
    let ghost tail = text@.skip(start as int);
    if start == text.len() {
        return None;
    }
    let mut value: u64 = 0;
    let mut at: usize = start;
    while at < text.len()
        invariant
            start <= at <= text@.len(),
            tail == text@.skip(start as int),
            all_digits(tail.take(at - start)),
            value == decimal_value(tail.take(at - start)),
            value <= limit,
        decreases text@.len() - at,
    {
        let byte: u8 = text[at];
        let ghost longer = tail.take(at - start + 1);
        proof {
            assert(longer.drop_last() =~= tail.take(at - start));
            assert(longer.last() == byte);
        }
        if byte < ZERO || byte > ZERO + 9 {
            proof {
                assert(tail[at - start] == byte);
            }
            return None;
        }
        let units: u64 = (byte - ZERO) as u64;
        if units > limit || value > (limit - units) / 10 {
            proof {
                assert(10 * value + units > limit) by (nonlinear_arith)
                    requires
                        units > limit || value > (limit - units) / 10,
                        units < 10,
                ;
                if all_digits(tail) {
                    lemma_value_grows(tail, at - start + 1);
                }
            }
            return None;
        }
        proof {
            assert(10 * value + units <= limit) by (nonlinear_arith)
                requires
                    value <= (limit - units) / 10,
                    units <= limit,
            ;
            assert forall|i: int| 0 <= i < longer.len() implies is_digit(#[trigger] longer[i]) by {
                if i < at - start {
                    assert(longer[i] == tail.take(at - start)[i]);
                }
            }
        }
        value = 10 * value + units;
        at = at + 1;
    }
    proof {
        assert(tail.take(at - start) =~= tail);
    }
    Some(value)
}

/// The fields of a text: the pieces between occurrences of a separator.
/// A text without separator is one field; the empty text is one empty field.
pub open spec fn fields(text: Seq<u8>, separator: u8) -> Seq<Seq<u8>>
    decreases text.len(),
{
    if text.len() == 0 {
        seq![Seq::<u8>::empty()]
    } else {
        let before = fields(text.drop_last(), separator);
        if text.last() == separator {
            before.push(Seq::<u8>::empty())
        } else {
            before.drop_last().push(before.last().push(text.last()))
        }
    }
}

/// A text has at least one field.
pub proof fn lemma_fields_exist(text: Seq<u8>, separator: u8)
    ensures
        fields(text, separator).len() >= 1,
    decreases text.len(),
{
    if text.len() > 0 {
        lemma_fields_exist(text.drop_last(), separator);
    }
}

/// A text that follows another without holding the separator lengthens the
/// last field.
pub proof fn lemma_fields_extend(text: Seq<u8>, more: Seq<u8>, separator: u8)
    requires
        !more.contains(separator),
    ensures
        fields(text, separator).len() >= 1,
        fields(text + more, separator) == fields(text, separator).drop_last().push(
            fields(text, separator).last() + more,
        ),
    decreases more.len(),
{
    lemma_fields_exist(text, separator);
    let base = fields(text, separator);
    if more.len() == 0 {
        assert(text + more =~= text);
        assert(base.last() + more =~= base.last());
        assert(base.drop_last().push(base.last()) =~= base);
    } else {
        let shorter = more.drop_last();
        assert(!shorter.contains(separator)) by {
            if shorter.contains(separator) {
                let i = choose|i: int| 0 <= i < shorter.len() && shorter[i] == separator;
                assert(more[i] == separator);
            }
        }
        assert(more.last() != separator) by {
            if more.last() == separator {
                assert(more[more.len() - 1] == separator);
            }
        }
        lemma_fields_extend(text, shorter, separator);
        assert((text + more).drop_last() =~= text + shorter);
        let before = fields(text + shorter, separator);
        assert(before.drop_last() =~= base.drop_last());
        assert(before.last().push(more.last()) =~= base.last() + more);
    }
}

/// A separator after a text opens a new, empty field.
pub proof fn lemma_fields_separator(text: Seq<u8>, separator: u8)
    ensures
        fields(text.push(separator), separator) == fields(text, separator).push(
            Seq::<u8>::empty(),
        ),
{
    assert(text.push(separator).drop_last() =~= text);
}

/// Whether `pieces` holds the fields of `text`.
pub open spec fn holds_fields(pieces: Seq<Vec<u8>>, text: Seq<u8>, separator: u8) -> bool {
    &&& pieces.len() == fields(text, separator).len()
    &&& forall|i: int|
        0 <= i < pieces.len() ==> (#[trigger] pieces[i])@ == fields(text, separator)[i]
}

/// Cuts a text into its fields.
pub fn split_fields(text: &[u8], separator: u8) -> (pieces: Vec<Vec<u8>>)
    ensures
        holds_fields(pieces@, text@, separator),
{
    let mut pieces: Vec<Vec<u8>> = Vec::new();
    let mut current: Vec<u8> = Vec::new();
    let mut at: usize = 0;
    proof {
        assert(text@.take(0) =~= Seq::<u8>::empty());
    }
    while at < text.len()
        invariant
            at <= text@.len(),
            pieces@.len() + 1 == fields(text@.take(at as int), separator).len(),
            forall|i: int|
                0 <= i < pieces@.len() ==> (#[trigger] pieces@[i])@ == fields(
                    text@.take(at as int),
                    separator,
                )[i],
            current@ == fields(text@.take(at as int), separator).last(),
        decreases text@.len() - at,
    {
        let byte: u8 = text[at];
        proof {
            assert(text@.take(at as int + 1).drop_last() =~= text@.take(at as int));
            assert(text@.take(at as int + 1).last() == byte);
        }
        if byte == separator {
            pieces.push(current);
            current = Vec::new();
        } else {
            current.push(byte);
        }
        at = at + 1;
    }
    proof {
        assert(text@.take(at as int) =~= text@);
    }
    pieces.push(current);
    pieces
}

} // verus!
