//! Number literals.
//!
//! What number a literal stands for is for a [`NumberParser`] to say. The
//! library brings one that knows the whole numbers which single precision
//! holds exactly; a host that wants fractions brings its own.

use crate::collections::{value_at, StringMap};
use crate::compiler::lexer::{characters, is_digit};
use crate::value::Number;
use vstd::prelude::*;

verus! {

/// Says what number a literal stands for.
pub trait NumberParser {
    /// The number that a literal stands for, if it stands for one.
    spec fn number(&self, literal: Seq<char>) -> Option<Number>;

    /// The number that a literal stands for, if it stands for one.
    fn parse(&self, literal: &str) -> (number: Option<Number>)
        ensures
            number == self.number(literal@),
    ;
}

/// What the number literals mean to a parser: the number that each stands
/// for.
pub open spec fn meaning_of<N: NumberParser>(numbers: &N) -> spec_fn(Seq<char>) -> Option<Number> {
    |literal: Seq<char>| numbers.number(literal)
}

/// The largest whole number that [`WholeNumbers`] reads: below it, single
/// precision holds every whole number exactly.
pub const LARGEST_WHOLE_NUMBER: u32 = 0xFF_FFFF;

/// The value of a run of decimal digits, as long as it does not exceed the
/// largest whole number. The empty run has the value zero.
pub open spec fn digits_value(digits: Seq<char>) -> Option<u32>
    decreases digits.len(),
{
    if digits.len() == 0 {
        Some(0)
    } else {
        match digits_value(digits.drop_last()) {
            Some(front) => {
                let value = front * 10 + (digits.last() as u32 - '0' as u32);
                if is_digit(digits.last()) && value <= LARGEST_WHOLE_NUMBER {
                    Some(value as u32)
                } else {
                    None
                }
            },
            None => None,
        }
    }
}

/// The value of a literal of decimal digits, as long as it does not exceed
/// the largest whole number; `None` for any other literal.
pub open spec fn whole_number(literal: Seq<char>) -> Option<u32> {
    if literal.len() == 0 {
        None
    } else {
        digits_value(literal)
    }
}

/// The encoding of the float whose significand, the leading one included,
/// is `significand` once that has been doubled until its bit 23 is set, in
/// at most `steps` doublings. `exponent` is the exponent field that goes
/// with the significand as it is; each doubling takes one off it.
pub open spec fn normalized(significand: u32, exponent: u32, steps: nat) -> u32
    decreases steps,
{
    if steps > 0 && significand < 0x80_0000 {
        normalized((significand * 2) as u32, (exponent - 1) as u32, (steps - 1) as nat)
    } else {
        ((exponent - 1) * 0x80_0000 + significand) as u32
    }
}

/// The single-precision encoding of a whole number that is not larger than
/// the largest whole number.
pub open spec fn whole_number_bits(value: u32) -> u32 {
    if value == 0 {
        0
    } else {
        normalized(value, 150, 23)
    }
}

/// Two to the power of an exponent.
pub open spec fn two_to(exponent: nat) -> nat
    decreases exponent,
{
    if exponent == 0 {
        1
    } else {
        2 * two_to((exponent - 1) as nat)
    }
}

/// What normalizing keeps true: the significand is the value times two to
/// the number of doublings so far.
pub proof fn lemma_normalized(value: u32, significand: u32, exponent: u32, steps: nat)
    requires
        0 < value,
        0 < significand <= LARGEST_WHOLE_NUMBER,
        exponent == 127 + steps,
        steps <= 23,
        significand == value * two_to((23 - steps) as nat),
    ensures
        ({
            let bits = normalized(significand, exponent, steps);
            let field = bits / 0x80_0000;
            &&& 127 <= field <= exponent
            &&& 0x80_0000 + bits % 0x80_0000 == value * two_to((150 - field) as nat)
        }),
    decreases steps,
{
    if steps > 0 && significand < 0x80_0000 {
        assert(two_to((23 - (steps - 1)) as nat) == 2 * two_to((23 - steps) as nat));
        assert(significand * 2 == value * two_to((23 - (steps - 1)) as nat)) by (nonlinear_arith)
            requires
                significand == value * two_to((23 - steps) as nat),
                two_to((23 - (steps - 1)) as nat) == 2 * two_to((23 - steps) as nat),
        ;
        lemma_normalized(
            value,
            (significand * 2) as u32,
            (exponent - 1) as u32,
            (steps - 1) as nat,
        );
    } else {
        if significand < 0x80_0000 {
            // No doubling is left, so the significand is the value times
            // two to the 23rd, which is not below two to the 23rd.
            assert(two_to(23) == 0x80_0000) by {
                reveal_with_fuel(two_to, 24);
            }
            assert(value * two_to(23) >= two_to(23)) by (nonlinear_arith)
                requires
                    value >= 1,
            ;
            assert(false);
        }
        let bits = ((exponent - 1) * 0x80_0000 + significand) as u32;
        assert(bits == exponent * 0x80_0000 + (significand - 0x80_0000));
        assert(bits / 0x80_0000 == exponent && bits % 0x80_0000 == significand - 0x80_0000)
            by (nonlinear_arith)
            requires
                bits == exponent * 0x80_0000 + (significand - 0x80_0000),
                0 <= significand - 0x80_0000 < 0x80_0000,
        ;
        assert((150 - exponent) as nat == (23 - steps) as nat);
    }
}

/// The encoding of a whole number is the encoding of that number: a float
/// with the exponent field `e` and the fraction field `f` has the value
/// `(2^23 + f) * 2^(e - 150)`, and for the encoding of a whole number above
/// zero that value is the number.
pub proof fn lemma_whole_number_bits(value: u32)
    requires
        0 < value <= LARGEST_WHOLE_NUMBER,
    ensures
        ({
            let bits = whole_number_bits(value);
            let field = bits / 0x80_0000;
            &&& 127 <= field <= 150
            &&& 0x80_0000 + bits % 0x80_0000 == value * two_to((150 - field) as nat)
        }),
{
    assert(two_to(0) == 1);
    assert(value == value * two_to(0)) by (nonlinear_arith)
        requires
            two_to(0) == 1,
    ;
    lemma_normalized(value, value, 150, 23);
}

/// A parser of number literals that reads whole numbers up to
/// [`LARGEST_WHOLE_NUMBER`] and nothing else.
#[derive(Debug, Clone, Copy, PartialEq, Eq, Structural)]
pub struct WholeNumbers;

impl WholeNumbers {
    /// The value of a literal of decimal digits.
    pub fn value(literal: &str) -> (value: Option<u32>)
        ensures
            value == whole_number(literal@),
    {
        let chars = characters(literal);
        if chars.len() == 0 {
            return None;
        }
        let mut value: u32 = 0;
        let mut i: usize = 0;
        proof {
            assert(chars@.take(0) =~= Seq::empty());
        }
        while i < chars.len()
            invariant
                i <= chars.len(),
                chars@ == literal@,
                value <= LARGEST_WHOLE_NUMBER,
                digits_value(chars@.take(i as int)) == Some(value),
            decreases chars.len() - i,
        {
            let c = chars[i];
            proof {
                assert(chars@.take(i + 1).drop_last() =~= chars@.take(i as int));
                assert(chars@.take(i + 1).last() == c);
            }
            if !('0' <= c && c <= '9') {
                proof {
                    lemma_no_number_behind(chars@, i + 1);
                }
                return None;
            }
            let digit: u32 = c as u32 - '0' as u32;
            let next = value * 10 + digit;
            if next > LARGEST_WHOLE_NUMBER {
                proof {
                    lemma_no_number_behind(chars@, i + 1);
                }
                return None;
            }
            value = next;
            i = i + 1;
        }
        proof {
            assert(chars@.take(i as int) =~= chars@);
        }
        Some(value)
    }

    /// The single-precision encoding of a whole number.
    pub fn bits(value: u32) -> (bits: u32)
        requires
            value <= LARGEST_WHOLE_NUMBER,
        ensures
            bits == whole_number_bits(value),
    {
        if value == 0 {
            return 0;
        }
        let mut significand = value;
        let mut exponent: u32 = 150;
        let mut steps: u32 = 23;
        while steps > 0 && significand < 0x80_0000
            invariant
                significand <= LARGEST_WHOLE_NUMBER,
                exponent == 127 + steps,
                steps <= 23,
                normalized(significand, exponent, steps as nat) == normalized(value, 150, 23),
            decreases steps,
        {
            significand = significand * 2;
            exponent = exponent - 1;
            steps = steps - 1;
        }
        (exponent - 1) * 0x80_0000 + significand
    }
}

/// Once a prefix of a literal stands for no number, the literal stands for
/// none.
pub proof fn lemma_no_number_behind(literal: Seq<char>, length: int)
    requires
        0 < length <= literal.len(),
        digits_value(literal.take(length)) is None,
    ensures
        whole_number(literal) is None,
    decreases literal.len() - length,
{
    if length < literal.len() {
        assert(literal.take(length + 1).drop_last() =~= literal.take(length));
        lemma_no_number_behind(literal, length + 1);
    } else {
        assert(literal.take(length) =~= literal);
    }
}

impl NumberParser for WholeNumbers {
    open spec fn number(&self, literal: Seq<char>) -> Option<Number> {
        match whole_number(literal) {
            Some(value) => Some(Number { bits: whole_number_bits(value) }),
            None => None,
        }
    }

    fn parse(&self, literal: &str) -> (number: Option<Number>) {
        match WholeNumbers::value(literal) {
            Some(value) => Some(Number::from_bits(WholeNumbers::bits(value))),
            None => None,
        }
    }
}

/// A parser of number literals that looks literals up in a table and reads
/// those that the table lacks as [`WholeNumbers`] does. A host that knows
/// floats enters the literals of its source files into the table.
#[derive(Debug, PartialEq, Eq)]
pub struct NumberTable {
    known: StringMap<Number>,
}

impl NumberTable {
    /// The numbers that the table holds, by their literals.
    pub closed spec fn entries(&self) -> Map<Seq<char>, Number> {
        self.known.map()
    }

    /// A table without entries.
    pub fn new() -> (table: NumberTable)
        ensures
            table.entries() == Map::<Seq<char>, Number>::empty(),
    {
        NumberTable { known: StringMap::new() }
    }

    /// Enters the number that a literal stands for, in place of what the
    /// table held for the literal.
    pub fn insert(&mut self, literal: String, number: Number)
        ensures
            final(self).entries() == old(self).entries().insert(literal@, number),
    {
        self.known.insert(literal, number);
    }
}

impl NumberParser for NumberTable {
    open spec fn number(&self, literal: Seq<char>) -> Option<Number> {
        match value_at(self.entries(), literal) {
            Some(number) => Some(number),
            None => WholeNumbers.number(literal),
        }
    }

    fn parse(&self, literal: &str) -> (number: Option<Number>) {
        match self.known.get(literal) {
            Some(number) => Some(*number),
            None => WholeNumbers.parse(literal),
        }
    }
}

} // verus!
