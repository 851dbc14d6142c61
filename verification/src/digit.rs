//! The ten class labels and their strict mapping to the integers 0 to 9.

use vstd::prelude::*;
use vstd::std_specs::convert::TryFromSpec;
use vstd::std_specs::convert::TryFromSpecImpl;

verus! {

/// A label of the data set: one of the ten digits.
#[derive(Clone, Copy, Debug, PartialEq, Eq, Structural)]
pub enum Digit {
    Zero,
    One,
    Two,
    Three,
    Four,
    Five,
    Six,
    Seven,
    Eight,
    Nine,
}

/// The digit that stands for `value`, for `value` in 0 to 9.
pub open spec fn digit_of(value: int) -> Digit {
    if value == 0 {
        Digit::Zero
    } else if value == 1 {
        Digit::One
    } else if value == 2 {
        Digit::Two
    } else if value == 3 {
        Digit::Three
    } else if value == 4 {
        Digit::Four
    } else if value == 5 {
        Digit::Five
    } else if value == 6 {
        Digit::Six
    } else if value == 7 {
        Digit::Seven
    } else if value == 8 {
        Digit::Eight
    } else {
        Digit::Nine
    }
}

impl Digit {
    /// The integer that this digit stands for.
    pub open spec fn value(self) -> int {
        match self {
            Digit::Zero => 0,
            Digit::One => 1,
            Digit::Two => 2,
            Digit::Three => 3,
            Digit::Four => 4,
            Digit::Five => 5,
            Digit::Six => 6,
            Digit::Seven => 7,
            Digit::Eight => 8,
            Digit::Nine => 9,
        }
    }

    /// The integer that this digit stands for.
    pub fn to_u8(self) -> (value: u8)
        ensures
            value == self.value(),
    {
        match self {
            Digit::Zero => 0,
            Digit::One => 1,
            Digit::Two => 2,
            Digit::Three => 3,
            Digit::Four => 4,
            Digit::Five => 5,
            Digit::Six => 6,
            Digit::Seven => 7,
            Digit::Eight => 8,
            Digit::Nine => 9,
        }
    }
}

impl TryFrom<u8> for Digit {
    type Error = &'static str;

    /// The digit that stands for `integer`; integers above 9 are refused.
    fn try_from(integer: u8) -> (result: Result<Digit, &'static str>)
        ensures
            integer <= 9 ==> result == Ok::<Digit, &'static str>(digit_of(integer as int)),
            integer > 9 ==> result == Err::<Digit, &'static str>("Number out of range"),
    {
        match integer {
            0 => Ok(Digit::Zero),
            1 => Ok(Digit::One),
            2 => Ok(Digit::Two),
            3 => Ok(Digit::Three),
            4 => Ok(Digit::Four),
            5 => Ok(Digit::Five),
            6 => Ok(Digit::Six),
            7 => Ok(Digit::Seven),
            8 => Ok(Digit::Eight),
            9 => Ok(Digit::Nine),
            _ => Err("Number out of range"),
        }
    }
}

impl TryFromSpecImpl<u8> for Digit {
    open spec fn obeys_try_from_spec() -> bool {
        true
    }

    open spec fn try_from_spec(integer: u8) -> Result<Digit, &'static str> {
        if integer <= 9 {
            Ok(digit_of(integer as int))
        } else {
            Err("Number out of range")
        }
    }
}

/// What the conversion from an integer gives: the digit, or the refusal.
pub open spec fn converted(integer: u8) -> Result<Digit, &'static str> {
    <Digit as TryFromSpec<u8>>::try_from_spec(integer)
}

/// Every integer from 0 to 9 comes back from the digit that stands for it,
/// and no digit stands for another integer.
pub proof fn lemma_integer_round_trip(integer: u8)
    ensures
        integer <= 9 ==> converted(integer) is Ok && converted(integer)->Ok_0.value() == integer,
        integer > 9 ==> converted(integer) is Err,
{
}

/// Every digit stands for an integer from 0 to 9 and comes back from it.
pub proof fn lemma_digit_round_trip(digit: Digit)
    ensures
        0 <= digit.value() <= 9,
        digit_of(digit.value()) == digit,
        converted(digit.value() as u8) == Ok::<Digit, &'static str>(digit),
{
}

} // verus!
