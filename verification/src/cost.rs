//! Costs as they are written to the request log.

use crate::text::{decimal, digit};
use vstd::arithmetic::power::pow;
use vstd::prelude::*;

verus! {

/// The largest mantissa that `rust_decimal::Decimal` can hold.
pub const MAX_MANTISSA: u128 = 0xffff_ffff_ffff_ffff_ffff_ffff;

/// The largest scale that `rust_decimal::Decimal` can hold.
pub const MAX_SCALE: u32 = 28;

/// An amount of money: a sign and a mantissa, to be divided by ten to the power
/// of the scale. Zero has a sign too.
#[derive(Debug)]
pub struct Amount {
    negative: bool,
    mantissa: u128,
    scale: u32,
}

impl Amount {
    #[verifier::type_invariant]
    spec fn well_formed(self) -> bool {
        self.mantissa <= MAX_MANTISSA && self.scale <= MAX_SCALE
    }

    /// Whether the sign is a minus.
    pub closed spec fn is_negative(self) -> bool {
        self.negative
    }

    /// The mantissa, without the sign.
    pub closed spec fn mantissa(self) -> nat {
        self.mantissa as nat
    }

    /// The scale.
    pub closed spec fn scale(self) -> nat {
        self.scale as nat
    }

    /// The text of the amount, as characters.
    pub open spec fn text_spec(self) -> Seq<char> {
        amount_text(self.is_negative(), self.mantissa(), self.scale())
    }

    /// An amount, where a decimal number can hold the mantissa and the scale.
    pub fn new(negative: bool, mantissa: u128, scale: u32) -> (amount: Option<Amount>)
        ensures
            amount is Some <==> mantissa <= MAX_MANTISSA && scale <= MAX_SCALE,
            amount matches Some(amount) ==> amount.is_negative() == negative
                && amount.mantissa() == mantissa && amount.scale() == scale,
    {
        if mantissa > MAX_MANTISSA || scale > MAX_SCALE {
            None
        } else {
            Some(Amount { negative, mantissa, scale })
        }
    }

    /// The text of the amount.
    pub fn text(&self) -> (text: String)
        ensures
            text@ == self.text_spec(),
    {
        proof {
            use_type_invariant(self);
        }
        decimal_number_text(self.negative, self.mantissa, self.scale)
    }
}

/// The last `width` digits of a number, leading zeros and all.
pub open spec fn last_digits(number: nat, width: nat) -> Seq<char>
    decreases width,
{
    if width == 0 {
        Seq::empty()
    } else {
        last_digits(number / 10, (width - 1) as nat).push(digit(number % 10))
    }
}

/// The text of an amount: a minus sign where it is negative, the whole part,
/// and, where the scale is not zero, a point and as many digits as the scale
/// says.
pub open spec fn amount_text(negative: bool, mantissa: nat, scale: nat) -> Seq<char> {
    let sign = if negative {
        seq!['-']
    } else {
        Seq::empty()
    };
    let whole = decimal((mantissa as int / pow(10, scale)) as nat);
    let fraction = if scale == 0 {
        Seq::empty()
    } else {
        seq!['.'] + last_digits(mantissa, scale)
    };
    sign + whole + fraction
}

/// `rust_decimal::Decimal::from_i128_with_scale`, the sign set by
/// `Decimal::set_sign_negative`, and the number's text.
///
/// Claimed: the text is the mantissa's digits with a point before the last
/// `scale` of them, filled up with zeros, and a minus sign where the sign is
/// negative, before a zero too. Larger mantissas and scales make the call panic.
#[verifier::external_body]
fn decimal_number_text(negative: bool, mantissa: u128, scale: u32) -> (text: String)
    requires
        mantissa <= MAX_MANTISSA,
        scale <= MAX_SCALE,
    ensures
        text@ == amount_text(negative, mantissa as nat, scale as nat),
{
    let mut number = rust_decimal::Decimal::from_i128_with_scale(mantissa as i128, scale);
    number.set_sign_negative(negative);
    number.to_string()
}

/// What a request costs, part by part.
#[derive(Debug)]
pub struct CostBreakdown {
    pub input_cost: Amount,
    pub output_cost: Amount,
    pub cache_read_cost: Amount,
    pub cache_creation_cost: Amount,
    pub total_cost: Amount,
}

/// The texts of a request's costs.
#[derive(Debug)]
pub struct CostTexts {
    pub input_cost: String,
    pub output_cost: String,
    pub cache_read_cost: String,
    pub cache_creation_cost: String,
    pub total_cost: String,
}

/// The texts of a request's costs, as characters.
pub struct CostTextsView {
    pub input_cost: Seq<char>,
    pub output_cost: Seq<char>,
    pub cache_read_cost: Seq<char>,
    pub cache_creation_cost: Seq<char>,
    pub total_cost: Seq<char>,
}

impl View for CostTexts {
    type V = CostTextsView;

    open spec fn view(&self) -> CostTextsView {
        CostTextsView {
            input_cost: self.input_cost@,
            output_cost: self.output_cost@,
            cache_read_cost: self.cache_read_cost@,
            cache_creation_cost: self.cache_creation_cost@,
            total_cost: self.total_cost@,
        }
    }
}

/// The texts of a request's costs; zeros where the costs are not known.
pub open spec fn cost_texts_of(costs: Option<CostBreakdown>) -> CostTextsView {
    match costs {
        Some(costs) => CostTextsView {
            input_cost: costs.input_cost.text_spec(),
            output_cost: costs.output_cost.text_spec(),
            cache_read_cost: costs.cache_read_cost.text_spec(),
            cache_creation_cost: costs.cache_creation_cost.text_spec(),
            total_cost: costs.total_cost.text_spec(),
        },
        None => CostTextsView {
            input_cost: "0"@,
            output_cost: "0"@,
            cache_read_cost: "0"@,
            cache_creation_cost: "0"@,
            total_cost: "0"@,
        },
    }
}

/// The texts of a request's costs; zeros where the costs are not known.
pub fn cost_texts(costs: &Option<CostBreakdown>) -> (texts: CostTexts)
    ensures
        texts@ == cost_texts_of(*costs),
{
    match costs {
        Some(costs) => CostTexts {
            input_cost: costs.input_cost.text(),
            output_cost: costs.output_cost.text(),
            cache_read_cost: costs.cache_read_cost.text(),
            cache_creation_cost: costs.cache_creation_cost.text(),
            total_cost: costs.total_cost.text(),
        },
        None => CostTexts {
            input_cost: "0".to_owned(),
            output_cost: "0".to_owned(),
            cache_read_cost: "0".to_owned(),
            cache_creation_cost: "0".to_owned(),
            total_cost: "0".to_owned(),
        },
    }
}

} // verus!
