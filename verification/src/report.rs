//! Reports.
//!
//! A report is a tree of named values. A tracker states it as rows, one for
//! each leaf: the path to the leaf and what stands there, a number of the
//! tracker's own or a statistic of one of its channels.

use crate::fraction::Fraction;
use crate::observation::Channel;
use crate::text::push_decimal;
use vstd::prelude::*;
use vstd::string::*;

verus! {

/// The path of a value in a report, from the root.
#[derive(Debug, Clone, Copy, PartialEq, Eq)]
pub enum Key {
    One(&'static str),
    Two(&'static str, &'static str),
    Three(&'static str, &'static str, &'static str),
    Four(&'static str, &'static str, &'static str, &'static str),
}

/// A value in a report.
#[derive(Debug, Clone, Copy, PartialEq, Eq)]
pub enum Value {
    Text(&'static str),
    Count(u64),
    Number(Fraction),
    Null,
    /// An object without members, unless other rows give it some.
    EmptyObject,
    /// An array without elements, unless other rows give it some.
    EmptyArray,
    /// `mean` and `std` of a channel.
    MeanStd(Channel),
    /// `mean`, `std` and `count` of a channel.
    MeanStdCount(Channel),
    /// `mean`, `std`, `min` and `max` of a channel.
    MeanStdMinMax(Channel),
    /// The summary of a channel's distribution.
    Summary(Channel),
    /// The minutes of a channel's curve that have values, each with
    /// `minutes_since_open`, the mean under `mean_key`, the standard deviation
    /// under `std_key` where there is one, and `count`.
    Curve { channel: Channel, mean_key: &'static str, std_key: Option<&'static str> },
    /// The mean of the first channel over that of the second, or null where the
    /// latter is not above one trillionth.
    MeanQuotient(Channel, Channel),
    /// An element of the array at the path: `size_bucket`,
    /// `effective_spread_mean`, `effective_spread_std` and `count`.
    SizeBucket { label: &'static str, channel: Channel },
}

/// One value of a report.
#[derive(Debug, Clone, Copy, PartialEq, Eq)]
pub struct Row {
    pub key: Key,
    pub value: Value,
}

impl Row {
    /// A value at the root.
    pub open spec fn at(name: &'static str, value: Value) -> Row {
        Row { key: Key::One(name), value }
    }

    /// A value one level below the root.
    pub open spec fn below(group: &'static str, name: &'static str, value: Value) -> Row {
        Row { key: Key::Two(group, name), value }
    }

    /// A value two levels below the root.
    pub open spec fn within(
        group: &'static str,
        part: &'static str,
        name: &'static str,
        value: Value,
    ) -> Row {
        Row { key: Key::Three(group, part, name), value }
    }

    /// A curve at the root, with its standard deviations.
    pub open spec fn curve_at(
        name: &'static str,
        channel: Channel,
        mean_key: &'static str,
    ) -> Row {
        Row::at(name, Value::Curve { channel, mean_key, std_key: Some("std") })
    }

    /// A curve at the root, without standard deviations.
    pub open spec fn bare_curve_at(
        name: &'static str,
        channel: Channel,
        mean_key: &'static str,
    ) -> Row {
        Row::at(name, Value::Curve { channel, mean_key, std_key: None })
    }

    /// A value at the root.
    pub fn top(name: &'static str, value: Value) -> (r: Row)
        ensures
            r == Self::at(name, value),
    {
        Row { key: Key::One(name), value }
    }

    /// A value one level below the root.
    pub fn nested(group: &'static str, name: &'static str, value: Value) -> (r: Row)
        ensures
            r == Self::below(group, name, value),
    {
        Row { key: Key::Two(group, name), value }
    }

    /// A value two levels below the root.
    pub fn deep(
        group: &'static str,
        part: &'static str,
        name: &'static str,
        value: Value,
    ) -> (r: Row)
        ensures
            r == Self::within(group, part, name, value),
    {
        Row { key: Key::Three(group, part, name), value }
    }

    /// A curve at the root, with its standard deviations.
    pub fn curve(name: &'static str, channel: Channel, mean_key: &'static str) -> (r: Row)
        ensures
            r == Self::curve_at(name, channel, mean_key),
    {
        Row::top(name, Value::Curve { channel, mean_key, std_key: Some("std") })
    }

    /// A curve at the root, without standard deviations.
    pub fn bare_curve(name: &'static str, channel: Channel, mean_key: &'static str) -> (r: Row)
        ensures
            r == Self::bare_curve_at(name, channel, mean_key),
    {
        Row::top(name, Value::Curve { channel, mean_key, std_key: None })
    }
}

/// The file name of a report: its position, counted from one, in at least two
/// digits, and its name.
pub fn report_file_name(index: usize, name: &str) -> (r: String)
    requires
        index < u64::MAX,
    ensures
        r@ == crate::text::decimal_text((index + 1) as nat, 2) + "_"@ + name@ + ".json"@,
{
    let mut text: String = String::new();
    push_decimal(&mut text, index as u64 + 1, 2);
    text.append("_");
    text.append(name);
    text.append(".json");
    proof {
        reveal_strlit("");
    }
    assert(text@ =~= crate::text::decimal_text((index + 1) as nat, 2) + "_"@ + name@ + ".json"@);
    text
}

/// `scale * part / whole`, and zero where there is no whole.
pub open spec fn share_of(part: nat, whole: nat, scale: nat) -> Value {
    if whole > 0 {
        Value::Number(Fraction { num: (part * scale) as i128, den: whole as u128 })
    } else {
        Value::Number(Fraction { num: 0, den: 1 })
    }
}

/// `part / whole`, and null where there is no whole.
pub open spec fn quotient_of(part: nat, whole: nat) -> Value {
    if whole > 0 {
        Value::Number(Fraction { num: part as i128, den: whole as u128 })
    } else {
        Value::Null
    }
}

/// A share of a whole: `part / whole` for scale 1, percent for scale 100.
pub fn share(part: u64, whole: u64, scale: u32) -> (r: Value)
    ensures
        r == share_of(part as nat, whole as nat, scale as nat),
{
    if whole > 0 {
        assert(0 <= part * scale <= 0xffff_ffff_ffff_ffff * 0xffff_ffff) by (nonlinear_arith)
            requires
                0 <= part <= 0xffff_ffff_ffff_ffff,
                0 <= scale <= 0xffff_ffff,
        ;
        Value::Number(Fraction { num: part as i128 * scale as i128, den: whole as u128 })
    } else {
        Value::Number(Fraction { num: 0, den: 1 })
    }
}

/// A ratio of two counts.
pub fn quotient(part: u64, whole: u64) -> (r: Value)
    ensures
        r == quotient_of(part as nat, whole as nat),
{
    if whole > 0 {
        Value::Number(Fraction { num: part as i128, den: whole as u128 })
    } else {
        Value::Null
    }
}

/// A share and a ratio by their parts: `scale * part / whole` and `part / whole`
/// where there is a whole, and otherwise zero and null.
pub proof fn law_shares_and_ratios(part: u64, whole: u64, scale: u32)
    ensures
        share_of(part as nat, whole as nat, scale as nat) matches Value::Number(share) && if whole
            > 0 {
            share.is_quotient(part * scale, whole as int)
        } else {
            share.is_quotient(0, 1)
        },
        whole == 0 <==> quotient_of(part as nat, whole as nat) == Value::Null,
        whole > 0 ==> (quotient_of(part as nat, whole as nat) matches Value::Number(ratio)
            && ratio.is_quotient(part as int, whole as int)),
{
    assert(0 <= part * scale <= 0xffff_ffff_ffff_ffff * 0xffff_ffff) by (nonlinear_arith)
        requires
            0 <= part <= 0xffff_ffff_ffff_ffff,
            0 <= scale <= 0xffff_ffff,
    ;
}

} // verus!
