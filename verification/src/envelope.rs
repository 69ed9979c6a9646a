//! The common form of turns, whichever channel they come by.

use crate::strings::same;
use std::collections::HashMap;
use vstd::prelude::*;

verus! {

/// A double-precision number by its bits, without its sign.
pub open spec fn magnitude(bits: u64) -> u64 {
    if bits < 0x8000_0000_0000_0000 {
        bits
    } else {
        (bits - 0x8000_0000_0000_0000) as u64
    }
}

/// The bits are those of no number.
pub open spec fn is_nan(bits: u64) -> bool {
    magnitude(bits) > 0x7ff0_0000_0000_0000
}

/// The bits `a` and `b` are those of equal numbers: zero is equal to zero whatever their signs, and
/// what is no number is equal to nothing.
pub open spec fn equal_numbers(a: u64, b: u64) -> bool {
    &&& !is_nan(a)
    &&& !is_nan(b)
    &&& a == b || (magnitude(a) == 0 && magnitude(b) == 0)
}

/// A double-precision number by its bits, without its sign.
fn without_sign(bits: u64) -> (r: u64)
    ensures
        r == magnitude(bits),
{
    if bits < 0x8000_0000_0000_0000 {
        bits
    } else {
        bits - 0x8000_0000_0000_0000
    }
}

/// Whether the bits `a` and `b` are those of equal double-precision numbers.
pub fn same_number(a: u64, b: u64) -> (r: bool)
    ensures
        r == equal_numbers(a, b),
{
    let x: u64 = without_sign(a);
    let y: u64 = without_sign(b);
    x <= 0x7ff0_0000_0000_0000 && y <= 0x7ff0_0000_0000_0000 && (a == b || (x == 0 && y == 0))
}

/// What a channel says of itself.
#[derive(Debug, Clone)]
pub struct ChannelContext {
    pub channel_id: String,
    pub user_id: String,
    pub channel_type: String,
    /// When the connection began, in seconds: the bits of the double-precision number.
    pub connection_start: u64,
}

impl PartialEq for ChannelContext {
    fn eq(&self, other: &Self) -> (r: bool) {
        same(self.channel_id.as_str(), other.channel_id.as_str()) && same(
            self.user_id.as_str(),
            other.user_id.as_str(),
        ) && same(self.channel_type.as_str(), other.channel_type.as_str()) && same_number(
            self.connection_start,
            other.connection_start,
        )
    }
}

impl vstd::std_specs::cmp::PartialEqSpecImpl for ChannelContext {
    open spec fn obeys_eq_spec() -> bool {
        true
    }

    open spec fn eq_spec(&self, other: &Self) -> bool {
        &&& self.channel_id@ == other.channel_id@
        &&& self.user_id@ == other.user_id@
        &&& self.channel_type@ == other.channel_type@
        &&& equal_numbers(self.connection_start, other.connection_start)
    }
}

/// A turn with what its channel says of itself.
#[derive(Debug, Clone, PartialEq)]
pub struct TurnEnvelope {
    pub text: String,
    pub context: ChannelContext,
    /// Whatever else the channel has to say.
    pub metadata: HashMap<String, String>,
}

impl TurnEnvelope {
    /// A turn of which the channel has nothing else to say.
    pub fn new(text: &str, context: ChannelContext) -> (r: Self)
        ensures
            r.text@ == text@,
            r.context == context,
            r.metadata@ == Map::<String, String>::empty(),
    {
        TurnEnvelope { text: text.to_owned(), context, metadata: HashMap::new() }
    }
}

/// A number is equal to itself and what is no number is not; zero is equal to zero below zero; two
/// numbers that differ in anything else are not equal.
pub proof fn law_numbers_are_equal_by_value(a: u64, b: u64)
    ensures
        equal_numbers(a, a) <==> !is_nan(a),
        equal_numbers(0, 0x8000_0000_0000_0000),
        equal_numbers(a, b) ==> equal_numbers(b, a),
        a != b && equal_numbers(a, b) ==> a == 0 || b == 0,
        is_nan(a) <==> 0x7ff0_0000_0000_0000 < a < 0x8000_0000_0000_0000 || a
            > 0xfff0_0000_0000_0000,
{
}

} // verus!
