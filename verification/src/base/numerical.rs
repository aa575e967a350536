use vstd::prelude::*;

verus! {

/// Whether `num` is a power of two (zero is not).
pub open spec fn spec_is_power_of_two(num: int) -> bool
    decreases num,
{
    if num <= 0 {
        false
    } else if num == 1 {
        true
    } else {
        num % 2 == 0 && spec_is_power_of_two(num / 2)
    }
}

/// Whether `num` is a power of two, decided by the bit trick
/// `num & (num - 1) == 0`.
pub fn is_power_of_two(num: u64) -> (r: bool)
    ensures
        r == spec_is_power_of_two(num as int),
{
    let r = num != 0 && (num & (num - 1)) == 0;
    proof {
        lemma_power_of_two_bit_trick(num);
    }
    r
}

/// The bit trick agrees with the arithmetic definition of a power of two.
proof fn lemma_power_of_two_bit_trick(num: u64)
    ensures
        (num != 0 && (num & (num - 1) as u64) == 0) == spec_is_power_of_two(num as int),
    decreases num,
{
    if num == 0 {
    } else if num == 1 {
        assert((1u64 & 0u64) == 0) by (bit_vector);
    } else {
        lemma_power_of_two_bit_trick(num / 2);
        let half = num / 2;
        assert(num > 1 ==> ((num & (num - 1) as u64) == 0) == (num % 2 == 0 && ((num / 2) & (num
            / 2 - 1) as u64) == 0)) by (bit_vector);
    }
}

} // verus!
