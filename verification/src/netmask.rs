use vstd::prelude::*;
use crate::error::AddressError;

verus! {

/// The IPv4 netmask, as a big-endian `u32`, whose `prefix` leading bits are set
/// and whose other bits are clear.
pub open spec fn ipv4_mask(prefix: u32) -> u32
    recommends
        prefix <= 32,
{
    if prefix == 0 {
        0
    } else {
        0xffff_ffffu32 << ((32 - prefix) as u32)
    }
}

/// Bits of an IPv4 mask: bit `i` (counted from the least significant) is set
/// exactly when it lies among the `prefix` leading bits.
pub proof fn law_ipv4_mask_bits(prefix: u32, i: u32)
    requires
        prefix <= 32,
        i < 32,
    ensures
        ((ipv4_mask(prefix) >> i) & 1u32 == 1u32) <==> (i >= 32 - prefix),
{
    assert(((if prefix == 0 { 0u32 } else { 0xffff_ffffu32 << ((32 - prefix) as u32) }) >> i) & 1u32
        == 1u32 <==> i >= ((32 - prefix) as u32)) by (bit_vector)
        requires
            prefix <= 32,
            i < 32,
    ;
}

/// The prefix length of an IPv4 netmask given as a prefix length: accepted
/// when it is at most 32.
pub fn ipv4_prefix_from_len(len: u8) -> (r: Result<u8, AddressError>)
    ensures
        len <= 32 ==> r == Ok::<u8, AddressError>(len),
        len > 32 ==> r == Err::<u8, AddressError>(AddressError::InvalidPrefixLength),
{
    if len > 32 {
        return Err(AddressError::InvalidPrefixLength);
    }
    Ok(len)
}

/// The IPv4 netmask with `prefix` leading one-bits.
pub fn ipv4_netmask(prefix: u8) -> (r: u32)
    requires
        prefix <= 32,
    ensures
        r == ipv4_mask(prefix as u32),
{
    if prefix == 0 {
        0
    } else {
        u32::MAX << (32 - prefix as u32)
    }
}

/// The prefix length of an IPv4 netmask given as a mask: accepted when its
/// one-bits are exactly its leading bits, and then the number of them.
pub fn ipv4_prefix_from_mask(mask: u32) -> (r: Result<u8, AddressError>)
    ensures
        (exists|p: u32| p <= 32 && mask == #[trigger] ipv4_mask(p)) <==> r is Ok,
        r matches Ok(p) ==> p <= 32 && mask == ipv4_mask(p as u32),
        r matches Err(e) ==> e == AddressError::InvalidNetmask,
{
    let ones = mask.leading_ones();
    proof {
        vstd::std_specs::bits::axiom_u32_leading_ones(mask);
    }
    let candidate = ipv4_netmask(ones as u8);
    if candidate != mask {
        proof {
            assert forall|p: u32| p <= 32 implies mask != #[trigger] ipv4_mask(p) by {
                let lo = ones;
                let m = mask;
                assert((lo < 32 ==> (m >> ((31 - lo) as u32)) & 1u32 == 0u32) && (!m) >> ((32 - lo) as u32)
                    == 0 && lo <= 32 && p <= 32 && m == (if p == 0 { 0u32 } else { 0xffff_ffffu32
                    << ((32 - p) as u32) }) ==> p == lo) by (bit_vector);
            }
        }
        return Err(AddressError::InvalidNetmask);
    }
    Ok(ones as u8)
}


/// Distinct IPv4 prefix lengths give distinct netmasks, so a netmask
/// determines its prefix length: converting a prefix length to a netmask and
/// back gives the prefix length again.
pub proof fn law_ipv4_mask_determines_prefix(p: u32, q: u32)
    requires
        p <= 32,
        q <= 32,
        ipv4_mask(p) == ipv4_mask(q),
    ensures
        p == q,
{
    assert((if p == 0 { 0u32 } else { 0xffff_ffffu32 << ((32 - p) as u32) }) == (if q == 0 { 0u32 }
    else { 0xffff_ffffu32 << ((32 - q) as u32) }) && p <= 32 && q <= 32 ==> p == q) by (bit_vector);
}

/// The IPv6 netmask, as a big-endian `u128`, whose `prefix` leading bits are
/// set and whose other bits are clear.
pub open spec fn ipv6_mask(prefix: u32) -> u128
    recommends
        prefix <= 128,
{
    if prefix == 0 {
        0
    } else {
        0xffff_ffff_ffff_ffff_ffff_ffff_ffff_ffffu128 << ((128 - prefix) as u128)
    }
}

/// Bits of an IPv6 mask: bit `i` (counted from the least significant) is set
/// exactly when it lies among the `prefix` leading bits.
pub proof fn law_ipv6_mask_bits(prefix: u32, i: u32)
    requires
        prefix <= 128,
        i < 128,
    ensures
        ((ipv6_mask(prefix) >> (i as u128)) & 1u128 == 1u128) <==> (i >= 128 - prefix),
{
    let pp = prefix as u128;
    let ii = i as u128;
    assert(((if pp == 0 { 0u128 } else { 0xffff_ffff_ffff_ffff_ffff_ffff_ffff_ffffu128 << ((128
        - pp) as u128) }) >> ii) & 1u128 == 1u128 <==> ii >= 128 - pp) by (bit_vector)
        requires
            pp <= 128,
            ii < 128,
    ;
}

/// Distinct IPv6 prefix lengths give distinct netmasks.
pub proof fn law_ipv6_mask_determines_prefix(p: u32, q: u32)
    requires
        p <= 128,
        q <= 128,
        ipv6_mask(p) == ipv6_mask(q),
    ensures
        p == q,
{
    if p != q {
        let k: u32 = if p < q { p } else { q };
        // the bit just below the shorter prefix tells the two masks apart
        law_ipv6_mask_bits(p, (127 - k) as u32);
        law_ipv6_mask_bits(q, (127 - k) as u32);
    }
}

/// The prefix length of an IPv6 netmask given as a prefix length: accepted
/// when it is at most 128.
pub fn ipv6_prefix_from_len(len: u8) -> (r: Result<u8, AddressError>)
    ensures
        len <= 128 ==> r == Ok::<u8, AddressError>(len),
        len > 128 ==> r == Err::<u8, AddressError>(AddressError::InvalidPrefixLength),
{
    if len > 128 {
        return Err(AddressError::InvalidPrefixLength);
    }
    Ok(len)
}

/// The IPv6 netmask with `prefix` leading one-bits.
pub fn ipv6_netmask(prefix: u8) -> (r: u128)
    requires
        prefix <= 128,
    ensures
        r == ipv6_mask(prefix as u32),
{
    if prefix == 0 {
        0
    } else {
        u128::MAX << (128 - prefix as u32)
    }
}

/// The prefix length of an IPv6 netmask given as a mask: accepted when its
/// one-bits are exactly its leading bits, and then the number of them.
pub fn ipv6_prefix_from_mask(mask: u128) -> (r: Result<u8, AddressError>)
    ensures
        (exists|p: u32| p <= 128 && mask == #[trigger] ipv6_mask(p)) <==> r is Ok,
        r matches Ok(p) ==> p <= 128 && mask == ipv6_mask(p as u32),
        r matches Err(e) ==> e == AddressError::InvalidNetmask,
{
    // count the leading one-bits
    let mut ones: u32 = 0;
    while ones < 128 && (mask >> (127 - ones)) & 1 == 1
        invariant
            ones <= 128,
            forall|j: u32| 128 - ones <= j < 128 ==> (#[trigger] (mask >> (j as u128)) & 1u128)
                == 1u128,
        decreases 128 - ones,
    {
        ones = ones + 1;
    }
    let candidate = ipv6_netmask(ones as u8);
    if candidate != mask {
        proof {
            assert forall|p: u32| p <= 128 implies mask != #[trigger] ipv6_mask(p) by {
                if mask == ipv6_mask(p) {
                    if p < ones {
                        law_ipv6_mask_bits(p, (127 - p) as u32);
                        assert((mask >> (((127 - p) as u32) as u128)) & 1u128 == 1u128);
                    } else if p > ones {
                        law_ipv6_mask_bits(p, (127 - ones) as u32);
                    }
                }
            }
        }
        return Err(AddressError::InvalidNetmask);
    }
    Ok(ones as u8)
}


/// The IPv4 netmask for a prefix length: refused when it is longer than 32.
pub fn ipv4_netmask_from_len(len: u8) -> (r: Result<u32, AddressError>)
    ensures
        len <= 32 ==> r == Ok::<u32, AddressError>(ipv4_mask(len as u32)),
        len > 32 ==> r == Err::<u32, AddressError>(AddressError::InvalidPrefixLength),
{
    let prefix = match ipv4_prefix_from_len(len) {
        Ok(p) => p,
        Err(e) => return Err(e),
    };
    Ok(ipv4_netmask(prefix))
}

/// The IPv4 netmask for a mask: the mask itself when its one-bits are its
/// leading bits, else refused.
pub fn ipv4_netmask_from_mask(mask: u32) -> (r: Result<u32, AddressError>)
    ensures
        (exists|p: u32| p <= 32 && mask == #[trigger] ipv4_mask(p)) ==> r == Ok::<u32, AddressError>(mask),
        !(exists|p: u32| p <= 32 && mask == #[trigger] ipv4_mask(p)) ==> r == Err::<u32, AddressError>(AddressError::InvalidNetmask),
{
    let prefix = match ipv4_prefix_from_mask(mask) {
        Ok(p) => p,
        Err(e) => return Err(e),
    };
    Ok(ipv4_netmask(prefix))
}

/// The IPv6 netmask for a prefix length: refused when it is longer than 128.
pub fn ipv6_netmask_from_len(len: u8) -> (r: Result<u128, AddressError>)
    ensures
        len <= 128 ==> r == Ok::<u128, AddressError>(ipv6_mask(len as u32)),
        len > 128 ==> r == Err::<u128, AddressError>(AddressError::InvalidPrefixLength),
{
    let prefix = match ipv6_prefix_from_len(len) {
        Ok(p) => p,
        Err(e) => return Err(e),
    };
    Ok(ipv6_netmask(prefix))
}

/// The IPv6 netmask for a mask: the mask itself when its one-bits are its
/// leading bits, else refused.
pub fn ipv6_netmask_from_mask(mask: u128) -> (r: Result<u128, AddressError>)
    ensures
        (exists|p: u32| p <= 128 && mask == #[trigger] ipv6_mask(p)) ==> r == Ok::<u128, AddressError>(mask),
        !(exists|p: u32| p <= 128 && mask == #[trigger] ipv6_mask(p)) ==> r == Err::<u128, AddressError>(AddressError::InvalidNetmask),
{
    let prefix = match ipv6_prefix_from_mask(mask) {
        Ok(p) => p,
        Err(e) => return Err(e),
    };
    Ok(ipv6_netmask(prefix))
}

} // verus!
