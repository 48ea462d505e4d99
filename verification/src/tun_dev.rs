//! Netmasks and networks of tunnel addresses.

use crate::net::Ipv4Addr;
use crate::text;
use vstd::arithmetic::power2::*;
use vstd::prelude::*;

verus! {

/// How many addresses a network of this prefix length has.
pub open spec fn network_size(prefix: u8) -> nat {
    pow2((32 - prefix) as nat)
}

/// The netmask of a prefix length as a number.
pub open spec fn mask_bits(prefix: u8) -> nat {
    (0x1_0000_0000 - network_size(prefix)) as nat
}

/// The first address of the network that the address `bits` lies in.
pub open spec fn network_bits(bits: nat, prefix: u8) -> nat {
    (bits - bits % network_size(prefix)) as nat
}

/// The shifted mask of a prefix length that is not zero.
fn shifted_mask(prefix: u8) -> (r: u32)
    requires
        1 <= prefix <= 32,
    ensures
        r == mask_bits(prefix),
        forall|x: u32| #[trigger] (x & r) == network_bits(x as nat, prefix),
{
    let shift: u32 = 32 - prefix as u32;
    let mask: u32 = u32::MAX << shift;
    proof {
        let size: u32 = 1u32 << shift;
        lemma2_to64();
        if shift < 31 {
            lemma_pow2_strictly_increases(shift as nat, 31);
        }
        vstd::bits::lemma_u32_shl_is_mul(1, shift);
        assert(size == network_size(prefix));
        assert((u32::MAX << shift) + (1u32 << shift) == 0x1_0000_0000) by (bit_vector)
            requires
                shift < 32,
        ;
        assert forall|x: u32| #[trigger] (x & mask) == network_bits(x as nat, prefix) by {
            vstd::bits::lemma_u32_low_bits_mask_is_mod(x, shift as nat);
            assert((x & (u32::MAX << shift)) == x - (x & ((1u32 << shift) - 1) as u32)) by (bit_vector)
                requires
                    shift < 32,
            ;
        }
    }
    mask
}

/// The netmask of a prefix length.
pub fn prefix_to_netmask(prefix: u8) -> (r: Ipv4Addr)
    requires
        prefix <= 32,
    ensures
        r.bits() == mask_bits(prefix),
{
    if prefix == 0 {
        proof {
            lemma2_to64();
        }
        return Ipv4Addr::new(0, 0, 0, 0);
    }
    Ipv4Addr::from_bits(shifted_mask(prefix))
}

/// The network that an address lies in.
pub fn ipv4_network(addr: Ipv4Addr, prefix: u8) -> (r: Ipv4Addr)
    requires
        prefix <= 32,
    ensures
        r.bits() == network_bits(addr.bits(), prefix),
{
    if prefix == 0 {
        proof {
            lemma2_to64();
            vstd::arithmetic::div_mod::lemma_small_mod(addr.bits(), 0x1_0000_0000);
        }
        return Ipv4Addr::new(0, 0, 0, 0);
    }
    let mask: u32 = shifted_mask(prefix);
    let bits: u32 = addr.to_bits();
    Ipv4Addr::from_bits(bits & mask)
}

/// The network that an address lies in, as "10.66.66.0/24".
pub fn network_cidr(addr: Ipv4Addr, prefix: u8) -> (r: String)
    requires
        prefix <= 32,
    ensures
        exists|network: Ipv4Addr| #[trigger]
            network.bits() == network_bits(addr.bits(), prefix) && r@ == network.dotted() + "/"@
                + text::decimal(prefix as nat),
{
    let network: Ipv4Addr = ipv4_network(addr, prefix);
    let mut out: String = network.to_text();
    out.append("/");
    text::push_decimal(&mut out, prefix as u64);
    out
}

/// An address lies in its network, and the network's first address is its own
/// network.
pub proof fn law_address_lies_in_its_network(bits: nat, prefix: u8)
    requires
        prefix <= 32,
    ensures
        network_bits(bits, prefix) <= bits < network_bits(bits, prefix) + network_size(prefix),
        network_bits(network_bits(bits, prefix), prefix) == network_bits(bits, prefix),
{
    let size = network_size(prefix);
    lemma_pow2_pos((32 - prefix) as nat);
    vstd::arithmetic::div_mod::lemma_fundamental_div_mod(bits as int, size as int);
    vstd::arithmetic::div_mod::lemma_mod_multiples_basic((bits / size) as int, size as int);
    assert((bits / size) * size == size * (bits / size)) by (nonlinear_arith);
}

/// A network of one prefix length more is half as large, one of 32 bits is a
/// single address and one of none is all of them; the mask leaves out just the
/// addresses of one network.
pub proof fn law_network_sizes(prefix: u8)
    requires
        prefix < 32,
    ensures
        network_size(prefix) == 2 * network_size((prefix + 1) as u8),
        network_size(32) == 1,
        network_size(0) == 0x1_0000_0000,
        mask_bits(prefix) + network_size(prefix) == 0x1_0000_0000,
        mask_bits(32) == 0xffff_ffff,
{
    lemma2_to64();
    lemma_pow2_unfold((32 - prefix) as nat);
    lemma_pow2_pos((32 - prefix) as nat);
    if prefix > 0 {
        lemma_pow2_strictly_increases((32 - prefix) as nat, 32);
    }
}

/// Two addresses lie in one network exactly where they agree in all that the
/// mask covers.
pub proof fn law_same_network(x: nat, y: nat, prefix: u8)
    requires
        prefix <= 32,
    ensures
        network_bits(x, prefix) == network_bits(y, prefix) <==> x / network_size(prefix) == y
            / network_size(prefix),
        network_bits(x, prefix) % network_size(prefix) == 0,
{
    let size = network_size(prefix);
    lemma_pow2_pos((32 - prefix) as nat);
    vstd::arithmetic::div_mod::lemma_fundamental_div_mod(x as int, size as int);
    vstd::arithmetic::div_mod::lemma_fundamental_div_mod(y as int, size as int);
    let p = x / size;
    let q = y / size;
    assert(network_bits(x, prefix) == size * p);
    assert(network_bits(y, prefix) == size * q);
    assert(size * p == size * q ==> p == q) by (nonlinear_arith)
        requires
            size > 0,
    ;
    vstd::arithmetic::div_mod::lemma_mod_multiples_basic(p as int, size as int);
    assert(p * size == size * p) by (nonlinear_arith);
}

} // verus!
