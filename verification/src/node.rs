use crate::outside::random_u16;
use crate::text::{append_bytes, ascii, literal_bytes};
use vstd::prelude::*;

verus! {

/// A number in decimal digits, without leading zeros.
pub open spec fn decimal(number: nat) -> Seq<u8>
    decreases number,
{
    if number < 10 {
        seq![(48 + number) as u8]
    } else {
        decimal(number / 10).push((48 + number % 10) as u8)
    }
}

/// The address of a node on this machine that listens on the given port.
pub open spec fn local_address(port: u16) -> Seq<u8> {
    ascii("127.0.0.1:"@) + decimal(port as nat)
}

/// Appends a number in decimal digits to `out`.
pub fn push_decimal(out: &mut Vec<u8>, number: u16)
    ensures
        final(out)@ == old(out)@ + decimal(number as nat),
    decreases number,
{
    if number < 10 {
        out.push((48 + number) as u8);
        assert(out@ =~= old(out)@ + decimal(number as nat));
    } else {
        push_decimal(out, number / 10);
        out.push((48 + number % 10) as u8);
        assert(out@ =~= old(out)@ + decimal(number as nat));
    }
}

/// The address of a node on this machine that listens on the given port.
pub fn node_address(port: u16) -> (address: Vec<u8>)
    ensures
        address@ == local_address(port),
{
    proof {
        reveal_strlit("127.0.0.1:");
    }
    let mut address: Vec<u8> = Vec::new();
    append_bytes(&mut address, literal_bytes("127.0.0.1:"));
    push_decimal(&mut address, port);
    address
}

/// An address for a node on this machine, on a port picked at random.
pub fn pick_node_address() -> (address: Vec<u8>)
    ensures
        exists|port: u16| address@ == local_address(port),
{
    node_address(random_u16())
}

} // verus!
