//! IPv4 addresses.

use vstd::prelude::*;
use crate::text::{decimal, push_char, push_decimal};

verus! {

/// An IPv4 address, as its four octets.
#[derive(Clone, Copy, Debug, PartialEq, Eq, Hash, Structural)]
pub struct Ipv4Addr {
    pub a: u8,
    pub b: u8,
    pub c: u8,
    pub d: u8,
}

/// The dotted-decimal text of an address.
pub open spec fn ipv4_text(ip: Ipv4Addr) -> Seq<char> {
    decimal(ip.a as nat) + seq!['.'] + decimal(ip.b as nat) + seq!['.'] + decimal(ip.c as nat)
        + seq!['.'] + decimal(ip.d as nat)
}

impl Ipv4Addr {
    /// The address with the given octets.
    pub fn new(a: u8, b: u8, c: u8, d: u8) -> (r: Ipv4Addr)
        ensures
            r == (Ipv4Addr { a, b, c, d }),
    {
        Ipv4Addr { a, b, c, d }
    }

    /// Dotted-decimal text, such as `172.16.0.1`.
    pub fn to_string(&self) -> (s: String)
        ensures
            s@ == ipv4_text(*self),
    {
        let mut s = String::new();
        push_decimal(&mut s, self.a as u64);
        push_char(&mut s, '.');
        push_decimal(&mut s, self.b as u64);
        push_char(&mut s, '.');
        push_decimal(&mut s, self.c as u64);
        push_char(&mut s, '.');
        push_decimal(&mut s, self.d as u64);
        assert(s@ =~= ipv4_text(*self));
        s
    }
}

impl crate::copy::DeepCopy for Ipv4Addr {
    fn deep_copy(&self) -> (r: Self) {
        *self
    }
}

} // verus!
