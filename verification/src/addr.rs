//! Peer addresses as plain values.

use vstd::prelude::*;

use crate::text::{decimal, hex_number, push_decimal, push_hex_number};

verus! {

/// An IPv4 or IPv6 address, as its octets in network order.
#[derive(Debug, Clone, Copy, PartialEq, Eq, Hash, Structural)]
pub enum IpAddress {
    /// Four octets of an IPv4 address.
    V4(u8, u8, u8, u8),
    /// Eight 16-bit groups of an IPv6 address.
    V6(u16, u16, u16, u16, u16, u16, u16, u16),
}

/// The address of a peer: an IP address and a port.
#[derive(Debug, Clone, Copy, PartialEq, Eq, Hash, Structural)]
pub struct SocketAddress {
    /// The IP address.
    pub ip: IpAddress,
    /// The UDP or TCP port.
    pub port: u16,
}

/// An IP address as text: an IPv4 address in dotted notation; an IPv6
/// address as its eight groups in lower-case hexadecimal without leading
/// zeros, with colons between them, in square brackets.
pub open spec fn ip_address_text(ip: IpAddress) -> Seq<char> {
    match ip {
        IpAddress::V4(a, b, c, d) => decimal(a as nat) + seq!['.'] + decimal(b as nat) + seq!['.']
            + decimal(c as nat) + seq!['.'] + decimal(d as nat),
        IpAddress::V6(a, b, c, d, e, f, g, h) => seq!['['] + hex_number(a as nat) + seq![':']
            + hex_number(b as nat) + seq![':'] + hex_number(c as nat) + seq![':'] + hex_number(
            d as nat,
        ) + seq![':'] + hex_number(e as nat) + seq![':'] + hex_number(f as nat) + seq![':']
            + hex_number(g as nat) + seq![':'] + hex_number(h as nat) + seq![']'],
    }
}

impl SocketAddress {
    /// The address as text: the IP address, a colon, the port.
    pub open spec fn text(self) -> Seq<char> {
        ip_address_text(self.ip) + seq![':'] + decimal(self.port as nat)
    }

    /// The address as text.
    pub fn to_string(&self) -> (r: String)
        ensures
            r@ == self.text(),
    {
        let mut s = String::new();
        match self.ip {
            IpAddress::V4(a, b, c, d) => {
                push_decimal(&mut s, a as u64);
                s.push('.');
                push_decimal(&mut s, b as u64);
                s.push('.');
                push_decimal(&mut s, c as u64);
                s.push('.');
                push_decimal(&mut s, d as u64);
                proof {
                    assert(s@ =~= ip_address_text(self.ip));
                }
            },
            IpAddress::V6(a, b, c, d, e, f, g, h) => {
                s.push('[');
                push_hex_number(&mut s, a as u64);
                s.push(':');
                push_hex_number(&mut s, b as u64);
                s.push(':');
                push_hex_number(&mut s, c as u64);
                s.push(':');
                push_hex_number(&mut s, d as u64);
                s.push(':');
                push_hex_number(&mut s, e as u64);
                s.push(':');
                push_hex_number(&mut s, f as u64);
                s.push(':');
                push_hex_number(&mut s, g as u64);
                s.push(':');
                push_hex_number(&mut s, h as u64);
                s.push(']');
                proof {
                    assert(s@ =~= ip_address_text(self.ip));
                }
            },
        }
        s.push(':');
        push_decimal(&mut s, self.port as u64);
        proof {
            assert(s@ =~= self.text());
        }
        s
    }

    /// The local address to bind to for talking to `target`: the unspecified
    /// address of the family of `target`, with port 0, which stands for a
    /// port that the system picks.
    pub fn ephemeral_for(target: &SocketAddress) -> (r: SocketAddress)
        ensures
            r.port == 0,
            r.ip == match target.ip {
                IpAddress::V4(..) => IpAddress::V4(0, 0, 0, 0),
                IpAddress::V6(..) => IpAddress::V6(0, 0, 0, 0, 0, 0, 0, 0),
            },
    {
        match target.ip {
            IpAddress::V4(..) => SocketAddress { ip: IpAddress::V4(0, 0, 0, 0), port: 0 },
            IpAddress::V6(..) => SocketAddress { ip: IpAddress::V6(0, 0, 0, 0, 0, 0, 0, 0), port: 0 },
        }
    }

    /// An IPv4 address with a port.
    pub fn v4(a: u8, b: u8, c: u8, d: u8, port: u16) -> (r: SocketAddress)
        ensures
            r == (SocketAddress { ip: IpAddress::V4(a, b, c, d), port }),
    {
        SocketAddress { ip: IpAddress::V4(a, b, c, d), port }
    }

    /// Whether the address is an IPv6 address.
    pub fn is_ipv6(&self) -> (r: bool)
        ensures
            r == (self.ip is V6),
    {
        match self.ip {
            IpAddress::V4(..) => false,
            IpAddress::V6(..) => true,
        }
    }

    /// Whether the address is an IPv4 address.
    pub fn is_ipv4(&self) -> (r: bool)
        ensures
            r == (self.ip is V4),
    {
        !self.is_ipv6()
    }
}

} // verus!
