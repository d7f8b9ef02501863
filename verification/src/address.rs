//! The address of a target, and its SOCKS5 encoding: a type byte, then four
//! bytes, sixteen bytes or a length-prefixed name, then the port, big-endian.

use crate::buf::{copy, extend};
use crate::encoding::{be16, be16_value, get_be16, lemma_be16_roundtrip, put_be16};
use crate::error::Error;
use crate::primitives::is_utf8;
use vstd::prelude::*;
use vstd::slice::slice_subrange;
use vstd::utf8::valid_utf8;

verus! {

/// Type byte of an IPv4 address.
pub const ATYP_IPV4: u8 = 0x01;

/// Type byte of a domain name.
pub const ATYP_DOMAIN: u8 = 0x03;

/// Type byte of an IPv6 address.
pub const ATYP_IPV6: u8 = 0x04;

/// The port of DNS.
pub const DNS_PORT: u16 = 53;

/// Where a connection is meant to go.
#[derive(Clone, Debug, PartialEq, Eq)]
pub enum Address {
    /// An IPv4 address and a port.
    V4([u8; 4], u16),
    /// An IPv6 address and a port.
    V6([u8; 16], u16),
    /// A domain name, in UTF-8, and a port.
    Domain(Vec<u8>, u16),
}

/// An address as a mathematical value.
pub enum AddressModel {
    V4(Seq<u8>, u16),
    V6(Seq<u8>, u16),
    Domain(Seq<u8>, u16),
}

impl AddressModel {
    /// True where the address can be encoded: four or sixteen address bytes,
    /// or a name of 1 to 255 bytes of UTF-8.
    pub open spec fn wf(self) -> bool {
        match self {
            AddressModel::V4(ip, _) => ip.len() == 4,
            AddressModel::V6(ip, _) => ip.len() == 16,
            AddressModel::Domain(name, _) => 1 <= name.len() <= 255 && valid_utf8(name),
        }
    }

    /// The port.
    pub open spec fn port(self) -> u16 {
        match self {
            AddressModel::V4(_, port) => port,
            AddressModel::V6(_, port) => port,
            AddressModel::Domain(_, port) => port,
        }
    }

    /// The SOCKS5 encoding.
    pub open spec fn wire(self) -> Seq<u8> {
        match self {
            AddressModel::V4(ip, port) => seq![ATYP_IPV4] + ip + be16(port),
            AddressModel::V6(ip, port) => seq![ATYP_IPV6] + ip + be16(port),
            AddressModel::Domain(name, port) => seq![ATYP_DOMAIN, name.len() as u8] + name + be16(port),
        }
    }
}

/// What reading an address from the front of `bytes` gives.
pub enum Parsed {
    /// An address, and the number of bytes that it took.
    Address(AddressModel, nat),
    /// The bytes are the start of an address; more are needed.
    Incomplete,
    /// The bytes cannot start an address.
    Malformed,
}

/// Reads an address from the front of `bytes`.
pub open spec fn parsed(bytes: Seq<u8>) -> Parsed {
    if bytes.len() == 0 {
        Parsed::Incomplete
    } else if bytes[0] == ATYP_IPV4 {
        if bytes.len() < 7 {
            Parsed::Incomplete
        } else {
            Parsed::Address(AddressModel::V4(bytes.subrange(1, 5), be16_value(bytes.skip(5)) as u16), 7)
        }
    } else if bytes[0] == ATYP_IPV6 {
        if bytes.len() < 19 {
            Parsed::Incomplete
        } else {
            Parsed::Address(AddressModel::V6(bytes.subrange(1, 17), be16_value(bytes.skip(17)) as u16), 19)
        }
    } else if bytes[0] == ATYP_DOMAIN {
        if bytes.len() < 2 {
            Parsed::Incomplete
        } else if bytes[1] == 0 {
            Parsed::Malformed
        } else if bytes.len() < 4 + bytes[1] {
            Parsed::Incomplete
        } else if !valid_utf8(bytes.subrange(2, 2 + bytes[1])) {
            Parsed::Malformed
        } else {
            Parsed::Address(
                AddressModel::Domain(
                    bytes.subrange(2, 2 + bytes[1]),
                    be16_value(bytes.skip(2 + bytes[1])) as u16,
                ),
                (4 + bytes[1]) as nat,
            )
        }
    } else {
        Parsed::Malformed
    }
}

impl View for Address {
    type V = AddressModel;

    open spec fn view(&self) -> AddressModel {
        match self {
            Address::V4(ip, port) => AddressModel::V4(ip@, *port),
            Address::V6(ip, port) => AddressModel::V6(ip@, *port),
            Address::Domain(name, port) => AddressModel::Domain(name@, *port),
        }
    }
}

impl Address {
    /// An address for a domain name, if the name can be encoded: 1 to 255
    /// bytes of UTF-8.
    pub fn domain(name: &[u8], port: u16) -> (address: Option<Address>)
        ensures
            match address {
                Some(a) => a@ == AddressModel::Domain(name@, port) && a@.wf(),
                None => !AddressModel::Domain(name@, port).wf(),
            },
    {
        if name.len() == 0 || name.len() > 255 || !is_utf8(name) {
            None
        } else {
            Some(Address::Domain(copy(name), port))
        }
    }

    /// The port.
    pub fn port(&self) -> (port: u16)
        ensures
            port == self@.port(),
    {
        match self {
            Address::V4(_, port) => *port,
            Address::V6(_, port) => *port,
            Address::Domain(_, port) => *port,
        }
    }

    /// Whether the address can be encoded.
    pub fn is_valid(&self) -> (ok: bool)
        ensures
            ok == self@.wf(),
    {
        match self {
            Address::V4(ip, _) => {
                assert(ip@.len() == 4);
                true
            },
            Address::V6(ip, _) => {
                assert(ip@.len() == 16);
                true
            },
            Address::Domain(name, _) => 1 <= name.len() && name.len() <= 255 && is_utf8(name.as_slice()),
        }
    }

    /// Number of bytes of the SOCKS5 encoding.
    pub fn serialized_len(&self) -> (n: usize)
        requires
            self@.wf(),
        ensures
            n == self@.wire().len(),
    {
        match self {
            Address::V4(_, _) => 7,
            Address::V6(_, _) => 19,
            Address::Domain(name, _) => 4 + name.len(),
        }
    }

    /// The SOCKS5 encoding.
    pub fn encode(&self) -> (out: Vec<u8>)
        requires
            self@.wf(),
        ensures
            out@ == self@.wire(),
    {
        let mut out: Vec<u8> = Vec::new();
        let port = self.port();
        match self {
            Address::V4(ip, _) => {
                out.push(ATYP_IPV4);
                extend(&mut out, ip.as_slice());
            },
            Address::V6(ip, _) => {
                out.push(ATYP_IPV6);
                extend(&mut out, ip.as_slice());
            },
            Address::Domain(name, _) => {
                out.push(ATYP_DOMAIN);
                out.push(name.len() as u8);
                extend(&mut out, name.as_slice());
            },
        }
        let tail = put_be16(port);
        extend(&mut out, tail.as_slice());
        assert(out@ =~= self@.wire());
        out
    }

    /// Reads an address from the front of `bytes`. Returns the address and
    /// the number of bytes that it took, `None` where more bytes are needed,
    /// and `ProtocolFraming` where the bytes cannot start an address.
    pub fn parse(bytes: &[u8]) -> (r: Result<Option<(Address, usize)>, Error>)
        ensures
            match r {
                Ok(Some((address, used))) => parsed(bytes@) == Parsed::Address(address@, used as nat)
                    && address@.wf(),
                Ok(None) => parsed(bytes@) == Parsed::Incomplete,
                Err(e) => parsed(bytes@) == Parsed::Malformed && e == Error::ProtocolFraming,
            },
    {
        if bytes.len() == 0 {
            return Ok(None);
        }
        let atyp = bytes[0];
        if atyp == ATYP_IPV4 {
            if bytes.len() < 7 {
                return Ok(None);
            }
            let ip: [u8; 4] = [bytes[1], bytes[2], bytes[3], bytes[4]];
            let port = get_be16(slice_subrange(bytes, 5, 7));
            assert(bytes@.subrange(5, 7) =~= bytes@.skip(5).take(2));
            assert(ip@ =~= bytes@.subrange(1, 5));
            Ok(Some((Address::V4(ip, port), 7)))
        } else if atyp == ATYP_IPV6 {
            if bytes.len() < 19 {
                return Ok(None);
            }
            let ip: [u8; 16] = [
                bytes[1],
                bytes[2],
                bytes[3],
                bytes[4],
                bytes[5],
                bytes[6],
                bytes[7],
                bytes[8],
                bytes[9],
                bytes[10],
                bytes[11],
                bytes[12],
                bytes[13],
                bytes[14],
                bytes[15],
                bytes[16],
            ];
            let port = get_be16(slice_subrange(bytes, 17, 19));
            assert(bytes@.subrange(17, 19) =~= bytes@.skip(17).take(2));
            assert(ip@ =~= bytes@.subrange(1, 17));
            Ok(Some((Address::V6(ip, port), 19)))
        } else if atyp == ATYP_DOMAIN {
            if bytes.len() < 2 {
                return Ok(None);
            }
            let n: usize = bytes[1] as usize;
            if n == 0 {
                return Err(Error::ProtocolFraming);
            }
            if bytes.len() < 4 + n {
                return Ok(None);
            }
            let name = slice_subrange(bytes, 2, 2 + n);
            if !is_utf8(name) {
                return Err(Error::ProtocolFraming);
            }
            let port = get_be16(slice_subrange(bytes, 2 + n, 4 + n));
            assert(bytes@.subrange(2 + n, 4 + n) =~= bytes@.skip(2 + n).take(2));
            Ok(Some((Address::Domain(copy(name), port), 4 + n)))
        } else {
            Err(Error::ProtocolFraming)
        }
    }
}

/// A copy of an address.
pub fn copy_address(a: &Address) -> (b: Address)
    ensures
        b@ == a@,
{
    match a {
        Address::V4(ip, port) => Address::V4(*ip, *port),
        Address::V6(ip, port) => Address::V6(*ip, *port),
        Address::Domain(name, port) => Address::Domain(copy(name.as_slice()), *port),
    }
}

/// Reading back an encoded address gives the address and the length of its
/// encoding, whatever follows it.
pub proof fn lemma_parse_encoded(a: AddressModel, rest: Seq<u8>)
    requires
        a.wf(),
    ensures
        parsed(a.wire() + rest) == Parsed::Address(a, a.wire().len()),
{
    let bytes = a.wire() + rest;
    lemma_be16_roundtrip(a.port());
    match a {
        AddressModel::V4(ip, port) => {
            assert(bytes.subrange(1, 5) =~= ip);
            assert(bytes.skip(5).take(2) =~= be16(port));
        },
        AddressModel::V6(ip, port) => {
            assert(bytes.subrange(1, 17) =~= ip);
            assert(bytes.skip(17).take(2) =~= be16(port));
        },
        AddressModel::Domain(name, port) => {
            assert(bytes[1] == name.len() as u8);
            assert(bytes.subrange(2, 2 + name.len() as int) =~= name);
            assert(bytes.skip(2 + name.len() as int).take(2) =~= be16(port));
        },
    }
}

} // verus!
