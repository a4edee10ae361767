use crate::error::Error;
use vstd::prelude::*;

verus! {

/// An internetwork-layer address. `Unspecified` is the wildcard: a listener
/// bound to it serves any local address.
#[derive(Clone, Copy, Debug, PartialEq, Eq, Structural)]
pub enum IpAddress {
    Unspecified,
    Ipv4(u8, u8, u8, u8),
}

impl IpAddress {
    /// Whether this address is the wildcard that matches any local address.
    pub fn is_unspecified(&self) -> (r: bool)
        ensures
            r == (*self is Unspecified),
    {
        matches!(self, IpAddress::Unspecified)
    }
}

/// An (address, port) pair identifying one side of a connection.
#[derive(Clone, Copy, Debug, PartialEq, Eq, Structural)]
pub struct IpEndpoint {
    pub addr: IpAddress,
    pub port: u16,
}

impl IpEndpoint {
    /// Create an endpoint from its address and port.
    pub fn new(addr: IpAddress, port: u16) -> (r: IpEndpoint)
        ensures
            r == (IpEndpoint { addr, port }),
    {
        IpEndpoint { addr, port }
    }
}

/// The transport-layer protocol a datagram carries.
#[derive(Clone, Copy, Debug, PartialEq, Eq, Structural)]
pub enum IpProtocol {
    Icmp,
    Tcp,
    Udp,
    Unknown(u8),
}

/// The control flag of a TCP segment; `NoFlag` marks a bare data segment.
#[derive(Clone, Copy, Debug, PartialEq, Eq, Structural)]
pub enum TcpControl {
    NoFlag,
    Syn,
    Fin,
    Rst,
}

/// The decoded fields of a TCP segment header that this layer acts on.
/// `ack_number` is present exactly when the header's ACK flag is set.
#[derive(Clone, Copy, Debug, PartialEq, Eq, Structural)]
pub struct TcpRepr {
    pub src_port: u16,
    pub dst_port: u16,
    pub control: TcpControl,
    pub seq_number: u32,
    pub ack_number: Option<u32>,
}

/// A 16-bit field read in network byte order from two octets.
pub open spec fn spec_be16(hi: u8, lo: u8) -> u16 {
    ((hi as int) * 256 + (lo as int)) as u16
}

/// A 32-bit field read in network byte order from four octets.
pub open spec fn spec_be32(b0: u8, b1: u8, b2: u8, b3: u8) -> u32 {
    ((b0 as int) * 0x1000000 + (b1 as int) * 0x10000 + (b2 as int) * 256 + (b3 as int)) as u32
}

/// The header length in octets that a segment's data-offset field declares.
pub open spec fn spec_header_len(s: Seq<u8>) -> int {
    ((s[12] >> 4) as int) * 4
}

/// What decoding a byte sequence as a TCP segment header yields.
///
/// A packet shorter than the 20-octet fixed header, or shorter than the
/// length its data-offset field declares, is `Truncated`. A data offset
/// below the fixed header length, a zero port, or a combination of more than
/// one of SYN, FIN and RST is `Malformed`. Otherwise the ports, sequence
/// number, control flag and (if the ACK flag is set) acknowledgment number
/// are read from their fixed positions, in network byte order.
pub open spec fn spec_parse(s: Seq<u8>) -> Result<TcpRepr, Error> {
    if s.len() < 20 {
        Err(Error::Truncated)
    } else if spec_header_len(s) < 20 {
        Err(Error::Malformed)
    } else if s.len() < spec_header_len(s) {
        Err(Error::Truncated)
    } else if spec_be16(s[0], s[1]) == 0 || spec_be16(s[2], s[3]) == 0 {
        Err(Error::Malformed)
    } else {
        let fin = s[13] & 0x01 != 0;
        let syn = s[13] & 0x02 != 0;
        let rst = s[13] & 0x04 != 0;
        let ack = s[13] & 0x10 != 0;
        match (syn, fin, rst) {
            (false, false, false) => Ok(spec_repr(s, TcpControl::NoFlag, ack)),
            (true, false, false) => Ok(spec_repr(s, TcpControl::Syn, ack)),
            (false, true, false) => Ok(spec_repr(s, TcpControl::Fin, ack)),
            (false, false, true) => Ok(spec_repr(s, TcpControl::Rst, ack)),
            _ => Err(Error::Malformed),
        }
    }
}

/// The representation read from a well-formed header, given its control flag
/// and whether its ACK flag is set.
pub open spec fn spec_repr(s: Seq<u8>, control: TcpControl, ack: bool) -> TcpRepr {
    TcpRepr {
        src_port: spec_be16(s[0], s[1]),
        dst_port: spec_be16(s[2], s[3]),
        control,
        seq_number: spec_be32(s[4], s[5], s[6], s[7]),
        ack_number: if ack {
            Some(spec_be32(s[8], s[9], s[10], s[11]))
        } else {
            None
        },
    }
}

impl TcpRepr {
    /// Decode a TCP segment header from raw octets, exactly as `spec_parse`
    /// describes. Checksum verification is the business of the layer below,
    /// which hands the payload over only after validating it.
    pub fn parse(payload: &[u8]) -> (r: Result<TcpRepr, Error>)
        ensures
            r == spec_parse(payload@),
    {
        if payload.len() < 20 {
            return Err(Error::Truncated);
        }
        let header_len: usize = ((payload[12] >> 4) as usize) * 4;
        if header_len < 20 {
            return Err(Error::Malformed);
        }
        if payload.len() < header_len {
            return Err(Error::Truncated);
        }
        let src_port: u16 = (payload[0] as u16) * 256 + (payload[1] as u16);
        let dst_port: u16 = (payload[2] as u16) * 256 + (payload[3] as u16);
        if src_port == 0 || dst_port == 0 {
            return Err(Error::Malformed);
        }
        let flags = payload[13];
        let fin = flags & 0x01 != 0;
        let syn = flags & 0x02 != 0;
        let rst = flags & 0x04 != 0;
        let ack = flags & 0x10 != 0;
        let control = if !fin && !syn && !rst {
            TcpControl::NoFlag
        } else if !fin && syn && !rst {
            TcpControl::Syn
        } else if fin && !syn && !rst {
            TcpControl::Fin
        } else if !fin && !syn && rst {
            TcpControl::Rst
        } else {
            return Err(Error::Malformed);
        };
        let seq_number: u32 = (payload[4] as u32) * 0x1000000 + (payload[5] as u32) * 0x10000 + (
        payload[6] as u32) * 256 + (payload[7] as u32);
        let ack_number: Option<u32> = if ack {
            Some(
                (payload[8] as u32) * 0x1000000 + (payload[9] as u32) * 0x10000 + (payload[10]
                    as u32) * 256 + (payload[11] as u32),
            )
        } else {
            None
        };
        Ok(TcpRepr { src_port, dst_port, control, seq_number, ack_number })
    }
}

} // verus!
