use tcp_core::error::Error;
use tcp_core::listen::Listener;
use tcp_core::ring::SocketBuffer;
use tcp_core::wire::{IpAddress, IpEndpoint, IpProtocol, TcpControl, TcpRepr};

/// Build a 20-octet TCP header with the given ports, sequence number,
/// optional acknowledgment number (which sets the ACK flag) and flag bits.
fn segment(src_port: u16, dst_port: u16, seq: u32, ack: Option<u32>, flags: u8) -> Vec<u8> {
    let mut b = vec![0u8; 20];
    b[0..2].copy_from_slice(&src_port.to_be_bytes());
    b[2..4].copy_from_slice(&dst_port.to_be_bytes());
    b[4..8].copy_from_slice(&seq.to_be_bytes());
    let mut fl = flags;
    if let Some(a) = ack {
        b[8..12].copy_from_slice(&a.to_be_bytes());
        fl |= 0x10;
    }
    b[12] = 5 << 4;
    b[13] = fl;
    b
}

fn syn_segment(src_port: u16, dst_port: u16, seq: u32) -> Vec<u8> {
    segment(src_port, dst_port, seq, None, 0x02)
}

fn listener(addr: IpAddress, port: u16, backlog: usize) -> Listener {
    let mut slots = Vec::new();
    for _ in 0..backlog {
        slots.push(None);
    }
    Listener::new(IpEndpoint::new(addr, port), slots)
}

fn remote_addr() -> IpAddress {
    IpAddress::Ipv4(10, 0, 0, 1)
}

fn local_addr() -> IpAddress {
    IpAddress::Ipv4(10, 0, 0, 2)
}

#[test]
fn test_buffer() {
    let mut buffer = SocketBuffer::new(vec![0; 8]); // ........
    assert_eq!(buffer.enqueue(6, b"foobar"), 6); // foobar..
    assert_eq!(buffer.dequeue(3), b"foo".to_vec()); // ...bar..
    assert_eq!(buffer.enqueue(6, b"ba"), 2); // ...barba
    assert_eq!(buffer.enqueue(4, b"zho"), 3); // zhobarba
    assert_eq!(buffer.dequeue(6), b"barba".to_vec()); // zho.....
    assert_eq!(buffer.dequeue(8), b"zho".to_vec()); // ........
    assert_eq!(buffer.enqueue(8, b"gefug"), 5); // ...gefug
}

#[test]
fn buffer_empty_dequeue() {
    let mut buffer = SocketBuffer::new(vec![0; 4]);
    assert_eq!(buffer.dequeue(4), Vec::<u8>::new());
    assert_eq!(buffer.enqueue(0, b""), 0);
    assert_eq!(buffer.dequeue(1), Vec::<u8>::new());
}

#[test]
fn buffer_full_enqueue() {
    let mut buffer = SocketBuffer::new(vec![0; 4]);
    assert_eq!(buffer.enqueue(4, b"abcd"), 4);
    assert_eq!(buffer.enqueue(1, b"e"), 0);
    assert_eq!(buffer.dequeue(4), b"abcd".to_vec());
}

#[test]
fn buffer_conservation_across_wraparound() {
    // every byte comes out exactly once, in the order it went in
    let mut buffer = SocketBuffer::new(vec![0; 4]);
    let mut fed: Vec<u8> = Vec::new();
    let mut drained: Vec<u8> = Vec::new();
    let stream: Vec<u8> = (0u8..40).collect();
    let mut next = 0;
    while drained.len() < stream.len() {
        if next < stream.len() {
            let n = buffer.enqueue(3, &stream[next..(next + 3).min(stream.len())]);
            fed.extend_from_slice(&stream[next..next + n]);
            next += n;
        }
        let got = buffer.dequeue(2);
        drained.extend_from_slice(&got);
    }
    assert_eq!(fed, stream);
    assert_eq!(drained, stream);
}

#[test]
fn parse_bare_syn() {
    let b = segment(49500, 80, 0x01020304, None, 0x02);
    let repr = TcpRepr::parse(&b).unwrap();
    assert_eq!(repr.src_port, 49500);
    assert_eq!(repr.dst_port, 80);
    assert_eq!(repr.seq_number, 0x01020304);
    assert_eq!(repr.control, TcpControl::Syn);
    assert_eq!(repr.ack_number, None);
}

#[test]
fn parse_syn_ack() {
    let b = segment(80, 49500, 7, Some(0x0A0B0C0D), 0x02);
    let repr = TcpRepr::parse(&b).unwrap();
    assert_eq!(repr.control, TcpControl::Syn);
    assert_eq!(repr.ack_number, Some(0x0A0B0C0D));
}

#[test]
fn parse_plain_data_segment() {
    let b = segment(1000, 2000, 42, Some(43), 0x00);
    let repr = TcpRepr::parse(&b).unwrap();
    assert_eq!(repr.control, TcpControl::NoFlag);
    assert_eq!(repr.ack_number, Some(43));
}

#[test]
fn parse_truncated_header() {
    assert_eq!(TcpRepr::parse(&[0u8; 19]), Err(Error::Truncated));
    assert_eq!(TcpRepr::parse(&[]), Err(Error::Truncated));
    // data offset declares 24 octets but only 20 are present
    let mut b = segment(1000, 2000, 0, None, 0x02);
    b[12] = 6 << 4;
    assert_eq!(TcpRepr::parse(&b), Err(Error::Truncated));
}

#[test]
fn parse_malformed_header() {
    // zero ports
    assert_eq!(
        TcpRepr::parse(&segment(0, 2000, 0, None, 0x02)),
        Err(Error::Malformed)
    );
    assert_eq!(
        TcpRepr::parse(&segment(1000, 0, 0, None, 0x02)),
        Err(Error::Malformed)
    );
    // data offset below the fixed header length
    let mut b = segment(1000, 2000, 0, None, 0x02);
    b[12] = 4 << 4;
    assert_eq!(TcpRepr::parse(&b), Err(Error::Malformed));
    // SYN and FIN together
    assert_eq!(
        TcpRepr::parse(&segment(1000, 2000, 0, None, 0x03)),
        Err(Error::Malformed)
    );
}

#[test]
fn backlog_fifo_order() {
    let mut l = listener(local_addr(), 80, 4);
    for i in 0..3u16 {
        let b = syn_segment(40000 + i, 80, 1000 + u32::from(i));
        assert_eq!(l.collect(&remote_addr(), &local_addr(), IpProtocol::Tcp, &b), Ok(()));
    }
    for i in 0..3u16 {
        let inc = l.accept().unwrap();
        assert_eq!(inc.remote_end(), IpEndpoint::new(remote_addr(), 40000 + i));
        assert_eq!(inc.local_end(), IpEndpoint::new(local_addr(), 80));
    }
    assert!(l.accept().is_none());
}

#[test]
fn backlog_capacity_boundary() {
    let mut l = listener(local_addr(), 80, 2);
    let b = syn_segment(40000, 80, 1);
    assert_eq!(l.collect(&remote_addr(), &local_addr(), IpProtocol::Tcp, &b), Ok(()));
    assert_eq!(l.collect(&remote_addr(), &local_addr(), IpProtocol::Tcp, &b), Ok(()));
    // the third concurrently pending SYN finds no room
    assert_eq!(
        l.collect(&remote_addr(), &local_addr(), IpProtocol::Tcp, &b),
        Err(Error::Exhausted)
    );
    // freeing one slot makes the retransmitted SYN fit
    assert!(l.accept().is_some());
    assert_eq!(l.collect(&remote_addr(), &local_addr(), IpProtocol::Tcp, &b), Ok(()));
}

#[test]
fn backlog_wraparound_order() {
    // drive the accept cursor around the end of the slot array
    let mut l = listener(local_addr(), 80, 2);
    for i in 0..5u16 {
        let b = syn_segment(50000 + i, 80, u32::from(i));
        assert_eq!(l.collect(&remote_addr(), &local_addr(), IpProtocol::Tcp, &b), Ok(()));
        let inc = l.accept().unwrap();
        assert_eq!(inc.remote_end(), IpEndpoint::new(remote_addr(), 50000 + i));
    }
}

#[test]
fn endpoint_filtering_port() {
    let mut l = listener(local_addr(), 80, 2);
    let b = syn_segment(40000, 81, 1);
    assert_eq!(
        l.collect(&remote_addr(), &local_addr(), IpProtocol::Tcp, &b),
        Err(Error::Rejected)
    );
    assert!(l.accept().is_none());
}

#[test]
fn endpoint_filtering_address() {
    let other = IpAddress::Ipv4(10, 0, 0, 3);
    let b = syn_segment(40000, 80, 1);
    // bound to a specific address: a segment for another address is not ours
    let mut bound = listener(local_addr(), 80, 2);
    assert_eq!(
        bound.collect(&remote_addr(), &other, IpProtocol::Tcp, &b),
        Err(Error::Rejected)
    );
    // bound to the wildcard: any local address is served
    let mut any = listener(IpAddress::Unspecified, 80, 2);
    assert_eq!(any.collect(&remote_addr(), &other, IpProtocol::Tcp, &b), Ok(()));
    assert_eq!(
        any.accept().unwrap().local_end(),
        IpEndpoint::new(other, 80)
    );
}

#[test]
fn handshake_filtering() {
    let mut l = listener(local_addr(), 80, 2);
    // a SYN-ACK is not the opening leg of a handshake
    let syn_ack = segment(40000, 80, 1, Some(99), 0x02);
    assert_eq!(
        l.collect(&remote_addr(), &local_addr(), IpProtocol::Tcp, &syn_ack),
        Err(Error::Rejected)
    );
    // neither is a bare data segment, a FIN, nor an RST
    for flags in [0x00u8, 0x01, 0x04] {
        let b = segment(40000, 80, 1, None, flags);
        assert_eq!(
            l.collect(&remote_addr(), &local_addr(), IpProtocol::Tcp, &b),
            Err(Error::Rejected)
        );
    }
    // nor a datagram of another protocol
    let b = syn_segment(40000, 80, 1);
    assert_eq!(
        l.collect(&remote_addr(), &local_addr(), IpProtocol::Udp, &b),
        Err(Error::Rejected)
    );
    assert!(l.accept().is_none());
}

#[test]
fn accept_on_empty_backlog() {
    let mut l = listener(local_addr(), 80, 2);
    assert!(l.accept().is_none());
    assert!(l.accept().is_none());
    // the empty accepts changed nothing: the backlog still takes two SYNs
    let b = syn_segment(40000, 80, 1);
    assert_eq!(l.collect(&remote_addr(), &local_addr(), IpProtocol::Tcp, &b), Ok(()));
    assert_eq!(l.collect(&remote_addr(), &local_addr(), IpProtocol::Tcp, &b), Ok(()));
    assert_eq!(
        l.collect(&remote_addr(), &local_addr(), IpProtocol::Tcp, &b),
        Err(Error::Exhausted)
    );
}

#[test]
fn duplicate_syn_occupies_two_slots() {
    // retransmitted SYNs are not deduplicated at this layer
    let mut l = listener(local_addr(), 80, 3);
    let b = syn_segment(40000, 80, 7);
    assert_eq!(l.collect(&remote_addr(), &local_addr(), IpProtocol::Tcp, &b), Ok(()));
    assert_eq!(l.collect(&remote_addr(), &local_addr(), IpProtocol::Tcp, &b), Ok(()));
    let first = l.accept().unwrap();
    let second = l.accept().unwrap();
    assert_eq!(first, second);
    assert!(l.accept().is_none());
}

#[test]
fn zero_capacity_buffer_transfers_nothing() {
    let mut buffer = SocketBuffer::new(Vec::new());
    assert_eq!(buffer.enqueue(4, b"abcd"), 0);
    assert_eq!(buffer.dequeue(4), Vec::<u8>::new());
}

#[test]
fn zero_capacity_backlog_is_always_exhausted() {
    let mut l = listener(local_addr(), 80, 0);
    let b = syn_segment(40000, 80, 1);
    assert_eq!(
        l.collect(&remote_addr(), &local_addr(), IpProtocol::Tcp, &b),
        Err(Error::Exhausted)
    );
    assert!(l.accept().is_none());
}
