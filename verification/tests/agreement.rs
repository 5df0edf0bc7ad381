use netstack::icmp::{Icmp, IcmpError};
use netstack::ipv4::{IPv4, IPv4Error};
use netstack::protocol::{get_checksum, Protocol, ProtocolError};

/// The checksum, summed the plain way: all words into a wide sum, the carries
/// folded back at the end.
fn plain_checksum(buf: &[u8]) -> u16 {
    let mut sum: u64 = 0;
    let mut i = 0;
    while i < buf.len() {
        let high = buf[i] as u64;
        let low = if i + 1 < buf.len() { buf[i + 1] as u64 } else { 0 };
        sum += (high << 8) + low;
        i += 2;
    }
    while (sum >> 16) != 0 {
        sum = (sum & 0xffff) + (sum >> 16);
    }
    (!sum & 0xffff) as u16
}

/// The echo reply, written with the standard formatting.
fn plain_echo_reply(buf: &[u8]) -> Result<Vec<u8>, ProtocolError> {
    if buf.len() < 8 {
        return Err(ProtocolError::Icmp(IcmpError("too short".to_string())));
    }
    let checksum = plain_checksum(buf);
    if checksum != 0 {
        return Err(ProtocolError::Icmp(IcmpError(format!(
            "checksum error: checksum={:#x?}",
            checksum
        ))));
    }
    if buf[0] != 8 {
        return Err(ProtocolError::General);
    }
    let mut reply = buf.to_vec();
    reply[0] = 0;
    reply[2] = 0;
    reply[3] = 0;
    let checksum = plain_checksum(&reply);
    reply[2] = (checksum >> 8) as u8;
    reply[3] = (checksum & 0xff) as u8;
    Ok(reply)
}

/// The reply of a stack that has the echo protocol alone, written with the
/// standard formatting.
fn plain_datagram_reply(buf: &[u8]) -> Result<Vec<u8>, ProtocolError> {
    let refuse = |text: String| Err(ProtocolError::IPv4(IPv4Error(text)));
    if buf.len() < 20 {
        return refuse("too short".to_string());
    }
    let version = buf[0] >> 4;
    if version != 4 {
        return refuse(format!("ip version error: version={}", version));
    }
    let ihl = 4 * (buf[0] & 0xf) as usize;
    if buf.len() < ihl {
        return refuse(format!(
            "header length error: ihl={}, len={}",
            ihl,
            buf.len()
        ));
    }
    let total_length = ((buf[2] as usize) << 8) | buf[3] as usize;
    if buf.len() != total_length {
        return refuse(format!(
            "total length error: total length={}, len={}",
            total_length,
            buf.len()
        ));
    }
    if buf[6] & 0x20 != 0 || buf[6] & 0x1f != 0 || buf[7] != 0 {
        return refuse("fragments unsupported".to_string());
    }
    let checksum = plain_checksum(&buf[..ihl]);
    if checksum != 0 {
        return refuse(format!(
            "header checksum error: header checksum={:#x?}",
            checksum
        ));
    }
    if ihl < 20 {
        return refuse(format!(
            "header length error: ihl={}, len={}",
            ihl,
            buf.len()
        ));
    }
    let mut reply = buf[..ihl].to_vec();
    for i in 12..16 {
        reply.swap(i, i + 4);
    }
    match plain_echo_reply(&buf[ihl..]) {
        Ok(upper) => {
            reply.extend_from_slice(&upper);
            Ok(reply)
        }
        Err(_) => Err(ProtocolError::General),
    }
}

/// A sequence of numbers that looks random and is the same on every run.
struct Numbers(u64);

impl Numbers {
    fn next(&mut self) -> u64 {
        self.0 = self
            .0
            .wrapping_mul(6364136223846793005)
            .wrapping_add(1442695040888963407);
        self.0 >> 33
    }

    fn below(&mut self, n: usize) -> usize {
        (self.next() % n as u64) as usize
    }
}

/// A datagram in good order that carries an echo request with `data` octets
/// of data, behind a header with `options` words of options.
fn echo_request_datagram(numbers: &mut Numbers, options: usize, data: usize) -> Vec<u8> {
    let ihl = 20 + 4 * options;
    let total = ihl + 8 + data;
    let mut buf = vec![0u8; total];
    for octet in buf.iter_mut() {
        *octet = numbers.below(256) as u8;
    }
    buf[0] = 0x40 | (ihl / 4) as u8;
    buf[2] = (total >> 8) as u8;
    buf[3] = (total & 0xff) as u8;
    buf[6] &= 0xc0;
    buf[7] = 0;
    buf[10] = 0;
    buf[11] = 0;
    let checksum = plain_checksum(&buf[..ihl]);
    buf[10] = (checksum >> 8) as u8;
    buf[11] = (checksum & 0xff) as u8;
    buf[ihl] = 8;
    buf[ihl + 2] = 0;
    buf[ihl + 3] = 0;
    let checksum = plain_checksum(&buf[ihl..]);
    buf[ihl + 2] = (checksum >> 8) as u8;
    buf[ihl + 3] = (checksum & 0xff) as u8;
    buf
}

#[test]
fn checksum_agrees_with_the_plain_sum() {
    let mut numbers = Numbers(1);
    let mut round = 0;
    while round < 2000 {
        let len = numbers.below(300);
        let mut buf = vec![0u8; len];
        for octet in buf.iter_mut() {
            // many octets ff, so that carries are frequent
            *octet = if numbers.below(3) == 0 { 0xff } else { numbers.below(256) as u8 };
        }
        assert_eq!(get_checksum(&buf), plain_checksum(&buf));
        round += 1;
    }
}

#[test]
fn echo_replies_agree_with_the_plain_implementation() {
    let mut numbers = Numbers(2);
    let icmp = Icmp::new();
    let mut replies = 0;
    let mut round = 0;
    while round < 5000 {
        let data = numbers.below(40);
        let mut buf = echo_request_datagram(&mut numbers, 0, data)[20..].to_vec();
        // every other message is damaged in one octet, or cut
        match numbers.below(4) {
            0 => {
                let at = numbers.below(buf.len());
                buf[at] ^= 1 << numbers.below(8);
            }
            1 => buf.truncate(numbers.below(buf.len() + 1)),
            _ => {}
        }
        let reply = icmp.reply(&buf);
        assert_eq!(reply, plain_echo_reply(&buf));
        if let Ok(reply) = reply {
            assert_eq!(get_checksum(&reply), 0);
            replies += 1;
        }
        round += 1;
    }
    assert_eq!(replies > 2000, true);
}

#[test]
fn datagram_replies_agree_with_the_plain_implementation() {
    let mut numbers = Numbers(3);
    let stack = IPv4::new(vec![Box::new(Icmp::new())]);
    let mut replies = 0;
    let mut round = 0;
    while round < 20000 {
        let options = numbers.below(11);
        let data = numbers.below(40);
        let mut buf = echo_request_datagram(&mut numbers, options, data);
        // most datagrams are damaged in one octet of the header, or cut
        match numbers.below(5) {
            0 | 1 => {
                let at = numbers.below(20);
                buf[at] ^= 1 << numbers.below(8);
            }
            2 => {
                let at = numbers.below(buf.len());
                buf[at] = numbers.below(256) as u8;
            }
            3 => buf.truncate(numbers.below(buf.len() + 1)),
            _ => {}
        }
        let reply = stack.reply(&buf);
        assert_eq!(reply, plain_datagram_reply(&buf));
        if let Ok(reply) = reply {
            let ihl = 20 + 4 * options;
            assert_eq!(reply.len(), buf.len());
            assert_eq!(reply[12..16], buf[16..20]);
            assert_eq!(reply[16..20], buf[12..16]);
            assert_eq!(get_checksum(&reply[..ihl].to_vec()), 0);
            assert_eq!(get_checksum(&reply[ihl..].to_vec()), 0);
            replies += 1;
        }
        round += 1;
    }
    assert_eq!(replies > 3000, true);
}

#[test]
fn short_headers_agree_with_the_plain_implementation() {
    // headers of fewer than five words whose checksum verifies
    let mut numbers = Numbers(4);
    let stack = IPv4::new(vec![Box::new(Icmp::new())]);
    let mut words = 1;
    while words < 5 {
        let mut round = 0;
        while round < 200 {
            let ihl = 4 * words;
            let total = 20 + numbers.below(30);
            let mut buf = vec![0u8; total];
            for octet in buf.iter_mut() {
                *octet = numbers.below(256) as u8;
            }
            buf[0] = 0x40 | words as u8;
            buf[2] = (total >> 8) as u8;
            buf[3] = (total & 0xff) as u8;
            buf[6] = 0x40;
            buf[7] = 0;
            // the first word of the header is fixed: its second word, or the
            // field at octet 10, makes the checksum come out
            let field = if ihl >= 12 { 10 } else { 4 };
            if field + 1 < ihl {
                buf[field] = 0;
                buf[field + 1] = 0;
                let checksum = plain_checksum(&buf[..ihl]);
                buf[field] = (checksum >> 8) as u8;
                buf[field + 1] = (checksum & 0xff) as u8;
                assert_eq!(
                    stack.reply(&buf),
                    Err(ProtocolError::IPv4(IPv4Error(format!(
                        "header length error: ihl={}, len={}",
                        ihl, total
                    ))))
                );
            }
            assert_eq!(stack.reply(&buf), plain_datagram_reply(&buf));
            round += 1;
        }
        words += 1;
    }
}
