//! The Internet Protocol, version 4 (RFC 791): a datagram is validated, its
//! addresses are exchanged, and its payload is handed to the registered
//! upper-layer protocols.

use vstd::prelude::*;
use vstd::slice::{slice_subrange, slice_to_vec};
use vstd::string::*;
use crate::checksum::{internet_checksum, word_count, word_sum};
use crate::icmp::{echo_answer, echo_fault, echo_reply, lemma_echo_reply_mirrors_request};
use crate::protocol::{get_checksum, outcome, Protocol, ProtocolError, ProtocolErrorView};
use crate::text::{append_decimal, append_prefixed_hexadecimal, decimal, prefixed_hexadecimal};

verus! {

/// The octets of a header without options, and so of the shortest datagram.
pub const MIN_HEADER_SIZE: usize = 20;

/// A datagram that was refused, with the reason as text.
#[derive(Debug, Eq, PartialEq)]
pub struct IPv4Error(pub String);

impl View for IPv4Error {
    type V = Seq<char>;

    open spec fn view(&self) -> Seq<char> {
        self.0@
    }
}

impl IPv4Error {
    /// The reason, marked with the layer that it comes from.
    pub fn to_string(&self) -> (text: String)
        ensures
            text@ == "ipv4: "@ + self@,
    {
        String::from_str("ipv4: ").concat(self.0.as_str())
    }
}

/// A protocol that the Internet Protocol carries, known to it by a number.
pub trait IPv4Protocol: Protocol {
    /// The protocol number, as it stands in the header of a datagram.
    fn number(&self) -> u8;
}

/// The version field: the high four bits of the first octet.
pub open spec fn version(buf: Seq<u8>) -> nat {
    buf[0] as nat / 16
}

/// The header length in octets: the low four bits of the first octet count
/// words of four octets.
pub open spec fn header_length(buf: Seq<u8>) -> nat {
    4 * (buf[0] as nat % 16)
}

/// The total length field: octets 2 and 3, most significant first.
pub open spec fn total_length(buf: Seq<u8>) -> nat {
    buf[2] as nat * 256 + buf[3] as nat
}

/// Whether the flag "more fragments" is set.
pub open spec fn more_fragments(buf: Seq<u8>) -> bool {
    buf[6] & 0x20 != 0
}

/// The fragment offset: the low five bits of octet 6, then octet 7.
pub open spec fn fragment_offset(buf: Seq<u8>) -> nat {
    (buf[6] & 0x1f) as nat * 256 + buf[7] as nat
}

/// The header of the datagram: as many of its first octets as the header
/// length says.
pub open spec fn header_of(buf: Seq<u8>) -> Seq<u8> {
    buf.subrange(0, header_length(buf) as int)
}

/// What the datagram carries: the octets behind its header.
pub open spec fn payload_of(buf: Seq<u8>) -> Seq<u8> {
    buf.subrange(header_length(buf) as int, buf.len() as int)
}

/// Why a datagram is refused, with the values that the report names.
pub enum HeaderFault {
    /// The buffer is shorter than the shortest header.
    TooShort,
    /// The version is not 4 but `version`.
    Version { version: nat },
    /// The header does not fit: it would be `ihl` octets long, in a buffer of
    /// `len` octets; or it is too short to hold the two addresses.
    HeaderLength { ihl: nat, len: nat },
    /// The total length field says `total_length`, the buffer has `len` octets.
    TotalLength { total_length: nat, len: nat },
    /// The datagram is a fragment, or more fragments follow it.
    Fragments,
    /// The checksum over the header is not zero but `checksum`.
    HeaderChecksum { checksum: u16 },
}

impl HeaderFault {
    /// The text that reports the fault.
    pub open spec fn message(self) -> Seq<char> {
        match self {
            HeaderFault::TooShort => "too short"@,
            HeaderFault::Version { version } => "ip version error: version="@ + decimal(version),
            HeaderFault::HeaderLength { ihl, len } => "header length error: ihl="@ + decimal(ihl)
                + ", len="@ + decimal(len),
            HeaderFault::TotalLength { total_length, len } => "total length error: total length="@
                + decimal(total_length) + ", len="@ + decimal(len),
            HeaderFault::Fragments => "fragments unsupported"@,
            HeaderFault::HeaderChecksum { checksum } => "header checksum error: header checksum="@
                + prefixed_hexadecimal(checksum as nat),
        }
    }

    /// The error that reports the fault.
    pub open spec fn error(self) -> ProtocolErrorView {
        ProtocolErrorView::IPv4(self.message())
    }
}

/// The first fault of the datagram, in the order in which a datagram is
/// examined: the shortest length, the version, the header length against the
/// buffer, the total length, fragmentation, the header checksum, and last that
/// the header is long enough to hold the addresses. `None` for a datagram in
/// good order.
pub open spec fn header_fault(buf: Seq<u8>) -> Option<HeaderFault> {
    if buf.len() < MIN_HEADER_SIZE {
        Some(HeaderFault::TooShort)
    } else if version(buf) != 4 {
        Some(HeaderFault::Version { version: version(buf) })
    } else if buf.len() < header_length(buf) {
        Some(HeaderFault::HeaderLength { ihl: header_length(buf), len: buf.len() })
    } else if total_length(buf) != buf.len() {
        Some(HeaderFault::TotalLength { total_length: total_length(buf), len: buf.len() })
    } else if more_fragments(buf) || fragment_offset(buf) != 0 {
        Some(HeaderFault::Fragments)
    } else if internet_checksum(header_of(buf)) != 0 {
        Some(HeaderFault::HeaderChecksum { checksum: internet_checksum(header_of(buf)) })
    } else if header_length(buf) < MIN_HEADER_SIZE {
        Some(HeaderFault::HeaderLength { ihl: header_length(buf), len: buf.len() })
    } else {
        None
    }
}

/// The header with the source address (octets 12 to 15) and the destination
/// address (octets 16 to 19) exchanged, octet for octet.
pub open spec fn swap_addresses(header: Seq<u8>) -> Seq<u8> {
    Seq::new(
        header.len(),
        |i: int|
            if 12 <= i < 16 {
                header[i + 4]
            } else if 16 <= i < 20 {
                header[i - 4]
            } else {
                header[i]
            },
    )
}

/// The reply datagram to a datagram, given the reply of the upper layer to its
/// payload: the header of the datagram with its addresses exchanged, followed
/// by that reply.
pub open spec fn reply_datagram(buf: Seq<u8>, upper: Seq<u8>) -> Seq<u8> {
    swap_addresses(header_of(buf)) + upper
}

/// What the registered protocols, from position `from` of the registry on,
/// come to on a payload that follows the header `header`. They are asked in
/// order. The first reply is taken, and appended to the header. Where each of
/// them refuses, the outcome is `General`. `None` where that cannot be told,
/// because a protocol is reached whose answer is not laid down.
pub open spec fn dispatch(
    protocols: Seq<Box<dyn Protocol>>,
    header: Seq<u8>,
    payload: Seq<u8>,
    from: int,
) -> Option<Result<Seq<u8>, ProtocolErrorView>>
    decreases protocols.len() - from,
{
    if from < 0 || from >= protocols.len() {
        Some(Err(ProtocolErrorView::General))
    } else {
        match protocols[from].answer(payload) {
            None => None,
            Some(Ok(reply)) => Some(Ok(header + reply)),
            Some(Err(_)) => dispatch(protocols, header, payload, from + 1),
        }
    }
}

/// What a stack with the given registry answers to a datagram: the fault of
/// the datagram, if it has one; else the header with its addresses exchanged,
/// followed by the reply of the first registered protocol that has one to the
/// payload; else, where none has, `General`.
pub open spec fn datagram_answer(protocols: Seq<Box<dyn Protocol>>, buf: Seq<u8>) -> Option<
    Result<Seq<u8>, ProtocolErrorView>,
> {
    match header_fault(buf) {
        Some(fault) => Some(Err(fault.error())),
        None => dispatch(protocols, swap_addresses(header_of(buf)), payload_of(buf), 0),
    }
}

/// Exchanges the source address and the destination address of a header, in
/// place.
pub fn swap_address_fields(header: &mut Vec<u8>)
    requires
        old(header)@.len() >= MIN_HEADER_SIZE,
    ensures
        final(header)@ == swap_addresses(old(header)@),
{
    let mut i: usize = 12;
    while i < 16
        invariant
            12 <= i <= 16,
            header@.len() == old(header)@.len(),
            header@.len() >= MIN_HEADER_SIZE,
            forall|j: int|
                0 <= j < header@.len() ==> header@[j] == if 12 <= j < i {
                    old(header)@[j + 4]
                } else if 16 <= j < i + 4 {
                    old(header)@[j - 4]
                } else {
                    old(header)@[j]
                },
        decreases 16 - i,
    {
        let source = header[i];
        let destination = header[i + 4];
        header[i] = destination;
        header[i + 4] = source;
        i += 1;
    }
}

/// Re-assembly: a datagram of its own that holds the header, followed by what
/// the upper layer replied.
pub fn reassemble(header: &Vec<u8>, upper: Vec<u8>) -> (datagram: Vec<u8>)
    ensures
        datagram@ == header@ + upper@,
{
    let mut upper = upper;
    let mut datagram = slice_to_vec(header.as_slice());
    datagram.append(&mut upper);
    datagram
}

/// Builds the error of a fault from the text that reports it.
fn refuse(text: String) -> (r: Result<(), ProtocolError>)
    ensures
        r matches Err(e) && e@ == ProtocolErrorView::IPv4(text@),
{
    Err(ProtocolError::IPv4(IPv4Error(text)))
}

/// The network layer, with the upper-layer protocols that it hands payloads to.
pub struct IPv4 {
    protocols: Vec<Box<dyn Protocol>>,
}

impl IPv4 {
    /// The upper-layer protocols, in the order in which they are asked.
    pub closed spec fn registry(&self) -> Seq<Box<dyn Protocol>> {
        self.protocols@
    }

    /// A stack that asks the given protocols, the first of them first.
    pub fn new(protocols: Vec<Box<dyn Protocol>>) -> (ipv4: IPv4)
        ensures
            ipv4.registry() == protocols@,
    {
        IPv4 { protocols }
    }

    /// Refuses a buffer that is shorter than the shortest header.
    pub fn _verify_length(&self, buf: &[u8]) -> (r: Result<(), ProtocolError>)
        ensures
            r is Ok <==> buf@.len() >= MIN_HEADER_SIZE,
            r matches Err(e) ==> e@ == HeaderFault::TooShort.error(),
    {
        if buf.len() < MIN_HEADER_SIZE {
            return refuse(String::from_str("too short"));
        }
        Ok(())
    }

    /// Refuses a datagram of another version than 4.
    pub fn _verify_version(&self, buf: &[u8]) -> (r: Result<(), ProtocolError>)
        requires
            buf@.len() >= 1,
        ensures
            r is Ok <==> version(buf@) == 4,
            r matches Err(e) ==> e@ == (HeaderFault::Version { version: version(buf@) }).error(),
    {
        let first = buf[0];
        let version = first >> 4;
        assert(first >> 4 == first / 16) by (bit_vector);
        if version != 4 {
            let mut text = String::from_str("ip version error: version=");
            append_decimal(&mut text, version as usize);
            return refuse(text);
        }
        Ok(())
    }

    /// Refuses a datagram whose header, `ihl` octets long, does not fit into
    /// the buffer.
    pub fn _verify_ihl(&self, buf: &[u8], ihl: usize) -> (r: Result<(), ProtocolError>)
        ensures
            r is Ok <==> buf@.len() >= ihl,
            r matches Err(e) ==> e@ == (HeaderFault::HeaderLength {
                ihl: ihl as nat,
                len: buf@.len(),
            }).error(),
    {
        if buf.len() < ihl {
            return refuse(header_length_text(ihl, buf.len()));
        }
        Ok(())
    }

    /// Refuses a datagram whose total length field is not the length of the
    /// buffer.
    pub fn _verify_total_length(&self, buf: &[u8]) -> (r: Result<(), ProtocolError>)
        requires
            buf@.len() >= 4,
        ensures
            r is Ok <==> total_length(buf@) == buf@.len(),
            r matches Err(e) ==> e@ == (HeaderFault::TotalLength {
                total_length: total_length(buf@),
                len: buf@.len(),
            }).error(),
    {
        let high = buf[2] as usize;
        let low = buf[3] as usize;
        let total_length = (high << 8) | low;
        assert((high << 8) | low == high * 256 + low) by (bit_vector)
            requires
                high <= 0xff,
                low <= 0xff,
        ;
        if buf.len() != total_length {
            let mut text = String::from_str("total length error: total length=");
            append_decimal(&mut text, total_length);
            text.append(", len=");
            append_decimal(&mut text, buf.len());
            return refuse(text);
        }
        Ok(())
    }

    /// Refuses a fragment, and a datagram that more fragments follow.
    pub fn _verify_no_fragment(&self, buf: &[u8]) -> (r: Result<(), ProtocolError>)
        requires
            buf@.len() >= 8,
        ensures
            r is Ok <==> !more_fragments(buf@) && fragment_offset(buf@) == 0,
            r matches Err(e) ==> e@ == HeaderFault::Fragments.error(),
    {
        // Flags (More Fragments)
        // Fragment Offset
        if buf[6] & 0x20 != 0 || buf[6] & 0x1f != 0 || buf[7] != 0 {
            return refuse(String::from_str("fragments unsupported"));
        }
        Ok(())
    }

    /// Refuses a header whose checksum is not zero.
    pub fn _verify_header_checksum(&self, header: &Vec<u8>) -> (r: Result<(), ProtocolError>)
        ensures
            r is Ok <==> internet_checksum(header@) == 0,
            r matches Err(e) ==> e@ == (HeaderFault::HeaderChecksum {
                checksum: internet_checksum(header@),
            }).error(),
    {
        let checksum = get_checksum(header);
        if checksum != 0 {
            let mut text = String::from_str("header checksum error: header checksum=");
            append_prefixed_hexadecimal(&mut text, checksum as usize);
            return refuse(text);
        }
        Ok(())
    }

    /// Refuses a header of `ihl` octets that is too short to hold the source
    /// and the destination address.
    pub fn _verify_addresses(&self, buf: &[u8], ihl: usize) -> (r: Result<(), ProtocolError>)
        ensures
            r is Ok <==> ihl >= MIN_HEADER_SIZE,
            r matches Err(e) ==> e@ == (HeaderFault::HeaderLength {
                ihl: ihl as nat,
                len: buf@.len(),
            }).error(),
    {
        if ihl < MIN_HEADER_SIZE {
            return refuse(header_length_text(ihl, buf.len()));
        }
        Ok(())
    }
}

/// Writes out the text that reports a header of `ihl` octets in a buffer of
/// `len` octets.
fn header_length_text(ihl: usize, len: usize) -> (text: String)
    ensures
        text@ == (HeaderFault::HeaderLength { ihl: ihl as nat, len: len as nat }).message(),
{
    let mut text = String::from_str("header length error: ihl=");
    append_decimal(&mut text, ihl);
    text.append(", len=");
    append_decimal(&mut text, len);
    text
}

impl Protocol for IPv4 {
    open spec fn answer(&self, buf: Seq<u8>) -> Option<Result<Seq<u8>, ProtocolErrorView>> {
        datagram_answer(self.registry(), buf)
    }

    /// Answers a datagram in good order with the reply datagram: the header
    /// with source and destination address exchanged, followed by the reply of
    /// the first registered protocol that has one to the payload. Refuses a
    /// datagram that has a fault with the error of its first fault, and one to
    /// whose payload no registered protocol has a reply with
    /// `ProtocolError::General`.
    ///
    /// The outcome is `datagram_answer` wherever that is laid down, which is
    /// for every datagram that has a fault, and for every other as far as the
    /// answers of the protocols that get asked are laid down. Of a protocol
    /// that lays down no answer the stack can only say what holds of each of
    /// its outcomes: a reply begins with the header, addresses exchanged, and
    /// an error is `General`.
    fn reply(&self, buf: &[u8]) -> (r: Result<Vec<u8>, ProtocolError>)
        ensures
            datagram_answer(self.registry(), buf@) matches Some(answer) ==> outcome(r) == answer,
            header_fault(buf@) matches Some(fault) ==> r matches Err(e) && e@ == fault.error(),
            header_fault(buf@) is None ==> (r matches Ok(reply) ==> swap_addresses(
                header_of(buf@),
            ).is_prefix_of(reply@)),
            header_fault(buf@) is None ==> (r matches Err(e) ==> e@ == ProtocolErrorView::General),
    {
        self._verify_length(buf)?;
        self._verify_version(buf)?;

        // Internet Header Length (IHL)
        let first = buf[0];
        assert(first & 0xf == first % 16) by (bit_vector);
        let ihl = 4 * (first & 0xf) as usize;
        self._verify_ihl(buf, ihl)?;

        self._verify_total_length(buf)?;
        self._verify_no_fragment(buf)?;

        let mut header = slice_to_vec(slice_subrange(buf, 0, ihl));
        self._verify_header_checksum(&header)?;
        self._verify_addresses(buf, ihl)?;

        // Swap the source IP address for the destination IP address
        swap_address_fields(&mut header);

        let data = slice_subrange(buf, ihl, buf.len());
        let mut k: usize = 0;
        while k < self.protocols.len()
            invariant
                k <= self.protocols@.len(),
                data@ == payload_of(buf@),
                header@ == swap_addresses(header_of(buf@)),
                header_fault(buf@) is None,
                dispatch(self.protocols@, header@, data@, 0) is Some ==> dispatch(
                    self.protocols@,
                    header@,
                    data@,
                    0,
                ) == dispatch(self.protocols@, header@, data@, k as int),
            decreases self.protocols@.len() - k,
        {
            if let Ok(reply) = self.protocols[k].reply(data) {
                return Ok(reassemble(&header, reply));
            }
            k += 1;
        }
        Err(ProtocolError::General)
    }
}

/// The length floor of a datagram: a buffer of fewer octets than the shortest
/// header is refused as too short, whatever it holds, and no buffer of that
/// many octets or more is.
pub proof fn lemma_length_floor(buf: Seq<u8>)
    ensures
        buf.len() < MIN_HEADER_SIZE ==> header_fault(buf) == Some(HeaderFault::TooShort),
        buf.len() >= MIN_HEADER_SIZE ==> header_fault(buf) != Some(HeaderFault::TooShort),
{
}

/// Exchanging the addresses is an involution: done twice, it gives the header
/// back.
pub proof fn lemma_swap_addresses_is_involution(header: Seq<u8>)
    requires
        header.len() >= MIN_HEADER_SIZE,
    ensures
        swap_addresses(swap_addresses(header)) == header,
{
}

/// The sum of the first `n` words of a header is the same with the addresses
/// exchanged, once `n` reaches behind the addresses.
proof fn lemma_swap_addresses_keeps_sum(header: Seq<u8>, n: nat)
    requires
        header.len() >= MIN_HEADER_SIZE,
        n >= 10,
    ensures
        word_sum(swap_addresses(header), n) == word_sum(header, n),
    decreases n,
{
    if n == 10 {
        // the words 6 and 7 change places with the words 8 and 9
        reveal_with_fuel(word_sum, 11);
    } else {
        lemma_swap_addresses_keeps_sum(header, (n - 1) as nat);
    }
}

/// Exchanging the addresses leaves the checksum of a header as it was: the
/// two addresses are whole words, and the sum of words does not depend on
/// their order. So the reply header needs no new checksum.
pub proof fn lemma_swap_addresses_keeps_checksum(header: Seq<u8>)
    requires
        header.len() >= MIN_HEADER_SIZE,
    ensures
        internet_checksum(swap_addresses(header)) == internet_checksum(header),
{
    lemma_swap_addresses_keeps_sum(header, word_count(header));
}

/// A reply is itself a datagram in good order. Take a datagram in good order
/// and, for its payload, any upper-layer reply of the same length. The reply
/// datagram has no fault, carries that reply, and has the addresses of the
/// datagram exchanged; exchanging them once more gives the header of the
/// datagram back.
pub proof fn lemma_reply_round_trip(buf: Seq<u8>, upper: Seq<u8>)
    requires
        header_fault(buf) is None,
        upper.len() == payload_of(buf).len(),
    ensures
        header_fault(reply_datagram(buf, upper)) is None,
        header_of(reply_datagram(buf, upper)) == swap_addresses(header_of(buf)),
        payload_of(reply_datagram(buf, upper)) == upper,
        swap_addresses(header_of(reply_datagram(buf, upper))) == header_of(buf),
        reply_datagram(reply_datagram(buf, upper), payload_of(buf)) == buf,
{
    assert(header_of(reply_datagram(buf, upper)) =~= swap_addresses(header_of(buf)));
    lemma_swap_addresses_keeps_checksum(header_of(buf));
    lemma_swap_addresses_is_involution(header_of(buf));
}

/// `dispatch` from position `from` on, where the first reply is known.
proof fn lemma_dispatch_from(
    protocols: Seq<Box<dyn Protocol>>,
    header: Seq<u8>,
    payload: Seq<u8>,
    k: int,
    reply: Seq<u8>,
    from: int,
)
    requires
        0 <= from <= k < protocols.len(),
        forall|j: int|
            from <= j < k ==> (#[trigger] protocols[j].answer(payload) matches Some(Err(_))),
        protocols[k].answer(payload) == Some(Ok::<Seq<u8>, ProtocolErrorView>(reply)),
    ensures
        dispatch(protocols, header, payload, from) == Some(
            Ok::<Seq<u8>, ProtocolErrorView>(header + reply),
        ),
    decreases k - from,
{
    if from < k {
        lemma_dispatch_from(protocols, header, payload, k, reply, from + 1);
    }
}

/// The registered protocols are asked in order, and the first reply is taken:
/// where the protocols before position `k` refuse the payload and the one at
/// `k` answers it with `reply`, the outcome is the header followed by `reply`.
pub proof fn lemma_dispatch_takes_first_reply(
    protocols: Seq<Box<dyn Protocol>>,
    header: Seq<u8>,
    payload: Seq<u8>,
    k: int,
    reply: Seq<u8>,
)
    requires
        0 <= k < protocols.len(),
        forall|j: int| 0 <= j < k ==> (#[trigger] protocols[j].answer(payload) matches Some(Err(_))),
        protocols[k].answer(payload) == Some(Ok::<Seq<u8>, ProtocolErrorView>(reply)),
    ensures
        dispatch(protocols, header, payload, 0) == Some(
            Ok::<Seq<u8>, ProtocolErrorView>(header + reply),
        ),
{
    lemma_dispatch_from(protocols, header, payload, k, reply, 0);
}

/// Where every registered protocol refuses the payload, so does the stack:
/// the outcome is `General`, whatever the protocols gave as their reasons.
pub proof fn lemma_dispatch_all_refuse(
    protocols: Seq<Box<dyn Protocol>>,
    header: Seq<u8>,
    payload: Seq<u8>,
    from: int,
)
    requires
        0 <= from <= protocols.len(),
        forall|j: int|
            from <= j < protocols.len() ==> (#[trigger] protocols[j].answer(payload) matches Some(
                Err(_),
            )),
    ensures
        dispatch(protocols, header, payload, from) == Some(
            Err::<Seq<u8>, ProtocolErrorView>(ProtocolErrorView::General),
        ),
    decreases protocols.len() - from,
{
    if from < protocols.len() {
        lemma_dispatch_all_refuse(protocols, header, payload, from + 1);
    }
}

/// A datagram in good order whose payload every registered protocol refuses
/// is refused with `General`: so is every such datagram where no protocol is
/// registered at all.
pub proof fn lemma_unclaimed_payload(protocols: Seq<Box<dyn Protocol>>, buf: Seq<u8>)
    requires
        header_fault(buf) is None,
        forall|j: int|
            0 <= j < protocols.len() ==> (#[trigger] protocols[j].answer(payload_of(buf))
                matches Some(Err(_))),
    ensures
        datagram_answer(protocols, buf) == Some(
            Err::<Seq<u8>, ProtocolErrorView>(ProtocolErrorView::General),
        ),
{
    lemma_dispatch_all_refuse(protocols, swap_addresses(header_of(buf)), payload_of(buf), 0);
}

/// A datagram in good order that carries an echo request is answered with an
/// echo reply datagram. Let the echo protocol be the first registered protocol
/// that does not refuse the payload, at position `k` of the registry. Then the
/// answer is the reply datagram that carries the echo reply to the payload. It
/// is as long as the datagram; its source address is the destination address
/// of the datagram and its destination address the source address; the rest of
/// its header is that of the datagram; and its payload is the echo reply to
/// the payload of the datagram.
pub proof fn lemma_echo_request_datagram(protocols: Seq<Box<dyn Protocol>>, buf: Seq<u8>, k: int)
    requires
        header_fault(buf) is None,
        echo_fault(payload_of(buf)) is None,
        0 <= k < protocols.len(),
        forall|j: int|
            0 <= j < k ==> (#[trigger] protocols[j].answer(payload_of(buf)) matches Some(Err(_))),
        protocols[k].answer(payload_of(buf)) == Some(echo_answer(payload_of(buf))),
    ensures
        datagram_answer(protocols, buf) == Some(
            Ok::<Seq<u8>, ProtocolErrorView>(reply_datagram(buf, echo_reply(payload_of(buf)))),
        ),
        reply_datagram(buf, echo_reply(payload_of(buf))).len() == buf.len(),
        reply_datagram(buf, echo_reply(payload_of(buf))).subrange(12, 16) == buf.subrange(16, 20),
        reply_datagram(buf, echo_reply(payload_of(buf))).subrange(16, 20) == buf.subrange(12, 16),
        forall|i: int|
            0 <= i < header_length(buf) && !(12 <= i < 20) ==> reply_datagram(
                buf,
                echo_reply(payload_of(buf)),
            )[i] == buf[i],
        payload_of(reply_datagram(buf, echo_reply(payload_of(buf)))) == echo_reply(payload_of(buf)),
{
    let upper = echo_reply(payload_of(buf));
    lemma_echo_reply_mirrors_request(payload_of(buf));
    lemma_dispatch_takes_first_reply(
        protocols,
        swap_addresses(header_of(buf)),
        payload_of(buf),
        k,
        upper,
    );
    lemma_reply_round_trip(buf, upper);
}

} // verus!
