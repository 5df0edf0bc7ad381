//! The ICMP echo protocol (RFC 792): an echo request is answered with an echo
//! reply that mirrors its data.

use vstd::prelude::*;
use vstd::slice::slice_to_vec;
use vstd::string::*;
use crate::checksum::{internet_checksum, lemma_checksum_self_consistent, with_word};
use crate::ipv4::IPv4Protocol;
use crate::protocol::{get_checksum, outcome, Protocol, ProtocolError, ProtocolErrorView};
use crate::text::{append_prefixed_hexadecimal, prefixed_hexadecimal};

verus! {

/// The message type of an echo request.
pub const ECHO: u8 = 8;

/// The message type of an echo reply.
pub const ECHO_REPLY: u8 = 0;

/// The octets of the fixed part of an echo message: type, code, checksum,
/// identifier and sequence number.
pub const ECHO_HEADER_SIZE: usize = 8;

/// An echo message that was refused, with the reason as text.
#[derive(Debug, Eq, PartialEq)]
pub struct IcmpError(pub String);

impl View for IcmpError {
    type V = Seq<char>;

    open spec fn view(&self) -> Seq<char> {
        self.0@
    }
}

impl IcmpError {
    /// The reason, marked with the layer that it comes from.
    pub fn to_string(&self) -> (text: String)
        ensures
            text@ == "icmp: "@ + self@,
    {
        String::from_str("icmp: ").concat(self.0.as_str())
    }
}

/// The text that reports a checksum other than zero.
pub open spec fn checksum_message(checksum: u16) -> Seq<char> {
    "checksum error: checksum="@ + prefixed_hexadecimal(checksum as nat)
}

/// Writes out the text that reports a checksum other than zero.
fn checksum_text(checksum: u16) -> (text: String)
    ensures
        text@ == checksum_message(checksum),
{
    let mut text = String::from_str("checksum error: checksum=");
    append_prefixed_hexadecimal(&mut text, checksum as usize);
    text
}

/// Why a message gets no echo reply.
pub enum EchoFault {
    /// The message is shorter than the fixed part of an echo message.
    TooShort,
    /// The checksum over the whole message is not zero but `checksum`.
    Checksum { checksum: u16 },
    /// The message is sound, but no echo request: another protocol may take it.
    NotEcho,
}

impl EchoFault {
    /// The error that reports the fault.
    pub open spec fn error(self) -> ProtocolErrorView {
        match self {
            EchoFault::TooShort => ProtocolErrorView::Icmp("too short"@),
            EchoFault::Checksum { checksum } => ProtocolErrorView::Icmp(checksum_message(checksum)),
            EchoFault::NotEcho => ProtocolErrorView::General,
        }
    }
}

/// The first fault of the message, in the order in which a message is examined:
/// its length, its checksum, its type. `None` for an echo request in good order.
pub open spec fn echo_fault(msg: Seq<u8>) -> Option<EchoFault> {
    if msg.len() < ECHO_HEADER_SIZE {
        Some(EchoFault::TooShort)
    } else if internet_checksum(msg) != 0 {
        Some(EchoFault::Checksum { checksum: internet_checksum(msg) })
    } else if msg[0] != ECHO {
        Some(EchoFault::NotEcho)
    } else {
        None
    }
}

/// The message with its type rewritten to that of an echo reply.
pub open spec fn retyped(msg: Seq<u8>) -> Seq<u8> {
    msg.update(0, ECHO_REPLY)
}

/// The message with the type of an echo reply and an empty checksum field.
pub open spec fn echo_reply_unsigned(msg: Seq<u8>) -> Seq<u8> {
    with_word(retyped(msg), 2, 0)
}

/// The echo reply to an echo request: the type is that of a reply, the
/// checksum field holds the checksum of the reply taken with that field empty,
/// and every other octet is the request's.
pub open spec fn echo_reply(msg: Seq<u8>) -> Seq<u8> {
    with_word(echo_reply_unsigned(msg), 2, internet_checksum(echo_reply_unsigned(msg)))
}

/// What the echo protocol answers to a message.
pub open spec fn echo_answer(msg: Seq<u8>) -> Result<Seq<u8>, ProtocolErrorView> {
    match echo_fault(msg) {
        Some(fault) => Err(fault.error()),
        None => Ok(echo_reply(msg)),
    }
}

/// The echo protocol.
pub struct Icmp {}

impl Icmp {
    /// The echo protocol.
    pub fn new() -> (icmp: Icmp)
        ensures
            icmp == (Icmp {  }),
    {
        Icmp {  }
    }

    /// Refuses a message that is shorter than the fixed part of an echo
    /// message.
    pub fn _verify_length(&self, buf: &[u8]) -> (r: Result<(), ProtocolError>)
        ensures
            r is Ok <==> buf@.len() >= ECHO_HEADER_SIZE,
            r matches Err(e) ==> e@ == EchoFault::TooShort.error(),
    {
        if buf.len() < ECHO_HEADER_SIZE {
            return Err(ProtocolError::Icmp(IcmpError(String::from_str("too short"))));
        }
        Ok(())
    }

    /// Refuses a message whose checksum, taken over all of it, is not zero.
    pub fn _verify_checksum(&self, buf: &Vec<u8>) -> (r: Result<(), ProtocolError>)
        ensures
            r is Ok <==> internet_checksum(buf@) == 0,
            r matches Err(e) ==> e@ == (EchoFault::Checksum {
                checksum: internet_checksum(buf@),
            }).error(),
    {
        let checksum = get_checksum(buf);
        if checksum != 0 {
            return Err(ProtocolError::Icmp(IcmpError(checksum_text(checksum))));
        }
        Ok(())
    }
}

impl Protocol for Icmp {
    open spec fn answer(&self, buf: Seq<u8>) -> Option<Result<Seq<u8>, ProtocolErrorView>> {
        Some(echo_answer(buf))
    }

    /// Answers an echo request with the echo reply to it, and refuses every
    /// other message: with `ProtocolError::Icmp` one that is too short or
    /// fails its checksum, with `ProtocolError::General` one of another type.
    fn reply(&self, buf: &[u8]) -> (r: Result<Vec<u8>, ProtocolError>)
        ensures
            outcome(r) == echo_answer(buf@),
    {
        self._verify_length(buf)?;

        let mut buf = slice_to_vec(buf);
        self._verify_checksum(&buf)?;

        if buf[0] != ECHO {
            return Err(ProtocolError::General);
        }

        // Type
        buf[0] = ECHO_REPLY;

        // Set the checksum field to zero before computing a checksum
        buf[2] = 0;
        buf[3] = 0;

        let checksum = get_checksum(&buf);
        assert(checksum >> 8 == checksum / 256 && checksum & 0xff == checksum % 256)
            by (bit_vector);

        // Checksum
        buf[2] = (checksum >> 8) as u8;
        buf[3] = (checksum & 0xff) as u8;
        Ok(buf)
    }
}

impl IPv4Protocol for Icmp {
    /// The number by which the Internet Protocol knows ICMP.
    fn number(&self) -> (number: u8)
        ensures
            number == 1,
    {
        1
    }
}

/// An echo reply mirrors its request. The reply to an echo request in good
/// order is as long as the request, has the type of a reply, the code of the
/// request, and the identifier, sequence number and data of the request; and
/// the checksum over the whole reply is zero.
pub proof fn lemma_echo_reply_mirrors_request(msg: Seq<u8>)
    requires
        echo_fault(msg) is None,
    ensures
        echo_answer(msg) == Ok::<Seq<u8>, ProtocolErrorView>(echo_reply(msg)),
        echo_reply(msg).len() == msg.len(),
        echo_reply(msg)[0] == ECHO_REPLY,
        echo_reply(msg)[1] == msg[1],
        forall|i: int| 4 <= i < msg.len() ==> echo_reply(msg)[i] == msg[i],
        internet_checksum(echo_reply(msg)) == 0,
{
    lemma_checksum_self_consistent(retyped(msg), 2);
}

/// The length floor of an echo message: a message of fewer octets than the
/// fixed part is refused as too short, whatever it holds, and no message of
/// that many octets or more is.
pub proof fn lemma_echo_length_floor(msg: Seq<u8>)
    ensures
        msg.len() < ECHO_HEADER_SIZE ==> echo_fault(msg) == Some(EchoFault::TooShort),
        msg.len() >= ECHO_HEADER_SIZE ==> echo_fault(msg) != Some(EchoFault::TooShort),
{
}

/// Rewriting the type a second time changes nothing more. It gives the message
/// itself back where the message had the type of a reply to begin with, and
/// only there: the rewrite turns a request into a reply, and never a reply
/// into a request.
pub proof fn lemma_retyped_twice(msg: Seq<u8>)
    requires
        msg.len() > 0,
    ensures
        retyped(retyped(msg)) == retyped(msg),
        msg[0] == ECHO_REPLY <==> retyped(retyped(msg)) == msg,
{
    if msg[0] == ECHO_REPLY {
        assert(retyped(msg) =~= msg);
    }
}

/// An echo reply is no echo request: the protocol that produced a reply
/// declines to answer it, and leaves it to another protocol.
pub proof fn lemma_echo_reply_is_declined(msg: Seq<u8>)
    requires
        echo_fault(msg) is None,
    ensures
        echo_answer(echo_reply(msg)) == Err::<Seq<u8>, ProtocolErrorView>(
            ProtocolErrorView::General,
        ),
{
    lemma_echo_reply_mirrors_request(msg);
}

} // verus!
