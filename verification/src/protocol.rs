//! What the protocol layers share: the capability to answer a buffer, the
//! errors that an answer can fail with, and the checksum that both layers use.

use vstd::prelude::*;
use vstd::std_specs::convert::FromSpecImpl;
use crate::checksum::{fold, internet_checksum, lemma_fold_closed_form, lemma_fold_step, word, word_sum};
use crate::icmp::IcmpError;
use crate::ipv4::IPv4Error;

verus! {

/// Why no reply was produced: the layer that refused, and its reason.
#[derive(Debug, Eq, PartialEq)]
pub enum ProtocolError {
    /// The network layer refused the datagram.
    IPv4(IPv4Error),
    /// The echo protocol refused the message.
    Icmp(IcmpError),
    /// The buffer is not for the protocol that was asked, or for none of those
    /// that were asked.
    General,
}

/// A `ProtocolError` as plain data: the layer, and the text of the reason.
pub enum ProtocolErrorView {
    /// The network layer refused the datagram, for the reason given.
    IPv4(Seq<char>),
    /// The echo protocol refused the message, for the reason given.
    Icmp(Seq<char>),
    /// The buffer is not for the protocol that was asked, or for none of those
    /// that were asked.
    General,
}

impl View for ProtocolError {
    type V = ProtocolErrorView;

    open spec fn view(&self) -> ProtocolErrorView {
        match self {
            ProtocolError::IPv4(e) => ProtocolErrorView::IPv4(e@),
            ProtocolError::Icmp(e) => ProtocolErrorView::Icmp(e@),
            ProtocolError::General => ProtocolErrorView::General,
        }
    }
}

impl From<IPv4Error> for ProtocolError {
    /// The error of the network layer, as an error of the stack.
    fn from(e: IPv4Error) -> (error: Self) {
        ProtocolError::IPv4(e)
    }
}

impl FromSpecImpl<IPv4Error> for ProtocolError {
    open spec fn obeys_from_spec() -> bool {
        true
    }

    open spec fn from_spec(e: IPv4Error) -> Self {
        ProtocolError::IPv4(e)
    }
}

impl From<IcmpError> for ProtocolError {
    /// The error of the echo protocol, as an error of the stack.
    fn from(e: IcmpError) -> (error: Self) {
        ProtocolError::Icmp(e)
    }
}

impl FromSpecImpl<IcmpError> for ProtocolError {
    open spec fn obeys_from_spec() -> bool {
        true
    }

    open spec fn from_spec(e: IcmpError) -> Self {
        ProtocolError::Icmp(e)
    }
}

/// What a call of `reply` came to, as plain data: the octets of the reply, or
/// the error's view.
pub open spec fn outcome(r: Result<Vec<u8>, ProtocolError>) -> Result<Seq<u8>, ProtocolErrorView> {
    match r {
        Ok(reply) => Ok(reply@),
        Err(e) => Err(e@),
    }
}

/// An upper or lower layer of the stack: given a buffer, it produces the reply
/// to it or says why there is none.
pub trait Protocol {
    /// What the protocol answers to the buffer, where that is laid down, the
    /// reply or the error as plain data; `None` where nothing is laid down. A
    /// protocol that states no answer of its own promises nothing.
    open spec fn answer(&self, buf: Seq<u8>) -> Option<Result<Seq<u8>, ProtocolErrorView>> {
        None
    }

    /// Answers the buffer: the reply as a buffer of its own, or the error.
    fn reply(&self, buf: &[u8]) -> (r: Result<Vec<u8>, ProtocolError>)
        ensures
            self.answer(buf@) matches Some(answer) ==> outcome(r) == answer,
    ;
}

/// One's-complement addition of the word `high`, `low` to a folded sum: the
/// carry out of the low 16 bits is added back into them.
fn add_word(sum: u32, high: u8, low: u8) -> (folded: u32)
    requires
        sum <= 0xffff,
    ensures
        folded == fold((sum + high * 256 + low) as nat),
        folded <= 0xffff,
{
    let high: u32 = high as u32;
    assert((high << 8) == high * 256) by (bit_vector)
        requires
            high <= 0xff,
    ;
    let wide: u32 = sum + (high << 8) + low as u32;
    assert((wide & 0xffff) + (wide >> 16) == wide % 0x1_0000 + wide / 0x1_0000) by (bit_vector);
    proof {
        lemma_fold_closed_form(wide as nat);
        lemma_fold_closed_form((wide % 0x1_0000 + wide / 0x1_0000) as nat);
    }
    (wide & 0xffff) + (wide >> 16)
}

/// The Internet checksum of the buffer (RFC 1071). An odd trailing octet counts
/// as the high octet of a last word.
pub fn get_checksum(buf: &Vec<u8>) -> (checksum: u16)
    ensures
        checksum == internet_checksum(buf@),
{
    let len = buf.len();
    let mut sum: u32 = 0;
    let mut i: usize = 0;
    while len - i > 1
        invariant
            len == buf@.len(),
            i % 2 == 0,
            i <= len,
            sum == fold(word_sum(buf@, (i / 2) as nat)),
            sum <= 0xffff,
        decreases len - i,
    {
        proof {
            lemma_fold_step(word_sum(buf@, (i / 2) as nat), word(buf@, (i / 2) as int));
        }
        sum = add_word(sum, buf[i], buf[i + 1]);
        i += 2;
    }
    if i < len {
        proof {
            lemma_fold_step(word_sum(buf@, (i / 2) as nat), word(buf@, (i / 2) as int));
        }
        sum = add_word(sum, buf[i], 0);
    }
    assert(!sum & 0xffff == 0xffff - sum) by (bit_vector)
        requires
            sum <= 0xffff,
    ;
    (!sum & 0xffff) as u16
}

} // verus!
