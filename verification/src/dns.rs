//! Reassembly of DNS messages from a DNS-over-TCP byte stream, in which each
//! message follows its length, two bytes, most significant first.

use crate::buf::{extend, take_front};
use crate::encoding::{be16_value, get_be16};
use vstd::prelude::*;
use vstd::slice::slice_subrange;

verus! {

/// Length of the message at the front of `buffer`, if the buffer holds all
/// of it.
pub open spec fn front_len(buffer: Seq<u8>) -> Option<nat> {
    if buffer.len() >= 2 && buffer.len() >= 2 + be16_value(buffer) {
        Some(be16_value(buffer))
    } else {
        None
    }
}

/// What an inspection of `buffer` hands to the access control list, in
/// order, and what it leaves in the buffer, where `answers` says of each
/// message whether the list answers it itself. Messages are taken from the
/// front as long as the buffer holds a whole one; a message that the list
/// answers ends the inspection and empties the buffer.
pub open spec fn inspected(buffer: Seq<u8>, answers: spec_fn(Seq<u8>) -> bool) -> (Seq<Seq<u8>>, Seq<u8>)
    decreases buffer.len(),
{
    match front_len(buffer) {
        None => (Seq::empty(), buffer),
        Some(n) => {
            let message = buffer.subrange(2, 2 + n as int);
            if answers(message) {
                (seq![message], Seq::empty())
            } else {
                let rest = inspected(buffer.skip(2 + n as int), answers);
                (seq![message] + rest.0, rest.1)
            }
        },
    }
}

/// The messages of a list as byte sequences.
pub open spec fn views(messages: Seq<Vec<u8>>) -> Seq<Seq<u8>> {
    messages.map_values(|m: Vec<u8>| m@)
}

/// True where `answers` says what the list answers: whatever `ask` returns
/// for a message is what `answers` says of its bytes.
pub open spec fn decided_by<F: Fn(&[u8]) -> bool>(ask: F, answers: spec_fn(Seq<u8>) -> bool) -> bool {
    forall|m: &[u8], v: bool| call_ensures(ask, (m,), v) ==> v == answers(m@)
}

/// What a connection keeps beside its stream: whether it is a DNS
/// connection, and the DNS bytes read and not yet taken as messages.
pub struct ProxyPara {
    is_dns: bool,
    dns_buffer: Vec<u8>,
}

impl ProxyPara {
    /// Whether the target of the connection is a DNS server.
    pub closed spec fn spec_is_dns(&self) -> bool {
        self.is_dns
    }

    /// The DNS bytes read and not yet taken as messages.
    pub closed spec fn buffer(&self) -> Seq<u8> {
        self.dns_buffer@
    }

    /// For a connection to a target at `port`: a DNS connection if and only
    /// if the port is 53, with nothing read yet.
    pub fn default(isdns: bool) -> (para: ProxyPara)
        ensures
            para.spec_is_dns() == isdns,
            para.buffer() == Seq::<u8>::empty(),
    {
        ProxyPara { is_dns: isdns, dns_buffer: Vec::new() }
    }

    /// Whether the target of the connection is a DNS server.
    #[verifier::when_used_as_spec(spec_is_dns)]
    pub fn is_dns(&self) -> (dns: bool)
        ensures
            dns == self.spec_is_dns(),
    {
        self.is_dns
    }

    /// Notes the bytes that a read delivered. On a DNS connection they are
    /// appended to the buffer; elsewhere nothing is kept.
    pub fn sniff(&mut self, data: &[u8])
        ensures
            final(self).spec_is_dns() == old(self).spec_is_dns(),
            final(self).buffer() == (if old(self).spec_is_dns() {
                old(self).buffer() + data@
            } else {
                old(self).buffer()
            }),
    {
        if self.is_dns {
            extend(&mut self.dns_buffer, data);
        }
    }

    /// Takes the message at the front of the buffer, without its length, if
    /// the buffer holds all of it.
    pub fn next_query(&mut self) -> (message: Option<Vec<u8>>)
        ensures
            final(self).spec_is_dns() == old(self).spec_is_dns(),
            match message {
                Some(m) => front_len(old(self).buffer()) == Some(m@.len()) && m@ == old(self).buffer().subrange(
                    2,
                    2 + m@.len() as int,
                ) && final(self).buffer() == old(self).buffer().skip(2 + m@.len() as int),
                None => front_len(old(self).buffer()) is None && final(self).buffer() == old(self).buffer(),
            },
    {
        if self.dns_buffer.len() < 2 {
            return None;
        }
        let len: usize = get_be16(slice_subrange(self.dns_buffer.as_slice(), 0, 2)) as usize;
        assert(self.dns_buffer@.subrange(0, 2)[0] == self.dns_buffer@[0]);
        assert(self.dns_buffer@.subrange(0, 2)[1] == self.dns_buffer@[1]);
        if self.dns_buffer.len() - 2 < len {
            return None;
        }
        let mut framed = take_front(&mut self.dns_buffer, 2 + len);
        let message = framed.split_off(2);
        assert(message@ =~= old(self).buffer().subrange(2, 2 + len));
        Some(message)
    }

    /// Hands the messages in the buffer to the access control list, which
    /// `check_dns_message` stands for: those at the front of which the buffer
    /// holds all, one after the other, until the list says of one that it
    /// answered it. Then what is left in the buffer is dropped. Returns the
    /// messages handed over, in order. Where the answers of the list depend
    /// on the message alone, the messages handed over and what is left in the
    /// buffer are what `inspected` says.
    pub fn inspect<F: Fn(&[u8]) -> bool>(&mut self, check_dns_message: F) -> (handed: Vec<Vec<u8>>)
        requires
            forall|m: &[u8]| call_requires(check_dns_message, (m,)),
        ensures
            final(self).spec_is_dns() == old(self).spec_is_dns(),
            forall|answers: spec_fn(Seq<u8>) -> bool|
                decided_by(check_dns_message, answers) ==> (#[trigger] inspected(old(self).buffer(), answers)) == (
                    views(handed@),
                    final(self).buffer(),
                ),
    {
        let mut handed: Vec<Vec<u8>> = Vec::new();
        proof {
            assert(views(handed@) =~= Seq::<Seq<u8>>::empty());
            assert forall|answers: spec_fn(Seq<u8>) -> bool| true implies views(handed@) + (#[trigger] inspected(
                self.buffer(),
                answers,
            )).0 =~= inspected(self.buffer(), answers).0 by {}
        }
        loop
            invariant
                forall|m: &[u8]| call_requires(check_dns_message, (m,)),
                self.spec_is_dns() == old(self).spec_is_dns(),
                forall|answers: spec_fn(Seq<u8>) -> bool|
                    decided_by(check_dns_message, answers) ==> (#[trigger] inspected(old(self).buffer(), answers)).1
                        == inspected(self.buffer(), answers).1 && inspected(old(self).buffer(), answers).0 == views(
                        handed@,
                    ) + inspected(self.buffer(), answers).0,
            ensures
                front_len(self.buffer()) is None,
            decreases self.buffer().len(),
        {
            let ghost before = self.buffer();
            let ghost handed_before = views(handed@);
            let message = match self.next_query() {
                Some(m) => m,
                None => {
                    break ;
                },
            };
            let answered = check_dns_message(message.as_slice());
            if answered {
                self.answered();
            }
            let ghost taken = message@;
            handed.push(message);
            proof {
                assert(views(handed@) =~= handed_before.push(taken));
                assert forall|answers: spec_fn(Seq<u8>) -> bool| decided_by(check_dns_message, answers) implies (
                #[trigger] inspected(old(self).buffer(), answers)).1 == inspected(self.buffer(), answers).1
                    && inspected(old(self).buffer(), answers).0 == views(handed@) + inspected(
                    self.buffer(),
                    answers,
                ).0 by {
                    assert(answers(taken) == answered);
                    assert(inspected(old(self).buffer(), answers).1 == inspected(before, answers).1);
                    let now = inspected(self.buffer(), answers).0;
                    if answered {
                        assert(now =~= Seq::<Seq<u8>>::empty());
                        assert(inspected(before, answers).0 =~= seq![taken]);
                    } else {
                        assert(inspected(before, answers).0 =~= seq![taken] + now);
                    }
                    assert(handed_before + (seq![taken] + now) =~= handed_before.push(taken) + now);
                    assert(handed_before + seq![taken] =~= handed_before.push(taken));
                }
            }
        }
        proof {
            assert forall|answers: spec_fn(Seq<u8>) -> bool| decided_by(check_dns_message, answers) implies (
            #[trigger] inspected(old(self).buffer(), answers)) == (views(handed@), self.buffer()) by {
                assert(inspected(self.buffer(), answers).0 =~= Seq::<Seq<u8>>::empty());
                assert(views(handed@) + Seq::<Seq<u8>>::empty() =~= views(handed@));
            }
        }
        handed
    }

    /// Notes that the access control list answered the message just taken:
    /// what is left in the buffer is dropped.
    pub fn answered(&mut self)
        ensures
            final(self).spec_is_dns() == old(self).spec_is_dns(),
            final(self).buffer() == Seq::<u8>::empty(),
    {
        self.dns_buffer.clear();
    }
}

/// Bytes that hold no whole message are left alone by an inspection, and
/// nothing is handed to the list.
pub proof fn lemma_incomplete_message_waits(buffer: Seq<u8>, answers: spec_fn(Seq<u8>) -> bool)
    requires
        buffer.len() < 2 || buffer.len() < 2 + be16_value(buffer),
    ensures
        inspected(buffer, answers) == (Seq::<Seq<u8>>::empty(), buffer),
{
}

/// A message taken from the buffer is the one that was put in: after a
/// message and its length were appended to an empty buffer, together with
/// whatever follows, the message at the front is that message.
pub proof fn lemma_front_is_first_message(message: Seq<u8>, rest: Seq<u8>)
    requires
        message.len() <= 0xFFFF,
    ensures
        ({
            let buffer = crate::encoding::be16(message.len() as u16) + message + rest;
            &&& front_len(buffer) == Some(message.len())
            &&& buffer.subrange(2, 2 + message.len() as int) == message
            &&& buffer.skip(2 + message.len() as int) == rest
        }),
{
    let buffer = crate::encoding::be16(message.len() as u16) + message + rest;
    crate::encoding::lemma_be16_roundtrip(message.len() as u16);
    assert(buffer[0] == crate::encoding::be16(message.len() as u16)[0]);
    assert(buffer[1] == crate::encoding::be16(message.len() as u16)[1]);
    assert(buffer.subrange(2, 2 + message.len() as int) =~= message);
    assert(buffer.skip(2 + message.len() as int) =~= rest);
}

} // verus!
