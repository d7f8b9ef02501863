//! The record layer shared by the AEAD and AEAD-2022 families.
//!
//! After the salt, the wire is a sequence of records. Each record is a sealed
//! header followed by a sealed payload, and each sealing uses the next value
//! of a little-endian counter as its nonce. A header ends in the big-endian
//! length of the payload; the first header of an AEAD-2022 stream carries a
//! preamble in front of that length.
//!
//! This file states what a byte sequence decodes to (`step`, `settle`) and
//! proves that the decoding does not depend on how the bytes are cut up.

use crate::crypto::{opened, CipherCategory, CipherKind};
use crate::encoding::{be16_value, be64_value, get_be64, le_bytes};
use crate::error::Error;
use crate::primitives::TAG_LEN;
use vstd::prelude::*;
use vstd::slice::slice_subrange;

verus! {

/// Which way a byte stream travels.
#[derive(Clone, Copy, Debug, PartialEq, Eq, Structural)]
pub enum Flow {
    /// From the client to the server.
    Request,
    /// From the server to the client.
    Response,
}

/// Seconds by which an AEAD-2022 header timestamp may differ from the clock.
pub const TIMESTAMP_TOLERANCE: u64 = 30;

/// Largest number of plaintext bytes that one frame carries. The AEAD limit
/// is part of the protocol; the others bound the size of a frame in memory.
pub open spec fn max_payload(kind: CipherKind) -> usize {
    match kind.spec_category() {
        CipherCategory::Aead => 0x3FFF,
        _ => 0xFFFF,
    }
}

/// The byte that opens the first header of an AEAD-2022 stream.
pub open spec fn flow_byte(flow: Flow) -> u8 {
    match flow {
        Flow::Request => 0,
        Flow::Response => 1,
    }
}

/// Length of what precedes the payload length in the first header: nothing
/// for AEAD; for AEAD-2022 a type byte and a timestamp, and in a response the
/// salt of the request as well.
pub open spec fn preamble_len(kind: CipherKind, flow: Flow) -> usize {
    if kind.spec_category() == CipherCategory::Aead2022 {
        match flow {
            Flow::Request => 9,
            Flow::Response => (9 + kind.spec_prefix_len()) as usize,
        }
    } else {
        0
    }
}

/// Length of the header plaintext of the record sealed at `counter`.
pub open spec fn header_len(kind: CipherKind, flow: Flow, counter: nat) -> usize {
    if counter == 0 {
        (preamble_len(kind, flow) + 2) as usize
    } else {
        2
    }
}

/// The nonce for the sealing numbered `counter`: twelve bytes, little-endian.
pub open spec fn nonce_bytes(counter: nat) -> Seq<u8> {
    le_bytes(counter, 12)
}

/// Whether two points in time are within the tolerance of each other.
pub open spec fn timestamps_close(a: nat, b: nat) -> bool {
    a <= b + TIMESTAMP_TOLERANCE && b <= a + TIMESTAMP_TOLERANCE
}

/// Why a preamble is refused, if it is: a wrong type byte is a framing error,
/// a timestamp too far from `clock` an authentication error.
pub open spec fn preamble_error(kind: CipherKind, flow: Flow, clock: u64, preamble: Seq<u8>) -> Option<Error> {
    if kind.spec_category() != CipherCategory::Aead2022 {
        None
    } else if preamble[0] != flow_byte(flow) {
        Some(Error::ProtocolFraming)
    } else if !timestamps_close(be64_value(preamble.skip(1)), clock as nat) {
        Some(Error::CryptoAuth)
    } else {
        None
    }
}

/// Largest number of plaintext bytes that one frame carries.
pub fn payload_limit(kind: CipherKind) -> (n: usize)
    ensures
        n == max_payload(kind),
{
    match kind.category() {
        CipherCategory::Aead => 0x3FFF,
        _ => 0xFFFF,
    }
}

/// Length of what precedes the payload length in the first header.
pub fn preamble_size(kind: CipherKind, flow: Flow) -> (n: usize)
    ensures
        n == preamble_len(kind, flow),
{
    match kind.category() {
        CipherCategory::Aead2022 => match flow {
            Flow::Request => 9,
            Flow::Response => 9 + kind.prefix_len(),
        },
        _ => 0,
    }
}

/// Length of the header plaintext of the record sealed at `counter`.
pub fn header_size(kind: CipherKind, flow: Flow, counter: u64) -> (n: usize)
    ensures
        n == header_len(kind, flow, counter as nat),
        2 <= n <= 43,
{
    if counter == 0 {
        preamble_size(kind, flow) + 2
    } else {
        2
    }
}

/// Whether two points in time are within the tolerance of each other.
pub fn close_in_time(a: u64, b: u64) -> (close: bool)
    ensures
        close == timestamps_close(a as nat, b as nat),
{
    if a >= b {
        a - b <= TIMESTAMP_TOLERANCE
    } else {
        b - a <= TIMESTAMP_TOLERANCE
    }
}

/// Checks the preamble of a first header against the expected direction and
/// the clock.
pub fn check_preamble(kind: CipherKind, flow: Flow, clock: u64, preamble: &[u8]) -> (refused: Option<Error>)
    requires
        preamble@.len() == preamble_len(kind, flow),
    ensures
        refused == preamble_error(kind, flow, clock, preamble@),
{
    match kind.category() {
        CipherCategory::Aead2022 => {
            let expected: u8 = match flow {
                Flow::Request => 0,
                Flow::Response => 1,
            };
            if preamble[0] != expected {
                Some(Error::ProtocolFraming)
            } else {
                let stamp = get_be64(slice_subrange(preamble, 1, 9));
                assert(preamble@.subrange(1, 9) =~= preamble@.skip(1).take(8));
                if close_in_time(stamp, clock) {
                    None
                } else {
                    Some(Error::CryptoAuth)
                }
            }
        },
        _ => None,
    }
}

/// What both ends of one direction share once the salt is known.
pub struct Channel {
    pub kind: CipherKind,
    pub flow: Flow,
    /// The IV of a stream cipher, the salt of an AEAD cipher.
    pub salt: Seq<u8>,
    /// The key in use: the master key of a stream cipher, the session subkey
    /// of an AEAD cipher.
    pub subkey: Seq<u8>,
}

/// A decoder between two calls.
pub struct RecordState {
    /// Number of sealings opened so far; the next nonce.
    pub counter: nat,
    /// Wire bytes received and not yet opened.
    pub pending: Seq<u8>,
    /// Payload length announced by a header whose payload is still awaited.
    pub expect: Option<nat>,
    /// Plaintext opened and not yet handed out.
    pub plain: Seq<u8>,
    /// Preamble of the first header, once opened.
    pub preamble: Option<Seq<u8>>,
    /// Length of the payload opened last; zero before the first.
    pub chunk: nat,
    /// The error that ended decoding, if one did.
    pub failed: Option<Error>,
}

impl RecordState {
    /// A decoder that has seen nothing.
    pub open spec fn initial() -> RecordState {
        RecordState {
            counter: 0,
            pending: Seq::empty(),
            expect: None,
            plain: Seq::empty(),
            preamble: None,
            chunk: 0,
            failed: None,
        }
    }

    /// This decoder after a fatal error: what is pending is dropped, what was
    /// opened before stays.
    pub open spec fn fail(self, e: Error) -> RecordState {
        RecordState { pending: Seq::empty(), expect: None, failed: Some(e), ..self }
    }

    /// This decoder after more bytes arrived. A failed decoder ignores them.
    pub open spec fn append(self, data: Seq<u8>) -> RecordState {
        if self.failed is Some {
            self
        } else {
            RecordState { pending: self.pending + data, ..self }
        }
    }

    /// True between records: nothing pending, no payload awaited, no error.
    pub open spec fn at_boundary(self) -> bool {
        self.pending.len() == 0 && self.expect is None && self.failed is None
    }
}

/// Opens the next header or payload if all its bytes are there. `None` means
/// that the decoder must wait for more bytes, or has failed.
pub open spec fn step(ch: Channel, clock: u64, s: RecordState) -> Option<RecordState> {
    if s.failed is Some {
        None
    } else {
        match s.expect {
            None => {
                let h = header_len(ch.kind, ch.flow, s.counter) as int;
                let hs = h + TAG_LEN;
                if s.pending.len() < hs {
                    None
                } else if s.counter + 2 > u64::MAX {
                    Some(s.fail(Error::NotPermitted))
                } else {
                    match opened(ch.kind, ch.subkey, nonce_bytes(s.counter), s.pending.take(hs)) {
                        None => Some(s.fail(Error::CryptoAuth)),
                        Some(header) => {
                            let preamble = header.take(h - 2);
                            let len = be16_value(header.skip(h - 2));
                            let refused = if s.counter == 0 {
                                preamble_error(ch.kind, ch.flow, clock, preamble)
                            } else {
                                None
                            };
                            if refused is Some {
                                Some(s.fail(refused->0))
                            } else if len == 0 || len > max_payload(ch.kind) {
                                Some(s.fail(Error::ProtocolFraming))
                            } else {
                                Some(
                                    RecordState {
                                        counter: s.counter + 1,
                                        pending: s.pending.skip(hs),
                                        expect: Some(len),
                                        preamble: if s.counter == 0 {
                                            Some(preamble)
                                        } else {
                                            s.preamble
                                        },
                                        ..s
                                    },
                                )
                            }
                        },
                    }
                }
            },
            Some(len) => {
                let ps = len + TAG_LEN;
                if s.pending.len() < ps {
                    None
                } else {
                    match opened(ch.kind, ch.subkey, nonce_bytes(s.counter), s.pending.take(ps as int)) {
                        None => Some(s.fail(Error::CryptoAuth)),
                        Some(payload) => Some(
                            RecordState {
                                counter: s.counter + 1,
                                pending: s.pending.skip(ps as int),
                                expect: None,
                                plain: s.plain + payload,
                                chunk: len,
                                ..s
                            },
                        ),
                    }
                }
            },
        }
    }
}

/// Opens everything that is complete.
pub open spec fn settle(ch: Channel, clock: u64, s: RecordState) -> RecordState
    decreases s.pending.len(),
{
    match step(ch, clock, s) {
        None => s,
        Some(next) => if next.pending.len() < s.pending.len() {
            settle(ch, clock, next)
        } else {
            next
        },
    }
}

/// A failed decoder stays as it is.
pub proof fn lemma_settle_failed(ch: Channel, clock: u64, s: RecordState)
    requires
        s.failed is Some,
    ensures
        settle(ch, clock, s) == s,
{
}

/// If a step is possible, it is still possible, with the same outcome, after
/// more bytes have arrived.
pub proof fn lemma_step_append(ch: Channel, clock: u64, s: RecordState, data: Seq<u8>)
    requires
        step(ch, clock, s) is Some,
    ensures
        step(ch, clock, s.append(data)) == Some((step(ch, clock, s)->0).append(data)),
{
    let t = s.append(data);
    match s.expect {
        None => {
            let hs = header_len(ch.kind, ch.flow, s.counter) as int + TAG_LEN;
            assert(t.pending.take(hs) =~= s.pending.take(hs));
            assert(t.pending.skip(hs) =~= s.pending.skip(hs) + data);
        },
        Some(len) => {
            let ps = (len + TAG_LEN) as int;
            assert(t.pending.take(ps) =~= s.pending.take(ps));
            assert(t.pending.skip(ps) =~= s.pending.skip(ps) + data);
        },
    }
}

/// Decoding does not depend on how the bytes are cut up: settling, receiving
/// more and settling again gives what receiving everything at once gives.
pub proof fn lemma_settle_append(ch: Channel, clock: u64, s: RecordState, data: Seq<u8>)
    ensures
        settle(ch, clock, settle(ch, clock, s).append(data)) == settle(ch, clock, s.append(data)),
    decreases s.pending.len(),
{
    match step(ch, clock, s) {
        None => {},
        Some(next) => {
            lemma_step_append(ch, clock, s, data);
            if next.pending.len() < s.pending.len() {
                lemma_settle_append(ch, clock, next, data);
                if next.failed is Some {
                    lemma_settle_failed(ch, clock, next);
                } else {
                    assert(next.append(data).pending.len() < s.append(data).pending.len());
                }
            } else {
                assert(next.failed is Some);
                lemma_settle_failed(ch, clock, next);
            }
        },
    }
}

} // verus!
