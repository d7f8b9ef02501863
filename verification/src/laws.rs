//! What holds of readers and writers together, and of a reader under every
//! way of cutting up its input.

use crate::crypto::{keystream_len, opened, CipherCategory};
use crate::encoding::{
    be16, be64, le_value, lemma_be16_roundtrip, lemma_be64_roundtrip, lemma_le_roundtrip, lemma_u64_fits,
};
use crate::error::Error;
use crate::model::{digest, masked, Poll, ReaderModel, WriterModel};
use crate::primitives::TAG_LEN;
use crate::proxy_stream::{
    first_carried, first_head, first_packet, ProxyWriteModel, WriteStateModel, MAX_PADDING,
};
use crate::record::{
    header_len, lemma_settle_append, lemma_settle_failed, max_payload, nonce_bytes, preamble_error, settle, step,
    timestamps_close, Channel, RecordState,
};
use crate::context::remembered;
use vstd::prelude::*;

verus! {

/// The nonce of a sealing spells the number of that sealing: read as a
/// little-endian number it is the counter itself. So a later sealing has a
/// larger nonce, and no two sealings of one direction share a nonce.
pub proof fn lemma_nonces_increase(a: u64, b: u64)
    requires
        a < b,
    ensures
        le_value(nonce_bytes(a as nat)) == a,
        le_value(nonce_bytes(b as nat)) == b,
        le_value(nonce_bytes(a as nat)) < le_value(nonce_bytes(b as nat)),
        nonce_bytes(a as nat) != nonce_bytes(b as nat),
{
    lemma_u64_fits(a, 12);
    lemma_u64_fits(b, 12);
    lemma_le_roundtrip(a as nat, 12);
    lemma_le_roundtrip(b as nat, 12);
}

/// Every frame that an AEAD writer makes takes the two nonces that follow
/// the ones of the frame before: the counter goes up by two, and never back.
pub proof fn lemma_writer_counter_advances(w: WriterModel, clock: u64, buf: Seq<u8>)
    requires
        w.kind.seals(),
        w.assembles(buf),
    ensures
        w.assemble(clock, buf).counter == w.counter + 2,
        w.assemble(clock, buf).counter <= u64::MAX,
{
}

/// A writer of AEAD-2022 responses that has not been told the salt of the
/// request refuses to write: a poll with plaintext is answered with
/// `NotPermitted`, and the writer stays as it is.
pub proof fn lemma_response_needs_request_salt(w: WriterModel, clock: u64, buf: Seq<u8>)
    requires
        w.kind.spec_category() == CipherCategory::Aead2022,
        w.flow == crate::record::Flow::Response,
        w.request_salt is None,
        w.queued.len() == 0,
        buf.len() > 0,
    ensures
        w.poll_outcome(buf, None) == crate::model::Poll::<usize>::Ready(Err(Error::NotPermitted)),
        w.poll(clock, buf, None) == w,
{
}

/// A reader that has failed stays failed: whatever arrives afterwards, its
/// state and the salts remembered stay as they are, and every poll that finds no
/// plaintext left reports the same error.
pub proof fn lemma_failed_reader_stays_failed(
    m: ReaderModel,
    seen: Seq<Seq<u8>>,
    clock: u64,
    data: Seq<u8>,
    capacity: nat,
)
    requires
        m.rec.failed is Some,
    ensures
        m.absorb(seen, clock, data) == (m, seen),
        m.close() == m,
        m.rec.plain.len() == 0 && capacity > 0 ==> m.outcome(false, capacity) == crate::model::Poll::<
            Seq<u8>,
        >::Ready(Err(m.rec.failed->0)),
{
}

/// The bytes at the front of what is pending that make up the next header or
/// payload, once all of them are there.
pub open spec fn next_sealed(m: ReaderModel) -> Option<Seq<u8>> {
    let need = match m.rec.expect {
        Some(len) => len + TAG_LEN,
        None => header_len(m.kind, m.flow, m.rec.counter) + TAG_LEN,
    };
    if m.rec.pending.len() >= need {
        Some(m.rec.pending.take(need as int))
    } else {
        None
    }
}

/// A header or payload that does not authenticate fails the reader with
/// `CryptoAuth`, and nothing of it reaches the plaintext.
pub proof fn lemma_bad_tag_fails(m: ReaderModel, clock: u64)
    requires
        m.kind.seals(),
        m.salt is Some,
        m.rec.failed is None,
        m.rec.counter + 2 <= u64::MAX,
        next_sealed(m) is Some,
    ensures
        opened(m.kind, m.channel().subkey, nonce_bytes(m.rec.counter), next_sealed(m)->0) is None ==> digest(
            m.channel(),
            clock,
            m.rec,
        ) == m.rec.fail(Error::CryptoAuth) && digest(m.channel(), clock, m.rec).plain == m.rec.plain,
{
    lemma_settle_failed(m.channel(), clock, m.rec.fail(Error::CryptoAuth));
}

/// Laying the keystream over two pieces one after the other is laying it
/// over both at once.
pub proof fn lemma_masked_append(ch: Channel, offset: nat, a: Seq<u8>, b: Seq<u8>)
    ensures
        masked(ch, offset, a + b) =~= masked(ch, offset, a) + masked(ch, offset + a.len(), b),
{
}

/// Laying the keystream over a piece twice gives the piece back.
pub proof fn lemma_masked_twice(ch: Channel, offset: nat, a: Seq<u8>)
    ensures
        masked(ch, offset, masked(ch, offset, a)) =~= a,
{
    assert forall|i: int| 0 <= i < a.len() implies masked(ch, offset, masked(ch, offset, a))[i] == a[i] by {
        let k = crate::crypto::keystream_byte(ch.kind, ch.subkey, ch.salt, (offset + i) as nat);
        let x = a[i];
        assert((x ^ k) ^ k == x) by (bit_vector);
    }
}

/// A decoder that has failed is left as it is.
pub proof fn lemma_digest_failed(ch: Channel, clock: u64, s: RecordState)
    requires
        s.failed is Some,
    ensures
        digest(ch, clock, s) == s,
{
    lemma_settle_failed(ch, clock, s);
}

/// Decoding does not depend on how the bytes are cut up, whatever the
/// family.
pub proof fn lemma_digest_append(ch: Channel, clock: u64, s: RecordState, data: Seq<u8>)
    requires
        ch.kind.spec_category() == CipherCategory::Stream ==> s.counter <= keystream_len(ch.kind),
    ensures
        digest(ch, clock, digest(ch, clock, s).append(data)) == digest(ch, clock, s.append(data)),
{
    match ch.kind.spec_category() {
        CipherCategory::Plain => {
            if s.failed is None {
                assert(s.plain + s.pending + (Seq::<u8>::empty() + data) =~= s.plain + (s.pending + data));
            }
        },
        CipherCategory::Stream => {
            if s.failed is None {
                let room = keystream_len(ch.kind) - s.counter;
                let p = s.pending;
                if p.len() <= room {
                    let room1 = room - p.len();
                    assert(Seq::<u8>::empty() + data =~= data);
                    if data.len() <= room1 {
                        lemma_masked_append(ch, s.counter, p, data);
                        assert(s.plain + masked(ch, s.counter, p) + masked(ch, s.counter + p.len(), data)
                            =~= s.plain + masked(ch, s.counter, p + data));
                    } else {
                        assert((p + data).take(room) =~= p + data.take(room1));
                        lemma_masked_append(ch, s.counter, p, data.take(room1));
                        assert(s.plain + masked(ch, s.counter, p) + masked(
                            ch,
                            s.counter + p.len(),
                            data.take(room1),
                        ) =~= s.plain + masked(ch, s.counter, (p + data).take(room)));
                    }
                } else {
                    assert((p + data).take(room) =~= p.take(room));
                }
            }
        },
        _ => {
            lemma_settle_append(ch, clock, s, data);
        },
    }
}

/// What a reader has after its input arrived in two pieces is what it has
/// after the same input arrived in one piece.
pub proof fn lemma_absorb_append(m: ReaderModel, seen: Seq<Seq<u8>>, clock: u64, a: Seq<u8>, b: Seq<u8>)
    requires
        m.wf(),
    ensures
        ({
            let first = m.absorb(seen, clock, a);
            first.0.absorb(first.1, clock, b) == m.absorb(seen, clock, a + b)
        }),
{
    let first = m.absorb(seen, clock, a);
    let n = m.kind.spec_prefix_len() as int;
    if m.rec.failed is Some {
    } else if m.salt is Some {
        let s = m.rec.append(a);
        lemma_digest_append(m.channel(), clock, s, b);
        assert(s.append(b) == m.rec.append(a + b)) by {
            assert(m.rec.pending + a + b =~= m.rec.pending + (a + b));
        }
        if first.0.rec.failed is Some {
            lemma_digest_failed(m.channel(), clock, first.0.rec);
        }
    } else {
        let fed = m.rec.pending + a;
        assert(m.rec.pending + a + b =~= m.rec.pending + (a + b));
        if fed.len() < n {
        } else {
            let salt = fed.take(n);
            assert((fed + b).take(n) =~= salt);
            assert((fed + b).skip(n) =~= fed.skip(n) + b);
            if seen.contains(salt) {
            } else {
                let salted = ReaderModel {
                    salt: Some(salt),
                    rec: RecordState { pending: fed.skip(n), ..m.rec },
                    ..m
                };
                lemma_digest_append(salted.channel(), clock, salted.rec, b);
                if first.0.rec.failed is Some {
                    lemma_digest_failed(salted.channel(), clock, first.0.rec);
                }
            }
        }
    }
}

/// All the pieces of `pieces`, one after the other.
pub open spec fn joined(pieces: Seq<Seq<u8>>) -> Seq<u8>
    decreases pieces.len(),
{
    if pieces.len() == 0 {
        Seq::empty()
    } else {
        joined(pieces.drop_last()) + pieces.last()
    }
}

/// The reader, and the salts remembered, after the pieces of `pieces`
/// arrived one by one.
pub open spec fn fed(m: ReaderModel, seen: Seq<Seq<u8>>, clock: u64, pieces: Seq<Seq<u8>>) -> (
    ReaderModel,
    Seq<Seq<u8>>,
)
    decreases pieces.len(),
{
    if pieces.len() == 0 {
        (m, seen)
    } else {
        let before = fed(m, seen, clock, pieces.drop_last());
        before.0.absorb(before.1, clock, pieces.last())
    }
}

/// Whatever arrives, a reader stays well-formed. In particular it hands out
/// no plaintext before the IV or salt of its peer is complete: as long as
/// that is missing, there is no plaintext.
pub proof fn lemma_absorb_wf(m: ReaderModel, seen: Seq<Seq<u8>>, clock: u64, data: Seq<u8>)
    requires
        m.wf(),
    ensures
        m.absorb(seen, clock, data).0.wf(),
        m.absorb(seen, clock, data).0.salt is None ==> m.absorb(seen, clock, data).0.rec.plain.len() == 0,
        ReaderModel::initial(m.kind, m.flow, m.key).wf(),
{
}

/// A short read changes nothing in the end: however the bytes of a stream
/// are cut into pieces, once all pieces have arrived the reader is where it
/// is after the whole arrived at once.
pub proof fn lemma_chunking_is_irrelevant(m: ReaderModel, seen: Seq<Seq<u8>>, clock: u64, pieces: Seq<Seq<u8>>)
    requires
        m.wf(),
        pieces.len() > 0,
    ensures
        fed(m, seen, clock, pieces) == m.absorb(seen, clock, joined(pieces)),
        fed(m, seen, clock, pieces).0.wf(),
    decreases pieces.len(),
{
    let init = pieces.drop_last();
    if init.len() == 0 {
        assert(joined(init) + pieces.last() =~= pieces.last());
        lemma_absorb_wf(m, seen, clock, pieces.last());
    } else {
        lemma_chunking_is_irrelevant(m, seen, clock, init);
        lemma_absorb_append(m, seen, clock, joined(init), pieces.last());
        lemma_absorb_wf(m, seen, clock, joined(pieces));
    }
}

/// True where the clock of the reader lets the next frame of the writer
/// pass. Only the first header of an AEAD-2022 stream carries the time; for
/// it the clocks of the two ends must be within the tolerance. Nothing is
/// asked for any other frame or cipher.
pub open spec fn clocks_agree(w: WriterModel, clock: u64, reader_clock: u64) -> bool {
    w.kind.spec_category() == CipherCategory::Aead2022 && w.counter == 0 ==> timestamps_close(
        clock as nat,
        reader_clock as nat,
    )
}

/// True where the reader has turned into plaintext all that the writer has
/// framed: both ends use the same cipher, direction and key, the reader
/// stands between frames at the counter of the writer, and it has the IV or
/// salt of the writer if and only if the writer has sent it.
pub open spec fn in_step(w: WriterModel, r: ReaderModel) -> bool {
    &&& r.kind == w.kind
    &&& r.flow == w.flow
    &&& r.key == w.key
    &&& r.rec.counter == w.counter
    &&& r.rec.pending.len() == 0
    &&& r.rec.expect is None
    &&& r.rec.failed is None
    &&& r.salt == (if w.started || w.kind.spec_prefix_len() == 0 {
        Some(w.salt)
    } else {
        None
    })
}

/// A writer and a reader that have done nothing yet, with the same cipher,
/// direction and key, are in step.
pub proof fn lemma_fresh_ends_in_step(
    kind: crate::crypto::CipherKind,
    flow: crate::record::Flow,
    key: Seq<u8>,
    salt: Seq<u8>,
)
    requires
        salt.len() == kind.spec_prefix_len(),
    ensures
        in_step(WriterModel::initial(kind, flow, key, salt), ReaderModel::initial(kind, flow, key)),
        ReaderModel::initial(kind, flow, key).wf(),
{
    if kind.spec_prefix_len() == 0 {
        assert(salt =~= Seq::<u8>::empty());
    }
}

/// What the writer frames, the reader at the other end turns back into the
/// plaintext. Take a writer about to frame the start of `buf` and a reader in
/// step with it. Let the clocks of the two ends agree where the frame
/// carries the time, and let the reader's side not have seen the writer's IV
/// or salt. Then the
/// reader, fed the frame, has the framed bytes of `buf` as new plaintext and
/// nothing else, and is in step with the writer again.
pub proof fn lemma_frame_roundtrip(
    w: WriterModel,
    clock: u64,
    buf: Seq<u8>,
    r: ReaderModel,
    seen: Seq<Seq<u8>>,
    reader_clock: u64,
)
    requires
        w.wf(),
        in_step(w, r),
        w.assembles(buf),
        w.opens(clock, buf.take(w.chunk_len(buf.len()) as int)),
        clocks_agree(w, clock, reader_clock),
        !w.started && w.kind.spec_prefix_len() > 0 ==> !seen.contains(w.salt),
    ensures
        ({
            let after = w.assemble(clock, buf);
            let got = r.absorb(seen, reader_clock, after.queued);
            &&& got.0.rec.plain == r.rec.plain + buf.take(w.chunk_len(buf.len()) as int)
            &&& in_step(after, got.0)
            &&& got.1 == (if !w.started && w.kind.spec_prefix_len() > 0 {
                remembered(seen, w.salt)
            } else {
                seen
            })
        }),
{
    let chunk = buf.take(w.chunk_len(buf.len()) as int);
    let body = w.body(clock, chunk);
    let frame = w.frame(clock, chunk);
    let n = w.kind.spec_prefix_len() as int;
    // The reader once it has the IV or salt, and before it sees the body.
    let salted = ReaderModel { salt: Some(w.salt), ..r };
    let ch = w.channel();
    assert(salted.channel() == ch);
    let start = RecordState { pending: body, ..r.rec };
    if r.salt is Some {
        assert(r.salt == Some(w.salt));
        if w.started {
            assert(frame =~= body);
        } else {
            assert(w.salt =~= Seq::<u8>::empty());
            assert(frame =~= body);
        }
        assert(r.rec.pending + frame =~= body);
    } else {
        assert((r.rec.pending + frame).take(n) =~= w.salt);
        assert((r.rec.pending + frame).skip(n) =~= body);
    }
    lemma_body_roundtrip(w, clock, chunk, start, reader_clock);
}

/// The body of a frame, fed to a decoder that stands between frames at the
/// writer's counter, comes out as the chunk that went in.
pub proof fn lemma_body_roundtrip(w: WriterModel, clock: u64, chunk: Seq<u8>, start: RecordState, reader_clock: u64)
    requires
        w.wf(),
        w.refusal(chunk.len()) is None,
        0 < chunk.len(),
        !w.is_plain() ==> chunk.len() <= max_payload(w.kind),
        w.opens(clock, chunk),
        start.counter == w.counter,
        start.pending == w.body(clock, chunk),
        start.expect is None,
        start.failed is None,
        clocks_agree(w, clock, reader_clock),
    ensures
        ({
            let end = digest(w.channel(), reader_clock, start);
            &&& end.plain == start.plain + chunk
            &&& end.counter == w.next_counter(chunk.len())
            &&& end.pending.len() == 0
            &&& end.expect is None
            &&& end.failed is None
        }),
{
    let ch = w.channel();
    match w.kind.spec_category() {
        CipherCategory::Plain => {},
        CipherCategory::Stream => {
            lemma_masked_twice(ch, w.counter, chunk);
        },
        _ => {
            let header = w.header(clock, chunk.len());
            let h = header_len(w.kind, w.flow, w.counter) as int;
            let sealed_header = crate::crypto::sealed(ch.kind, ch.subkey, nonce_bytes(w.counter), header);
            let sealed_chunk = crate::crypto::sealed(ch.kind, ch.subkey, nonce_bytes(w.counter + 1), chunk);
            let preamble = if w.counter == 0 {
                w.first_preamble(clock)
            } else {
                Seq::empty()
            };
            lemma_be16_roundtrip(chunk.len() as u16);
            lemma_be64_roundtrip(clock);
            assert(preamble.len() + 2 == h);
            assert(header.take(h - 2) =~= preamble);
            assert(header.skip(h - 2) =~= be16(chunk.len() as u16));
            assert(start.pending =~= sealed_header + sealed_chunk);
            assert(start.pending.take(h + TAG_LEN) =~= sealed_header);
            assert(start.pending.skip(h + TAG_LEN) =~= sealed_chunk);
            if w.counter == 0 && w.kind.spec_category() == CipherCategory::Aead2022 {
                assert(preamble.skip(1).take(8) =~= be64(clock));
                assert(preamble_error(w.kind, w.flow, reader_clock, preamble) is None);
            }
            let s1 = step(ch, reader_clock, start)->0;
            assert(s1.pending =~= sealed_chunk);
            assert(s1.expect == Some(chunk.len()));
            assert(s1.pending.take(chunk.len() + TAG_LEN) =~= sealed_chunk);
            let s2 = step(ch, reader_clock, s1)->0;
            assert(s2.pending =~= Seq::<u8>::empty());
            assert(step(ch, reader_clock, s2) is None);
            assert(settle(ch, reader_clock, s2) == s2);
            assert(settle(ch, reader_clock, s1) == s2);
            assert(settle(ch, reader_clock, start) == s2);
        },
    }
}

/// The IV or salt goes out once, at the head of the first frame: a writer
/// that has not started puts it in front of the body, marks itself started,
/// and from then on its frames are bodies and nothing else. An encrypting
/// writer with a frame in its queue frames nothing new, so no frame is made
/// twice.
pub proof fn lemma_salt_goes_out_once(w: WriterModel, clock: u64, buf: Seq<u8>)
    requires
        w.wf(),
    ensures
        w.assembles(buf) ==> w.assemble(clock, buf).started,
        w.assembles(buf) && !w.started ==> w.assemble(clock, buf).queued.take(w.kind.spec_prefix_len() as int)
            == w.salt && w.assemble(clock, buf).queued.skip(w.kind.spec_prefix_len() as int) == w.body(
            clock,
            buf.take(w.chunk_len(buf.len()) as int),
        ),
        w.assembles(buf) && w.started ==> w.assemble(clock, buf).queued == w.body(
            clock,
            buf.take(w.chunk_len(buf.len()) as int),
        ),
        w.queued.len() > 0 && !w.is_plain() ==> w.assemble(clock, buf) == w,
        w.assemble(clock, buf).salt == w.salt,
{
    let chunk = buf.take(w.chunk_len(buf.len()) as int);
    let n = w.kind.spec_prefix_len() as int;
    if w.assembles(buf) {
        if w.started {
            assert(w.frame(clock, chunk) =~= w.body(clock, chunk));
        } else {
            assert(w.frame(clock, chunk).take(n) =~= w.salt);
            assert(w.frame(clock, chunk).skip(n) =~= w.body(clock, chunk));
        }
    }
}

/// Plaintext that a caller had no room for is handed out before anything
/// else happens: a reader asks for the socket to be read only when it has no
/// plaintext left, and reports an error or the end of the stream only then.
pub proof fn lemma_leftover_first(m: ReaderModel, closed: bool, capacity: nat)
    requires
        m.rec.plain.len() > 0,
        capacity > 0,
    ensures
        m.outcome(closed, capacity) == crate::model::Poll::<Seq<u8>>::Ready(
            Ok(m.rec.plain.take(m.yield_len(capacity) as int)),
        ),
        m.yield_len(capacity) > 0,
        m.rec.plain.take(m.yield_len(capacity) as int) + m.deliver(m.yield_len(capacity)).rec.plain == m.rec.plain,
{
    let k = m.yield_len(capacity) as int;
    assert(m.rec.plain.take(k) + m.rec.plain.skip(k) =~= m.rec.plain);
}

/// A writer stays well-formed when it frames, and when the socket takes what
/// is queued.
pub proof fn lemma_writer_wf(w: WriterModel, clock: u64, buf: Seq<u8>, n: nat)
    requires
        w.wf(),
    ensures
        w.assembles(buf) && w.opens(clock, buf.take(w.chunk_len(buf.len()) as int)) ==> w.assemble(clock, buf).wf(),
        n <= w.queued.len() ==> w.wrote(n).wf(),
{
}

/// A run of writes, each with the clock of the writer at its time.
pub struct Writes {
    pub clocks: Seq<u64>,
    pub bufs: Seq<Seq<u8>>,
}

impl Writes {
    /// Number of writes.
    pub open spec fn len(self) -> nat {
        self.bufs.len()
    }

    /// All writes but the last.
    pub open spec fn init(self) -> Writes {
        Writes { clocks: self.clocks.drop_last(), bufs: self.bufs.drop_last() }
    }

    /// The writer after the run, when it began as `w` and the socket took
    /// each frame in full before the next write.
    pub open spec fn writer(self, w: WriterModel) -> WriterModel
        decreases self.bufs.len(),
    {
        if self.bufs.len() == 0 {
            w
        } else {
            let framed = self.init().writer(w).assemble(self.clocks.last(), self.bufs.last());
            framed.wrote(framed.queued.len())
        }
    }

    /// All that the run put on the wire.
    pub open spec fn wire(self, w: WriterModel) -> Seq<u8>
        decreases self.bufs.len(),
    {
        if self.bufs.len() == 0 {
            Seq::empty()
        } else {
            self.init().wire(w) + self.init().writer(w).assemble(self.clocks.last(), self.bufs.last()).queued
        }
    }

    /// All the plaintext that the run framed.
    pub open spec fn plain(self, w: WriterModel) -> Seq<u8>
        decreases self.bufs.len(),
    {
        if self.bufs.len() == 0 {
            Seq::empty()
        } else {
            let before = self.init().writer(w);
            self.init().plain(w) + self.bufs.last().take(before.chunk_len(self.bufs.last().len()) as int)
        }
    }

    /// True where every write of the run made a frame, every record of it
    /// opens to what was sealed, and the clocks of the two ends agreed where
    /// a frame carries the time.
    pub open spec fn framed(self, w: WriterModel, reader_clock: u64) -> bool
        decreases self.bufs.len(),
    {
        if self.bufs.len() == 0 {
            true
        } else {
            let before = self.init().writer(w);
            let buf = self.bufs.last();
            &&& self.init().framed(w, reader_clock)
            &&& before.assembles(buf)
            &&& before.opens(self.clocks.last(), buf.take(before.chunk_len(buf.len()) as int))
            &&& clocks_agree(before, self.clocks.last(), reader_clock)
        }
    }
}

/// Encrypting and then decrypting gives the plaintext back, byte for byte.
/// Take a writer and a reader in step, and any run of writes. Let the wire
/// carry all that the run produced to the reader, whose side has not seen the
/// salt before. Then the reader has, as new plaintext, exactly what the
/// writes framed, in order, and is in step with the writer again. With
/// `lemma_chunking_is_irrelevant`, the same holds however the wire cuts the
/// bytes up.
pub proof fn lemma_pipe(w: WriterModel, writes: Writes, r: ReaderModel, seen: Seq<Seq<u8>>, reader_clock: u64)
    requires
        w.wf(),
        in_step(w, r),
        r.wf(),
        writes.len() > 0,
        writes.clocks.len() == writes.bufs.len(),
        writes.framed(w, reader_clock),
        !w.started && w.kind.spec_prefix_len() > 0 ==> !seen.contains(w.salt),
    ensures
        ({
            let got = r.absorb(seen, reader_clock, writes.wire(w));
            &&& got.0.rec.plain == r.rec.plain + writes.plain(w)
            &&& in_step(writes.writer(w), got.0)
            &&& got.0.wf()
            &&& writes.writer(w).wf()
            &&& writes.writer(w).started
        }),
    decreases writes.bufs.len(),
{
    let init = writes.init();
    let clock = writes.clocks.last();
    let buf = writes.bufs.last();
    let before = init.writer(w);
    let framed = before.assemble(clock, buf);
    let chunk = buf.take(before.chunk_len(buf.len()) as int);
    if init.len() == 0 {
        assert(before == w);
        assert(init.wire(w) =~= Seq::<u8>::empty());
        assert(init.plain(w) =~= Seq::<u8>::empty());
        assert(writes.wire(w) =~= framed.queued);
        assert(writes.plain(w) =~= chunk);
        lemma_frame_roundtrip(w, clock, buf, r, seen, reader_clock);
        lemma_writer_wf(w, clock, buf, 0);
        lemma_writer_wf(framed, clock, buf, framed.queued.len());
        lemma_absorb_wf(r, seen, reader_clock, writes.wire(w));
    } else {
        lemma_pipe(w, init, r, seen, reader_clock);
        let mid = r.absorb(seen, reader_clock, init.wire(w));
        lemma_absorb_append(r, seen, reader_clock, init.wire(w), framed.queued);
        lemma_frame_roundtrip(before, clock, buf, mid.0, mid.1, reader_clock);
        lemma_writer_wf(before, clock, buf, 0);
        lemma_writer_wf(framed, clock, buf, framed.queued.len());
        lemma_absorb_wf(mid.0, mid.1, reader_clock, framed.queued);
        assert(r.rec.plain + init.plain(w) + chunk =~= r.rec.plain + writes.plain(w));
    }
}

/// The address of the target goes first. The first poll of a client's
/// stream with plaintext frames the first plaintext, all of it in one frame,
/// and the first plaintext opens with the encoded address, directly followed,
/// for all ciphers but AEAD-2022, by the start of `buf`. So what the server
/// decrypts first is the address.
pub proof fn lemma_address_goes_first(m: ProxyWriteModel, clock: u64, buf: Seq<u8>, padding: Seq<u8>)
    requires
        m.state is Connect,
        m.state->Connect_0.wf(),
        m.writer.wf(),
        m.writer.queued.len() == 0,
        padding.len() <= MAX_PADDING,
        m.writer.refusal(first_packet(m.writer.kind, m.state->Connect_0, padding, buf).len()) is None,
    ensures
        ({
            let target = m.state->Connect_0;
            let first = first_packet(m.writer.kind, target, padding, buf);
            let carried = first_carried(m.writer.kind, target, padding, buf.len());
            &&& m.outcome(clock, buf, None, padding) == crate::model::Poll::<usize>::Pending
            &&& m.poll(clock, buf, None, padding).state == WriteStateModel::Connecting { first, carried }
            &&& m.poll(clock, buf, None, padding).writer.queued == m.writer.frame(clock, first)
            &&& first.take(target.wire().len() as int) == target.wire()
            &&& m.writer.kind.spec_category() != CipherCategory::Aead2022 ==> first == target.wire() + buf.take(
                carried as int,
            )
        }),
{
    let target = m.state->Connect_0;
    let first = first_packet(m.writer.kind, target, padding, buf);
    let head = first_head(m.writer.kind, target, padding);
    assert(head.len() <= 1161);
    assert(first.take(first.len() as int) =~= first);
    assert(first.take(target.wire().len() as int) =~= target.wire());
    if m.writer.kind.spec_category() != CipherCategory::Aead2022 {
        assert(head =~= target.wire());
    }
}

/// The round trip under every cut. Take a writer and a reader in step and
/// any run of writes, however the plaintext was cut into them. Let the wire
/// deliver what the run produced, cut into pieces at any points, down to one
/// byte at a time. Once all pieces have arrived, the reader has, as new
/// plaintext, exactly what the writes framed, byte for byte and in order,
/// and has not failed.
pub proof fn lemma_round_trip_under_every_cut(
    w: WriterModel,
    writes: Writes,
    r: ReaderModel,
    seen: Seq<Seq<u8>>,
    reader_clock: u64,
    pieces: Seq<Seq<u8>>,
)
    requires
        w.wf(),
        in_step(w, r),
        r.wf(),
        writes.len() > 0,
        writes.clocks.len() == writes.bufs.len(),
        writes.framed(w, reader_clock),
        !w.started && w.kind.spec_prefix_len() > 0 ==> !seen.contains(w.salt),
        pieces.len() > 0,
        joined(pieces) == writes.wire(w),
    ensures
        fed(r, seen, reader_clock, pieces).0.rec.plain == r.rec.plain + writes.plain(w),
        fed(r, seen, reader_clock, pieces).0.rec.failed is None,
        in_step(writes.writer(w), fed(r, seen, reader_clock, pieces).0),
{
    lemma_pipe(w, writes, r, seen, reader_clock);
    lemma_chunking_is_irrelevant(r, seen, reader_clock, pieces);
}

/// The address goes out once, in front of everything, and is not counted.
/// At the start a poll with plaintext offers the first plaintext, which opens
/// with the address, and counts only the bytes of `buf` in it. While the
/// first plaintext is on its way, what is offered is the first plaintext or
/// the rest of it, never `buf`, and the count stays that of the first poll.
/// Once it is gone, the stream never comes back to the start: every poll is a
/// poll of the encrypted stream with `buf` itself.
pub proof fn lemma_address_once(m: ProxyWriteModel, clock: u64, buf: Seq<u8>, written: Option<nat>, padding: Seq<u8>)
    ensures
        !(m.state is Connect) ==> !(m.poll(clock, buf, written, padding).state is Connect),
        m.state matches WriteStateModel::Connect(target) ==> written is None ==> m.offers(
            clock,
            buf,
            written,
            padding,
        ) == Some((m.writer, first_packet(m.writer.kind, target, padding, buf))) && first_packet(
            m.writer.kind,
            target,
            padding,
            buf,
        ).take(target.wire().len() as int) == target.wire(),
        m.state matches WriteStateModel::Connect(target) ==> (m.outcome(clock, buf, written, padding) matches Poll::Ready(
            Ok(n),
        ) ==> n == first_carried(m.writer.kind, target, padding, buf.len()) as usize),
        m.state matches WriteStateModel::Connecting { first, carried } ==> (m.offers(
            clock,
            buf,
            written,
            padding,
        ) matches Some(offered) ==> exists|k: int| 0 <= k <= first.len() && offered.1 == #[trigger] first.skip(k)),
        m.state matches WriteStateModel::Connecting { first, carried } ==> (m.outcome(
            clock,
            buf,
            written,
            padding,
        ) matches Poll::Ready(Ok(n)) ==> n == carried as usize),
        m.state is Connected ==> m.poll(clock, buf, written, padding) == (ProxyWriteModel {
            state: WriteStateModel::Connected,
            writer: m.writer.poll(clock, buf, written),
        }) && m.outcome(clock, buf, written, padding) == m.writer.poll_outcome(buf, written),
        m.state is Connected && written is None ==> m.offers(clock, buf, written, padding) == Some((m.writer, buf)),
{
    match m.state {
        WriteStateModel::Connect(target) => {
            let first = first_packet(m.writer.kind, target, padding, buf);
            assert(first.take(target.wire().len() as int) =~= target.wire());
        },
        WriteStateModel::Connecting { first, carried } => {
            match m.offers(clock, buf, written, padding) {
                Some(offered) => {
                    if written is None {
                        assert(offered.1 == first.skip(0)) by {
                            assert(first.skip(0) =~= first);
                        }
                    } else {
                        let n = written->0;
                        match m.writer.poll_outcome(first, written) {
                            Poll::Ready(Ok(k)) => {
                                assert(offered.1 == first.skip(k as int));
                            },
                            _ => {},
                        }
                    }
                },
                None => {},
            }
        },
        WriteStateModel::Connected => {},
    }
}

} // verus!
