//! A writer and a reader of the same process joined without a socket.

use crate::buf::copy;
use crate::context::Context;
use crate::crypto_io::{DecryptedReader, EncryptedWriter};
use crate::error::Error;
use crate::laws::{clocks_agree, in_step, lemma_frame_roundtrip};
use crate::model::Poll;
use vstd::prelude::*;

verus! {

/// Carries the start of `buf` from `writer` to `reader`: the writer frames
/// it, and the reader takes the frame in as if a socket had delivered it.
/// Returns the number of bytes carried. Afterwards the reader holds these
/// bytes, unchanged, behind the plaintext that it held before, and the two
/// ends are in step again. A writer that refuses to frame leaves both ends
/// as they are.
pub fn transfer(
    writer: &mut EncryptedWriter,
    reader: &mut DecryptedReader,
    context: &Context,
    peer: &mut Context,
    buf: &[u8],
) -> (carried: Result<usize, Error>)
    requires
        old(writer).wf(),
        old(reader).wf(),
        in_step(old(writer)@, old(reader)@),
        old(writer)@.queued.len() == 0,
        clocks_agree(old(writer)@, context.spec_now(), old(peer).spec_now()),
        !old(writer)@.started && old(writer)@.kind.spec_prefix_len() > 0 ==> !old(peer).seen().contains(
            old(writer)@.salt,
        ),
    ensures
        final(writer).wf(),
        final(reader).wf(),
        final(peer).spec_now() == old(peer).spec_now(),
        final(writer)@.queued.len() == 0,
        carried == (if buf@.len() > 0 && !old(writer)@.assembles(buf@) {
            Err::<usize, Error>(old(writer)@.refusal(old(writer)@.chunk_len(buf@.len()))->0)
        } else {
            Ok::<usize, Error>(old(writer)@.chunk_len(buf@.len()) as usize)
        }),
        carried is Err ==> final(writer)@ == old(writer)@ && final(reader)@ == old(reader)@ && final(peer).seen()
            == old(peer).seen(),
        carried matches Ok(n) ==> final(reader)@.rec.plain == old(reader)@.rec.plain + buf@.take(n as int)
            && in_step(final(writer)@, final(reader)@),
{
    proof {
        writer.lemma_wf();
    }
    match writer.poll_write_encrypted(context, buf, None) {
        Poll::Ready(r) => {
            proof {
                if r is Ok {
                    assert(buf@.take(0) =~= Seq::<u8>::empty());
                    assert(reader@.rec.plain + Seq::<u8>::empty() =~= reader@.rec.plain);
                }
            }
            r
        },
        Poll::Pending => {
            let frame = copy(writer.pending());
            proof {
                lemma_frame_roundtrip(
                    old(writer)@,
                    context.spec_now(),
                    buf@,
                    old(reader)@,
                    old(peer).seen(),
                    old(peer).spec_now(),
                );
            }
            reader.receive(peer, frame.as_slice());
            match writer.poll_write_encrypted(context, buf, Some(frame.len())) {
                Poll::Ready(r) => r,
                Poll::Pending => Ok(0),
            }
        },
    }
}

} // verus!
