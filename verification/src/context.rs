//! What the connections of one process share: the salts seen of late, kept
//! to refuse replays, and the time of day.

use crate::buf::{copy, equal, extend};
use crate::crypto::CipherKind;
use crate::encoding::{le_bytes, lemma_le_bytes_len, lemma_le_roundtrip, lemma_u64_fits, put_le};
use crate::primitives::random_iv_or_salt;
use vstd::prelude::*;
use vstd::set_lib::lemma_len_subset;

verus! {

/// The `i`-th replacement for a candidate salt that was already seen: the
/// candidate with its first eight bytes replaced by `i`, little-endian.
pub open spec fn replacement(candidate: Seq<u8>, i: nat) -> Seq<u8> {
    le_bytes(i, 8) + candidate.skip(8)
}

/// Different numbers give different replacements.
pub proof fn lemma_replacements_differ(candidate: Seq<u8>, i: u64, j: u64)
    requires
        i != j,
    ensures
        replacement(candidate, i as nat) != replacement(candidate, j as nat),
{
    let a = replacement(candidate, i as nat);
    let b = replacement(candidate, j as nat);
    lemma_le_bytes_len(i as nat, 8);
    lemma_le_bytes_len(j as nat, 8);
    lemma_u64_fits(i, 8);
    lemma_u64_fits(j, 8);
    lemma_le_roundtrip(i as nat, 8);
    lemma_le_roundtrip(j as nat, 8);
    assert(a.take(8) =~= le_bytes(i as nat, 8));
    assert(b.take(8) =~= le_bytes(j as nat, 8));
}

/// Number of salts and IVs that a context remembers.
pub const REPLAY_WINDOW: usize = 0x4000;

/// The salts remembered after `salt` was recorded. One that is remembered
/// already changes nothing. Otherwise it becomes the newest, and where the
/// window is full, the oldest is forgotten for it.
pub open spec fn remembered(seen: Seq<Seq<u8>>, salt: Seq<u8>) -> Seq<Seq<u8>> {
    if seen.contains(salt) {
        seen
    } else if seen.len() >= REPLAY_WINDOW {
        seen.skip(1).push(salt)
    } else {
        seen.push(salt)
    }
}

/// The salts remembered never outgrow the window.
pub proof fn lemma_window_is_bounded(seen: Seq<Seq<u8>>, salt: Seq<u8>)
    requires
        seen.len() <= REPLAY_WINDOW,
    ensures
        remembered(seen, salt).len() <= REPLAY_WINDOW,
        remembered(seen, salt).contains(salt),
        Seq::<Seq<u8>>::empty().len() <= REPLAY_WINDOW,
{
    let after = remembered(seen, salt);
    if !seen.contains(salt) {
        assert(after[after.len() - 1] == salt);
    }
}

/// State shared by all connections.
pub struct Context {
    seen: Vec<Vec<u8>>,
    clock: u64,
}

impl Context {
    /// The salts and IVs remembered, oldest first: the last `REPLAY_WINDOW`
    /// that were recorded.
    pub closed spec fn seen(&self) -> Seq<Seq<u8>> {
        self.seen@.map_values(|v: Vec<u8>| v@)
    }

    /// The time of day, in seconds since the epoch, as last set.
    pub closed spec fn spec_now(&self) -> u64 {
        self.clock
    }

    /// A context that has seen nothing, at time zero.
    pub fn new() -> (ctx: Context)
        ensures
            ctx.seen() == Seq::<Seq<u8>>::empty(),
            ctx.spec_now() == 0,
    {
        let ctx = Context { seen: Vec::new(), clock: 0 };
        assert(ctx.seen() =~= Seq::<Seq<u8>>::empty());
        ctx
    }

    /// Sets the time of day.
    pub fn set_now(&mut self, now: u64)
        ensures
            final(self).spec_now() == now,
            final(self).seen() == old(self).seen(),
    {
        self.clock = now;
    }

    #[verifier::when_used_as_spec(spec_now)]
    pub fn now(&self) -> (t: u64)
        ensures
            t == self.spec_now(),
    {
        self.clock
    }

    /// Whether `nonce` is remembered.
    pub fn check_nonce_replay(&self, nonce: &[u8]) -> (replayed: bool)
        ensures
            replayed == self.seen().contains(nonce@),
    {
        let ghost views = self.seen();
        let mut i: usize = 0;
        while i < self.seen.len()
            invariant
                i <= self.seen@.len(),
                views == self.seen(),
                views.len() == self.seen@.len(),
                forall|j: int| 0 <= j < i ==> views[j] != nonce@,
            decreases self.seen.len() - i,
        {
            if equal(self.seen[i].as_slice(), nonce) {
                assert(views[i as int] == nonce@);
                assert(views.contains(nonce@));
                return true;
            }
            i = i + 1;
        }
        assert(!views.contains(nonce@));
        false
    }

    /// Records `nonce` and says whether it was remembered before.
    pub fn check_nonce_and_set(&mut self, nonce: &[u8]) -> (replayed: bool)
        ensures
            replayed == old(self).seen().contains(nonce@),
            final(self).seen() == remembered(old(self).seen(), nonce@),
            final(self).spec_now() == old(self).spec_now(),
    {
        let replayed = self.check_nonce_replay(nonce);
        if !replayed {
            let ghost views = self.seen();
            if self.seen.len() >= REPLAY_WINDOW {
                let _ = self.seen.remove(0);
                assert(self.seen() =~= views.skip(1));
            }
            let ghost kept = self.seen();
            self.seen.push(copy(nonce));
            assert(self.seen() =~= kept.push(nonce@));
        }
        replayed
    }

    /// Turns a candidate into a salt that this context does not remember,
    /// and records it. A candidate that is not remembered is kept. One that
    /// is remembered is replaced by the first of its replacements that is
    /// not.
    pub fn fresh_nonce(&mut self, candidate: Vec<u8>) -> (nonce: Vec<u8>)
        requires
            candidate@.len() >= 8,
        ensures
            nonce@.len() == candidate@.len(),
            !old(self).seen().contains(nonce@),
            final(self).seen() == remembered(old(self).seen(), nonce@),
            final(self).spec_now() == old(self).spec_now(),
            !old(self).seen().contains(candidate@) ==> nonce@ == candidate@,
            old(self).seen().contains(candidate@) ==> exists|i: nat|
                nonce@ == replacement(candidate@, i) && forall|j: nat|
                    j < i ==> old(self).seen().contains(#[trigger] replacement(candidate@, j)),
    {
        if !self.check_nonce_and_set(candidate.as_slice()) {
            return candidate;
        }
        let ghost window = self.seen();
        let ghost before = window.to_set();
        let ghost mut tried: Set<Seq<u8>> = Set::empty();
        let n: usize = self.seen.len();
        proof {
            window.lemma_cardinality_of_set();
        }
        let mut i: u64 = 0;
        loop
            invariant
                candidate@.len() >= 8,
                self.seen() == window,
                self.spec_now() == old(self).spec_now(),
                window == old(self).seen(),
                before == window.to_set(),
                window.contains(candidate@),
                before.finite(),
                before.len() <= n,
                i <= n,
                tried.finite(),
                tried.len() == i,
                tried.subset_of(before),
                forall|s: Seq<u8>| tried.contains(s) ==> exists|j: u64| j < i && s == replacement(candidate@, j as nat),
                forall|j: nat| j < i ==> window.contains(#[trigger] replacement(candidate@, j)),
            decreases n - i,
        {
            let mut next = put_le(i, 8);
            extend(&mut next, vstd::slice::slice_subrange(candidate.as_slice(), 8, candidate.len()));
            proof {
                lemma_le_bytes_len(i as nat, 8);
                assert(next@ =~= replacement(candidate@, i as nat));
            }
            if !self.check_nonce_and_set(next.as_slice()) {
                return next;
            }
            proof {
                assert(before.contains(next@));
                assert(!tried.contains(next@)) by {
                    if tried.contains(next@) {
                        let j = choose|j: u64| j < i && next@ == replacement(candidate@, j as nat);
                        lemma_replacements_differ(candidate@, i, j);
                    }
                }
                let grown = tried.insert(next@);
                assert(grown.subset_of(before));
                lemma_len_subset(grown, before);
                tried = grown;
                assert forall|j: nat| j < i + 1 implies window.contains(#[trigger] replacement(candidate@, j)) by {
                    if j == i {
                        assert(replacement(candidate@, j) == next@);
                    }
                }
            }
            i = i + 1;
        }
    }

    /// Generates the IV or salt for a new connection that uses `kind`. With
    /// `unique`, the result is one that this context has not seen, and it is
    /// recorded.
    pub fn generate_nonce(&mut self, kind: CipherKind, unique: bool) -> (nonce: Vec<u8>)
        ensures
            nonce@.len() == kind.spec_prefix_len(),
            final(self).spec_now() == old(self).spec_now(),
            unique && nonce@.len() > 0 ==> !old(self).seen().contains(nonce@) && final(self).seen() == remembered(
                old(self).seen(),
                nonce@,
            ),
            !(unique && nonce@.len() > 0) ==> final(self).seen() == old(self).seen(),
    {
        let candidate = random_iv_or_salt(kind.prefix_len());
        if unique && candidate.len() >= 8 {
            self.fresh_nonce(candidate)
        } else {
            candidate
        }
    }
}

} // verus!
