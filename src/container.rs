//! The container as a whole: `[nonce][frame]*`, where the host reads the
//! source in pieces of the stream's read size. Encryption cuts the plaintext
//! into chunks of `CHUNK_SIZE`; decryption cuts the body after the nonce into
//! pieces of `CHUNK_SIZE + 48`, which are exactly the frames encryption wrote.

use vstd::prelude::*;

use crate::codec::{is_sealed_frame, open_chunk_result, CodecError, FRAME_OVERHEAD, MAX_SEAL_LEN};
use crate::stream::CHUNK_SIZE;

verus! {

/// `s` cut into consecutive pieces of `n` bytes, the last one possibly
/// shorter; nothing for an empty `s`. This is how a host that fills its
/// buffer on each read sees a source.
pub open spec fn split_every(s: Seq<u8>, n: nat) -> Seq<Seq<u8>>
    decreases s.len(),
{
    if s.len() == 0 || n == 0 {
        Seq::empty()
    } else if s.len() <= n {
        seq![s]
    } else {
        seq![s.take(n as int)] + split_every(s.skip(n as int), n)
    }
}

/// The pieces, one after the other.
pub open spec fn concat_all(parts: Seq<Seq<u8>>) -> Seq<u8>
    decreases parts.len(),
{
    if parts.len() == 0 {
        Seq::empty()
    } else {
        parts[0] + concat_all(parts.drop_first())
    }
}

/// Pieces as `split_every` makes them for `n`: none empty, none longer than
/// `n`, all but the last exactly `n`.
pub open spec fn full_pieces(parts: Seq<Seq<u8>>, n: nat) -> bool {
    &&& forall|i: int| 0 <= i < parts.len() ==> 1 <= #[trigger] parts[i].len() <= n
    &&& forall|i: int| 0 <= i < parts.len() - 1 ==> #[trigger] parts[i].len() == n
}

proof fn lemma_split_every(s: Seq<u8>, n: nat)
    requires
        n > 0,
    ensures
        concat_all(split_every(s, n)) == s,
        full_pieces(split_every(s, n), n),
    decreases s.len(),
{
    let parts = split_every(s, n);
    if s.len() == 0 {
    } else if s.len() <= n {
        assert(parts.drop_first() =~= Seq::<Seq<u8>>::empty());
        assert(concat_all(parts.drop_first()) =~= Seq::<u8>::empty());
        assert(concat_all(parts) =~= s);
    } else {
        let rest = split_every(s.skip(n as int), n);
        lemma_split_every(s.skip(n as int), n);
        assert(parts.drop_first() =~= rest);
        assert(concat_all(parts) =~= s.take(n as int) + s.skip(n as int));
        assert(s.take(n as int) + s.skip(n as int) =~= s);
        assert forall|i: int| 0 <= i < parts.len() implies 1 <= #[trigger] parts[i].len() <= n by {
            if i > 0 {
                assert(parts[i] == rest[i - 1]);
            }
        }
        assert forall|i: int| 0 <= i < parts.len() - 1 implies #[trigger] parts[i].len() == n by {
            if i > 0 {
                assert(parts[i] == rest[i - 1]);
            }
        }
    }
}

proof fn lemma_split_concat(parts: Seq<Seq<u8>>, n: nat)
    requires
        n > 0,
        full_pieces(parts, n),
    ensures
        split_every(concat_all(parts), n) == parts,
    decreases parts.len(),
{
    if parts.len() == 0 {
        assert(split_every(concat_all(parts), n) =~= parts);
    } else {
        let rest = parts.drop_first();
        let whole = concat_all(parts);
        assert(1 <= parts[0].len() <= n);
        assert(full_pieces(rest, n)) by {
            assert forall|i: int| 0 <= i < rest.len() implies 1 <= #[trigger] rest[i].len() <= n by {
                assert(rest[i] == parts[i + 1]);
            }
            assert forall|i: int| 0 <= i < rest.len() - 1 implies #[trigger] rest[i].len() == n by {
                assert(rest[i] == parts[i + 1]);
            }
        }
        lemma_split_concat(rest, n);
        if parts.len() == 1 {
            assert(rest =~= Seq::<Seq<u8>>::empty());
            assert(whole =~= parts[0]);
            assert(split_every(whole, n) =~= parts);
        } else {
            assert(parts[0].len() == n);
            assert(rest[0] == parts[1]);
            assert(concat_all(rest).len() >= 1) by {
                assert(concat_all(rest) == rest[0] + concat_all(rest.drop_first()));
            }
            assert(whole.take(n as int) =~= parts[0]);
            assert(whole.skip(n as int) =~= concat_all(rest));
            assert(split_every(whole, n) =~= parts);
        }
    }
}

/// Round trip of a whole file: cut a plaintext into chunks and seal each into
/// a frame under one key and nonce; the body those frames make, cut into
/// frame-sized reads, gives back exactly those frames, opening each gives
/// back its chunk, and the chunks together are the plaintext.
pub proof fn lemma_container_round_trip(
    key: Seq<u8>,
    nonce: Seq<u8>,
    plaintext: Seq<u8>,
    frames: Seq<Seq<u8>>,
    opened: Seq<Result<Seq<u8>, CodecError>>,
)
    requires
        frames.len() == split_every(plaintext, CHUNK_SIZE as nat).len(),
        forall|i: int|
            0 <= i < frames.len() ==> is_sealed_frame(
                key,
                nonce,
                #[trigger] split_every(plaintext, CHUNK_SIZE as nat)[i],
                frames[i],
            ),
        opened.len() == split_every(concat_all(frames), (CHUNK_SIZE + FRAME_OVERHEAD) as nat).len(),
        forall|i: int|
            0 <= i < opened.len() ==> open_chunk_result(
                key,
                nonce,
                split_every(concat_all(frames), (CHUNK_SIZE + FRAME_OVERHEAD) as nat)[i],
                #[trigger] opened[i],
            ),
    ensures
        split_every(concat_all(frames), (CHUNK_SIZE + FRAME_OVERHEAD) as nat) == frames,
        opened.len() == frames.len(),
        forall|i: int|
            0 <= i < opened.len() ==> #[trigger] opened[i] == Ok::<Seq<u8>, CodecError>(
                split_every(plaintext, CHUNK_SIZE as nat)[i],
            ),
        concat_all(split_every(plaintext, CHUNK_SIZE as nat)) == plaintext,
{
    let chunks = split_every(plaintext, CHUNK_SIZE as nat);
    let f: nat = (CHUNK_SIZE + FRAME_OVERHEAD) as nat;
    lemma_split_every(plaintext, CHUNK_SIZE as nat);
    assert(full_pieces(frames, f)) by {
        assert forall|i: int| 0 <= i < frames.len() implies 1 <= #[trigger] frames[i].len() <= f by {
            assert(is_sealed_frame(key, nonce, chunks[i], frames[i]));
            assert(1 <= chunks[i].len() <= CHUNK_SIZE);
        }
        assert forall|i: int| 0 <= i < frames.len() - 1 implies #[trigger] frames[i].len() == f by {
            assert(is_sealed_frame(key, nonce, chunks[i], frames[i]));
            assert(chunks[i].len() == CHUNK_SIZE);
        }
    }
    lemma_split_concat(frames, f);
    assert forall|i: int| 0 <= i < opened.len() implies #[trigger] opened[i] == Ok::<Seq<u8>, CodecError>(chunks[i]) by {
        assert(is_sealed_frame(key, nonce, chunks[i], frames[i]));
        assert(chunks[i].len() <= MAX_SEAL_LEN);
        assert(open_chunk_result(key, nonce, frames[i], opened[i]));
    }
}

} // verus!
