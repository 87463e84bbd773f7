//! Decodes a recording of mSBC frames.

use vstd::prelude::*;
use crate::kernel::msbc;
use crate::kernel::msbc::synthesis::SynthesisState;
use crate::kernel::msbc::{MsbcDecoder, MSBC_FRAME_SIZE, MSBC_SYNC_WORD};

verus! {

/// The samples of a recording from `offset` on: a byte that is no sync word is skipped, a sync
/// word starts a frame of 57 bytes, and an incomplete frame at the end is left out.
pub open spec fn recorded_samples(s: SynthesisState, data: Seq<u8>, offset: int) -> Seq<i16>
    decreases data.len() - offset,
{
    if offset + MSBC_FRAME_SIZE > data.len() {
        Seq::empty()
    } else if data[offset] != MSBC_SYNC_WORD {
        recorded_samples(s, data, offset + 1)
    } else {
        let (next, samples) = msbc::decoded_blocks(
            s,
            data.subrange(offset, offset + MSBC_FRAME_SIZE),
            15,
        );
        samples + recorded_samples(next, data, offset + MSBC_FRAME_SIZE)
    }
}

/// Decodes all frames of a recording, 16 kHz mono.
pub fn decode_msbc_to_pcm(data: &[u8]) -> (r: Vec<i16>)
    ensures
        r@ == recorded_samples(msbc::initial_state(), data@, 0),
{
    let mut decoder = MsbcDecoder::new();
    let mut all: Vec<i16> = Vec::new();
    let mut offset: usize = 0;
    let len: usize = data.len();
    assert(all@ + recorded_samples(decoder@, data@, 0) =~= recorded_samples(
        msbc::initial_state(),
        data@,
        0,
    ));
    while offset <= len && MSBC_FRAME_SIZE <= len - offset
        invariant
            len == data@.len(),
            offset <= len,
            decoder.inv(),
            all@ + recorded_samples(decoder@, data@, offset as int) == recorded_samples(
                msbc::initial_state(),
                data@,
                0,
            ),
        decreases len - offset,
    {
        if data[offset] != MSBC_SYNC_WORD {
            offset = offset + 1;
        } else {
            let ghost before = all@;
            let ghost tail = recorded_samples(decoder@, data@, offset as int);
            match decoder.decode_frame(&data[offset..offset + MSBC_FRAME_SIZE]) {
                Ok(mut samples) => {
                    let ghost added = samples@;
                    all.append(&mut samples);
                    proof {
                        let rest = recorded_samples(decoder@, data@, offset + MSBC_FRAME_SIZE);
                        assert(tail == added + rest);
                        assert(all@ + rest =~= before + tail);
                    }
                },
                Err(_) => {},
            }
            offset = offset + MSBC_FRAME_SIZE;
        }
    }
    assert(all@ =~= all@ + recorded_samples(decoder@, data@, offset as int));
    all
}

proof fn lemma_behind_a_prefix(s: SynthesisState, front: Seq<u8>, data: Seq<u8>, offset: int)
    requires
        0 <= offset,
    ensures
        recorded_samples(s, front + data, front.len() + offset) == recorded_samples(s, data, offset),
    decreases data.len() - offset,
{
    let all = front + data;
    let at = front.len() + offset;
    if offset + 57 <= data.len() {
        assert(all[at] == data[offset]);
        if data[offset] != MSBC_SYNC_WORD {
            lemma_behind_a_prefix(s, front, data, offset + 1);
        } else {
            assert(all.subrange(at, at + 57) =~= data.subrange(offset, offset + 57));
            let next = msbc::decoded_blocks(s, data.subrange(offset, offset + 57), 15).0;
            lemma_behind_a_prefix(next, front, data, offset + 57);
        }
    }
}

/// A recording is its frames, one after another, in one decoder: a frame in front gives its
/// samples and then those of the rest, a byte in front that starts no frame is passed over as long
/// as a whole frame can follow, and less than a frame gives nothing.
pub proof fn law_a_recording_is_its_frames_in_turn(
    s: SynthesisState,
    frame: Seq<u8>,
    stray: u8,
    rest: Seq<u8>,
)
    requires
        frame.len() == 57,
        frame[0] == 0xAD,
        stray != 0xAD,
    ensures
        ({
            let decoded = msbc::decoded_blocks(s, frame, 15);
            &&& recorded_samples(s, frame + rest, 0) == decoded.1 + recorded_samples(
                decoded.0,
                rest,
                0,
            )
            &&& recorded_samples(s, seq![stray] + rest, 0) == recorded_samples(s, rest, 0)
            &&& rest.len() < 57 ==> recorded_samples(s, rest, 0).len() == 0
        }),
{
    let decoded = msbc::decoded_blocks(s, frame, 15);
    assert((frame + rest).subrange(0, 57) =~= frame);
    lemma_behind_a_prefix(decoded.0, frame, rest, 0);
    lemma_behind_a_prefix(s, seq![stray], rest, 0);
}

} // verus!
