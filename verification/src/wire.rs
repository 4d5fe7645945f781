//! The serialization model of the shared connection. All ordinary
//! command callers go through one shared connection behind a
//! mutual-exclusion lock; while a caller holds the lock, its whole
//! request frame is written in one piece. This module models the byte
//! stream the daemon observes and shows that, frames being appended
//! whole, two callers' bytes can never interleave.

use vstd::prelude::*;
use vstd::string::*;

verus! {

/// The stream the daemon observes: the frames, flattened in the order
/// the lock was granted.
pub open spec fn stream_of(frames: Seq<Seq<u8>>) -> Seq<u8>
    decreases frames.len(),
{
    if frames.len() == 0 {
        Seq::empty()
    } else {
        stream_of(frames.drop_last()) + frames.last()
    }
}

/// The wire frame of one command: its bytes followed by the newline
/// that terminates a request line.
pub fn request_frame(command: &str) -> (r: Vec<u8>)
    ensures
        r@ == command.spec_bytes() + seq![10u8],
{
    let mut r = command.as_bytes_vec();
    r.push(10u8);
    proof {
        assert(r@ =~= command.spec_bytes() + seq![10u8]);
    }
    r
}

/// The characters of one request line: the command followed by the
/// newline that terminates it.
pub open spec fn request_line(command: Seq<char>) -> Seq<char> {
    command + seq!['\n']
}

/// The daemon recovers a request by cutting its line at the first
/// newline: for a command that holds no newline of its own, that cut
/// yields the command exactly.
pub proof fn lemma_request_line_round_trip(command: Seq<char>)
    requires
        forall|i: int| 0 <= i < command.len() ==> command[i] != '\n',
    ensures
        request_line(command).len() == command.len() + 1,
        request_line(command).take(command.len() as int) == command,
        request_line(command).last() == '\n',
        forall|i: int|
            0 <= i < command.len() ==> #[trigger] request_line(command)[i] != '\n',
{
    assert(request_line(command).take(command.len() as int) =~= command);
}

/// The byte stream one connection has carried.
pub struct WireLog {
    bytes: Vec<u8>,
}

impl View for WireLog {
    type V = Seq<u8>;

    closed spec fn view(&self) -> Seq<u8> {
        self.bytes@
    }
}

impl WireLog {
    /// A stream over which nothing has been sent.
    pub fn new() -> (r: Self)
        ensures
            r@ == Seq::<u8>::empty(),
    {
        let r = WireLog { bytes: Vec::new() };
        proof {
            assert(r.bytes@ =~= Seq::<u8>::empty());
        }
        r
    }

    /// Sends one frame whole: the lock is held for the frame's entire
    /// write, so its bytes land contiguously.
    pub fn send_frame(&mut self, frame: &Vec<u8>)
        ensures
            final(self)@ == old(self)@ + frame@,
    {
        let mut i: usize = 0;
        while i < frame.len()
            invariant
                i <= frame@.len(),
                self@ == old(self)@ + frame@.take(i as int),
            decreases frame@.len() - i,
        {
            self.bytes.push(frame[i]);
            proof {
                assert(frame@.take(i + 1).drop_last() =~= frame@.take(i as int));
                assert(frame@.take(i + 1).last() == frame@[i as int]);
                assert(self@ =~= old(self)@ + frame@.take(i + 1));
            }
            i = i + 1;
        }
        proof {
            assert(frame@.take(frame@.len() as int) =~= frame@);
        }
    }

    /// Sends a series of frames, each whole, in lock-grant order.
    pub fn send_frames(&mut self, frames: &Vec<Vec<u8>>)
        ensures
            final(self)@ == old(self)@ + stream_of(frames@.map_values(|f: Vec<u8>| f@)),
    {
        let ghost all = frames@.map_values(|f: Vec<u8>| f@);
        proof {
            assert(self@ =~= old(self)@ + stream_of(all.take(0)));
        }
        let mut i: usize = 0;
        while i < frames.len()
            invariant
                i <= frames.len(),
                all == frames@.map_values(|f: Vec<u8>| f@),
                self@ == old(self)@ + stream_of(all.take(i as int)),
            decreases frames.len() - i,
        {
            self.send_frame(&frames[i]);
            proof {
                assert(all.take(i + 1).drop_last() =~= all.take(i as int));
                assert(all.take(i + 1).last() == all[i as int]);
                assert(all[i as int] == frames@[i as int]@);
                assert(self@ =~= old(self)@ + stream_of(all.take(i + 1)));
            }
            i = i + 1;
        }
        proof {
            assert(all.take(frames.len() as int) =~= all);
        }
    }

    /// Everything sent so far.
    pub fn bytes(&self) -> (r: &Vec<u8>)
        ensures
            r@ == self@,
    {
        &self.bytes
    }
}

/// Two callers' frames, sent under the lock in either grant order,
/// reach the daemon as one frame in full followed by the other in
/// full — never interleaved.
pub proof fn lemma_two_frames_never_interleave(a: Seq<u8>, b: Seq<u8>, a_first: bool)
    ensures
        stream_of(if a_first {
            seq![a, b]
        } else {
            seq![b, a]
        }) == if a_first {
            a + b
        } else {
            b + a
        },
{
    assert(stream_of(Seq::<Seq<u8>>::empty()) == Seq::<u8>::empty());
    if a_first {
        assert(seq![a, b].drop_last() =~= seq![a]);
        assert(seq![a].drop_last() =~= Seq::<Seq<u8>>::empty());
        assert(stream_of(seq![a]) =~= a);
    } else {
        assert(seq![b, a].drop_last() =~= seq![b]);
        assert(seq![b].drop_last() =~= Seq::<Seq<u8>>::empty());
        assert(stream_of(seq![b]) =~= b);
    }
}

} // verus!
