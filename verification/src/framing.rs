//! Message framing over a raw byte stream.
//!
//! A frame is an encoded message followed by a fixed 3-byte delimiter, the
//! ASCII letters "END". The sender appends the delimiter; the receiver
//! accumulates chunks until the delimiter appears at the buffer's tail, then
//! strips exactly those three bytes. Binary payloads are raw and unescaped,
//! so a payload that itself contains the delimiter can be mis-framed; that is
//! a known limitation of the format.
use vstd::prelude::*;

verus! {

/// The end-of-message delimiter: the ASCII bytes of "END".
pub open spec fn spec_delimiter() -> Seq<u8> {
    seq![69u8, 78u8, 68u8]
}

/// Whether an accumulated buffer ends with the delimiter, which is the
/// receiver's sole criterion for a complete frame.
pub open spec fn spec_ends_with_delimiter(data: Seq<u8>) -> bool {
    data.len() >= 3 && data.skip(data.len() - 3) == spec_delimiter()
}

/// Append the end-of-message delimiter to an encoded message, making it one
/// complete frame.
pub fn frame_payload(payload: &mut Vec<u8>)
    ensures
        final(payload)@ == old(payload)@ + spec_delimiter(),
{
    payload.push(69);
    payload.push(78);
    payload.push(68);
    assert(payload@ =~= old(payload)@ + spec_delimiter());
}

/// Framing round trip: a framed payload always ends with the delimiter, and
/// stripping the three delimiter bytes gives the payload back.
pub proof fn lemma_frame_round_trip(payload: Seq<u8>)
    ensures
        spec_ends_with_delimiter(payload + spec_delimiter()),
        (payload + spec_delimiter()).take(payload.len() as int) == payload,
{
    let framed = payload + spec_delimiter();
    assert(framed.skip(framed.len() - 3) =~= spec_delimiter());
    assert(framed.take(payload.len() as int) =~= payload);
}

/// Accumulates stream chunks until one whole frame has arrived.
pub struct Receiver {
    data: Vec<u8>,
}

impl View for Receiver {
    type V = Seq<u8>;

    closed spec fn view(&self) -> Seq<u8> {
        self.data@
    }
}

impl Receiver {
    pub fn new() -> (r: Self)
        ensures
            r@ == Seq::<u8>::empty(),
    {
        Receiver { data: Vec::new() }
    }

    /// Whether nothing has been accumulated yet. A stream that closes while
    /// the buffer is still empty is a broken connection, not an empty frame.
    pub fn is_empty(&self) -> (e: bool)
        ensures
            e == (self@.len() == 0),
    {
        self.data.len() == 0
    }

    /// Append one chunk read from the stream. Returns whether the buffer now
    /// ends with the delimiter, that is, whether a whole frame has arrived.
    pub fn push_chunk(&mut self, chunk: &[u8]) -> (complete: bool)
        ensures
            final(self)@ == old(self)@ + chunk@,
            complete == spec_ends_with_delimiter(final(self)@),
    {
        self.data.extend_from_slice(chunk);
        let n = self.data.len();
        if n < 3 {
            return false;
        }
        let complete = self.data[n - 3] == 69 && self.data[n - 2] == 78 && self.data[n - 1]
            == 68;
        proof {
            let tail = self.data@.skip(n - 3);
            assert(tail.len() == 3);
            assert(tail[0] == self.data@[n - 3]);
            assert(tail[1] == self.data@[n - 2]);
            assert(tail[2] == self.data@[n - 1]);
            if complete {
                assert(tail =~= spec_delimiter());
            }
        }
        complete
    }

    /// Strip the delimiter from a complete frame and hand back the message
    /// bytes.
    pub fn into_payload(self) -> (p: Vec<u8>)
        requires
            spec_ends_with_delimiter(self@),
        ensures
            p@ == self@.take(self@.len() - 3),
    {
        let mut data = self.data;
        let n = data.len();
        data.truncate(n - 3);
        data
    }
}

} // verus!
