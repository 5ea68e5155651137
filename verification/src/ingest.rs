//! The rule that ends a connection: the escape byte, or the end of the
//! stream.

use vstd::prelude::*;

verus! {

/// The byte that ends a connection.
pub const ESCAPE: u8 = 27;

/// What to do with one chunk of bytes read from a connection.
#[derive(Clone, Copy, Debug, PartialEq, Eq)]
pub struct ChunkPlan {
    /// Number of bytes, from the start of the chunk, to hand to the decoder.
    pub feed: usize,
    /// Whether the connection ends with this chunk.
    pub close: bool,
}

/// The first `n` bytes are all that comes before the first escape byte, or
/// the whole of `bytes` where it holds none.
pub open spec fn before_escape(bytes: Seq<u8>, n: int) -> bool {
    &&& 0 <= n <= bytes.len()
    &&& forall|k: int| 0 <= k < n ==> bytes[k] != ESCAPE
    &&& n < bytes.len() ==> bytes[n] == ESCAPE
}

/// Only one prefix of a chunk ends right before its first escape byte.
pub proof fn lemma_before_escape_unique(bytes: Seq<u8>, n: int, m: int)
    requires
        before_escape(bytes, n),
        before_escape(bytes, m),
    ensures
        n == m,
{
    if n < m {
        assert(bytes[n] != ESCAPE);
    }
    if m < n {
        assert(bytes[m] != ESCAPE);
    }
}

/// Plans one chunk read from a connection. The bytes before the first
/// escape byte go to the decoder, and what follows it in the chunk is
/// dropped. The connection ends where the chunk holds an escape byte, and
/// where the chunk is empty, which is the end of the stream.
pub fn plan_chunk(bytes: &[u8]) -> (r: ChunkPlan)
    ensures
        before_escape(bytes@, r.feed as int),
        r.close <==> bytes@.len() == 0 || bytes@.contains(ESCAPE),
{
    let mut feed: usize = 0;
    while feed < bytes.len() && bytes[feed] != ESCAPE
        invariant
            feed <= bytes@.len(),
            forall|k: int| 0 <= k < feed ==> bytes@[k] != ESCAPE,
        decreases bytes@.len() - feed,
    {
        feed = feed + 1;
    }
    let close: bool = feed < bytes.len() || bytes.len() == 0;
    proof {
        if feed < bytes@.len() {
            assert(bytes@[feed as int] == ESCAPE);
        }
    }
    ChunkPlan { feed, close }
}

/// Plans what one read from a connection gave: the chunk that was read, or
/// nothing where the read failed. A failed read ends the connection and
/// feeds nothing; a chunk is planned as [`plan_chunk`] does.
pub fn plan_read(read: Option<&[u8]>) -> (r: ChunkPlan)
    ensures
        match read {
            Some(bytes) => before_escape(bytes@, r.feed as int) && (r.close <==> bytes@.len() == 0
                || bytes@.contains(ESCAPE)),
            None => r == (ChunkPlan { feed: 0, close: true }),
        },
{
    match read {
        Some(bytes) => plan_chunk(bytes),
        None => ChunkPlan { feed: 0, close: true },
    }
}

} // verus!
