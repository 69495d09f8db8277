//! The textures between the capture and the encoder on Windows.

use vstd::prelude::*;

verus! {

/// How many textures there are. While the encoder reads one, the next ones are
/// written.
pub const POOL: usize = 8;

/// The color space of the encoded picture: the matrix of BT.709, and the studio
/// range.
pub const COLOR_SPACE: u32 = 20;

/// The textures, used in turn.
pub struct Ring {
    pub next: usize,
}

impl Ring {
    /// The next texture exists.
    pub open spec fn wf(self) -> bool {
        self.next < POOL
    }

    /// No texture has been used.
    pub fn new() -> (r: Ring)
        ensures
            r.wf(),
            r.next == 0,
    {
        Ring { next: 0 }
    }

    /// The texture that is used now.
    pub fn turn(&mut self) -> (r: usize)
        requires
            old(self).wf(),
        ensures
            final(self).wf(),
            r == old(self).next,
            final(self).next == (old(self).next + 1) % POOL as int,
    {
        let used: usize = self.next;
        self.next = (self.next + 1) % POOL;
        used
    }

    /// The texture that was used last.
    pub fn last(&self) -> (r: usize)
        requires
            self.wf(),
        ensures
            r == (self.next + POOL - 1) % POOL as int,
            r < POOL,
    {
        (self.next + POOL - 1) % POOL
    }
}

/// The texture that is handed to the encoder is the one that was just written.
pub proof fn law_last_is_used(next: int)
    requires
        0 <= next < POOL,
    ensures
        ((next + 1) % POOL as int + POOL - 1) % POOL as int == next,
{
}

/// The texture that conversion number `k` uses.
pub open spec fn used_by(k: int) -> int
    decreases k,
{
    if k <= 0 {
        0
    } else {
        (used_by(k - 1) + 1) % POOL as int
    }
}

/// The textures go round.
proof fn lemma_used_by(k: int)
    requires
        0 <= k,
    ensures
        used_by(k) == k % POOL as int,
    decreases k,
{
    if k > 0 {
        lemma_used_by(k - 1);
    }
}

/// A texture that the encoder was given is left alone during the next seven
/// conversions.
pub proof fn law_reuse_distance(i: int, j: int)
    requires
        0 <= i < j,
        used_by(i) == used_by(j),
    ensures
        j - i >= POOL,
{
    lemma_used_by(i);
    lemma_used_by(j);
}

/// The textures are used in turn, all eight of them.
pub proof fn law_all_in_turn(k: int)
    requires
        0 <= k,
    ensures
        used_by(k) == k % 8,
        used_by(k + 8) == used_by(k),
{
    lemma_used_by(k);
    lemma_used_by(k + 8);
}

/// The color space has the bit of the matrix of BT.709, and the studio range.
pub proof fn law_color_space()
    ensures
        COLOR_SPACE == 1 * 4 + 1 * 16,
{
}

} // verus!
