//! The seeded xorshift128 generator that the excitation bursts are drawn from.

use vstd::prelude::*;

verus! {

/// The four words that seed 0 starts from.
pub const KX: u32 = 123456789;

pub const KY: u32 = 362436069;

pub const KZ: u32 = 521288629;

pub const KW: u32 = 88675123;

/// The four words of generator state, as a mathematical value.
pub struct RandState {
    pub x: u32,
    pub y: u32,
    pub z: u32,
    pub w: u32,
}

/// The state a generator starts in for a given seed.
pub open spec fn seeded(seed: u32) -> RandState {
    RandState { x: KX ^ seed, y: KY ^ seed, z: KZ, w: KW }
}

/// One xorshift128 step.
pub open spec fn advance(s: RandState) -> RandState {
    let t = s.x ^ (s.x << 11);
    RandState { x: s.y, y: s.z, z: s.w, w: s.w ^ (s.w >> 19) ^ t ^ (t >> 8) }
}

/// The state after `n` steps from `s`.
pub open spec fn advanced(s: RandState, n: nat) -> RandState
    decreases n,
{
    if n == 0 {
        s
    } else {
        advance(advanced(s, (n - 1) as nat))
    }
}

/// The `n`-th word drawn from a generator that starts in `s`, counting from 0.
pub open spec fn draw(s: RandState, n: nat) -> u32 {
    advanced(s, n + 1).w
}

/// A xorshift128 generator. The same seed gives the same words, on every
/// machine.
pub struct Rand {
    x: u32,
    y: u32,
    z: u32,
    w: u32,
}

impl View for Rand {
    type V = RandState;

    closed spec fn view(&self) -> RandState {
        RandState { x: self.x, y: self.y, z: self.z, w: self.w }
    }
}

impl Rand {
    /// A generator for `seed`.
    pub fn new(seed: u32) -> (r: Rand)
        ensures
            r@ == seeded(seed),
    {
        Rand { x: KX ^ seed, y: KY ^ seed, z: KZ, w: KW }
    }

    /// Steps the generator once and returns the new last word.
    pub fn rand(&mut self) -> (r: u32)
        ensures
            final(self)@ == advance(old(self)@),
            r == final(self)@.w,
    {
        let t: u32 = self.x ^ (self.x << 11);
        self.x = self.y;
        self.y = self.z;
        self.z = self.w;
        self.w = self.w ^ (self.w >> 19) ^ t ^ (t >> 8);
        self.w
    }
}

} // verus!
