//! The game's random numbers: a shift-register generator, so that a run can be repeated.
use vstd::prelude::*;

verus! {

/// The next state of the generator.
pub open spec fn shifted(x: u64) -> u64 {
    let a = x ^ (x << 13);
    let b = a ^ (a >> 7);
    b ^ (b << 17)
}

/// How many outcomes a draw from `n` has: at least one.
pub open spec fn choices(n: usize) -> nat {
    if n == 0 {
        1
    } else {
        n as nat
    }
}

/// The index that a draw from `n` gives when the generator is at `x`.
pub open spec fn drawn(x: u64, n: usize) -> nat {
    shifted(x) as nat % choices(n)
}

/// Draws an index below `n` (zero when `n` is zero) and moves the generator on.
pub fn rand_below(state: &mut u64, n: usize) -> (i: usize)
    ensures
        *final(state) == shifted(*old(state)),
        i == drawn(*old(state), n),
        i < choices(n),
{
    let mut x: u64 = *state;
    x = x ^ (x << 13);
    x = x ^ (x >> 7);
    x = x ^ (x << 17);
    *state = x;
    let m: u64 = if n == 0 {
        1
    } else {
        n as u64
    };
    (x % m) as usize
}

/// The generator after `n` draws.
pub open spec fn shifted_by(x: u64, n: nat) -> u64
    decreases n,
{
    if n == 0 {
        x
    } else {
        shifted(shifted_by(x, (n - 1) as nat))
    }
}

/// The `n` fractions drawn from `x` on, each as one of the 2^24 steps from zero up to one.
pub open spec fn units(x: u64, n: nat) -> Seq<u32> {
    Seq::new(n, |i: int| drawn(shifted_by(x, i as nat), 0x100_0000) as u32)
}

/// Draws `n` fractions.
pub fn draw_units(state: &mut u64, n: usize) -> (out: Vec<u32>)
    ensures
        *final(state) == shifted_by(*old(state), n as nat),
        out@ == units(*old(state), n as nat),
{
    let mut out: Vec<u32> = Vec::new();
    let mut k: usize = 0;
    while k < n
        invariant
            k <= n,
            *state == shifted_by(*old(state), k as nat),
            out@ == units(*old(state), k as nat),
        decreases n - k,
    {
        let u: usize = rand_below(state, 0x100_0000);
        out.push(u as u32);
        k = k + 1;
        assert(out@ =~= units(*old(state), k as nat));
    }
    out
}

/// The generator never gets stuck at zero.
pub proof fn generator_never_stops(x: u64)
    requires
        x != 0,
    ensures
        shifted(x) != 0,
{
    let a = x ^ (x << 13);
    let b = a ^ (a >> 7);
    assert(x != 0 ==> x ^ (x << 13) != 0) by (bit_vector);
    assert(a != 0 ==> a ^ (a >> 7) != 0) by (bit_vector);
    assert(b != 0 ==> b ^ (b << 17) != 0) by (bit_vector);
}

/// A number drawn among `n` is one of them, the remainder of the next state.
pub proof fn draws_are_remainders(x: u64, n: usize)
    requires
        n > 0,
    ensures
        drawn(x, n) < n,
        drawn(x, n) == shifted(x) as int % n as int,
{
}

/// The generator never takes two states to one: whatever follows differs wherever it started
/// differently.
pub proof fn states_stay_apart(x: u64, y: u64)
    requires
        x != y,
    ensures
        shifted(x) != shifted(y),
{
    assert(x != y ==> x ^ (x << 13) != y ^ (y << 13)) by (bit_vector);
    let (a, b) = (x ^ (x << 13), y ^ (y << 13));
    assert(a != b ==> a ^ (a >> 7) != b ^ (b >> 7)) by (bit_vector);
    let (c, d) = (a ^ (a >> 7), b ^ (b >> 7));
    assert(c != d ==> c ^ (c << 17) != d ^ (d << 17)) by (bit_vector);
}

} // verus!
