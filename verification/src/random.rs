//! Trusted contracts for the `fastrand` calls the library makes.
//!
//! Every integer draw of `fastrand` returns a value of the requested range;
//! nothing more is promised of it (the value depends on the generator's
//! hidden state, so no contract names it).
use vstd::prelude::*;

verus! {

#[verifier::external_type_specification]
#[verifier::external_body]
pub struct ExRng(fastrand::Rng);

/// `fastrand::usize(lo..=hi)` on the thread-local generator: some value
/// in `lo..=hi` (fastrand panics only on an empty range, which `requires`
/// excludes).
#[verifier::external_body]
pub(crate) fn rand_usize(lo: usize, hi: usize) -> (r: usize)
    requires
        lo <= hi,
    ensures
        lo <= r <= hi,
{
    fastrand::usize(lo..=hi)
}

/// `fastrand::u32(lo..=hi)` on the thread-local generator: some value in
/// `lo..=hi`.
#[verifier::external_body]
pub(crate) fn rand_u32(lo: u32, hi: u32) -> (r: u32)
    requires
        lo <= hi,
    ensures
        lo <= r <= hi,
{
    fastrand::u32(lo..=hi)
}

/// `fastrand::i32(lo..=hi)` on the thread-local generator: some value in
/// `lo..=hi`.
#[verifier::external_body]
pub(crate) fn rand_i32(lo: i32, hi: i32) -> (r: i32)
    requires
        lo <= hi,
    ensures
        lo <= r <= hi,
{
    fastrand::i32(lo..=hi)
}

/// `fastrand::u16(lo..=hi)` on the thread-local generator: some value in
/// `lo..=hi`.
#[verifier::external_body]
pub(crate) fn rand_u16(lo: u16, hi: u16) -> (r: u16)
    requires
        lo <= hi,
    ensures
        lo <= r <= hi,
{
    fastrand::u16(lo..=hi)
}

/// `fastrand::u8(lo..=hi)` on the thread-local generator: some value in
/// `lo..=hi`.
#[verifier::external_body]
pub(crate) fn rand_u8(lo: u8, hi: u8) -> (r: u8)
    requires
        lo <= hi,
    ensures
        lo <= r <= hi,
{
    fastrand::u8(lo..=hi)
}

/// `fastrand::bool()` on the thread-local generator; either value may come
/// back.
#[verifier::external_body]
pub(crate) fn rand_bool() -> (r: bool) {
    fastrand::bool()
}

/// `fastrand::Rng::new()`: a generator seeded from the thread-local one.
#[verifier::external_body]
pub(crate) fn rng_new() -> (r: fastrand::Rng) {
    fastrand::Rng::new()
}

/// `Rng::u8(lo..=hi)`: some value in `lo..=hi`.
#[verifier::external_body]
pub(crate) fn rng_u8(rng: &mut fastrand::Rng, lo: u8, hi: u8) -> (r: u8)
    requires
        lo <= hi,
    ensures
        lo <= r <= hi,
{
    rng.u8(lo..=hi)
}

/// `Rng::i8(lo..=hi)`: some value in `lo..=hi`.
#[verifier::external_body]
pub(crate) fn rng_i8(rng: &mut fastrand::Rng, lo: i8, hi: i8) -> (r: i8)
    requires
        lo <= hi,
    ensures
        lo <= r <= hi,
{
    rng.i8(lo..=hi)
}

/// `Rng::i32(lo..=hi)`: some value in `lo..=hi`.
#[verifier::external_body]
pub(crate) fn rng_i32(rng: &mut fastrand::Rng, lo: i32, hi: i32) -> (r: i32)
    requires
        lo <= hi,
    ensures
        lo <= r <= hi,
{
    rng.i32(lo..=hi)
}

/// `Rng::u32(lo..=hi)`: some value in `lo..=hi`.
#[verifier::external_body]
pub(crate) fn rng_u32(rng: &mut fastrand::Rng, lo: u32, hi: u32) -> (r: u32)
    requires
        lo <= hi,
    ensures
        lo <= r <= hi,
{
    rng.u32(lo..=hi)
}

/// `Rng::usize(lo..=hi)`: some value in `lo..=hi`.
#[verifier::external_body]
pub(crate) fn rng_usize(rng: &mut fastrand::Rng, lo: usize, hi: usize) -> (r: usize)
    requires
        lo <= hi,
    ensures
        lo <= r <= hi,
{
    rng.usize(lo..=hi)
}

} // verus!
