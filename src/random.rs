use vstd::prelude::*;

verus! {

/// Relies on `rand::Rng::random_range` over the thread-local generator: a
/// value drawn from `0..len`. It panics on an empty range, which `requires`
/// leaves out.
#[verifier::external_body]
pub(crate) fn random_index(len: usize) -> (r: usize)
    requires
        len > 0,
    ensures
        r < len,
{
    rand::Rng::random_range(&mut rand::rng(), 0..len)
}

/// Relies on `rand::seq::IndexedRandom::choose_multiple` over the
/// thread-local generator: `min(amount, pool.len())` elements taken from
/// distinct positions of `pool`, in random order.
#[verifier::external_body]
pub(crate) fn sample_stations(pool: &Vec<u8>, amount: usize) -> (r: Vec<u8>)
    ensures
        r@.len() == if amount < pool@.len() {
            amount as nat
        } else {
            pool@.len()
        },
        forall|i: int| 0 <= i < r@.len() ==> pool@.contains(#[trigger] r@[i]),
        pool@.no_duplicates() ==> r@.no_duplicates(),
{
    rand::seq::IndexedRandom::choose_multiple(pool.as_slice(), &mut rand::rng(), amount)
        .copied()
        .collect()
}

/// Relies on `uuid::Uuid::new_v4`: a random version-4 UUID, handed over as
/// its 128 bits. Nothing is promised of its value.
#[verifier::external_body]
pub(crate) fn new_uuid() -> (r: u128) {
    uuid::Uuid::new_v4().as_u128()
}

} // verus!
