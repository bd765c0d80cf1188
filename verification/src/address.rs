use crate::key::{lemma_key_ext, Key};
use anchor_lang::prelude::Pubkey;
use vstd::prelude::*;

verus! {

/// The address under which the staking program is deployed. Every derived
/// address of the protocol is derived for this program.
pub const ID: [u8; 32] = [
    127, 66, 233, 50, 126, 229, 253, 47, 155, 47, 118, 124, 149, 216, 205, 65,
    167, 33, 218, 211, 77, 189, 29, 196, 138, 235, 126, 61, 137, 2, 81, 152,
];

/// The program-derived address that belongs to `seeds` under the program
/// `program_id`, with its bump seed; `None` where the derivation finds none.
pub uninterp spec fn program_address(seeds: Seq<Seq<u8>>, program_id: Seq<u8>) -> Option<
    (Seq<u8>, u8),
>;

/// The seeds of a derivation as a sequence of byte strings.
pub open spec fn seeds_view(seeds: &[&[u8]]) -> Seq<Seq<u8>> {
    seeds@.map_values(|seed: &[u8]| seed@)
}

/// The address that belongs to `seeds` under this program, with its bump
/// seed, if one can be derived from them.
pub open spec fn spec_address(seeds: Seq<Seq<u8>>) -> Option<(Key, u8)> {
    match program_address(seeds, ID@) {
        Some((bytes, bump)) => Some((choose|address: Key| address@ == bytes, bump)),
        None => None,
    }
}

/// The bump seed that belongs to `seeds` under this program, if an address
/// can be derived from them.
pub open spec fn spec_bump(seeds: Seq<Seq<u8>>) -> Option<u8> {
    match program_address(seeds, ID@) {
        Some((_, bump)) => Some(bump),
        None => None,
    }
}

/// The seeds of a pool's address: the registry's token mint and the pool's
/// index.
pub open spec fn spec_pool_seeds(token_mint: Key, index: u8) -> Seq<Seq<u8>> {
    seq![token_mint@, seq![index]]
}

/// The seeds of a vault's address: the token mint and the pool's address.
pub open spec fn spec_vault_seeds(mint: Key, pool: Key) -> Seq<Seq<u8>> {
    seq![mint@, pool@]
}

/// Calls `Pubkey::try_find_program_address`, which anchor-lang hands on from
/// the Solana SDK: the search for the largest bump seed with which the
/// seeds hash to an address off the ed25519 curve. Nothing of the search is
/// proved here. The contract claims only that what it returns, an address
/// of 32 bytes with its bump seed or nothing, depends on the seeds and the
/// program id alone, and calls that result `program_address`.
#[verifier::external_body]
fn find_program_address(seeds: &[&[u8]], program_id: &[u8; 32]) -> (r: Option<(Key, u8)>)
    ensures
        match r {
            Some((address, bump)) => program_address(seeds_view(seeds), program_id@) == Some(
                (address@, bump),
            ),
            None => program_address(seeds_view(seeds), program_id@) is None,
        },
{
    match Pubkey::try_find_program_address(seeds, &Pubkey::new_from_array(*program_id)) {
        Some((address, bump)) => Some((Key { bytes: address.to_bytes() }, bump)),
        None => None,
    }
}

/// The address derived from `seeds` for this program, with its bump seed.
pub fn derive_address(seeds: &[&[u8]]) -> (r: Option<(Key, u8)>)
    ensures
        r == spec_address(seeds_view(seeds)),
{
    let r = find_program_address(seeds, &ID);
    proof {
        match r {
            Some((address, _)) => {
                let bytes = address@;
                let other = choose|other: Key| other@ == bytes;
                assert(other@ == bytes);
                lemma_key_ext(address, other);
            },
            None => {},
        }
    }
    r
}

/// The bump seed of the address derived from `seeds` for this program,
/// where there is such an address.
pub fn bump(seeds: &[&[u8]]) -> (b: u8)
    requires
        program_address(seeds_view(seeds), ID@) is Some,
    ensures
        spec_bump(seeds_view(seeds)) == Some(b),
{
    match find_program_address(seeds, &ID) {
        Some((_, b)) => b,
        None => unreached(),
    }
}

/// The bump seed of the address derived from `seeds` for this program, or
/// `None` where no address can be derived from them.
pub fn try_bump(seeds: &[&[u8]]) -> (r: Option<u8>)
    ensures
        r == spec_bump(seeds_view(seeds)),
{
    match find_program_address(seeds, &ID) {
        Some(_) => Some(bump(seeds)),
        None => None,
    }
}

/// The address of the pool with `index` under the registry of `token_mint`,
/// with its bump seed.
pub fn pool_address(token_mint: &Key, index: u8) -> (r: Option<(Key, u8)>)
    ensures
        r == spec_address(spec_pool_seeds(*token_mint, index)),
{
    let index_seed: [u8; 1] = [index];
    let seeds: [&[u8]; 2] = [token_mint.bytes.as_slice(), index_seed.as_slice()];
    let seeds: &[&[u8]] = seeds.as_slice();
    assert(seeds@.len() == 2);
    assert(seeds@[0]@ == token_mint@);
    assert(seeds@[1]@ =~= seq![index]);
    assert(seeds_view(seeds) =~= spec_pool_seeds(*token_mint, index));
    derive_address(seeds)
}

/// The bump seed with which the pool signs for its vault.
pub fn pool_bump(token_mint: &Key, index: u8) -> (r: Option<u8>)
    ensures
        r == spec_bump(spec_pool_seeds(*token_mint, index)),
{
    match pool_address(token_mint, index) {
        Some((_, bump)) => Some(bump),
        None => None,
    }
}

/// The address of the vault of the pool at `pool`, with its bump seed.
pub fn vault_address(mint: &Key, pool: &Key) -> (r: Option<(Key, u8)>)
    ensures
        r == spec_address(spec_vault_seeds(*mint, *pool)),
{
    let seeds: [&[u8]; 2] = [mint.bytes.as_slice(), pool.bytes.as_slice()];
    let seeds: &[&[u8]] = seeds.as_slice();
    assert(seeds@.len() == 2);
    assert(seeds@[0]@ == mint@);
    assert(seeds@[1]@ == pool@);
    assert(seeds_view(seeds) =~= spec_vault_seeds(*mint, *pool));
    derive_address(seeds)
}

} // verus!
