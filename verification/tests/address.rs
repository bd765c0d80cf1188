use anchor_lang::prelude::Pubkey;
use enrex_stake::address::{
    bump, derive_address, pool_address, pool_bump, try_bump, vault_address, ID,
};
use enrex_stake::key::Key;
use enrex_stake::token::PoolSigner;
use std::str::FromStr;

const POOL_0: [u8; 32] = [
    48, 224, 108, 159, 237, 62, 105, 16, 169, 26, 111, 23, 179, 154, 233, 167, 215, 80, 242, 169,
    110, 221, 224, 25, 129, 162, 179, 131, 255, 117, 236, 104,
];

const VAULT_0: [u8; 32] = [
    85, 50, 49, 58, 0, 44, 27, 40, 52, 137, 2, 16, 40, 173, 144, 245, 116, 47, 149, 89, 81, 178,
    216, 166, 190, 202, 45, 227, 153, 251, 143, 23,
];

#[test]
fn program_id_is_the_deployed_address() {
    assert_eq!(ID[0], 127);
    assert_eq!(ID[31], 152);
    assert_eq!(ID.iter().map(|b| *b as u32).sum::<u32>(), 4262);
}

#[test]
fn program_id_in_base58() {
    let id = Pubkey::from_str("9ZmxLBeqLtxzJ2TRg5YdniyCcVuauB3aL3oTVBBK4Z4K").unwrap();
    assert_eq!(id.to_bytes(), ID);
}

#[test]
fn bump_of_the_state_seed() {
    let seeds: [&[u8]; 1] = [b"state"];
    assert_eq!(try_bump(&seeds), Some(253));
    assert_eq!(bump(&seeds), 253);
}

#[test]
fn bump_of_no_seed() {
    assert_eq!(try_bump(&[]), Some(255));
}

#[test]
fn bump_depends_on_the_seeds() {
    let mint = [7u8; 32];
    let first: [&[u8]; 2] = [&mint, &[0]];
    let second: [&[u8]; 2] = [&mint, &[1]];
    assert_eq!(try_bump(&first), Some(254));
    assert_eq!(try_bump(&second), Some(253));
}

#[test]
fn no_bump_for_seeds_out_of_bounds() {
    let long = [0u8; 33];
    let seeds: [&[u8]; 1] = [&long];
    assert_eq!(try_bump(&seeds), None);
    let many: [&[u8]; 16] = [b"a"; 16];
    assert_eq!(try_bump(&many), None);
    let fewer: [&[u8]; 15] = [b"a"; 15];
    assert_eq!(try_bump(&fewer), Some(254));
}

#[test]
fn derived_address_is_not_a_seed() {
    let seeds: [&[u8]; 1] = [b"state"];
    let (address, bump) = derive_address(&seeds).unwrap();
    assert_eq!(bump, 253);
    assert_eq!(
        address.bytes,
        [
            133, 143, 118, 208, 28, 202, 97, 77, 108, 200, 155, 225, 40, 6, 52, 242, 59, 208, 52,
            26, 73, 82, 126, 24, 233, 10, 115, 252, 201, 242, 6, 161
        ]
    );
}

#[test]
fn pool_address_of_mint_and_index() {
    let mint = Key { bytes: [9; 32] };
    assert_eq!(pool_address(&mint, 0), Some((Key { bytes: POOL_0 }, 255)));
    assert_eq!(pool_bump(&mint, 0), Some(255));
    assert_eq!(pool_bump(&mint, 1), Some(254));
    assert_eq!(pool_bump(&mint, 2), Some(250));
    let seeds: [&[u8]; 2] = [&mint.bytes, &[0]];
    assert_eq!(derive_address(&seeds), Some((Key { bytes: POOL_0 }, 255)));
}

#[test]
fn vault_address_of_mint_and_pool() {
    let mint = Key { bytes: [9; 32] };
    let pool = Key { bytes: POOL_0 };
    assert_eq!(vault_address(&mint, &pool), Some((Key { bytes: VAULT_0 }, 253)));
}

#[test]
fn signer_seeds_are_mint_index_and_bump() {
    let signer = PoolSigner { token_mint: Key { bytes: [9; 32] }, index: 3, bump: 250 };
    assert_eq!(signer.seeds(), vec![vec![9u8; 32], vec![3u8], vec![250u8]]);
}

#[test]
fn keys_compare_by_their_bytes() {
    let mut bytes = [5u8; 32];
    let a = Key::new(bytes);
    assert_eq!(a, Key { bytes: [5; 32] });
    bytes[31] = 6;
    assert_ne!(a, Key::new(bytes));
    bytes[31] = 5;
    bytes[0] = 4;
    assert_ne!(a, Key::new(bytes));
    assert_eq!(Key::zero().bytes, [0u8; 32]);
}
