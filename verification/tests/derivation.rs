use mpl_inscription::address::{
    program_id, system_program_id, token_metadata_program_id, token_program_id, Address,
};
use mpl_inscription::derivation::{inscription_seeds, shard_seeds};
use solana_program::pubkey::Pubkey;

#[test]
fn program_ids_are_the_hosts() {
    assert_eq!(system_program_id().bytes, solana_program::system_program::ID.to_bytes());
    assert_eq!(token_program_id().bytes, spl_token::ID.to_bytes());
    assert_eq!(token_metadata_program_id().bytes, mpl_token_metadata::ID.to_bytes());
    let id: Pubkey = "1NSCRfGeyo7wPUazGbaPBUsTM49e1k2aXewHGARfzSo".parse().unwrap();
    assert_eq!(program_id().bytes, id.to_bytes());
}

#[test]
fn derive_is_the_hosts_derivation() {
    let id = Pubkey::new_from_array(program_id().bytes);
    let account = Address::new([7u8; 32]);
    let (key, bump) =
        Pubkey::find_program_address(&[b"Inscription", id.as_ref(), &[7u8; 32]], &id);
    assert_eq!(mpl_inscription::derivation::derive(&inscription_seeds(&account)), Some((Address::new(key.to_bytes()), bump)));
    let (key, bump) =
        Pubkey::find_program_address(&[b"Inscription", b"Shard", id.as_ref(), &[3u8]], &id);
    assert_eq!(mpl_inscription::derivation::derive(&shard_seeds(3)), Some((Address::new(key.to_bytes()), bump)));
}

#[test]
fn derive_is_repeatable() {
    let account = Address::new([9u8; 32]);
    let first = mpl_inscription::derivation::derive(&inscription_seeds(&account));
    let second = mpl_inscription::derivation::derive(&inscription_seeds(&account));
    assert!(first.is_some());
    assert_eq!(first, second);
}
