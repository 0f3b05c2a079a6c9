use identity_registry::address::{
    access_grant_address, access_seed_list, bytes_equal, credential_address,
    credential_seed_list, identity_address, identity_seed_list, text_len, Pubkey, MAX_SEEDS,
    MAX_SEED_LEN,
};

fn key(byte: u8) -> Pubkey {
    Pubkey::new([byte; 32])
}

fn outside(seeds: &[&[u8]], program_id: &Pubkey) -> Option<(Pubkey, u8)> {
    let program = anchor_lang::prelude::Pubkey::new_from_array(program_id.bytes);
    anchor_lang::prelude::Pubkey::try_find_program_address(seeds, &program)
        .map(|(address, bump)| (Pubkey::new(address.to_bytes()), bump))
}

#[test]
fn identity_address_of_known_keys() {
    let derived = identity_address(&key(1), &key(2));
    assert_eq!(
        derived,
        Some((
            Pubkey::new([
                53, 97, 18, 81, 226, 231, 191, 104, 203, 188, 171, 48, 201, 10, 76, 173, 145, 13,
                121, 64, 118, 230, 79, 47, 221, 177, 38, 220, 6, 162, 113, 36
            ]),
            255
        ))
    );
}

#[test]
fn credential_address_of_known_fields() {
    let derived = credential_address(&key(1), "degree", "did:example:uni", &key(2));
    assert_eq!(
        derived,
        Some((
            Pubkey::new([
                208, 48, 78, 100, 39, 214, 6, 1, 169, 88, 232, 92, 14, 188, 87, 139, 197, 21, 212,
                66, 41, 15, 22, 206, 62, 114, 158, 91, 244, 194, 119, 223
            ]),
            255
        ))
    );
}

#[test]
fn access_grant_address_of_known_fields() {
    let (credential, _) =
        credential_address(&key(1), "degree", "did:example:uni", &key(2)).unwrap();
    let derived = access_grant_address(&credential, &key(1), "employment check", &key(2));
    assert_eq!(
        derived,
        Some((
            Pubkey::new([
                252, 107, 211, 223, 76, 233, 2, 86, 31, 82, 203, 131, 118, 59, 250, 20, 176, 87,
                120, 151, 139, 233, 15, 193, 147, 206, 63, 177, 59, 150, 220, 6
            ]),
            255
        ))
    );
}

#[test]
fn addresses_are_those_of_the_tagged_seeds() {
    for byte in 0..40u8 {
        let owner = key(byte);
        let program = key(byte.wrapping_mul(7).wrapping_add(3));
        assert_eq!(
            identity_address(&owner, &program),
            outside(&[b"identity", &owner.bytes], &program)
        );
        assert_eq!(
            credential_address(&owner, "kyc", "did:web:issuer", &program),
            outside(&[b"credential", &owner.bytes, b"kyc", b"did:web:issuer"], &program)
        );
        assert_eq!(
            access_grant_address(&owner, &program, "audit", &program),
            outside(&[b"access", &owner.bytes, &program.bytes, b"audit"], &program)
        );
    }
}

#[test]
fn an_address_is_not_the_key_it_was_derived_from() {
    let (address, _) = identity_address(&key(1), &key(2)).unwrap();
    assert_ne!(address, key(1));
    assert_ne!(address, key(2));
}

#[test]
fn the_same_fields_give_the_same_address() {
    assert_eq!(identity_address(&key(5), &key(6)), identity_address(&key(5), &key(6)));
    assert_eq!(
        credential_address(&key(5), "a", "b", &key(6)),
        credential_address(&key(5), "a", "b", &key(6))
    );
}

#[test]
fn other_fields_give_another_address() {
    let base = credential_address(&key(5), "kyc", "did:a", &key(6)).unwrap().0;
    assert_ne!(credential_address(&key(4), "kyc", "did:a", &key(6)).unwrap().0, base);
    assert_ne!(credential_address(&key(5), "aml", "did:a", &key(6)).unwrap().0, base);
    assert_ne!(credential_address(&key(5), "kyc", "did:b", &key(6)).unwrap().0, base);
    assert_ne!(credential_address(&key(5), "kyc", "did:a", &key(7)).unwrap().0, base);
    assert_ne!(identity_address(&key(5), &key(6)).unwrap().0, base);
    let grant = access_grant_address(&base, &key(5), "audit", &key(6)).unwrap().0;
    assert_ne!(access_grant_address(&base, &key(5), "hiring", &key(6)).unwrap().0, grant);
    assert_ne!(access_grant_address(&base, &key(4), "audit", &key(6)).unwrap().0, grant);
}

#[test]
fn short_strings_are_one_seed_each() {
    assert_eq!(MAX_SEED_LEN, 32);
    assert_eq!(MAX_SEEDS, 16);
    assert_eq!(identity_seed_list(&key(5)), vec![b"identity".to_vec(), vec![5u8; 32]]);
    assert_eq!(
        credential_seed_list(&key(5), "kyc", "did:a"),
        vec![b"credential".to_vec(), vec![5u8; 32], b"kyc".to_vec(), b"did:a".to_vec()]
    );
    assert_eq!(
        credential_seed_list(&key(5), "", &"d".repeat(32)),
        vec![b"credential".to_vec(), vec![5u8; 32], Vec::new(), vec![b'd'; 32]]
    );
    assert_eq!(
        access_seed_list(&key(5), &key(6), "audit"),
        vec![b"access".to_vec(), vec![5u8; 32], vec![6u8; 32], b"audit".to_vec()]
    );
}

#[test]
fn long_strings_enter_the_seeds_in_pieces() {
    assert_eq!(
        credential_seed_list(&key(5), &"t".repeat(33), &"d".repeat(100)),
        vec![
            b"credential".to_vec(),
            vec![5u8; 32],
            vec![b't'; 32],
            vec![b't'; 1],
            vec![b'd'; 32],
            vec![b'd'; 32],
            vec![b'd'; 32],
            vec![b'd'; 4],
        ]
    );
    let text: String = ('a'..='z').cycle().take(70).collect();
    assert_eq!(
        access_seed_list(&key(5), &key(6), &text),
        vec![
            b"access".to_vec(),
            vec![5u8; 32],
            vec![6u8; 32],
            text.as_bytes()[..32].to_vec(),
            text.as_bytes()[32..64].to_vec(),
            text.as_bytes()[64..].to_vec(),
        ]
    );
    assert_eq!(credential_seed_list(&key(5), &"t".repeat(64), "").len(), 5);
    assert_eq!(access_seed_list(&key(5), &key(6), &"p".repeat(200)).len(), 10);
}

#[test]
fn every_string_within_the_limits_has_an_address() {
    let owner = key(5);
    let program = key(6);
    let kind = "t".repeat(50);
    let did = "d".repeat(100);
    assert_eq!(
        credential_address(&owner, &kind, &did, &program),
        outside(
            &[
                b"credential",
                &owner.bytes,
                &kind.as_bytes()[..32],
                &kind.as_bytes()[32..],
                &did.as_bytes()[..32],
                &did.as_bytes()[32..64],
                &did.as_bytes()[64..96],
                &did.as_bytes()[96..],
            ],
            &program
        )
    );
    assert!(credential_address(&owner, &kind, &did, &program).is_some());
    assert!(credential_address(&owner, &"t".repeat(33), "did:a", &program).is_some());
    assert!(access_grant_address(&owner, &program, &"p".repeat(200), &program).is_some());
    assert_ne!(
        access_grant_address(&owner, &program, &"p".repeat(200), &program),
        access_grant_address(&owner, &program, &"p".repeat(199), &program)
    );
}

#[test]
fn sixteen_seeds_have_no_address() {
    let owner = key(5);
    let program = key(6);
    assert_eq!(credential_seed_list(&owner, &"t".repeat(13 * 32), "").len(), 16);
    assert_eq!(credential_address(&owner, &"t".repeat(13 * 32), "", &program), None);
    assert_eq!(credential_seed_list(&owner, &"t".repeat(12 * 32), "").len(), 15);
    assert!(credential_address(&owner, &"t".repeat(12 * 32), "", &program).is_some());
    assert_eq!(access_grant_address(&owner, &owner, &"p".repeat(12 * 32 + 1), &program), None);
    assert!(access_grant_address(&owner, &owner, &"p".repeat(12 * 32), &program).is_some());
}

#[test]
fn keys_compare_by_their_bytes() {
    assert!(key(3).equals(&key(3)));
    assert!(!key(3).equals(&key(4)));
    let mut bytes = [3u8; 32];
    bytes[31] = 4;
    assert!(!key(3).equals(&Pubkey::new(bytes)));
    assert!(bytes_equal(&bytes, &bytes));
    assert!(!bytes_equal(&bytes, &[3u8; 32]));
    bytes[31] = 3;
    bytes[0] = 0;
    assert!(!bytes_equal(&bytes, &[3u8; 32]));
}

#[test]
fn a_key_is_its_own_seed() {
    let mut bytes = [0u8; 32];
    for (i, byte) in bytes.iter_mut().enumerate() {
        *byte = i as u8;
    }
    assert_eq!(Pubkey::new(bytes).to_seed(), bytes.to_vec());
    assert_eq!(Pubkey::new(bytes).bytes, bytes);
}

#[test]
fn text_len_counts_bytes() {
    assert_eq!(text_len(""), 0);
    assert_eq!(text_len("ipfs://a"), 8);
    assert_eq!(text_len("\u{e9}"), 2);
    assert_eq!(text_len("\u{20ac}\u{1f600}"), 7);
}
