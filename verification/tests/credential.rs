use identity_registry::address::Pubkey;
use identity_registry::ledger::LedgerError;
use identity_registry::credential_vault::{
    grant_access, issue_credential, revoke_access_grant, revoke_credential, verify_credential,
    AccessGrantAccount, CredentialAccount, CredentialError, GrantAccess, IssueCredential,
    RevokeAccessGrant, RevokeCredential, VerifyCredential,
};

fn key(byte: u8) -> Pubkey {
    Pubkey::new([byte; 32])
}

fn issue(expiry: Option<i64>, now: i64) -> CredentialAccount {
    let mut ctx = IssueCredential { credential: None, bump: 253, owner: key(1), payer: key(9) };
    issue_credential(
        &mut ctx,
        String::from("degree"),
        [3u8; 32],
        String::from("did:example:uni"),
        expiry,
        String::from("ipfs://c"),
        now,
    )
    .unwrap();
    ctx.credential.unwrap()
}

fn verify(credential: &CredentialAccount, hash: [u8; 32], now: i64) -> Result<(), CredentialError> {
    verify_credential(&VerifyCredential { credential }, hash, now)
}

fn free_grant_accounts() -> GrantAccess {
    GrantAccess { credential: key(20), owner: key(1), access_grant: None, bump: 252, payer: key(9) }
}

#[test]
fn issue_credential_fills_the_record() {
    assert_eq!(
        issue(Some(2_000), 1_000),
        CredentialAccount {
            owner: key(1),
            credential_type: String::from("degree"),
            claims_hash: [3u8; 32],
            issuer_did: String::from("did:example:uni"),
            issued_at: 1_000,
            expiry: Some(2_000),
            metadata_uri: String::from("ipfs://c"),
            revoked: false,
            revocation_reason: None,
            bump: 253,
        }
    );
}

#[test]
fn issue_credential_accepts_strings_of_the_limits() {
    let mut ctx = IssueCredential { credential: None, bump: 1, owner: key(1), payer: key(9) };
    assert_eq!(
        issue_credential(
            &mut ctx,
            "t".repeat(50),
            [0u8; 32],
            "d".repeat(100),
            None,
            "u".repeat(200),
            0
        ),
        Ok(())
    );
    let credential = ctx.credential.unwrap();
    assert_eq!(credential.expiry, None);
    assert_eq!(credential.credential_type.len(), 50);
}

#[test]
fn issue_credential_names_the_first_string_that_is_too_long() {
    let attempt = |kind: usize, did: usize, uri: usize| {
        let mut ctx =
            IssueCredential { credential: None, bump: 1, owner: key(1), payer: key(9) };
        let result = issue_credential(
            &mut ctx,
            "t".repeat(kind),
            [0u8; 32],
            "d".repeat(did),
            None,
            "u".repeat(uri),
            0,
        );
        assert_eq!(ctx.credential.is_some(), result.is_ok());
        result
    };
    assert_eq!(attempt(51, 100, 200), Err(LedgerError::Rejected(CredentialError::TypeTooLong)));
    assert_eq!(attempt(50, 101, 200), Err(LedgerError::Rejected(CredentialError::DidTooLong)));
    assert_eq!(attempt(50, 100, 201), Err(LedgerError::Rejected(CredentialError::UriTooLong)));
    assert_eq!(attempt(51, 101, 201), Err(LedgerError::Rejected(CredentialError::TypeTooLong)));
    assert_eq!(attempt(50, 101, 201), Err(LedgerError::Rejected(CredentialError::DidTooLong)));
    assert_eq!(attempt(50, 100, 200), Ok(()));
}

#[test]
fn revoke_credential_records_the_reason() {
    let mut ctx = RevokeCredential { credential: issue(None, 10), issuer: key(5) };
    assert_eq!(revoke_credential(&mut ctx, String::from("key compromised")), Ok(()));
    assert!(ctx.credential.revoked);
    assert_eq!(ctx.credential.revocation_reason, Some(String::from("key compromised")));
    assert_eq!(ctx.credential.claims_hash, [3u8; 32]);
    assert_eq!(ctx.credential.issued_at, 10);
    assert_eq!(ctx.issuer, key(5));
}

#[test]
fn revoke_credential_rejects_a_long_reason() {
    let mut ctx = RevokeCredential { credential: issue(None, 10), issuer: key(5) };
    assert_eq!(revoke_credential(&mut ctx, "r".repeat(201)), Err(CredentialError::ReasonTooLong));
    assert_eq!(ctx.credential, issue(None, 10));
    assert_eq!(revoke_credential(&mut ctx, "r".repeat(200)), Ok(()));
    assert!(ctx.credential.revoked);
}

#[test]
fn revoking_again_keeps_the_credential_revoked_and_replaces_the_reason() {
    let mut ctx = RevokeCredential { credential: issue(None, 10), issuer: key(5) };
    revoke_credential(&mut ctx, String::from("first")).unwrap();
    assert_eq!(revoke_credential(&mut ctx, String::from("second")), Ok(()));
    assert!(ctx.credential.revoked);
    assert_eq!(ctx.credential.revocation_reason, Some(String::from("second")));
    assert_eq!(revoke_credential(&mut ctx, "r".repeat(201)), Err(CredentialError::ReasonTooLong));
    assert!(ctx.credential.revoked);
    assert_eq!(ctx.credential.revocation_reason, Some(String::from("second")));
}

#[test]
fn verify_succeeds_on_a_valid_credential() {
    assert_eq!(verify(&issue(None, 10), [3u8; 32], 1_000_000), Ok(()));
    assert_eq!(verify(&issue(Some(50), 10), [3u8; 32], 49), Ok(()));
}

#[test]
fn verify_changes_nothing() {
    let credential = issue(Some(50), 10);
    let before = credential.clone();
    let _ = verify(&credential, [3u8; 32], 49);
    let _ = verify(&credential, [4u8; 32], 60);
    assert_eq!(credential, before);
}

#[test]
fn expiry_equal_to_now_has_expired() {
    let now = 1_700_000_000;
    assert_eq!(
        verify(&issue(Some(now), 10), [3u8; 32], now),
        Err(CredentialError::CredentialExpired)
    );
    assert_eq!(verify(&issue(Some(now + 1), 10), [3u8; 32], now), Ok(()));
    assert_eq!(
        verify(&issue(Some(now - 1), 10), [3u8; 32], now),
        Err(CredentialError::CredentialExpired)
    );
}

#[test]
fn verify_refuses_a_revoked_credential() {
    let mut ctx = RevokeCredential { credential: issue(None, 10), issuer: key(5) };
    revoke_credential(&mut ctx, String::from("withdrawn")).unwrap();
    assert_eq!(verify(&ctx.credential, [3u8; 32], 11), Err(CredentialError::CredentialRevoked));
}

#[test]
fn a_single_differing_byte_is_a_mismatch() {
    let credential = issue(None, 10);
    for position in 0..32 {
        let mut expected = [3u8; 32];
        expected[position] ^= 1;
        assert_eq!(verify(&credential, expected, 11), Err(CredentialError::HashMismatch));
    }
    let mut expected = [3u8; 32];
    expected[31] = 0x83;
    assert_eq!(verify(&credential, expected, 11), Err(CredentialError::HashMismatch));
}

#[test]
fn verify_checks_revocation_then_expiry_then_the_hash() {
    let mut ctx = RevokeCredential { credential: issue(Some(20), 10), issuer: key(5) };
    assert_eq!(verify(&ctx.credential, [4u8; 32], 20), Err(CredentialError::CredentialExpired));
    assert_eq!(verify(&ctx.credential, [4u8; 32], 19), Err(CredentialError::HashMismatch));
    revoke_credential(&mut ctx, String::new()).unwrap();
    assert_eq!(verify(&ctx.credential, [4u8; 32], 20), Err(CredentialError::CredentialRevoked));
    assert_eq!(verify(&ctx.credential, [3u8; 32], 19), Err(CredentialError::CredentialRevoked));
}

#[test]
fn grant_access_fills_the_record() {
    let mut ctx = free_grant_accounts();
    assert_eq!(
        grant_access(&mut ctx, key(30), String::from("employment check"), 1_100, 0b101, 1_000),
        Ok(())
    );
    assert_eq!(
        ctx.access_grant,
        Some(AccessGrantAccount {
            credential: key(20),
            grantor: key(1),
            grantee: key(30),
            purpose: String::from("employment check"),
            expires_at: 1_100,
            field_mask: 0b101,
            revoked: false,
            bump: 252,
        })
    );
    assert_eq!(ctx.credential, key(20));
    assert_eq!(ctx.owner, key(1));
}

#[test]
fn grant_access_rejects_a_long_purpose() {
    let mut ctx = free_grant_accounts();
    assert_eq!(
        grant_access(&mut ctx, key(30), "p".repeat(201), 1_100, 1, 1_000),
        Err(LedgerError::Rejected(CredentialError::PurposeTooLong))
    );
    assert_eq!(ctx.access_grant, None);
    assert_eq!(grant_access(&mut ctx, key(30), "p".repeat(200), 1_100, 1, 1_000), Ok(()));
}

#[test]
fn grant_access_wants_an_expiry_in_the_future() {
    let mut ctx = free_grant_accounts();
    assert_eq!(
        grant_access(&mut ctx, key(30), String::from("p"), 1_000, 1, 1_000),
        Err(LedgerError::Rejected(CredentialError::InvalidExpiry))
    );
    assert_eq!(
        grant_access(&mut ctx, key(30), String::from("p"), 999, 1, 1_000),
        Err(LedgerError::Rejected(CredentialError::InvalidExpiry))
    );
    assert_eq!(ctx.access_grant, None);
    assert_eq!(grant_access(&mut ctx, key(30), String::from("p"), 1_001, 1, 1_000), Ok(()));
    assert_eq!(ctx.access_grant.unwrap().expires_at, 1_001);
}

#[test]
fn grant_access_checks_the_purpose_first() {
    let mut ctx = free_grant_accounts();
    assert_eq!(
        grant_access(&mut ctx, key(30), "p".repeat(201), 5, 1, 1_000),
        Err(LedgerError::Rejected(CredentialError::PurposeTooLong))
    );
}

#[test]
fn grant_access_keeps_any_field_mask() {
    let mut ctx = free_grant_accounts();
    grant_access(&mut ctx, key(30), String::from("p"), 2, u64::MAX, 1).unwrap();
    assert_eq!(ctx.access_grant.unwrap().field_mask, u64::MAX);
    let mut ctx = free_grant_accounts();
    grant_access(&mut ctx, key(30), String::from("p"), 2, 0, 1).unwrap();
    assert_eq!(ctx.access_grant.unwrap().field_mask, 0);
}

#[test]
fn a_relying_party_finds_the_grant_inactive_after_its_expiry() {
    let now = 1_700_000_000;
    let mut ctx = free_grant_accounts();
    grant_access(&mut ctx, key(30), String::from("p"), now + 100, 1, now).unwrap();
    let grant = ctx.access_grant.clone().unwrap();
    let active = |at: i64| !grant.revoked && at < grant.expires_at;
    assert!(active(now));
    assert!(active(now + 99));
    assert!(!active(now + 100));
    assert!(!active(now + 101));
    assert_eq!(ctx.access_grant, Some(grant.clone()));
    assert!(!grant.revoked);
}

#[test]
fn revoke_access_grant_marks_it_revoked() {
    let mut ctx = free_grant_accounts();
    grant_access(&mut ctx, key(30), String::from("p"), 1_100, 7, 1_000).unwrap();
    let mut ctx = RevokeAccessGrant { access_grant: ctx.access_grant.unwrap(), grantor: key(1) };
    assert_eq!(revoke_access_grant(&mut ctx), Ok(()));
    assert!(ctx.access_grant.revoked);
    assert_eq!(ctx.access_grant.expires_at, 1_100);
    assert_eq!(ctx.access_grant.field_mask, 7);
    assert_eq!(ctx.access_grant.purpose, "p");
    assert_eq!(revoke_access_grant(&mut ctx), Ok(()));
    assert!(ctx.access_grant.revoked);
    assert_eq!(ctx.grantor, key(1));
}

#[test]
fn issuing_over_a_credential_that_is_there_is_refused() {
    let there = issue(Some(2_000), 1_000);
    let mut ctx =
        IssueCredential { credential: Some(there.clone()), bump: 1, owner: key(1), payer: key(9) };
    assert_eq!(
        issue_credential(
            &mut ctx,
            String::from("degree"),
            [4u8; 32],
            String::from("did:example:uni"),
            None,
            String::from("ipfs://d"),
            1_500,
        ),
        Err(LedgerError::AddressInUse)
    );
    assert_eq!(ctx.credential, Some(there));
}

#[test]
fn issuing_cannot_take_a_revocation_back() {
    let mut revoke = RevokeCredential { credential: issue(None, 1_000), issuer: key(5) };
    revoke_credential(&mut revoke, String::from("withdrawn")).unwrap();
    let revoked = revoke.credential;
    let mut ctx = IssueCredential {
        credential: Some(revoked.clone()),
        bump: 253,
        owner: key(1),
        payer: key(9),
    };
    assert_eq!(
        issue_credential(
            &mut ctx,
            String::from("degree"),
            [3u8; 32],
            String::from("did:example:uni"),
            None,
            String::from("ipfs://c"),
            1_500,
        ),
        Err(LedgerError::AddressInUse)
    );
    let kept = ctx.credential.unwrap();
    assert!(kept.revoked);
    assert_eq!(kept.revocation_reason, Some(String::from("withdrawn")));
    assert_eq!(kept, revoked);
}

#[test]
fn granting_cannot_take_a_revocation_back() {
    let mut ctx = free_grant_accounts();
    grant_access(&mut ctx, key(30), String::from("audit"), 1_100, 7, 1_000).unwrap();
    let mut revoke =
        RevokeAccessGrant { access_grant: ctx.access_grant.clone().unwrap(), grantor: key(1) };
    revoke_access_grant(&mut revoke).unwrap();
    let revoked = revoke.access_grant;
    ctx.access_grant = Some(revoked.clone());
    assert_eq!(
        grant_access(&mut ctx, key(31), String::from("audit"), 9_000, 0, 1_001),
        Err(LedgerError::AddressInUse)
    );
    let kept = ctx.access_grant.unwrap();
    assert!(kept.revoked);
    assert_eq!(kept.expires_at, 1_100);
    assert_eq!(kept.grantee, key(30));
    assert_eq!(kept.field_mask, 7);
    assert_eq!(kept, revoked);
}
