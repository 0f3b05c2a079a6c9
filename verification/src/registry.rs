//! The three registries: identities, credentials and access grants.
//!
//! A registry holds the records of one kind by address, under one program
//! id. Creating a record derives its address from the fields that identify
//! it; every other operation names the record by its address. A recovered
//! identity stays at the address derived from its first owner.
//!
//! A creation checks the strings that enter the address before it derives
//! it, so that one that is too long is reported as such. Then the address
//! decides: without one nothing is created, and at a taken one the record
//! that lives there stays. The rest of the record's rules come last.

use crate::address::{
    access_grant_address, access_seeds, access_tag, byte_len, credential_address,
    credential_seeds, credential_tag, derived_view, identity_address, identity_seeds,
    identity_tag, program_address, seed_pieces, seed_pieces_are_short, text_bytes, text_len,
    Pubkey, MAX_SEEDS, MAX_SEED_LEN,
};
use crate::credential_vault::{
    grant_access, grant_outcome, issue_credential, issue_outcome, revoke_access_grant,
    revoke_credential, revoke_grant_outcome, revoke_outcome, time_view, verify_credential,
    verify_outcome, AccessGrantAccount, AccessGrantView, CredentialAccount, CredentialError,
    CredentialView, GrantAccess, IssueCredential, RevokeAccessGrant, RevokeCredential,
    VerifyCredential, MAX_DID_LEN, MAX_PURPOSE_LEN, MAX_TYPE_LEN,
};
use crate::identity_core::{
    bit_toggling_is_idempotent, clear_bit_outcome, clear_verification_bit, create_identity,
    create_outcome, recover_identity, recover_outcome, set_bit_outcome, set_verification_bit,
    update_commitment, update_outcome, ClearVerificationBit, CreateIdentity, IdentityAccount,
    IdentityError, IdentityView, RecoverIdentity, SetVerificationBit, UpdateCommitment,
    RECOVERY_PERIOD, VERIFICATION_BIT_COUNT,
};
use crate::ledger::{
    change, inspect, keeps, keeps_addresses, keeps_is_a_preorder, place, Ledger, LedgerError,
};
use vstd::prelude::*;

verus! {

/// The identities by address.
pub type Identities = Map<Seq<u8>, IdentityView>;

/// The credentials by address.
pub type Credentials = Map<Seq<u8>, CredentialView>;

/// The access grants by address.
pub type AccessGrants = Map<Seq<u8>, AccessGrantView>;

/// What creating an identity at the derived address gives.
pub open spec fn create_at_step(
    ledger: Identities,
    derived: Option<(Seq<u8>, u8)>,
    owner: Seq<u8>,
    commitment: Seq<u8>,
    metadata_uri: Seq<char>,
    now: int,
) -> (Identities, Result<(), LedgerError<IdentityError>>) {
    place(ledger, derived, |bump: u8| create_outcome(owner, commitment, metadata_uri, now, bump))
}

/// What creating the identity of `owner` gives: its address is derived from
/// the owner's key.
pub open spec fn create_step(
    ledger: Identities,
    program_id: Seq<u8>,
    owner: Seq<u8>,
    commitment: Seq<u8>,
    metadata_uri: Seq<char>,
    now: int,
) -> (Identities, Result<(), LedgerError<IdentityError>>) {
    create_at_step(
        ledger,
        program_address(identity_seeds(owner), program_id),
        owner,
        commitment,
        metadata_uri,
        now,
    )
}

/// What rotating the commitment of the identity at `identity` gives.
pub open spec fn rotate_step(ledger: Identities, identity: Seq<u8>, commitment: Seq<u8>, now: int)
    -> (Identities, Result<(), LedgerError<IdentityError>>) {
    change(ledger, identity, |record: IdentityView| update_outcome(record, commitment, now))
}

/// What setting a verifier bit of the identity at `identity` gives.
pub open spec fn set_bit_step(ledger: Identities, identity: Seq<u8>, bit_index: u8) -> (
    Identities,
    Result<(), LedgerError<IdentityError>>,
) {
    change(ledger, identity, |record: IdentityView| set_bit_outcome(record, bit_index))
}

/// What clearing a verifier bit of the identity at `identity` gives.
pub open spec fn clear_bit_step(ledger: Identities, identity: Seq<u8>, bit_index: u8) -> (
    Identities,
    Result<(), LedgerError<IdentityError>>,
) {
    change(ledger, identity, |record: IdentityView| clear_bit_outcome(record, bit_index))
}

/// What recovering the identity at `identity` gives.
pub open spec fn recover_step(ledger: Identities, identity: Seq<u8>, new_owner: Seq<u8>, now: int)
    -> (Identities, Result<(), LedgerError<IdentityError>>) {
    change(ledger, identity, |record: IdentityView| recover_outcome(record, new_owner, now))
}

/// What issuing a credential at the derived address gives.
pub open spec fn issue_at_step(
    ledger: Credentials,
    derived: Option<(Seq<u8>, u8)>,
    owner: Seq<u8>,
    credential_type: Seq<char>,
    claims_hash: Seq<u8>,
    issuer_did: Seq<char>,
    expiry: Option<int>,
    metadata_uri: Seq<char>,
    now: int,
) -> (Credentials, Result<(), LedgerError<CredentialError>>) {
    place(
        ledger,
        derived,
        |bump: u8|
            issue_outcome(
                owner,
                credential_type,
                claims_hash,
                issuer_did,
                expiry,
                metadata_uri,
                now,
                bump,
            ),
    )
}

/// What issuing a credential gives. The credential type and the issuer are
/// checked first, and one that is too long is reported. Then the address is
/// derived from the owner, the credential type and the issuer.
pub open spec fn issue_step(
    ledger: Credentials,
    program_id: Seq<u8>,
    owner: Seq<u8>,
    credential_type: Seq<char>,
    claims_hash: Seq<u8>,
    issuer_did: Seq<char>,
    expiry: Option<int>,
    metadata_uri: Seq<char>,
    now: int,
) -> (Credentials, Result<(), LedgerError<CredentialError>>) {
    if byte_len(credential_type) > MAX_TYPE_LEN {
        (ledger, Err(LedgerError::Rejected(CredentialError::TypeTooLong)))
    } else if byte_len(issuer_did) > MAX_DID_LEN {
        (ledger, Err(LedgerError::Rejected(CredentialError::DidTooLong)))
    } else {
        issue_at_step(
            ledger,
            program_address(credential_seeds(owner, credential_type, issuer_did), program_id),
            owner,
            credential_type,
            claims_hash,
            issuer_did,
            expiry,
            metadata_uri,
            now,
        )
    }
}

/// What revoking the credential at `credential` gives.
pub open spec fn revoke_step(ledger: Credentials, credential: Seq<u8>, reason: Seq<char>) -> (
    Credentials,
    Result<(), LedgerError<CredentialError>>,
) {
    change(ledger, credential, |record: CredentialView| revoke_outcome(record, reason))
}

/// What verifying the credential at `credential` gives.
pub open spec fn verify_step(
    ledger: Credentials,
    credential: Seq<u8>,
    expected_hash: Seq<u8>,
    now: int,
) -> Result<(), LedgerError<CredentialError>> {
    inspect(ledger, credential, |record: CredentialView| verify_outcome(record, expected_hash, now))
}

/// What making a grant at the derived address gives.
pub open spec fn grant_at_step(
    ledger: AccessGrants,
    derived: Option<(Seq<u8>, u8)>,
    credential: Seq<u8>,
    grantor: Seq<u8>,
    grantee: Seq<u8>,
    purpose: Seq<char>,
    expires_at: int,
    field_mask: u64,
    now: int,
) -> (AccessGrants, Result<(), LedgerError<CredentialError>>) {
    place(
        ledger,
        derived,
        |bump: u8|
            grant_outcome(credential, grantor, grantee, purpose, expires_at, field_mask, now, bump),
    )
}

/// What making a grant gives. The purpose is checked first, and one that is
/// too long is reported. Then the address is derived from the credential's
/// address, the grantor and the purpose.
pub open spec fn grant_step(
    ledger: AccessGrants,
    program_id: Seq<u8>,
    credential: Seq<u8>,
    grantor: Seq<u8>,
    grantee: Seq<u8>,
    purpose: Seq<char>,
    expires_at: int,
    field_mask: u64,
    now: int,
) -> (AccessGrants, Result<(), LedgerError<CredentialError>>) {
    if byte_len(purpose) > MAX_PURPOSE_LEN {
        (ledger, Err(LedgerError::Rejected(CredentialError::PurposeTooLong)))
    } else {
        grant_at_step(
            ledger,
            program_address(access_seeds(credential, grantor, purpose), program_id),
            credential,
            grantor,
            grantee,
            purpose,
            expires_at,
            field_mask,
            now,
        )
    }
}

/// What revoking the grant at `grant` gives.
pub open spec fn revoke_grant_step(ledger: AccessGrants, grant: Seq<u8>) -> (
    AccessGrants,
    Result<(), LedgerError<CredentialError>>,
) {
    change(ledger, grant, |record: AccessGrantView| revoke_grant_outcome(record))
}

/// The result of a registry operation, from that of the record's transition.
fn lifted<E>(result: Result<(), E>) -> (lifted: Result<(), LedgerError<E>>)
    ensures
        lifted == match result {
            Ok(()) => Ok::<(), LedgerError<E>>(()),
            Err(error) => Err::<(), LedgerError<E>>(LedgerError::Rejected(error)),
        },
{
    match result {
        Ok(()) => Ok(()),
        Err(error) => Err(LedgerError::Rejected(error)),
    }
}

/// The identity records of one program.
pub struct IdentityRegistry {
    program_id: Pubkey,
    accounts: Ledger<IdentityAccount>,
}

impl IdentityRegistry {
    /// The registry holds at most one record per address.
    pub closed spec fn wf(&self) -> bool {
        self.accounts.wf()
    }

    /// The identities by address.
    pub closed spec fn view(&self) -> Identities {
        self.accounts@
    }

    /// The id of the program that the addresses are derived under.
    pub closed spec fn program(&self) -> Seq<u8> {
        self.program_id@
    }

    /// An empty registry under `program_id`.
    pub fn new(program_id: Pubkey) -> (registry: IdentityRegistry)
        ensures
            registry.wf(),
            registry@ == Identities::empty(),
            registry.program() == program_id@,
    {
        IdentityRegistry { program_id, accounts: Ledger::new() }
    }

    /// The id of the program that the addresses are derived under.
    pub fn program_id(&self) -> (program_id: Pubkey)
        ensures
            program_id@ == self.program(),
    {
        self.program_id
    }

    /// The number of records.
    pub fn len(&self) -> (n: usize)
        requires
            self.wf(),
        ensures
            self@.dom().finite(),
            n == self@.dom().len(),
    {
        self.accounts.len()
    }

    /// The identity at `identity`, if there is one.
    pub fn get(&self, identity: &Pubkey) -> (found: Option<&IdentityAccount>)
        requires
            self.wf(),
        ensures
            match found {
                Some(record) => self@.dom().contains(identity@) && record@ == self@[identity@],
                None => !self@.dom().contains(identity@),
            },
    {
        self.accounts.get(identity)
    }

    /// Creates the identity of `owner` at the address derived from the
    /// owner's key.
    pub fn create(
        &mut self,
        payer: Pubkey,
        owner: Pubkey,
        commitment: [u8; 32],
        metadata_uri: String,
        now: i64,
    ) -> (result: Result<(), LedgerError<IdentityError>>)
        requires
            old(self).wf(),
        ensures
            final(self).wf(),
            final(self).program() == old(self).program(),
            (final(self)@, result) == create_step(
                old(self)@,
                old(self).program(),
                owner@,
                commitment@,
                metadata_uri@,
                now as int,
            ),
    {
        let derived = identity_address(&owner, &self.program_id);
        self.create_at(derived, payer, owner, commitment, metadata_uri, now)
    }

    /// Creates the identity of `owner` at the address `derived`.
    pub fn create_at(
        &mut self,
        derived: Option<(Pubkey, u8)>,
        payer: Pubkey,
        owner: Pubkey,
        commitment: [u8; 32],
        metadata_uri: String,
        now: i64,
    ) -> (result: Result<(), LedgerError<IdentityError>>)
        requires
            old(self).wf(),
        ensures
            final(self).wf(),
            final(self).program() == old(self).program(),
            (final(self)@, result) == create_at_step(
                old(self)@,
                derived_view(derived),
                owner@,
                commitment@,
                metadata_uri@,
                now as int,
            ),
    {
        match derived {
            None => Err(LedgerError::AddressNotDerivable),
            Some((address, bump)) => {
                let slot = self.accounts.remove(&address);
                let mut ctx = CreateIdentity { identity: slot, bump, payer };
                let result = create_identity(&mut ctx, owner, commitment, metadata_uri, now);
                match ctx.identity {
                    Some(record) => self.accounts.insert(address, record),
                    None => {},
                }
                assert(self.accounts@ =~= create_at_step(
                    old(self)@,
                    derived_view(derived),
                    owner@,
                    commitment@,
                    metadata_uri@,
                    now as int,
                ).0);
                result
            },
        }
    }

    /// Replaces the commitment of the identity at `identity`.
    pub fn rotate_commitment(
        &mut self,
        identity: &Pubkey,
        authority: Pubkey,
        new_commitment: [u8; 32],
        now: i64,
    ) -> (result: Result<(), LedgerError<IdentityError>>)
        requires
            old(self).wf(),
        ensures
            final(self).wf(),
            final(self).program() == old(self).program(),
            (final(self)@, result) == rotate_step(
                old(self)@,
                identity@,
                new_commitment@,
                now as int,
            ),
    {
        match self.accounts.remove(identity) {
            None => Err(LedgerError::AccountNotFound),
            Some(record) => {
                let mut ctx = UpdateCommitment { identity: record, authority };
                let result = update_commitment(&mut ctx, new_commitment, now);
                self.accounts.insert(*identity, ctx.identity);
                assert(self.accounts@ =~= rotate_step(
                    old(self)@,
                    identity@,
                    new_commitment@,
                    now as int,
                ).0);
                lifted(result)
            },
        }
    }

    /// Sets verifier bit `bit_index` of the identity at `identity`.
    pub fn set_verification_bit(
        &mut self,
        identity: &Pubkey,
        verifier: Pubkey,
        bit_index: u8,
    ) -> (result: Result<(), LedgerError<IdentityError>>)
        requires
            old(self).wf(),
        ensures
            final(self).wf(),
            final(self).program() == old(self).program(),
            (final(self)@, result) == set_bit_step(old(self)@, identity@, bit_index),
    {
        match self.accounts.remove(identity) {
            None => Err(LedgerError::AccountNotFound),
            Some(record) => {
                let mut ctx = SetVerificationBit { identity: record, verifier };
                let result = set_verification_bit(&mut ctx, bit_index);
                self.accounts.insert(*identity, ctx.identity);
                assert(self.accounts@ =~= set_bit_step(old(self)@, identity@, bit_index).0);
                lifted(result)
            },
        }
    }

    /// Clears verifier bit `bit_index` of the identity at `identity`.
    pub fn clear_verification_bit(
        &mut self,
        identity: &Pubkey,
        authority: Pubkey,
        bit_index: u8,
    ) -> (result: Result<(), LedgerError<IdentityError>>)
        requires
            old(self).wf(),
        ensures
            final(self).wf(),
            final(self).program() == old(self).program(),
            (final(self)@, result) == clear_bit_step(old(self)@, identity@, bit_index),
    {
        match self.accounts.remove(identity) {
            None => Err(LedgerError::AccountNotFound),
            Some(record) => {
                let mut ctx = ClearVerificationBit { identity: record, authority };
                let result = clear_verification_bit(&mut ctx, bit_index);
                self.accounts.insert(*identity, ctx.identity);
                assert(self.accounts@ =~= clear_bit_step(old(self)@, identity@, bit_index).0);
                lifted(result)
            },
        }
    }

    /// Hands the identity at `identity` to `new_owner`, once the recovery
    /// period has passed since its last update. The record stays at its
    /// address. A recovery that is due needs room in the counter; one that
    /// comes too early is refused whatever the counter holds.
    pub fn recover(
        &mut self,
        identity: &Pubkey,
        authority: Pubkey,
        new_owner: Pubkey,
        now: i64,
    ) -> (result: Result<(), LedgerError<IdentityError>>)
        requires
            old(self).wf(),
            old(self)@.dom().contains(identity@) && now - old(self)@[identity@].updated_at
                >= RECOVERY_PERIOD ==> old(self)@[identity@].recovery_counter < u64::MAX,
        ensures
            final(self).wf(),
            final(self).program() == old(self).program(),
            (final(self)@, result) == recover_step(old(self)@, identity@, new_owner@, now as int),
    {
        match self.accounts.remove(identity) {
            None => Err(LedgerError::AccountNotFound),
            Some(record) => {
                let mut ctx = RecoverIdentity { identity: record, authority };
                let result = recover_identity(&mut ctx, new_owner, now);
                self.accounts.insert(*identity, ctx.identity);
                assert(self.accounts@ =~= recover_step(
                    old(self)@,
                    identity@,
                    new_owner@,
                    now as int,
                ).0);
                lifted(result)
            },
        }
    }
}

/// The credential records of one program.
pub struct CredentialRegistry {
    program_id: Pubkey,
    accounts: Ledger<CredentialAccount>,
}

impl CredentialRegistry {
    /// The registry holds at most one record per address.
    pub closed spec fn wf(&self) -> bool {
        self.accounts.wf()
    }

    /// The credentials by address.
    pub closed spec fn view(&self) -> Credentials {
        self.accounts@
    }

    /// The id of the program that the addresses are derived under.
    pub closed spec fn program(&self) -> Seq<u8> {
        self.program_id@
    }

    /// An empty registry under `program_id`.
    pub fn new(program_id: Pubkey) -> (registry: CredentialRegistry)
        ensures
            registry.wf(),
            registry@ == Credentials::empty(),
            registry.program() == program_id@,
    {
        CredentialRegistry { program_id, accounts: Ledger::new() }
    }

    /// The id of the program that the addresses are derived under.
    pub fn program_id(&self) -> (program_id: Pubkey)
        ensures
            program_id@ == self.program(),
    {
        self.program_id
    }

    /// The number of records.
    pub fn len(&self) -> (n: usize)
        requires
            self.wf(),
        ensures
            self@.dom().finite(),
            n == self@.dom().len(),
    {
        self.accounts.len()
    }

    /// The credential at `credential`, if there is one.
    pub fn get(&self, credential: &Pubkey) -> (found: Option<&CredentialAccount>)
        requires
            self.wf(),
        ensures
            match found {
                Some(record) => self@.dom().contains(credential@) && record@ == self@[credential@],
                None => !self@.dom().contains(credential@),
            },
    {
        self.accounts.get(credential)
    }

    /// Issues a credential to `owner` at the address derived from the owner,
    /// the credential type and the issuer. A type or an issuer over its
    /// limit is refused before any address is derived.
    pub fn issue(
        &mut self,
        payer: Pubkey,
        owner: Pubkey,
        credential_type: String,
        claims_hash: [u8; 32],
        issuer_did: String,
        expiry: Option<i64>,
        metadata_uri: String,
        now: i64,
    ) -> (result: Result<(), LedgerError<CredentialError>>)
        requires
            old(self).wf(),
        ensures
            final(self).wf(),
            final(self).program() == old(self).program(),
            (final(self)@, result) == issue_step(
                old(self)@,
                old(self).program(),
                owner@,
                credential_type@,
                claims_hash@,
                issuer_did@,
                time_view(expiry),
                metadata_uri@,
                now as int,
            ),
    {
        if text_len(credential_type.as_str()) > MAX_TYPE_LEN {
            return Err(LedgerError::Rejected(CredentialError::TypeTooLong));
        }
        if text_len(issuer_did.as_str()) > MAX_DID_LEN {
            return Err(LedgerError::Rejected(CredentialError::DidTooLong));
        }
        let derived = credential_address(
            &owner,
            credential_type.as_str(),
            issuer_did.as_str(),
            &self.program_id,
        );
        self.issue_at(
            derived,
            payer,
            owner,
            credential_type,
            claims_hash,
            issuer_did,
            expiry,
            metadata_uri,
            now,
        )
    }

    /// Issues a credential to `owner` at the address `derived`.
    pub fn issue_at(
        &mut self,
        derived: Option<(Pubkey, u8)>,
        payer: Pubkey,
        owner: Pubkey,
        credential_type: String,
        claims_hash: [u8; 32],
        issuer_did: String,
        expiry: Option<i64>,
        metadata_uri: String,
        now: i64,
    ) -> (result: Result<(), LedgerError<CredentialError>>)
        requires
            old(self).wf(),
        ensures
            final(self).wf(),
            final(self).program() == old(self).program(),
            (final(self)@, result) == issue_at_step(
                old(self)@,
                derived_view(derived),
                owner@,
                credential_type@,
                claims_hash@,
                issuer_did@,
                time_view(expiry),
                metadata_uri@,
                now as int,
            ),
    {
        match derived {
            None => Err(LedgerError::AddressNotDerivable),
            Some((address, bump)) => {
                let ghost credential_type_text = credential_type@;
                let ghost issuer_did_text = issuer_did@;
                let ghost metadata_uri_text = metadata_uri@;
                let slot = self.accounts.remove(&address);
                let mut ctx = IssueCredential { credential: slot, bump, owner, payer };
                let result = issue_credential(
                    &mut ctx,
                    credential_type,
                    claims_hash,
                    issuer_did,
                    expiry,
                    metadata_uri,
                    now,
                );
                match ctx.credential {
                    Some(record) => self.accounts.insert(address, record),
                    None => {},
                }
                assert(self.accounts@ =~= issue_at_step(
                    old(self)@,
                    derived_view(derived),
                    owner@,
                    credential_type_text,
                    claims_hash@,
                    issuer_did_text,
                    time_view(expiry),
                    metadata_uri_text,
                    now as int,
                ).0);
                result
            },
        }
    }

    /// Revokes the credential at `credential` for `reason`.
    pub fn revoke(&mut self, credential: &Pubkey, issuer: Pubkey, reason: String) -> (result:
        Result<(), LedgerError<CredentialError>>)
        requires
            old(self).wf(),
        ensures
            final(self).wf(),
            final(self).program() == old(self).program(),
            (final(self)@, result) == revoke_step(old(self)@, credential@, reason@),
    {
        match self.accounts.remove(credential) {
            None => Err(LedgerError::AccountNotFound),
            Some(record) => {
                let ghost reason_text = reason@;
                let mut ctx = RevokeCredential { credential: record, issuer };
                let result = revoke_credential(&mut ctx, reason);
                self.accounts.insert(*credential, ctx.credential);
                assert(self.accounts@ =~= revoke_step(old(self)@, credential@, reason_text).0);
                lifted(result)
            },
        }
    }

    /// Verifies the credential at `credential` against `expected_hash` at
    /// `now`. The registry is only read.
    pub fn verify(&self, credential: &Pubkey, expected_hash: [u8; 32], now: i64) -> (result: Result<
        (),
        LedgerError<CredentialError>,
    >)
        requires
            self.wf(),
        ensures
            result == verify_step(self@, credential@, expected_hash@, now as int),
    {
        match self.accounts.get(credential) {
            None => Err(LedgerError::AccountNotFound),
            Some(record) => {
                let ctx = VerifyCredential { credential: record };
                lifted(verify_credential(&ctx, expected_hash, now))
            },
        }
    }
}

/// The access grants of one program.
pub struct AccessGrantRegistry {
    program_id: Pubkey,
    accounts: Ledger<AccessGrantAccount>,
}

impl AccessGrantRegistry {
    /// The registry holds at most one record per address.
    pub closed spec fn wf(&self) -> bool {
        self.accounts.wf()
    }

    /// The access grants by address.
    pub closed spec fn view(&self) -> AccessGrants {
        self.accounts@
    }

    /// The id of the program that the addresses are derived under.
    pub closed spec fn program(&self) -> Seq<u8> {
        self.program_id@
    }

    /// An empty registry under `program_id`.
    pub fn new(program_id: Pubkey) -> (registry: AccessGrantRegistry)
        ensures
            registry.wf(),
            registry@ == AccessGrants::empty(),
            registry.program() == program_id@,
    {
        AccessGrantRegistry { program_id, accounts: Ledger::new() }
    }

    /// The id of the program that the addresses are derived under.
    pub fn program_id(&self) -> (program_id: Pubkey)
        ensures
            program_id@ == self.program(),
    {
        self.program_id
    }

    /// The number of records.
    pub fn len(&self) -> (n: usize)
        requires
            self.wf(),
        ensures
            self@.dom().finite(),
            n == self@.dom().len(),
    {
        self.accounts.len()
    }

    /// The grant at `grant`, if there is one.
    pub fn get(&self, grant: &Pubkey) -> (found: Option<&AccessGrantAccount>)
        requires
            self.wf(),
        ensures
            match found {
                Some(record) => self@.dom().contains(grant@) && record@ == self@[grant@],
                None => !self@.dom().contains(grant@),
            },
    {
        self.accounts.get(grant)
    }

    /// Grants `grantee` access to the credential at `credential`, at the
    /// address derived from the credential's address, the grantor and the
    /// purpose. The credential itself is not looked up. A purpose over its
    /// limit is refused before any address is derived.
    pub fn grant(
        &mut self,
        payer: Pubkey,
        credential: Pubkey,
        grantor: Pubkey,
        grantee: Pubkey,
        purpose: String,
        expires_at: i64,
        field_mask: u64,
        now: i64,
    ) -> (result: Result<(), LedgerError<CredentialError>>)
        requires
            old(self).wf(),
        ensures
            final(self).wf(),
            final(self).program() == old(self).program(),
            (final(self)@, result) == grant_step(
                old(self)@,
                old(self).program(),
                credential@,
                grantor@,
                grantee@,
                purpose@,
                expires_at as int,
                field_mask,
                now as int,
            ),
    {
        if text_len(purpose.as_str()) > MAX_PURPOSE_LEN {
            return Err(LedgerError::Rejected(CredentialError::PurposeTooLong));
        }
        let derived = access_grant_address(
            &credential,
            &grantor,
            purpose.as_str(),
            &self.program_id,
        );
        self.grant_at(
            derived,
            payer,
            credential,
            grantor,
            grantee,
            purpose,
            expires_at,
            field_mask,
            now,
        )
    }

    /// Grants `grantee` access to the credential at `credential`, at the
    /// address `derived`.
    pub fn grant_at(
        &mut self,
        derived: Option<(Pubkey, u8)>,
        payer: Pubkey,
        credential: Pubkey,
        grantor: Pubkey,
        grantee: Pubkey,
        purpose: String,
        expires_at: i64,
        field_mask: u64,
        now: i64,
    ) -> (result: Result<(), LedgerError<CredentialError>>)
        requires
            old(self).wf(),
        ensures
            final(self).wf(),
            final(self).program() == old(self).program(),
            (final(self)@, result) == grant_at_step(
                old(self)@,
                derived_view(derived),
                credential@,
                grantor@,
                grantee@,
                purpose@,
                expires_at as int,
                field_mask,
                now as int,
            ),
    {
        match derived {
            None => Err(LedgerError::AddressNotDerivable),
            Some((address, bump)) => {
                let ghost purpose_text = purpose@;
                let slot = self.accounts.remove(&address);
                let mut ctx = GrantAccess {
                    credential,
                    owner: grantor,
                    access_grant: slot,
                    bump,
                    payer,
                };
                let result = grant_access(&mut ctx, grantee, purpose, expires_at, field_mask, now);
                match ctx.access_grant {
                    Some(record) => self.accounts.insert(address, record),
                    None => {},
                }
                assert(self.accounts@ =~= grant_at_step(
                    old(self)@,
                    derived_view(derived),
                    credential@,
                    grantor@,
                    grantee@,
                    purpose_text,
                    expires_at as int,
                    field_mask,
                    now as int,
                ).0);
                result
            },
        }
    }

    /// Revokes the grant at `grant`.
    pub fn revoke(&mut self, grant: &Pubkey, grantor: Pubkey) -> (result: Result<
        (),
        LedgerError<CredentialError>,
    >)
        requires
            old(self).wf(),
        ensures
            final(self).wf(),
            final(self).program() == old(self).program(),
            (final(self)@, result) == revoke_grant_step(old(self)@, grant@),
    {
        match self.accounts.remove(grant) {
            None => Err(LedgerError::AccountNotFound),
            Some(record) => {
                let mut ctx = RevokeAccessGrant { access_grant: record, grantor };
                let result = revoke_access_grant(&mut ctx);
                self.accounts.insert(*grant, ctx.access_grant);
                assert(self.accounts@ =~= revoke_grant_step(old(self)@, grant@).0);
                lifted(result)
            },
        }
    }
}

/// Every credential that is revoked in `before` is there, and revoked, in
/// `after`.
pub open spec fn keeps_revoked_credentials(before: Credentials, after: Credentials) -> bool {
    keeps(before, after, |record: CredentialView| record.revoked)
}

/// Every grant that is revoked in `before` is there, and revoked, in `after`.
pub open spec fn keeps_revoked_grants(before: AccessGrants, after: AccessGrants) -> bool {
    keeps(before, after, |record: AccessGrantView| record.revoked)
}

/// No operation of the identity registry removes a record or moves it: after
/// every operation each address that was taken is taken.
pub proof fn identity_operations_keep_addresses(
    ledger: Identities,
    derived: Option<(Seq<u8>, u8)>,
    identity: Seq<u8>,
    key: Seq<u8>,
    commitment: Seq<u8>,
    metadata_uri: Seq<char>,
    bit_index: u8,
    now: int,
)
    ensures
        keeps_addresses(
            ledger,
            create_at_step(ledger, derived, key, commitment, metadata_uri, now).0,
        ),
        keeps_addresses(ledger, rotate_step(ledger, identity, commitment, now).0),
        keeps_addresses(ledger, set_bit_step(ledger, identity, bit_index).0),
        keeps_addresses(ledger, clear_bit_step(ledger, identity, bit_index).0),
        keeps_addresses(ledger, recover_step(ledger, identity, key, now).0),
{
}

/// No operation of the credential registry removes a record, and none takes
/// a revocation back: a credential that is revoked stays revoked.
pub proof fn credential_revocation_is_final(
    ledger: Credentials,
    derived: Option<(Seq<u8>, u8)>,
    credential: Seq<u8>,
    owner: Seq<u8>,
    credential_type: Seq<char>,
    claims_hash: Seq<u8>,
    issuer_did: Seq<char>,
    expiry: Option<int>,
    metadata_uri: Seq<char>,
    reason: Seq<char>,
    now: int,
)
    ensures
        ({
            let issued = issue_at_step(
                ledger,
                derived,
                owner,
                credential_type,
                claims_hash,
                issuer_did,
                expiry,
                metadata_uri,
                now,
            ).0;
            let revoked = revoke_step(ledger, credential, reason).0;
            &&& keeps_addresses(ledger, issued)
            &&& keeps_addresses(ledger, revoked)
            &&& keeps_revoked_credentials(ledger, issued)
            &&& keeps_revoked_credentials(ledger, revoked)
            &&& revoke_step(ledger, credential, reason).1 is Ok ==> revoked[credential].revoked
        }),
{
}

/// No operation of the access grant registry removes a record, none takes a
/// revocation back, and none changes when a grant expires.
pub proof fn grant_revocation_is_final(
    ledger: AccessGrants,
    derived: Option<(Seq<u8>, u8)>,
    grant: Seq<u8>,
    credential: Seq<u8>,
    grantor: Seq<u8>,
    grantee: Seq<u8>,
    purpose: Seq<char>,
    expires_at: int,
    field_mask: u64,
    now: int,
    other: Seq<u8>,
)
    ensures
        ({
            let granted = grant_at_step(
                ledger,
                derived,
                credential,
                grantor,
                grantee,
                purpose,
                expires_at,
                field_mask,
                now,
            ).0;
            let revoked = revoke_grant_step(ledger, grant).0;
            &&& keeps_addresses(ledger, granted)
            &&& keeps_addresses(ledger, revoked)
            &&& keeps_revoked_grants(ledger, granted)
            &&& keeps_revoked_grants(ledger, revoked)
            &&& revoke_grant_step(ledger, grant).1 is Ok ==> revoked[grant].revoked
            &&& ledger.dom().contains(other) ==> granted[other].expires_at
                == ledger[other].expires_at && revoked[other].expires_at
                == ledger[other].expires_at
        }),
{
}

/// What is revoked in one ledger and kept to a second, and kept from there
/// to a third, is revoked in the third: a revocation survives every run of
/// operations.
pub proof fn revocation_survives_runs(
    first: Credentials,
    second: Credentials,
    third: Credentials,
    first_grants: AccessGrants,
    second_grants: AccessGrants,
    third_grants: AccessGrants,
)
    requires
        keeps_revoked_credentials(first, second),
        keeps_revoked_credentials(second, third),
        keeps_revoked_grants(first_grants, second_grants),
        keeps_revoked_grants(second_grants, third_grants),
    ensures
        keeps_revoked_credentials(first, third),
        keeps_revoked_grants(first_grants, third_grants),
{
    keeps_is_a_preorder(first, second, third, |record: CredentialView| record.revoked);
    keeps_is_a_preorder(
        first_grants,
        second_grants,
        third_grants,
        |record: AccessGrantView| record.revoked,
    );
}

/// Once an identity was created for an owner, every later creation for that
/// owner fails with `AddressInUse`, whatever else it brings and whatever
/// operations came in between.
pub proof fn creating_twice_is_refused(
    ledger: Identities,
    program_id: Seq<u8>,
    owner: Seq<u8>,
    first_commitment: Seq<u8>,
    first_uri: Seq<char>,
    first_now: int,
    later: Identities,
    second_commitment: Seq<u8>,
    second_uri: Seq<char>,
    second_now: int,
)
    requires
        create_step(ledger, program_id, owner, first_commitment, first_uri, first_now).1 is Ok,
        keeps_addresses(
            create_step(ledger, program_id, owner, first_commitment, first_uri, first_now).0,
            later,
        ),
    ensures
        create_step(later, program_id, owner, second_commitment, second_uri, second_now) == (
            later,
            Err::<(), LedgerError<IdentityError>>(LedgerError::AddressInUse),
        ),
{
    let derived = program_address(identity_seeds(owner), program_id);
    let created = create_step(ledger, program_id, owner, first_commitment, first_uri, first_now).0;
    assert(created.dom().contains(derived->Some_0.0));
}

/// Once a credential was issued for an owner, a credential type and an
/// issuer, every later issuance for the same three fails with
/// `AddressInUse`, whatever claims hash, expiry or URI it brings and whatever
/// operations came in between.
pub proof fn issuing_twice_is_refused(
    ledger: Credentials,
    program_id: Seq<u8>,
    owner: Seq<u8>,
    credential_type: Seq<char>,
    issuer_did: Seq<char>,
    first_hash: Seq<u8>,
    first_expiry: Option<int>,
    first_uri: Seq<char>,
    first_now: int,
    later: Credentials,
    second_hash: Seq<u8>,
    second_expiry: Option<int>,
    second_uri: Seq<char>,
    second_now: int,
)
    requires
        issue_step(
            ledger,
            program_id,
            owner,
            credential_type,
            first_hash,
            issuer_did,
            first_expiry,
            first_uri,
            first_now,
        ).1 is Ok,
        keeps_addresses(
            issue_step(
                ledger,
                program_id,
                owner,
                credential_type,
                first_hash,
                issuer_did,
                first_expiry,
                first_uri,
                first_now,
            ).0,
            later,
        ),
    ensures
        issue_step(
            later,
            program_id,
            owner,
            credential_type,
            second_hash,
            issuer_did,
            second_expiry,
            second_uri,
            second_now,
        ) == (later, Err::<(), LedgerError<CredentialError>>(LedgerError::AddressInUse)),
{
    let derived = program_address(credential_seeds(owner, credential_type, issuer_did), program_id);
    let issued = issue_step(
        ledger,
        program_id,
        owner,
        credential_type,
        first_hash,
        issuer_did,
        first_expiry,
        first_uri,
        first_now,
    ).0;
    assert(issued.dom().contains(derived->Some_0.0));
}

/// Once a grant was made on a credential by a grantor for a purpose, every
/// later grant for the same three fails with `AddressInUse`, whoever the
/// grantee and whatever operations came in between.
pub proof fn granting_twice_is_refused(
    ledger: AccessGrants,
    program_id: Seq<u8>,
    credential: Seq<u8>,
    grantor: Seq<u8>,
    purpose: Seq<char>,
    first_grantee: Seq<u8>,
    first_expires_at: int,
    first_mask: u64,
    first_now: int,
    later: AccessGrants,
    second_grantee: Seq<u8>,
    second_expires_at: int,
    second_mask: u64,
    second_now: int,
)
    requires
        grant_step(
            ledger,
            program_id,
            credential,
            grantor,
            first_grantee,
            purpose,
            first_expires_at,
            first_mask,
            first_now,
        ).1 is Ok,
        keeps_addresses(
            grant_step(
                ledger,
                program_id,
                credential,
                grantor,
                first_grantee,
                purpose,
                first_expires_at,
                first_mask,
                first_now,
            ).0,
            later,
        ),
    ensures
        grant_step(
            later,
            program_id,
            credential,
            grantor,
            second_grantee,
            purpose,
            second_expires_at,
            second_mask,
            second_now,
        ) == (later, Err::<(), LedgerError<CredentialError>>(LedgerError::AddressInUse)),
{
    let derived = program_address(access_seeds(credential, grantor, purpose), program_id);
    let granted = grant_step(
        ledger,
        program_id,
        credential,
        grantor,
        first_grantee,
        purpose,
        first_expires_at,
        first_mask,
        first_now,
    ).0;
    assert(granted.dom().contains(derived->Some_0.0));
}

/// Setting a bit of an identity twice leaves the registry as setting it
/// once, and so does clearing it twice.
pub proof fn toggling_twice_changes_nothing(ledger: Identities, identity: Seq<u8>, bit_index: u8)
    ensures
        set_bit_step(set_bit_step(ledger, identity, bit_index).0, identity, bit_index)
            == set_bit_step(ledger, identity, bit_index),
        clear_bit_step(clear_bit_step(ledger, identity, bit_index).0, identity, bit_index)
            == clear_bit_step(ledger, identity, bit_index),
{
    if ledger.dom().contains(identity) && bit_index < VERIFICATION_BIT_COUNT {
        bit_toggling_is_idempotent(ledger[identity], bit_index);
        let set = set_bit_step(ledger, identity, bit_index).0;
        assert(set_bit_step(set, identity, bit_index).0 =~= set);
        let cleared = clear_bit_step(ledger, identity, bit_index).0;
        assert(clear_bit_step(cleared, identity, bit_index).0 =~= cleared);
    }
}

/// Every record of the ledger is well-formed.
pub open spec fn identities_well_formed(ledger: Identities) -> bool {
    forall|address: Seq<u8>| #[trigger]
        ledger.dom().contains(address) ==> ledger[address].wf()
}

/// Every record of the ledger is well-formed.
pub open spec fn credentials_well_formed(ledger: Credentials) -> bool {
    forall|address: Seq<u8>| #[trigger]
        ledger.dom().contains(address) ==> ledger[address].wf()
}

/// Every record of the ledger is well-formed.
pub open spec fn grants_well_formed(ledger: AccessGrants) -> bool {
    forall|address: Seq<u8>| #[trigger]
        ledger.dom().contains(address) ==> ledger[address].wf()
}

/// The operations of the identity registry keep its records well-formed.
pub proof fn identity_operations_keep_records_well_formed(
    ledger: Identities,
    derived: Option<(Seq<u8>, u8)>,
    identity: Seq<u8>,
    key: Seq<u8>,
    commitment: Seq<u8>,
    metadata_uri: Seq<char>,
    bit_index: u8,
    now: int,
)
    requires
        identities_well_formed(ledger),
    ensures
        identities_well_formed(
            create_at_step(ledger, derived, key, commitment, metadata_uri, now).0,
        ),
        identities_well_formed(rotate_step(ledger, identity, commitment, now).0),
        identities_well_formed(set_bit_step(ledger, identity, bit_index).0),
        identities_well_formed(clear_bit_step(ledger, identity, bit_index).0),
        identities_well_formed(recover_step(ledger, identity, key, now).0),
{
    assert(ledger.dom().contains(identity) ==> ledger[identity].wf());
}

/// The operations of the credential registry keep its records well-formed:
/// the strings within their limits, and a reason recorded exactly for the
/// revoked.
pub proof fn credential_operations_keep_records_well_formed(
    ledger: Credentials,
    derived: Option<(Seq<u8>, u8)>,
    credential: Seq<u8>,
    owner: Seq<u8>,
    credential_type: Seq<char>,
    claims_hash: Seq<u8>,
    issuer_did: Seq<char>,
    expiry: Option<int>,
    metadata_uri: Seq<char>,
    reason: Seq<char>,
    now: int,
)
    requires
        credentials_well_formed(ledger),
    ensures
        credentials_well_formed(
            issue_at_step(
                ledger,
                derived,
                owner,
                credential_type,
                claims_hash,
                issuer_did,
                expiry,
                metadata_uri,
                now,
            ).0,
        ),
        credentials_well_formed(revoke_step(ledger, credential, reason).0),
{
    assert(ledger.dom().contains(credential) ==> ledger[credential].wf());
}

/// The operations of the access grant registry keep its records well-formed.
pub proof fn grant_operations_keep_records_well_formed(
    ledger: AccessGrants,
    derived: Option<(Seq<u8>, u8)>,
    grant: Seq<u8>,
    credential: Seq<u8>,
    grantor: Seq<u8>,
    grantee: Seq<u8>,
    purpose: Seq<char>,
    expires_at: int,
    field_mask: u64,
    now: int,
)
    requires
        grants_well_formed(ledger),
    ensures
        grants_well_formed(
            grant_at_step(
                ledger,
                derived,
                credential,
                grantor,
                grantee,
                purpose,
                expires_at,
                field_mask,
                now,
            ).0,
        ),
        grants_well_formed(revoke_grant_step(ledger, grant).0),
{
    assert(ledger.dom().contains(grant) ==> ledger[grant].wf());
}

/// The strings that the limits allow enter the address in seeds that are few
/// and short enough: every seed has at most `MAX_SEED_LEN` bytes, and there
/// are fewer than `MAX_SEEDS` of them.
pub proof fn allowed_strings_fit_the_seeds(
    owner: Seq<u8>,
    credential_type: Seq<char>,
    issuer_did: Seq<char>,
    credential: Seq<u8>,
    grantor: Seq<u8>,
    purpose: Seq<char>,
)
    requires
        owner.len() == 32,
        credential.len() == 32,
        grantor.len() == 32,
        byte_len(credential_type) <= MAX_TYPE_LEN,
        byte_len(issuer_did) <= MAX_DID_LEN,
        byte_len(purpose) <= MAX_PURPOSE_LEN,
    ensures
        identity_seeds(owner).len() == 2,
        credential_seeds(owner, credential_type, issuer_did).len() <= 8 < MAX_SEEDS,
        access_seeds(credential, grantor, purpose).len() <= 10 < MAX_SEEDS,
        forall|i: int|
            0 <= i < 2 ==> (#[trigger] identity_seeds(owner)[i]).len() <= MAX_SEED_LEN,
        forall|i: int|
            0 <= i < credential_seeds(owner, credential_type, issuer_did).len()
                ==> (#[trigger] credential_seeds(owner, credential_type, issuer_did)[i]).len()
                <= MAX_SEED_LEN,
        forall|i: int|
            0 <= i < access_seeds(credential, grantor, purpose).len() ==> (#[trigger] access_seeds(
                credential,
                grantor,
                purpose,
            )[i]).len() <= MAX_SEED_LEN,
{
    reveal_strlit("identity");
    reveal_strlit("credential");
    reveal_strlit("access");
    vstd::utf8::is_ascii_chars_encode_utf8("identity"@);
    vstd::utf8::is_ascii_chars_encode_utf8("credential"@);
    vstd::utf8::is_ascii_chars_encode_utf8("access"@);
    assert(identity_tag().len() == 8);
    assert(credential_tag().len() == 10);
    assert(access_tag().len() == 6);
    let kind = seed_pieces(text_bytes(credential_type));
    let issuer = seed_pieces(text_bytes(issuer_did));
    let aim = seed_pieces(text_bytes(purpose));
    seed_pieces_are_short(text_bytes(credential_type));
    seed_pieces_are_short(text_bytes(issuer_did));
    seed_pieces_are_short(text_bytes(purpose));
    let credential_list = credential_seeds(owner, credential_type, issuer_did);
    assert forall|i: int| 0 <= i < credential_list.len()
        implies (#[trigger] credential_list[i]).len() <= MAX_SEED_LEN by {
        if i >= 2 + kind.len() {
            assert(credential_list[i] == issuer[i - 2 - kind.len()]);
        } else if i >= 2 {
            assert(credential_list[i] == kind[i - 2]);
        }
    }
    let access_list = access_seeds(credential, grantor, purpose);
    assert forall|i: int| 0 <= i < access_list.len()
        implies (#[trigger] access_list[i]).len() <= MAX_SEED_LEN by {
        if i >= 3 {
            assert(access_list[i] == aim[i - 3]);
        }
    }
}

} // verus!
