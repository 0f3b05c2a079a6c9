//! Credential records and access grants, and their transitions: issuance,
//! revocation, verification, granting and revoking of access.
//!
//! Verification reads a credential and changes nothing. Whether a grant is
//! still active is for the relying party to derive from the record and the
//! time: no transition stores it, and none looks at the field mask.

use crate::address::{byte_len, bytes_equal, text_len, Pubkey};
use crate::ledger::{claim, slot_view, LedgerError};
use vstd::prelude::*;

verus! {

/// The largest number of bytes of a credential type.
pub const MAX_TYPE_LEN: usize = 50;

/// The largest number of bytes of an issuer identifier.
pub const MAX_DID_LEN: usize = 100;

/// The largest number of bytes of a metadata URI.
pub const MAX_URI_LEN: usize = 200;

/// The largest number of bytes of a revocation reason.
pub const MAX_REASON_LEN: usize = 200;

/// The largest number of bytes of a grant's purpose.
pub const MAX_PURPOSE_LEN: usize = 200;

/// Why a credential or grant transition was refused.
#[derive(Clone, Copy, Debug, PartialEq, Eq)]
pub enum CredentialError {
    /// The credential type is longer than `MAX_TYPE_LEN` bytes.
    TypeTooLong,
    /// The issuer identifier is longer than `MAX_DID_LEN` bytes.
    DidTooLong,
    /// The metadata URI is longer than `MAX_URI_LEN` bytes.
    UriTooLong,
    /// The revocation reason is longer than `MAX_REASON_LEN` bytes.
    ReasonTooLong,
    /// The purpose is longer than `MAX_PURPOSE_LEN` bytes.
    PurposeTooLong,
    /// The grant would expire now or in the past.
    InvalidExpiry,
    /// The credential has been revoked.
    CredentialRevoked,
    /// The credential's expiry is now or in the past.
    CredentialExpired,
    /// The stored claims hash is not the expected one.
    HashMismatch,
}

/// A credential record.
#[derive(Clone, Debug, PartialEq, Eq)]
pub struct CredentialAccount {
    pub owner: Pubkey,
    pub credential_type: String,
    pub claims_hash: [u8; 32],
    pub issuer_did: String,
    pub issued_at: i64,
    pub expiry: Option<i64>,
    pub metadata_uri: String,
    pub revoked: bool,
    pub revocation_reason: Option<String>,
    pub bump: u8,
}

/// What a credential record holds, as mathematical values.
pub struct CredentialView {
    pub owner: Seq<u8>,
    pub credential_type: Seq<char>,
    pub claims_hash: Seq<u8>,
    pub issuer_did: Seq<char>,
    pub issued_at: int,
    pub expiry: Option<int>,
    pub metadata_uri: Seq<char>,
    pub revoked: bool,
    pub revocation_reason: Option<Seq<char>>,
    pub bump: u8,
}

/// An optional timestamp as an optional integer.
pub open spec fn time_view(time: Option<i64>) -> Option<int> {
    match time {
        Some(t) => Some(t as int),
        None => None,
    }
}

/// An optional string as an optional sequence of characters.
pub open spec fn text_view(text: Option<String>) -> Option<Seq<char>> {
    match text {
        Some(t) => Some(t@),
        None => None,
    }
}

impl View for CredentialAccount {
    type V = CredentialView;

    open spec fn view(&self) -> CredentialView {
        CredentialView {
            owner: self.owner@,
            credential_type: self.credential_type@,
            claims_hash: self.claims_hash@,
            issuer_did: self.issuer_did@,
            issued_at: self.issued_at as int,
            expiry: time_view(self.expiry),
            metadata_uri: self.metadata_uri@,
            revoked: self.revoked,
            revocation_reason: text_view(self.revocation_reason),
            bump: self.bump,
        }
    }
}

impl CredentialView {
    /// The strings are within their limits, and a reason is recorded exactly
    /// when the credential is revoked.
    pub open spec fn wf(self) -> bool {
        &&& byte_len(self.credential_type) <= MAX_TYPE_LEN
        &&& byte_len(self.issuer_did) <= MAX_DID_LEN
        &&& byte_len(self.metadata_uri) <= MAX_URI_LEN
        &&& self.revoked <==> self.revocation_reason is Some
        &&& self.revocation_reason matches Some(reason) ==> byte_len(reason) <= MAX_REASON_LEN
    }

    /// The record of a credential just issued: not revoked, no reason.
    pub open spec fn issued(
        owner: Seq<u8>,
        credential_type: Seq<char>,
        claims_hash: Seq<u8>,
        issuer_did: Seq<char>,
        expiry: Option<int>,
        metadata_uri: Seq<char>,
        now: int,
        bump: u8,
    ) -> CredentialView {
        CredentialView {
            owner,
            credential_type,
            claims_hash,
            issuer_did,
            issued_at: now,
            expiry,
            metadata_uri,
            revoked: false,
            revocation_reason: None,
            bump,
        }
    }

    /// The record after a revocation for `reason`.
    pub open spec fn revoked_for(self, reason: Seq<char>) -> CredentialView {
        CredentialView { revoked: true, revocation_reason: Some(reason), ..self }
    }

    /// Whether the credential's expiry has come at `now`: an expiry equal to
    /// `now` has come, and a credential without expiry never expires.
    pub open spec fn expired_at(self, now: int) -> bool {
        self.expiry matches Some(expiry) && expiry <= now
    }
}

/// An access grant.
#[derive(Clone, Debug, PartialEq, Eq)]
pub struct AccessGrantAccount {
    pub credential: Pubkey,
    pub grantor: Pubkey,
    pub grantee: Pubkey,
    pub purpose: String,
    pub expires_at: i64,
    pub field_mask: u64,
    pub revoked: bool,
    pub bump: u8,
}

/// What an access grant holds, as mathematical values.
pub struct AccessGrantView {
    pub credential: Seq<u8>,
    pub grantor: Seq<u8>,
    pub grantee: Seq<u8>,
    pub purpose: Seq<char>,
    pub expires_at: int,
    pub field_mask: u64,
    pub revoked: bool,
    pub bump: u8,
}

impl View for AccessGrantAccount {
    type V = AccessGrantView;

    open spec fn view(&self) -> AccessGrantView {
        AccessGrantView {
            credential: self.credential@,
            grantor: self.grantor@,
            grantee: self.grantee@,
            purpose: self.purpose@,
            expires_at: self.expires_at as int,
            field_mask: self.field_mask,
            revoked: self.revoked,
            bump: self.bump,
        }
    }
}

impl AccessGrantView {
    /// The purpose is within its limit.
    pub open spec fn wf(self) -> bool {
        byte_len(self.purpose) <= MAX_PURPOSE_LEN
    }

    /// The record of a grant just made: not revoked.
    pub open spec fn granted(
        credential: Seq<u8>,
        grantor: Seq<u8>,
        grantee: Seq<u8>,
        purpose: Seq<char>,
        expires_at: int,
        field_mask: u64,
        bump: u8,
    ) -> AccessGrantView {
        AccessGrantView {
            credential,
            grantor,
            grantee,
            purpose,
            expires_at,
            field_mask,
            revoked: false,
            bump,
        }
    }

    /// The record after its revocation.
    pub open spec fn revoked(self) -> AccessGrantView {
        AccessGrantView { revoked: true, ..self }
    }

    /// What a relying party derives at `now`: the grant is active while it
    /// is not revoked and `now` is before `expires_at`.
    pub open spec fn active_at(self, now: int) -> bool {
        !self.revoked && now < self.expires_at
    }
}

/// What issuing a credential gives: the type, the issuer and the URI are
/// checked in this order, and the first that is too long names the error.
pub open spec fn issue_outcome(
    owner: Seq<u8>,
    credential_type: Seq<char>,
    claims_hash: Seq<u8>,
    issuer_did: Seq<char>,
    expiry: Option<int>,
    metadata_uri: Seq<char>,
    now: int,
    bump: u8,
) -> Result<CredentialView, CredentialError> {
    if byte_len(credential_type) > MAX_TYPE_LEN {
        Err(CredentialError::TypeTooLong)
    } else if byte_len(issuer_did) > MAX_DID_LEN {
        Err(CredentialError::DidTooLong)
    } else if byte_len(metadata_uri) > MAX_URI_LEN {
        Err(CredentialError::UriTooLong)
    } else {
        Ok(
            CredentialView::issued(
                owner,
                credential_type,
                claims_hash,
                issuer_did,
                expiry,
                metadata_uri,
                now,
                bump,
            ),
        )
    }
}

/// What revoking a credential gives. A credential that is revoked already is
/// revoked again, and the new reason replaces the old one.
pub open spec fn revoke_outcome(credential: CredentialView, reason: Seq<char>) -> Result<
    CredentialView,
    CredentialError,
> {
    if byte_len(reason) > MAX_REASON_LEN {
        Err(CredentialError::ReasonTooLong)
    } else {
        Ok(credential.revoked_for(reason))
    }
}

/// What verifying a credential against `expected_hash` at `now` gives:
/// revocation is checked first, then expiry, then the hash.
pub open spec fn verify_outcome(credential: CredentialView, expected_hash: Seq<u8>, now: int)
    -> Result<(), CredentialError> {
    if credential.revoked {
        Err(CredentialError::CredentialRevoked)
    } else if credential.expired_at(now) {
        Err(CredentialError::CredentialExpired)
    } else if credential.claims_hash != expected_hash {
        Err(CredentialError::HashMismatch)
    } else {
        Ok(())
    }
}

/// What granting access gives: the purpose is checked first, then that the
/// grant expires after `now`.
pub open spec fn grant_outcome(
    credential: Seq<u8>,
    grantor: Seq<u8>,
    grantee: Seq<u8>,
    purpose: Seq<char>,
    expires_at: int,
    field_mask: u64,
    now: int,
    bump: u8,
) -> Result<AccessGrantView, CredentialError> {
    if byte_len(purpose) > MAX_PURPOSE_LEN {
        Err(CredentialError::PurposeTooLong)
    } else if expires_at <= now {
        Err(CredentialError::InvalidExpiry)
    } else {
        Ok(
            AccessGrantView::granted(
                credential,
                grantor,
                grantee,
                purpose,
                expires_at,
                field_mask,
                bump,
            ),
        )
    }
}

/// What revoking a grant gives: it never fails.
pub open spec fn revoke_grant_outcome(grant: AccessGrantView) -> Result<
    AccessGrantView,
    CredentialError,
> {
    Ok(grant.revoked())
}

/// A transition that gave `result` took the credential from `before` to
/// `after` as `outcome` says: on success the record is the outcome's, on
/// failure the error is the outcome's and the record is untouched.
pub open spec fn credential_applied(
    outcome: Result<CredentialView, CredentialError>,
    before: CredentialAccount,
    after: CredentialAccount,
    result: Result<(), CredentialError>,
) -> bool {
    match outcome {
        Ok(record) => result is Ok && after@ == record,
        Err(error) => result == Err::<(), CredentialError>(error) && after == before,
    }
}

/// The same for a transition of an access grant.
pub open spec fn grant_applied(
    outcome: Result<AccessGrantView, CredentialError>,
    before: AccessGrantAccount,
    after: AccessGrantAccount,
    result: Result<(), CredentialError>,
) -> bool {
    match outcome {
        Ok(record) => result is Ok && after@ == record,
        Err(error) => result == Err::<(), CredentialError>(error) && after == before,
    }
}

/// The accounts of `issue_credential`: what lives at the address derived for
/// the credential, `None` while the address is free; the bump seed of the
/// address; the owner of the credential; and the payer.
#[derive(Clone, Debug, PartialEq, Eq)]
pub struct IssueCredential {
    pub credential: Option<CredentialAccount>,
    pub bump: u8,
    pub owner: Pubkey,
    pub payer: Pubkey,
}

/// The accounts of `revoke_credential`.
#[derive(Clone, Debug, PartialEq, Eq)]
pub struct RevokeCredential {
    pub credential: CredentialAccount,
    pub issuer: Pubkey,
}

/// The accounts of `grant_access`: the address of the credential; its owner,
/// who makes the grant; what lives at the address derived for the grant,
/// `None` while the address is free; the bump seed of that address; and the
/// payer.
#[derive(Clone, Debug, PartialEq, Eq)]
pub struct GrantAccess {
    pub credential: Pubkey,
    pub owner: Pubkey,
    pub access_grant: Option<AccessGrantAccount>,
    pub bump: u8,
    pub payer: Pubkey,
}

/// The accounts of `revoke_access_grant`.
#[derive(Clone, Debug, PartialEq, Eq)]
pub struct RevokeAccessGrant {
    pub access_grant: AccessGrantAccount,
    pub grantor: Pubkey,
}

/// The accounts of `verify_credential`: the credential, which is only read.
#[derive(Clone, Copy, Debug, PartialEq, Eq)]
pub struct VerifyCredential<'a> {
    pub credential: &'a CredentialAccount,
}

/// Initializes the credential of `ctx.owner` at time `now`: not revoked, no
/// revocation reason. A credential that lives at the address already is left
/// as it is, revoked or not, and the call fails with `AddressInUse`.
pub fn issue_credential(
    ctx: &mut IssueCredential,
    credential_type: String,
    claims_hash: [u8; 32],
    issuer_did: String,
    expiry: Option<i64>,
    metadata_uri: String,
    now: i64,
) -> (result: Result<(), LedgerError<CredentialError>>)
    ensures
        (slot_view(final(ctx).credential), result) == claim(
            slot_view(old(ctx).credential),
            issue_outcome(
                old(ctx).owner@,
                credential_type@,
                claims_hash@,
                issuer_did@,
                time_view(expiry),
                metadata_uri@,
                now as int,
                old(ctx).bump,
            ),
        ),
        result is Err ==> final(ctx).credential == old(ctx).credential,
        final(ctx).bump == old(ctx).bump,
        final(ctx).owner == old(ctx).owner,
        final(ctx).payer == old(ctx).payer,
{
    if ctx.credential.is_some() {
        return Err(LedgerError::AddressInUse);
    }
    if text_len(credential_type.as_str()) > MAX_TYPE_LEN {
        return Err(LedgerError::Rejected(CredentialError::TypeTooLong));
    }
    if text_len(issuer_did.as_str()) > MAX_DID_LEN {
        return Err(LedgerError::Rejected(CredentialError::DidTooLong));
    }
    if text_len(metadata_uri.as_str()) > MAX_URI_LEN {
        return Err(LedgerError::Rejected(CredentialError::UriTooLong));
    }
    ctx.credential = Some(
        CredentialAccount {
            owner: ctx.owner,
            credential_type,
            claims_hash,
            issuer_did,
            issued_at: now,
            expiry,
            metadata_uri,
            revoked: false,
            revocation_reason: None,
            bump: ctx.bump,
        },
    );
    Ok(())
}

/// Marks the credential revoked and records the reason.
pub fn revoke_credential(ctx: &mut RevokeCredential, reason: String) -> (result: Result<
    (),
    CredentialError,
>)
    ensures
        credential_applied(
            revoke_outcome(old(ctx).credential@, reason@),
            old(ctx).credential,
            final(ctx).credential,
            result,
        ),
        final(ctx).issuer == old(ctx).issuer,
{
    if text_len(reason.as_str()) > MAX_REASON_LEN {
        return Err(CredentialError::ReasonTooLong);
    }
    ctx.credential.revoked = true;
    ctx.credential.revocation_reason = Some(reason);
    Ok(())
}

/// Initializes the grant that `ctx.owner` makes to `grantee` on the
/// credential at `ctx.credential`: not revoked. A grant that lives at the
/// address already is left as it is, revoked or not, and the call fails with
/// `AddressInUse`.
pub fn grant_access(
    ctx: &mut GrantAccess,
    grantee: Pubkey,
    purpose: String,
    expires_at: i64,
    field_mask: u64,
    now: i64,
) -> (result: Result<(), LedgerError<CredentialError>>)
    ensures
        (slot_view(final(ctx).access_grant), result) == claim(
            slot_view(old(ctx).access_grant),
            grant_outcome(
                old(ctx).credential@,
                old(ctx).owner@,
                grantee@,
                purpose@,
                expires_at as int,
                field_mask,
                now as int,
                old(ctx).bump,
            ),
        ),
        result is Err ==> final(ctx).access_grant == old(ctx).access_grant,
        final(ctx).credential == old(ctx).credential,
        final(ctx).owner == old(ctx).owner,
        final(ctx).bump == old(ctx).bump,
        final(ctx).payer == old(ctx).payer,
{
    if ctx.access_grant.is_some() {
        return Err(LedgerError::AddressInUse);
    }
    if text_len(purpose.as_str()) > MAX_PURPOSE_LEN {
        return Err(LedgerError::Rejected(CredentialError::PurposeTooLong));
    }
    if expires_at <= now {
        return Err(LedgerError::Rejected(CredentialError::InvalidExpiry));
    }
    ctx.access_grant = Some(
        AccessGrantAccount {
            credential: ctx.credential,
            grantor: ctx.owner,
            grantee,
            purpose,
            expires_at,
            field_mask,
            revoked: false,
            bump: ctx.bump,
        },
    );
    Ok(())
}

/// Marks the grant revoked.
pub fn revoke_access_grant(ctx: &mut RevokeAccessGrant) -> (result: Result<(), CredentialError>)
    ensures
        grant_applied(
            revoke_grant_outcome(old(ctx).access_grant@),
            old(ctx).access_grant,
            final(ctx).access_grant,
            result,
        ),
        final(ctx).grantor == old(ctx).grantor,
{
    ctx.access_grant.revoked = true;
    Ok(())
}

/// Checks that the credential is not revoked, has not expired at `now` and
/// holds `expected_hash`.
pub fn verify_credential(ctx: &VerifyCredential<'_>, expected_hash: [u8; 32], now: i64) -> (result:
    Result<(), CredentialError>)
    ensures
        result == verify_outcome(ctx.credential@, expected_hash@, now as int),
{
    if ctx.credential.revoked {
        return Err(CredentialError::CredentialRevoked);
    }
    if let Some(expiry) = ctx.credential.expiry {
        if expiry <= now {
            return Err(CredentialError::CredentialExpired);
        }
    }
    if !bytes_equal(&ctx.credential.claims_hash, &expected_hash) {
        return Err(CredentialError::HashMismatch);
    }
    Ok(())
}

/// No transition returns a revoked record to unrevoked. A revocation leaves
/// the record revoked, whether or not it was revoked before, and touches
/// nothing but the flag and, of a credential, the reason. An issuance or a
/// grant at an address where a record lives fails with `AddressInUse` and
/// leaves that record, whatever the call brings.
pub proof fn revocation_is_monotonic(
    credential: CredentialView,
    grant: AccessGrantView,
    reason: Seq<char>,
    issuance: Result<CredentialView, CredentialError>,
    granting: Result<AccessGrantView, CredentialError>,
)
    ensures
        revoke_outcome(credential, reason) matches Ok(record) ==> record
            == (CredentialView {
            revoked: true,
            revocation_reason: Some(reason),
            ..credential
        }),
        revoke_grant_outcome(grant) == Ok::<AccessGrantView, CredentialError>(
            (AccessGrantView { revoked: true, ..grant }),
        ),
        claim(Some(credential), issuance) == (
            Some(credential),
            Err::<(), LedgerError<CredentialError>>(LedgerError::AddressInUse),
        ),
        claim(Some(grant), granting) == (
            Some(grant),
            Err::<(), LedgerError<CredentialError>>(LedgerError::AddressInUse),
        ),
{
}

/// A credential whose expiry is `now` has expired; one whose expiry is one
/// second later verifies, if it is not revoked and the hash is the stored one.
pub proof fn expiry_is_a_strict_boundary(credential: CredentialView, now: int)
    requires
        !credential.revoked,
    ensures
        verify_outcome(
            (CredentialView { expiry: Some(now), ..credential }),
            credential.claims_hash,
            now,
        ) == Err::<(), CredentialError>(CredentialError::CredentialExpired),
        verify_outcome(
            (CredentialView { expiry: Some(now + 1), ..credential }),
            credential.claims_hash,
            now,
        ) == Ok::<(), CredentialError>(()),
        verify_outcome(
            (CredentialView { expiry: None, ..credential }),
            credential.claims_hash,
            now,
        ) == Ok::<(), CredentialError>(()),
{
}

/// An expected hash that differs from the stored one, be it in a single
/// byte, fails verification of a credential that is neither revoked nor
/// expired with `HashMismatch`.
pub proof fn hash_is_checked_bytewise(
    credential: CredentialView,
    expected_hash: Seq<u8>,
    now: int,
    position: int,
)
    requires
        !credential.revoked,
        !credential.expired_at(now),
        expected_hash.len() == credential.claims_hash.len(),
        0 <= position < expected_hash.len(),
        expected_hash[position] != credential.claims_hash[position],
    ensures
        verify_outcome(credential, expected_hash, now) == Err::<(), CredentialError>(
            CredentialError::HashMismatch,
        ),
{
}

/// A grant made at `now` is active at `now`, and at no time from its
/// `expires_at` on: one that expires a hundred seconds after `now` is
/// inactive a hundred and one seconds after `now`, with no transition in
/// between.
pub proof fn grant_is_active_until_it_expires(
    credential: Seq<u8>,
    grantor: Seq<u8>,
    grantee: Seq<u8>,
    purpose: Seq<char>,
    expires_at: int,
    field_mask: u64,
    now: int,
    bump: u8,
    later: int,
)
    requires
        grant_outcome(credential, grantor, grantee, purpose, expires_at, field_mask, now, bump)
            is Ok,
    ensures
        ({
            let grant = grant_outcome(
                credential,
                grantor,
                grantee,
                purpose,
                expires_at,
                field_mask,
                now,
                bump,
            )->Ok_0;
            &&& grant.expires_at == expires_at
            &&& grant.active_at(now)
            &&& grant.active_at(later) <==> later < expires_at
            &&& expires_at == now + 100 ==> !grant.active_at(now + 101)
        }),
{
}

/// Every transition keeps a well-formed record well-formed, and an issued
/// credential and a made grant are well-formed; a grant that was made
/// expires after the time of its making, and no revocation moves its expiry.
pub proof fn credential_transitions_keep_records_well_formed(
    credential: CredentialView,
    grant: AccessGrantView,
    owner: Seq<u8>,
    credential_type: Seq<char>,
    claims_hash: Seq<u8>,
    issuer_did: Seq<char>,
    expiry: Option<int>,
    metadata_uri: Seq<char>,
    reason: Seq<char>,
    credential_address: Seq<u8>,
    grantee: Seq<u8>,
    purpose: Seq<char>,
    expires_at: int,
    field_mask: u64,
    now: int,
    bump: u8,
)
    ensures
        issue_outcome(
            owner,
            credential_type,
            claims_hash,
            issuer_did,
            expiry,
            metadata_uri,
            now,
            bump,
        ) matches Ok(record) ==> record.wf(),
        credential.wf() ==> (revoke_outcome(credential, reason) matches Ok(record)
            ==> record.wf()),
        grant_outcome(
            credential_address,
            owner,
            grantee,
            purpose,
            expires_at,
            field_mask,
            now,
            bump,
        ) matches Ok(record) ==> record.wf() && record.expires_at > now,
        grant.wf() ==> (revoke_grant_outcome(grant) matches Ok(record) ==> record.wf()
            && record.expires_at == grant.expires_at),
{
}

} // verus!
