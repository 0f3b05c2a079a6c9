//! Identity records and their transitions: creation, commitment rotation,
//! verifier bits and ownership recovery.
//!
//! Every transition takes the accounts it touches and the current time as
//! plain values. The caller's key travels with the accounts; no transition
//! compares it with the record's owner.

use crate::address::{byte_len, text_len, Pubkey};
use crate::ledger::{claim, slot_view, LedgerError};
use vstd::prelude::*;

verus! {

/// The largest number of bytes of a metadata URI.
pub const MAX_URI_LEN: usize = 200;

/// The number of verifier bits of an identity.
pub const VERIFICATION_BIT_COUNT: u8 = 32;

/// The seconds that must have passed since the last update before an
/// identity can be recovered: thirty days.
pub const RECOVERY_PERIOD: i64 = 30 * 24 * 60 * 60;

/// Why an identity transition was refused.
#[derive(Clone, Copy, Debug, PartialEq, Eq)]
pub enum IdentityError {
    /// The metadata URI is longer than `MAX_URI_LEN` bytes.
    UriTooLong,
    /// The bit index is not below `VERIFICATION_BIT_COUNT`.
    InvalidBitIndex,
    /// Less than `RECOVERY_PERIOD` seconds have passed since the last update.
    RecoveryPeriodNotMet,
}

/// An identity record.
#[derive(Clone, Debug, PartialEq, Eq)]
pub struct IdentityAccount {
    pub owner: Pubkey,
    pub commitment: [u8; 32],
    pub metadata_uri: String,
    pub created_at: i64,
    pub updated_at: i64,
    pub verification_bits: u32,
    pub recovery_counter: u64,
    pub bump: u8,
}

/// What an identity record holds, as mathematical values.
pub struct IdentityView {
    pub owner: Seq<u8>,
    pub commitment: Seq<u8>,
    pub metadata_uri: Seq<char>,
    pub created_at: int,
    pub updated_at: int,
    pub verification_bits: u32,
    pub recovery_counter: nat,
    pub bump: u8,
}

impl View for IdentityAccount {
    type V = IdentityView;

    open spec fn view(&self) -> IdentityView {
        IdentityView {
            owner: self.owner@,
            commitment: self.commitment@,
            metadata_uri: self.metadata_uri@,
            created_at: self.created_at as int,
            updated_at: self.updated_at as int,
            verification_bits: self.verification_bits,
            recovery_counter: self.recovery_counter as nat,
            bump: self.bump,
        }
    }
}

/// The bits with bit `index` set.
pub open spec fn with_bit(bits: u32, index: u8) -> u32 {
    bits | (1u32 << (index as u32))
}

/// The bits with bit `index` cleared.
pub open spec fn without_bit(bits: u32, index: u8) -> u32 {
    bits & !(1u32 << (index as u32))
}

/// Whether bit `index` is set.
pub open spec fn has_bit(bits: u32, index: u8) -> bool {
    bits & (1u32 << (index as u32)) != 0
}

impl IdentityView {
    /// The metadata URI is within its limit.
    pub open spec fn wf(self) -> bool {
        byte_len(self.metadata_uri) <= MAX_URI_LEN
    }

    /// The record of a fresh identity.
    pub open spec fn fresh(
        owner: Seq<u8>,
        commitment: Seq<u8>,
        metadata_uri: Seq<char>,
        now: int,
        bump: u8,
    ) -> IdentityView {
        IdentityView {
            owner,
            commitment,
            metadata_uri,
            created_at: now,
            updated_at: now,
            verification_bits: 0,
            recovery_counter: 0,
            bump,
        }
    }

    /// The record after its commitment was rotated at `now`.
    pub open spec fn rotated(self, commitment: Seq<u8>, now: int) -> IdentityView {
        IdentityView { commitment, updated_at: now, ..self }
    }

    /// The record with other verifier bits.
    pub open spec fn with_bits(self, bits: u32) -> IdentityView {
        IdentityView { verification_bits: bits, ..self }
    }

    /// The record after `new_owner` recovered it at `now`.
    pub open spec fn recovered(self, new_owner: Seq<u8>, now: int) -> IdentityView {
        IdentityView {
            owner: new_owner,
            recovery_counter: self.recovery_counter + 1,
            updated_at: now,
            ..self
        }
    }
}

/// What creating an identity gives: the fresh record, or `UriTooLong`.
pub open spec fn create_outcome(
    owner: Seq<u8>,
    commitment: Seq<u8>,
    metadata_uri: Seq<char>,
    now: int,
    bump: u8,
) -> Result<IdentityView, IdentityError> {
    if byte_len(metadata_uri) > MAX_URI_LEN {
        Err(IdentityError::UriTooLong)
    } else {
        Ok(IdentityView::fresh(owner, commitment, metadata_uri, now, bump))
    }
}

/// What rotating the commitment gives: it never fails.
pub open spec fn update_outcome(identity: IdentityView, commitment: Seq<u8>, now: int) -> Result<
    IdentityView,
    IdentityError,
> {
    Ok(identity.rotated(commitment, now))
}

/// What setting a verifier bit gives.
pub open spec fn set_bit_outcome(identity: IdentityView, index: u8) -> Result<
    IdentityView,
    IdentityError,
> {
    if index < VERIFICATION_BIT_COUNT {
        Ok(identity.with_bits(with_bit(identity.verification_bits, index)))
    } else {
        Err(IdentityError::InvalidBitIndex)
    }
}

/// What clearing a verifier bit gives.
pub open spec fn clear_bit_outcome(identity: IdentityView, index: u8) -> Result<
    IdentityView,
    IdentityError,
> {
    if index < VERIFICATION_BIT_COUNT {
        Ok(identity.with_bits(without_bit(identity.verification_bits, index)))
    } else {
        Err(IdentityError::InvalidBitIndex)
    }
}

/// What a recovery at `now` gives: the record under its new owner once the
/// recovery period has passed since the last update.
pub open spec fn recover_outcome(identity: IdentityView, new_owner: Seq<u8>, now: int) -> Result<
    IdentityView,
    IdentityError,
> {
    if now - identity.updated_at >= RECOVERY_PERIOD {
        Ok(identity.recovered(new_owner, now))
    } else {
        Err(IdentityError::RecoveryPeriodNotMet)
    }
}

/// A transition that gave `result` took the record from `before` to `after`
/// as `outcome` says: on success the record is the outcome's, on failure the
/// error is the outcome's and the record is untouched.
pub open spec fn identity_applied(
    outcome: Result<IdentityView, IdentityError>,
    before: IdentityAccount,
    after: IdentityAccount,
    result: Result<(), IdentityError>,
) -> bool {
    match outcome {
        Ok(record) => result is Ok && after@ == record,
        Err(error) => result == Err::<(), IdentityError>(error) && after == before,
    }
}

impl IdentityAccount {
    /// Whether verifier bit `index` is set; there is no bit from
    /// `VERIFICATION_BIT_COUNT` on.
    pub fn has_verification_bit(&self, index: u8) -> (set: bool)
        ensures
            set == (index < VERIFICATION_BIT_COUNT && has_bit(self.verification_bits, index)),
    {
        index < VERIFICATION_BIT_COUNT && self.verification_bits & (1u32 << (index as u32)) != 0
    }
}

/// The accounts of `create_identity`: what lives at the address derived for
/// the owner, `None` while the address is free; the bump seed of the address;
/// and the payer.
#[derive(Clone, Debug, PartialEq, Eq)]
pub struct CreateIdentity {
    pub identity: Option<IdentityAccount>,
    pub bump: u8,
    pub payer: Pubkey,
}

/// The accounts of `update_commitment`.
#[derive(Clone, Debug, PartialEq, Eq)]
pub struct UpdateCommitment {
    pub identity: IdentityAccount,
    pub authority: Pubkey,
}

/// The accounts of `set_verification_bit`.
#[derive(Clone, Debug, PartialEq, Eq)]
pub struct SetVerificationBit {
    pub identity: IdentityAccount,
    pub verifier: Pubkey,
}

/// The accounts of `clear_verification_bit`.
#[derive(Clone, Debug, PartialEq, Eq)]
pub struct ClearVerificationBit {
    pub identity: IdentityAccount,
    pub authority: Pubkey,
}

/// The accounts of `recover_identity`.
#[derive(Clone, Debug, PartialEq, Eq)]
pub struct RecoverIdentity {
    pub identity: IdentityAccount,
    pub authority: Pubkey,
}

/// Initializes the identity record of `owner` at time `now`: no verifier bit
/// set, no recovery yet, both timestamps `now`. An identity that lives at the
/// address already is left as it is, and the call fails with `AddressInUse`.
pub fn create_identity(
    ctx: &mut CreateIdentity,
    owner: Pubkey,
    commitment: [u8; 32],
    metadata_uri: String,
    now: i64,
) -> (result: Result<(), LedgerError<IdentityError>>)
    ensures
        (slot_view(final(ctx).identity), result) == claim(
            slot_view(old(ctx).identity),
            create_outcome(owner@, commitment@, metadata_uri@, now as int, old(ctx).bump),
        ),
        result is Err ==> final(ctx).identity == old(ctx).identity,
        final(ctx).bump == old(ctx).bump,
        final(ctx).payer == old(ctx).payer,
{
    if ctx.identity.is_some() {
        return Err(LedgerError::AddressInUse);
    }
    if text_len(metadata_uri.as_str()) > MAX_URI_LEN {
        return Err(LedgerError::Rejected(IdentityError::UriTooLong));
    }
    ctx.identity = Some(
        IdentityAccount {
            owner,
            commitment,
            metadata_uri,
            created_at: now,
            updated_at: now,
            verification_bits: 0,
            recovery_counter: 0,
            bump: ctx.bump,
        },
    );
    Ok(())
}

/// Replaces the commitment and stamps the update with `now`.
pub fn update_commitment(ctx: &mut UpdateCommitment, new_commitment: [u8; 32], now: i64) -> (result:
    Result<(), IdentityError>)
    ensures
        identity_applied(
            update_outcome(old(ctx).identity@, new_commitment@, now as int),
            old(ctx).identity,
            final(ctx).identity,
            result,
        ),
        final(ctx).authority == old(ctx).authority,
{
    ctx.identity.commitment = new_commitment;
    ctx.identity.updated_at = now;
    Ok(())
}

/// Sets verifier bit `bit_index` and leaves every other bit as it was.
pub fn set_verification_bit(ctx: &mut SetVerificationBit, bit_index: u8) -> (result: Result<
    (),
    IdentityError,
>)
    ensures
        identity_applied(
            set_bit_outcome(old(ctx).identity@, bit_index),
            old(ctx).identity,
            final(ctx).identity,
            result,
        ),
        final(ctx).verifier == old(ctx).verifier,
{
    if bit_index >= VERIFICATION_BIT_COUNT {
        return Err(IdentityError::InvalidBitIndex);
    }
    ctx.identity.verification_bits = ctx.identity.verification_bits | (1u32 << (bit_index as u32));
    Ok(())
}

/// Clears verifier bit `bit_index` and leaves every other bit as it was.
pub fn clear_verification_bit(ctx: &mut ClearVerificationBit, bit_index: u8) -> (result: Result<
    (),
    IdentityError,
>)
    ensures
        identity_applied(
            clear_bit_outcome(old(ctx).identity@, bit_index),
            old(ctx).identity,
            final(ctx).identity,
            result,
        ),
        final(ctx).authority == old(ctx).authority,
{
    if bit_index >= VERIFICATION_BIT_COUNT {
        return Err(IdentityError::InvalidBitIndex);
    }
    ctx.identity.verification_bits = ctx.identity.verification_bits & !(1u32 << (bit_index as u32));
    Ok(())
}

/// Hands the identity to `new_owner` once `RECOVERY_PERIOD` seconds have
/// passed since its last update, counts the recovery and stamps it with `now`.
/// A recovery that is due needs room in the counter; one that comes too early
/// is refused whatever the counter holds.
pub fn recover_identity(ctx: &mut RecoverIdentity, new_owner: Pubkey, now: i64) -> (result: Result<
    (),
    IdentityError,
>)
    requires
        now - old(ctx).identity.updated_at >= RECOVERY_PERIOD ==> old(ctx).identity.recovery_counter
            < u64::MAX,
    ensures
        identity_applied(
            recover_outcome(old(ctx).identity@, new_owner@, now as int),
            old(ctx).identity,
            final(ctx).identity,
            result,
        ),
        final(ctx).authority == old(ctx).authority,
{
    let elapsed: i128 = now as i128 - ctx.identity.updated_at as i128;
    if elapsed < RECOVERY_PERIOD as i128 {
        return Err(IdentityError::RecoveryPeriodNotMet);
    }
    ctx.identity.owner = new_owner;
    ctx.identity.recovery_counter = ctx.identity.recovery_counter + 1;
    ctx.identity.updated_at = now;
    Ok(())
}

/// Setting a bit that is set, or clearing one that is clear, changes nothing:
/// a second `set` leaves the bits of the first, and so does a second `clear`.
pub proof fn bit_toggling_is_idempotent(identity: IdentityView, bit_index: u8)
    requires
        bit_index < VERIFICATION_BIT_COUNT,
    ensures
        set_bit_outcome(identity, bit_index) matches Ok(once) && set_bit_outcome(once, bit_index)
            == Ok::<IdentityView, IdentityError>(once),
        clear_bit_outcome(identity, bit_index) matches Ok(once) && clear_bit_outcome(
            once,
            bit_index,
        ) == Ok::<IdentityView, IdentityError>(once),
{
    let bits = identity.verification_bits;
    let index = bit_index as u32;
    assert((bits | (1u32 << index)) | (1u32 << index) == bits | (1u32 << index)) by (bit_vector);
    assert((bits & !(1u32 << index)) & !(1u32 << index) == bits & !(1u32 << index))
        by (bit_vector);
}

/// `set` and `clear` touch one bit: afterwards bit `bit_index` is set, or
/// clear, and every other bit is as before.
pub proof fn bit_toggling_touches_one_bit(bits: u32, bit_index: u8, other: u8)
    requires
        bit_index < VERIFICATION_BIT_COUNT,
        other < VERIFICATION_BIT_COUNT,
    ensures
        has_bit(with_bit(bits, bit_index), other) == (other == bit_index || has_bit(bits, other)),
        has_bit(without_bit(bits, bit_index), other) == (other != bit_index && has_bit(
            bits,
            other,
        )),
{
    let i = bit_index as u32;
    let j = other as u32;
    assert(i < 32 && j < 32 ==> (((bits | (1u32 << i)) & (1u32 << j) != 0) == (j == i || (bits & (
        1u32 << j) != 0)))) by (bit_vector);
    assert(i < 32 && j < 32 ==> (((bits & !(1u32 << i)) & (1u32 << j) != 0) == (j != i && (bits & (
        1u32 << j) != 0)))) by (bit_vector);
}

/// A recovery one second before the period has passed is refused; one at the
/// moment it has passed succeeds.
pub proof fn recovery_is_gated(identity: IdentityView, new_owner: Seq<u8>)
    ensures
        recover_outcome(identity, new_owner, identity.updated_at + RECOVERY_PERIOD - 1) == Err::<
            IdentityView,
            IdentityError,
        >(IdentityError::RecoveryPeriodNotMet),
        recover_outcome(identity, new_owner, identity.updated_at + RECOVERY_PERIOD) == Ok::<
            IdentityView,
            IdentityError,
        >(identity.recovered(new_owner, identity.updated_at + RECOVERY_PERIOD)),
        RECOVERY_PERIOD == 2_592_000,
{
}

/// Every transition keeps a well-formed record well-formed, and a created
/// record is well-formed.
pub proof fn identity_transitions_keep_records_well_formed(
    identity: IdentityView,
    owner: Seq<u8>,
    commitment: Seq<u8>,
    metadata_uri: Seq<char>,
    now: int,
    bump: u8,
    bit_index: u8,
)
    requires
        identity.wf(),
    ensures
        create_outcome(owner, commitment, metadata_uri, now, bump) matches Ok(record)
            ==> record.wf(),
        update_outcome(identity, commitment, now) matches Ok(record) ==> record.wf(),
        set_bit_outcome(identity, bit_index) matches Ok(record) ==> record.wf(),
        clear_bit_outcome(identity, bit_index) matches Ok(record) ==> record.wf(),
        recover_outcome(identity, owner, now) matches Ok(record) ==> record.wf(),
{
}

/// No transition lowers the recovery counter, a successful recovery raises
/// it by one, and under a clock that does not run backwards no transition
/// lowers `updated_at`.
pub proof fn identity_counters_never_decrease(
    identity: IdentityView,
    new_owner: Seq<u8>,
    commitment: Seq<u8>,
    now: int,
    bit_index: u8,
)
    ensures
        update_outcome(identity, commitment, now) matches Ok(record) ==> {
            &&& record.recovery_counter == identity.recovery_counter
            &&& now >= identity.updated_at ==> record.updated_at >= identity.updated_at
        },
        set_bit_outcome(identity, bit_index) matches Ok(record) ==> {
            &&& record.recovery_counter == identity.recovery_counter
            &&& record.updated_at == identity.updated_at
        },
        clear_bit_outcome(identity, bit_index) matches Ok(record) ==> {
            &&& record.recovery_counter == identity.recovery_counter
            &&& record.updated_at == identity.updated_at
        },
        recover_outcome(identity, new_owner, now) matches Ok(record) ==> {
            &&& record.recovery_counter == identity.recovery_counter + 1
            &&& record.updated_at > identity.updated_at
        },
{
}

} // verus!
