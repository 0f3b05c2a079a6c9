//! Account keys and the deterministic addresses of records.
//!
//! Every record lives at an address that is derived from a namespace tag and
//! the fields that identify the record. Two lookups with the same fields reach
//! the same address, and a second creation with the same fields finds the
//! address taken.
//!
//! A seed holds at most `MAX_SEED_LEN` bytes. A key is one seed. A string is
//! one seed while it is that short, and the seeds of a longer one are its
//! bytes in pieces of `MAX_SEED_LEN`, the last piece being what is left.

use vstd::prelude::*;

verus! {

/// The largest number of bytes of one seed. A longer string enters the seeds
/// in pieces.
pub const MAX_SEED_LEN: usize = 32;

/// The number of seeds from which on no address is derived.
pub const MAX_SEEDS: usize = 16;

/// A 32-byte account key: the key of a party, or the address of a record.
#[derive(Clone, Copy, Debug, PartialEq, Eq)]
pub struct Pubkey {
    pub bytes: [u8; 32],
}

impl View for Pubkey {
    type V = Seq<u8>;

    open spec fn view(&self) -> Seq<u8> {
        self.bytes@
    }
}

/// Whether two 32-byte values hold the same bytes.
pub fn bytes_equal(a: &[u8; 32], b: &[u8; 32]) -> (r: bool)
    ensures
        r == (a@ == b@),
{
    let mut i: usize = 0;
    while i < 32
        invariant
            i <= 32,
            forall|j: int| 0 <= j < i ==> a@[j] == b@[j],
        decreases 32 - i,
    {
        if a[i] != b[i] {
            return false;
        }
        i += 1;
    }
    assert(a@ =~= b@);
    true
}

impl Pubkey {
    /// The key made of the given bytes.
    pub fn new(bytes: [u8; 32]) -> (key: Pubkey)
        ensures
            key@ == bytes@,
            key.bytes == bytes,
    {
        Pubkey { bytes }
    }

    /// Whether the two keys hold the same bytes.
    pub fn equals(&self, other: &Pubkey) -> (r: bool)
        ensures
            r == (self@ == other@),
    {
        bytes_equal(&self.bytes, &other.bytes)
    }

    /// The key's bytes as a seed.
    pub fn to_seed(&self) -> (seed: Vec<u8>)
        ensures
            seed@ == self@,
    {
        let mut seed: Vec<u8> = Vec::new();
        let mut i: usize = 0;
        while i < 32
            invariant
                i <= 32,
                seed@.len() == i,
                forall|j: int| 0 <= j < i ==> seed@[j] == self.bytes@[j],
            decreases 32 - i,
        {
            seed.push(self.bytes[i]);
            i += 1;
        }
        assert(seed@ =~= self.bytes@);
        seed
    }
}

/// The bytes of a string, as they enter a seed.
pub open spec fn text_bytes(text: Seq<char>) -> Seq<u8> {
    vstd::utf8::encode_utf8(text)
}

/// The number of bytes of a string: what the length limits count.
pub open spec fn byte_len(text: Seq<char>) -> nat {
    text_bytes(text).len()
}

/// The number of bytes of `text`.
pub fn text_len(text: &str) -> (n: usize)
    ensures
        n == byte_len(text@),
{
    text.as_bytes().len()
}

/// The namespace tag of identity records.
pub open spec fn identity_tag() -> Seq<u8> {
    text_bytes("identity"@)
}

/// The namespace tag of credential records.
pub open spec fn credential_tag() -> Seq<u8> {
    text_bytes("credential"@)
}

/// The namespace tag of access grants.
pub open spec fn access_tag() -> Seq<u8> {
    text_bytes("access"@)
}

/// The seeds that `bytes` enters as: `bytes` itself while it has at most
/// `MAX_SEED_LEN` bytes, else its first `MAX_SEED_LEN` bytes and the seeds of
/// the rest.
pub open spec fn seed_pieces(bytes: Seq<u8>) -> Seq<Seq<u8>>
    decreases bytes.len(),
{
    if bytes.len() <= MAX_SEED_LEN {
        seq![bytes]
    } else {
        seq![bytes.take(MAX_SEED_LEN as int)] + seed_pieces(bytes.skip(MAX_SEED_LEN as int))
    }
}

/// The seeds of an identity record: the tag, then the owning key.
pub open spec fn identity_seeds(owner: Seq<u8>) -> Seq<Seq<u8>> {
    seq![identity_tag(), owner]
}

/// The seeds of a credential record: the tag, the owner, the credential type
/// and the issuer.
pub open spec fn credential_seeds(
    owner: Seq<u8>,
    credential_type: Seq<char>,
    issuer_did: Seq<char>,
) -> Seq<Seq<u8>> {
    seq![credential_tag(), owner] + seed_pieces(text_bytes(credential_type)) + seed_pieces(
        text_bytes(issuer_did),
    )
}

/// The seeds of an access grant: the tag, the credential's address, the
/// grantor and the purpose.
pub open spec fn access_seeds(credential: Seq<u8>, grantor: Seq<u8>, purpose: Seq<char>) -> Seq<
    Seq<u8>,
> {
    seq![access_tag(), credential, grantor] + seed_pieces(text_bytes(purpose))
}

/// No piece is longer than `MAX_SEED_LEN` bytes, there is at least one, and
/// all but the last are full: `n` bytes make at most `n / MAX_SEED_LEN + 1`
/// pieces.
pub proof fn seed_pieces_are_short(bytes: Seq<u8>)
    ensures
        1 <= seed_pieces(bytes).len() <= bytes.len() / (MAX_SEED_LEN as nat) + 1,
        forall|i: int|
            0 <= i < seed_pieces(bytes).len() ==> (#[trigger] seed_pieces(bytes)[i]).len()
                <= MAX_SEED_LEN,
    decreases bytes.len(),
{
    if bytes.len() > MAX_SEED_LEN {
        let rest = bytes.skip(MAX_SEED_LEN as int);
        seed_pieces_are_short(rest);
        assert forall|i: int| 0 <= i < seed_pieces(bytes).len() implies (#[trigger] seed_pieces(
            bytes,
        )[i]).len() <= MAX_SEED_LEN by {
            if i > 0 {
                assert(seed_pieces(bytes)[i] == seed_pieces(rest)[i - 1]);
            }
        }
    }
}

/// The address, and the bump seed that goes with it, which the ledger derives
/// for `seeds` under the program `program_id`; `None` where it derives none.
pub uninterp spec fn program_address(seeds: Seq<Seq<u8>>, program_id: Seq<u8>) -> Option<
    (Seq<u8>, u8),
>;

/// The seeds that a vector of byte strings holds.
pub open spec fn seeds_view(seeds: &Vec<Vec<u8>>) -> Seq<Seq<u8>> {
    Seq::new(seeds@.len(), |i: int| seeds@[i]@)
}

/// A derived address and its bump seed, by their values.
pub open spec fn derived_view(derived: Option<(Pubkey, u8)>) -> Option<(Seq<u8>, u8)> {
    match derived {
        Some((address, bump)) => Some((address@, bump)),
        None => None,
    }
}

/// Calls `anchor_lang::prelude::Pubkey::try_find_program_address`, which
/// hashes the seeds, a bump seed and the program id, and tries the bump seeds
/// from 255 down until the hash is no curve point. The result is a function
/// of the seeds and the program id alone, and the contract gives it its name.
/// Of the result itself it claims what the function documents of the number
/// of seeds: for `MAX_SEEDS` seeds or more there is none.
#[verifier::external_body]
pub(crate) fn try_find_program_address(seeds: &Vec<Vec<u8>>, program_id: &Pubkey) -> (derived:
    Option<(Pubkey, u8)>)
    ensures
        derived_view(derived) == program_address(seeds_view(seeds), program_id@),
        seeds@.len() >= MAX_SEEDS ==> derived is None,
{
    let parts: Vec<&[u8]> = seeds.iter().map(|seed| seed.as_slice()).collect();
    let program = anchor_lang::prelude::Pubkey::new_from_array(program_id.bytes);
    match anchor_lang::prelude::Pubkey::try_find_program_address(&parts, &program) {
        Some((address, bump)) => Some((Pubkey { bytes: address.to_bytes() }, bump)),
        None => None,
    }
}

/// The bytes of `bytes` from position `from` up to position `to`.
fn piece_of(bytes: &Vec<u8>, from: usize, to: usize) -> (piece: Vec<u8>)
    requires
        from <= to <= bytes@.len(),
    ensures
        piece@ == bytes@.subrange(from as int, to as int),
{
    let mut piece: Vec<u8> = Vec::new();
    let mut i: usize = from;
    while i < to
        invariant
            from <= i <= to <= bytes@.len(),
            piece@ == bytes@.subrange(from as int, i as int),
        decreases to - i,
    {
        piece.push(bytes[i]);
        i += 1;
        assert(piece@ =~= bytes@.subrange(from as int, i as int));
    }
    piece
}

/// Adds the seeds of `bytes` to `seeds`.
fn push_pieces(seeds: &mut Vec<Vec<u8>>, bytes: &Vec<u8>)
    ensures
        seeds_view(final(seeds)) == seeds_view(old(seeds)) + seed_pieces(bytes@),
{
    let ghost before = seeds_view(seeds);
    let mut start: usize = 0;
    assert(bytes@.skip(0) =~= bytes@);
    while bytes.len() - start > MAX_SEED_LEN
        invariant
            start <= bytes@.len(),
            seeds_view(seeds) + seed_pieces(bytes@.skip(start as int)) == before + seed_pieces(
                bytes@,
            ),
        decreases bytes@.len() - start,
    {
        let ghost held = seeds_view(seeds);
        let ghost rest = bytes@.skip(start as int);
        let piece = piece_of(bytes, start, start + MAX_SEED_LEN);
        seeds.push(piece);
        start += MAX_SEED_LEN;
        proof {
            assert(piece@ =~= rest.take(MAX_SEED_LEN as int));
            assert(bytes@.skip(start as int) =~= rest.skip(MAX_SEED_LEN as int));
            assert(seeds_view(seeds) =~= held + seq![piece@]);
            assert(seeds_view(seeds) + seed_pieces(bytes@.skip(start as int)) =~= held
                + seed_pieces(rest));
        }
    }
    let ghost held = seeds_view(seeds);
    let last = piece_of(bytes, start, bytes.len());
    seeds.push(last);
    proof {
        assert(last@ =~= bytes@.skip(start as int));
        assert(seeds_view(seeds) =~= held + seq![last@]);
    }
}

/// The seeds of the identity record of `owner`.
pub fn identity_seed_list(owner: &Pubkey) -> (seeds: Vec<Vec<u8>>)
    ensures
        seeds_view(&seeds) == identity_seeds(owner@),
{
    let mut seeds: Vec<Vec<u8>> = Vec::new();
    seeds.push("identity".as_bytes_vec());
    seeds.push(owner.to_seed());
    assert(seeds_view(&seeds) =~= identity_seeds(owner@));
    seeds
}

/// The seeds of the credential that `issuer_did` issued to `owner` under the
/// type `credential_type`.
pub fn credential_seed_list(owner: &Pubkey, credential_type: &str, issuer_did: &str) -> (seeds:
    Vec<Vec<u8>>)
    ensures
        seeds_view(&seeds) == credential_seeds(owner@, credential_type@, issuer_did@),
{
    let mut seeds: Vec<Vec<u8>> = Vec::new();
    seeds.push("credential".as_bytes_vec());
    seeds.push(owner.to_seed());
    assert(seeds_view(&seeds) =~= seq![credential_tag(), owner@]);
    push_pieces(&mut seeds, &credential_type.as_bytes_vec());
    push_pieces(&mut seeds, &issuer_did.as_bytes_vec());
    seeds
}

/// The seeds of the grant that `grantor` made on `credential` for `purpose`.
pub fn access_seed_list(credential: &Pubkey, grantor: &Pubkey, purpose: &str) -> (seeds: Vec<
    Vec<u8>,
>)
    ensures
        seeds_view(&seeds) == access_seeds(credential@, grantor@, purpose@),
{
    let mut seeds: Vec<Vec<u8>> = Vec::new();
    seeds.push("access".as_bytes_vec());
    seeds.push(credential.to_seed());
    seeds.push(grantor.to_seed());
    assert(seeds_view(&seeds) =~= seq![access_tag(), credential@, grantor@]);
    push_pieces(&mut seeds, &purpose.as_bytes_vec());
    seeds
}

/// The address of the identity record of `owner` under `program_id`.
pub fn identity_address(owner: &Pubkey, program_id: &Pubkey) -> (derived: Option<(Pubkey, u8)>)
    ensures
        derived_view(derived) == program_address(identity_seeds(owner@), program_id@),
{
    try_find_program_address(&identity_seed_list(owner), program_id)
}

/// The address of the credential that `issuer_did` issued to `owner` under
/// the type `credential_type`. Strings so long that they make `MAX_SEEDS`
/// seeds or more with the tag and the owner have none.
pub fn credential_address(
    owner: &Pubkey,
    credential_type: &str,
    issuer_did: &str,
    program_id: &Pubkey,
) -> (derived: Option<(Pubkey, u8)>)
    ensures
        derived_view(derived) == program_address(
            credential_seeds(owner@, credential_type@, issuer_did@),
            program_id@,
        ),
        credential_seeds(owner@, credential_type@, issuer_did@).len() >= MAX_SEEDS
            ==> derived is None,
{
    try_find_program_address(
        &credential_seed_list(owner, credential_type, issuer_did),
        program_id,
    )
}

/// The address of the grant that `grantor` made on `credential` for
/// `purpose`. A purpose so long that it makes `MAX_SEEDS` seeds or more with
/// the tag and the two keys has none.
pub fn access_grant_address(
    credential: &Pubkey,
    grantor: &Pubkey,
    purpose: &str,
    program_id: &Pubkey,
) -> (derived: Option<(Pubkey, u8)>)
    ensures
        derived_view(derived) == program_address(
            access_seeds(credential@, grantor@, purpose@),
            program_id@,
        ),
        access_seeds(credential@, grantor@, purpose@).len() >= MAX_SEEDS ==> derived is None,
{
    try_find_program_address(&access_seed_list(credential, grantor, purpose), program_id)
}

} // verus!
