//! The two operations: adding a review at its derived address, and updating
//! the rating, description and location of an existing one. Every
//! precondition is checked before anything is written, so a failure leaves
//! all accounts as they were.

use vstd::prelude::*;
use vstd::slice::{slice_subrange, slice_to_vec};
use vstd::utf8::encode_utf8;
use crate::address::{derive_address, find_program_address, keys_equal};
use crate::error::ReviewError;
use crate::instruction::{parse_instruction, InstructionModel, ReviewInstruction};
use crate::state::{lemma_state_round_trip, state_bytes, state_of, AccountState, StateModel};
use crate::wire::{fields_fit, push_bytes, ReviewFields};

verus! {

/// The storage reserved for a review when it is created.
pub const ACCOUNT_LEN: usize = 1000;

/// An account as the processor sees it.
#[derive(Debug, Clone, PartialEq, Eq)]
pub struct Account {
    pub key: [u8; 32],
    pub is_signer: bool,
    pub owner: [u8; 32],
    pub data: Vec<u8>,
}

/// The storage that a successful add asks the runtime to create: `space`
/// bytes at `address`, owned by the program, signed for with the seeds
/// `[authority, title, [bump]]`.
#[derive(Debug, Clone, PartialEq, Eq)]
pub struct Allocation {
    pub address: [u8; 32],
    pub authority: [u8; 32],
    pub title: Vec<u8>,
    pub bump: u8,
    pub space: usize,
}

/// A rating from 1 to 5.
pub open spec fn rating_valid(rating: u8) -> bool {
    1 <= rating <= 5
}

/// The number of bytes a record with these fields encodes to.
pub open spec fn record_len(f: ReviewFields) -> int {
    14 + encode_utf8(f.title).len() + encode_utf8(f.description).len()
        + encode_utf8(f.location).len() as int
}

/// A record with these fields can be encoded into `capacity` bytes.
pub open spec fn record_fits(f: ReviewFields, capacity: int) -> bool {
    fields_fit(f) && record_len(f) <= capacity
}

/// The record an add writes.
pub open spec fn created_state(f: ReviewFields) -> StateModel {
    StateModel { is_initialized: true, fields: f }
}

/// The storage bytes an add writes: the record, then zeros up to the
/// reserved length.
pub open spec fn created_data(f: ReviewFields) -> Seq<u8> {
    let b = state_bytes(created_state(f));
    b + Seq::new((ACCOUNT_LEN - b.len()) as nat, |i: int| 0u8)
}

/// The outcome of the checks of an add, in order: the first that fails
/// gives the error; where all pass, the bump of the derived address.
/// The accounts are the authority, the review's storage and the system
/// program.
pub open spec fn create_check(program_id: Seq<u8>, accounts: Seq<Account>, f: ReviewFields) -> Result<
    u8,
    ReviewError,
> {
    if accounts.len() < 3 {
        Err(ReviewError::NotEnoughAccountKeys)
    } else if !accounts[0].is_signer {
        Err(ReviewError::MissingRequiredSignature)
    } else {
        match derive_address(accounts[0].key@, encode_utf8(f.title), program_id) {
            None => Err(ReviewError::AddressDerivationFailed),
            Some((address, bump)) => if address != accounts[1].key@ {
                Err(ReviewError::InvalidPda)
            } else if !rating_valid(f.rating) {
                Err(ReviewError::InvalidRating)
            } else if state_of(accounts[1].data@).is_initialized {
                Err(ReviewError::AccountAlreadyInitialized)
            } else if !record_fits(f, ACCOUNT_LEN as int) {
                Err(ReviewError::RecordTooLarge)
            } else {
                Ok(bump)
            },
        }
    }
}

/// The record an update leaves: the stored title and flag, the new rating,
/// description and location.
pub open spec fn updated_state(stored: StateModel, f: ReviewFields) -> StateModel {
    StateModel {
        is_initialized: stored.is_initialized,
        fields: ReviewFields {
            title: stored.fields.title,
            rating: f.rating,
            description: f.description,
            location: f.location,
        },
    }
}

/// The storage bytes an update leaves: the new record over the start of
/// the old bytes, the rest of them kept.
pub open spec fn updated_data(old_data: Seq<u8>, f: ReviewFields) -> Seq<u8> {
    let b = state_bytes(updated_state(state_of(old_data), f));
    b + old_data.subrange(b.len() as int, old_data.len() as int)
}

/// The outcome of the checks of an update, in order: the first that fails
/// gives the error. The address is derived from the stored title; the
/// instruction's title plays no part. The accounts are the authority and
/// the review's storage.
pub open spec fn update_check(program_id: Seq<u8>, accounts: Seq<Account>, f: ReviewFields) -> Result<
    (),
    ReviewError,
> {
    if accounts.len() < 2 {
        Err(ReviewError::NotEnoughAccountKeys)
    } else if accounts[1].owner@ != program_id {
        Err(ReviewError::IllegalOwner)
    } else if !accounts[0].is_signer {
        Err(ReviewError::MissingRequiredSignature)
    } else {
        let stored = state_of(accounts[1].data@);
        match derive_address(accounts[0].key@, encode_utf8(stored.fields.title), program_id) {
            None => Err(ReviewError::AddressDerivationFailed),
            Some((address, _)) => if address != accounts[1].key@ {
                Err(ReviewError::InvalidPda)
            } else if !stored.is_initialized {
                Err(ReviewError::UninitializedAccount)
            } else if !rating_valid(f.rating) {
                Err(ReviewError::InvalidRating)
            } else if !record_fits(updated_state(stored, f).fields, accounts[1].data@.len() as int) {
                Err(ReviewError::RecordTooLarge)
            } else {
                Ok(())
            },
        }
    }
}

/// `after` is `before` with the storage account's owner and data replaced.
pub open spec fn target_written(
    before: Seq<Account>,
    after: Seq<Account>,
    owner: Seq<u8>,
    data: Seq<u8>,
) -> bool {
    &&& after.len() == before.len()
    &&& forall|i: int| 0 <= i < before.len() && i != 1 ==> after[i] == before[i]
    &&& after[1].key == before[1].key
    &&& after[1].is_signer == before[1].is_signer
    &&& after[1].owner@ == owner
    &&& after[1].data@ == data
}

/// What an add with fields `f` returns and leaves.
pub open spec fn create_post(
    program_id: Seq<u8>,
    before: Seq<Account>,
    after: Seq<Account>,
    f: ReviewFields,
    r: Result<Allocation, ReviewError>,
) -> bool {
    match r {
        Ok(alloc) => {
            &&& create_check(program_id, before, f) == Ok::<u8, ReviewError>(alloc.bump)
            &&& alloc.address == before[1].key
            &&& alloc.authority == before[0].key
            &&& alloc.title@ == encode_utf8(f.title)
            &&& alloc.space == ACCOUNT_LEN
            &&& target_written(before, after, program_id, created_data(f))
        },
        Err(e) => create_check(program_id, before, f) == Err::<u8, ReviewError>(e) && after
            == before,
    }
}

/// What an update with fields `f` returns and leaves.
pub open spec fn update_post(
    program_id: Seq<u8>,
    before: Seq<Account>,
    after: Seq<Account>,
    f: ReviewFields,
    r: Result<(), ReviewError>,
) -> bool {
    match r {
        Ok(_) => {
            &&& update_check(program_id, before, f) == Ok::<(), ReviewError>(())
            &&& target_written(before, after, before[1].owner@, updated_data(before[1].data@, f))
        },
        Err(e) => update_check(program_id, before, f) == Err::<(), ReviewError>(e) && after
            == before,
    }
}

/// Whether a record with these fields fits in `capacity` bytes.
fn record_fits_in(title: &String, description: &String, location: &String, capacity: usize) -> (r:
    bool)
    ensures
        r == record_fits(
            ReviewFields { title: title@, rating: 0, description: description@, location: location@ },
            capacity as int,
        ),
{
    let t: usize = title.as_str().as_bytes().len();
    let d: usize = description.as_str().as_bytes().len();
    let l: usize = location.as_str().as_bytes().len();
    if t > 0xFFFF_FFFF || d > 0xFFFF_FFFF || l > 0xFFFF_FFFF || capacity < 14 {
        return false;
    }
    let room: usize = capacity - 14;
    t <= room && d <= room - t && l <= room - t - d
}

/// Adds a review: checks, in order, that there are three accounts, that
/// the authority signed, that the storage account is at the address
/// derived from the authority and title, that the rating is valid, that
/// the storage holds no created record and that the record fits the
/// reserved length; then writes the record and returns the storage to
/// create.
pub fn add_review(
    program_id: &[u8; 32],
    accounts: &mut Vec<Account>,
    title: String,
    rating: u8,
    description: String,
    location: String,
) -> (r: Result<Allocation, ReviewError>)
    ensures
        create_post(
            program_id@,
            old(accounts)@,
            final(accounts)@,
            ReviewFields { title: title@, rating, description: description@, location: location@ },
            r,
        ),
{
    let ghost f = ReviewFields {
        title: title@,
        rating,
        description: description@,
        location: location@,
    };
    if accounts.len() < 3 {
        return Err(ReviewError::NotEnoughAccountKeys);
    }
    if !accounts[0].is_signer {
        return Err(ReviewError::MissingRequiredSignature);
    }
    let authority: [u8; 32] = accounts[0].key;
    let target_key: [u8; 32] = accounts[1].key;
    let seed_title = slice_to_vec(title.as_str().as_bytes());
    let (address, bump) = match find_program_address(&authority, seed_title.as_slice(), program_id) {
        Some(found) => found,
        None => return Err(ReviewError::AddressDerivationFailed),
    };
    if !keys_equal(&address, &target_key) {
        return Err(ReviewError::InvalidPda);
    }
    if rating < 1 || rating > 5 {
        return Err(ReviewError::InvalidRating);
    }
    let stored = AccountState::unpack_unchecked(accounts[1].data.as_slice());
    if stored.is_initialized() {
        return Err(ReviewError::AccountAlreadyInitialized);
    }
    if !record_fits_in(&title, &description, &location, ACCOUNT_LEN) {
        return Err(ReviewError::RecordTooLarge);
    }
    let record = AccountState { is_initialized: true, title, rating, description, location };
    assert(record@ == created_state(f));
    let packed = record.pack();
    let mut data = packed.clone();
    while data.len() < ACCOUNT_LEN
        invariant
            packed@.len() <= data@.len() <= ACCOUNT_LEN,
            data@ == packed@ + Seq::new((data@.len() - packed@.len()) as nat, |i: int| 0u8),
        decreases ACCOUNT_LEN - data@.len(),
    {
        data.push(0u8);
        assert(data@ =~= packed@ + Seq::new((data@.len() - packed@.len()) as nat, |i: int| 0u8));
    }
    assert(data@ =~= created_data(f));
    let target = Account {
        key: target_key,
        is_signer: accounts[1].is_signer,
        owner: *program_id,
        data,
    };
    accounts.set(1, target);
    Ok(Allocation { address: target_key, authority, title: seed_title, bump, space: ACCOUNT_LEN })
}

/// Updates a review: checks, in order, that there are two accounts, that
/// the program owns the storage, that the authority signed, that the
/// storage is at the address derived from the authority and the stored
/// title, that the record was created, that the rating is valid and that
/// the new record fits the storage; then writes the new rating,
/// description and location. The instruction's title is not used.
pub fn update_review(
    program_id: &[u8; 32],
    accounts: &mut Vec<Account>,
    title: String,
    rating: u8,
    description: String,
    location: String,
) -> (r: Result<(), ReviewError>)
    ensures
        update_post(
            program_id@,
            old(accounts)@,
            final(accounts)@,
            ReviewFields { title: title@, rating, description: description@, location: location@ },
            r,
        ),
{
    let ghost f = ReviewFields {
        title: title@,
        rating,
        description: description@,
        location: location@,
    };
    if accounts.len() < 2 {
        return Err(ReviewError::NotEnoughAccountKeys);
    }
    if !keys_equal(&accounts[1].owner, program_id) {
        return Err(ReviewError::IllegalOwner);
    }
    if !accounts[0].is_signer {
        return Err(ReviewError::MissingRequiredSignature);
    }
    let authority: [u8; 32] = accounts[0].key;
    let target_key: [u8; 32] = accounts[1].key;
    let stored = AccountState::unpack_unchecked(accounts[1].data.as_slice());
    let (address, _bump) = match find_program_address(
        &authority,
        stored.title.as_str().as_bytes(),
        program_id,
    ) {
        Some(found) => found,
        None => return Err(ReviewError::AddressDerivationFailed),
    };
    if !keys_equal(&address, &target_key) {
        return Err(ReviewError::InvalidPda);
    }
    if !stored.is_initialized() {
        return Err(ReviewError::UninitializedAccount);
    }
    if rating < 1 || rating > 5 {
        return Err(ReviewError::InvalidRating);
    }
    let capacity: usize = accounts[1].data.len();
    if !record_fits_in(&stored.title, &description, &location, capacity) {
        return Err(ReviewError::RecordTooLarge);
    }
    let record = AccountState {
        is_initialized: stored.is_initialized,
        title: stored.title,
        rating,
        description,
        location,
    };
    assert(record@ == updated_state(state_of(old(accounts)@[1].data@), f));
    let mut data = record.pack();
    let n: usize = data.len();
    push_bytes(&mut data, slice_subrange(accounts[1].data.as_slice(), n, capacity));
    let target = Account {
        key: target_key,
        is_signer: accounts[1].is_signer,
        owner: accounts[1].owner,
        data,
    };
    accounts.set(1, target);
    Ok(())
}

/// Decodes an instruction and runs it: an add returns the storage to
/// create, an update returns nothing. Bytes that are no instruction are
/// refused and change nothing.
pub fn process_instruction(
    program_id: &[u8; 32],
    accounts: &mut Vec<Account>,
    instruction_data: &[u8],
) -> (r: Result<Option<Allocation>, ReviewError>)
    ensures
        match parse_instruction(instruction_data@) {
            None => r == Err::<Option<Allocation>, ReviewError>(
                ReviewError::InvalidInstructionData,
            ) && final(accounts)@ == old(accounts)@,
            Some(InstructionModel::Add(f)) => match r {
                Ok(Some(alloc)) => create_post(
                    program_id@,
                    old(accounts)@,
                    final(accounts)@,
                    f,
                    Ok(alloc),
                ),
                Ok(None) => false,
                Err(e) => create_post(program_id@, old(accounts)@, final(accounts)@, f, Err(e)),
            },
            Some(InstructionModel::Update(f)) => match r {
                Ok(Some(_)) => false,
                Ok(None) => update_post(program_id@, old(accounts)@, final(accounts)@, f, Ok(())),
                Err(e) => update_post(program_id@, old(accounts)@, final(accounts)@, f, Err(e)),
            },
        },
{
    let instruction = match ReviewInstruction::unpack(instruction_data) {
        Ok(i) => i,
        Err(e) => return Err(e),
    };
    match instruction {
        ReviewInstruction::AddReview { title, rating, description, location } => {
            match add_review(program_id, accounts, title, rating, description, location) {
                Ok(alloc) => Ok(Some(alloc)),
                Err(e) => Err(e),
            }
        },
        ReviewInstruction::UpdateReview { title, rating, description, location } => {
            match update_review(program_id, accounts, title, rating, description, location) {
                Ok(()) => Ok(None),
                Err(e) => Err(e),
            }
        },
    }
}

/// An add whose authority did not sign fails with `MissingRequiredSignature`
/// and changes no account.
pub proof fn lemma_add_needs_signature(
    program_id: Seq<u8>,
    before: Seq<Account>,
    after: Seq<Account>,
    f: ReviewFields,
    r: Result<Allocation, ReviewError>,
)
    requires
        create_post(program_id, before, after, f, r),
        before.len() >= 3,
        !before[0].is_signer,
    ensures
        r == Err::<Allocation, ReviewError>(ReviewError::MissingRequiredSignature),
        after == before,
{
}

/// An update of storage the program owns, whose authority did not sign,
/// fails with `MissingRequiredSignature` and changes no account.
pub proof fn lemma_update_needs_signature(
    program_id: Seq<u8>,
    before: Seq<Account>,
    after: Seq<Account>,
    f: ReviewFields,
    r: Result<(), ReviewError>,
)
    requires
        update_post(program_id, before, after, f, r),
        before.len() >= 2,
        before[1].owner@ == program_id,
        !before[0].is_signer,
    ensures
        r == Err::<(), ReviewError>(ReviewError::MissingRequiredSignature),
        after == before,
{
}

/// An update of storage the program does not own fails with `IllegalOwner`,
/// whatever the storage holds, and changes no account.
pub proof fn lemma_update_needs_ownership(
    program_id: Seq<u8>,
    before: Seq<Account>,
    after: Seq<Account>,
    f: ReviewFields,
    r: Result<(), ReviewError>,
)
    requires
        update_post(program_id, before, after, f, r),
        before.len() >= 2,
        before[1].owner@ != program_id,
    ensures
        r == Err::<(), ReviewError>(ReviewError::IllegalOwner),
        after == before,
        forall|other: Account|
            other.owner == before[1].owner ==> #[trigger] update_check(
                program_id,
                before.update(1, other),
                f,
            ) == Err::<(), ReviewError>(ReviewError::IllegalOwner),
{
}

/// An add at storage that already holds a created record, where every
/// earlier check passes, fails with `AccountAlreadyInitialized` and leaves
/// the stored bytes as they were.
pub proof fn lemma_add_refuses_created_record(
    program_id: Seq<u8>,
    before: Seq<Account>,
    after: Seq<Account>,
    f: ReviewFields,
    r: Result<Allocation, ReviewError>,
)
    requires
        create_post(program_id, before, after, f, r),
        before.len() >= 3,
        before[0].is_signer,
        derive_address(before[0].key@, encode_utf8(f.title), program_id) matches Some((a, _))
            && a == before[1].key@,
        rating_valid(f.rating),
        state_of(before[1].data@).is_initialized,
    ensures
        r == Err::<Allocation, ReviewError>(ReviewError::AccountAlreadyInitialized),
        after == before,
        after[1].data@ == before[1].data@,
{
}

/// The title an update carries plays no part: two updates that differ
/// only in it give the same outcome, and the record keeps its stored
/// title.
pub proof fn lemma_update_ignores_instruction_title(
    program_id: Seq<u8>,
    accounts: Seq<Account>,
    f: ReviewFields,
    g: ReviewFields,
)
    requires
        f.rating == g.rating,
        f.description == g.description,
        f.location == g.location,
    ensures
        update_check(program_id, accounts, f) == update_check(program_id, accounts, g),
        updated_data(accounts[1].data@, f) == updated_data(accounts[1].data@, g),
        updated_state(state_of(accounts[1].data@), f).fields.title == state_of(
            accounts[1].data@,
        ).fields.title,
{
}

/// The fields of a review added with `f` and then updated with `g`.
pub open spec fn updated_fields(f: ReviewFields, g: ReviewFields) -> ReviewFields {
    ReviewFields {
        title: f.title,
        rating: g.rating,
        description: g.description,
        location: g.location,
    }
}

/// An added review reads back as the record the add was given; an update
/// of it by its authority with a valid rating and a record that fits
/// succeeds; after that update the review holds the added title, the
/// updated rating, description and location, and stays created.
pub proof fn lemma_add_then_update(
    program_id: Seq<u8>,
    s0: Seq<Account>,
    s1: Seq<Account>,
    s2: Seq<Account>,
    f: ReviewFields,
    g: ReviewFields,
    alloc: Allocation,
    r: Result<(), ReviewError>,
)
    requires
        create_post(program_id, s0, s1, f, Ok(alloc)),
        update_post(program_id, s1, s2, g, r),
    ensures
        state_of(s1[1].data@) == created_state(f),
        rating_valid(g.rating) && record_fits(updated_fields(f, g), ACCOUNT_LEN as int) ==> (r is Ok),
        r is Ok ==> state_of(s2[1].data@) == created_state(updated_fields(f, g)),
{
    let b1 = state_bytes(created_state(f));
    lemma_state_round_trip(
        created_state(f),
        Seq::new((ACCOUNT_LEN - b1.len()) as nat, |i: int| 0u8),
    );
    assert(s1[1].data@.len() == ACCOUNT_LEN);
    if r is Ok {
        let m = updated_state(created_state(f), g);
        let b2 = state_bytes(m);
        lemma_state_round_trip(m, s1[1].data@.subrange(b2.len() as int, s1[1].data@.len() as int));
    }
}

} // verus!
