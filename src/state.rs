//! The persisted review record and its byte layout: one byte for the
//! initialized flag, then title, rating, description and location.

use vstd::prelude::*;
use crate::wire::{
    fields_bytes, fields_fit, lemma_fields_round_trip, parse_fields, read_fields, write_fields,
    ReviewFields,
};

verus! {

/// The record kept at a review's address.
pub struct AccountState {
    pub is_initialized: bool,
    pub title: String,
    pub rating: u8,
    pub description: String,
    pub location: String,
}

/// What a record holds, as values.
pub struct StateModel {
    pub is_initialized: bool,
    pub fields: ReviewFields,
}

impl View for AccountState {
    type V = StateModel;

    open spec fn view(&self) -> StateModel {
        StateModel {
            is_initialized: self.is_initialized,
            fields: ReviewFields {
                title: self.title@,
                rating: self.rating,
                description: self.description@,
                location: self.location@,
            },
        }
    }
}

/// The encoding of a record.
pub open spec fn state_bytes(m: StateModel) -> Seq<u8> {
    seq![if m.is_initialized { 1u8 } else { 0u8 }] + fields_bytes(m.fields)
}

/// The record at the start of `b`, if the bytes there form one; bytes after
/// it are ignored.
pub open spec fn parse_state(b: Seq<u8>) -> Option<StateModel> {
    if b.len() >= 1 && b[0] <= 1 {
        match parse_fields(b, 1) {
            Some((fields, _)) => Some(StateModel { is_initialized: b[0] == 1, fields }),
            None => None,
        }
    } else {
        None
    }
}

/// The record that stands for "not yet created": not initialized, every
/// field empty or zero. An all-zero buffer decodes to it.
pub open spec fn empty_state() -> StateModel {
    StateModel {
        is_initialized: false,
        fields: ReviewFields {
            title: Seq::empty(),
            rating: 0,
            description: Seq::empty(),
            location: Seq::empty(),
        },
    }
}

/// The record that storage bytes are read as: the one they hold, or the
/// empty record where they hold none.
pub open spec fn state_of(b: Seq<u8>) -> StateModel {
    match parse_state(b) {
        Some(m) => m,
        None => empty_state(),
    }
}

/// A record that is encoded and read back, with any bytes after it, is the
/// same record.
pub proof fn lemma_state_round_trip(m: StateModel, rest: Seq<u8>)
    requires
        fields_fit(m.fields),
    ensures
        parse_state(state_bytes(m) + rest) == Some(m),
        state_of(state_bytes(m) + rest) == m,
{
    let b = state_bytes(m) + rest;
    let fb = fields_bytes(m.fields);
    assert(b.subrange(1, 1 + fb.len() as int) =~= fb);
    lemma_fields_round_trip(b, 1, m.fields);
}

impl AccountState {
    /// The empty record.
    pub fn empty() -> (r: AccountState)
        ensures
            r@ == empty_state(),
    {
        AccountState {
            is_initialized: false,
            title: String::new(),
            rating: 0,
            description: String::new(),
            location: String::new(),
        }
    }

    /// Whether the record has been created.
    pub fn is_initialized(&self) -> (r: bool)
        ensures
            r == self.is_initialized,
    {
        self.is_initialized
    }

    /// Whether every text field fits its length prefix.
    pub open spec fn fits(&self) -> bool {
        fields_fit(self@.fields)
    }

    /// Encodes the record.
    pub fn pack(&self) -> (r: Vec<u8>)
        requires
            self.fits(),
        ensures
            r@ == state_bytes(self@),
    {
        let mut out: Vec<u8> = Vec::new();
        out.push(if self.is_initialized { 1u8 } else { 0u8 });
        write_fields(&mut out, &self.title, self.rating, &self.description, &self.location);
        assert(out@ =~= state_bytes(self@));
        out
    }

    /// Decodes the record at the start of `data`, or `None` where the bytes
    /// there form none.
    pub fn unpack(data: &[u8]) -> (r: Option<AccountState>)
        ensures
            match r {
                Some(s) => parse_state(data@) == Some(s@),
                None => parse_state(data@) is None,
            },
    {
        if data.len() < 1 || data[0] > 1 {
            return None;
        }
        match read_fields(data, 1) {
            Some((title, rating, description, location, _)) => Some(
                AccountState { is_initialized: data[0] == 1, title, rating, description, location },
            ),
            None => None,
        }
    }

    /// Reads storage bytes as a record: where they hold none (too short,
    /// or all zero past a cleared flag), the empty record.
    pub fn unpack_unchecked(data: &[u8]) -> (r: AccountState)
        ensures
            r@ == state_of(data@),
    {
        match AccountState::unpack(data) {
            Some(s) => s,
            None => AccountState::empty(),
        }
    }
}

} // verus!
