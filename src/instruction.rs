//! The instructions the processor accepts and their byte encoding: a tag
//! byte (0 adds a review, 1 updates one) followed by the four fields.

use vstd::prelude::*;
use crate::error::ReviewError;
use crate::wire::{
    fields_bytes, fields_fit, lemma_fields_round_trip, parse_fields, read_fields, write_fields,
    ReviewFields,
};

verus! {

/// A decoded instruction.
pub enum ReviewInstruction {
    AddReview { title: String, rating: u8, description: String, location: String },
    UpdateReview { title: String, rating: u8, description: String, location: String },
}

/// What an instruction asks for, as values.
pub enum InstructionModel {
    Add(ReviewFields),
    Update(ReviewFields),
}

impl View for ReviewInstruction {
    type V = InstructionModel;

    open spec fn view(&self) -> InstructionModel {
        match self {
            ReviewInstruction::AddReview { title, rating, description, location } =>
                InstructionModel::Add(
                ReviewFields {
                    title: title@,
                    rating: *rating,
                    description: description@,
                    location: location@,
                },
            ),
            ReviewInstruction::UpdateReview { title, rating, description, location } =>
                InstructionModel::Update(
                ReviewFields {
                    title: title@,
                    rating: *rating,
                    description: description@,
                    location: location@,
                },
            ),
        }
    }
}

/// The encoding of an instruction.
pub open spec fn instruction_bytes(m: InstructionModel) -> Seq<u8> {
    match m {
        InstructionModel::Add(f) => seq![0u8] + fields_bytes(f),
        InstructionModel::Update(f) => seq![1u8] + fields_bytes(f),
    }
}

/// The instruction that `b` encodes: a known tag and four fields that use
/// up every byte.
pub open spec fn parse_instruction(b: Seq<u8>) -> Option<InstructionModel> {
    if b.len() >= 1 && b[0] <= 1 {
        match parse_fields(b, 1) {
            Some((f, end)) => if end == b.len() {
                if b[0] == 0 {
                    Some(InstructionModel::Add(f))
                } else {
                    Some(InstructionModel::Update(f))
                }
            } else {
                None
            },
            None => None,
        }
    } else {
        None
    }
}

/// The fields an instruction carries.
pub open spec fn instruction_fields(m: InstructionModel) -> ReviewFields {
    match m {
        InstructionModel::Add(f) => f,
        InstructionModel::Update(f) => f,
    }
}

/// An encoded instruction decodes to itself.
pub proof fn lemma_instruction_round_trip(m: InstructionModel)
    requires
        fields_fit(instruction_fields(m)),
    ensures
        parse_instruction(instruction_bytes(m)) == Some(m),
{
    let f = instruction_fields(m);
    let b = instruction_bytes(m);
    assert(b.subrange(1, 1 + fields_bytes(f).len() as int) =~= fields_bytes(f));
    lemma_fields_round_trip(b, 1, f);
}

impl ReviewInstruction {
    /// Decodes an instruction; any other byte string is refused.
    pub fn unpack(input: &[u8]) -> (r: Result<ReviewInstruction, ReviewError>)
        ensures
            match r {
                Ok(i) => parse_instruction(input@) == Some(i@),
                Err(e) => parse_instruction(input@) is None && e == ReviewError::InvalidInstructionData,
            },
    {
        if input.len() < 1 || input[0] > 1 {
            return Err(ReviewError::InvalidInstructionData);
        }
        match read_fields(input, 1) {
            Some((title, rating, description, location, end)) => {
                if end != input.len() {
                    Err(ReviewError::InvalidInstructionData)
                } else if input[0] == 0 {
                    Ok(ReviewInstruction::AddReview { title, rating, description, location })
                } else {
                    Ok(ReviewInstruction::UpdateReview { title, rating, description, location })
                }
            },
            None => Err(ReviewError::InvalidInstructionData),
        }
    }

    /// Whether every text field fits its length prefix.
    pub open spec fn fits(&self) -> bool {
        fields_fit(instruction_fields(self@))
    }

    /// Encodes the instruction.
    pub fn pack(&self) -> (r: Vec<u8>)
        requires
            self.fits(),
        ensures
            r@ == instruction_bytes(self@),
    {
        let mut out: Vec<u8> = Vec::new();
        match self {
            ReviewInstruction::AddReview { title, rating, description, location } => {
                out.push(0u8);
                write_fields(&mut out, title, *rating, description, location);
            },
            ReviewInstruction::UpdateReview { title, rating, description, location } => {
                out.push(1u8);
                write_fields(&mut out, title, *rating, description, location);
            },
        }
        assert(out@ =~= instruction_bytes(self@));
        out
    }
}

} // verus!
