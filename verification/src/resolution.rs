//! Resolutions of disputes: the arbitrator's decision and its penalty.

use vstd::prelude::*;
use vstd::utf8::encode_utf8;
use crate::address::Address;

verus! {

/// The longest description of a dispute, in bytes.
pub const MAX_DESCRIPTION_LENGTH: u32 = 1000;

/// The longest text of a resolution, in bytes.
pub const MAX_RESOLUTION_LENGTH: u32 = 2000;

/// The highest penalty: a fine of this amount.
pub const MAX_PENALTY_AMOUNT: i128 = 10_000;

/// The lowest penalty: a compensation of this amount.
pub const MIN_PENALTY_AMOUNT: i128 = -10_000;

/// How many disputes one query lists at most.
pub const MAX_DISPUTES_PER_QUERY: u32 = 50;

/// The length of a text in bytes, as the machine reports it.
pub open spec fn byte_len(text: Seq<char>) -> usize {
    encode_utf8(text).len() as usize
}

/// The decision of an arbitrator.
#[derive(Debug, PartialEq, Eq)]
pub struct Resolution {
    pub arbitrator: Address,
    pub resolution_text: String,
    /// Positive for a fine, negative for a compensation.
    pub penalty: Option<i128>,
    pub resolved_at: u64,
}

/// The figures of a resolution.
#[derive(Clone, Copy, Debug, PartialEq, Eq, Structural)]
pub struct ResolutionSummary {
    pub has_penalty: bool,
    pub penalty_amount: i128,
    pub is_fine: bool,
    pub is_compensation: bool,
    pub text_length: usize,
    pub resolved_timestamp: u64,
}

/// Why a resolution is not acceptable.
#[derive(Clone, Copy, Debug, PartialEq, Eq, Structural)]
pub enum ResolutionError {
    InvalidResolutionText,
    InvalidPenaltyAmount,
    ResolutionTooLong,
    ResolutionEmpty,
}

/// Whether a penalty is acceptable: none at all, or an amount other than
/// zero between the lowest and the highest penalty.
pub open spec fn penalty_acceptable(penalty: Option<i128>) -> bool {
    match penalty {
        Some(amount) => amount != 0 && MIN_PENALTY_AMOUNT <= amount <= MAX_PENALTY_AMOUNT,
        None => true,
    }
}

/// Whether a text is acceptable as the text of a resolution: not empty and
/// at most [`MAX_RESOLUTION_LENGTH`] bytes long.
pub open spec fn resolution_text_acceptable(text: Seq<char>) -> bool {
    text.len() != 0 && byte_len(text) <= MAX_RESOLUTION_LENGTH
}

impl Resolution {
    /// A resolution with the given parts.
    pub fn new(
        arbitrator: Address,
        resolution_text: String,
        penalty: Option<i128>,
        resolved_at: u64,
    ) -> (resolution: Resolution)
        ensures
            resolution == (Resolution { arbitrator, resolution_text, penalty, resolved_at }),
    {
        Resolution { arbitrator, resolution_text, penalty, resolved_at }
    }

    /// Whether the text is neither empty nor too long.
    pub fn is_valid_resolution_text(&self) -> (valid: bool)
        ensures
            valid == resolution_text_acceptable(self.resolution_text@),
    {
        let text = self.resolution_text.as_str();
        !text.is_empty() && text.len() <= MAX_RESOLUTION_LENGTH as usize
    }

    /// Whether the resolution carries a penalty.
    pub fn has_penalty(&self) -> (has: bool)
        ensures
            has == self.penalty is Some,
    {
        self.penalty.is_some()
    }

    /// The penalty, or zero where there is none.
    pub fn get_penalty_amount(&self) -> (amount: i128)
        ensures
            amount == match self.penalty {
                Some(p) => p,
                None => 0,
            },
    {
        match self.penalty {
            Some(amount) => amount,
            None => 0,
        }
    }

    /// Whether the penalty is a fine: a positive amount.
    pub fn is_fine(&self) -> (fine: bool)
        ensures
            fine == (self.penalty is Some && self.penalty->0 > 0),
    {
        match self.penalty {
            Some(amount) => amount > 0,
            None => false,
        }
    }

    /// Whether the penalty is a compensation: a negative amount.
    pub fn is_compensation(&self) -> (compensation: bool)
        ensures
            compensation == (self.penalty is Some && self.penalty->0 < 0),
    {
        match self.penalty {
            Some(amount) => amount < 0,
            None => false,
        }
    }

    /// Whether the penalty is acceptable.
    pub fn is_valid_penalty(&self) -> (valid: bool)
        ensures
            valid == penalty_acceptable(self.penalty),
    {
        match self.penalty {
            Some(amount) => MIN_PENALTY_AMOUNT <= amount && amount <= MAX_PENALTY_AMOUNT
                && amount != 0,
            None => true,
        }
    }

    /// The figures of the resolution.
    pub fn get_summary(&self) -> (summary: ResolutionSummary)
        ensures
            summary.has_penalty == self.penalty is Some,
            summary.penalty_amount == match self.penalty {
                Some(p) => p,
                None => 0,
            },
            summary.is_fine == (self.penalty is Some && self.penalty->0 > 0),
            summary.is_compensation == (self.penalty is Some && self.penalty->0 < 0),
            summary.text_length == byte_len(self.resolution_text@),
            summary.resolved_timestamp == self.resolved_at,
    {
        ResolutionSummary {
            has_penalty: self.has_penalty(),
            penalty_amount: self.get_penalty_amount(),
            is_fine: self.is_fine(),
            is_compensation: self.is_compensation(),
            text_length: self.resolution_text.as_str().len(),
            resolved_timestamp: self.resolved_at,
        }
    }
}

/// Checks the text of a resolution: an empty text is `ResolutionEmpty`, one
/// of more than [`MAX_RESOLUTION_LENGTH`] bytes is `ResolutionTooLong`.
pub fn validate_resolution_text(text: &str) -> (result: Result<(), ResolutionError>)
    ensures
        result == if text@.len() == 0 {
            Err::<(), ResolutionError>(ResolutionError::ResolutionEmpty)
        } else if byte_len(text@) > MAX_RESOLUTION_LENGTH {
            Err::<(), ResolutionError>(ResolutionError::ResolutionTooLong)
        } else {
            Ok::<(), ResolutionError>(())
        },
        result is Ok <==> resolution_text_acceptable(text@),
{
    if text.is_empty() {
        return Err(ResolutionError::ResolutionEmpty);
    }
    if text.len() > MAX_RESOLUTION_LENGTH as usize {
        return Err(ResolutionError::ResolutionTooLong);
    }
    Ok(())
}

/// Checks a penalty: no penalty is fine; an amount of zero or outside the
/// range from the lowest to the highest penalty is `InvalidPenaltyAmount`.
pub fn validate_penalty_amount(penalty: Option<i128>) -> (result: Result<(), ResolutionError>)
    ensures
        result == if penalty_acceptable(penalty) {
            Ok::<(), ResolutionError>(())
        } else {
            Err::<(), ResolutionError>(ResolutionError::InvalidPenaltyAmount)
        },
{
    match penalty {
        Some(amount) => {
            if amount == 0 {
                return Err(ResolutionError::InvalidPenaltyAmount);
            }
            if amount < MIN_PENALTY_AMOUNT || amount > MAX_PENALTY_AMOUNT {
                return Err(ResolutionError::InvalidPenaltyAmount);
            }
            Ok(())
        },
        None => Ok(()),
    }
}

} // verus!
