use vstd::prelude::*;

use crate::cookie_store::AimeIdx;
use crate::text::{parse_unsigned, parse_unsigned_max, str_eq};

verus! {

/// Why an Aime page could not be read.
#[derive(Clone, Copy, PartialEq, Eq, Structural, Debug)]
pub enum AimeParseError {
    /// The index input has no value.
    NoIdx,
    /// The index is no number from 0 to 255.
    BadIdx,
    /// The token input has no value.
    NoToken,
}

/// An Aime card of the selection page: its index, the player's name, and
/// whether it holds the paid course.
#[derive(Clone, Debug)]
pub struct AimeEntry {
    pub idx: AimeIdx,
    pub player_name: String,
    pub paid: bool,
}

/// The block of a card that holds the paid course has this class.
pub open spec fn has_class(classes: Seq<String>, c: Seq<char>) -> bool {
    exists|i: int| 0 <= i < classes.len() && #[trigger] classes[i]@ == c
}

/// Reads a card block from the value of its index input, the text of its
/// name block and its classes.
pub fn parse_aime_block(idx_value: Option<&str>, player_name: String, classes: &Vec<String>) -> (r:
    Result<AimeEntry, AimeParseError>)
    ensures
        match idx_value {
            None => r == Err::<AimeEntry, AimeParseError>(AimeParseError::NoIdx),
            Some(v) => match parse_unsigned(v@, 255) {
                None => r == Err::<AimeEntry, AimeParseError>(AimeParseError::BadIdx),
                Some(i) => r matches Ok(e) && e.idx == AimeIdx(i as u8) && e.player_name@
                    == player_name@ && e.paid == has_class(classes@, "charge_aime_block"@),
            },
        },
{
    let v = match idx_value {
        Some(v) => v,
        None => {
            return Err(AimeParseError::NoIdx);
        },
    };
    let idx = match parse_unsigned_max(v, 255) {
        Some(i) => AimeIdx(i as u8),
        None => {
            return Err(AimeParseError::BadIdx);
        },
    };
    let mut paid = false;
    let mut i: usize = 0;
    while i < classes.len()
        invariant
            0 <= i <= classes@.len(),
            paid == exists|j: int| 0 <= j < i && #[trigger] classes@[j]@ == "charge_aime_block"@,
        decreases classes@.len() - i,
    {
        if str_eq(classes[i].as_str(), "charge_aime_block") {
            paid = true;
        }
        i = i + 1;
    }
    Ok(AimeEntry { idx, player_name, paid })
}

/// The form that gives the paid course back: the card, the session token,
/// and an empty `change` field.
#[derive(Clone, Debug)]
pub struct ResetChargedAimeForm {
    pub idx: String,
    pub token: String,
    pub change: &'static str,
}

/// Reads the confirmation page of giving the paid course back, from the
/// values of its index and token inputs.
pub fn parse_paid_confirmation(idx: Option<&str>, token: Option<&str>) -> (r: Result<
    ResetChargedAimeForm,
    AimeParseError,
>)
    ensures
        match (idx, token) {
            (None, _) => r == Err::<ResetChargedAimeForm, AimeParseError>(AimeParseError::NoIdx),
            (Some(_), None) => r == Err::<ResetChargedAimeForm, AimeParseError>(
                AimeParseError::NoToken,
            ),
            (Some(i), Some(t)) => r matches Ok(f) && f.idx@ == i@ && f.token@ == t@ && f.change@
                == ""@,
        },
{
    let idx = match idx {
        Some(i) => i.to_owned(),
        None => {
            return Err(AimeParseError::NoIdx);
        },
    };
    let token = match token {
        Some(t) => t.to_owned(),
        None => {
            return Err(AimeParseError::NoToken);
        },
    };
    Ok(ResetChargedAimeForm { idx, token, change: "" })
}

} // verus!
