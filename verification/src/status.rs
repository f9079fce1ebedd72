//! The status translator: maps the engine interface's signed integer return
//! codes to a success / failure taxonomy.
//!
//! Positive codes 1 through 17 name successful operations.  The failure codes
//! are defined by the engine as the negation of 1 through 13; they are
//! recognized here as codes -13 through -1.  Any other code is a
//! programming-contract violation between the engine and this layer, and is
//! excluded by precondition rather than mapped.

use vstd::prelude::*;

verus! {

/// A successful engine-interface status.
#[derive(Clone, Copy, Debug, PartialEq, Eq, Structural)]
pub enum SpiOk {
    Connect,
    Finish,
    Fetch,
    Utility,
    Select,
    Selinto,
    Insert,
    Delete,
    Update,
    Cursor,
    InsertReturning,
    DeleteReturning,
    UpdateReturning,
    Rewritten,
    RelRegister,
    RelUnregister,
    TdRegister,
}

/// A recoverable error of this layer.
///
/// The first thirteen variants mirror the engine interface's failure codes;
/// [`check_status`] produces exactly those.  The remaining variants are
/// conditions the layer itself detects and surfaces as values rather than
/// crashes: reading a field of a tuple table that was never positioned,
/// looking up a cursor name that no open portal carries, and opening a cursor
/// under a name that is already in use or reserved.
#[derive(Clone, Copy, Debug, PartialEq, Eq, Structural)]
pub enum SpiError {
    Connect,
    Copy,
    Opunknown,
    Unconnected,
    Cursor,
    Argument,
    Param,
    Transaction,
    Noattribute,
    Nooutfunc,
    Typunknown,
    RelDuplicate,
    RelNotFound,
    Unpositioned,
    CursorNotFound,
    DuplicateCursor,
}

/// The success variant named by a code in 1 ..= 17.
pub open spec fn ok_of_code(code: int) -> SpiOk {
    if code == 1 {
        SpiOk::Connect
    } else if code == 2 {
        SpiOk::Finish
    } else if code == 3 {
        SpiOk::Fetch
    } else if code == 4 {
        SpiOk::Utility
    } else if code == 5 {
        SpiOk::Select
    } else if code == 6 {
        SpiOk::Selinto
    } else if code == 7 {
        SpiOk::Insert
    } else if code == 8 {
        SpiOk::Delete
    } else if code == 9 {
        SpiOk::Update
    } else if code == 10 {
        SpiOk::Cursor
    } else if code == 11 {
        SpiOk::InsertReturning
    } else if code == 12 {
        SpiOk::DeleteReturning
    } else if code == 13 {
        SpiOk::UpdateReturning
    } else if code == 14 {
        SpiOk::Rewritten
    } else if code == 15 {
        SpiOk::RelRegister
    } else if code == 16 {
        SpiOk::RelUnregister
    } else {
        SpiOk::TdRegister
    }
}

/// The failure variant named by a negated code in 1 ..= 13.
pub open spec fn err_of_code(code: int) -> SpiError {
    if code == 1 {
        SpiError::Connect
    } else if code == 2 {
        SpiError::Copy
    } else if code == 3 {
        SpiError::Opunknown
    } else if code == 4 {
        SpiError::Unconnected
    } else if code == 5 {
        SpiError::Cursor
    } else if code == 6 {
        SpiError::Argument
    } else if code == 7 {
        SpiError::Param
    } else if code == 8 {
        SpiError::Transaction
    } else if code == 9 {
        SpiError::Noattribute
    } else if code == 10 {
        SpiError::Nooutfunc
    } else if code == 11 {
        SpiError::Typunknown
    } else if code == 12 {
        SpiError::RelDuplicate
    } else {
        SpiError::RelNotFound
    }
}

/// Whether a status code names a known success or a known failure.
pub open spec fn recognized(code: int) -> bool {
    (1 <= code <= 17) || (-13 <= code <= -1)
}

impl SpiOk {
    /// The success variant for a positive status code, if the code is known.
    pub fn from_i32(code: i32) -> (r: Option<SpiOk>)
        ensures
            r == if 1 <= code <= 17 {
                Some(ok_of_code(code as int))
            } else {
                Option::<SpiOk>::None
            },
    {
        match code {
            1 => Some(SpiOk::Connect),
            2 => Some(SpiOk::Finish),
            3 => Some(SpiOk::Fetch),
            4 => Some(SpiOk::Utility),
            5 => Some(SpiOk::Select),
            6 => Some(SpiOk::Selinto),
            7 => Some(SpiOk::Insert),
            8 => Some(SpiOk::Delete),
            9 => Some(SpiOk::Update),
            10 => Some(SpiOk::Cursor),
            11 => Some(SpiOk::InsertReturning),
            12 => Some(SpiOk::DeleteReturning),
            13 => Some(SpiOk::UpdateReturning),
            14 => Some(SpiOk::Rewritten),
            15 => Some(SpiOk::RelRegister),
            16 => Some(SpiOk::RelUnregister),
            17 => Some(SpiOk::TdRegister),
            _ => None,
        }
    }
}

impl SpiError {
    /// The failure variant for a negated status code, if the code is known.
    pub fn from_i32(code: i32) -> (r: Option<SpiError>)
        ensures
            r == if 1 <= code <= 13 {
                Some(err_of_code(code as int))
            } else {
                Option::<SpiError>::None
            },
    {
        match code {
            1 => Some(SpiError::Connect),
            2 => Some(SpiError::Copy),
            3 => Some(SpiError::Opunknown),
            4 => Some(SpiError::Unconnected),
            5 => Some(SpiError::Cursor),
            6 => Some(SpiError::Argument),
            7 => Some(SpiError::Param),
            8 => Some(SpiError::Transaction),
            9 => Some(SpiError::Noattribute),
            10 => Some(SpiError::Nooutfunc),
            11 => Some(SpiError::Typunknown),
            12 => Some(SpiError::RelDuplicate),
            13 => Some(SpiError::RelNotFound),
            _ => None,
        }
    }
}

/// Translates an engine-interface status code.
///
/// A positive code maps to its success variant; a non-positive code is
/// negated and maps to its failure variant, which is returned as a value for
/// the caller to branch on.  A code outside both ranges would mean the engine
/// and this layer disagree about the interface itself, so such codes are
/// excluded by precondition.
pub fn check_status(code: i32) -> (r: Result<SpiOk, SpiError>)
    requires
        recognized(code as int),
    ensures
        code > 0 ==> r == Result::<SpiOk, SpiError>::Ok(ok_of_code(code as int)),
        code <= 0 ==> r == Result::<SpiOk, SpiError>::Err(err_of_code(-code as int)),
{
    if code > 0 {
        match SpiOk::from_i32(code) {
            Some(ok) => Ok(ok),
            None => unreached(),
        }
    } else {
        match SpiError::from_i32(-code) {
            Some(e) => Err(e),
            None => unreached(),
        }
    }
}

} // verus!
