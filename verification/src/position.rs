//! The position resolver: turns a symbolic position reference into a concrete
//! byte offset within a line, enforcing bounds and character boundaries.

use vstd::prelude::*;
use crate::error::FunctionExecutionError;

verus! {

/// A symbolic reference to a byte offset within a line.
#[derive(Debug, Clone)]
pub enum LineFunctionPosition {
    /// Offset relative to the start of the regex match on this line.
    Index(isize),
    /// The start of the line: offset 0, always.
    LineStart,
    /// The end of the line: the line's current length, always.
    Eol,
}

/// Maps `Some` byte offset to its mathematical counterpart.
pub open spec fn opt_int(m: Option<usize>) -> Option<int> {
    match m {
        Option::None => Option::None,
        Option::Some(u) => Option::Some(u as int),
    }
}

/// Whether a byte is a UTF-8 continuation byte, the second or later byte of
/// a multi-byte character.
pub open spec fn is_continuation(b: u8) -> bool {
    128 <= b < 192
}

/// Whether offset `i` of `line` is a character boundary: the start, the end,
/// or a byte that does not continue a multi-byte character. An edit may only
/// touch the line at such offsets — a multi-byte character is never split.
pub open spec fn is_boundary(line: Seq<u8>, i: int) -> bool {
    0 <= i <= line.len() && (i == 0 || i == line.len() || !is_continuation(line[i]))
}

/// What resolving a position against `line` with match offset `m` yields:
/// the concrete offset, or the error owed on exactly that input.
///
/// `LineStart` is 0 and `Eol` is the line's length, always — both are
/// boundaries. A match-relative index demands a match offset, and the signed
/// sum must land inside `[0, len]` and on a character boundary; an offset
/// inside a multi-byte character is as out of bounds as one past the line.
pub open spec fn spec_get_index(
    pos: LineFunctionPosition,
    line: Seq<u8>,
    m: Option<int>,
) -> Result<int, FunctionExecutionError> {
    match pos {
        LineFunctionPosition::Index(off) => match m {
            Option::None => Result::Err(FunctionExecutionError::EffectIndexGivenWithoutRegex),
            Option::Some(mi) => {
                let idx = mi + off;
                if idx < 0 || idx > line.len() {
                    Result::Err(FunctionExecutionError::EffectIndexOutOfBounds)
                } else if !is_boundary(line, idx) {
                    Result::Err(FunctionExecutionError::EffectIndexOutOfBounds)
                } else {
                    Result::Ok(idx)
                }
            },
        },
        LineFunctionPosition::LineStart => Result::Ok(0),
        LineFunctionPosition::Eol => Result::Ok(line.len() as int),
    }
}

/// Whether offset `i` of `line` is a character boundary, as `is_boundary`
/// says.
pub fn check_boundary(line: &Vec<u8>, i: usize) -> (r: bool)
    requires
        i <= line@.len(),
    ensures
        r == is_boundary(line@, i as int),
{
    i == 0 || i == line.len() || !(line[i] >= 128 && line[i] < 192)
}

impl LineFunctionPosition {
    /// Resolves this position against `input` with the optional match offset.
    ///
    /// Returns exactly what `spec_get_index` says: a negative, too-large or
    /// mid-character computed index is `EffectIndexOutOfBounds`, a
    /// match-relative index without a match is
    /// `EffectIndexGivenWithoutRegex`, and the error list holds that one
    /// error alone.
    pub fn get_index(
        &self,
        input: &Vec<u8>,
        regex_index: Option<usize>,
    ) -> (r: Result<usize, Vec<FunctionExecutionError>>)
        ensures
            match spec_get_index(*self, input@, opt_int(regex_index)) {
                Result::Ok(i) => r matches Result::Ok(ri) && ri == i,
                Result::Err(e) => r matches Result::Err(es) && es@ == seq![e],
            },
    {
        match self {
            LineFunctionPosition::Index(off) => match regex_index {
                Option::None => {
                    Result::Err(vec![FunctionExecutionError::EffectIndexGivenWithoutRegex])
                },
                Option::Some(mi) => {
                    let idx: i128 = mi as i128 + *off as i128;
                    if idx < 0 || idx > input.len() as i128 {
                        Result::Err(vec![FunctionExecutionError::EffectIndexOutOfBounds])
                    } else if !check_boundary(input, idx as usize) {
                        Result::Err(vec![FunctionExecutionError::EffectIndexOutOfBounds])
                    } else {
                        Result::Ok(idx as usize)
                    }
                },
            },
            LineFunctionPosition::LineStart => Result::Ok(0),
            LineFunctionPosition::Eol => Result::Ok(input.len()),
        }
    }
}

} // verus!
