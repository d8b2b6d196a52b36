//! The errors that parsing can end in.
use vstd::prelude::*;

use crate::lexer::Span;

verus! {

/// Errors that point at a defect of the parser rather than of the source.
#[derive(Clone, Copy, Debug, PartialEq, Eq, Structural)]
pub enum InternalError {
    AccessCountOverflow,
    ArgumentsParseFailure,
    AstCapacityOverflow,
    ExpectedIdInImportItem,
    ForParseFailure,
    FunctionParseFailure,
    IdParseFailure,
    MissingAssignmentTarget,
    MissingContinuedExpressionLhs,
    MissingScope,
    NumberParseFailure,
    UnexpectedIdInExpression,
    UnexpectedToken,
}

/// Errors in the source.
#[derive(Clone, Copy, Debug, PartialEq, Eq, Structural)]
pub enum SyntaxError {
    ExpectedArgsEnd,
    ExpectedAssignmentTarget,
    ExpectedCatchArgument,
    ExpectedCatchBlock,
    ExpectedCatchBody,
    ExpectedCloseParen,
    ExpectedElseBlock,
    ExpectedElseExpression,
    ExpectedElseIfBlock,
    ExpectedElseIfCondition,
    ExpectedExportExpression,
    ExpectedExpression,
    ExpectedExpressionInMainBlock,
    ExpectedFinallyBody,
    ExpectedForArgs,
    ExpectedForBody,
    ExpectedForCondition,
    ExpectedForInKeyword,
    ExpectedForRanges,
    ExpectedFunctionArgsEnd,
    ExpectedFunctionBody,
    ExpectedIdInImportExpression,
    ExpectedIfCondition,
    ExpectedImportKeywordAfterFrom,
    ExpectedImportModuleId,
    ExpectedIndexEnd,
    ExpectedIndexExpression,
    ExpectedListEnd,
    ExpectedLoopBody,
    ExpectedMapEnd,
    ExpectedMapKey,
    ExpectedMapValue,
    ExpectedMatchArm,
    ExpectedMatchArmExpression,
    ExpectedMatchArmExpressionAfterThen,
    ExpectedMatchCondition,
    ExpectedMatchExpression,
    ExpectedMatchPattern,
    ExpectedNegatableExpression,
    ExpectedRhsExpression,
    ExpectedThenExpression,
    ExpectedThenKeywordOrBlock,
    ExpectedTryBody,
    ExpectedUntilBody,
    ExpectedUntilCondition,
    ExpectedWhileBody,
    ExpectedWhileCondition,
    ImportFromExpressionHasTooManyItems,
    LexerError,
    TooManyNum2Terms,
    TooManyNum4Terms,
    UnexpectedEscapeInString,
    UnexpectedIndentation,
    UnexpectedTokenAfterExportId,
}

#[derive(Clone, Copy, Debug, PartialEq, Eq, Structural)]
pub enum ErrorType {
    InternalError(InternalError),
    SyntaxError(SyntaxError),
}

/// What went wrong, and the span that the lexer stood at.
#[derive(Clone, Copy, Debug, PartialEq, Eq, Structural)]
pub struct ParserError {
    pub error: ErrorType,
    pub span: Span,
}

/// The internal errors that no source leads to: each of them would point at a defect of the parser.
pub open spec fn is_internal_defect(error: InternalError) -> bool {
    match error {
        InternalError::ArgumentsParseFailure
        | InternalError::ExpectedIdInImportItem
        | InternalError::ForParseFailure
        | InternalError::IdParseFailure
        | InternalError::MissingAssignmentTarget
        | InternalError::MissingContinuedExpressionLhs
        | InternalError::MissingScope
        | InternalError::UnexpectedToken => true,
        _ => false,
    }
}

/// The errors that no source leads to.
#[verifier::opaque]
pub open spec fn is_defect(error: ErrorType) -> bool {
    match error {
        ErrorType::InternalError(error) => is_internal_defect(error),
        ErrorType::SyntaxError(_) => false,
    }
}

/// No error in a source is a defect of the parser. Neither is running out of indices or counts, nor
/// a number or a function that can't be read, nor an id where none is expected.
pub proof fn law_defects(error: SyntaxError, internal: InternalError)
    ensures
        !is_defect(ErrorType::SyntaxError(error)),
        is_defect(ErrorType::InternalError(internal)) <==> {
            &&& internal != InternalError::AccessCountOverflow
            &&& internal != InternalError::AstCapacityOverflow
            &&& internal != InternalError::FunctionParseFailure
            &&& internal != InternalError::NumberParseFailure
            &&& internal != InternalError::UnexpectedIdInExpression
        },
{
    reveal(is_defect);
}

} // verus!
