//! The error codes of the language, by area.

use vstd::prelude::*;

verus! {

/// A type conflict: one type was expected, another was found.
pub const TYPE_MISMATCH: &'static str = "H001";

/// An undefined variable or function.
pub const UNDEFINED: &'static str = "H002";

/// A type that cannot be inferred.
pub const CANNOT_INFER: &'static str = "H003";

/// An operator with more than one reading.
pub const AMBIGUOUS_OP: &'static str = "H004";

/// A syntax error.
pub const SYNTAX: &'static str = "H005";

/// A text that is no integer.
pub const STR_TO_INT: &'static str = "H006";

/// A text that is no floating-point number.
pub const STR_TO_FLOAT: &'static str = "H007";

/// A condition that is not a `bool`.
pub const COND_NOT_BOOL: &'static str = "H008";

/// A division by zero.
pub const DIV_ZERO: &'static str = "H009";

/// An integer overflow.
pub const INTEGER_OVERFLOW: &'static str = "H010";

/// A wrong number of arguments.
pub const ARG_COUNT: &'static str = "H011";

/// A recursion that is too deep.
pub const RECURSION_DEPTH: &'static str = "H012";

/// A failed system call.
pub const SYSCALL: &'static str = "H300";

/// A failed network request.
pub const NETWORK: &'static str = "H200";

/// A missing file or library.
pub const NOT_FOUND: &'static str = "H404";

/// A feature that does not exist yet.
pub const NOT_IMPLEMENTED: &'static str = "H999";

/// A dynamic library that cannot be loaded.
pub const LIB_LOAD: &'static str = "H100";

/// A function that a lazily loaded library lacks.
pub const LAZY_MISSING: &'static str = "H110";

/// An illegal character.
pub const ILLEGAL_CHAR: &'static str = "H101";

/// A text literal without its closing quote.
pub const UNTERMINATED_STRING: &'static str = "H102";

/// A comment without its end.
pub const UNTERMINATED_COMMENT: &'static str = "H103";

/// A statement without its semicolon.
pub const MISSING_SEMI: &'static str = "H104";

/// A connection or request that timed out.
pub const NET_TIMEOUT: &'static str = "H201";

/// A refused connection.
pub const NET_CONN_REFUSED: &'static str = "H202";

/// A host name that does not resolve.
pub const NET_DNS: &'static str = "H203";

/// A response with a status outside 200..=299.
pub const NET_HTTP_STATUS: &'static str = "H204";

/// A dynamic library that does not load.
pub const DLL_LOAD: &'static str = "H301";

/// An argument that a dynamic library cannot take.
pub const DLL_ARG: &'static str = "H302";

/// A missing permission.
pub const PERMISSION: &'static str = "H303";

/// A pointer that is null, freed or was never allocated.
pub const PTR_INVALID: &'static str = "H304";

/// An access outside an allocation.
pub const PTR_OOB: &'static str = "H305";

/// A missing file.
pub const FILE_NOT_FOUND: &'static str = "H401";

/// A file that may not be read or written.
pub const FILE_PERMISSION: &'static str = "H402";

/// A file that another process holds.
pub const FILE_LOCKED: &'static str = "H403";

/// An error thrown by the program itself.
pub const THROW: &'static str = "H600";

/// A failed assertion.
pub const ASSERT: &'static str = "H700";

} // verus!
