use vstd::prelude::*;
use vstd::utf8::{encode_utf8, valid_utf8};
use crate::memory::{MemorySliceError, MemorySlicePtr};
use crate::live_object_info::string_from_utf8;

verus! {

/// Why compiling, wiring, or invoking a guest module failed.
#[derive(Debug, Clone, PartialEq, Eq)]
pub enum RuntimeError {
    /// The module bytes did not compile.
    Compile(String),
    /// The compiled module could not be instantiated.
    Instantiate(String),
    /// A required export is missing; the payload names it.
    MissingExport(String),
    /// An export does not have the expected shape.
    SignatureMismatch(String),
    /// The guest trapped while running; the message is the trap's.
    Trap(String),
    /// A guest memory descriptor was refused.
    MemorySlice(MemorySliceError),
    /// The invoked export returned no value.
    NoReturn,
    /// The method's result bytes are not valid UTF-8.
    InvalidUtf8Result,
    /// The guest failed to release the result slice.
    Deallocate(String),
}

impl RuntimeError {
    /// The error's textual form, as a sequence of characters.
    pub open spec fn text(&self) -> Seq<char> {
        match self {
            RuntimeError::Compile(msg) => "failed to compile module: "@ + msg@,
            RuntimeError::Instantiate(msg) => "failed to instantiate module: "@ + msg@,
            RuntimeError::MissingExport(name) => "missing export: "@ + name@,
            RuntimeError::SignatureMismatch(name) => {
                "export has an unexpected signature: "@ + name@
            },
            RuntimeError::Trap(msg) => "guest trapped: "@ + msg@,
            RuntimeError::MemorySlice(e) => e.text(),
            RuntimeError::NoReturn => "method returned no value"@,
            RuntimeError::InvalidUtf8Result => "method result is not valid UTF-8"@,
            RuntimeError::Deallocate(msg) => "failed to deallocate result: "@ + msg@,
        }
    }

    /// The error's textual form.
    pub fn describe(&self) -> (s: String)
        ensures
            s@ == self.text(),
    {
        match self {
            RuntimeError::Compile(msg) => String::from_str("failed to compile module: ").concat(
                msg.as_str(),
            ),
            RuntimeError::Instantiate(msg) => String::from_str(
                "failed to instantiate module: ",
            ).concat(msg.as_str()),
            RuntimeError::MissingExport(name) => String::from_str("missing export: ").concat(
                name.as_str(),
            ),
            RuntimeError::SignatureMismatch(name) => String::from_str(
                "export has an unexpected signature: ",
            ).concat(name.as_str()),
            RuntimeError::Trap(msg) => String::from_str("guest trapped: ").concat(msg.as_str()),
            RuntimeError::MemorySlice(e) => e.describe(),
            RuntimeError::NoReturn => String::from_str("method returned no value"),
            RuntimeError::InvalidUtf8Result => String::from_str(
                "method result is not valid UTF-8",
            ),
            RuntimeError::Deallocate(msg) => String::from_str(
                "failed to deallocate result: ",
            ).concat(msg.as_str()),
        }
    }
}

/// The call protocol's return rule: an invoked method must hand back
/// exactly one descriptor address; none at all is an error.
pub fn expect_result_ptr(result: Option<MemorySlicePtr>) -> (r: Result<
    MemorySlicePtr,
    RuntimeError,
>)
    ensures
        r matches Ok(p) ==> result == Some(p),
        r is Ok <==> result is Some,
        r matches Err(e) ==> e is NoReturn,
{
    match result {
        Some(p) => Ok(p),
        None => Err(RuntimeError::NoReturn),
    }
}

/// Interpret a method's result bytes: they must be valid UTF-8, and the
/// returned string carries exactly those bytes.
pub fn decode_result(bytes: Vec<u8>) -> (r: Result<String, RuntimeError>)
    ensures
        r matches Ok(s) ==> encode_utf8(s@) == bytes@,
        r is Ok <==> valid_utf8(bytes@),
        r matches Err(e) ==> e is InvalidUtf8Result,
{
    match string_from_utf8(bytes) {
        Some(s) => Ok(s),
        None => Err(RuntimeError::InvalidUtf8Result),
    }
}

} // verus!
