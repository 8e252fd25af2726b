//! Writing the debug text of the crate's error types through the standard library formatter.
//!
//! What a write returns depends on where the formatter writes, so nothing is claimed of it.
use core::fmt::{DebugStruct, Formatter};
use vstd::prelude::*;

verus! {

/// The standard library formatter that `Debug` implementations write to.
#[verifier::external_type_specification]
#[verifier::external_body]
pub struct ExFormatter<'a>(Formatter<'a>);

/// The error a formatter reports when what it writes to fails.
#[verifier::external_type_specification]
#[verifier::external_body]
pub struct ExFmtError(core::fmt::Error);

/// The builder of the debug text of a struct.
#[verifier::external_type_specification]
#[verifier::external_body]
pub struct ExDebugStruct<'a, 'b: 'a>(DebugStruct<'a, 'b>);

/// Calls `Formatter::write_str`, which writes `text` as it is. Nothing is claimed of the
/// outcome.
#[verifier::external_body]
pub(crate) fn write_text(f: &mut Formatter<'_>, text: &str) -> Result<(), core::fmt::Error> {
    f.write_str(text)
}

/// Calls `Formatter::debug_struct`, which starts the debug text of a struct called `name`.
/// Nothing is claimed.
#[verifier::external_body]
pub(crate) fn debug_struct<'a, 'b>(f: &'a mut Formatter<'b>, name: &str) -> DebugStruct<'a, 'b> {
    f.debug_struct(name)
}

/// Calls `DebugStruct::finish_non_exhaustive`, which ends the text with a mark that fields
/// were left out. Nothing is claimed of the outcome.
#[verifier::external_body]
pub(crate) fn finish_non_exhaustive(builder: &mut DebugStruct<'_, '_>) -> Result<
    (),
    core::fmt::Error,
> {
    builder.finish_non_exhaustive()
}

} // verus!
