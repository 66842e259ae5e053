//! The errors of the store: what can be wrong with a stored value. A key
//! without a value is no error; reads return `None` for it.

use vstd::prelude::*;

verus! {

/// The declaration of the error that parsing an integer returns.
#[verifier::external_type_specification]
#[verifier::external_body]
pub struct ExParseIntError(core::num::ParseIntError);

/// A stored value that cannot be read back. Each variant holds what the
/// decoder that refused the text said of it.
#[derive(Debug)]
pub enum Error {
    /// Contract code that is not base-16 text of whole bytes.
    FromHexError(hex::FromHexError),
    /// A number, a hash or a location that is not the JSON of one, with the
    /// decoder's message.
    SerdeJsonError(String),
    /// A height that is not a decimal number.
    ParseIntError(core::num::ParseIntError),
}

} // verus!
