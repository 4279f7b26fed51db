//! Types of the crates that this library calls.

use goblin::error::Error as GoblinError;
use scroll::Error as ScrollError;
use vstd::prelude::*;

verus! {

/// `scroll::Error`: what a field read reports when the buffer is too short.
/// Proofs carry such a value around and never look inside it.
#[verifier::external_type_specification]
#[verifier::external_body]
pub struct ExScrollError(ScrollError);

/// `goblin::error::Error`: what the PE parser reports for a container that it
/// cannot read.  Proofs carry such a value around and never look inside it.
#[verifier::external_type_specification]
#[verifier::external_body]
pub struct ExGoblinError(GoblinError);

} // verus!
