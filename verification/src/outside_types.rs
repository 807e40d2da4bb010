//! Types of outside crates that the library holds without looking inside.
use vstd::prelude::*;

verus! {

#[verifier::external_type_specification]
#[verifier::external_body]
pub struct ExClapStyles(clap::builder::Styles);

#[verifier::external_type_specification]
#[verifier::external_body]
pub struct ExAnstyleStyle(anstyle::Style);

} // verus!
