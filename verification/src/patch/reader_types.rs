//! The types of the YAML reader that patch files are read with.
use vstd::prelude::*;

verus! {

/// A value as the YAML reader of yaml-rust gives it.
#[verifier::external_type_specification]
#[verifier::external_body]
pub struct ExYamlValue(yaml_rust::Yaml);

} // verus!
