//! The outside types that the library holds or passes along; Verus sees
//! nothing inside them.

use vstd::prelude::*;

verus! {

#[verifier::external_type_specification]
#[verifier::external_body]
pub struct ExMetric(::metrics::metrics::Metric);

#[verifier::external_type_specification]
#[verifier::external_body]
pub struct ExJsonError(serde_json::Error);

#[verifier::external_type_specification]
#[verifier::external_body]
pub struct ExIoError(std::io::Error);

#[verifier::external_type_specification]
#[verifier::external_body]
pub struct ExScanError(yaml_rust::ScanError);

#[verifier::external_type_specification]
#[verifier::external_body]
pub struct ExEmitError(yaml_rust::EmitError);

} // verus!
