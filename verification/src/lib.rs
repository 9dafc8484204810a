//! Clinical document and resource handling: a verified C-CDA
//! patient-demographics parser — an arena-backed recursive-descent
//! grammar over a tokenized stream of XML events — together with the
//! conversion of FHIR R4B patients, encounters and bundles into a
//! normalized analytics schema.

pub mod ccda;
pub mod fhir_r4b;
pub mod laws;
pub mod schemav1;
pub mod util;
pub mod xml;
