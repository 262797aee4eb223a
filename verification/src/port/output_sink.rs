//! The output port.

use vstd::prelude::*;

use crate::error::Result;
use crate::model::envelope::CanonicalRealm;
use crate::verify::report::VerificationReport;

verus! {

/// Writes an extraction and its completeness report somewhere durable.
pub trait OutputSink: Send + Sync {
    /// Persist an extraction and its verification report.
    fn write(&self, canonical: &CanonicalRealm, report: &VerificationReport) -> Result<()>;
}

} // verus!
