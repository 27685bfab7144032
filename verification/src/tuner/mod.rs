//! Tuning reports: per-column recommendations, their explanation and impact,
//! and the file-level summary built from them.

pub mod explain;
pub mod impact;
pub mod report;

pub use explain::{AlternativeExplain, FullExplain, RuleEvaluation};
pub use report::{build_tune_report_from_profiles, Bundle, OptionBundles, TuneReport};

use vstd::prelude::*;
use crate::ratio::Ratio;
use crate::recommender::codec::Caveat;

verus! {

/// What the advisor recommends for one column, and why.
pub struct ColumnRecommendation {
    pub column_name: String,
    pub physical_type: String,
    pub logical_type: Option<String>,
    pub cardinality_estimate: u64,
    pub cardinality_ratio: Ratio,
    pub null_fraction: Ratio,
    pub recommended_encoding: String,
    pub recommended_codec: String,
    pub recommended_codec_level: Option<i32>,
    /// The name of the encoding rule that fired.
    pub encoding_rule_fired: String,
    pub reason_brief: String,
    /// `High`, `Medium` or `Low`.
    pub confidence: String,
    pub confidence_reason: String,
    /// From 1 to 5.
    pub impact_stars: u8,
    pub engine_compatibility: Option<String>,
    pub caveats: Vec<Caveat>,
    pub full_explain: Option<FullExplain>,
}

impl ColumnRecommendation {
    /// The name of the column.
    pub open spec fn name_view(&self) -> Seq<char> {
        self.column_name@
    }
}

} // verus!
