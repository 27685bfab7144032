//! Codec choice: entropy gate, engine safety, then the user's priority.

use vstd::prelude::*;
use crate::profiler::stats::ColumnProfile;
use crate::ratio::{Ratio, frac_le};
use crate::recommender::encoding::EncodingRecommendation;
use crate::text::{ascii_lower_text, is_ascii_text, lowercase_of, str_eq, text, to_lowercase};

verus! {

/// What the user asks the advisor to favour.
#[derive(Clone, Copy, Debug, PartialEq, Eq, Structural)]
pub enum Priority {
    Size,
    Speed,
    Balanced,
}

/// The query engine that will read the file.
#[derive(Clone, Copy, Debug, PartialEq, Eq, Structural)]
pub enum Engine {
    Spark,
    DuckDB,
    Polars,
    ClickHouse,
    Pandas,
    Unknown,
}

/// The engine a lowercase name stands for; any other name is `Unknown`.
pub open spec fn engine_named(s: Seq<char>) -> Engine {
    if s == "spark"@ {
        Engine::Spark
    } else if s == "duckdb"@ {
        Engine::DuckDB
    } else if s == "polars"@ {
        Engine::Polars
    } else if s == "clickhouse"@ {
        Engine::ClickHouse
    } else if s == "pandas"@ {
        Engine::Pandas
    } else {
        Engine::Unknown
    }
}

/// The priority a lowercase name stands for; any other name is `Balanced`.
pub open spec fn priority_named(s: Seq<char>) -> Priority {
    if s == "size"@ {
        Priority::Size
    } else if s == "speed"@ {
        Priority::Speed
    } else {
        Priority::Balanced
    }
}

impl Engine {
    /// The engine named by `s`, compared after lowercasing.
    pub fn from_str(s: &str) -> (e: Engine)
        ensures
            e == engine_named(lowercase_of(s@)),
            is_ascii_text(s@) ==> e == engine_named(ascii_lower_text(s@)),
    {
        let lower = to_lowercase(s);
        Engine::from_lowercase(lower.as_str())
    }

    /// The engine named by an already lowercase `s`.
    pub fn from_lowercase(s: &str) -> (e: Engine)
        ensures
            e == engine_named(s@),
    {
        if str_eq(s, "spark") {
            Engine::Spark
        } else if str_eq(s, "duckdb") {
            Engine::DuckDB
        } else if str_eq(s, "polars") {
            Engine::Polars
        } else if str_eq(s, "clickhouse") {
            Engine::ClickHouse
        } else if str_eq(s, "pandas") {
            Engine::Pandas
        } else {
            Engine::Unknown
        }
    }
}

impl Priority {
    /// The priority named by `s`, compared after lowercasing.
    pub fn from_str(s: &str) -> (p: Priority)
        ensures
            p == priority_named(lowercase_of(s@)),
            is_ascii_text(s@) ==> p == priority_named(ascii_lower_text(s@)),
    {
        let lower = to_lowercase(s);
        Priority::from_lowercase(lower.as_str())
    }

    /// The priority named by an already lowercase `s`.
    pub fn from_lowercase(s: &str) -> (p: Priority)
        ensures
            p == priority_named(s@),
    {
        if str_eq(s, "size") {
            Priority::Size
        } else if str_eq(s, "speed") {
            Priority::Speed
        } else {
            Priority::Balanced
        }
    }
}

#[derive(Clone, Copy, Debug, PartialEq, Eq, Structural)]
pub enum CaveatSeverity {
    Warning,
    Info,
}

/// A note attached to a recommendation.
pub struct Caveat {
    pub severity: CaveatSeverity,
    pub message: String,
}

impl View for Caveat {
    type V = (CaveatSeverity, Seq<char>);

    open spec fn view(&self) -> (CaveatSeverity, Seq<char>) {
        (self.severity, self.message@)
    }
}

impl Caveat {
    pub fn copy(&self) -> (c: Caveat)
        ensures
            c@ == self@,
    {
        Caveat { severity: self.severity, message: self.message.clone() }
    }
}

/// The views of a list of caveats.
pub open spec fn caveats_view(v: Seq<Caveat>) -> Seq<(CaveatSeverity, Seq<char>)> {
    v.map_values(|c: Caveat| c@)
}

/// The codec (and level) chosen for a column.
pub struct CodecRecommendation {
    pub codec: String,
    pub codec_level: Option<i32>,
    pub reason_brief: String,
    pub caveats: Vec<Caveat>,
}

impl View for CodecRecommendation {
    type V = (Seq<char>, Option<i32>, Seq<char>, Seq<(CaveatSeverity, Seq<char>)>);

    open spec fn view(&self) -> Self::V {
        (self.codec@, self.codec_level, self.reason_brief@, caveats_view(self.caveats@))
    }
}

/// The byte entropy of the profile exceeds 7.5 bits per byte.
pub open spec fn entropy_gate(profile: &ColumnProfile) -> bool {
    match profile.byte_entropy {
        Some(e) => !frac_le(e@, 15, 2),
        None => false,
    }
}

pub open spec fn entropy_reason(e: (int, int)) -> Seq<char> {
    "byte entropy "@ + crate::ratio::fixed_text(e.0, e.1, 2) + " > 7.5 — data appears pre-compressed or random"@
}

/// The recommendation `recommend_codec` gives, as a view.
pub open spec fn codec_choice(
    profile: &ColumnProfile,
    encoding: Seq<char>,
    priority: Priority,
    engine: Engine,
) -> (Seq<char>, Option<i32>, Seq<char>, Seq<(CaveatSeverity, Seq<char>)>) {
    if entropy_gate(profile) {
        (
            "UNCOMPRESSED"@,
            None,
            entropy_reason(profile.byte_entropy.unwrap()@),
            seq![(CaveatSeverity::Info, "Compressing high-entropy data adds CPU overhead without reducing size"@)],
        )
    } else {
        codec_by_priority(encoding, priority, engine)
    }
}

/// The recommendation for data that is not pre-compressed: Spark gets SNAPPY
/// unless size is the priority, speed gets LZ4, size gets ZSTD:6 and
/// everything else ZSTD:3.
pub open spec fn codec_by_priority(encoding: Seq<char>, priority: Priority, engine: Engine) -> (
    Seq<char>,
    Option<i32>,
    Seq<char>,
    Seq<(CaveatSeverity, Seq<char>)>,
) {
    if engine == Engine::Spark && priority != Priority::Size {
        (
            "SNAPPY"@,
            None,
            "SNAPPY is safe for all Spark versions"@,
            seq![(CaveatSeverity::Info, "ZSTD requires Spark 3.2+; SNAPPY works on all versions. Use --engine spark (with version) to unlock ZSTD."@)],
        )
    } else if priority == Priority::Speed {
        (
            "LZ4"@,
            None,
            "LZ4 has fastest decompression speed"@,
            if encoding == "DELTA_BINARY_PACKED"@ {
                seq![(CaveatSeverity::Warning, "Known bug in parquet-go: LZ4 + DELTA_BINARY_PACKED produces unreadable files. Use SNAPPY if your reader uses the parquet-go library."@)]
            } else {
                seq![]
            },
        )
    } else if priority == Priority::Size {
        (
            "ZSTD"@,
            Some(6i32),
            "ZSTD:6 maximizes compression ratio"@,
            if engine == Engine::Spark {
                seq![(CaveatSeverity::Info, "ZSTD requires Spark 3.2+"@)]
            } else {
                seq![]
            },
        )
    } else {
        (
            "ZSTD"@,
            Some(3i32),
            "ZSTD:3 balances compression ratio and read speed"@,
            if engine == Engine::Spark {
                seq![(CaveatSeverity::Info, "ZSTD requires Spark 3.2+; use --engine spark with Spark 3.2+ or switch --priority to use SNAPPY"@)]
            } else {
                seq![]
            },
        )
    }
}

fn one_caveat(severity: CaveatSeverity, message: &str) -> (v: Vec<Caveat>)
    ensures
        caveats_view(v@) == seq![(severity, message@)],
{
    let mut v: Vec<Caveat> = Vec::new();
    v.push(Caveat { severity, message: text(message) });
    proof {
        assert(caveats_view(v@) =~= seq![(severity, message@)]);
    }
    v
}

fn no_caveats() -> (v: Vec<Caveat>)
    ensures
        caveats_view(v@) == Seq::<(CaveatSeverity, Seq<char>)>::empty(),
{
    let v: Vec<Caveat> = Vec::new();
    proof {
        assert(caveats_view(v@) =~= Seq::<(CaveatSeverity, Seq<char>)>::empty());
    }
    v
}

/// Chooses the codec for a column: pre-compressed data stays uncompressed,
/// Spark gets SNAPPY unless size is the priority, speed gets LZ4, size gets
/// ZSTD:6 and everything else ZSTD:3.
pub fn recommend_codec(
    profile: &ColumnProfile,
    encoding_rec: &EncodingRecommendation,
    priority: &Priority,
    engine: &Engine,
) -> (rec: CodecRecommendation)
    ensures
        rec@ == codec_choice(profile, encoding_rec.encoding@, *priority, *engine),
{
    // 1. Entropy gate
    if let Some(entropy) = &profile.byte_entropy {
        if !entropy.le_frac(15, 2) {
            let mut reason = text("byte entropy ");
            let shown = entropy.to_fixed(2);
            reason.append(shown.as_str());
            reason.append(" > 7.5 — data appears pre-compressed or random");
            return CodecRecommendation {
                codec: text("UNCOMPRESSED"),
                codec_level: None,
                reason_brief: reason,
                caveats: one_caveat(
                    CaveatSeverity::Info,
                    "Compressing high-entropy data adds CPU overhead without reducing size",
                ),
            };
        }
    }
    // 2. Spark safety (when not size priority)
    if *engine == Engine::Spark && *priority != Priority::Size {
        return CodecRecommendation {
            codec: text("SNAPPY"),
            codec_level: None,
            reason_brief: text("SNAPPY is safe for all Spark versions"),
            caveats: one_caveat(
                CaveatSeverity::Info,
                "ZSTD requires Spark 3.2+; SNAPPY works on all versions. Use --engine spark (with version) to unlock ZSTD.",
            ),
        };
    }
    // 3. Speed priority -> LZ4
    if *priority == Priority::Speed {
        let caveats = if str_eq(encoding_rec.encoding.as_str(), "DELTA_BINARY_PACKED") {
            one_caveat(
                CaveatSeverity::Warning,
                "Known bug in parquet-go: LZ4 + DELTA_BINARY_PACKED produces unreadable files. Use SNAPPY if your reader uses the parquet-go library.",
            )
        } else {
            no_caveats()
        };
        return CodecRecommendation {
            codec: text("LZ4"),
            codec_level: None,
            reason_brief: text("LZ4 has fastest decompression speed"),
            caveats,
        };
    }
    // 4. Size priority -> ZSTD:6
    if *priority == Priority::Size {
        let caveats = if *engine == Engine::Spark {
            one_caveat(CaveatSeverity::Info, "ZSTD requires Spark 3.2+")
        } else {
            no_caveats()
        };
        return CodecRecommendation {
            codec: text("ZSTD"),
            codec_level: Some(6),
            reason_brief: text("ZSTD:6 maximizes compression ratio"),
            caveats,
        };
    }
    // 5. Default -> ZSTD:3
    let caveats = if *engine == Engine::Spark {
        one_caveat(
            CaveatSeverity::Info,
            "ZSTD requires Spark 3.2+; use --engine spark with Spark 3.2+ or switch --priority to use SNAPPY",
        )
    } else {
        no_caveats()
    };
    CodecRecommendation {
        codec: text("ZSTD"),
        codec_level: Some(3),
        reason_brief: text("ZSTD:3 balances compression ratio and read speed"),
        caveats,
    }
}

} // verus!
