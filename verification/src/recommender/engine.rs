//! What each query engine supports, and the adjustments made for it.

use vstd::prelude::*;
use crate::recommender::codec::{Caveat, CaveatSeverity, CodecRecommendation, Engine, caveats_view};
use crate::text::{concat2, concat3, str_eq, text};

verus! {

/// Whether an engine reads a codec or an encoding, from which version, and why.
pub struct EngineSupport {
    pub supported: bool,
    pub min_version: Option<String>,
    pub notes: Option<String>,
}

pub type SupportView = (bool, Option<Seq<char>>, Option<Seq<char>>);

impl View for EngineSupport {
    type V = SupportView;

    open spec fn view(&self) -> SupportView {
        (self.supported, self.min_version.deep_view(), self.notes.deep_view())
    }
}

pub open spec fn fully(supported: bool) -> SupportView {
    (supported, None, None)
}

/// The codecs that DuckDB, Polars and Pandas read.
pub open spec fn is_common_codec(codec: Seq<char>) -> bool {
    codec == "SNAPPY"@ || codec == "ZSTD"@ || codec == "LZ4"@ || codec == "BROTLI"@ || codec
        == "GZIP"@ || codec == "UNCOMPRESSED"@
}

pub open spec fn unknown_codec(codec: Seq<char>, suffix: Seq<char>) -> SupportView {
    (false, None, Some("Unknown codec '"@ + codec + suffix))
}

/// The support table for codecs.
pub open spec fn codec_support(engine: Engine, codec: Seq<char>) -> SupportView {
    match engine {
        Engine::Spark => {
            if codec == "SNAPPY"@ {
                (true, None, Some("Supported in all Spark versions"@))
            } else if codec == "ZSTD"@ {
                (true, Some("3.2.0"@), Some("ZSTD requires Spark 3.2+"@))
            } else if codec == "LZ4"@ {
                (true, Some("3.3.0"@), Some("LZ4 requires Spark 3.3+"@))
            } else if codec == "BROTLI"@ {
                (true, Some("3.3.0"@), Some("BROTLI requires Spark 3.3+"@))
            } else if codec == "GZIP"@ {
                (true, None, Some("Supported in all Spark versions"@))
            } else if codec == "UNCOMPRESSED"@ {
                fully(true)
            } else {
                unknown_codec(codec, "' for Spark"@)
            }
        },
        Engine::DuckDB => if is_common_codec(codec) {
            fully(true)
        } else {
            unknown_codec(codec, "' for DuckDB"@)
        },
        Engine::ClickHouse => {
            if codec == "SNAPPY"@ || codec == "ZSTD"@ || codec == "LZ4"@ || codec
                == "UNCOMPRESSED"@ {
                fully(true)
            } else if codec == "BROTLI"@ {
                (false, None, Some("ClickHouse does not support BROTLI for Parquet import"@))
            } else if codec == "GZIP"@ {
                (false, None, Some("ClickHouse does not support GZIP for Parquet import"@))
            } else {
                unknown_codec(codec, "' for ClickHouse"@)
            }
        },
        Engine::Polars => if is_common_codec(codec) {
            fully(true)
        } else {
            unknown_codec(codec, "' for Polars"@)
        },
        Engine::Pandas => if is_common_codec(codec) {
            fully(true)
        } else {
            unknown_codec(codec, "' for Pandas"@)
        },
        Engine::Unknown => {
            if codec == "SNAPPY"@ || codec == "ZSTD"@ || codec == "LZ4"@ || codec == "GZIP"@
                || codec == "UNCOMPRESSED"@ {
                fully(true)
            } else if codec == "BROTLI"@ {
                (true, None, Some("BROTLI is broadly supported but verify your specific engine"@))
            } else {
                unknown_codec(codec, "'"@)
            }
        },
    }
}

fn support(supported: bool, min_version: Option<&str>, notes: Option<&str>) -> (s: EngineSupport)
    ensures
        s@ == (supported, match min_version {
            Some(v) => Some(v@),
            None => None,
        }, match notes {
            Some(n) => Some(n@),
            None => None,
        }),
{
    EngineSupport {
        supported,
        min_version: match min_version {
            Some(v) => Some(text(v)),
            None => None,
        },
        notes: match notes {
            Some(n) => Some(text(n)),
            None => None,
        },
    }
}

fn unknown_support(codec: &str, suffix: &str) -> (s: EngineSupport)
    ensures
        s@ == unknown_codec(codec@, suffix@),
{
    EngineSupport { supported: false, min_version: None, notes: Some(concat3("Unknown codec '", codec, suffix)) }
}

fn common_codec(codec: &str) -> (r: bool)
    ensures
        r == is_common_codec(codec@),
{
    str_eq(codec, "SNAPPY") || str_eq(codec, "ZSTD") || str_eq(codec, "LZ4") || str_eq(codec, "BROTLI")
        || str_eq(codec, "GZIP") || str_eq(codec, "UNCOMPRESSED")
}

/// Whether `engine` reads Parquet compressed with `codec`, from which version,
/// and a note where one applies.
pub fn check_codec_compatibility(engine: &Engine, codec: &str) -> (s: EngineSupport)
    ensures
        s@ == codec_support(*engine, codec@),
{
    match engine {
        Engine::Spark => {
            if str_eq(codec, "SNAPPY") {
                support(true, None, Some("Supported in all Spark versions"))
            } else if str_eq(codec, "ZSTD") {
                support(true, Some("3.2.0"), Some("ZSTD requires Spark 3.2+"))
            } else if str_eq(codec, "LZ4") {
                support(true, Some("3.3.0"), Some("LZ4 requires Spark 3.3+"))
            } else if str_eq(codec, "BROTLI") {
                support(true, Some("3.3.0"), Some("BROTLI requires Spark 3.3+"))
            } else if str_eq(codec, "GZIP") {
                support(true, None, Some("Supported in all Spark versions"))
            } else if str_eq(codec, "UNCOMPRESSED") {
                support(true, None, None)
            } else {
                unknown_support(codec, "' for Spark")
            }
        },
        Engine::DuckDB => if common_codec(codec) {
            support(true, None, None)
        } else {
            unknown_support(codec, "' for DuckDB")
        },
        Engine::ClickHouse => {
            if str_eq(codec, "SNAPPY") || str_eq(codec, "ZSTD") || str_eq(codec, "LZ4") || str_eq(
                codec,
                "UNCOMPRESSED",
            ) {
                support(true, None, None)
            } else if str_eq(codec, "BROTLI") {
                support(false, None, Some("ClickHouse does not support BROTLI for Parquet import"))
            } else if str_eq(codec, "GZIP") {
                support(false, None, Some("ClickHouse does not support GZIP for Parquet import"))
            } else {
                unknown_support(codec, "' for ClickHouse")
            }
        },
        Engine::Polars => if common_codec(codec) {
            support(true, None, None)
        } else {
            unknown_support(codec, "' for Polars")
        },
        Engine::Pandas => if common_codec(codec) {
            support(true, None, None)
        } else {
            unknown_support(codec, "' for Pandas")
        },
        Engine::Unknown => {
            if str_eq(codec, "SNAPPY") || str_eq(codec, "ZSTD") || str_eq(codec, "LZ4") || str_eq(
                codec,
                "GZIP",
            ) || str_eq(codec, "UNCOMPRESSED") {
                support(true, None, None)
            } else if str_eq(codec, "BROTLI") {
                support(true, None, Some("BROTLI is broadly supported but verify your specific engine"))
            } else {
                unknown_support(codec, "'")
            }
        },
    }
}

/// The support table for encodings: every encoding is readable; Spark needs 3.2
/// for DELTA_BINARY_PACKED, and encodings outside the known list carry a note.
pub open spec fn encoding_support(engine: Engine, encoding: Seq<char>) -> SupportView {
    if encoding == "DELTA_BINARY_PACKED"@ {
        if engine == Engine::Spark {
            (true, Some("3.2.0"@), Some("DELTA_BINARY_PACKED requires Spark 3.2+"@))
        } else {
            fully(true)
        }
    } else if encoding == "BYTE_STREAM_SPLIT"@ || encoding == "RLE_DICTIONARY"@ || encoding
        == "PLAIN"@ || encoding == "RLE"@ {
        fully(true)
    } else {
        (true, None, Some("Encoding '"@ + encoding + "' compatibility not explicitly tracked"@))
    }
}

/// Whether `engine` reads `encoding`, from which version, and a note where one applies.
pub fn check_encoding_compatibility(engine: &Engine, encoding: &str) -> (s: EngineSupport)
    ensures
        s@ == encoding_support(*engine, encoding@),
{
    if str_eq(encoding, "DELTA_BINARY_PACKED") {
        match engine {
            Engine::Spark => support(true, Some("3.2.0"), Some("DELTA_BINARY_PACKED requires Spark 3.2+")),
            _ => support(true, None, None),
        }
    } else if str_eq(encoding, "BYTE_STREAM_SPLIT") || str_eq(encoding, "RLE_DICTIONARY") || str_eq(
        encoding,
        "PLAIN",
    ) || str_eq(encoding, "RLE") {
        support(true, None, None)
    } else {
        EngineSupport {
            supported: true,
            min_version: None,
            notes: Some(concat3("Encoding '", encoding, "' compatibility not explicitly tracked")),
        }
    }
}

/// The recommendation after the engine's adjustments: Spark turns ZSTD into
/// SNAPPY, ClickHouse turns BROTLI and GZIP into ZSTD:3.
pub open spec fn overridden(
    rec: (Seq<char>, Option<i32>, Seq<char>, Seq<(CaveatSeverity, Seq<char>)>),
    engine: Engine,
) -> (Seq<char>, Option<i32>, Seq<char>, Seq<(CaveatSeverity, Seq<char>)>) {
    match engine {
        Engine::Spark => if rec.0 == "ZSTD"@ {
            (
                "SNAPPY"@,
                None,
                rec.2,
                rec.3.push(
                    (
                        CaveatSeverity::Info,
                        "Downgraded ZSTD→SNAPPY for Spark compatibility. Use --engine spark:3.2+ to keep ZSTD."@,
                    ),
                ),
            )
        } else {
            rec
        },
        Engine::ClickHouse => if rec.0 == "BROTLI"@ {
            (
                "ZSTD"@,
                Some(3i32),
                rec.2,
                rec.3.push(
                    (
                        CaveatSeverity::Warning,
                        "ClickHouse does not support BROTLI for Parquet; using ZSTD"@,
                    ),
                ),
            )
        } else if rec.0 == "GZIP"@ {
            (
                "ZSTD"@,
                Some(3i32),
                rec.2,
                rec.3.push(
                    (CaveatSeverity::Warning, "ClickHouse does not support GZIP for Parquet; using ZSTD"@),
                ),
            )
        } else {
            rec
        },
        _ => rec,
    }
}

fn push_caveat(rec: &mut CodecRecommendation, severity: CaveatSeverity, message: &str)
    ensures
        final(rec)@ == (old(rec)@.0, old(rec)@.1, old(rec)@.2, old(rec)@.3.push((severity, message@))),
{
    rec.caveats.push(Caveat { severity, message: text(message) });
    proof {
        assert(caveats_view(rec.caveats@) =~= caveats_view(old(rec).caveats@).push((severity, message@)));
    }
}

/// Adjusts a codec recommendation for what the engine can read.
pub fn apply_engine_overrides(rec: &mut CodecRecommendation, engine: &Engine)
    ensures
        final(rec)@ == overridden(old(rec)@, *engine),
{
    match engine {
        Engine::Spark => {
            if str_eq(rec.codec.as_str(), "ZSTD") {
                rec.codec = text("SNAPPY");
                rec.codec_level = None;
                push_caveat(
                    rec,
                    CaveatSeverity::Info,
                    "Downgraded ZSTD→SNAPPY for Spark compatibility. Use --engine spark:3.2+ to keep ZSTD.",
                );
            }
        },
        Engine::ClickHouse => {
            if str_eq(rec.codec.as_str(), "BROTLI") {
                rec.codec = text("ZSTD");
                rec.codec_level = Some(3);
                push_caveat(
                    rec,
                    CaveatSeverity::Warning,
                    "ClickHouse does not support BROTLI for Parquet; using ZSTD",
                );
            } else if str_eq(rec.codec.as_str(), "GZIP") {
                rec.codec = text("ZSTD");
                rec.codec_level = Some(3);
                push_caveat(
                    rec,
                    CaveatSeverity::Warning,
                    "ClickHouse does not support GZIP for Parquet; using ZSTD",
                );
            }
        },
        _ => {},
    }
}

} // verus!
