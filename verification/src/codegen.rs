//! Copy-paste write snippets for PyArrow, PySpark and Polars from a report.

use vstd::prelude::*;
use crate::text::{copy_string, int_text, join, join_strings, lowercase_of, push_int, str_eq, text, to_lowercase, views};
use crate::tuner::ColumnRecommendation;
use crate::tuner::report::TuneReport;

verus! {

/// How many columns are recommended the codec `c` at level `l`.
pub open spec fn pair_count(cols: Seq<ColumnRecommendation>, c: Seq<char>, l: Option<i32>) -> int
    decreases cols.len(),
{
    if cols.len() == 0 {
        0
    } else {
        pair_count(cols.drop_last(), c, l) + if cols.last().recommended_codec@ == c
            && cols.last().recommended_codec_level == l { 1int } else { 0int }
    }
}

/// `(c, l)` is a most often recommended codec and level (ZSTD:3 when there
/// is no column).
pub open spec fn is_most_common(cols: Seq<ColumnRecommendation>, c: Seq<char>, l: Option<i32>) -> bool {
    if cols.len() == 0 {
        c == "ZSTD"@ && l == Some(3i32)
    } else {
        &&& exists|i: int|
            0 <= i < cols.len() && #[trigger] cols[i].recommended_codec@ == c && cols[i].recommended_codec_level == l
        &&& forall|j: int|
            0 <= j < cols.len() ==> pair_count(cols, #[trigger] cols[j].recommended_codec@, cols[j].recommended_codec_level)
                <= pair_count(cols, c, l)
    }
}

fn count_pair(cols: &Vec<ColumnRecommendation>, c: &str, l: Option<i32>) -> (n: usize)
    ensures
        n == pair_count(cols@, c@, l),
{
    let mut n: usize = 0;
    let mut i: usize = 0;
    while i < cols.len()
        invariant
            i <= cols@.len(),
            n == pair_count(cols@.take(i as int), c@, l),
            n <= i,
        decreases cols@.len() - i,
    {
        proof {
            assert(cols@.take(i + 1).drop_last() =~= cols@.take(i as int));
        }
        if str_eq(cols[i].recommended_codec.as_str(), c) && cols[i].recommended_codec_level == l {
            n = n + 1;
        }
        i = i + 1;
    }
    proof {
        assert(cols@.take(cols@.len() as int) =~= cols@);
    }
    n
}

/// The codec and level most columns are recommended; between pairs
/// recommended equally often any may come out.
pub fn most_common_codec(report: &TuneReport) -> (r: (String, Option<i32>))
    ensures
        is_most_common(report.columns@, r.0@, r.1),
{
    let cols = &report.columns;
    if cols.len() == 0 {
        return (text("ZSTD"), Some(3));
    }
    let mut best: usize = 0;
    let mut best_count = count_pair(cols, cols[0].recommended_codec.as_str(), cols[0].recommended_codec_level);
    let mut i: usize = 1;
    while i < cols.len()
        invariant
            1 <= i <= cols@.len(),
            best < cols@.len(),
            best_count == pair_count(cols@, cols@[best as int].recommended_codec@, cols@[best as int].recommended_codec_level),
            forall|j: int|
                0 <= j < i ==> pair_count(cols@, #[trigger] cols@[j].recommended_codec@, cols@[j].recommended_codec_level)
                    <= best_count,
        decreases cols@.len() - i,
    {
        let k = count_pair(cols, cols[i].recommended_codec.as_str(), cols[i].recommended_codec_level);
        if k > best_count {
            best = i;
            best_count = k;
        }
        i = i + 1;
    }
    (copy_string(&cols[best].recommended_codec), cols[best].recommended_codec_level)
}

/// The reason of the first column named `name` (empty when there is none).
pub open spec fn first_reason(cols: Seq<ColumnRecommendation>, name: Seq<char>) -> Seq<char>
    decreases cols.len(),
{
    if cols.len() == 0 {
        seq![]
    } else if cols[0].column_name@ == name {
        cols[0].reason_brief@
    } else {
        first_reason(cols.drop_first(), name)
    }
}

/// A `column_encoding` line for each column whose encoding is not PLAIN,
/// with the reason of the first column of that name as a comment.
pub open spec fn pyarrow_encoding_lines(all: Seq<ColumnRecommendation>, cols: Seq<ColumnRecommendation>) -> Seq<Seq<char>>
    decreases cols.len(),
{
    if cols.len() == 0 {
        seq![]
    } else {
        let before = pyarrow_encoding_lines(all, cols.drop_last());
        let c = cols.last();
        if c.recommended_encoding@ != "PLAIN"@ {
            before.push(
                "        \""@ + c.column_name@ + "\": \""@ + c.recommended_encoding@ + "\","@ + "  # "@
                    + first_reason(all, c.column_name@),
            )
        } else {
            before
        }
    }
}

pub open spec fn note_line() -> Seq<char> {
    "# NOTE: predictions are [estimated] — use autoparq bench to validate"@
}

/// The lines of the PyArrow snippet for the codec `codec` at level `level`.
pub open spec fn pyarrow_lines(cols: Seq<ColumnRecommendation>, codec: Seq<char>, level: Option<i32>) -> Seq<Seq<char>> {
    let head = seq![
        "import pyarrow.parquet as pq"@,
        seq![],
        "PARQUET_WRITE_OPTIONS = {"@,
        "    \"compression\": \""@ + lowercase_of(codec) + "\","@,
    ];
    let with_level = match level {
        Some(l) => head.push("    \"compression_level\": "@ + int_text(l as int) + ","@),
        None => head,
    };
    let enc = pyarrow_encoding_lines(cols, cols);
    let with_enc = if enc.len() > 0 {
        with_level.push("    \"column_encoding\": {"@) + enc + seq!["    },"@]
    } else {
        with_level
    };
    with_enc + seq![
        "    \"write_statistics\": True,"@,
        "}"@,
        seq![],
        "pq.write_table(table, \"output.parquet\", **PARQUET_WRITE_OPTIONS)"@,
        note_line(),
    ]
}

/// The lines of the PySpark snippet for the codec `codec`.
pub open spec fn pyspark_lines(codec: Seq<char>) -> Seq<Seq<char>> {
    let lower = lowercase_of(codec);
    seq![
        "from pyspark.sql import SparkSession"@,
        if lower == "zstd"@ {
            "# Note: ZSTD requires Spark 3.2+; per-column encoding hints require Spark 3.4+"@
        } else {
            "# Note: Per-column encoding hints require Spark 3.4+"@
        },
        seq![],
        "spark.conf.set(\"spark.sql.parquet.compression.codec\", \""@ + lower + "\")"@,
        "# Per-column encoding (Spark 3.4+ only):"@,
        "# spark.conf.set(\"parquet.writer.version\", \"v2\")"@,
        "# For column-level hints, use PyArrow to write the file instead."@,
        "df.write.mode(\"overwrite\").parquet(\"output.parquet\")"@,
        note_line(),
    ]
}

/// The lines of the Polars snippet for the codec `codec` at level `level`.
pub open spec fn polars_lines(codec: Seq<char>, level: Option<i32>) -> Seq<Seq<char>> {
    let head = seq![
        "import polars as pl"@,
        "# Note: Polars does not support per-column encoding via Python API"@,
        "# File-level codec only. Use PyArrow for per-column control."@,
        seq![],
        "df.write_parquet("@,
        "    \"output.parquet\","@,
        "    compression=\""@ + lowercase_of(codec) + "\","@,
    ];
    let with_level = match level {
        Some(l) => head.push("    compression_level="@ + int_text(l as int) + ","@),
        None => head,
    };
    with_level + seq![")"@, note_line()]
}

fn push_line(lines: &mut Vec<String>, s: String)
    ensures
        views(final(lines)@) == views(old(lines)@).push(s@),
{
    let ghost sv = s@;
    lines.push(s);
    proof {
        assert(views(lines@) =~= views(old(lines)@).push(sv));
    }
}

fn reason_of_first(cols: &Vec<ColumnRecommendation>, name: &str) -> (s: String)
    ensures
        s@ == first_reason(cols@, name@),
{
    let mut i: usize = 0;
    proof {
        assert(cols@.skip(0) =~= cols@);
    }
    while i < cols.len()
        invariant
            i <= cols@.len(),
            first_reason(cols@, name@) == first_reason(cols@.skip(i as int), name@),
        decreases cols@.len() - i,
    {
        proof {
            assert(cols@.skip(i as int)[0] == cols@[i as int]);
            assert(cols@.skip(i as int).drop_first() =~= cols@.skip(i + 1));
        }
        if str_eq(cols[i].column_name.as_str(), name) {
            return copy_string(&cols[i].reason_brief);
        }
        i = i + 1;
    }
    proof {
        assert(cols@.skip(i as int) =~= Seq::<ColumnRecommendation>::empty());
    }
    String::new()
}

fn pyarrow_text(report: &TuneReport, codec: &String, level: Option<i32>) -> (s: String)
    ensures
        s@ == join(pyarrow_lines(report.columns@, codec@, level), "\n"@),
{
    let cols = &report.columns;
    let lower = to_lowercase(codec.as_str());
    let mut lines: Vec<String> = Vec::new();
    push_line(&mut lines, text("import pyarrow.parquet as pq"));
    push_line(&mut lines, String::new());
    push_line(&mut lines, text("PARQUET_WRITE_OPTIONS = {"));
    let mut c = text("    \"compression\": \"");
    c.append(lower.as_str());
    c.append("\",");
    push_line(&mut lines, c);
    match level {
        Some(l) => {
            let mut t = text("    \"compression_level\": ");
            push_int(&mut t, l as i64);
            t.append(",");
            push_line(&mut lines, t);
        },
        None => {},
    }
    let ghost head = views(lines@);
    let mut enc: Vec<String> = Vec::new();
    let mut i: usize = 0;
    while i < cols.len()
        invariant
            i <= cols@.len(),
            views(enc@) == pyarrow_encoding_lines(cols@, cols@.take(i as int)),
        decreases cols@.len() - i,
    {
        let col = &cols[i];
        proof {
            assert(cols@.take(i + 1).drop_last() =~= cols@.take(i as int));
            assert(cols@.take(i + 1).last() == *col);
        }
        if !str_eq(col.recommended_encoding.as_str(), "PLAIN") {
            let mut t = text("        \"");
            t.append(col.column_name.as_str());
            t.append("\": \"");
            t.append(col.recommended_encoding.as_str());
            t.append("\",");
            t.append("  # ");
            let reason = reason_of_first(cols, col.column_name.as_str());
            t.append(reason.as_str());
            push_line(&mut enc, t);
        }
        i = i + 1;
    }
    proof {
        assert(cols@.take(cols@.len() as int) =~= cols@);
    }
    if enc.len() > 0 {
        push_line(&mut lines, text("    \"column_encoding\": {"));
        let mut k: usize = 0;
        let ghost mid = views(lines@);
        while k < enc.len()
            invariant
                k <= enc@.len(),
                views(lines@) == mid + views(enc@).take(k as int),
            decreases enc@.len() - k,
        {
            push_line(&mut lines, copy_string(&enc[k]));
            proof {
                assert(views(enc@).take(k + 1) =~= views(enc@).take(k as int).push(enc@[k as int]@));
                assert(views(lines@) =~= mid + views(enc@).take(k + 1));
            }
            k = k + 1;
        }
        proof {
            assert(views(enc@).take(enc@.len() as int) =~= views(enc@));
        }
        push_line(&mut lines, text("    },"));
    }
    push_line(&mut lines, text("    \"write_statistics\": True,"));
    push_line(&mut lines, text("}"));
    push_line(&mut lines, String::new());
    push_line(&mut lines, text("pq.write_table(table, \"output.parquet\", **PARQUET_WRITE_OPTIONS)"));
    push_line(&mut lines, text("# NOTE: predictions are [estimated] — use autoparq bench to validate"));
    proof {
        assert(views(lines@) =~= pyarrow_lines(cols@, codec@, level));
    }
    join_strings(&lines, "\n")
}

fn pyspark_text(codec: &String) -> (s: String)
    ensures
        s@ == join(pyspark_lines(codec@), "\n"@),
{
    let lower = to_lowercase(codec.as_str());
    let mut lines: Vec<String> = Vec::new();
    push_line(&mut lines, text("from pyspark.sql import SparkSession"));
    if str_eq(lower.as_str(), "zstd") {
        push_line(&mut lines, text("# Note: ZSTD requires Spark 3.2+; per-column encoding hints require Spark 3.4+"));
    } else {
        push_line(&mut lines, text("# Note: Per-column encoding hints require Spark 3.4+"));
    }
    push_line(&mut lines, String::new());
    let mut c = text("spark.conf.set(\"spark.sql.parquet.compression.codec\", \"");
    c.append(lower.as_str());
    c.append("\")");
    push_line(&mut lines, c);
    push_line(&mut lines, text("# Per-column encoding (Spark 3.4+ only):"));
    push_line(&mut lines, text("# spark.conf.set(\"parquet.writer.version\", \"v2\")"));
    push_line(&mut lines, text("# For column-level hints, use PyArrow to write the file instead."));
    push_line(&mut lines, text("df.write.mode(\"overwrite\").parquet(\"output.parquet\")"));
    push_line(&mut lines, text("# NOTE: predictions are [estimated] — use autoparq bench to validate"));
    proof {
        assert(views(lines@) =~= pyspark_lines(codec@));
    }
    join_strings(&lines, "\n")
}

fn polars_text(codec: &String, level: Option<i32>) -> (s: String)
    ensures
        s@ == join(polars_lines(codec@, level), "\n"@),
{
    let lower = to_lowercase(codec.as_str());
    let mut lines: Vec<String> = Vec::new();
    push_line(&mut lines, text("import polars as pl"));
    push_line(&mut lines, text("# Note: Polars does not support per-column encoding via Python API"));
    push_line(&mut lines, text("# File-level codec only. Use PyArrow for per-column control."));
    push_line(&mut lines, String::new());
    push_line(&mut lines, text("df.write_parquet("));
    push_line(&mut lines, text("    \"output.parquet\","));
    let mut c = text("    compression=\"");
    c.append(lower.as_str());
    c.append("\",");
    push_line(&mut lines, c);
    match level {
        Some(l) => {
            let mut t = text("    compression_level=");
            push_int(&mut t, l as i64);
            t.append(",");
            push_line(&mut lines, t);
        },
        None => {},
    }
    push_line(&mut lines, text(")"));
    push_line(&mut lines, text("# NOTE: predictions are [estimated] — use autoparq bench to validate"));
    proof {
        assert(views(lines@) =~= polars_lines(codec@, level));
    }
    join_strings(&lines, "\n")
}

/// The PyArrow snippet: the most common codec and level, and the per-column
/// encodings other than PLAIN.
pub fn generate_pyarrow(report: &TuneReport) -> (s: String)
    ensures
        exists|c: Seq<char>, l: Option<i32>|
            is_most_common(report.columns@, c, l) && s@ == join(#[trigger] pyarrow_lines(report.columns@, c, l), "\n"@),
{
    let (codec, level) = most_common_codec(report);
    let s = pyarrow_text(report, &codec, level);
    proof {
        assert(is_most_common(report.columns@, codec@, level) && s@ == join(pyarrow_lines(report.columns@, codec@, level), "\n"@));
    }
    s
}

/// The PySpark snippet: the most common codec, file-wide.
pub fn generate_pyspark(report: &TuneReport) -> (s: String)
    ensures
        exists|c: Seq<char>, l: Option<i32>|
            #[trigger] is_most_common(report.columns@, c, l) && s@ == join(pyspark_lines(c), "\n"@),
{
    let (codec, level) = most_common_codec(report);
    let s = pyspark_text(&codec);
    proof {
        assert(is_most_common(report.columns@, codec@, level) && s@ == join(pyspark_lines(codec@), "\n"@));
    }
    s
}

/// The Polars snippet: the most common codec and level, file-wide.
pub fn generate_polars(report: &TuneReport) -> (s: String)
    ensures
        exists|c: Seq<char>, l: Option<i32>|
            is_most_common(report.columns@, c, l) && s@ == join(#[trigger] polars_lines(c, l), "\n"@),
{
    let (codec, level) = most_common_codec(report);
    let s = polars_text(&codec, level);
    proof {
        assert(is_most_common(report.columns@, codec@, level) && s@ == join(polars_lines(codec@, level), "\n"@));
    }
    s
}

/// Which snippet an engine name asks for (compared in lower case): PySpark
/// for `pyspark` and `spark`, Polars for `polars`, PyArrow otherwise.
pub open spec fn snippet_kind(engine: Seq<char>) -> int {
    let l = lowercase_of(engine);
    if l == "pyarrow"@ || l == "pandas"@ || l == "unknown"@ || l == ""@ {
        0
    } else if l == "pyspark"@ || l == "spark"@ {
        1
    } else if l == "polars"@ {
        2
    } else {
        0
    }
}

/// The write snippet for an engine name.
pub fn generate_snippet(report: &TuneReport, engine_str: &str) -> (s: String)
    ensures
        exists|c: Seq<char>, l: Option<i32>|
            is_most_common(report.columns@, c, l) && s@ == join(
                #[trigger] snippet_lines(report.columns@, snippet_kind(engine_str@), c, l),
                "\n"@,
            ),
{
    let lower = to_lowercase(engine_str);
    let t = lower.as_str();
    let cols = &report.columns;
    if str_eq(t, "pyarrow") || str_eq(t, "pandas") || str_eq(t, "unknown") || str_eq(t, "") {
        let s = generate_pyarrow(report);
        proof {
            let (c, l) = choose|c: Seq<char>, l: Option<i32>|
                is_most_common(cols@, c, l) && s@ == join(#[trigger] pyarrow_lines(cols@, c, l), "\n"@);
            assert(snippet_lines(cols@, snippet_kind(engine_str@), c, l) == pyarrow_lines(cols@, c, l));
        }
        s
    } else if str_eq(t, "pyspark") || str_eq(t, "spark") {
        let s = generate_pyspark(report);
        proof {
            let (c, l) = choose|c: Seq<char>, l: Option<i32>|
                #[trigger] is_most_common(cols@, c, l) && s@ == join(pyspark_lines(c), "\n"@);
            assert(snippet_lines(cols@, snippet_kind(engine_str@), c, l) == pyspark_lines(c));
        }
        s
    } else if str_eq(t, "polars") {
        let s = generate_polars(report);
        proof {
            let (c, l) = choose|c: Seq<char>, l: Option<i32>|
                is_most_common(cols@, c, l) && s@ == join(#[trigger] polars_lines(c, l), "\n"@);
            assert(snippet_lines(cols@, snippet_kind(engine_str@), c, l) == polars_lines(c, l));
        }
        s
    } else {
        let s = generate_pyarrow(report);
        proof {
            let (c, l) = choose|c: Seq<char>, l: Option<i32>|
                is_most_common(cols@, c, l) && s@ == join(#[trigger] pyarrow_lines(cols@, c, l), "\n"@);
            assert(snippet_lines(cols@, snippet_kind(engine_str@), c, l) == pyarrow_lines(cols@, c, l));
        }
        s
    }
}

/// The lines of the snippet of kind `kind` (0 PyArrow, 1 PySpark, 2 Polars).
pub open spec fn snippet_lines(cols: Seq<ColumnRecommendation>, kind: int, c: Seq<char>, l: Option<i32>) -> Seq<Seq<char>> {
    if kind == 1 {
        pyspark_lines(c)
    } else if kind == 2 {
        polars_lines(c, l)
    } else {
        pyarrow_lines(cols, c, l)
    }
}

} // verus!
