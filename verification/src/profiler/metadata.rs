//! Footer metadata of a Parquet file, summarised per column.

use vstd::prelude::*;
use crate::ratio::Ratio;
use crate::text::{copy_opt_string, copy_string, copy_string_lists, copy_strings, copy_vec};

verus! {

/// One column of the file as its footer describes it.
pub struct ColumnMetaSummary {
    pub name: String,
    pub physical_type: String,
    pub logical_type: Option<String>,
    pub encodings: Vec<String>,
    pub codec: String,
    pub compressed_bytes: u64,
    pub uncompressed_bytes: u64,
    pub compression_ratio: Ratio,
    pub total_null_count: Option<u64>,
    pub min_value: Option<String>,
    pub max_value: Option<String>,
    pub statistics_available: bool,
    pub per_row_group_encodings: Vec<Vec<String>>,
    pub per_row_group_compressed_bytes: Vec<u64>,
    pub per_row_group_uncompressed_bytes: Vec<u64>,
    pub per_row_group_dict_page_bytes: Vec<Option<i64>>,
}

/// The whole footer, summarised.
pub struct FileProfile {
    pub path: String,
    pub file_size_bytes: u64,
    pub parquet_version: i32,
    pub num_rows: i64,
    pub num_row_groups: usize,
    pub row_group_row_counts: Vec<i64>,
    pub row_group_compressed_bytes: Vec<u64>,
    pub created_by: Option<String>,
    pub columns: Vec<ColumnMetaSummary>,
}

} // verus!

verus! {

/// `i` is the first position of a column named `name`.
pub open spec fn is_first_named(cols: Seq<ColumnMetaSummary>, name: Seq<char>, i: int) -> bool {
    &&& 0 <= i < cols.len()
    &&& cols[i].name@ == name
    &&& forall|j: int| 0 <= j < i ==> #[trigger] cols[j].name@ != name
}

/// The position of the first column named `name`, if any.
pub open spec fn first_named(cols: Seq<ColumnMetaSummary>, name: Seq<char>) -> Option<int> {
    if exists|i: int| is_first_named(cols, name, i) {
        Some(choose|i: int| is_first_named(cols, name, i))
    } else {
        None
    }
}

pub open spec fn opt_index(r: Option<usize>) -> Option<int> {
    match r {
        Some(i) => Some(i as int),
        None => None,
    }
}

/// The position of the first column named `name`, if any.
pub fn find_column(cols: &Vec<ColumnMetaSummary>, name: &str) -> (r: Option<usize>)
    ensures
        opt_index(r) == first_named(cols@, name@),
        r matches Some(i) ==> i < cols@.len(),
{
    let mut i: usize = 0;
    while i < cols.len()
        invariant
            i <= cols@.len(),
            forall|j: int| 0 <= j < i ==> #[trigger] cols@[j].name@ != name@,
        decreases cols@.len() - i,
    {
        if crate::text::str_eq(cols[i].name.as_str(), name) {
            proof {
                assert(is_first_named(cols@, name@, i as int));
                let k = choose|k: int| is_first_named(cols@, name@, k);
                if k < i {
                    assert(cols@[k].name@ != name@);
                } else if k > i {
                    assert(cols@[i as int].name@ != name@);
                }
            }
            return Some(i);
        }
        i = i + 1;
    }
    proof {
        assert(!exists|k: int| is_first_named(cols@, name@, k));
    }
    None
}

/// Total uncompressed bytes over the columns.
pub open spec fn sum_uncompressed(cols: Seq<ColumnMetaSummary>) -> int
    decreases cols.len(),
{
    if cols.len() == 0 {
        0
    } else {
        sum_uncompressed(cols.drop_last()) + cols.last().uncompressed_bytes
    }
}

/// Total uncompressed bytes over the columns of the file.
pub fn total_uncompressed(cols: &Vec<ColumnMetaSummary>) -> (t: u128)
    ensures
        t == sum_uncompressed(cols@),
{
    let mut t: u128 = 0;
    let mut i: usize = 0;
    while i < cols.len()
        invariant
            i <= cols@.len(),
            t == sum_uncompressed(cols@.take(i as int)),
            t <= i * 0xffff_ffff_ffff_ffff,
        decreases cols@.len() - i,
    {
        proof {
            assert(cols@.take(i + 1).drop_last() =~= cols@.take(i as int));
        }
        t = t + cols[i].uncompressed_bytes as u128;
        i = i + 1;
    }
    proof {
        assert(cols@.take(cols@.len() as int) =~= cols@);
    }
    t
}

} // verus!

verus! {

/// Two summaries hold the same values.
pub open spec fn same_meta(a: ColumnMetaSummary, b: ColumnMetaSummary) -> bool {
    &&& a.name == b.name
    &&& a.physical_type == b.physical_type
    &&& a.logical_type == b.logical_type
    &&& a.encodings@ == b.encodings@
    &&& a.codec == b.codec
    &&& a.compressed_bytes == b.compressed_bytes
    &&& a.uncompressed_bytes == b.uncompressed_bytes
    &&& a.compression_ratio == b.compression_ratio
    &&& a.total_null_count == b.total_null_count
    &&& a.min_value == b.min_value
    &&& a.max_value == b.max_value
    &&& a.statistics_available == b.statistics_available
    &&& a.per_row_group_encodings@.len() == b.per_row_group_encodings@.len()
    &&& forall|i: int| 0 <= i < a.per_row_group_encodings@.len()
        ==> #[trigger] a.per_row_group_encodings@[i]@ == b.per_row_group_encodings@[i]@
    &&& a.per_row_group_compressed_bytes@ == b.per_row_group_compressed_bytes@
    &&& a.per_row_group_uncompressed_bytes@ == b.per_row_group_uncompressed_bytes@
    &&& a.per_row_group_dict_page_bytes@ == b.per_row_group_dict_page_bytes@
}

/// Two file summaries hold the same values.
pub open spec fn same_file_profile(a: FileProfile, b: FileProfile) -> bool {
    &&& a.path == b.path
    &&& a.file_size_bytes == b.file_size_bytes
    &&& a.parquet_version == b.parquet_version
    &&& a.num_rows == b.num_rows
    &&& a.num_row_groups == b.num_row_groups
    &&& a.row_group_row_counts@ == b.row_group_row_counts@
    &&& a.row_group_compressed_bytes@ == b.row_group_compressed_bytes@
    &&& a.created_by == b.created_by
    &&& a.columns@.len() == b.columns@.len()
    &&& forall|i: int| 0 <= i < a.columns@.len() ==> same_meta(#[trigger] a.columns@[i], b.columns@[i])
}

impl FileProfile {
    /// A copy of the file summary.
    pub fn copy(&self) -> (r: FileProfile)
        ensures
            same_file_profile(r, *self),
    {
        let mut columns: Vec<ColumnMetaSummary> = Vec::new();
        let mut i: usize = 0;
        while i < self.columns.len()
            invariant
                i <= self.columns@.len(),
                columns@.len() == i,
                forall|k: int| 0 <= k < i ==> same_meta(#[trigger] columns@[k], self.columns@[k]),
            decreases self.columns@.len() - i,
        {
            columns.push(self.columns[i].copy());
            i = i + 1;
        }
        FileProfile {
            path: copy_string(&self.path),
            file_size_bytes: self.file_size_bytes,
            parquet_version: self.parquet_version,
            num_rows: self.num_rows,
            num_row_groups: self.num_row_groups,
            row_group_row_counts: copy_vec(&self.row_group_row_counts),
            row_group_compressed_bytes: copy_vec(&self.row_group_compressed_bytes),
            created_by: copy_opt_string(&self.created_by),
            columns,
        }
    }
}

impl ColumnMetaSummary {
    /// A copy of the summary.
    pub fn copy(&self) -> (r: ColumnMetaSummary)
        ensures
            same_meta(r, *self),
            r.name == self.name,
            r.physical_type == self.physical_type,
            r.logical_type == self.logical_type,
            r.encodings@ == self.encodings@,
            r.codec == self.codec,
            r.compressed_bytes == self.compressed_bytes,
            r.uncompressed_bytes == self.uncompressed_bytes,
            r.compression_ratio == self.compression_ratio,
            r.total_null_count == self.total_null_count,
            r.min_value == self.min_value,
            r.max_value == self.max_value,
            r.statistics_available == self.statistics_available,
            r.per_row_group_encodings@.len() == self.per_row_group_encodings@.len(),
            forall|i: int| 0 <= i < self.per_row_group_encodings@.len()
                ==> #[trigger] r.per_row_group_encodings@[i]@ == self.per_row_group_encodings@[i]@,
            r.per_row_group_compressed_bytes@ == self.per_row_group_compressed_bytes@,
            r.per_row_group_uncompressed_bytes@ == self.per_row_group_uncompressed_bytes@,
            r.per_row_group_dict_page_bytes@ == self.per_row_group_dict_page_bytes@,
    {
        ColumnMetaSummary {
            name: copy_string(&self.name),
            physical_type: copy_string(&self.physical_type),
            logical_type: copy_opt_string(&self.logical_type),
            encodings: copy_strings(&self.encodings),
            codec: copy_string(&self.codec),
            compressed_bytes: self.compressed_bytes,
            uncompressed_bytes: self.uncompressed_bytes,
            compression_ratio: self.compression_ratio.copy(),
            total_null_count: self.total_null_count,
            min_value: copy_opt_string(&self.min_value),
            max_value: copy_opt_string(&self.max_value),
            statistics_available: self.statistics_available,
            per_row_group_encodings: copy_string_lists(&self.per_row_group_encodings),
            per_row_group_compressed_bytes: copy_vec(&self.per_row_group_compressed_bytes),
            per_row_group_uncompressed_bytes: copy_vec(&self.per_row_group_uncompressed_bytes),
            per_row_group_dict_page_bytes: copy_vec(&self.per_row_group_dict_page_bytes),
        }
    }
}

} // verus!

