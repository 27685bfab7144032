//! A sample of one column's values, held as plain values by type, and the
//! bytes that stand for each value when values are counted or hashed.

use vstd::prelude::*;
use vstd::string::StringSliceAdditionalSpecFns;
use vstd::utf8::encode_utf8;

verus! {

/// The sampled values of a column, `None` for a null. Timestamps hold their
/// ticks; floats hold their bit patterns; `Other` only records which rows
/// hold a value.
pub enum SampleValues {
    Boolean(Vec<Option<bool>>),
    Int32(Vec<Option<i32>>),
    Date32(Vec<Option<i32>>),
    Int64(Vec<Option<i64>>),
    Date64(Vec<Option<i64>>),
    Timestamp(Vec<Option<i64>>),
    Float32(Vec<Option<u32>>),
    Float64(Vec<Option<u64>>),
    Utf8(Vec<Option<String>>),
    LargeUtf8(Vec<Option<String>>),
    Binary(Vec<Option<Vec<u8>>>),
    LargeBinary(Vec<Option<Vec<u8>>>),
    FixedSizeBinary(Vec<Option<Vec<u8>>>),
    Other(Vec<bool>),
}

/// A sample of one column.
pub struct ColumnSample {
    pub column_name: String,
    pub physical_type: String,
    pub logical_type: Option<String>,
    pub values: SampleValues,
    /// Each row as the column's display formatter shows it, when there is one.
    pub display: Option<Vec<String>>,
    pub total_rows_in_file: i64,
    pub sampled_rows: usize,
}

/// Number of sampled rows.
pub open spec fn sample_len(v: &SampleValues) -> nat {
    match v {
        SampleValues::Boolean(x) => x@.len(),
        SampleValues::Int32(x) => x@.len(),
        SampleValues::Date32(x) => x@.len(),
        SampleValues::Int64(x) => x@.len(),
        SampleValues::Date64(x) => x@.len(),
        SampleValues::Timestamp(x) => x@.len(),
        SampleValues::Float32(x) => x@.len(),
        SampleValues::Float64(x) => x@.len(),
        SampleValues::Utf8(x) => x@.len(),
        SampleValues::LargeUtf8(x) => x@.len(),
        SampleValues::Binary(x) => x@.len(),
        SampleValues::LargeBinary(x) => x@.len(),
        SampleValues::FixedSizeBinary(x) => x@.len(),
        SampleValues::Other(x) => x@.len(),
    }
}

/// Row `i` holds a value.
pub open spec fn is_present(v: &SampleValues, i: int) -> bool {
    match v {
        SampleValues::Boolean(x) => x@[i] is Some,
        SampleValues::Int32(x) => x@[i] is Some,
        SampleValues::Date32(x) => x@[i] is Some,
        SampleValues::Int64(x) => x@[i] is Some,
        SampleValues::Date64(x) => x@[i] is Some,
        SampleValues::Timestamp(x) => x@[i] is Some,
        SampleValues::Float32(x) => x@[i] is Some,
        SampleValues::Float64(x) => x@[i] is Some,
        SampleValues::Utf8(x) => x@[i] is Some,
        SampleValues::LargeUtf8(x) => x@[i] is Some,
        SampleValues::Binary(x) => x@[i] is Some,
        SampleValues::LargeBinary(x) => x@[i] is Some,
        SampleValues::FixedSizeBinary(x) => x@[i] is Some,
        SampleValues::Other(x) => x@[i],
    }
}

/// The display text of every row is known.
pub open spec fn sample_wf(s: &ColumnSample) -> bool {
    match s.display {
        Some(d) => d@.len() == sample_len(&s.values),
        None => true,
    }
}

pub fn sample_length(v: &SampleValues) -> (n: usize)
    ensures
        n == sample_len(v),
{
    match v {
        SampleValues::Boolean(x) => x.len(),
        SampleValues::Int32(x) => x.len(),
        SampleValues::Date32(x) => x.len(),
        SampleValues::Int64(x) => x.len(),
        SampleValues::Date64(x) => x.len(),
        SampleValues::Timestamp(x) => x.len(),
        SampleValues::Float32(x) => x.len(),
        SampleValues::Float64(x) => x.len(),
        SampleValues::Utf8(x) => x.len(),
        SampleValues::LargeUtf8(x) => x.len(),
        SampleValues::Binary(x) => x.len(),
        SampleValues::LargeBinary(x) => x.len(),
        SampleValues::FixedSizeBinary(x) => x.len(),
        SampleValues::Other(x) => x.len(),
    }
}

pub fn present(v: &SampleValues, i: usize) -> (r: bool)
    requires
        i < sample_len(v),
    ensures
        r == is_present(v, i as int),
{
    match v {
        SampleValues::Boolean(x) => x[i].is_some(),
        SampleValues::Int32(x) => x[i].is_some(),
        SampleValues::Date32(x) => x[i].is_some(),
        SampleValues::Int64(x) => x[i].is_some(),
        SampleValues::Date64(x) => x[i].is_some(),
        SampleValues::Timestamp(x) => x[i].is_some(),
        SampleValues::Float32(x) => x[i].is_some(),
        SampleValues::Float64(x) => x[i].is_some(),
        SampleValues::Utf8(x) => x[i].is_some(),
        SampleValues::LargeUtf8(x) => x[i].is_some(),
        SampleValues::Binary(x) => x[i].is_some(),
        SampleValues::LargeBinary(x) => x[i].is_some(),
        SampleValues::FixedSizeBinary(x) => x[i].is_some(),
        SampleValues::Other(x) => x[i],
    }
}

/// The number of nulls among the first `n` rows.
pub open spec fn nulls_in(v: &SampleValues, n: nat) -> nat
    decreases n,
{
    if n == 0 {
        0
    } else {
        nulls_in(v, (n - 1) as nat) + if is_present(v, n - 1) { 0nat } else { 1nat }
    }
}

/// The number of null rows in the sample.
pub fn null_count(v: &SampleValues) -> (c: usize)
    ensures
        c == nulls_in(v, sample_len(v)),
        c <= sample_len(v),
{
    let n = sample_length(v);
    let mut c: usize = 0;
    let mut i: usize = 0;
    while i < n
        invariant
            n == sample_len(v),
            i <= n,
            c == nulls_in(v, i as nat),
            c <= i,
        decreases n - i,
    {
        if !present(v, i) {
            c = c + 1;
        }
        i = i + 1;
    }
    c
}

/// The integer values of an integer or temporal sample.
pub open spec fn int_values(v: &SampleValues) -> Option<Seq<Option<int>>> {
    match v {
        SampleValues::Int64(x) => Some(x@.map_values(|o: Option<i64>| opt_int(o))),
        SampleValues::Timestamp(x) => Some(x@.map_values(|o: Option<i64>| opt_int(o))),
        SampleValues::Date64(x) => Some(x@.map_values(|o: Option<i64>| opt_int(o))),
        SampleValues::Int32(x) => Some(x@.map_values(|o: Option<i32>| opt_int32(o))),
        SampleValues::Date32(x) => Some(x@.map_values(|o: Option<i32>| opt_int32(o))),
        _ => None,
    }
}

pub open spec fn opt_int(o: Option<i64>) -> Option<int> {
    match o {
        Some(x) => Some(x as int),
        None => None,
    }
}

pub open spec fn opt_int32(o: Option<i32>) -> Option<int> {
    match o {
        Some(x) => Some(x as int),
        None => None,
    }
}

fn widen(x: &Vec<Option<i32>>) -> (r: Vec<Option<i64>>)
    ensures
        r@.map_values(|o: Option<i64>| opt_int(o)) == x@.map_values(|o: Option<i32>| opt_int32(o)),
{
    let mut r: Vec<Option<i64>> = Vec::new();
    let mut i: usize = 0;
    while i < x.len()
        invariant
            i <= x@.len(),
            r@.len() == i,
            forall|k: int| 0 <= k < i ==> opt_int(#[trigger] r@[k]) == opt_int32(x@[k]),
        decreases x@.len() - i,
    {
        r.push(
            match x[i] {
                Some(v) => Some(v as i64),
                None => None,
            },
        );
        i = i + 1;
    }
    proof {
        assert(r@.map_values(|o: Option<i64>| opt_int(o)) =~= x@.map_values(|o: Option<i32>| opt_int32(o)));
    }
    r
}

fn copy_ints(x: &Vec<Option<i64>>) -> (r: Vec<Option<i64>>)
    ensures
        r@ == x@,
{
    let mut r: Vec<Option<i64>> = Vec::new();
    let mut i: usize = 0;
    while i < x.len()
        invariant
            i <= x@.len(),
            r@ == x@.take(i as int),
        decreases x@.len() - i,
    {
        r.push(x[i]);
        proof {
            assert(r@ =~= x@.take(i + 1));
        }
        i = i + 1;
    }
    proof {
        assert(x@.take(x@.len() as int) =~= x@);
    }
    r
}

/// The values of an integer or temporal sample as `i64`, if it is one.
pub fn ints_of(v: &SampleValues) -> (r: Option<Vec<Option<i64>>>)
    ensures
        match r {
            Some(x) => int_values(v) == Some(x@.map_values(|o: Option<i64>| opt_int(o))),
            None => int_values(v) is None,
        },
{
    match v {
        SampleValues::Int64(x) => Some(copy_ints(x)),
        SampleValues::Timestamp(x) => Some(copy_ints(x)),
        SampleValues::Date64(x) => Some(copy_ints(x)),
        SampleValues::Int32(x) => Some(widen(x)),
        SampleValues::Date32(x) => Some(widen(x)),
        _ => None,
    }
}

/// The `n` lowest base-256 digits of `u`, least significant first.
pub open spec fn le_bytes(u: nat, n: nat) -> Seq<u8>
    decreases n,
{
    if n == 0 {
        seq![]
    } else {
        seq![(u % 256) as u8] + le_bytes(u / 256, (n - 1) as nat)
    }
}

/// The two's-complement bit pattern of `x` in `bits` bits.
pub open spec fn twos(x: int, bits: nat) -> nat {
    if x < 0 {
        (x + vstd::arithmetic::power2::pow2(bits)) as nat
    } else {
        x as nat
    }
}

/// The bytes that stand for the value of row `i`: little-endian bytes of
/// integers and float bit patterns, `1`/`0` for booleans, the UTF-8 bytes of
/// strings, raw bytes of binary values, and for other types the bytes of the
/// row's display text (none when there is no display).
pub open spec fn value_bytes(s: &ColumnSample, i: int) -> Seq<u8> {
    match s.values {
        SampleValues::Boolean(x) => if x@[i].unwrap() { seq![1u8] } else { seq![0u8] },
        SampleValues::Int32(x) => le_bytes(twos(x@[i].unwrap() as int, 32), 4),
        SampleValues::Date32(x) => le_bytes(twos(x@[i].unwrap() as int, 32), 4),
        SampleValues::Int64(x) => le_bytes(twos(x@[i].unwrap() as int, 64), 8),
        SampleValues::Date64(x) => le_bytes(twos(x@[i].unwrap() as int, 64), 8),
        SampleValues::Timestamp(x) => le_bytes(twos(x@[i].unwrap() as int, 64), 8),
        SampleValues::Float32(x) => le_bytes(x@[i].unwrap() as nat, 4),
        SampleValues::Float64(x) => le_bytes(x@[i].unwrap() as nat, 8),
        SampleValues::Utf8(x) => encode_utf8(x@[i].unwrap()@),
        SampleValues::LargeUtf8(x) => encode_utf8(x@[i].unwrap()@),
        SampleValues::Binary(x) => x@[i].unwrap()@,
        SampleValues::FixedSizeBinary(x) => x@[i].unwrap()@,
        SampleValues::LargeBinary(_) | SampleValues::Other(_) => match s.display {
            Some(d) => encode_utf8(d@[i]@),
            None => seq![],
        },
    }
}

fn le_bytes_vec(u: u64, n: usize) -> (r: Vec<u8>)
    requires
        n <= 8,
    ensures
        r@ == le_bytes(u as nat, n as nat),
    decreases n,
{
    if n == 0 {
        let r: Vec<u8> = Vec::new();
        proof {
            assert(r@ =~= le_bytes(u as nat, 0));
        }
        r
    } else {
        let rest = le_bytes_vec(u / 256, n - 1);
        let mut r: Vec<u8> = Vec::new();
        r.push((u % 256) as u8);
        let mut k: usize = 0;
        while k < rest.len()
            invariant
                k <= rest@.len(),
                r@ == seq![(u % 256) as u8] + rest@.take(k as int),
            decreases rest@.len() - k,
        {
            r.push(rest[k]);
            proof {
                assert(r@ =~= seq![(u % 256) as u8] + rest@.take(k + 1));
            }
            k = k + 1;
        }
        proof {
            assert(rest@.take(rest@.len() as int) =~= rest@);
        }
        r
    }
}

fn copy_bytes(b: &[u8]) -> (r: Vec<u8>)
    ensures
        r@ == b@,
{
    let mut r: Vec<u8> = Vec::new();
    let mut i: usize = 0;
    while i < b.len()
        invariant
            i <= b@.len(),
            r@ == b@.take(i as int),
        decreases b@.len() - i,
    {
        r.push(b[i]);
        proof {
            assert(r@ =~= b@.take(i + 1));
        }
        i = i + 1;
    }
    proof {
        assert(b@.take(b@.len() as int) =~= b@);
    }
    r
}

fn text_bytes(t: &String) -> (r: Vec<u8>)
    ensures
        r@ == encode_utf8(t@),
{
    let b = t.as_str().as_bytes();
    copy_bytes(b)
}

/// The bytes that stand for the value of row `i` (see `value_bytes`).
pub fn get_value_bytes(sample: &ColumnSample, i: usize) -> (r: Vec<u8>)
    requires
        sample_wf(sample),
        i < sample_len(&sample.values),
        is_present(&sample.values, i as int),
    ensures
        r@ == value_bytes(sample, i as int),
{
    proof {
        vstd::arithmetic::power2::lemma2_to64();
    }
    match &sample.values {
        SampleValues::Boolean(x) => {
            let mut r: Vec<u8> = Vec::new();
            match x[i] {
                Some(true) => r.push(1u8),
                _ => r.push(0u8),
            }
            proof {
                assert(r@ =~= value_bytes(sample, i as int));
            }
            r
        },
        SampleValues::Int32(x) | SampleValues::Date32(x) => {
            let v = match x[i] {
                Some(v) => v,
                None => 0,
            };
            let u: u64 = if v < 0 { (v as i64 + 0x1_0000_0000) as u64 } else { v as u64 };
            le_bytes_vec(u, 4)
        },
        SampleValues::Int64(x) | SampleValues::Date64(x) | SampleValues::Timestamp(x) => {
            let v = match x[i] {
                Some(v) => v,
                None => 0,
            };
            let u: u64 = if v < 0 { (v as i128 + 0x1_0000_0000_0000_0000) as u64 } else { v as u64 };
            le_bytes_vec(u, 8)
        },
        SampleValues::Float32(x) => {
            let v = match x[i] {
                Some(v) => v,
                None => 0,
            };
            le_bytes_vec(v as u64, 4)
        },
        SampleValues::Float64(x) => {
            let v = match x[i] {
                Some(v) => v,
                None => 0,
            };
            le_bytes_vec(v, 8)
        },
        SampleValues::Utf8(x) | SampleValues::LargeUtf8(x) => match &x[i] {
            Some(t) => text_bytes(t),
            None => Vec::new(),
        },
        SampleValues::Binary(x) | SampleValues::FixedSizeBinary(x) => match &x[i] {
            Some(b) => copy_bytes(b.as_slice()),
            None => Vec::new(),
        },
        SampleValues::LargeBinary(_) | SampleValues::Other(_) => match &sample.display {
            Some(d) => text_bytes(&d[i]),
            None => {
                let r: Vec<u8> = Vec::new();
                proof {
                    assert(r@ =~= value_bytes(sample, i as int));
                }
                r
            },
        },
    }
}

} // verus!
