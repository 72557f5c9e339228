use vstd::prelude::*;

verus! {

use vstd::string::{StringSliceAdditionalSpecFns, StringExecFns};
use vstd::utf8::encode_utf8;
use crate::error::ProfileError;
use crate::hash::{spec_hash64, fnv_fold, lemma_fnv_fold_concat, fnv_hash_i64, fnv_hash_str,
    le_bytes_i64, u64_to_string, spec_dec_str, FNV_OFFSET_BASIS};
use crate::hist::{Hist, build_histogram, count_in_bucket, sum_counts};
use crate::semantic::{SemanticCounts, ColumnType, count_kind, classify_column};
use crate::stats::{NumericFeatures, StringFeatures, numeric_features_match, string_features_match,
    get_numeric_features, get_string_features, stats_fit, seq_len_sum, seq_min, seq_max};
use crate::table::{Table, ColumnKind, count_nulls, non_null_ints, non_null_texts,
    count_unique_ints, count_unique_texts, lemma_numeric_partition, lemma_text_partition};

/// The features of a profiled column: a numeric summary for integer and
/// float columns, a textual summary for string columns.
#[derive(Debug, Clone, PartialEq)]
pub enum ColumnFeatures {
    Numeric(NumericFeatures),
    Textual(StringFeatures),
}

/// The derived profile of one column: content fingerprint, distinct and
/// null counts, the categorical flag, the typed feature summary, and the
/// semantic kind counts of its string values.
#[derive(Debug, Clone, PartialEq)]
pub struct Column {
    pub hash: String,
    pub nunique: usize,
    pub count: usize,
    pub null_count: usize,
    pub categorical: bool,
    pub features: ColumnFeatures,
    pub types: SemanticCounts,
}

impl Column {
    /// Assemble the profile of one column. The categorical flag is set
    /// if and only if the distinct-value ratio lies below the fixed
    /// threshold of one fifth: `nunique / count < 0.2`, exactly
    /// `5 * nunique < count`.
    pub fn new(
        hash: String,
        nunique: usize,
        count: usize,
        null_count: usize,
        features: ColumnFeatures,
        types: SemanticCounts,
    ) -> (c: Column)
        requires
            count > 0,
        ensures
            c.hash == hash,
            c.nunique == nunique,
            c.count == count,
            c.null_count == null_count,
            c.features == features,
            c.types == types,
            c.categorical == (5 * (nunique as int) < count as int),
    {
        let categorical: bool = 5u128 * (nunique as u128) < (count as u128);
        Column { hash, nunique, count, null_count, categorical, features, types }
    }

    /// Recompute the categorical flag against a threshold given as the
    /// exact fraction `thresh_num / thresh_den`: set if and only if
    /// `nunique / count < thresh_num / thresh_den`.
    pub fn set_categorical(&mut self, thresh_num: u64, thresh_den: u64)
        requires
            old(self).count > 0,
            thresh_den > 0,
        ensures
            final(self).categorical == ((old(self).nunique as int) * (thresh_den as int) < (
            thresh_num as int) * (old(self).count as int)),
            final(self).hash == old(self).hash,
            final(self).nunique == old(self).nunique,
            final(self).count == old(self).count,
            final(self).null_count == old(self).null_count,
            final(self).features == old(self).features,
            final(self).types == old(self).types,
    {
        proof {
            assert((self.nunique as int) * (thresh_den as int) <= u128::MAX as int)
                by (nonlinear_arith)
                requires
                    0 <= self.nunique as int <= 0xffff_ffff_ffff_ffffu64 as int,
                    0 <= thresh_den as int <= 0xffff_ffff_ffff_ffffu64 as int,
            ;
            assert((thresh_num as int) * (self.count as int) <= u128::MAX as int)
                by (nonlinear_arith)
                requires
                    0 <= thresh_num as int <= 0xffff_ffff_ffff_ffffu64 as int,
                    0 <= self.count as int <= 0xffff_ffff_ffff_ffffu64 as int,
            ;
        }
        let lhs: u128 = (self.nunique as u128) * (thresh_den as u128);
        let rhs: u128 = (thresh_num as u128) * (self.count as u128);
        self.categorical = lhs < rhs;
    }

    /// Replace the column's content fingerprint.
    pub fn set_hash(&mut self, hash: String)
        ensures
            final(self).hash == hash,
            final(self).nunique == old(self).nunique,
            final(self).count == old(self).count,
            final(self).null_count == old(self).null_count,
            final(self).categorical == old(self).categorical,
            final(self).features == old(self).features,
            final(self).types == old(self).types,
    {
        self.hash = hash;
    }
}

/// The byte stream a numeric column feeds the hasher: the fixed-width
/// encoding of each non-null value, in natural column order.
pub open spec fn int_cells_bytes(values: Seq<i64>) -> Seq<u8>
    decreases values.len(),
{
    if values.len() == 0 {
        Seq::empty()
    } else {
        int_cells_bytes(values.drop_last()) + le_bytes_i64(values.last())
    }
}

/// The byte stream a string column feeds the hasher: the UTF-8 encoding
/// of each non-null value, in natural column order.
pub open spec fn text_cells_bytes(vs: Seq<Seq<char>>) -> Seq<u8>
    decreases vs.len(),
{
    if vs.len() == 0 {
        Seq::empty()
    } else {
        text_cells_bytes(vs.drop_last()) + encode_utf8(vs.last())
    }
}

/// Fold every numeric value's byte encoding into the fingerprint.
pub fn hash_int_values(values: &Vec<i64>) -> (r: u64)
    ensures
        r == spec_hash64(int_cells_bytes(values@)),
{
    let mut h: u64 = FNV_OFFSET_BASIS;
    let mut i: usize = 0;
    proof {
        assert(values@.take(0) =~= Seq::<i64>::empty());
        assert(int_cells_bytes(values@.take(0)) =~= Seq::<u8>::empty());
    }
    while i < values.len()
        invariant
            i <= values@.len(),
            h == fnv_fold(int_cells_bytes(values@.take(i as int)), FNV_OFFSET_BASIS),
        decreases values@.len() - i,
    {
        proof {
            assert(values@.take(i as int + 1).drop_last() =~= values@.take(i as int));
            assert(values@.take(i as int + 1).last() == values@[i as int]);
            lemma_fnv_fold_concat(
                int_cells_bytes(values@.take(i as int)),
                le_bytes_i64(values@[i as int]),
                FNV_OFFSET_BASIS,
            );
        }
        h = fnv_hash_i64(h, values[i]);
        i = i + 1;
    }
    proof {
        assert(values@.take(values@.len() as int) =~= values@);
    }
    h
}

/// Fold every string value's UTF-8 bytes into the fingerprint.
pub fn hash_text_values(values: &Vec<String>) -> (r: u64)
    ensures
        r == spec_hash64(text_cells_bytes(values.deep_view())),
{
    let ghost vs: Seq<Seq<char>> = values.deep_view();
    let mut h: u64 = FNV_OFFSET_BASIS;
    let mut i: usize = 0;
    proof {
        assert(vs.take(0) =~= Seq::<Seq<char>>::empty());
        assert(text_cells_bytes(vs.take(0)) =~= Seq::<u8>::empty());
    }
    while i < values.len()
        invariant
            i <= values@.len(),
            vs == values.deep_view(),
            vs.len() == values@.len(),
            h == fnv_fold(text_cells_bytes(vs.take(i as int)), FNV_OFFSET_BASIS),
        decreases values@.len() - i,
    {
        proof {
            assert(vs.take(i as int + 1).drop_last() =~= vs.take(i as int));
            assert(vs.take(i as int + 1).last() == vs[i as int]);
            assert(values@[i as int]@ == vs[i as int]);
            lemma_fnv_fold_concat(
                text_cells_bytes(vs.take(i as int)),
                encode_utf8(vs[i as int]),
                FNV_OFFSET_BASIS,
            );
        }
        h = fnv_hash_str(h, values[i].as_str());
        i = i + 1;
    }
    proof {
        assert(vs.take(vs.len() as int) =~= vs);
    }
    h
}

/// A filled histogram of the values: the fixed number of buckets over
/// the observed range, every value in exactly one bucket, counts adding
/// up to the number of values, and bucket `k` starting at
/// `min + k * (max - min) / 10`.
pub open spec fn hist_matches(values: Seq<i64>, h: Hist) -> bool {
    &&& h.bins@.len() == 10
    &&& h.counts@.len() == 10
    &&& forall|k: int|
        0 <= k < 10 ==> (#[trigger] h.counts@[k]) as int == count_in_bucket(
            values,
            seq_min(values),
            seq_max(values),
            10,
            k,
        )
    &&& sum_counts(h.counts@) == values.len()
    &&& forall|k: int|
        0 <= k < 10 ==> (#[trigger] h.bins@[k]).is_fraction(
            10 * seq_min(values) + k * (seq_max(values) - seq_min(values)),
            10,
        )
}

/// The error, if any, that profiling this column must raise: an
/// unsupported declared type aborts, a column with no non-null values is
/// empty, and statistics that do not fit the exact 128-bit computation
/// overflow. The first applicable condition wins.
pub open spec fn column_profile_error(col: crate::table::Column) -> Option<ProfileError> {
    match col.kind {
        ColumnKind::Boolean => Some(ProfileError::UnsupportedColumnType),
        ColumnKind::Integer | ColumnKind::Float => {
            let vals = non_null_ints(col.cells@);
            if vals.len() == 0 {
                Some(ProfileError::EmptyColumn)
            } else if !stats_fit(vals) {
                Some(ProfileError::StatsOverflow)
            } else {
                None
            }
        },
        ColumnKind::Str => {
            let vs = non_null_texts(col.cells@);
            if vs.len() == 0 {
                Some(ProfileError::EmptyColumn)
            } else if seq_len_sum(vs) > i128::MAX as int {
                Some(ProfileError::StatsOverflow)
            } else {
                None
            }
        },
    }
}

/// The profile of one column is exactly the column's derived statistics:
/// the row and null counts, the distinct count of the non-null values,
/// the categorical flag at the fixed one-fifth threshold, the decimal
/// fingerprint of the value bytes in column order, the numeric or
/// textual feature summary, and, for string columns, the semantic kind
/// counts, each value classified once with email before IBAN.
pub open spec fn column_profile_matches(col: crate::table::Column, nrows: int, p: Column) -> bool {
    &&& p.count as int == nrows
    &&& p.null_count as int == count_nulls(col.cells@)
    &&& p.categorical == (5 * (p.nunique as int) < nrows)
    &&& match col.kind {
        ColumnKind::Integer | ColumnKind::Float => {
            let vals = non_null_ints(col.cells@);
            &&& p.nunique as int == vals.to_set().len()
            &&& p.hash@ == spec_dec_str(spec_hash64(int_cells_bytes(vals)) as nat)
            &&& match p.features {
                ColumnFeatures::Numeric(f) => numeric_features_match(vals, f) && match f.hist {
                    Some(h) => hist_matches(vals, h),
                    None => false,
                },
                ColumnFeatures::Textual(_) => false,
            }
            &&& p.types.email == 0 && p.types.iban == 0 && p.types.unknown == 0
        },
        ColumnKind::Str => {
            let vs = non_null_texts(col.cells@);
            &&& p.nunique as int == vs.to_set().len()
            &&& p.hash@ == spec_dec_str(spec_hash64(text_cells_bytes(vs)) as nat)
            &&& match p.features {
                ColumnFeatures::Textual(f) => string_features_match(vs, f),
                ColumnFeatures::Numeric(_) => false,
            }
            &&& p.types.email as int == count_kind(vs, ColumnType::Email)
            &&& p.types.iban as int == count_kind(vs, ColumnType::Iban)
            &&& p.types.unknown as int == count_kind(vs, ColumnType::Unknown)
        },
        ColumnKind::Boolean => false,
    }
}

/// For every profiled numeric column, the histogram accounts for every
/// value: the bucket counts add up to the row count minus the null
/// count.
pub proof fn lemma_histogram_counts_row_count(col: crate::table::Column, nrows: int, p: Column)
    requires
        col.wf(),
        col.cells@.len() == nrows,
        col.kind == ColumnKind::Integer || col.kind == ColumnKind::Float,
        column_profile_matches(col, nrows, p),
    ensures
        match p.features {
            ColumnFeatures::Numeric(f) => match f.hist {
                Some(h) => sum_counts(h.counts@) == p.count - p.null_count,
                None => false,
            },
            ColumnFeatures::Textual(_) => false,
        },
{
    assert(forall|i: int| 0 <= i < col.cells@.len() ==> !((#[trigger] col.cells@[i]) is Text));
    lemma_numeric_partition(col.cells@);
}

/// Hashing is deterministic: two profiles of the same column, at the
/// same row count, carry the identical fingerprint: the hash is a
/// function of the column's values in their order, and of nothing else.
pub proof fn lemma_profile_hash_deterministic(
    col: crate::table::Column,
    nrows: int,
    p1: Column,
    p2: Column,
)
    requires
        column_profile_matches(col, nrows, p1),
        column_profile_matches(col, nrows, p2),
    ensures
        p1.hash@ == p2.hash@,
{
}

/// Profile one column of a table: route by declared type, compute the
/// feature summary, histogram, semantic counts, distinct count, null
/// count and fingerprint. Returns the profile exactly when
/// `column_profile_error` allows it, and that error otherwise.
pub fn profile_column(col: &crate::table::Column, nrows: usize) -> (r: Result<
    Column,
    ProfileError,
>)
    requires
        col.wf(),
        col.cells@.len() == nrows,
    ensures
        match r {
            Ok(p) => column_profile_error(*col) is None && column_profile_matches(
                *col,
                nrows as int,
                p,
            ),
            Err(e) => column_profile_error(*col) == Some(e),
        },
{
    match col.data_type() {
        ColumnKind::Boolean => Err(ProfileError::UnsupportedColumnType),
        ColumnKind::Integer | ColumnKind::Float => {
            let vals: Vec<i64> = match col.numeric_values() {
                Ok(v) => v,
                Err(e) => {
                    proof {
                        assert(false);
                    }
                    return Err(e);
                },
            };
            let mut f: NumericFeatures = match get_numeric_features(&vals) {
                Ok(f) => f,
                Err(e) => {
                    return Err(e);
                },
            };
            let h: Hist = build_histogram(&vals, crate::HISTOGRAM_BUCKETS);
            f.hist = Some(h);
            let nunique: usize = count_unique_ints(&vals);
            let hv: u64 = hash_int_values(&vals);
            let hs: String = u64_to_string(hv);
            let nulls: usize = col.null_count();
            proof {
                assert(forall|i: int|
                    0 <= i < col.cells@.len() ==> !((#[trigger] col.cells@[i]) is Text));
                lemma_numeric_partition(col.cells@);
            }
            Ok(
                Column::new(
                    hs,
                    nunique,
                    nrows,
                    nulls,
                    ColumnFeatures::Numeric(f),
                    SemanticCounts::new(),
                ),
            )
        },
        ColumnKind::Str => {
            let vs: Vec<String> = match col.text_values() {
                Ok(v) => v,
                Err(e) => {
                    proof {
                        assert(false);
                    }
                    return Err(e);
                },
            };
            let f: StringFeatures = match get_string_features(&vs) {
                Ok(f) => f,
                Err(e) => {
                    return Err(e);
                },
            };
            let counts: SemanticCounts = classify_column(&vs);
            let nunique: usize = count_unique_texts(&vs);
            let hv: u64 = hash_text_values(&vs);
            let hs: String = u64_to_string(hv);
            let nulls: usize = col.null_count();
            proof {
                assert(forall|i: int|
                    0 <= i < col.cells@.len() ==> !((#[trigger] col.cells@[i]) is Int));
                lemma_text_partition(col.cells@);
            }
            Ok(Column::new(hs, nunique, nrows, nulls, ColumnFeatures::Textual(f), counts))
        },
    }
}

/// The error, if any, that profiling the whole table must raise: the
/// first column error in table order. Any column error aborts the whole
/// run, so no partial profile exists.
pub open spec fn first_profile_error(cols: Seq<crate::table::Column>) -> Option<ProfileError>
    decreases cols.len(),
{
    if cols.len() == 0 {
        None
    } else {
        match column_profile_error(cols[0]) {
            Some(e) => Some(e),
            None => first_profile_error(cols.drop_first()),
        }
    }
}

/// Skipping error-free columns does not change the first error.
proof fn lemma_first_error_skip(cols: Seq<crate::table::Column>, i: int)
    requires
        0 <= i <= cols.len(),
        forall|j: int| 0 <= j < i ==> column_profile_error(#[trigger] cols[j]) is None,
    ensures
        first_profile_error(cols) == first_profile_error(cols.skip(i)),
    decreases i,
{
    if i > 0 {
        lemma_first_error_skip(cols, i - 1);
        let rest = cols.skip(i - 1);
        assert(rest[0] == cols[i - 1]);
        assert(rest.drop_first() =~= cols.skip(i));
    } else {
        assert(cols.skip(0) =~= cols);
    }
}

/// The per-dataset profile document: the dataset identifier, row and
/// column counts, and one profile per column keyed by column name.
#[derive(Debug, Clone, PartialEq)]
pub struct ProfileMeta {
    pub data_id: String,
    pub nrows: usize,
    pub ncols: usize,
    pub columns: Vec<(String, Column)>,
}

/// A profile document together with its data source name and aggregate
/// hash placeholder.
#[derive(Debug, Clone, PartialEq)]
pub struct DataFrameMeta {
    pub datasource: String,
    pub hash: String,
    pub profile: ProfileMeta,
}

impl DataFrameMeta {
    /// The names of the profiled columns, in profile order.
    pub fn get_column_names(&self) -> (r: Vec<String>)
        ensures
            r@.len() == self.profile.columns@.len(),
            forall|i: int|
                0 <= i < r@.len() ==> (#[trigger] r@[i])@ == self.profile.columns@[i].0@,
    {
        let mut names: Vec<String> = Vec::new();
        let mut i: usize = 0;
        while i < self.profile.columns.len()
            invariant
                i <= self.profile.columns@.len(),
                names@.len() == i,
                forall|j: int|
                    0 <= j < i ==> (#[trigger] names@[j])@ == self.profile.columns@[j].0@,
            decreases self.profile.columns@.len() - i,
        {
            names.push(self.profile.columns[i].0.clone());
            i = i + 1;
        }
        names
    }

    /// Set the data source name and derive the dataset identifier as the
    /// decimal fingerprint of the name's UTF-8 bytes.
    pub fn set_datasource(&mut self, name: String)
        ensures
            final(self).datasource == name,
            final(self).profile.data_id@ == spec_dec_str(spec_hash64(encode_utf8(name@)) as nat),
            final(self).hash == old(self).hash,
            final(self).profile.nrows == old(self).profile.nrows,
            final(self).profile.ncols == old(self).profile.ncols,
            final(self).profile.columns == old(self).profile.columns,
    {
        let hv: u64 = fnv_hash_str(crate::hash::FNV_OFFSET_BASIS, name.as_str());
        self.profile.data_id = u64_to_string(hv);
        self.datasource = name;
    }

    /// The dataset identifier derived from the data source name.
    pub fn data_id(&self) -> (r: String)
        ensures
            r@ == self.profile.data_id@,
    {
        self.profile.data_id.clone()
    }
}

/// Profile every column of a table, in table order. On success the
/// document covers every column: `ncols` equals the table's column
/// count, `nrows` the table's row count, and each per-column profile
/// matches its column exactly. The first column whose profiling fails
/// aborts the whole run with that column's error and no document at all.
pub fn profile_table(table: &Table) -> (r: Result<DataFrameMeta, ProfileError>)
    requires
        table.wf(),
    ensures
        match r {
            Ok(m) => {
                let nrows: int = if table.columns@.len() == 0 {
                    0
                } else {
                    table.columns@[0].cells@.len() as int
                };
                &&& first_profile_error(table.columns@) is None
                &&& m.profile.ncols as int == table.columns@.len()
                &&& m.profile.nrows as int == nrows
                &&& m.profile.columns@.len() == table.columns@.len()
                &&& forall|i: int|
                    0 <= i < table.columns@.len() ==> (#[trigger] m.profile.columns@[i]).0@
                        == table.columns@[i].name@ && column_profile_matches(
                        table.columns@[i],
                        nrows,
                        m.profile.columns@[i].1,
                    )
                &&& m.datasource@.len() == 0
                &&& m.hash@.len() == 0
                &&& m.profile.data_id@.len() == 0
            },
            Err(e) => first_profile_error(table.columns@) == Some(e),
        },
{
    let ncols: usize = table.num_columns();
    let nrows: usize = if ncols == 0 {
        0
    } else {
        table.num_rows()
    };
    let mut columns_meta: Vec<(String, Column)> = Vec::new();
    let mut i: usize = 0;
    while i < ncols
        invariant
            i <= ncols,
            ncols == table.columns@.len(),
            table.wf(),
            nrows as int == if table.columns@.len() == 0 {
                0int
            } else {
                table.columns@[0].cells@.len() as int
            },
            columns_meta@.len() == i,
            forall|j: int| 0 <= j < i ==> column_profile_error(#[trigger] table.columns@[j]) is None,
            forall|j: int|
                0 <= j < i ==> (#[trigger] columns_meta@[j]).0@ == table.columns@[j].name@
                    && column_profile_matches(table.columns@[j], nrows as int, columns_meta@[j].1),
        decreases ncols - i,
    {
        let col: &crate::table::Column = table.column(i);
        match profile_column(col, nrows) {
            Ok(p) => {
                columns_meta.push((col.name().clone(), p));
            },
            Err(e) => {
                proof {
                    lemma_first_error_skip(table.columns@, i as int);
                    assert(table.columns@.skip(i as int)[0] == table.columns@[i as int]);
                }
                return Err(e);
            },
        }
        i = i + 1;
    }
    proof {
        lemma_first_error_skip(table.columns@, ncols as int);
        assert(table.columns@.skip(ncols as int) =~= Seq::<crate::table::Column>::empty());
    }
    let profilemeta: ProfileMeta = ProfileMeta {
        data_id: String::new(),
        nrows,
        ncols,
        columns: columns_meta,
    };
    Ok(DataFrameMeta { datasource: String::new(), hash: String::new(), profile: profilemeta })
}

} // verus!
