use xtract::error::ProfileError;
use xtract::profile::{profile_column, profile_table, Column as ColumnProfile, ColumnFeatures};
use xtract::semantic::SemanticCounts;
use xtract::table::{Cell, Column, ColumnKind, GenericVector, Table};

fn int_column(name: &str, cells: Vec<Option<i64>>) -> Column {
    let cells = cells
        .into_iter()
        .map(|c| match c {
            Some(v) => Cell::Int(v),
            None => Cell::Null,
        })
        .collect();
    Column::new(name.to_string(), ColumnKind::Integer, cells).unwrap()
}

fn text_column(name: &str, cells: Vec<Option<&str>>) -> Column {
    let cells = cells
        .into_iter()
        .map(|c| match c {
            Some(v) => Cell::Text(v.to_string()),
            None => Cell::Null,
        })
        .collect();
    Column::new(name.to_string(), ColumnKind::Str, cells).unwrap()
}

#[test]
fn profile_table_full() {
    let nums = int_column("amount", vec![Some(1), Some(2), Some(2), None]);
    let words = text_column(
        "who",
        vec![Some("alice@example.com"), Some("GB82WEST12345698765432"), Some("hello"), None],
    );
    let table = Table::new(vec![nums, words]).unwrap();
    let meta = profile_table(&table).unwrap();
    assert_eq!(meta.profile.ncols, 2);
    assert_eq!(meta.profile.nrows, 4);
    assert_eq!(meta.profile.columns.len(), 2);

    let (name0, p0): &(String, ColumnProfile) = &meta.profile.columns[0];
    assert_eq!(name0, "amount");
    assert_eq!(p0.count, 4);
    assert_eq!(p0.null_count, 1);
    assert_eq!(p0.nunique, 2);
    // 5 * 2 < 4 is false
    assert!(!p0.categorical);
    match &p0.features {
        ColumnFeatures::Numeric(f) => {
            assert_eq!(f.min, 1);
            assert_eq!(f.max, 2);
            assert_eq!(f.mean.num, 5);
            assert_eq!(f.mean.den, 3);
            let h = f.hist.as_ref().unwrap();
            let total: usize = h.counts.iter().sum();
            assert_eq!(total, 3);
        },
        ColumnFeatures::Textual(_) => panic!("numeric column got textual features"),
    }
    assert_eq!(p0.types, SemanticCounts { email: 0, iban: 0, unknown: 0 });

    let (name1, p1): &(String, ColumnProfile) = &meta.profile.columns[1];
    assert_eq!(name1, "who");
    assert_eq!(p1.count, 4);
    assert_eq!(p1.null_count, 1);
    assert_eq!(p1.nunique, 3);
    assert_eq!(p1.types, SemanticCounts { email: 1, iban: 1, unknown: 1 });
    match &p1.features {
        ColumnFeatures::Textual(f) => {
            assert_eq!(f.min_len, 5);
            assert_eq!(f.max_len, 22);
        },
        ColumnFeatures::Numeric(_) => panic!("string column got numeric features"),
    }
}

#[test]
fn histogram_counts_add_up_to_non_null_rows() {
    let nums = int_column("n", vec![Some(1), None, Some(5), Some(9), None, Some(3)]);
    let p = profile_column(&nums, 6).unwrap();
    match &p.features {
        ColumnFeatures::Numeric(f) => {
            let h = f.hist.as_ref().unwrap();
            let total: usize = h.counts.iter().sum();
            assert_eq!(total, p.count - p.null_count);
        },
        ColumnFeatures::Textual(_) => panic!("numeric column got textual features"),
    }
}

#[test]
fn all_null_column_aborts_with_empty_column() {
    let nulls = int_column("empty", vec![None, None, None]);
    let good = int_column("good", vec![Some(1), Some(2), Some(3)]);
    let table = Table::new(vec![nulls, good]).unwrap();
    let err = profile_table(&table).unwrap_err();
    assert_eq!(err, ProfileError::EmptyColumn);
}

#[test]
fn boolean_column_aborts_with_unsupported_type() {
    let flags = Column::new(
        "flag".to_string(),
        ColumnKind::Boolean,
        vec![Cell::Int(0), Cell::Int(1)],
    )
    .unwrap();
    let good = int_column("good", vec![Some(1), Some(2)]);
    let table = Table::new(vec![flags, good]).unwrap();
    let err = profile_table(&table).unwrap_err();
    assert_eq!(err, ProfileError::UnsupportedColumnType);
}

#[test]
fn profiling_twice_yields_identical_hashes() {
    let nums = int_column("a", vec![Some(10), Some(20), Some(30)]);
    let words = text_column("b", vec![Some("x"), Some("yy"), Some("zzz")]);
    let table = Table::new(vec![nums, words]).unwrap();
    let m1 = profile_table(&table).unwrap();
    let m2 = profile_table(&table).unwrap();
    for i in 0..2 {
        assert_eq!(m1.profile.columns[i].1.hash, m2.profile.columns[i].1.hash);
    }
}

#[test]
fn reordering_values_changes_the_hash() {
    let fwd = int_column("a", vec![Some(10), Some(20), Some(30)]);
    let rev = int_column("a", vec![Some(30), Some(20), Some(10)]);
    let p_fwd = profile_column(&fwd, 3).unwrap();
    let p_rev = profile_column(&rev, 3).unwrap();
    assert_ne!(p_fwd.hash, p_rev.hash);
}

#[test]
fn categorical_threshold_is_one_fifth() {
    // one distinct value over ten rows: 5*1 < 10, categorical
    let low = int_column("low", vec![Some(1); 10].into_iter().collect());
    let p = profile_column(&low, 10).unwrap();
    assert!(p.categorical);
    // ten distinct values over ten rows: 5*10 < 10 fails
    let high = int_column("high", (0..10).map(|v| Some(v)).collect());
    let p2 = profile_column(&high, 10).unwrap();
    assert!(!p2.categorical);
}

#[test]
fn set_categorical_with_custom_threshold() {
    let col = int_column("c", (0..4).map(|v| Some(v % 2)).collect());
    let mut p = profile_column(&col, 4).unwrap();
    assert_eq!(p.nunique, 2);
    // threshold 1/2: 2*2 < 1*4 is false
    p.set_categorical(1, 2);
    assert!(!p.categorical);
    // threshold 3/4: 2*4 < 3*4 holds
    p.set_categorical(3, 4);
    assert!(p.categorical);
}

#[test]
fn set_hash_replaces_only_the_hash() {
    let col = int_column("c", vec![Some(1)]);
    let mut p = profile_column(&col, 1).unwrap();
    let nunique = p.nunique;
    p.set_hash("overridden".to_string());
    assert_eq!(p.hash, "overridden");
    assert_eq!(p.nunique, nunique);
}

#[test]
fn accessors_reject_wrong_kind() {
    let nums = int_column("n", vec![Some(1)]);
    assert_eq!(nums.text_values().unwrap_err(), ProfileError::TypeMismatch);
    let words = text_column("w", vec![Some("x")]);
    assert_eq!(words.numeric_values().unwrap_err(), ProfileError::TypeMismatch);
}

#[test]
fn column_new_rejects_mismatched_cells() {
    let bad = Column::new("c".to_string(), ColumnKind::Str, vec![Cell::Int(1)]);
    assert!(bad.is_none());
    let bad2 = Column::new("c".to_string(), ColumnKind::Integer, vec![Cell::Text("x".to_string())]);
    assert!(bad2.is_none());
}

#[test]
fn table_new_rejects_ragged_and_duplicate_columns() {
    let a = int_column("a", vec![Some(1), Some(2)]);
    let b = int_column("b", vec![Some(1)]);
    assert!(Table::new(vec![a, b]).is_none());
    let c = int_column("x", vec![Some(1)]);
    let d = int_column("x", vec![Some(2)]);
    assert!(Table::new(vec![c, d]).is_none());
}

#[test]
fn set_datasource_derives_a_stable_data_id() {
    let col = int_column("a", vec![Some(1), Some(2)]);
    let table = Table::new(vec![col]).unwrap();
    let mut m1 = profile_table(&table).unwrap();
    let mut m2 = profile_table(&table).unwrap();
    assert_eq!(m1.data_id(), "");
    m1.set_datasource("data.csv".to_string());
    m2.set_datasource("data.csv".to_string());
    assert_eq!(m1.datasource, "data.csv");
    assert_eq!(m1.data_id(), m2.data_id());
    assert_ne!(m1.data_id(), "");
    m2.set_datasource("other.csv".to_string());
    assert_ne!(m1.data_id(), m2.data_id());
}

#[test]
fn column_names_carry_over() {
    let a = int_column("first", vec![Some(1)]);
    let b = int_column("second", vec![Some(2)]);
    let table = Table::new(vec![a, b]).unwrap();
    let meta = profile_table(&table).unwrap();
    let names = meta.get_column_names();
    assert_eq!(names, vec!["first".to_string(), "second".to_string()]);
}

#[test]
fn uniques_and_nunique_per_kind() {
    let nums = int_column("n", vec![Some(3), Some(1), Some(3), None, Some(2)]);
    assert_eq!(nums.nunique(), 3);
    match nums.uniques() {
        GenericVector::I(v) => {
            assert_eq!(v, vec![3, 1, 2]);
        },
        GenericVector::S(_) => panic!("numeric column gave string uniques"),
    }
    let words = text_column("w", vec![Some("a"), Some("b"), Some("a"), None]);
    assert_eq!(words.nunique(), 2);
    match words.uniques() {
        GenericVector::S(v) => {
            assert_eq!(v, vec!["a".to_string(), "b".to_string()]);
        },
        GenericVector::I(_) => panic!("string column gave numeric uniques"),
    }
}

#[test]
fn column_is_categorical_by_fraction() {
    let col = int_column("c", vec![Some(1), Some(1), Some(1), Some(1), Some(1), Some(2)]);
    // 2 distinct over 6 rows: 2*5 < 1*6 fails at threshold 1/5
    assert!(!col.is_categorical(1, 5));
    // at threshold 1/2: 2*2 < 1*6 holds
    assert!(col.is_categorical(1, 2));
}

#[test]
fn columns_found_by_name() {
    let a = int_column("first", vec![Some(1)]);
    let b = int_column("second", vec![Some(2)]);
    let table = Table::new(vec![a, b]).unwrap();
    assert_eq!(table.column_index(&"second".to_string()), 1);
    assert_eq!(table.column_by_name(&"first".to_string()).name().as_str(), "first");
}
