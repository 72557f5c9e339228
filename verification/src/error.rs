use vstd::prelude::*;

verus! {

/// Errors raised while profiling a table. These abort the whole profiling
/// run: no partial profile is produced once one of them occurs.
#[derive(Debug, Clone, Copy, PartialEq, Eq, Structural)]
pub enum ProfileError {
    /// A numeric accessor was called on a textual column, or vice versa.
    TypeMismatch,
    /// Statistics were requested for a column with no non-null values.
    EmptyColumn,
    /// A column's declared type is outside the supported set
    /// (integer, float, string).
    UnsupportedColumnType,
    /// An exact statistic (the variance numerator) does not fit in the
    /// 128-bit integers the aggregator computes with.
    StatsOverflow,
}

/// Errors raised per rule while compiling or executing alerting rules.
/// They are isolated to the offending rule: processing continues with the
/// next rule.
#[derive(Debug, Clone, Copy, PartialEq, Eq, Structural)]
pub enum RuleError {
    /// The assembled predicate does not parse as a query.
    RuleSyntaxError,
    /// The query engine failed while executing the predicate.
    QueryExecutionError,
}

/// Errors of the dataframe loading layer.
#[derive(Debug, Clone, PartialEq)]
pub enum DataFrameError {
    MemoryError(String),
    ParseError(String),
    ComputeError(String),
    DivideByZero,
    IoError(String),
    NoneError,
    ArrowError(String),
    SqlError(String),
}

} // verus!
