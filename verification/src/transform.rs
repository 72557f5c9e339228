use vstd::prelude::*;

verus! {

use crate::profile::DataFrameMeta;
use crate::table::Table;

/// Pairs a table with a previously computed profile of it, to derive a
/// transformed table consistent with that profile.
#[derive(Debug, Clone)]
pub struct Transformer {
    pub profile: DataFrameMeta,
    pub dataframe: Table,
}

/// Every column of the table is named in the profile.
pub open spec fn columns_covered(dataframe: Table, profile: DataFrameMeta) -> bool {
    forall|i: int|
        0 <= i < dataframe.columns@.len() ==> exists|j: int|
            0 <= j < profile.profile.columns@.len() && (#[trigger] dataframe.columns@[i]).name@
                == profile.profile.columns@[j].0@
}

impl Transformer {
    /// Pair a table with its profile.
    pub fn new(dataframe: Table, profile: DataFrameMeta) -> (t: Transformer)
        ensures
            t.dataframe == dataframe,
            t.profile == profile,
    {
        Transformer { profile, dataframe }
    }

    /// Check that data and profile agree column by column, then hand the
    /// table through unchanged. Every column name of the table must
    /// occur in the profile; the transformation itself is the identity.
    pub fn transform(self) -> (r: Table)
        requires
            columns_covered(self.dataframe, self.profile),
        ensures
            r == self.dataframe,
    {
        let ncols: usize = self.dataframe.columns.len();
        let nprof: usize = self.profile.profile.columns.len();
        let mut i: usize = 0;
        while i < ncols
            invariant
                i <= ncols,
                ncols == self.dataframe.columns@.len(),
                nprof == self.profile.profile.columns@.len(),
                columns_covered(self.dataframe, self.profile),
            decreases ncols - i,
        {
            let mut found: bool = false;
            let mut j: usize = 0;
            while j < nprof
                invariant
                    j <= nprof,
                    i < ncols,
                    ncols == self.dataframe.columns@.len(),
                    nprof == self.profile.profile.columns@.len(),
                    found == exists|k: int|
                        0 <= k < j && self.dataframe.columns@[i as int].name@ == (
                        #[trigger] self.profile.profile.columns@[k]).0@,
                decreases nprof - j,
            {
                if self.profile.profile.columns[j].0 == self.dataframe.columns[i].name {
                    found = true;
                }
                j = j + 1;
            }
            proof {
                assert(found);
            }
            i = i + 1;
        }
        self.dataframe
    }
}

} // verus!
