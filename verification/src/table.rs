use vstd::prelude::*;

use crate::utils::EkError;

verus! {

/// One named column of nullable cell values.
#[derive(Debug)]
pub struct Column {
    pub name: String,
    pub values: Vec<Option<String>>,
}

/// An ordered list of named columns, all of equal length.
#[derive(Debug)]
pub struct Table {
    pub columns: Vec<Column>,
}

/// The abstract value of one cell.
pub open spec fn val_view(v: Option<String>) -> Option<Seq<char>> {
    match v {
        Option::None => Option::None,
        Option::Some(s) => Option::Some(s@),
    }
}

/// The abstract value of a list of cells.
pub open spec fn vals_view(s: Seq<Option<String>>) -> Seq<Option<Seq<char>>> {
    s.map_values(|v: Option<String>| val_view(v))
}

/// A run of `n` null cells.
pub open spec fn null_vals(n: nat) -> Seq<Option<Seq<char>>> {
    Seq::new(n, |i: int| Option::None)
}

impl Column {
    /// The abstract contents of this column.
    pub open spec fn vals(&self) -> Seq<Option<Seq<char>>> {
        vals_view(self.values@)
    }
}

impl Table {
    /// Number of columns.
    pub open spec fn ncols(&self) -> int {
        self.columns@.len() as int
    }

    /// Column names, in order.
    pub open spec fn names(&self) -> Seq<Seq<char>> {
        self.columns@.map_values(|c: Column| c.name@)
    }

    /// Number of rows; zero for a table with no columns.
    pub open spec fn nrows(&self) -> nat {
        if self.columns@.len() == 0 {
            0
        } else {
            self.columns@[0].values@.len()
        }
    }

    /// The cells of column `j`, top to bottom.
    pub open spec fn col(&self, j: int) -> Seq<Option<Seq<char>>> {
        self.columns@[j].vals()
    }

    /// Every column has the same length and no two columns share a name.
    pub open spec fn wf(&self) -> bool {
        &&& forall|j: int|
            0 <= j < self.ncols() ==> (#[trigger] self.columns@[j].values@.len()) == self.nrows()
        &&& forall|j: int, k: int|
            0 <= j < k < self.ncols() ==> self.names()[j] != self.names()[k]
    }

    /// Whether some column carries this name.
    pub open spec fn has_col(&self, name: Seq<char>) -> bool {
        names_has(self.names(), name)
    }

    /// The position of the column with this name (meaningful when `has_col`).
    pub open spec fn col_index(&self, name: Seq<char>) -> int {
        names_index(self.names(), name)
    }

    /// The cells under `name`, or `n` nulls when the table lacks that column.
    pub open spec fn padded_col(&self, name: Seq<char>, n: nat) -> Seq<Option<Seq<char>>> {
        if self.has_col(name) {
            self.col(self.col_index(name))
        } else {
            null_vals(n)
        }
    }

    /// This table's columns as plain sequences, in order.
    pub open spec fn cols(&self) -> Seq<Seq<Option<Seq<char>>>> {
        Seq::new(self.columns@.len(), |j: int| self.col(j))
    }
}

/// Whether `names` holds `n`.
pub open spec fn names_has(names: Seq<Seq<char>>, n: Seq<char>) -> bool {
    exists|k: int| 0 <= k < names.len() && names[k] == n
}

/// The position of `n` in `names` (meaningful when `names_has`).
pub open spec fn names_index(names: Seq<Seq<char>>, n: Seq<char>) -> int {
    choose|k: int| 0 <= k < names.len() && names[k] == n
}

/// The abstract value of a whole table: its column names and, in the
/// same order, its columns' cells.
pub type TableAbs = (Seq<Seq<char>>, Seq<Seq<Option<Seq<char>>>>);

impl Table {
    /// The abstract value of this table.
    pub open spec fn tv(&self) -> TableAbs {
        (self.names(), self.cols())
    }
}

/// The row count an abstract column list implies.
pub open spec fn tv_rows(cols: Seq<Seq<Option<Seq<char>>>>) -> nat {
    if cols.len() == 0 {
        0
    } else {
        cols[0].len()
    }
}

/// The columns of a diagonal stack: the base's columns, each extended
/// by the other table's same-named column or, where it has none, by
/// nulls.
pub open spec fn diag_cols(
    an: Seq<Seq<char>>,
    ac: Seq<Seq<Option<Seq<char>>>>,
    bn: Seq<Seq<char>>,
    bc: Seq<Seq<Option<Seq<char>>>>,
    brows: nat,
) -> Seq<Seq<Option<Seq<char>>>> {
    Seq::new(
        an.len(),
        |j: int|
            ac[j] + if names_has(bn, an[j]) {
                bc[names_index(bn, an[j])]
            } else {
                null_vals(brows)
            },
    )
}

/// Merging two tables: the wider is the base of a diagonal stack; at
/// equal width the first is the base, but only when it finds all of
/// its columns in the second — otherwise the merge fails.
pub open spec fn merge2v(a: TableAbs, b: TableAbs) -> Option<TableAbs> {
    if b.0.len() < a.0.len() {
        Some((a.0, diag_cols(a.0, a.1, b.0, b.1, tv_rows(b.1))))
    } else if b.0.len() > a.0.len() {
        Some((b.0, diag_cols(b.0, b.1, a.0, a.1, tv_rows(a.1))))
    } else if forall|j: int| 0 <= j < a.0.len() ==> names_has(b.0, #[trigger] a.0[j]) {
        Some((a.0, diag_cols(a.0, a.1, b.0, b.1, tv_rows(b.1))))
    } else {
        None
    }
}

/// The left fold of `merge2v` over a list of tables, starting from the
/// first; nothing for an empty list, and nothing once a step fails.
pub open spec fn fold_mergev(ts: Seq<TableAbs>) -> Option<TableAbs>
    decreases ts.len(),
{
    if ts.len() == 0 {
        None
    } else if ts.len() == 1 {
        Some(ts[0])
    } else {
        match fold_mergev(ts.drop_last()) {
            None => None,
            Some(acc) => merge2v(acc, ts.last()),
        }
    }
}

/// Once a prefix of the fold fails, the whole fold fails.
pub proof fn lemma_fold_mergev_none(ts: Seq<TableAbs>, k: int)
    requires
        1 <= k <= ts.len(),
        fold_mergev(ts.subrange(0, k)) is None,
    ensures
        fold_mergev(ts) is None,
    decreases ts.len() - k,
{
    if k == ts.len() {
        assert(ts.subrange(0, k) =~= ts);
    } else {
        assert(ts.subrange(0, k + 1).drop_last() =~= ts.subrange(0, k));
        assert(fold_mergev(ts.subrange(0, k + 1)) is None);
        lemma_fold_mergev_none(ts, k + 1);
    }
}

/// Merging a single table yields that table unchanged.
pub proof fn lemma_merge_singleton(t: Table)
    ensures
        fold_mergev(seq![t.tv()]) == Some(t.tv()),
{
}

/// Merging two tables of identical schema concatenates their rows:
/// the result keeps the schema and its row count is the sum of the
/// two row counts.
pub proof fn lemma_merge_same_schema(a: Table, b: Table)
    requires
        a.wf(),
        b.wf(),
        a.names() == b.names(),
        a.ncols() > 0,
    ensures
        merge2v(a.tv(), b.tv()) matches Some(tv) && tv.0 == a.names() && tv_rows(tv.1) == a.nrows()
            + b.nrows(),
{
    assert forall|j: int| 0 <= j < a.tv().0.len() implies names_has(
        b.tv().0,
        #[trigger] a.tv().0[j],
    ) by {
        assert(b.names()[j] == a.names()[j]);
    }
    let tv = merge2v(a.tv(), b.tv())->Some_0;
    assert(tv.1.len() == a.ncols());
    let nm = a.names()[0];
    assert(names_has(b.names(), nm)) by {
        assert(b.names()[0] == nm);
    }
    let bi = names_index(b.names(), nm);
    assert(0 <= bi < b.ncols() && b.names()[bi] == nm);
    assert(tv.1[0] == a.cols()[0] + b.cols()[bi]);
    assert(a.cols()[0].len() == a.nrows());
    assert(b.cols()[bi].len() == b.nrows());
}

/// Merges `n_df` into `df`: the wider table is the base of a diagonal
/// stack; at equal width `df` stays the base and every one of its
/// columns must exist in `n_df`, else the merge fails.
pub fn merge_pair(df: &Table, n_df: Table) -> (r: Result<Table, EkError>)
    requires
        df.wf(),
        n_df.wf(),
    ensures
        match r {
            Ok(t) => merge2v(df.tv(), n_df.tv()) == Some(t.tv()) && t.wf(),
            Err(e) => merge2v(df.tv(), n_df.tv()) is None && (e matches EkError::Error(m) && m@
                == "Could not Select columns (vstack_diag)"@),
        },
{
    if n_df.columns.len() < df.columns.len() {
        let ghost bv = n_df;
        let t = match vstack_diag(df, n_df) {
            Ok(t) => t,
            Err(e) => {
                return Err(e);
            },
        };
        proof {
            lemma_vstack_is_diag(*df, bv, t);
            assert(df.names().len() == df.columns@.len());
            assert(bv.names().len() == bv.columns@.len());
            assert(merge2v(df.tv(), bv.tv()) == Some(t.tv()));
        }
        Ok(t)
    } else if n_df.columns.len() > df.columns.len() {
        let dfc = clone_table(df);
        let ghost dcv = dfc;
        let ghost nv = n_df;
        let t = match vstack_diag(&n_df, dfc) {
            Ok(t) => t,
            Err(e) => {
                return Err(e);
            },
        };
        proof {
            lemma_vstack_is_diag(nv, dcv, t);
            assert(dcv.names() == df.names() && dcv.cols() == df.cols());
            assert(t.cols() =~= diag_cols(
                nv.names(),
                nv.cols(),
                df.names(),
                df.cols(),
                tv_rows(df.cols()),
            ));
            assert(df.names().len() == df.columns@.len());
            assert(nv.names().len() == nv.columns@.len());
            assert(merge2v(df.tv(), nv.tv()) == Some(t.tv()));
        }
        Ok(t)
    } else {
        let ncols = df.columns.len();
        let mut j: usize = 0;
        while j < ncols
            invariant
                df.wf(),
                n_df.wf(),
                ncols == df.ncols(),
                n_df.ncols() == df.ncols(),
                j <= ncols,
                forall|k: int| 0 <= k < j ==> names_has(n_df.names(), #[trigger] df.names()[k]),
            decreases ncols - j,
        {
            match find_column(&n_df, df.columns[j].name.as_str()) {
                Some(_) => {
                    proof {
                        assert(names_has(n_df.names(), df.names()[j as int]));
                    }
                },
                None => {
                    proof {
                        let a = df.tv();
                        let b = n_df.tv();
                        assert(a.0 == df.names() && b.0 == n_df.names());
                        assert(!names_has(b.0, a.0[j as int]));
                        assert(df.names().len() == df.columns@.len());
                        assert(n_df.names().len() == n_df.columns@.len());
                        assert(a.0.len() == b.0.len());
                        assert(!(forall|k: int|
                            0 <= k < a.0.len() ==> names_has(b.0, #[trigger] a.0[k]))) by {
                            assert(0 <= j < a.0.len() && !names_has(b.0, a.0[j as int]));
                        }
                        assert(merge2v(a, b) is None);
                    }
                    return Err(
                        EkError::Error(String::from_str("Could not Select columns (vstack_diag)")),
                    );
                },
            }
            j = j + 1;
        }
        let ghost bv = n_df;
        let t = match vstack_diag(df, n_df) {
            Ok(t) => t,
            Err(e) => {
                return Err(e);
            },
        };
        proof {
            lemma_vstack_is_diag(*df, bv, t);
            assert(df.names().len() == df.columns@.len());
            assert(bv.names().len() == bv.columns@.len());
            assert(merge2v(df.tv(), bv.tv()) == Some(t.tv()));
        }
        Ok(t)
    }
}

/// A fresh table with the same abstract value.
fn clone_table(t: &Table) -> (r: Table)
    ensures
        r.tv() == t.tv(),
        r.wf() == t.wf(),
{
    let n = t.columns.len();
    let mut cols: Vec<Column> = Vec::new();
    let mut i: usize = 0;
    while i < n
        invariant
            n == t.ncols(),
            i <= n,
            cols@.len() == i,
            forall|k: int| 0 <= k < i ==> (#[trigger] cols@[k].name@) == t.names()[k],
            forall|k: int| 0 <= k < i ==> (#[trigger] cols@[k].vals()) == t.col(k),
            forall|k: int|
                0 <= k < i ==> (#[trigger] cols@[k].values@.len()) == t.columns@[k].values@.len(),
        decreases n - i,
    {
        let values = clone_vals(&t.columns[i].values);
        proof {
            assert(vals_view(values@).len() == values@.len());
        }
        cols.push(Column { name: t.columns[i].name.clone(), values });
        i = i + 1;
    }
    let r = Table { columns: cols };
    proof {
        assert(r.names() =~= t.names());
        assert(r.cols() =~= t.cols());
        assert(r.nrows() == t.nrows());
        assert(r.wf() == t.wf()) by {
            if t.wf() {
                assert forall|j: int| 0 <= j < r.ncols() implies (
                #[trigger] r.columns@[j].values@.len()) == r.nrows() by {
                    assert(t.columns@[j].values@.len() == t.nrows());
                }
                assert(r.wf());
            } else {
                if exists|j: int|
                    0 <= j < t.ncols() && (#[trigger] t.columns@[j].values@.len()) != t.nrows() {
                    let j = choose|j: int|
                        0 <= j < t.ncols() && (#[trigger] t.columns@[j].values@.len())
                            != t.nrows();
                    assert(r.columns@[j].values@.len() != r.nrows());
                    assert(!r.wf());
                } else {
                    let (j, k) = choose|j: int, k: int|
                        0 <= j < k < t.ncols() && t.names()[j] == t.names()[k];
                    assert(r.names()[j] == r.names()[k]);
                    assert(!r.wf());
                }
            }
        }
    }
    r
}

/// What `vstack_diag` returns, read abstractly, is exactly the
/// diagonal stack of the two tables' abstract values.
proof fn lemma_vstack_is_diag(a: Table, b: Table, t: Table)
    requires
        a.wf(),
        b.wf(),
        t.names() == a.names(),
        forall|j: int|
            0 <= j < a.ncols() ==> #[trigger] t.col(j) == a.col(j) + b.padded_col(
                a.names()[j],
                b.nrows(),
            ),
    ensures
        t.cols() =~= diag_cols(a.names(), a.cols(), b.names(), b.cols(), tv_rows(b.cols())),
{
    assert(tv_rows(b.cols()) == b.nrows()) by {
        if b.ncols() > 0 {
            assert(b.cols()[0] == b.col(0));
            assert(b.columns@[0].values@.len() == b.nrows());
            assert(b.col(0).len() == b.nrows());
        }
    }
    assert(t.names().len() == t.columns@.len());
    assert(a.names().len() == a.columns@.len());
    assert(t.cols().len() == a.ncols());
    assert forall|j: int| 0 <= j < t.cols().len() implies t.cols()[j] == diag_cols(
        a.names(),
        a.cols(),
        b.names(),
        b.cols(),
        tv_rows(b.cols()),
    )[j] by {
        assert(0 <= j < a.ncols());
        assert(t.cols()[j] == t.col(j));
        assert(a.cols()[j] == a.col(j));
        if names_has(b.names(), a.names()[j]) {
            let bi = names_index(b.names(), a.names()[j]);
            assert(0 <= bi < b.ncols() && b.names()[bi] == a.names()[j]);
            assert(b.cols()[bi] == b.col(bi));
        }
    }
}

/// Position of the column named `name`, if any.
pub fn find_column(t: &Table, name: &str) -> (r: Option<usize>)
    ensures
        match r {
            Option::Some(j) => j < t.ncols() && t.names()[j as int] == name@,
            Option::None => !t.has_col(name@),
        },
{
    let n = t.columns.len();
    let mut j: usize = 0;
    while j < n
        invariant
            n == t.ncols(),
            j <= n,
            forall|k: int| 0 <= k < j ==> t.names()[k] != name@,
        decreases n - j,
    {
        if crate::strutil::str_eq(t.columns[j].name.as_str(), name) {
            return Some(j);
        }
        j = j + 1;
    }
    None
}

/// A column of `len` nulls, as is spliced in for fields a narrower
/// sub-request result does not carry.
pub fn null_column(header: &str, len: usize) -> (c: Column)
    ensures
        c.name@ == header@,
        c.vals() =~= null_vals(len as nat),
        c.values@.len() == len,
{
    let mut values: Vec<Option<String>> = Vec::new();
    let mut i: usize = 0;
    while i < len
        invariant
            i <= len,
            values@.len() == i,
            forall|k: int| 0 <= k < i ==> values@[k] is None,
        decreases len - i,
    {
        values.push(None);
        i = i + 1;
    }
    Column { name: String::from_str(header), values }
}

fn clone_val(v: &Option<String>) -> (r: Option<String>)
    ensures
        val_view(r) == val_view(*v),
{
    match v {
        None => None,
        Some(s) => Some(s.clone()),
    }
}

/// Appends copies of `src`'s cells onto `dst`.
fn extend_vals(dst: &mut Vec<Option<String>>, src: &Vec<Option<String>>)
    ensures
        vals_view(final(dst)@) == vals_view(old(dst)@) + vals_view(src@),
{
    let n = src.len();
    let mut i: usize = 0;
    while i < n
        invariant
            n == src@.len(),
            i <= n,
            vals_view(dst@) =~= vals_view(old(dst)@) + vals_view(src@.subrange(0, i as int)),
        decreases n - i,
    {
        let ghost pre = dst@;
        let v = clone_val(&src[i]);
        dst.push(v);
        proof {
            assert(vals_view(dst@) =~= vals_view(pre).push(val_view(v)));
            assert(src@.subrange(0, i + 1) =~= src@.subrange(0, i as int).push(src@[i as int]));
            assert(vals_view(src@.subrange(0, i + 1)) =~= vals_view(
                src@.subrange(0, i as int),
            ).push(val_view(src@[i as int])));
            assert(vals_view(old(dst)@) + vals_view(src@.subrange(0, i + 1)) =~= (vals_view(
                old(dst)@,
            ) + vals_view(src@.subrange(0, i as int))).push(val_view(src@[i as int])));
            assert(vals_view(dst@) =~= vals_view(old(dst)@) + vals_view(src@.subrange(0, i + 1)));
        }
        i = i + 1;
    }
    proof {
        assert(src@.subrange(0, n as int) == src@);
    }
}

fn clone_vals(src: &Vec<Option<String>>) -> (r: Vec<Option<String>>)
    ensures
        vals_view(r@) == vals_view(src@),
{
    let mut r: Vec<Option<String>> = Vec::new();
    extend_vals(&mut r, src);
    proof {
        assert(vals_view(r@) =~= vals_view(src@));
    }
    r
}

/// Concatenates two tables that may disagree on their column sets
/// ("diagonal stacking"). `df1` is the base: the result keeps `df1`'s
/// columns and order, `df2`'s rows follow `df1`'s, and wherever `df2`
/// lacks one of `df1`'s columns its rows are padded with nulls.
/// Columns of `df2` absent from `df1` are discarded.
pub fn vstack_diag(df1: &Table, df2: Table) -> (r: Result<Table, EkError>)
    requires
        df1.wf(),
        df2.wf(),
    ensures
        r is Ok,
        r matches Ok(t) ==> {
            &&& t.wf()
            &&& t.names() == df1.names()
            &&& df1.ncols() > 0 ==> t.nrows() == df1.nrows() + df2.nrows()
            &&& df1.ncols() == 0 ==> t.nrows() == 0
            &&& forall|j: int|
                0 <= j < df1.ncols() ==> #[trigger] t.col(j) == df1.col(j) + df2.padded_col(
                    df1.names()[j],
                    df2.nrows(),
                )
        },
{
    let ncols = df1.columns.len();
    let short_rows = if df2.columns.len() == 0 {
        0
    } else {
        df2.columns[0].values.len()
    };
    let mut out: Vec<Column> = Vec::new();
    let mut j: usize = 0;
    while j < ncols
        invariant
            df1.wf(),
            df2.wf(),
            ncols == df1.ncols(),
            short_rows == df2.nrows(),
            j <= ncols,
            out@.len() == j,
            forall|k: int| 0 <= k < j ==> (#[trigger] out@[k].name@) == df1.names()[k],
            forall|k: int|
                0 <= k < j ==> (#[trigger] out@[k].vals()) == df1.col(k) + df2.padded_col(
                    df1.names()[k],
                    df2.nrows(),
                ),
            forall|k: int|
                0 <= k < j ==> (#[trigger] out@[k].values@.len()) == df1.nrows() + df2.nrows(),
        decreases ncols - j,
    {
        let name = &df1.columns[j].name;
        let mut values = clone_vals(&df1.columns[j].values);
        match find_column(&df2, name.as_str()) {
            Some(k) => {
                extend_vals(&mut values, &df2.columns[k].values);
                proof {
                    assert(df2.has_col(name@));
                    let ci = df2.col_index(name@);
                    assert(df2.names()[ci] == name@ && df2.names()[k as int] == name@);
                    if ci < k as int {
                        assert(df2.names()[ci] != df2.names()[k as int]);
                    } else if (k as int) < ci {
                        assert(df2.names()[k as int] != df2.names()[ci]);
                    }
                    assert(ci == k as int);
                }
            },
            None => {
                let pad = null_column(name.as_str(), short_rows);
                extend_vals(&mut values, &pad.values);
                proof {
                    assert(vals_view(pad.values@) =~= null_vals(df2.nrows()));
                }
            },
        }
        proof {
            assert(df1.columns@[j as int].values@.len() == df1.nrows());
            assert(vals_view(values@).len() == values@.len());
            assert(values@.len() == df1.nrows() + df2.nrows());
        }
        out.push(Column { name: name.clone(), values });
        j = j + 1;
    }
    let t = Table { columns: out };
    proof {
        assert(t.names() =~= df1.names());
        assert forall|a: int, b: int| 0 <= a < b < t.ncols() implies t.names()[a] != t.names()[b] by {
            assert(df1.names()[a] != df1.names()[b]);
        }
        if df1.ncols() == 0 {
            assert(t.nrows() == 0 && df1.nrows() == 0);
        } else {
            assert(t.nrows() == t.columns@[0].values@.len());
        }
    }
    Ok(t)
}

} // verus!
