use vstd::prelude::*;
use crate::error::DenseError;
use crate::table::{cell_outcome, coerce_cell, Column, DType, Table};

verus! {

/// A dense matrix: `rows * cols` values, cell `(r, c)` at offset `r * cols + c`.
#[derive(Debug)]
pub struct DenseMatrix<T> {
    pub buffer: Vec<T>,
    pub rows: usize,
    pub cols: usize,
}

/// Offset of cell `(r, c)` in a row-major buffer with `cols` columns.
pub open spec fn flat_index(r: int, c: int, cols: int) -> int {
    r * cols + c
}

/// Row count of a sequence of columns: the length of the first one.
pub open spec fn height<T>(cs: Seq<Column<T>>) -> nat {
    if cs.len() == 0 {
        0
    } else {
        cs[0].values@.len()
    }
}

/// Whether column `j` has another length than the first column.
pub open spec fn length_differs<T>(cs: Seq<Column<T>>, j: int) -> bool {
    cs[j].values@.len() != height(cs)
}

pub open spec fn lengths_agree<T>(cs: Seq<Column<T>>) -> bool {
    forall|j: int| 0 <= j < cs.len() ==> !#[trigger] length_differs(cs, j)
}

/// Whether cell `(r, c)` converts.
pub open spec fn cell_ok<T>(cs: Seq<Column<T>>, r: int, c: int) -> bool {
    cell_outcome(cs[c], r) is Ok
}

/// Whether cell `(r1, c1)` comes before cell `(r2, c2)` in row-major order.
pub open spec fn visited_before(r1: int, c1: int, r2: int, c2: int) -> bool {
    r1 < r2 || (r1 == r2 && c1 < c2)
}

/// Whether every cell of the first `rows` rows converts.
pub open spec fn all_cells_ok<T>(cs: Seq<Column<T>>, rows: int) -> bool {
    forall|r: int, c: int| 0 <= r < rows && 0 <= c < cs.len() ==> #[trigger] cell_ok(cs, r, c)
}

/// Whether `(r, c)` is the first cell, in row-major order, that fails.
pub open spec fn first_failing_cell<T>(cs: Seq<Column<T>>, r: int, c: int) -> bool {
    &&& 0 <= r < height(cs)
    &&& 0 <= c < cs.len()
    &&& !cell_ok(cs, r, c)
    &&& forall|r2: int, c2: int|
        0 <= r2 && 0 <= c2 < cs.len() && visited_before(r2, c2, r, c) ==> #[trigger] cell_ok(cs, r2, c2)
}

/// Whether `j` is the first column whose length differs from the first one's.
pub open spec fn first_length_mismatch<T>(cs: Seq<Column<T>>, j: int) -> bool {
    &&& 0 <= j < cs.len()
    &&& length_differs(cs, j)
    &&& forall|j2: int| 0 <= j2 < j ==> !#[trigger] length_differs(cs, j2)
}

/// Whether `res` is what converting the columns `cs`, in this order, gives.
///
/// No columns fail with `EmptyInput`; then a column of another length than
/// the first fails with `LengthMismatch` at the first such column; then
/// columns without rows fail with `EmptyInput`; then the first cell,
/// row by row and in each row column by column, that does not convert gives
/// its error. Otherwise the result has `height(cs)` rows and `cs.len()`
/// columns, and cell `(r, c)` of the buffer holds the value of row `r` of
/// column `c`.
pub open spec fn dense_outcome<T>(cs: Seq<Column<T>>, res: Result<DenseMatrix<T>, DenseError>) -> bool {
    let rows = height(cs);
    let cols = cs.len();
    if cols == 0 {
        res == Err::<DenseMatrix<T>, DenseError>(DenseError::EmptyInput)
    } else if !lengths_agree(cs) {
        exists|j: int|
            first_length_mismatch(cs, j) && res == Err::<DenseMatrix<T>, DenseError>(
                DenseError::LengthMismatch(j as usize),
            )
    } else if rows == 0 {
        res == Err::<DenseMatrix<T>, DenseError>(DenseError::EmptyInput)
    } else if !all_cells_ok(cs, rows as int) {
        exists|r: int, c: int|
            first_failing_cell(cs, r, c) && res == Err::<DenseMatrix<T>, DenseError>(
                cell_outcome(cs[c], r)->Err_0,
            )
    } else {
        match res {
            Ok(m) => {
                &&& m.rows == rows
                &&& m.cols == cols
                &&& m.buffer@.len() == rows * cols
                &&& forall|r: int, c: int|
                    0 <= r < rows && 0 <= c < cols ==> m.buffer@[#[trigger] flat_index(r, c, cols as int)]
                        == cell_outcome(cs[c], r)->Ok_0
            },
            Err(_) => false,
        }
    }
}

/// The columns of `cs` at the positions `sel`, in the order of `sel`.
pub open spec fn pick<T>(cs: Seq<Column<T>>, sel: Seq<usize>) -> Seq<Column<T>> {
    sel.map_values(|i: usize| cs[i as int])
}

proof fn lemma_index_before(r2: int, c2: int, r: int, c: int, cols: int)
    requires
        0 <= r2,
        0 <= c2 < cols,
        0 <= c <= cols,
        visited_before(r2, c2, r, c),
    ensures
        0 <= flat_index(r2, c2, cols) < flat_index(r, c, cols),
{
    if r2 < r {
        assert(r2 * cols + cols <= r * cols) by (nonlinear_arith)
            requires
                r2 < r,
                0 <= cols,
        ;
    }
    assert(0 <= r2 * cols) by (nonlinear_arith)
        requires
            0 <= r2,
            0 <= cols,
    ;
}

/// Builds the matrix of the columns of `table` at positions `sel`.
fn build_dense<T: Copy>(table: &Table<T>, sel: &Vec<usize>) -> (res: Result<DenseMatrix<T>, DenseError>)
    requires
        forall|k: int| 0 <= k < sel@.len() ==> #[trigger] sel@[k] < table.columns@.len(),
    ensures
        dense_outcome(pick(table.columns@, sel@), res),
{
    let ghost cs = pick(table.columns@, sel@);
    let cols = sel.len();
    if cols == 0 {
        return Err(DenseError::EmptyInput);
    }
    let rows = table.columns[sel[0]].values.len();
    assert(rows == height(cs));
    let mut j: usize = 0;
    while j < cols
        invariant
            j <= cols,
            cols == cs.len(),
            cols > 0,
            rows == height(cs),
            cs == pick(table.columns@, sel@),
            forall|k: int| 0 <= k < sel@.len() ==> #[trigger] sel@[k] < table.columns@.len(),
            forall|j2: int| 0 <= j2 < j ==> !#[trigger] length_differs(cs, j2),
        decreases cols - j,
    {
        assert(cs[j as int] == table.columns@[sel@[j as int] as int]);
        if table.columns[sel[j]].values.len() != rows {
            assert(first_length_mismatch(cs, j as int));
            assert(!lengths_agree(cs));
            return Err(DenseError::LengthMismatch(j));
        }
        j += 1;
    }
    assert(lengths_agree(cs));
    if rows == 0 {
        return Err(DenseError::EmptyInput);
    }
    let mut buffer: Vec<T> = Vec::new();
    let mut r: usize = 0;
    while r < rows
        invariant
            r <= rows,
            cols == cs.len(),
            rows == height(cs),
            rows > 0,
            cols > 0,
            cs == pick(table.columns@, sel@),
            lengths_agree(cs),
            forall|k: int| 0 <= k < sel@.len() ==> #[trigger] sel@[k] < table.columns@.len(),
            buffer@.len() == flat_index(r as int, 0, cols as int),
            forall|r2: int, c2: int|
                0 <= r2 < r && 0 <= c2 < cols ==> #[trigger] cell_ok(cs, r2, c2),
            forall|r2: int, c2: int|
                0 <= r2 < r && 0 <= c2 < cols ==> buffer@[#[trigger] flat_index(r2, c2, cols as int)]
                    == cell_outcome(cs[c2], r2)->Ok_0,
        decreases rows - r,
    {
        let mut c: usize = 0;
        while c < cols
            invariant
                r < rows,
                c <= cols,
                cols == cs.len(),
                rows == height(cs),
                rows > 0,
                cs == pick(table.columns@, sel@),
                lengths_agree(cs),
                forall|k: int| 0 <= k < sel@.len() ==> #[trigger] sel@[k] < table.columns@.len(),
                buffer@.len() == flat_index(r as int, c as int, cols as int),
                forall|r2: int, c2: int|
                    0 <= r2 && 0 <= c2 < cols && visited_before(r2, c2, r as int, c as int)
                        ==> #[trigger] cell_ok(cs, r2, c2),
                forall|r2: int, c2: int|
                    0 <= r2 && 0 <= c2 < cols && visited_before(r2, c2, r as int, c as int)
                        ==> buffer@[#[trigger] flat_index(r2, c2, cols as int)]
                        == cell_outcome(cs[c2], r2)->Ok_0,
            decreases cols - c,
        {
            assert(!length_differs(cs, c as int));
            assert(cs[c as int] == table.columns@[sel@[c as int] as int]);
            let cell = coerce_cell(&table.columns[sel[c]], r);
            match cell {
                Ok(v) => {
                    let ghost prev = buffer@;
                    buffer.push(v);
                    assert forall|r2: int, c2: int|
                        0 <= r2 && 0 <= c2 < cols && visited_before(r2, c2, r as int, c + 1) implies
                        buffer@[#[trigger] flat_index(r2, c2, cols as int)]
                            == cell_outcome(cs[c2], r2)->Ok_0 by {
                        if visited_before(r2, c2, r as int, c as int) {
                            lemma_index_before(r2, c2, r as int, c as int, cols as int);
                        }
                    }
                },
                Err(e) => {
                    assert(first_failing_cell(cs, r as int, c as int));
                    return Err(e);
                },
            }
            c += 1;
        }
        assert(flat_index(r as int, cols as int, cols as int) == flat_index(r + 1, 0, cols as int))
            by (nonlinear_arith);
        r += 1;
    }
    let m = DenseMatrix { buffer, rows, cols };
    assert(m.buffer@.len() == rows * cols);
    Ok(m)
}

/// Whether `j` is the first position in `cs` of a column named `name`.
pub open spec fn first_named<T>(cs: Seq<Column<T>>, name: Seq<char>, j: int) -> bool {
    &&& 0 <= j < cs.len()
    &&& cs[j].name@ == name
    &&& forall|j2: int| 0 <= j2 < j ==> (#[trigger] cs[j2]).name@ != name
}

pub open spec fn has_column<T>(cs: Seq<Column<T>>, name: Seq<char>) -> bool {
    exists|j: int| 0 <= j < cs.len() && (#[trigger] cs[j]).name@ == name
}

/// The position of the first column named `name`.
pub open spec fn column_position<T>(cs: Seq<Column<T>>, name: Seq<char>) -> int {
    choose|j: int| first_named(cs, name, j)
}

/// The columns that `names` select, in the order of `names`.
pub open spec fn columns_named<T>(cs: Seq<Column<T>>, names: Seq<String>) -> Seq<Column<T>> {
    names.map_values(|n: String| cs[column_position(cs, n@)])
}

/// Whether `names[k]` is the first requested name that no column has.
pub open spec fn first_missing<T>(cs: Seq<Column<T>>, names: Seq<String>, k: int) -> bool {
    &&& 0 <= k < names.len()
    &&& !has_column(cs, names[k]@)
    &&& forall|k2: int| 0 <= k2 < k ==> has_column(cs, (#[trigger] names[k2])@)
}

pub open spec fn all_present<T>(cs: Seq<Column<T>>, names: Seq<String>) -> bool {
    forall|k: int| 0 <= k < names.len() ==> has_column(cs, (#[trigger] names[k])@)
}

/// Whether `names[k]` equals a name that comes before it.
pub open spec fn repeats_earlier(names: Seq<String>, k: int) -> bool {
    exists|k2: int| 0 <= k2 < k && (#[trigger] names[k2])@ == names[k]@
}

pub open spec fn names_distinct(names: Seq<String>) -> bool {
    forall|k: int| 0 <= k < names.len() ==> !#[trigger] repeats_earlier(names, k)
}

/// Whether `names[k]` is the first name that repeats an earlier one.
pub open spec fn first_repeat(names: Seq<String>, k: int) -> bool {
    &&& 0 <= k < names.len()
    &&& repeats_earlier(names, k)
    &&& forall|k2: int| 0 <= k2 < k ==> !#[trigger] repeats_earlier(names, k2)
}

/// Whether `res` is what converting the columns of `cs` named by `names`
/// gives: `ColumnSelection` with the first name that is missing; else
/// `ColumnSelection` with the first name asked for a second time; else the
/// conversion of the named columns in the order of `names`.
pub open spec fn select_outcome<T>(
    cs: Seq<Column<T>>,
    names: Seq<String>,
    res: Result<DenseMatrix<T>, DenseError>,
) -> bool {
    if !all_present(cs, names) {
        exists|k: int|
            first_missing(cs, names, k) && res == Err::<DenseMatrix<T>, DenseError>(
                DenseError::ColumnSelection(names[k]),
            )
    } else if !names_distinct(names) {
        exists|k: int|
            first_repeat(names, k) && res == Err::<DenseMatrix<T>, DenseError>(
                DenseError::ColumnSelection(names[k]),
            )
    } else {
        dense_outcome(columns_named(cs, names), res)
    }
}

/// Whether two outcomes are the same matrix, value for value, or the same error.
pub open spec fn same_outcome<T>(
    a: Result<DenseMatrix<T>, DenseError>,
    b: Result<DenseMatrix<T>, DenseError>,
) -> bool {
    match (a, b) {
        (Ok(x), Ok(y)) => x.rows == y.rows && x.cols == y.cols && x.buffer@ == y.buffer@,
        (Err(e), Err(f)) => e == f,
        _ => false,
    }
}

proof fn lemma_first_named_unique<T>(cs: Seq<Column<T>>, name: Seq<char>, j: int)
    requires
        first_named(cs, name, j),
    ensures
        column_position(cs, name) == j,
{
    let p = column_position(cs, name);
    assert(first_named(cs, name, p));
    if p < j {
        assert(cs[p].name@ != name);
    } else if j < p {
        assert(cs[j].name@ != name);
    }
}

/// The position of the first column of `table` named `name`, if any.
fn find_column<T>(table: &Table<T>, name: &String) -> (r: Option<usize>)
    ensures
        match r {
            Some(j) => first_named(table.columns@, name@, j as int),
            None => !has_column(table.columns@, name@),
        },
{
    let n = table.columns.len();
    let mut j: usize = 0;
    while j < n
        invariant
            j <= n,
            n == table.columns@.len(),
            forall|j2: int| 0 <= j2 < j ==> (#[trigger] table.columns@[j2]).name@ != name@,
        decreases n - j,
    {
        if table.columns[j].name == *name {
            return Some(j);
        }
        j += 1;
    }
    None
}

/// Converts every column of `table`, in the table's order.
pub fn convert_full<T: Copy>(table: &Table<T>) -> (res: Result<DenseMatrix<T>, DenseError>)
    ensures
        dense_outcome(table.columns@, res),
        (table.columns@.len() == 0 || (lengths_agree(table.columns@) && height(table.columns@) == 0))
            <==> res == Err::<
            DenseMatrix<T>,
            DenseError,
        >(DenseError::EmptyInput),
        res matches Ok(m) ==> {
            &&& m.buffer@.len() == m.rows * m.cols
            &&& m.rows == height(table.columns@)
            &&& m.cols == table.columns@.len()
        },
{
    let n = table.columns.len();
    let mut sel: Vec<usize> = Vec::new();
    let mut i: usize = 0;
    while i < n
        invariant
            i <= n,
            n == table.columns@.len(),
            sel@.len() == i,
            forall|k: int| 0 <= k < i ==> #[trigger] sel@[k] == k,
        decreases n - i,
    {
        sel.push(i);
        i += 1;
    }
    assert(pick(table.columns@, sel@) =~= table.columns@);
    build_dense(table, &sel)
}

/// Converts the columns of `table` named by `names`, in the order of `names`.
pub fn convert_columns<T: Copy>(table: &Table<T>, names: &Vec<String>) -> (res: Result<
    DenseMatrix<T>,
    DenseError,
>)
    ensures
        select_outcome(table.columns@, names@, res),
        !all_present(table.columns@, names@) || !names_distinct(names@) <==> res matches Err(
            DenseError::ColumnSelection(_),
        ),
        res matches Ok(m) ==> {
            &&& m.buffer@.len() == m.rows * m.cols
            &&& m.rows == height(columns_named(table.columns@, names@))
            &&& m.cols == names@.len()
        },
{
    let ghost cs = table.columns@;
    let mut sel: Vec<usize> = Vec::new();
    let mut k: usize = 0;
    while k < names.len()
        invariant
            k <= names@.len(),
            cs == table.columns@,
            sel@.len() == k,
            forall|k2: int| 0 <= k2 < k ==> has_column(cs, (#[trigger] names@[k2])@),
            forall|k2: int| 0 <= k2 < k ==> #[trigger] sel@[k2] < cs.len(),
            forall|k2: int| 0 <= k2 < k ==> sel@[k2] == column_position(cs, (#[trigger] names@[k2])@),
        decreases names@.len() - k,
    {
        match find_column(table, &names[k]) {
            Some(j) => {
                proof {
                    lemma_first_named_unique(cs, names@[k as int]@, j as int);
                }
                sel.push(j);
            },
            None => {
                assert(first_missing(cs, names@, k as int));
                return Err(DenseError::ColumnSelection(names[k].clone()));
            },
        }
        k += 1;
    }
    assert(all_present(cs, names@));
    let n = names.len();
    let mut k: usize = 0;
    while k < n
        invariant
            k <= n,
            n == names@.len(),
            cs == table.columns@,
            all_present(cs, names@),
            sel@.len() == names@.len(),
            forall|k2: int| 0 <= k2 < sel@.len() ==> #[trigger] sel@[k2] < cs.len(),
            forall|k2: int| 0 <= k2 < sel@.len() ==> sel@[k2] == column_position(cs, (#[trigger] names@[k2])@),
            forall|k2: int| 0 <= k2 < k ==> !#[trigger] repeats_earlier(names@, k2),
        decreases n - k,
    {
        let mut i: usize = 0;
        while i < k
            invariant
                i <= k,
                k < n,
                n == names@.len(),
                cs == table.columns@,
                all_present(cs, names@),
                sel@.len() == names@.len(),
                forall|k2: int| 0 <= k2 < sel@.len() ==> #[trigger] sel@[k2] < cs.len(),
                forall|k2: int| 0 <= k2 < sel@.len() ==> sel@[k2] == column_position(cs, (#[trigger] names@[k2])@),
                forall|k2: int| 0 <= k2 < k ==> !#[trigger] repeats_earlier(names@, k2),
                forall|k2: int| 0 <= k2 < i ==> (#[trigger] names@[k2])@ != names@[k as int]@,
            decreases k - i,
        {
            if names[i] == names[k] {
                assert(repeats_earlier(names@, k as int));
                assert(first_repeat(names@, k as int));
                return Err(DenseError::ColumnSelection(names[k].clone()));
            }
            i += 1;
        }
        k += 1;
    }
    assert(pick(cs, sel@) =~= columns_named(cs, names@));
    build_dense(table, &sel)
}

proof fn lemma_flat_index_cover(k: int, rows: int, cols: int) -> (rc: (int, int))
    requires
        0 <= k < rows * cols,
        0 < cols,
    ensures
        0 <= rc.0 < rows,
        0 <= rc.1 < cols,
        flat_index(rc.0, rc.1, cols) == k,
{
    let q = k / cols;
    let m = k % cols;
    vstd::arithmetic::div_mod::lemma_fundamental_div_mod(k, cols);
    assert(0 <= m < cols);
    assert(0 <= q < rows) by (nonlinear_arith)
        requires
            k == cols * q + m,
            0 <= m < cols,
            0 <= k < rows * cols,
            0 < cols,
    ;
    assert(flat_index(q, m, cols) == k) by (nonlinear_arith)
        requires
            k == cols * q + m,
    ;
    (q, m)
}

/// Converting the same table twice gives the same outcome: the same
/// matrix, value for value, or the same error.
pub proof fn lemma_convert_deterministic<T>(
    table: Table<T>,
    a: Result<DenseMatrix<T>, DenseError>,
    b: Result<DenseMatrix<T>, DenseError>,
)
    requires
        dense_outcome(table.columns@, a),
        dense_outcome(table.columns@, b),
    ensures
        same_outcome(a, b),
{
    let cs = table.columns@;
    let rows = height(cs);
    let cols = cs.len();
    if cols == 0 {
    } else if !lengths_agree(cs) {
        let ja = choose|j: int|
            first_length_mismatch(cs, j) && a == Err::<DenseMatrix<T>, DenseError>(
                DenseError::LengthMismatch(j as usize),
            );
        let jb = choose|j: int|
            first_length_mismatch(cs, j) && b == Err::<DenseMatrix<T>, DenseError>(
                DenseError::LengthMismatch(j as usize),
            );
        if ja < jb {
            assert(!length_differs(cs, ja));
        } else if jb < ja {
            assert(!length_differs(cs, jb));
        }
    } else if rows == 0 {
    } else if !all_cells_ok(cs, rows as int) {
        let (ra, ca) = choose|r: int, c: int|
            first_failing_cell(cs, r, c) && a == Err::<DenseMatrix<T>, DenseError>(
                cell_outcome(cs[c], r)->Err_0,
            );
        let (rb, cb) = choose|r: int, c: int|
            first_failing_cell(cs, r, c) && b == Err::<DenseMatrix<T>, DenseError>(
                cell_outcome(cs[c], r)->Err_0,
            );
        if visited_before(ra, ca, rb, cb) {
            assert(cell_ok(cs, ra, ca));
        } else if visited_before(rb, cb, ra, ca) {
            assert(cell_ok(cs, rb, cb));
        }
    } else {
        let x = a->Ok_0;
        let y = b->Ok_0;
        assert forall|k: int| 0 <= k < x.buffer@.len() implies x.buffer@[k] == y.buffer@[k] by {
            let (r, c) = lemma_flat_index_cover(k, rows as int, cols as int);
        }
        assert(x.buffer@ =~= y.buffer@);
    }
}

/// A column whose source type has no conversion makes the conversion fail
/// with `UnsupportedType` and that type's name, whatever the column holds,
/// once the table is not empty, its columns have one length, and the cells
/// before that column in the first row convert.
pub proof fn lemma_unsupported_rejected<T>(
    table: Table<T>,
    res: Result<DenseMatrix<T>, DenseError>,
    j: int,
    dtype_name: String,
)
    requires
        dense_outcome(table.columns@, res),
        height(table.columns@) > 0,
        lengths_agree(table.columns@),
        0 <= j < table.columns@.len(),
        table.columns@[j].dtype == DType::Other(dtype_name),
        forall|j2: int| 0 <= j2 < j ==> #[trigger] cell_ok(table.columns@, 0, j2),
    ensures
        res == Err::<DenseMatrix<T>, DenseError>(DenseError::UnsupportedType(dtype_name)),
{
    let cs = table.columns@;
    assert(!cell_ok(cs, 0, j));
    assert(!all_cells_ok(cs, height(cs) as int));
    let (r, c) = choose|r: int, c: int|
        first_failing_cell(cs, r, c) && res == Err::<DenseMatrix<T>, DenseError>(
            cell_outcome(cs[c], r)->Err_0,
        );
    if visited_before(0, j, r, c) {
        assert(cell_ok(cs, 0, j));
    }
    if visited_before(r, c, 0, j) {
        assert(cell_ok(cs, r, c));
    }
}

/// Selecting every column by its name, in the table's order, converts as
/// the whole table does, where the table's column names are distinct.
pub proof fn lemma_select_all_is_full<T>(table: Table<T>, names: Seq<String>)
    requires
        names.len() == table.columns@.len(),
        forall|k: int| 0 <= k < names.len() ==> (#[trigger] names[k])@ == table.columns@[k].name@,
        forall|j1: int, j2: int|
            0 <= j1 < j2 < table.columns@.len() ==> table.columns@[j1].name@ != table.columns@[j2].name@,
    ensures
        columns_named(table.columns@, names) == table.columns@,
        forall|res: Result<DenseMatrix<T>, DenseError>|
            select_outcome(table.columns@, names, res) <==> dense_outcome(table.columns@, res),
{
    let cs = table.columns@;
    assert forall|k: int| 0 <= k < names.len() implies column_position(cs, (#[trigger] names[k])@) == k by {
        assert forall|j2: int| 0 <= j2 < k implies (#[trigger] cs[j2]).name@ != names[k]@ by {}
        assert(first_named(cs, names[k]@, k));
        lemma_first_named_unique(cs, names[k]@, k);
    }
    assert forall|k: int| 0 <= k < names.len() implies has_column(cs, (#[trigger] names[k])@) by {
        assert(cs[k].name@ == names[k]@);
    }
    assert forall|k: int| 0 <= k < names.len() implies !#[trigger] repeats_earlier(names, k) by {
        if repeats_earlier(names, k) {
            let k2 = choose|k2: int| 0 <= k2 < k && (#[trigger] names[k2])@ == names[k]@;
            assert(names[k2]@ == cs[k2].name@);
        }
    }
    assert(columns_named(cs, names) =~= cs);
}

/// Two tables that agree on which requested names they have, and on the
/// column that each requested name selects, give the same outcome for those
/// names: the other columns play no part.
pub proof fn lemma_unselected_columns_ignored<T>(a: Table<T>, b: Table<T>, names: Seq<String>)
    requires
        forall|k: int|
            0 <= k < names.len() ==> (has_column(a.columns@, (#[trigger] names[k])@) <==> has_column(
                b.columns@,
                names[k]@,
            )),
        forall|k: int|
            0 <= k < names.len() && has_column(a.columns@, (#[trigger] names[k])@) ==> a.columns@[column_position(
                a.columns@,
                names[k]@,
            )] == b.columns@[column_position(b.columns@, names[k]@)],
    ensures
        forall|res: Result<DenseMatrix<T>, DenseError>|
            select_outcome(a.columns@, names, res) <==> select_outcome(b.columns@, names, res),
{
    if all_present(a.columns@, names) {
        assert(all_present(b.columns@, names));
        assert(columns_named(a.columns@, names) =~= columns_named(b.columns@, names));
    } else {
        assert(!all_present(b.columns@, names));
        assert forall|k: int| first_missing(a.columns@, names, k) <==> first_missing(b.columns@, names, k) by {}
    }
}

proof fn lemma_position_of_present<T>(cs: Seq<Column<T>>, name: Seq<char>, j: int)
    requires
        0 <= j < cs.len(),
        cs[j].name@ == name,
    ensures
        first_named(cs, name, column_position(cs, name)),
    decreases j,
{
    if exists|j2: int| 0 <= j2 < j && (#[trigger] cs[j2]).name@ == name {
        let j2 = choose|j2: int| 0 <= j2 < j && (#[trigger] cs[j2]).name@ == name;
        lemma_position_of_present(cs, name, j2);
    } else {
        assert(first_named(cs, name, j));
    }
}

proof fn lemma_named_columns_in_table<T>(cs: Seq<Column<T>>, names: Seq<String>)
    requires
        all_present(cs, names),
    ensures
        forall|k: int|
            0 <= k < names.len() ==> first_named(cs, (#[trigger] names[k])@, column_position(cs, names[k]@)),
{
    assert forall|k: int| 0 <= k < names.len() implies first_named(
        cs,
        (#[trigger] names[k])@,
        column_position(cs, names[k]@),
    ) by {
        assert(has_column(cs, names[k]@));
        let j = choose|j: int| 0 <= j < cs.len() && (#[trigger] cs[j]).name@ == names[k]@;
        lemma_position_of_present(cs, names[k]@, j);
    }
}

/// A selection that converts has the table's height as its row count and
/// one column per requested name, with `rows * cols` values, where the
/// table's columns have one length.
pub proof fn lemma_selection_shape<T>(table: Table<T>, names: Seq<String>, m: DenseMatrix<T>)
    requires
        select_outcome(table.columns@, names, Ok(m)),
        lengths_agree(table.columns@),
    ensures
        m.rows == height(table.columns@),
        m.cols == names.len(),
        m.buffer@.len() == m.rows * m.cols,
{
    let cs = table.columns@;
    lemma_named_columns_in_table(cs, names);
    let p = column_position(cs, names[0]@);
    assert(first_named(cs, names[0]@, p));
    assert(!length_differs(cs, p));
}

/// Selecting names that are all in the table, each once, fails with
/// `EmptyInput` when no name is requested or the table has no rows, where
/// the table's columns have one length; whatever the columns' types.
pub proof fn lemma_selection_empty<T>(
    table: Table<T>,
    names: Seq<String>,
    res: Result<DenseMatrix<T>, DenseError>,
)
    requires
        select_outcome(table.columns@, names, res),
        all_present(table.columns@, names),
        names_distinct(names),
        lengths_agree(table.columns@),
        names.len() == 0 || height(table.columns@) == 0,
    ensures
        res == Err::<DenseMatrix<T>, DenseError>(DenseError::EmptyInput),
{
    let cs = table.columns@;
    let sc = columns_named(cs, names);
    lemma_named_columns_in_table(cs, names);
    if names.len() > 0 {
        assert forall|k: int| 0 <= k < sc.len() implies sc[k].values@.len() == 0 by {
            assert(first_named(cs, names[k]@, column_position(cs, names[k]@)));
            assert(!length_differs(cs, column_position(cs, names[k]@)));
        }
        assert(height(sc) == 0);
        assert(lengths_agree(sc));
    }
}

/// In a selection that converts, cell `(r, j)` holds row `r` of the column
/// named by the `j`-th requested name.
pub proof fn lemma_selection_values<T>(table: Table<T>, names: Seq<String>, m: DenseMatrix<T>)
    requires
        select_outcome(table.columns@, names, Ok(m)),
    ensures
        forall|r: int, j: int|
            0 <= r < m.rows && 0 <= j < m.cols ==> {
                let p = column_position(table.columns@, names[j]@);
                &&& 0 <= p < table.columns@.len()
                &&& table.columns@[p].name@ == names[j]@
                &&& m.buffer@[#[trigger] flat_index(r, j, m.cols as int)] == cell_outcome(
                    table.columns@[p],
                    r,
                )->Ok_0
            },
{
    lemma_named_columns_in_table(table.columns@, names);
}

} // verus!
