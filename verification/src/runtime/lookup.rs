//! Row lookups, causal masks and the operand rules of cross entropy.

use crate::runtime::fold;
use crate::runtime::layout::ShapeError;
use crate::runtime::shape;
use vstd::prelude::*;

verus! {

/// Why a row lookup is refused.
#[derive(Clone, Copy, Debug, PartialEq, Eq, Structural)]
pub enum LookupError {
    Shape(ShapeError),
    /// A row number outside the table.
    Row { row: i64, rows: usize },
}

/// Position of the first row number, from `i` on, that is outside the table.
pub open spec fn first_outside(rows: Seq<i64>, limit: nat, i: nat) -> Option<int>
    decreases rows.len() - i,
{
    if i >= rows.len() {
        None
    } else if !(0 <= rows[i as int] < limit) {
        Some(i as int)
    } else {
        first_outside(rows, limit, i + 1)
    }
}

/// What refuses a lookup of `rows` in a table, if anything.
pub open spec fn lookup_error(table: Seq<usize>, index: Seq<usize>, rows: Seq<i64>) -> Option<
    LookupError,
> {
    if table.len() != 2 {
        Some(LookupError::Shape(ShapeError::Rank { have: table.len() as usize, want: 2 }))
    } else if index.len() != 1 {
        Some(LookupError::Shape(ShapeError::Rank { have: index.len() as usize, want: 1 }))
    } else {
        match first_outside(rows, table[0] as nat, 0) {
            Some(i) => Some(LookupError::Row { row: rows[i], rows: table[0] }),
            None => None,
        }
    }
}

fn check_rows(rows: &Vec<i64>, limit: usize) -> (r: Option<usize>)
    ensures
        match r {
            Some(i) => first_outside(rows@, limit as nat, 0) == Some(i as int) && i < rows.len(),
            None => first_outside(rows@, limit as nat, 0) is None && forall|i: int|
                0 <= i < rows.len() ==> 0 <= #[trigger] rows@[i] < limit,
        },
{
    let mut i: usize = 0;
    while i < rows.len()
        invariant
            i <= rows.len(),
            first_outside(rows@, limit as nat, 0) == first_outside(rows@, limit as nat, i as nat),
            forall|j: int| 0 <= j < i ==> 0 <= #[trigger] rows@[j] < limit,
        decreases rows.len() - i,
    {
        if rows[i] < 0 || rows[i] as u64 >= limit as u64 {
            return Some(i);
        }
        i = i + 1;
    }
    None
}

proof fn cell_in_table(row: int, rows: int, width: int, d: int)
    requires
        0 <= row < rows,
        0 <= d < width,
    ensures
        0 <= row * width,
        0 <= row * width + d < rows * width,
{
    assert(0 <= row * width && row * width + d < rows * width) by (nonlinear_arith)
        requires
            0 <= row < rows,
            0 <= d < width,
    ;
}

/// Copies rows of a table: row `t` of the result is row `rows[t]` of `table`.
pub fn tensor_embedding<T: Copy>(
    table: &Vec<T>,
    table_shape: &Vec<usize>,
    rows: &Vec<i64>,
    index_shape: &Vec<usize>,
) -> (r: Result<Vec<T>, LookupError>)
    requires
        table.len() == shape::count(table_shape@),
        rows.len() == shape::count(index_shape@),
    ensures
        match r {
            Err(e) => lookup_error(table_shape@, index_shape@, rows@) == Some(e),
            Ok(out) => {
                let width = table_shape@[1] as int;
                &&& lookup_error(table_shape@, index_shape@, rows@) is None
                &&& out@.len() == rows@.len() * width
                &&& forall|t: int, d: int|
                    #![trigger out@[t * width + d]]
                    0 <= t < rows@.len() && 0 <= d < width ==> out@[t * width + d]
                        == table@[rows@[t] * width + d]
            },
        },
{
    if table_shape.len() != 2 {
        return Err(
            LookupError::Shape(ShapeError::Rank { have: table_shape.len(), want: 2 }),
        );
    }
    if index_shape.len() != 1 {
        return Err(
            LookupError::Shape(ShapeError::Rank { have: index_shape.len(), want: 1 }),
        );
    }
    let limit: usize = table_shape[0];
    let width: usize = table_shape[1];
    match check_rows(rows, limit) {
        Some(i) => {
            return Err(LookupError::Row { row: rows[i], rows: limit });
        },
        None => {},
    }
    proof {
        reveal_with_fuel(shape::count, 3);
        assert(1 * limit as nat == limit as nat);
        assert(shape::count(table_shape@) == limit as nat * width as nat);
    }
    let mut out: Vec<T> = Vec::new();
    let mut t: usize = 0;
    while t < rows.len()
        invariant
            t <= rows.len(),
            table.len() == limit as nat * width as nat,
            forall|i: int| 0 <= i < rows.len() ==> 0 <= #[trigger] rows@[i] < limit,
            out.len() == t * width,
            forall|s: int, d: int|
                #![trigger out@[s * width + d]]
                0 <= s < t && 0 <= d < width ==> out@[s * width + d] == table@[rows@[s] * width
                    + d],
        decreases rows.len() - t,
    {
        let row: usize = rows[t] as usize;
        assert(0 <= rows@[t as int] < limit);
        let mut d: usize = 0;
        let ghost before = out@;
        while d < width
            invariant
                d <= width,
                t < rows.len(),
                row == rows@[t as int],
                row < limit,
                table.len() == limit as nat * width as nat,
                before.len() == t * width,
                out@.len() == t * width + d,
                out@.take(before.len() as int) =~= before,
                forall|e: int|
                    0 <= e < d ==> #[trigger] out@[t * width + e] == table@[row * width + e],
            decreases width - d,
        {
            proof {
                cell_in_table(row as int, limit as int, width as int, d as int);
            }
            let ghost was = out@;
            out.push(table[row * width + d]);
            proof {
                assert(out@.take(before.len() as int) =~= was.take(before.len() as int));
            }
            d = d + 1;
        }
        proof {
            assert forall|s: int, e: int|
                #![trigger out@[s * width + e]]
                0 <= s < t + 1 && 0 <= e < width implies out@[s * width + e] == table@[rows@[s]
                * width + e] by {
                if s < t {
                    cell_in_table(s, t as int, width as int, e);
                    assert(out@.take(before.len() as int)[s * width + e] == before[s * width + e]);
                }
            }
            assert((t + 1) * width == t * width + width) by (nonlinear_arith);
        }
        t = t + 1;
    }
    Ok(out)
}

/// Where each gradient element goes when row lookups are undone.
pub open spec fn scatter_targets(rows: Seq<i64>, width: nat) -> Seq<usize> {
    Seq::new(
        rows.len() * width,
        |i: int| (rows[i / width as int] * width + i % width as int) as usize,
    )
}

/// Folds the rows of a gradient into the rows of the table that they were
/// copied from.
pub fn tensor_scatter_add<T: Copy, F: Fn(T, T) -> T>(
    dout: &Vec<T>,
    width: usize,
    rows: &Vec<i64>,
    table_rows: usize,
    zero: T,
    f: F,
) -> (r: Vec<T>)
    requires
        dout.len() == rows.len() * width,
        table_rows * width <= usize::MAX,
        forall|i: int| 0 <= i < rows.len() ==> 0 <= #[trigger] rows@[i] < table_rows,
        forall|x: T, y: T| #[trigger] call_requires(f, (x, y)),
    ensures
        r.len() == table_rows * width,
        forall|s: int|
            0 <= s < r.len() ==> fold::folds(
                f,
                zero,
                fold::members(dout@, scatter_targets(rows@, width as nat), s, dout@.len()),
                #[trigger] r@[s],
            ),
{
    let mut targets: Vec<usize> = Vec::new();
    let mut i: usize = 0;
    while i < dout.len()
        invariant
            i <= dout.len(),
            dout.len() == rows.len() * width,
            table_rows * width <= usize::MAX,
            forall|j: int| 0 <= j < rows.len() ==> 0 <= #[trigger] rows@[j] < table_rows,
            targets.len() == i,
            forall|j: int|
                0 <= j < i ==> #[trigger] targets@[j] == rows@[j / width as int] * width + j
                    % width as int && targets@[j] < table_rows * width,
        decreases dout.len() - i,
    {
        proof {
            assert(width > 0) by (nonlinear_arith)
                requires
                    i < rows.len() * width,
                    width >= 0,
                    i >= 0,
            ;
            vstd::arithmetic::mul::lemma_mul_is_commutative(rows.len() as int, width as int);
            vstd::arithmetic::div_mod::lemma_multiply_divide_lt(
                i as int,
                width as int,
                rows.len() as int,
            );
            assert(0 <= rows@[i as int / width as int] < table_rows);
            cell_in_table(
                rows@[i as int / width as int] as int,
                table_rows as int,
                width as int,
                i as int % width as int,
            );
        }
        let row: usize = rows[i / width] as usize;
        targets.push(row * width + i % width);
        i = i + 1;
    }
    assert(targets@ =~= scatter_targets(rows@, width as nat));
    let total: usize = table_rows * width;
    fold::scatter_fold(dout, &targets, total, zero, f)
}

/// A square mask: `below` on and below the diagonal, `above` above it. None
/// where its size does not fit in a machine word.
pub fn tensor_causal_mask<T: Copy>(t: usize, below: T, above: T) -> (r: Option<Vec<T>>)
    ensures
        match r {
            None => t * t > usize::MAX,
            Some(v) => {
                &&& v@.len() == t * t
                &&& forall|i: int, j: int|
                    #![trigger v@[i * t + j]]
                    0 <= i < t && 0 <= j < t ==> v@[i * t + j] == (if j > i {
                        above
                    } else {
                        below
                    })
            },
        },
{
    let total: usize = match t.checked_mul(t) {
        Some(n) => n,
        None => {
            return None;
        },
    };
    let mut out: Vec<T> = Vec::new();
    let mut k: usize = 0;
    while k < total
        invariant
            k <= total,
            total == t * t,
            out.len() == k,
            forall|q: int|
                0 <= q < k ==> #[trigger] out@[q] == (if q % t as int > q / t as int {
                    above
                } else {
                    below
                }),
        decreases total - k,
    {
        proof {
            assert(t > 0) by (nonlinear_arith)
                requires
                    k < t * t,
                    k >= 0,
                    t >= 0,
            ;
        }
        if k % t > k / t {
            out.push(above);
        } else {
            out.push(below);
        }
        k = k + 1;
    }
    proof {
        assert forall|i: int, j: int|
            #![trigger out@[i * t + j]]
            0 <= i < t && 0 <= j < t implies out@[i * t + j] == (if j > i {
            above
        } else {
            below
        }) by {
            cell_in_table(i, t as int, t as int, j);
            vstd::arithmetic::div_mod::lemma_fundamental_div_mod_converse(
                i * t + j,
                t as int,
                i,
                j,
            );
        }
    }
    Some(out)
}

/// Number of samples and classes of a cross entropy.
pub fn cross_entropy_dims(logits: &Vec<usize>, targets: &Vec<usize>) -> (r: Result<
    (usize, usize),
    ShapeError,
>)
    ensures
        r == (if logits@.len() != 2 {
            Err(ShapeError::Rank { have: logits@.len() as usize, want: 2 })
        } else if targets@.len() != 1 {
            Err(ShapeError::Rank { have: targets@.len() as usize, want: 1 })
        } else if targets@[0] != logits@[0] {
            Err(ShapeError::Length { left: logits@[0], right: targets@[0] })
        } else {
            Ok((logits@[0], logits@[1]))
        }),
{
    if logits.len() != 2 {
        return Err(ShapeError::Rank { have: logits.len(), want: 2 });
    }
    if targets.len() != 1 {
        return Err(ShapeError::Rank { have: targets.len(), want: 1 });
    }
    if targets[0] != logits[0] {
        return Err(ShapeError::Length { left: logits[0], right: targets[0] });
    }
    Ok((logits[0], logits[1]))
}

/// What refuses the targets of a cross entropy, if anything.
pub open spec fn targets_error(
    logits: Seq<usize>,
    targets: Seq<usize>,
    classes: Seq<i64>,
) -> Option<LookupError> {
    if logits.len() != 2 {
        Some(LookupError::Shape(ShapeError::Rank { have: logits.len() as usize, want: 2 }))
    } else if targets.len() != 1 {
        Some(LookupError::Shape(ShapeError::Rank { have: targets.len() as usize, want: 1 }))
    } else if targets[0] != logits[0] {
        Some(LookupError::Shape(ShapeError::Length { left: logits[0], right: targets[0] }))
    } else {
        match first_outside(classes, logits[1] as nat, 0) {
            Some(i) => Some(LookupError::Row { row: classes[i], rows: logits[1] }),
            None => None,
        }
    }
}

/// Positions in the logits of the target class of each sample.
pub fn target_cells(logits: &Vec<usize>, targets: &Vec<usize>, classes: &Vec<i64>) -> (r: Result<
    Vec<usize>,
    LookupError,
>)
    requires
        shape::count(logits@) <= usize::MAX,
        classes.len() == shape::count(targets@),
    ensures
        match r {
            Err(e) => targets_error(logits@, targets@, classes@) == Some(e),
            Ok(v) => {
                &&& targets_error(logits@, targets@, classes@) is None
                &&& v@.len() == logits@[0]
                &&& v@.len() == classes@.len()
                &&& forall|i: int|
                    0 <= i < v@.len() ==> #[trigger] v@[i] == i * logits@[1] + classes@[i]
                        && v@[i] < shape::count(logits@)
            },
        },
{
    let (n, c) = match cross_entropy_dims(logits, targets) {
        Ok(d) => d,
        Err(e) => {
            return Err(LookupError::Shape(e));
        },
    };
    match check_rows(classes, c) {
        Some(i) => {
            return Err(LookupError::Row { row: classes[i], rows: c });
        },
        None => {},
    }
    proof {
        reveal_with_fuel(shape::count, 3);
        assert(1 * n as nat == n as nat);
        assert(shape::count(logits@) == n as nat * c as nat);
        assert(classes.len() == n);
    }
    let mut out: Vec<usize> = Vec::new();
    let mut i: usize = 0;
    while i < n
        invariant
            i <= n,
            n == classes.len(),
            n as nat * c as nat <= usize::MAX,
            out.len() == i,
            forall|j: int| 0 <= j < n ==> 0 <= #[trigger] classes@[j] < c,
            forall|j: int|
                0 <= j < i ==> #[trigger] out@[j] == j * c + classes@[j] && out@[j] < n as nat
                    * c as nat,
        decreases n - i,
    {
        proof {
            assert(0 <= classes@[i as int] < c);
            cell_in_table(i as int, n as int, c as int, classes@[i as int] as int);
        }
        out.push(i * c + classes[i] as usize);
        i = i + 1;
    }
    Ok(out)
}

} // verus!
