//! The cartesian product of the dimensions of a matrix: every combination
//! of one value from each dimension, the last dimension varying fastest.
use vstd::arithmetic::div_mod::lemma_fundamental_div_mod_converse;
use vstd::prelude::*;

verus! {

/// One row for each of `values`: `row` with that value added at its end.
pub open spec fn spread(row: Seq<Seq<char>>, values: Seq<Seq<char>>) -> Seq<Seq<Seq<char>>> {
    Seq::new(values.len(), |j: int| row.push(values[j]))
}

/// Every row of `rows`, in order, spread over `values`.
pub open spec fn extend(rows: Seq<Seq<Seq<char>>>, values: Seq<Seq<char>>) -> Seq<Seq<Seq<char>>>
    decreases rows.len(),
{
    if rows.len() == 0 {
        Seq::empty()
    } else {
        extend(rows.drop_last(), values) + spread(rows.last(), values)
    }
}

/// The combinations of `dims`: one empty row where there is no dimension,
/// else the combinations of all dimensions but the last, each spread over
/// the values of the last.
pub open spec fn product(dims: Seq<Seq<Seq<char>>>) -> Seq<Seq<Seq<char>>>
    decreases dims.len(),
{
    if dims.len() == 0 {
        seq![Seq::empty()]
    } else {
        extend(product(dims.drop_last()), dims.last())
    }
}

/// The number of combinations: the product of the lengths of `dims`.
pub open spec fn row_count(dims: Seq<Seq<Seq<char>>>) -> nat
    decreases dims.len(),
{
    if dims.len() == 0 {
        1
    } else {
        row_count(dims.drop_last()) * dims.last().len()
    }
}

fn copy_row(row: &Vec<String>) -> (r: Vec<String>)
    ensures
        r.deep_view() == row.deep_view(),
{
    let mut out: Vec<String> = Vec::new();
    let mut at: usize = 0;
    while at < row.len()
        invariant
            at <= row.len(),
            out.len() == at,
            forall|j: int| 0 <= j < at ==> out[j]@ == row[j]@,
        decreases row.len() - at,
    {
        out.push(row[at].clone());
        at = at + 1;
    }
    out
}

/// The combinations of one value from each of `dims`, in the order of
/// nested loops: the first dimension outermost, the last innermost.
pub fn combinations(dims: &Vec<Vec<String>>) -> (rows: Vec<Vec<String>>)
    ensures
        rows.deep_view() == product(dims.deep_view()),
{
    let mut rows: Vec<Vec<String>> = Vec::new();
    rows.push(Vec::new());
    assert(rows[0].deep_view() =~= Seq::<Seq<char>>::empty());
    let mut d: usize = 0;
    while d < dims.len()
        invariant
            d <= dims.len(),
            rows.deep_view() == product(dims.deep_view().take(d as int)),
        decreases dims.len() - d,
    {
        let values = &dims[d];
        let mut next: Vec<Vec<String>> = Vec::new();
        let mut i: usize = 0;
        while i < rows.len()
            invariant
                i <= rows.len(),
                next.deep_view() == extend(rows.deep_view().take(i as int), values.deep_view()),
            decreases rows.len() - i,
        {
            let ghost before = next.deep_view();
            let mut j: usize = 0;
            while j < values.len()
                invariant
                    i < rows.len(),
                    j <= values.len(),
                    next.deep_view() == before + spread(
                        rows[i as int].deep_view(),
                        values.deep_view(),
                    ).take(j as int),
                decreases values.len() - j,
            {
                let mut row = copy_row(&rows[i]);
                row.push(values[j].clone());
                assert(row.deep_view() =~= rows[i as int].deep_view().push(values[j as int]@));
                let ghost grown = next.deep_view().push(row.deep_view());
                next.push(row);
                assert(next.deep_view() =~= grown);
                j = j + 1;
            }
            proof {
                let all = rows.deep_view().take(i as int + 1);
                assert(all.drop_last() =~= rows.deep_view().take(i as int));
            }
            i = i + 1;
        }
        proof {
            assert(rows.deep_view().take(rows.len() as int) =~= rows.deep_view());
            let upto = dims.deep_view().take(d as int + 1);
            assert(upto.drop_last() =~= dims.deep_view().take(d as int));
        }
        rows = next;
        d = d + 1;
    }
    assert(dims.deep_view().take(dims.len() as int) =~= dims.deep_view());
    rows
}

/// Spreading `rows` over `values` gives one row for each pair of a row and
/// a value, and the row at index `i` is made of the row at `i / n` and the
/// value at `i % n`, where `n` is the number of values: the values vary
/// fastest.
pub proof fn extend_index(rows: Seq<Seq<Seq<char>>>, values: Seq<Seq<char>>, i: int)
    requires
        0 <= i < rows.len() * values.len(),
    ensures
        extend(rows, values).len() == rows.len() * values.len(),
        values.len() > 0,
        0 <= i / (values.len() as int) < rows.len(),
        extend(rows, values)[i] == rows[i / (values.len() as int)].push(
            values[i % (values.len() as int)],
        ),
    decreases rows.len(),
{
    let n = values.len() as int;
    let k = rows.len() as int;
    assert(n > 0 && k > 0) by (nonlinear_arith)
        requires
            0 <= i < k * n,
            0 <= n,
            0 <= k,
    ;
    let init = rows.drop_last();
    extend_len(init, values);
    extend_len(rows, values);
    assert((k - 1) * n + n == k * n) by (nonlinear_arith);
    if i < (k - 1) * n {
        extend_index(init, values, i);
    } else {
        let j = i - (k - 1) * n;
        lemma_fundamental_div_mod_converse(i, n, k - 1, j);
    }
}

/// Spreading `rows` over `values` gives as many rows as there are pairs of
/// a row and a value.
pub proof fn extend_len(rows: Seq<Seq<Seq<char>>>, values: Seq<Seq<char>>)
    ensures
        extend(rows, values).len() == rows.len() * values.len(),
    decreases rows.len(),
{
    let n = values.len() as int;
    let k = rows.len() as int;
    if k == 0 {
        assert(0 * n == 0) by (nonlinear_arith);
    } else {
        extend_len(rows.drop_last(), values);
        assert((k - 1) * n + n == k * n) by (nonlinear_arith);
    }
}

/// There are as many combinations as the product of the numbers of values
/// of the dimensions.
pub proof fn product_len(dims: Seq<Seq<Seq<char>>>)
    ensures
        product(dims).len() == row_count(dims),
    decreases dims.len(),
{
    if dims.len() > 0 {
        product_len(dims.drop_last());
        extend_len(product(dims.drop_last()), dims.last());
    }
}

/// The combination at index `i` is the combination of all dimensions but
/// the last at index `i / n`, followed by the value of the last dimension
/// at index `i % n`, where `n` is the number of values of the last
/// dimension. So the last dimension varies fastest.
pub proof fn product_index(dims: Seq<Seq<Seq<char>>>, i: int)
    requires
        dims.len() > 0,
        0 <= i < product(dims).len(),
    ensures
        dims.last().len() > 0,
        0 <= i / (dims.last().len() as int) < product(dims.drop_last()).len(),
        product(dims)[i] == product(dims.drop_last())[i / (dims.last().len() as int)].push(
            dims.last()[i % (dims.last().len() as int)],
        ),
{
    extend_len(product(dims.drop_last()), dims.last());
    extend_index(product(dims.drop_last()), dims.last(), i);
}

/// Every combination holds one value for each dimension.
pub proof fn product_row_len(dims: Seq<Seq<Seq<char>>>, i: int)
    requires
        0 <= i < product(dims).len(),
    ensures
        product(dims)[i].len() == dims.len(),
    decreases dims.len(),
{
    if dims.len() > 0 {
        product_index(dims, i);
        product_row_len(dims.drop_last(), i / (dims.last().len() as int));
    }
}

} // verus!
