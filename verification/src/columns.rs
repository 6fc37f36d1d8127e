//! Column widths: one pass over the header and every row.

use crate::width::{display_width, text_width};
use vstd::prelude::*;

verus! {

/// Number of columns of a table: the header's field count, or without a header
/// that of the first row.
pub open spec fn column_count(header: Option<Seq<Seq<char>>>, rows: Seq<Seq<Seq<char>>>) -> nat {
    match header {
        Some(h) => h.len(),
        None => if rows.len() > 0 {
            rows[0].len()
        } else {
            0
        },
    }
}

/// Every row has as many fields as the table has columns.
pub open spec fn uniform(header: Option<Seq<Seq<char>>>, rows: Seq<Seq<Seq<char>>>) -> bool {
    forall|r: int| 0 <= r < rows.len() ==> (#[trigger] rows[r]).len() == column_count(header, rows)
}

/// Width of the header's cell in column `j`; 0 without a header.
pub open spec fn header_width(header: Option<Seq<Seq<char>>>, j: int) -> nat {
    match header {
        Some(h) => text_width(h[j]),
        None => 0,
    }
}

/// Widest cell of column `j` among the header and the first `n` rows.
pub open spec fn widest(
    header: Option<Seq<Seq<char>>>,
    rows: Seq<Seq<Seq<char>>>,
    n: nat,
    j: int,
) -> nat
    decreases n,
{
    if n == 0 {
        header_width(header, j)
    } else {
        let before = widest(header, rows, (n - 1) as nat, j);
        let here = text_width(rows[n - 1][j]);
        if here > before {
            here
        } else {
            before
        }
    }
}

/// Width of column `j`: the widest of its cells, header included.
pub open spec fn column_width(
    header: Option<Seq<Seq<char>>>,
    rows: Seq<Seq<Seq<char>>>,
    j: int,
) -> nat {
    widest(header, rows, rows.len(), j)
}

/// The width of every column, in order.
pub open spec fn table_widths(header: Option<Seq<Seq<char>>>, rows: Seq<Seq<Seq<char>>>) -> Seq<
    nat,
> {
    Seq::new(column_count(header, rows), |j: int| column_width(header, rows, j))
}

/// Widths as mathematical numbers.
pub open spec fn nats(widths: Seq<usize>) -> Seq<nat> {
    Seq::new(widths.len(), |j: int| widths[j] as nat)
}

/// `widest` is no smaller than the header's cell and than each row it covers,
/// and it is the width of one of them.
pub proof fn lemma_widest_is_max(
    header: Option<Seq<Seq<char>>>,
    rows: Seq<Seq<Seq<char>>>,
    n: nat,
    j: int,
)
    ensures
        header_width(header, j) <= widest(header, rows, n, j),
        forall|r: int| 0 <= r < n ==> text_width(#[trigger] rows[r][j]) <= widest(header, rows, n, j),
        widest(header, rows, n, j) == header_width(header, j) || exists|r: int|
            0 <= r < n && widest(header, rows, n, j) == text_width(#[trigger] rows[r][j]),
    decreases n,
{
    if n > 0 {
        lemma_widest_is_max(header, rows, (n - 1) as nat, j);
        let before = widest(header, rows, (n - 1) as nat, j);
        if widest(header, rows, n, j) != header_width(header, j) {
            if text_width(rows[n - 1][j]) > before {
                assert(widest(header, rows, n, j) == text_width(rows[n - 1][j]));
            } else {
                let r = choose|r: int| 0 <= r < n - 1 && before == text_width(#[trigger] rows[r][j]);
                assert(widest(header, rows, n, j) == text_width(rows[r][j]));
            }
        }
    }
}

/// Index of the first row whose field count differs from the column count.
pub fn first_uneven_row(header: &Option<Vec<String>>, rows: &Vec<Vec<String>>) -> (found: Option<
    usize,
>)
    ensures
        found is None <==> uniform(header.deep_view(), rows.deep_view()),
        found matches Some(r) ==> r < rows.len() && rows.deep_view()[r as int].len()
            != column_count(header.deep_view(), rows.deep_view()) && forall|i: int|
            0 <= i < r ==> (#[trigger] rows.deep_view()[i]).len() == column_count(
                header.deep_view(),
                rows.deep_view(),
            ),
{
    let k = match header {
        Some(h) => h.len(),
        None => if rows.len() > 0 {
            rows[0].len()
        } else {
            0
        },
    };
    let mut r: usize = 0;
    while r < rows.len()
        invariant
            r <= rows.len(),
            k == column_count(header.deep_view(), rows.deep_view()),
            forall|i: int|
                0 <= i < r ==> (#[trigger] rows.deep_view()[i]).len() == column_count(
                    header.deep_view(),
                    rows.deep_view(),
                ),
        decreases rows.len() - r,
    {
        if rows[r].len() != k {
            assert(rows.deep_view()[r as int].len() != k);
            return Some(r);
        }
        r += 1;
    }
    None
}

/// Computes the width of every column in one pass over the header and the
/// rows: starts from the header's cell widths, or from zeros without a header,
/// and keeps the running maximum.
pub fn column_widths(header: &Option<Vec<String>>, rows: &Vec<Vec<String>>) -> (widths: Vec<usize>)
    requires
        uniform(header.deep_view(), rows.deep_view()),
    ensures
        nats(widths@) == table_widths(header.deep_view(), rows.deep_view()),
{
    let ghost h = header.deep_view();
    let ghost t = rows.deep_view();
    let mut widths: Vec<usize> = Vec::new();
    match header {
        Some(cells) => {
            let mut j: usize = 0;
            while j < cells.len()
                invariant
                    j <= cells.len(),
                    *header == Some(*cells),
                    h == header.deep_view(),
                    widths.len() == j,
                    forall|i: int| 0 <= i < j ==> widths[i] as nat == header_width(h, i),
                decreases cells.len() - j,
            {
                widths.push(display_width(cells[j].as_str()));
                j += 1;
            }
        },
        None => {
            if rows.len() > 0 {
                let mut j: usize = 0;
                while j < rows[0].len()
                    invariant
                        rows.len() > 0,
                        j <= rows[0].len(),
                        *header == None::<Vec<String>>,
                        h == header.deep_view(),
                        widths.len() == j,
                        forall|i: int| 0 <= i < j ==> widths[i] as nat == header_width(h, i),
                    decreases rows[0].len() - j,
                {
                    widths.push(0);
                    j += 1;
                }
            }
        },
    }
    let k = widths.len();
    assert(k == column_count(h, t));
    let mut r: usize = 0;
    while r < rows.len()
        invariant
            r <= rows.len(),
            h == header.deep_view(),
            t == rows.deep_view(),
            uniform(h, t),
            k == column_count(h, t),
            widths.len() == k,
            forall|i: int| 0 <= i < k ==> widths[i] as nat == widest(h, t, r as nat, i),
        decreases rows.len() - r,
    {
        let record = &rows[r];
        assert(t[r as int].len() == k);
        let mut j: usize = 0;
        while j < k
            invariant
                j <= k,
                r < rows.len(),
                *record == rows[r as int],
                h == header.deep_view(),
                t == rows.deep_view(),
                record.len() == k,
                widths.len() == k,
                forall|i: int| 0 <= i < j ==> widths[i] as nat == widest(h, t, (r + 1) as nat, i),
                forall|i: int| j <= i < k ==> widths[i] as nat == widest(h, t, r as nat, i),
            decreases k - j,
        {
            let here = display_width(record[j].as_str());
            assert(here == text_width(t[r as int][j as int]));
            if here > widths[j] {
                widths.set(j, here);
            }
            j += 1;
        }
        r += 1;
    }
    assert(nats(widths@) =~= table_widths(h, t));
    widths
}

} // verus!
