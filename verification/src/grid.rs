//! Tables already flattened into rows of cell texts, and the header tests
//! that recognise a table by the words in its first rows.
use vstd::prelude::*;

use crate::text::{chars_of, contains, contains_chars, contains_str, join_chars, join_with, views};

verus! {

/// The cells of `rows`, row after row.
pub open spec fn cells_of(rows: Seq<Seq<Seq<char>>>) -> Seq<Seq<char>>
    decreases rows.len(),
{
    if rows.len() == 0 {
        Seq::<Seq<char>>::empty()
    } else {
        cells_of(rows.drop_last()) + rows.last()
    }
}

/// The cells of the first `k` rows (all rows when there are fewer), as characters.
pub fn leading_cells(rows: &[Vec<String>], k: usize) -> (cells: Vec<Vec<char>>)
    ensures
        views(cells@) == cells_of(rows.deep_view().take(
            if k <= rows@.len() {
                k as int
            } else {
                rows@.len() as int
            },
        )),
{
    let n = if k <= rows.len() {
        k
    } else {
        rows.len()
    };
    let ghost dv = rows.deep_view();
    let mut cells: Vec<Vec<char>> = Vec::new();
    let mut r: usize = 0;
    while r < n
        invariant
            n <= rows@.len(),
            r <= n,
            dv == rows.deep_view(),
            views(cells@) == cells_of(dv.take(r as int)),
        decreases n - r,
    {
        let row = &rows[r];
        let ghost before_row = views(cells@);
        let mut c: usize = 0;
        while c < row.len()
            invariant
                n <= rows@.len(),
                r < n,
                dv == rows.deep_view(),
                row == rows@[r as int],
                c <= row@.len(),
                views(cells@) == before_row + dv[r as int].take(c as int),
            decreases row@.len() - c,
        {
            let ghost before = cells@;
            let cell = chars_of(row[c].as_str());
            cells.push(cell);
            proof {
                assert(dv[r as int] == row.deep_view());
                assert(dv[r as int][c as int] == row@[c as int]@);
                assert(views(cells@) =~= views(before).push(cell@));
                assert(dv[r as int].take(c as int + 1) =~= dv[r as int].take(c as int).push(
                    row@[c as int]@,
                ));
                assert(views(cells@) =~= before_row + dv[r as int].take(c as int + 1));
            }
            c += 1;
        }
        proof {
            assert(dv[r as int].len() == row@.len());
            assert(dv[r as int].take(c as int) =~= dv[r as int]);
            assert(dv.take(r as int + 1).drop_last() =~= dv.take(r as int));
        }
        r += 1;
    }
    cells
}

/// The first `k` rows' cells joined with single spaces.
pub open spec fn leading_haystack(rows: Seq<Seq<Seq<char>>>, k: int) -> Seq<char> {
    join_with(cells_of(rows.take(if k <= rows.len() { k } else { rows.len() as int })), seq![' '])
}

pub fn leading_text(rows: &[Vec<String>], k: usize) -> (r: Vec<char>)
    ensures
        r@ == leading_haystack(rows.deep_view(), k as int),
{
    let cells = leading_cells(rows, k);
    let sep = [' '];
    assert(sep@ == seq![' ']);
    join_chars(&cells, sep.as_slice())
}

/// A route table: its first three rows name the branch point, the route and
/// the movement condition.
pub open spec fn is_route_table(rows: Seq<Seq<Seq<char>>>) -> bool {
    let hay = leading_haystack(rows, 3);
    contains(hay, "分岐点"@) && contains(hay, "ルート"@) && contains(hay, "移動条件"@)
}

pub fn is_route_table_rows(rows: &[Vec<String>]) -> (b: bool)
    ensures
        b == is_route_table(rows.deep_view()),
{
    let hay = leading_text(rows, 3);
    contains_str(hay.as_slice(), "分岐点") && contains_str(hay.as_slice(), "ルート")
        && contains_str(hay.as_slice(), "移動条件")
}

/// The enemy classes a drop table names in its header rows.
pub open spec fn drop_table_classes() -> Seq<Seq<char>> {
    seq!["戦艦級"@, "航空母艦"@, "重巡級"@, "軽巡級"@, "駆逐艦"@, "海防艦"@, "潜水艦"@, "補助艦艇"@]
}

/// Some cell contains `word`.
pub open spec fn some_cell_contains(cells: Seq<Seq<char>>, word: Seq<char>) -> bool {
    exists|i: int| 0 <= i < cells.len() && contains(#[trigger] cells[i], word)
}

/// How many of `words` some cell contains.
pub open spec fn count_found(words: Seq<Seq<char>>, cells: Seq<Seq<char>>) -> nat
    decreases words.len(),
{
    if words.len() == 0 {
        0
    } else {
        count_found(words.drop_last(), cells) + if some_cell_contains(cells, words.last()) {
            1nat
        } else {
            0nat
        }
    }
}

/// A drop table: its first two rows name at least two enemy classes.
pub open spec fn is_drop_table(rows: Seq<Seq<Seq<char>>>) -> bool {
    count_found(drop_table_classes(), cells_of(rows.take(if 2 <= rows.len() { 2 } else { rows.len() as int }))) >= 2
}

fn any_cell_contains(cells: &Vec<Vec<char>>, word: &[char]) -> (b: bool)
    ensures
        b == some_cell_contains(views(cells@), word@),
{
    let mut i: usize = 0;
    while i < cells.len()
        invariant
            i <= cells@.len(),
            forall|j: int| 0 <= j < i ==> !contains(#[trigger] views(cells@)[j], word@),
        decreases cells@.len() - i,
    {
        if contains_chars(cells[i].as_slice(), word) {
            assert(contains(views(cells@)[i as int], word@));
            return true;
        }
        i += 1;
    }
    false
}

pub fn is_drop_table_rows(rows: &[Vec<String>]) -> (b: bool)
    ensures
        b == is_drop_table(rows.deep_view()),
{
    let cells = leading_cells(rows, 2);
    let classes: [&str; 8] = ["戦艦級", "航空母艦", "重巡級", "軽巡級", "駆逐艦", "海防艦", "潜水艦", "補助艦艇"];
    let ghost words = drop_table_classes();
    let mut found: usize = 0;
    let mut k: usize = 0;
    while k < 8
        invariant
            k <= 8,
            found == count_found(words.take(k as int), views(cells@)),
            found <= k,
            words == drop_table_classes(),
            forall|j: int| 0 <= j < 8 ==> (#[trigger] classes@[j])@ == words[j],
        decreases 8 - k,
    {
        assert(words.take(k as int + 1).drop_last() =~= words.take(k as int));
        let w = chars_of(classes[k]);
        if any_cell_contains(&cells, w.as_slice()) {
            found += 1;
        }
        k += 1;
    }
    assert(words.take(8) =~= words);
    found >= 2
}

/// The first three rows, joined, contain every one of `headers`.
pub open spec fn has_headers(rows: Seq<Seq<Seq<char>>>, headers: Seq<Seq<char>>) -> bool {
    forall|k: int| 0 <= k < headers.len() ==> contains(leading_haystack(rows, 3), #[trigger] headers[k])
}

/// Whether a table's first three rows name every header.
pub fn table_has_headers(rows: &[Vec<String>], headers: &[&str]) -> (b: bool)
    ensures
        b == has_headers(rows.deep_view(), headers@.map_values(|h: &str| h@)),
{
    let hay = leading_text(rows, 3);
    let ghost hv = headers@.map_values(|h: &str| h@);
    let mut k: usize = 0;
    while k < headers.len()
        invariant
            k <= headers@.len(),
            hay@ == leading_haystack(rows.deep_view(), 3),
            hv == headers@.map_values(|h: &str| h@),
            forall|j: int| 0 <= j < k ==> contains(hay@, #[trigger] hv[j]),
        decreases headers@.len() - k,
    {
        if !contains_str(hay.as_slice(), headers[k]) {
            assert(!contains(hay@, hv[k as int]));
            return false;
        }
        k += 1;
    }
    true
}

} // verus!
