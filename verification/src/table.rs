//! The shape of what is shown: which columns of a table carry anything,
//! which personal bests are announced, and how the announcement is laid out.

use crate::pb::PbMetricInfo;
use crate::text::{rows_view, texts_view};
use vstd::prelude::*;
use vstd::string::StringExecFns;

verus! {

/// Whether a cell shows nothing: it is empty or holds the placeholder, a
/// single hyphen.
pub open spec fn spec_cell_empty(value: Seq<char>) -> bool {
    value.len() == 0 || value == "-"@
}

/// Whether a cell shows nothing.
pub fn is_cell_empty(value: &str) -> (r: bool)
    ensures
        r == spec_cell_empty(value@),
{
    value.is_empty() || String::from_str(value) == String::from_str("-")
}

/// Whether some row shows something in column `c`.
pub open spec fn spec_column_used(rows: Seq<Vec<String>>, c: int) -> bool {
    exists|r: int|
        0 <= r < rows.len() && c < (#[trigger] rows[r])@.len() && !spec_cell_empty(rows[r]@[c]@)
}

/// Whether one of the first `n` rows shows something in column `c`.
pub open spec fn spec_column_used_upto(rows: Seq<Vec<String>>, c: int, n: int) -> bool {
    exists|r: int|
        0 <= r < n && c < (#[trigger] rows[r])@.len() && !spec_cell_empty(rows[r]@[c]@)
}

/// The cells among the first `n` of `cells` whose column is kept, in order.
pub open spec fn spec_kept_cells(cells: Seq<String>, keep: Seq<bool>, n: int) -> Seq<Seq<char>>
    decreases n,
{
    if n <= 0 {
        Seq::empty()
    } else if n - 1 < keep.len() && keep[n - 1] {
        spec_kept_cells(cells, keep, n - 1).push(cells[n - 1]@)
    } else {
        spec_kept_cells(cells, keep, n - 1)
    }
}

/// The first `n` rows cut to the kept columns, a row that keeps no cell
/// left out.
pub open spec fn spec_kept_rows(rows: Seq<Vec<String>>, keep: Seq<bool>, n: int) -> Seq<
    Seq<Seq<char>>,
>
    decreases n,
{
    if n <= 0 {
        Seq::empty()
    } else {
        let cut = spec_kept_cells(rows[n - 1]@, keep, rows[n - 1]@.len() as int);
        if cut.len() > 0 {
            spec_kept_rows(rows, keep, n - 1).push(cut)
        } else {
            spec_kept_rows(rows, keep, n - 1)
        }
    }
}

/// A table as it is to be drawn.
#[derive(Clone, Debug, PartialEq, Eq)]
pub struct TableLayout {
    /// Whether to say that data was found but every column is empty.
    pub all_columns_empty: bool,
    pub headers: Vec<String>,
    pub rows: Vec<Vec<String>>,
}

/// Whether `layout` is how the table of `headers` and `rows` is drawn. A
/// table without rows shows its headers alone. A table whose rows show
/// nothing in any column shows its headers alone and says so. Any other
/// table shows the columns in which some row shows something.
pub open spec fn is_layout_of(layout: TableLayout, headers: Seq<String>, rows: Seq<Vec<String>>)
    -> bool {
    let keep = Seq::new(headers.len(), |c: int| spec_column_used(rows, c));
    if rows.len() == 0 {
        &&& !layout.all_columns_empty
        &&& texts_view(layout.headers@) == texts_view(headers)
        &&& layout.rows@.len() == 0
    } else if forall|c: int| 0 <= c < headers.len() ==> !spec_column_used(rows, c) {
        &&& layout.all_columns_empty
        &&& texts_view(layout.headers@) == texts_view(headers)
        &&& layout.rows@.len() == 0
    } else {
        &&& !layout.all_columns_empty
        &&& texts_view(layout.headers@) == spec_kept_cells(headers, keep, headers.len() as int)
        &&& rows_view(layout.rows@) == spec_kept_rows(rows, keep, rows.len() as int)
    }
}

/// For each of `columns` columns, whether some row shows something in it.
pub fn used_columns(columns: usize, rows: &Vec<Vec<String>>) -> (r: Vec<bool>)
    ensures
        r@ == Seq::new(columns as nat, |c: int| spec_column_used(rows@, c)),
{
    let mut keep: Vec<bool> = Vec::new();
    let mut c: usize = 0;
    while c < columns
        invariant
            0 <= c <= columns,
            keep@.len() == c,
            forall|k: int| 0 <= k < c ==> #[trigger] keep@[k] == spec_column_used(rows@, k),
        decreases columns - c,
    {
        let mut used = false;
        let mut r: usize = 0;
        while r < rows.len() && !used
            invariant
                0 <= r <= rows.len(),
                used ==> spec_column_used(rows@, c as int),
                !used ==> !spec_column_used_upto(rows@, c as int, r as int),
            decreases rows.len() - r + if used { 0int } else { 1int },
        {
            if c < rows[r].len() && !is_cell_empty(rows[r][c].as_str()) {
                used = true;
            }
            r = r + 1;
        }
        keep.push(used);
        c = c + 1;
    }
    assert(keep@ =~= Seq::new(columns as nat, |c: int| spec_column_used(rows@, c)));
    keep
}

/// The cells of a row whose column is kept, in order.
pub fn kept_cells(cells: &Vec<String>, keep: &Vec<bool>) -> (r: Vec<String>)
    ensures
        texts_view(r@) == spec_kept_cells(cells@, keep@, cells.len() as int),
{
    let mut out: Vec<String> = Vec::new();
    let mut c: usize = 0;
    while c < cells.len()
        invariant
            0 <= c <= cells.len(),
            texts_view(out@) == spec_kept_cells(cells@, keep@, c as int),
        decreases cells.len() - c,
    {
        if c < keep.len() && keep[c] {
            let ghost before = out@;
            out.push(cells[c].clone());
            assert(texts_view(out@) =~= texts_view(before).push(cells@[c as int]@));
        }
        c = c + 1;
    }
    out
}

/// A copy of a list of texts.
fn copy_texts(texts: &Vec<String>) -> (r: Vec<String>)
    ensures
        texts_view(r@) == texts_view(texts@),
{
    let mut out: Vec<String> = Vec::new();
    let mut i: usize = 0;
    while i < texts.len()
        invariant
            0 <= i <= texts.len(),
            out@.len() == i,
            forall|k: int| 0 <= k < i ==> (#[trigger] out@[k])@ == texts@[k]@,
        decreases texts.len() - i,
    {
        out.push(texts[i].clone());
        i = i + 1;
    }
    assert(texts_view(out@) =~= texts_view(texts@));
    out
}

/// Lays a table out for drawing: the columns in which no row shows anything
/// are left out, headers and cells alike.
pub fn layout_table(headers: &Vec<String>, rows: &Vec<Vec<String>>) -> (r: TableLayout)
    ensures
        is_layout_of(r, headers@, rows@),
{
    if rows.len() == 0 {
        return TableLayout {
            all_columns_empty: false,
            headers: copy_texts(headers),
            rows: Vec::new(),
        };
    }
    let keep = used_columns(headers.len(), rows);
    let mut any = false;
    let mut c: usize = 0;
    while c < keep.len()
        invariant
            0 <= c <= keep.len(),
            any == exists|k: int| 0 <= k < c && #[trigger] keep@[k],
        decreases keep.len() - c,
    {
        if keep[c] {
            any = true;
        }
        c = c + 1;
    }
    if !any {
        assert forall|c: int| 0 <= c < headers.len() implies !spec_column_used(rows@, c) by {
            assert(!keep@[c]);
        }
        return TableLayout {
            all_columns_empty: true,
            headers: copy_texts(headers),
            rows: Vec::new(),
        };
    }
    proof {
        let k = choose|k: int| 0 <= k < keep@.len() && #[trigger] keep@[k];
        assert(spec_column_used(rows@, k));
    }
    let shown_headers = kept_cells(headers, &keep);
    let mut shown: Vec<Vec<String>> = Vec::new();
    let mut r: usize = 0;
    while r < rows.len()
        invariant
            0 <= r <= rows.len(),
            rows_view(shown@) == spec_kept_rows(rows@, keep@, r as int),
        decreases rows.len() - r,
    {
        let cut = kept_cells(&rows[r], &keep);
        if cut.len() > 0 {
            let ghost before = shown@;
            shown.push(cut);
            assert(rows_view(shown@) =~= rows_view(before).push(texts_view(cut@)));
        }
        r = r + 1;
    }
    TableLayout { all_columns_empty: false, headers: shown_headers, rows: shown }
}

/// The pair to announce for a metric: the new value and the previous best,
/// an absent one standing as zero. A best is announced where it was achieved
/// and the metric's notification is on, unless the value only repeats a
/// previous best.
pub open spec fn spec_display_pb(info: PbMetricInfo<i64>, notify_enabled: bool) -> Option<
    (i64, i64),
> {
    let new_value = match info.new_value {
        Some(v) => v,
        None => 0,
    };
    let previous = match info.previous_value {
        Some(v) => v,
        None => 0,
    };
    if info.achieved && notify_enabled && (new_value != previous || info.previous_value is None) {
        Some((new_value, previous))
    } else {
        None
    }
}

/// The pair to announce for a metric, if any.
pub fn should_display_pb(info: &PbMetricInfo<i64>, notify_enabled: bool) -> (r: Option<(i64, i64)>)
    ensures
        r == spec_display_pb(*info, notify_enabled),
{
    if info.achieved && notify_enabled {
        let new_value = match info.new_value {
            Some(v) => v,
            None => 0,
        };
        let previous = match info.previous_value {
            Some(v) => v,
            None => 0,
        };
        if new_value != previous || info.previous_value.is_none() {
            Some((new_value, previous))
        } else {
            None
        }
    } else {
        None
    }
}

/// The measures of the box drawn round an announcement, in characters.
#[derive(Clone, Copy, Debug, PartialEq, Eq, Structural)]
pub struct BannerLayout {
    /// The width between the side borders' padding.
    pub box_width: usize,
    /// The length of the top and bottom line.
    pub line_width: usize,
    /// The blanks before the title.
    pub title_padding_left: usize,
    /// The blanks after the title.
    pub title_padding_right: usize,
}

/// The greatest of the first `n` lengths, or zero where there is none.
pub open spec fn spec_longest(lengths: Seq<usize>, n: int) -> int
    decreases n,
{
    if n <= 0 {
        0
    } else if lengths[n - 1] > spec_longest(lengths, n - 1) {
        lengths[n - 1] as int
    } else {
        spec_longest(lengths, n - 1)
    }
}

/// A length brought into the range of `usize`.
pub open spec fn cap(x: int) -> int {
    if x > usize::MAX {
        usize::MAX as int
    } else {
        x
    }
}

/// The box for messages of the given lengths under a title of
/// `title_width` characters: wide enough for the longest message and two
/// blanks, and at least 25; the title centred, the odd blank to its right.
pub open spec fn spec_banner(title_width: int, lengths: Seq<usize>) -> BannerLayout {
    let widest = cap(spec_longest(lengths, lengths.len() as int) + 2);
    let box_width = if widest > 25 {
        widest
    } else {
        25
    };
    let left = (box_width - title_width) / 2;
    BannerLayout {
        box_width: box_width as usize,
        line_width: cap(box_width + 2) as usize,
        title_padding_left: left as usize,
        title_padding_right: (box_width - title_width - left) as usize,
    }
}

/// Lays out the box round an announcement, or nothing where there is no
/// message to announce. The title must fit the box, which a title of up to
/// 25 characters always does.
pub fn banner_layout(title_width: usize, lengths: &Vec<usize>) -> (r: Option<BannerLayout>)
    requires
        lengths.len() > 0 ==> title_width <= spec_banner(0, lengths@).box_width,
    ensures
        r == if lengths.len() == 0 {
            None
        } else {
            Some(spec_banner(title_width as int, lengths@))
        },
{
    if lengths.len() == 0 {
        return None;
    }
    let mut longest: usize = 0;
    let mut i: usize = 0;
    while i < lengths.len()
        invariant
            0 <= i <= lengths.len(),
            longest == spec_longest(lengths@, i as int),
        decreases lengths.len() - i,
    {
        if lengths[i] > longest {
            longest = lengths[i];
        }
        i = i + 1;
    }
    let widest = longest.saturating_add(2);
    let box_width = if widest > 25 {
        widest
    } else {
        25
    };
    let left = (box_width - title_width) / 2;
    Some(
        BannerLayout {
            box_width,
            line_width: box_width.saturating_add(2),
            title_padding_left: left,
            title_padding_right: box_width - title_width - left,
        },
    )
}

} // verus!
