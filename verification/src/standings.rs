//! The standings: the players from the highest rating down.

use vstd::prelude::*;
use vstd::string::*;
use vstd::utf8::*;
use crate::rating::Rating;
use crate::table::{as_map, has_id, ids_distinct, index_of, lemma_insert_row, lemma_row_in_map, rows_of, RatingTable};
use crate::text::{
    comes_before, lemma_bytes_before_asymmetric, lemma_bytes_before_total,
    lemma_bytes_before_transitive, lemma_encoding_injective, text_before,
};

verus! {

/// Whether row `a` stands above row `b`: the higher rating first, and of two
/// players with the same rating the one whose identifier comes first.
pub open spec fn ranks_above(a: (Seq<char>, Rating), b: (Seq<char>, Rating)) -> bool {
    a.1.rank() > b.1.rank() || (a.1.rank() == b.1.rank() && text_before(a.0, b.0))
}

/// Whether every row stands above all rows after it.
pub open spec fn in_standing_order(rows: Seq<(Seq<char>, Rating)>) -> bool {
    forall|i: int, j: int| 0 <= i < j < rows.len() ==> ranks_above(rows[i], rows[j])
}

/// The length in bytes of the longest identifier, 0 where there is no row.
pub open spec fn widest_id(rows: Seq<(Seq<char>, Rating)>) -> nat
    decreases rows.len(),
{
    if rows.len() == 0 {
        0
    } else {
        let rest = widest_id(rows.drop_last());
        let last = encode_utf8(rows.last().0).len();
        if last > rest {
            last
        } else {
            rest
        }
    }
}

/// The number of tab stops between the start of a line and the rating
/// column: one more than the number of whole stops of eight bytes that the
/// longest identifier fills.
pub open spec fn tab_stops(rows: Seq<(Seq<char>, Rating)>) -> nat {
    widest_id(rows) / 8 + 1
}

/// Standing above is transitive.
pub proof fn lemma_ranks_above_transitive(
    a: (Seq<char>, Rating),
    b: (Seq<char>, Rating),
    c: (Seq<char>, Rating),
)
    requires
        ranks_above(a, b),
        ranks_above(b, c),
    ensures
        ranks_above(a, c),
{
    if a.1.rank() == b.1.rank() && b.1.rank() == c.1.rank() {
        lemma_bytes_before_transitive(encode_utf8(a.0), encode_utf8(b.0), encode_utf8(c.0));
    }
}

/// Of two rows with different identifiers exactly one stands above the other.
pub proof fn lemma_ranks_above_total(a: (Seq<char>, Rating), b: (Seq<char>, Rating))
    requires
        a.0 != b.0,
    ensures
        ranks_above(a, b) != ranks_above(b, a),
{
    if a.1.rank() == b.1.rank() {
        if encode_utf8(a.0) == encode_utf8(b.0) {
            lemma_encoding_injective(a.0, b.0);
        }
        lemma_bytes_before_total(encode_utf8(a.0), encode_utf8(b.0));
        if text_before(a.0, b.0) {
            lemma_bytes_before_asymmetric(encode_utf8(a.0), encode_utf8(b.0));
        }
    }
}

/// The standings of a table are unique: two lists in standing order that hold
/// the same players with the same ratings are the same list.
pub proof fn lemma_standings_unique(x: Seq<(Seq<char>, Rating)>, y: Seq<(Seq<char>, Rating)>)
    requires
        ids_distinct(x),
        ids_distinct(y),
        as_map(x) == as_map(y),
        in_standing_order(x),
        in_standing_order(y),
    ensures
        x == y,
    decreases x.len(),
{
    if x.len() == 0 {
        if y.len() > 0 {
            lemma_row_in_map(y, 0);
            assert(as_map(x).contains_key(y[0].0));
        }
        assert(x =~= y);
    } else {
        lemma_row_in_map(x, 0);
        assert(as_map(y).contains_pair(x[0].0, x[0].1));
        let k = index_of(y, x[0].0);
        lemma_row_in_map(y, k);
        assert(y[k] == x[0]);
        lemma_row_in_map(y, 0);
        let m = index_of(x, y[0].0);
        lemma_row_in_map(x, m);
        assert(x[m] == y[0]);
        if k > 0 {
            // y[0] stands above y[k] == x[0], and x[0] stands above x[m] == y[0]
            assert(ranks_above(y[0], y[k]));
            assert(m != 0);
            assert(ranks_above(x[0], x[m]));
            lemma_ranks_above_total(x[0], y[0]);
        }
        assert(x[0] == y[0]);
        let xs = x.drop_first();
        let ys = y.drop_first();
        assert(x =~= xs.insert(0, x[0]));
        assert(y =~= ys.insert(0, y[0]));
        assert(ids_distinct(xs)) by {
            assert forall|i: int, j: int| 0 <= i < j < xs.len() implies (#[trigger] xs[i]).0 != (
            #[trigger] xs[j]).0 by {
                assert(x[i + 1].0 != x[j + 1].0);
            }
        }
        assert(ids_distinct(ys)) by {
            assert forall|i: int, j: int| 0 <= i < j < ys.len() implies (#[trigger] ys[i]).0 != (
            #[trigger] ys[j]).0 by {
                assert(y[i + 1].0 != y[j + 1].0);
            }
        }
        assert(!has_id(xs, x[0].0)) by {
            if has_id(xs, x[0].0) {
                let i = index_of(xs, x[0].0);
                assert(x[0].0 != x[i + 1].0);
            }
        }
        assert(!has_id(ys, y[0].0)) by {
            if has_id(ys, y[0].0) {
                let i = index_of(ys, y[0].0);
                assert(y[0].0 != y[i + 1].0);
            }
        }
        lemma_insert_row(xs, 0, x[0]);
        lemma_insert_row(ys, 0, y[0]);
        assert(as_map(xs) =~= as_map(x).remove(x[0].0));
        assert(as_map(ys) =~= as_map(y).remove(y[0].0));
        assert(in_standing_order(xs)) by {
            assert forall|i: int, j: int| 0 <= i < j < xs.len() implies ranks_above(
                xs[i],
                xs[j],
            ) by {
                assert(ranks_above(x[i + 1], x[j + 1]));
            }
        }
        assert(in_standing_order(ys)) by {
            assert forall|i: int, j: int| 0 <= i < j < ys.len() implies ranks_above(
                ys[i],
                ys[j],
            ) by {
                assert(ranks_above(y[i + 1], y[j + 1]));
            }
        }
        lemma_standings_unique(xs, ys);
    }
}

/// Tells whether entry `a` stands above entry `b`.
pub fn stands_above(a: &(String, Rating), b: &(String, Rating)) -> (r: bool)
    ensures
        r == ranks_above((a.0@, a.1), (b.0@, b.1)),
{
    if a.1.exceeds(b.1) {
        true
    } else if a.1.ties_with(b.1) {
        comes_before(a.0.as_str(), b.0.as_str())
    } else {
        false
    }
}

/// Puts entries with distinct identifiers in standing order.
pub fn arrange(entries: &Vec<(String, Rating)>) -> (sorted: Vec<(String, Rating)>)
    requires
        ids_distinct(rows_of(entries@)),
    ensures
        ids_distinct(rows_of(sorted@)),
        as_map(rows_of(sorted@)) == as_map(rows_of(entries@)),
        in_standing_order(rows_of(sorted@)),
        sorted@.len() == entries@.len(),
{
    let ghost rows = rows_of(entries@);
    let mut out: Vec<(String, Rating)> = Vec::new();
    let mut k: usize = 0;
    proof {
        assert(as_map(rows_of(out@)) =~= as_map(rows.take(0)));
    }
    while k < entries.len()
        invariant
            rows == rows_of(entries@),
            ids_distinct(rows),
            k <= entries.len(),
            out@.len() == k,
            ids_distinct(rows_of(out@)),
            ids_distinct(rows.take(k as int)),
            as_map(rows_of(out@)) == as_map(rows.take(k as int)),
            in_standing_order(rows_of(out@)),
        decreases entries.len() - k,
    {
        let entry = (entries[k].0.clone(), entries[k].1);
        let ghost row = (entry.0@, entry.1);
        let ghost placed = rows_of(out@);
        proof {
            assert(row == rows[k as int]);
            // the identifier is new to what has been placed so far
            if has_id(rows.take(k as int), row.0) {
                let i = index_of(rows.take(k as int), row.0);
                assert(rows.take(k as int)[i] == rows[i]);
                assert(rows[i].0 != rows[k as int].0);
            }
            assert(as_map(placed).contains_key(row.0) == as_map(rows.take(k as int)).contains_key(
                row.0,
            ));
            assert(!has_id(placed, row.0));
        }
        let mut p: usize = 0;
        while p < out.len() && !stands_above(&entry, &out[p])
            invariant
                p <= out.len(),
                placed == rows_of(out@),
                row == (entry.0@, entry.1),
                !has_id(placed, row.0),
                forall|q: int| 0 <= q < p ==> ranks_above(#[trigger] placed[q], row),
            decreases out.len() - p,
        {
            proof {
                assert(placed[p as int] == (out@[p as int].0@, out@[p as int].1));
                assert(placed[p as int].0 != row.0);
                lemma_ranks_above_total(row, placed[p as int]);
            }
            p += 1;
        }
        proof {
            if p < out.len() {
                assert(placed[p as int] == (out@[p as int].0@, out@[p as int].1));
                assert(ranks_above(row, placed[p as int]));
            }
            lemma_insert_row(placed, p as int, row);
            lemma_insert_row(rows.take(k as int), k as int, row);
            assert(rows.take(k as int).insert(k as int, row) =~= rows.take(k as int + 1));
        }
        out.insert(p, entry);
        proof {
            let grown = rows_of(out@);
            assert(grown =~= placed.insert(p as int, row));
            assert forall|i: int, j: int| 0 <= i < j < grown.len() implies ranks_above(
                grown[i],
                grown[j],
            ) by {
                if j == p {
                    assert(ranks_above(placed[i], row));
                } else if i == p {
                    assert(ranks_above(row, placed[p as int]));
                    if j - 1 > p {
                        assert(ranks_above(placed[p as int], placed[j - 1]));
                        lemma_ranks_above_transitive(row, placed[p as int], placed[j - 1]);
                    }
                } else {
                    let oi = if i < p { i } else { i - 1 };
                    let oj = if j < p { j } else { j - 1 };
                    assert(ranks_above(placed[oi], placed[oj]));
                }
            }
        }
        k += 1;
    }
    proof {
        assert(rows.take(k as int) =~= rows);
    }
    out
}

/// Counts the tab stops that put the rating column behind the longest
/// identifier.
pub fn column_tabs(entries: &Vec<(String, Rating)>) -> (tabs: usize)
    ensures
        tabs == tab_stops(rows_of(entries@)),
{
    let ghost rows = rows_of(entries@);
    let mut widest: usize = 0;
    let mut k: usize = 0;
    while k < entries.len()
        invariant
            rows == rows_of(entries@),
            k <= entries.len(),
            widest == widest_id(rows.take(k as int)),
        decreases entries.len() - k,
    {
        let id = entries[k].0.as_str();
        let n = id.as_bytes().len();
        proof {
            let upto = rows.take(k as int + 1);
            assert(upto.drop_last() =~= rows.take(k as int));
            assert(upto.last() == rows[k as int]);
            assert(rows[k as int].0 == entries@[k as int].0@);
            assert(n == id.spec_bytes().len());
            assert(n == encode_utf8(rows[k as int].0).len());
        }
        if n > widest {
            widest = n;
        }
        k += 1;
    }
    proof {
        assert(rows.take(k as int) =~= rows);
    }
    widest / 8 + 1
}

impl RatingTable {
    /// The players from the highest rating down; players with the same rating
    /// in the order of their identifiers.
    pub fn standings(&self) -> (list: Vec<(String, Rating)>)
        requires
            self.wf(),
        ensures
            ids_distinct(rows_of(list@)),
            as_map(rows_of(list@)) == self@,
            in_standing_order(rows_of(list@)),
            list@.len() == self.rows().len(),
    {
        let entries = self.all_entries();
        arrange(&entries)
    }
}

} // verus!
