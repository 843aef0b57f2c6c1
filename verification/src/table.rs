//! The rating table: every known player with the current rating.

use vstd::prelude::*;
use crate::failure::Failure;
use crate::rating::Rating;
use crate::text::same_text;

verus! {

/// What a list of entries says, entry by entry: the identifier as text and the
/// rating.
pub open spec fn rows_of(entries: Seq<(String, Rating)>) -> Seq<(Seq<char>, Rating)> {
    Seq::new(entries.len(), |i: int| (entries[i].0@, entries[i].1))
}

/// Whether some row carries the identifier.
pub open spec fn has_id(rows: Seq<(Seq<char>, Rating)>, id: Seq<char>) -> bool {
    exists|i: int| 0 <= i < rows.len() && (#[trigger] rows[i]).0 == id
}

/// Whether no identifier occurs in two rows.
pub open spec fn ids_distinct(rows: Seq<(Seq<char>, Rating)>) -> bool {
    forall|i: int, j: int|
        0 <= i < j < rows.len() ==> (#[trigger] rows[i]).0 != (#[trigger] rows[j]).0
}

/// The place of a row that carries the identifier.
pub open spec fn index_of(rows: Seq<(Seq<char>, Rating)>, id: Seq<char>) -> int {
    choose|i: int| 0 <= i < rows.len() && (#[trigger] rows[i]).0 == id
}

/// The rows read as a mapping from identifier to rating.
pub open spec fn as_map(rows: Seq<(Seq<char>, Rating)>) -> Map<Seq<char>, Rating> {
    Map::new(|id: Seq<char>| has_id(rows, id), |id: Seq<char>| rows[index_of(rows, id)].1)
}

/// Among rows with distinct identifiers, each row is the one its identifier
/// leads to.
pub proof fn lemma_row_in_map(rows: Seq<(Seq<char>, Rating)>, i: int)
    requires
        ids_distinct(rows),
        0 <= i < rows.len(),
    ensures
        has_id(rows, rows[i].0),
        index_of(rows, rows[i].0) == i,
        as_map(rows).contains_pair(rows[i].0, rows[i].1),
{
    let j = index_of(rows, rows[i].0);
    assert(0 <= j < rows.len() && rows[j].0 == rows[i].0);
    if j < i {
        assert(rows[j].0 != rows[i].0);
    } else if i < j {
        assert(rows[i].0 != rows[j].0);
    }
}

/// A row with a new identifier, placed anywhere among rows with distinct
/// identifiers, adds exactly its own pair to the mapping.
pub proof fn lemma_insert_row(rows: Seq<(Seq<char>, Rating)>, at: int, row: (Seq<char>, Rating))
    requires
        ids_distinct(rows),
        !has_id(rows, row.0),
        0 <= at <= rows.len(),
    ensures
        ids_distinct(rows.insert(at, row)),
        as_map(rows.insert(at, row)) == as_map(rows).insert(row.0, row.1),
{
    let grown = rows.insert(at, row);
    assert forall|i: int, j: int| 0 <= i < j < grown.len() implies (#[trigger] grown[i]).0 != (
    #[trigger] grown[j]).0 by {
        let oi = if i < at { i } else { i - 1 };
        let oj = if j < at { j } else { j - 1 };
        if i == at {
            assert(rows[oj].0 != row.0);
        } else if j == at {
            assert(rows[oi].0 != row.0);
        } else {
            assert(rows[oi].0 != rows[oj].0);
        }
    }
    assert forall|id: Seq<char>| has_id(grown, id) <==> (id == row.0 || has_id(rows, id)) by {
        if has_id(grown, id) {
            let i = index_of(grown, id);
            if i < at {
                assert(rows[i].0 == id);
            } else if i > at {
                assert(rows[i - 1].0 == id);
            }
        }
        if id == row.0 {
            assert(grown[at].0 == id);
        }
        if has_id(rows, id) {
            let i = index_of(rows, id);
            if i < at {
                assert(grown[i].0 == id);
            } else {
                assert(grown[i + 1].0 == id);
            }
        }
    }
    assert forall|id: Seq<char>| has_id(grown, id) implies #[trigger] as_map(grown)[id] == as_map(
        rows,
    ).insert(row.0, row.1)[id] by {
        let i = index_of(grown, id);
        lemma_row_in_map(grown, i);
        if i < at {
            assert(rows[i] == grown[i]);
            lemma_row_in_map(rows, i);
        } else if i > at {
            assert(rows[i - 1] == grown[i]);
            lemma_row_in_map(rows, i - 1);
        }
    }
    assert(as_map(grown) =~= as_map(rows).insert(row.0, row.1));
}

/// Giving the row of an identifier a new rating changes exactly that pair of
/// the mapping.
pub proof fn lemma_update_row(rows: Seq<(Seq<char>, Rating)>, at: int, rating: Rating)
    requires
        ids_distinct(rows),
        0 <= at < rows.len(),
    ensures
        ids_distinct(rows.update(at, (rows[at].0, rating))),
        as_map(rows.update(at, (rows[at].0, rating))) == as_map(rows).insert(rows[at].0, rating),
{
    let id = rows[at].0;
    let changed = rows.update(at, (id, rating));
    assert forall|i: int, j: int| 0 <= i < j < changed.len() implies (#[trigger] changed[i]).0 != (
    #[trigger] changed[j]).0 by {
        assert(rows[i].0 != rows[j].0);
    }
    assert forall|other: Seq<char>| has_id(changed, other) <==> has_id(rows, other) by {
        if has_id(changed, other) {
            let i = index_of(changed, other);
            assert(rows[i].0 == other);
        }
        if has_id(rows, other) {
            let i = index_of(rows, other);
            assert(changed[i].0 == other);
        }
    }
    assert(rows[at].0 == id);
    assert forall|other: Seq<char>| has_id(changed, other) implies #[trigger] as_map(changed)[other]
        == as_map(rows).insert(id, rating)[other] by {
        let i = index_of(changed, other);
        lemma_row_in_map(changed, i);
        if i != at {
            assert(rows[i] == changed[i]);
            lemma_row_in_map(rows, i);
        }
    }
    assert(as_map(changed) =~= as_map(rows).insert(id, rating));
}

/// The rows after a player has been given a rating: the row of a known
/// player changes where it stands, a new player goes to the end.
pub open spec fn entered(rows: Seq<(Seq<char>, Rating)>, id: Seq<char>, rating: Rating) -> Seq<
    (Seq<char>, Rating),
> {
    if has_id(rows, id) {
        rows.update(index_of(rows, id), (id, rating))
    } else {
        rows.push((id, rating))
    }
}

/// The rows that come of entering the given rows one after the other into an
/// empty table.
pub open spec fn entered_all(rows: Seq<(Seq<char>, Rating)>) -> Seq<(Seq<char>, Rating)>
    decreases rows.len(),
{
    if rows.len() == 0 {
        Seq::empty()
    } else {
        entered(entered_all(rows.drop_last()), rows.last().0, rows.last().1)
    }
}

/// The mapping that comes of entering the rows one after the other, a later
/// row replacing an earlier one with the same identifier.
pub open spec fn collect(rows: Seq<(Seq<char>, Rating)>) -> Map<Seq<char>, Rating>
    decreases rows.len(),
{
    if rows.len() == 0 {
        Map::empty()
    } else {
        collect(rows.drop_last()).insert(rows.last().0, rows.last().1)
    }
}

/// Rows with distinct identifiers, entered one after the other, give the
/// mapping that the rows are.
pub proof fn lemma_collect_distinct(rows: Seq<(Seq<char>, Rating)>)
    requires
        ids_distinct(rows),
    ensures
        collect(rows) == as_map(rows),
    decreases rows.len(),
{
    if rows.len() == 0 {
        assert(as_map(rows) =~= Map::<Seq<char>, Rating>::empty());
    } else {
        let init = rows.drop_last();
        let last = rows.last();
        assert forall|i: int, j: int| 0 <= i < j < init.len() implies (#[trigger] init[i]).0 != (
        #[trigger] init[j]).0 by {
            assert(rows[i].0 != rows[j].0);
        }
        if has_id(init, last.0) {
            let i = index_of(init, last.0);
            assert(rows[i].0 != rows[rows.len() - 1].0);
        }
        lemma_collect_distinct(init);
        lemma_insert_row(init, init.len() as int, last);
        assert(init.insert(init.len() as int, last) =~= rows);
    }
}

/// All known players, each with the current rating. No identifier occurs
/// twice.
pub struct RatingTable {
    entries: Vec<(String, Rating)>,
}

/// Rows with distinct identifiers, entered one after the other into an
/// empty table, stand there as they were given.
pub proof fn lemma_entered_all_distinct(rows: Seq<(Seq<char>, Rating)>)
    requires
        ids_distinct(rows),
    ensures
        entered_all(rows) == rows,
    decreases rows.len(),
{
    if rows.len() == 0 {
        assert(rows =~= Seq::<(Seq<char>, Rating)>::empty());
    } else {
        let init = rows.drop_last();
        let last = rows.last();
        assert forall|i: int, j: int| 0 <= i < j < init.len() implies (#[trigger] init[i]).0 != (
        #[trigger] init[j]).0 by {
            assert(rows[i].0 != rows[j].0);
        }
        if has_id(init, last.0) {
            let i = index_of(init, last.0);
            assert(rows[i].0 != rows[rows.len() - 1].0);
        }
        lemma_entered_all_distinct(init);
        assert(init.push(last) =~= rows);
    }
}

/// A table built again from its own entries is the same table: the same
/// players with the same ratings, in the same order.
pub proof fn lemma_rebuilt_from_entries(table: RatingTable)
    requires
        table.wf(),
    ensures
        collect(table.rows()) == table@,
        entered_all(table.rows()) == table.rows(),
{
    lemma_collect_distinct(table.rows());
    lemma_entered_all_distinct(table.rows());
}

impl View for RatingTable {
    type V = Map<Seq<char>, Rating>;

    /// The table as a mapping from identifier to rating.
    open spec fn view(&self) -> Map<Seq<char>, Rating> {
        as_map(self.rows())
    }
}

impl RatingTable {
    /// The rows of the table in the order in which the players were added.
    pub closed spec fn rows(&self) -> Seq<(Seq<char>, Rating)> {
        rows_of(self.entries@)
    }

    /// The invariant of the table: no identifier occurs in two rows.
    pub open spec fn wf(&self) -> bool {
        ids_distinct(self.rows())
    }

    /// The empty table.
    pub fn new() -> (table: RatingTable)
        ensures
            table.wf(),
            table.rows() == Seq::<(Seq<char>, Rating)>::empty(),
            table@ == Map::<Seq<char>, Rating>::empty(),
    {
        let table = RatingTable { entries: Vec::new() };
        proof {
            assert(table.rows() =~= Seq::<(Seq<char>, Rating)>::empty());
            assert(table@ =~= Map::<Seq<char>, Rating>::empty());
        }
        table
    }

    /// The table that comes of entering the entries one after the other.
    /// Where an identifier occurs more than once, its last rating stays.
    pub fn from_entries(entries: &Vec<(String, Rating)>) -> (table: RatingTable)
        ensures
            table.wf(),
            table@ == collect(rows_of(entries@)),
            table.rows() == entered_all(rows_of(entries@)),
    {
        let ghost rows = rows_of(entries@);
        let mut table = RatingTable::new();
        let mut i: usize = 0;
        while i < entries.len()
            invariant
                rows == rows_of(entries@),
                i <= entries.len(),
                table.wf(),
                table@ == collect(rows.take(i as int)),
                table.rows() == entered_all(rows.take(i as int)),
            decreases entries.len() - i,
        {
            proof {
                let upto = rows.take(i as int + 1);
                assert(upto.drop_last() =~= rows.take(i as int));
                assert(upto.last() == rows[i as int]);
            }
            table.set_rating(entries[i].0.clone(), entries[i].1);
            i += 1;
        }
        proof {
            assert(rows.take(i as int) =~= rows);
        }
        table
    }

    /// The number of players.
    pub fn len(&self) -> (n: usize)
        ensures
            n == self.rows().len(),
    {
        self.entries.len()
    }

    /// The place of the player in the table, if the player is known.
    fn position(&self, id: &str) -> (r: Option<usize>)
        ensures
            match r {
                Some(i) => i < self.rows().len() && self.rows()[i as int].0 == id@,
                None => !has_id(self.rows(), id@),
            },
    {
        let mut i: usize = 0;
        while i < self.entries.len()
            invariant
                i <= self.entries.len(),
                forall|k: int| 0 <= k < i ==> (#[trigger] self.rows()[k]).0 != id@,
            decreases self.entries.len() - i,
        {
            if same_text(self.entries[i].0.as_str(), id) {
                return Some(i);
            }
            i += 1;
        }
        None
    }

    /// Tells whether the player is known.
    pub fn contains(&self, id: &str) -> (r: bool)
        ensures
            r == self@.contains_key(id@),
    {
        self.position(id).is_some()
    }

    /// Adds a new player with the initial rating. An identifier that is
    /// already in the table is refused and the table stays as it was.
    pub fn create_player(&mut self, id: String) -> (r: Result<(), Failure>)
        requires
            old(self).wf(),
        ensures
            final(self).wf(),
            r is Ok <==> !old(self)@.contains_key(id@),
            r is Ok ==> final(self)@ == old(self)@.insert(id@, Rating::initial())
                && final(self).rows() == old(self).rows().push((id@, Rating::initial())),
            r is Err ==> r == Err::<(), Failure>(Failure::DuplicateIdentifier) && *final(self) == *old(
                self,
            ),
    {
        match self.position(id.as_str()) {
            Some(_) => Err(Failure::DuplicateIdentifier),
            None => {
                proof {
                    lemma_insert_row(
                        self.rows(),
                        self.rows().len() as int,
                        (id@, Rating::initial()),
                    );
                    assert(self.rows().insert(self.rows().len() as int, (id@, Rating::initial()))
                        =~= self.rows().push((id@, Rating::initial())));
                }
                self.entries.push((id, Rating::initial()));
                proof {
                    assert(self.rows() =~= old(self).rows().push((id@, Rating::initial())));
                }
                Ok(())
            },
        }
    }

    /// The rating of a player.
    pub fn get_rating(&self, id: &str) -> (r: Result<Rating, Failure>)
        requires
            self.wf(),
        ensures
            match r {
                Ok(rating) => self@.contains_pair(id@, rating),
                Err(e) => !self@.contains_key(id@) && e == Failure::UnknownIdentifier(None),
            },
    {
        match self.position(id) {
            Some(i) => {
                proof {
                    lemma_row_in_map(self.rows(), i as int);
                }
                Ok(self.entries[i].1)
            },
            None => Err(Failure::UnknownIdentifier(None)),
        }
    }

    /// Gives the player the rating, whether or not the player was known
    /// before.
    pub fn set_rating(&mut self, id: String, rating: Rating)
        requires
            old(self).wf(),
        ensures
            final(self).wf(),
            final(self)@ == old(self)@.insert(id@, rating),
            final(self).rows() == entered(old(self).rows(), id@, rating),
    {
        match self.position(id.as_str()) {
            Some(i) => {
                proof {
                    lemma_update_row(self.rows(), i as int, rating);
                    lemma_row_in_map(self.rows(), i as int);
                }
                self.entries.set(i, (id, rating));
                proof {
                    assert(self.rows() =~= old(self).rows().update(i as int, (id@, rating)));
                }
            },
            None => {
                proof {
                    lemma_insert_row(self.rows(), self.rows().len() as int, (id@, rating));
                    assert(self.rows().insert(self.rows().len() as int, (id@, rating))
                        =~= self.rows().push((id@, rating)));
                }
                self.entries.push((id, rating));
                proof {
                    assert(self.rows() =~= old(self).rows().push((id@, rating)));
                }
            },
        }
    }

    /// Every player with the rating, in the order in which they were added.
    pub fn all_entries(&self) -> (entries: Vec<(String, Rating)>)
        ensures
            rows_of(entries@) == self.rows(),
    {
        let mut out: Vec<(String, Rating)> = Vec::new();
        let mut i: usize = 0;
        while i < self.entries.len()
            invariant
                i <= self.entries.len(),
                rows_of(out@) == self.rows().take(i as int),
            decreases self.entries.len() - i,
        {
            let ghost before = rows_of(out@);
            let id = self.entries[i].0.clone();
            let rating = self.entries[i].1;
            out.push((id, rating));
            proof {
                assert(rows_of(out@) =~= before.push((id@, rating)));
                assert(self.rows()[i as int] == (id@, rating));
                assert(self.rows().take(i as int + 1) =~= self.rows().take(i as int).push(
                    self.rows()[i as int],
                ));
            }
            i += 1;
        }
        proof {
            assert(self.rows().take(i as int) =~= self.rows());
        }
        out
    }
}

} // verus!
