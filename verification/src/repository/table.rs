//! The table as the repository sees it: rows keyed by a string attribute,
//! with the five things that can be asked of it.

use vstd::prelude::*;
use crate::item::{AttributeValue, AttributeValueView, Item};

verus! {

/// An item as a mathematical value: a map from attribute names to values.
pub type ItemView = Map<Seq<char>, AttributeValueView>;

/// The name of the key attribute.
pub open spec fn key_name() -> Seq<char> {
    "id"@
}

/// The key of `item`: its string attribute `id`, if it has one.
pub open spec fn key_of(item: ItemView) -> Option<Seq<char>> {
    if item.contains_key(key_name()) {
        match item[key_name()] {
            AttributeValueView::S(key) => Some(key),
            _ => None,
        }
    } else {
        None
    }
}

/// Whether some row has the key `id`.
pub open spec fn has_key(rows: Seq<ItemView>, id: Seq<char>) -> bool {
    exists|i: int| 0 <= i < rows.len() && key_of(#[trigger] rows[i]) == Some(id)
}

/// The position of a row with the key `id`, where there is one.
pub open spec fn index_of(rows: Seq<ItemView>, id: Seq<char>) -> int {
    choose|i: int| 0 <= i < rows.len() && key_of(#[trigger] rows[i]) == Some(id)
}

/// What a table's rows always are: each has a key, and no two share one.
pub open spec fn rows_well_formed(rows: Seq<ItemView>) -> bool {
    &&& forall|i: int| 0 <= i < rows.len() ==> key_of(#[trigger] rows[i]) is Some
    &&& forall|i: int, j: int|
        0 <= i < j < rows.len() ==> key_of(#[trigger] rows[i]) != key_of(#[trigger] rows[j])
}

/// How many rows a read with the limit `limit` gives at most.
pub open spec fn capped(limit: int, available: int) -> int {
    if limit <= 0 {
        0
    } else if limit < available {
        limit
    } else {
        available
    }
}

/// The rows that a scan with the limit `limit` gives: the first ones, in the
/// table's order.
pub open spec fn rows_scanned(rows: Seq<ItemView>, limit: int) -> Seq<ItemView> {
    rows.take(capped(limit, rows.len() as int))
}

/// The rows that a query for the key `id` with the limit `limit` gives.
pub open spec fn rows_queried(rows: Seq<ItemView>, id: Seq<char>, limit: int) -> Seq<ItemView> {
    if has_key(rows, id) && limit >= 1 {
        seq![rows[index_of(rows, id)]]
    } else {
        Seq::empty()
    }
}

/// The rows after `item` was put: it stands in place of the row with its
/// key, or at the end where no row had that key.
pub open spec fn rows_after_put(rows: Seq<ItemView>, item: ItemView) -> Seq<ItemView> {
    let id = key_of(item)->0;
    if has_key(rows, id) {
        rows.update(index_of(rows, id), item)
    } else {
        rows.push(item)
    }
}

/// The item with only the key `id`.
pub open spec fn key_item(id: Seq<char>) -> ItemView {
    Map::<Seq<char>, AttributeValueView>::empty().insert(key_name(), AttributeValueView::S(id))
}

/// The rows after the attributes of `changes` were set on the row with the
/// key `id`. Where no row has that key, a new row is made of the key and the
/// changes alone.
pub open spec fn rows_after_update(rows: Seq<ItemView>, id: Seq<char>, changes: ItemView) -> Seq<
    ItemView,
> {
    if has_key(rows, id) {
        let at = index_of(rows, id);
        rows.update(at, rows[at].union_prefer_right(changes))
    } else {
        rows.push(key_item(id).union_prefer_right(changes))
    }
}

/// The rows after the row with the key `id` was deleted, if there was one.
pub open spec fn rows_after_delete(rows: Seq<ItemView>, id: Seq<char>) -> Seq<ItemView> {
    if has_key(rows, id) {
        rows.remove(index_of(rows, id))
    } else {
        rows
    }
}

/// The views of a list of items, in order.
pub open spec fn item_views(items: Seq<Item>) -> Seq<ItemView> {
    Seq::new(items.len(), |i: int| items[i]@)
}

/// In well-formed rows a key is found at one position only.
pub proof fn lemma_index_unique(rows: Seq<ItemView>, id: Seq<char>, at: int)
    requires
        rows_well_formed(rows),
        0 <= at < rows.len(),
        key_of(rows[at]) == Some(id),
    ensures
        has_key(rows, id),
        index_of(rows, id) == at,
{
    let found = index_of(rows, id);
    if found < at {
        assert(key_of(rows[found]) != key_of(rows[at]));
    } else if at < found {
        assert(key_of(rows[at]) != key_of(rows[found]));
    }
}

/// Putting an item that has a key keeps the rows well-formed, and the item
/// is then the row with its key.
pub proof fn lemma_put(rows: Seq<ItemView>, item: ItemView)
    requires
        rows_well_formed(rows),
        key_of(item) is Some,
    ensures
        rows_well_formed(rows_after_put(rows, item)),
        has_key(rows_after_put(rows, item), key_of(item)->0),
        rows_after_put(rows, item)[index_of(rows_after_put(rows, item), key_of(item)->0)] == item,
        forall|other: Seq<char>, limit: int|
            other != key_of(item)->0 ==> #[trigger] rows_queried(
                rows_after_put(rows, item),
                other,
                limit,
            ) == rows_queried(rows, other, limit),
{
    let id = key_of(item)->0;
    let after = rows_after_put(rows, item);
    let at = if has_key(rows, id) {
        index_of(rows, id)
    } else {
        rows.len() as int
    };
    assert(after[at] == item);
    assert forall|i: int| 0 <= i < after.len() && i != at implies #[trigger] after[i] == rows[i]
        && key_of(rows[i]) != Some(id) by {
        if has_key(rows, id) {
            if i < at {
                assert(key_of(rows[i]) != key_of(rows[at]));
            } else {
                assert(key_of(rows[at]) != key_of(rows[i]));
            }
        }
    }
    assert forall|i: int, j: int| 0 <= i < j < after.len() implies key_of(#[trigger] after[i])
        != key_of(#[trigger] after[j]) by {
        if i != at && j != at {
            assert(key_of(rows[i]) != key_of(rows[j]));
        }
    }
    assert forall|i: int| 0 <= i < after.len() implies key_of(#[trigger] after[i]) is Some by {
        if i != at {
            assert(key_of(rows[i]) is Some);
        }
    }
    lemma_index_unique(after, id, at);
    assert forall|other: Seq<char>, limit: int| other != id implies #[trigger] rows_queried(
        after,
        other,
        limit,
    ) == rows_queried(rows, other, limit) by {
        if has_key(rows, other) {
            let i = index_of(rows, other);
            assert(i != at);
            assert(after[i] == rows[i]);
            lemma_index_unique(after, other, i);
        } else if has_key(after, other) {
            let i = index_of(after, other);
            assert(i != at);
            assert(after[i] == rows[i]);
            assert(false);
        }
    }
}

/// Deleting a key keeps the rows well-formed and leaves no row with that key.
pub proof fn lemma_delete(rows: Seq<ItemView>, id: Seq<char>)
    requires
        rows_well_formed(rows),
    ensures
        rows_well_formed(rows_after_delete(rows, id)),
        !has_key(rows_after_delete(rows, id), id),
{
    let after = rows_after_delete(rows, id);
    if has_key(rows, id) {
        let at = index_of(rows, id);
        assert forall|i: int| 0 <= i < after.len() implies #[trigger] after[i] == rows[if i < at {
            i
        } else {
            i + 1
        }] by {}
        assert forall|i: int| 0 <= i < after.len() implies key_of(#[trigger] after[i]) is Some
            && key_of(after[i]) != Some(id) by {
            let k = if i < at {
                i
            } else {
                i + 1
            };
            assert(after[i] == rows[k]);
            assert(key_of(rows[k]) is Some);
            if k < at {
                assert(key_of(rows[k]) != key_of(rows[at]));
            } else {
                assert(key_of(rows[at]) != key_of(rows[k]));
            }
        }
        assert forall|i: int, j: int| 0 <= i < j < after.len() implies key_of(
            #[trigger] after[i],
        ) != key_of(#[trigger] after[j]) by {
            let ki = if i < at {
                i
            } else {
                i + 1
            };
            let kj = if j < at {
                j
            } else {
                j + 1
            };
            assert(after[i] == rows[ki]);
            assert(after[j] == rows[kj]);
            assert(key_of(rows[ki]) != key_of(rows[kj]));
        }
    }
}

/// Setting attributes other than the key keeps the rows well-formed, and the
/// changed row is then the row with the key `id`.
pub proof fn lemma_update(rows: Seq<ItemView>, id: Seq<char>, changes: ItemView)
    requires
        rows_well_formed(rows),
        !changes.contains_key(key_name()),
    ensures
        rows_well_formed(rows_after_update(rows, id, changes)),
        has_key(rows_after_update(rows, id, changes), id),
        rows_after_update(rows, id, changes)[index_of(rows_after_update(rows, id, changes), id)]
            == (if has_key(rows, id) {
            rows[index_of(rows, id)]
        } else {
            key_item(id)
        }).union_prefer_right(changes),
{
    let after = rows_after_update(rows, id, changes);
    let at = if has_key(rows, id) {
        index_of(rows, id)
    } else {
        rows.len() as int
    };
    assert(key_of(after[at]) == Some(id));
    assert forall|i: int| 0 <= i < after.len() && i != at implies #[trigger] after[i] == rows[i]
        && key_of(rows[i]) != Some(id) by {
        if has_key(rows, id) {
            if i < at {
                assert(key_of(rows[i]) != key_of(rows[at]));
            } else {
                assert(key_of(rows[at]) != key_of(rows[i]));
            }
        }
    }
    assert forall|i: int, j: int| 0 <= i < j < after.len() implies key_of(#[trigger] after[i])
        != key_of(#[trigger] after[j]) by {
        if i != at && j != at {
            assert(key_of(rows[i]) != key_of(rows[j]));
        }
    }
    assert forall|i: int| 0 <= i < after.len() implies key_of(#[trigger] after[i]) is Some by {
        if i != at {
            assert(key_of(rows[i]) is Some);
        }
    }
    lemma_index_unique(after, id, at);
}

/// The key of `item`, if it has one.
fn key_text(item: &Item) -> (key: Option<&String>)
    ensures
        match key {
            Some(text) => key_of(item@) == Some(text@),
            None => key_of(item@) is None,
        },
{
    match item.get("id") {
        Some(value) => value.as_s(),
        None => None,
    }
}

/// A table held in memory: rows in the order in which a scan gives them.
#[derive(Debug)]
pub struct Table {
    items: Vec<Item>,
}

impl Table {
    /// The rows, in scan order.
    pub closed spec fn rows(&self) -> Seq<ItemView> {
        item_views(self.items@)
    }

    /// Whether every row has a key and no two rows share one.
    pub open spec fn well_formed(&self) -> bool {
        rows_well_formed(self.rows())
    }

    /// A table without rows.
    pub fn new() -> (table: Table)
        ensures
            table.rows() == Seq::<ItemView>::empty(),
            table.well_formed(),
    {
        let table = Table { items: Vec::new() };
        assert(table.rows() =~= Seq::<ItemView>::empty());
        table
    }

    /// The number of rows.
    pub fn len(&self) -> (n: usize)
        ensures
            n == self.rows().len(),
    {
        self.items.len()
    }

    /// Where the row with the key `id` stands, if there is one.
    fn position(&self, id: &str) -> (found: Option<usize>)
        requires
            self.well_formed(),
        ensures
            match found {
                Some(at) => at < self.items.len() && has_key(self.rows(), id@) && index_of(
                    self.rows(),
                    id@,
                ) == at,
                None => !has_key(self.rows(), id@),
            },
    {
        let wanted = String::from_str(id);
        let mut i: usize = 0;
        while i < self.items.len()
            invariant
                i <= self.items.len(),
                self.well_formed(),
                wanted@ == id@,
                forall|j: int| 0 <= j < i ==> key_of(#[trigger] self.rows()[j]) != Some(id@),
            decreases self.items.len() - i,
        {
            let matches = match key_text(&self.items[i]) {
                Some(key) => *key == wanted,
                None => false,
            };
            assert(self.rows()[i as int] == self.items@[i as int]@);
            if matches {
                proof {
                    lemma_index_unique(self.rows(), id@, i as int);
                }
                return Some(i);
            }
            i += 1;
        }
        None
    }

    /// Reads rows from the start of the table, `limit` of them at most.
    pub fn scan(&self, limit: i32) -> (items: Vec<Item>)
        ensures
            item_views(items@) == rows_scanned(self.rows(), limit as int),
    {
        let mut items: Vec<Item> = Vec::new();
        let mut i: usize = 0;
        while i < self.items.len() && limit > 0 && i < limit as usize
            invariant
                i <= self.items.len(),
                i <= capped(limit as int, self.items.len() as int),
                items@.len() == i,
                item_views(items@) == self.rows().take(i as int),
            decreases self.items.len() - i,
        {
            let ghost before = items@;
            let copy = self.items[i].clone();
            items.push(copy);
            i += 1;
            assert forall|j: int| 0 <= j < i implies item_views(items@)[j] == self.rows()[j] by {
                if j < i - 1 {
                    assert(item_views(before)[j] == self.rows().take(i - 1)[j]);
                    assert(items@[j] == before[j]);
                } else {
                    assert(items@[j] == copy);
                    assert(self.rows()[j] == self.items@[j]@);
                }
            }
            assert(item_views(items@) =~= self.rows().take(i as int));
        }
        items
    }

    /// Reads the rows with the key `id`, `limit` of them at most.
    pub fn query(&self, id: &str, limit: i32) -> (items: Vec<Item>)
        requires
            self.well_formed(),
        ensures
            item_views(items@) == rows_queried(self.rows(), id@, limit as int),
    {
        let mut items: Vec<Item> = Vec::new();
        if limit >= 1 {
            match self.position(id) {
                Some(at) => {
                    items.push(self.items[at].clone());
                },
                None => {},
            }
        }
        assert(item_views(items@) =~= rows_queried(self.rows(), id@, limit as int));
        items
    }

    /// Writes `item` under its key, in place of the row that had that key.
    /// An item without a key is refused, and the table stays as it was.
    pub fn put_item(&mut self, item: Item) -> (r: Result<(), String>)
        requires
            old(self).well_formed(),
        ensures
            final(self).well_formed(),
            r is Ok <==> key_of(item@) is Some,
            r is Ok ==> final(self).rows() == rows_after_put(old(self).rows(), item@),
            r is Err ==> final(self).rows() == old(self).rows(),
    {
        let id = match key_text(&item) {
            Some(key) => key.clone(),
            None => {
                return Err(String::from_str("the item has no key"));
            },
        };
        proof {
            lemma_put(self.rows(), item@);
        }
        match self.position(id.as_str()) {
            Some(at) => {
                self.items.set(at, item);
            },
            None => {
                self.items.push(item);
            },
        }
        assert(self.rows() =~= rows_after_put(old(self).rows(), item@));
        Ok(())
    }

    /// Sets the attributes of `changes` on the row with the key `id`; where
    /// no row has that key, makes a row of the key and the changes. Changes
    /// that name the key attribute are refused, and the table stays as it was.
    pub fn update_item(&mut self, id: &str, changes: &Item) -> (r: Result<(), String>)
        requires
            old(self).well_formed(),
        ensures
            final(self).well_formed(),
            r is Ok <==> !changes@.contains_key(key_name()),
            r is Ok ==> final(self).rows() == rows_after_update(old(self).rows(), id@, changes@),
            r is Err ==> final(self).rows() == old(self).rows(),
    {
        if changes.get("id").is_some() {
            return Err(String::from_str("the key cannot be changed"));
        }
        proof {
            lemma_update(self.rows(), id@, changes@);
        }
        match self.position(id) {
            Some(at) => {
                let mut row = self.items[at].clone();
                row.merge(changes);
                self.items.set(at, row);
            },
            None => {
                let mut row = Item::new();
                row.insert(String::from_str("id"), AttributeValue::S(String::from_str(id)));
                row.merge(changes);
                self.items.push(row);
            },
        }
        assert(self.rows() =~= rows_after_update(old(self).rows(), id@, changes@));
        Ok(())
    }

    /// Removes the row with the key `id`. Where no row has that key, nothing
    /// changes.
    pub fn delete_item(&mut self, id: &str)
        requires
            old(self).well_formed(),
        ensures
            final(self).well_formed(),
            final(self).rows() == rows_after_delete(old(self).rows(), id@),
    {
        proof {
            lemma_delete(self.rows(), id@);
        }
        match self.position(id) {
            Some(at) => {
                self.items.remove(at);
            },
            None => {},
        }
        assert(self.rows() =~= rows_after_delete(old(self).rows(), id@));
    }
}

} // verus!
