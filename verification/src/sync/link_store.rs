//! The entity link store: an indirection table from every entity id that was
//! ever observed to the id it currently stands for.
//!
//! Normalized rows never name an entity by its raw id; they name the
//! canonical id that the store resolves it to. A merge of two entities only
//! rewrites this table, and every later resolution sees the result.
//!
//! The store is described twice: as the sequence of its rows, in the order
//! in which ids were first observed, and as the map from id to canonical id
//! that those rows stand for. Operations are stated on both.

use vstd::prelude::*;
use crate::seq_util::lemma_filter_take_step;

verus! {

/// An entity id, as contracts see it.
pub type Id = Seq<char>;

/// The mapping that a link store stands for: each observed id with its
/// canonical id.
pub type LinkMap = Map<Id, Id>;

/// Every canonical id is itself observed and is its own canonical id, so a
/// resolution never follows more than one link.
pub open spec fn well_linked(m: LinkMap) -> bool {
    forall|x: Id| #[trigger]
        m.dom().contains(x) ==> m.dom().contains(m[x]) && m[m[x]] == m[x]
}

/// The id that `x` stands for. An id that was never observed stands for
/// itself.
pub open spec fn canonical(m: LinkMap, x: Id) -> Id {
    if m.dom().contains(x) {
        m[x]
    } else {
        x
    }
}

/// The mapping after `x` was observed: a first-seen id becomes its own
/// canonical id, a known one changes nothing.
pub open spec fn observed(m: LinkMap, x: Id) -> LinkMap {
    if m.dom().contains(x) {
        m
    } else {
        m.insert(x, x)
    }
}

/// Every link that points at `from` now points at `to`.
pub open spec fn repointed(m: LinkMap, from: Id, to: Id) -> LinkMap {
    Map::new(
        |x: Id| m.dom().contains(x),
        |x: Id|
            if m[x] == from {
                to
            } else {
                m[x]
            },
    )
}

/// A merge rewrites links exactly when the two ids differ, something still
/// resolves to `delete`, and `keep` does not itself resolve to `delete`.
pub open spec fn merge_applies(m: LinkMap, keep: Id, delete: Id) -> bool {
    &&& keep != delete
    &&& canonical(m, delete) == delete
    &&& canonical(m, keep) != delete
}

/// The mapping after the merge of `delete` into `keep`.
///
/// Both ids are observed first. If `delete` is still canonical, every link
/// that points at it is repointed to what `keep` resolves to. A merge of an
/// id into itself changes nothing at all.
pub open spec fn merged(m: LinkMap, keep: Id, delete: Id) -> LinkMap {
    if keep == delete {
        m
    } else {
        let seen = observed(observed(m, keep), delete);
        if merge_applies(m, keep, delete) {
            repointed(seen, delete, seen[keep])
        } else {
            seen
        }
    }
}

/// How a merge ended when it was not refused.
#[derive(Clone, Copy, Debug, PartialEq, Eq, Structural)]
pub enum MergeOutcome {
    /// Links were repointed.
    Applied,
    /// Nothing resolves to the deleted id any more; no link changed.
    Skipped,
}

/// A merge that the store refuses. No link is changed.
#[derive(Clone, Copy, Debug, PartialEq, Eq, Structural)]
pub enum LinkResolutionError {
    /// The id to keep and the id to delete are the same.
    SelfMerge,
    /// The id to keep already resolves to the id to delete.
    KeepResolvesToDelete,
}

/// What `merge` reports for the mapping `m` and the pair `(keep, delete)`.
pub open spec fn merge_report(m: LinkMap, keep: Id, delete: Id) -> Result<
    MergeOutcome,
    LinkResolutionError,
> {
    if keep == delete {
        Err(LinkResolutionError::SelfMerge)
    } else if canonical(m, delete) != delete {
        Ok(MergeOutcome::Skipped)
    } else if canonical(m, keep) == delete {
        Err(LinkResolutionError::KeepResolvesToDelete)
    } else {
        Ok(MergeOutcome::Applied)
    }
}

/// One row of the link store, as contracts see it.
pub struct LinkRow {
    pub id: Id,
    pub canonical_id: Id,
}

/// One row of the link store.
#[derive(Debug)]
pub struct EntityLink {
    pub id: String,
    pub canonical_id: String,
}

impl View for EntityLink {
    type V = LinkRow;

    open spec fn view(&self) -> LinkRow {
        LinkRow { id: self.id@, canonical_id: self.canonical_id@ }
    }
}

impl EntityLink {
    pub fn new(id: &str, canonical_id: &str) -> (link: EntityLink)
        ensures
            link@ == (LinkRow { id: id@, canonical_id: canonical_id@ }),
    {
        EntityLink { id: id.to_owned(), canonical_id: canonical_id.to_owned() }
    }
}

impl Clone for EntityLink {
    fn clone(&self) -> (copy: EntityLink)
        ensures
            copy@ == self@,
    {
        EntityLink { id: self.id.clone(), canonical_id: self.canonical_id.clone() }
    }
}

/// No two rows carry the same id.
pub open spec fn distinct_ids(rows: Seq<LinkRow>) -> bool {
    forall|i: int, j: int|
        0 <= i < rows.len() && 0 <= j < rows.len() && (#[trigger] rows[i]).id == (
        #[trigger] rows[j]).id ==> i == j
}

/// Some row of `rows` carries the id `x`.
pub open spec fn has_row(rows: Seq<LinkRow>, x: Id) -> bool {
    exists|i: int| 0 <= i < rows.len() && (#[trigger] rows[i]).id == x
}

/// The index of a row that carries the id `x`.
pub open spec fn row_of(rows: Seq<LinkRow>, x: Id) -> int {
    choose|i: int| 0 <= i < rows.len() && (#[trigger] rows[i]).id == x
}

/// The mapping that a sequence of rows stands for.
pub open spec fn rows_map(rows: Seq<LinkRow>) -> LinkMap {
    Map::new(|x: Id| has_row(rows, x), |x: Id| rows[row_of(rows, x)].canonical_id)
}

/// Rows that a store may hold: distinct ids, and a well linked mapping.
pub open spec fn valid_rows(rows: Seq<LinkRow>) -> bool {
    &&& distinct_ids(rows)
    &&& well_linked(rows_map(rows))
}

/// The rows after `x` was observed: a first-seen id gets a row of its own
/// at the end.
pub open spec fn observed_rows(rows: Seq<LinkRow>, x: Id) -> Seq<LinkRow> {
    if has_row(rows, x) {
        rows
    } else {
        rows.push(LinkRow { id: x, canonical_id: x })
    }
}

/// The rows with every link to `from` repointed to `to`.
pub open spec fn repointed_rows(rows: Seq<LinkRow>, from: Id, to: Id) -> Seq<LinkRow> {
    rows.map_values(
        |r: LinkRow|
            if r.canonical_id == from {
                LinkRow { id: r.id, canonical_id: to }
            } else {
                r
            },
    )
}

/// The rows after the merge of `delete` into `keep`.
pub open spec fn merged_rows(rows: Seq<LinkRow>, keep: Id, delete: Id) -> Seq<LinkRow> {
    if keep == delete {
        rows
    } else {
        let seen = observed_rows(observed_rows(rows, keep), delete);
        if merge_applies(rows_map(rows), keep, delete) {
            repointed_rows(seen, delete, canonical(rows_map(rows), keep))
        } else {
            seen
        }
    }
}

/// With distinct ids, each row is what the mapping holds for its id.
pub proof fn lemma_rows_map(rows: Seq<LinkRow>)
    requires
        distinct_ids(rows),
    ensures
        forall|i: int|
            0 <= i < rows.len() ==> rows_map(rows).dom().contains((#[trigger] rows[i]).id)
                && rows_map(rows)[rows[i].id] == rows[i].canonical_id,
        forall|x: Id|
            rows_map(rows).dom().contains(x) ==> 0 <= row_of(rows, x) < rows.len() && rows[row_of(
                rows,
                x,
            )].id == x,
{
    assert forall|i: int| 0 <= i < rows.len() implies rows_map(rows).dom().contains(
        (#[trigger] rows[i]).id,
    ) && rows_map(rows)[rows[i].id] == rows[i].canonical_id by {
        let x = rows[i].id;
        assert(has_row(rows, x));
        let k = row_of(rows, x);
        assert(0 <= k < rows.len() && rows[k].id == x);
        assert(k == i);
    }
}

/// Observing an id on the rows is observing it on the mapping.
pub proof fn lemma_observed_rows(rows: Seq<LinkRow>, x: Id)
    requires
        valid_rows(rows),
    ensures
        valid_rows(observed_rows(rows, x)),
        rows_map(observed_rows(rows, x)) == observed(rows_map(rows), x),
{
    if !has_row(rows, x) {
        let after = observed_rows(rows, x);
        assert(distinct_ids(after)) by {
            assert forall|i: int, j: int|
                0 <= i < after.len() && 0 <= j < after.len() && (#[trigger] after[i]).id == (
                #[trigger] after[j]).id implies i == j by {
                if i < rows.len() && j == rows.len() {
                    assert(rows[i].id == x);
                }
                if j < rows.len() && i == rows.len() {
                    assert(rows[j].id == x);
                }
                if i < rows.len() && j < rows.len() {
                    assert(rows[i].id == rows[j].id);
                }
            }
        }
        lemma_rows_map(rows);
        lemma_rows_map(after);
        let target = observed(rows_map(rows), x);
        assert forall|y: Id| rows_map(after).dom().contains(y) <==> target.dom().contains(y) by {
            if rows_map(after).dom().contains(y) {
                let k = row_of(after, y);
                if k < rows.len() {
                    assert(rows[k].id == y);
                }
            }
            if target.dom().contains(y) {
                if y == x {
                    assert(after[rows.len() as int].id == y);
                } else {
                    let k = row_of(rows, y);
                    assert(after[k].id == y);
                }
            }
        }
        assert forall|y: Id| rows_map(after).dom().contains(y) implies rows_map(after)[y]
            == target[y] by {
            let k = row_of(after, y);
            if k < rows.len() {
                assert(rows[k].id == y);
            }
        }
        assert(rows_map(after) =~= target);
        assert(well_linked(target)) by {
            assert forall|y: Id| #[trigger] target.dom().contains(y) implies target.dom().contains(
                target[y],
            ) && target[target[y]] == target[y] by {
                if y != x {
                    assert(rows_map(rows).dom().contains(y));
                }
            }
        }
    }
}

/// Repointing to a canonical id other than `from` keeps a mapping well
/// linked.
pub proof fn lemma_repointed_well_linked(m: LinkMap, from: Id, to: Id)
    requires
        well_linked(m),
        m.dom().contains(to),
        m[to] == to,
        to != from,
    ensures
        well_linked(repointed(m, from, to)),
{
    let r = repointed(m, from, to);
    assert forall|y: Id| #[trigger] r.dom().contains(y) implies r.dom().contains(r[y]) && r[r[y]]
        == r[y] by {
        assert(m.dom().contains(y));
        assert(m.dom().contains(m[y]));
    }
}

/// Repointing the rows is repointing the mapping.
pub proof fn lemma_repointed_rows(rows: Seq<LinkRow>, from: Id, to: Id)
    requires
        valid_rows(rows),
        rows_map(rows).dom().contains(to),
        rows_map(rows)[to] == to,
        to != from,
    ensures
        valid_rows(repointed_rows(rows, from, to)),
        rows_map(repointed_rows(rows, from, to)) == repointed(rows_map(rows), from, to),
{
    let after = repointed_rows(rows, from, to);
    assert(distinct_ids(after)) by {
        assert forall|i: int, j: int|
            0 <= i < after.len() && 0 <= j < after.len() && (#[trigger] after[i]).id == (
            #[trigger] after[j]).id implies i == j by {
            assert(rows[i].id == rows[j].id);
        }
    }
    lemma_rows_map(rows);
    lemma_rows_map(after);
    let target = repointed(rows_map(rows), from, to);
    assert forall|y: Id| rows_map(after).dom().contains(y) <==> target.dom().contains(y) by {
        if rows_map(after).dom().contains(y) {
            let k = row_of(after, y);
            assert(rows[k].id == y);
        }
        if target.dom().contains(y) {
            let k = row_of(rows, y);
            assert(after[k].id == y);
        }
    }
    assert forall|y: Id| rows_map(after).dom().contains(y) implies rows_map(after)[y]
        == target[y] by {
        let k = row_of(after, y);
        assert(rows[k].id == y);
    }
    assert(rows_map(after) =~= target);
    lemma_repointed_well_linked(rows_map(rows), from, to);
}

/// Merging on the rows is merging on the mapping.
pub proof fn lemma_merged_rows(rows: Seq<LinkRow>, keep: Id, delete: Id)
    requires
        valid_rows(rows),
    ensures
        valid_rows(merged_rows(rows, keep, delete)),
        rows_map(merged_rows(rows, keep, delete)) == merged(rows_map(rows), keep, delete),
{
    if keep != delete {
        let first = observed_rows(rows, keep);
        lemma_observed_rows(rows, keep);
        let seen = observed_rows(first, delete);
        lemma_observed_rows(first, delete);
        if merge_applies(rows_map(rows), keep, delete) {
            let to = canonical(rows_map(rows), keep);
            assert(rows_map(seen)[keep] == to);
            assert(rows_map(seen).dom().contains(to));
            lemma_repointed_rows(seen, delete, to);
        }
    }
}

/// The entity link store.
pub struct LinkStore {
    links: Vec<EntityLink>,
}

impl View for LinkStore {
    type V = LinkMap;

    open spec fn view(&self) -> LinkMap {
        rows_map(self.rows())
    }
}

impl LinkStore {
    /// The rows of the store, in the order in which their ids were first
    /// observed.
    pub closed spec fn rows(&self) -> Seq<LinkRow> {
        self.links@.map_values(|l: EntityLink| l@)
    }

    /// The store's invariant. Every constructor establishes it and every
    /// method keeps it.
    pub open spec fn wf(&self) -> bool {
        valid_rows(self.rows())
    }

    /// An empty store.
    pub fn new() -> (store: LinkStore)
        ensures
            store.wf(),
            store.rows() == Seq::<LinkRow>::empty(),
            store@ == Map::<Id, Id>::empty(),
    {
        let store = LinkStore { links: Vec::new() };
        assert(store.rows() =~= Seq::<LinkRow>::empty());
        assert(store@ =~= Map::<Id, Id>::empty());
        store
    }

    /// The number of observed ids.
    pub fn len(&self) -> (n: usize)
        ensures
            n == self.rows().len(),
    {
        self.links.len()
    }

    /// A copy of the rows, in the order in which their ids were first
    /// observed.
    pub fn links(&self) -> (copy: Vec<EntityLink>)
        ensures
            copy@.map_values(|l: EntityLink| l@) == self.rows(),
    {
        let mut copy: Vec<EntityLink> = Vec::new();
        let mut i: usize = 0;
        while i < self.links.len()
            invariant
                i <= self.links.len(),
                copy.len() == i,
                forall|j: int| 0 <= j < i ==> copy[j]@ == self.links[j]@,
            decreases self.links.len() - i,
        {
            copy.push(self.links[i].clone());
            i += 1;
        }
        assert(copy@.map_values(|l: EntityLink| l@) =~= self.rows());
        copy
    }

    fn position(&self, id: &String) -> (r: Option<usize>)
        ensures
            match r {
                Some(i) => i < self.links.len() && self.links[i as int].id@ == id@,
                None => !has_row(self.rows(), id@),
            },
    {
        let mut i: usize = 0;
        while i < self.links.len()
            invariant
                i <= self.links.len(),
                forall|j: int| 0 <= j < i ==> self.links[j].id@ != id@,
            decreases self.links.len() - i,
        {
            if self.links[i].id == *id {
                return Some(i);
            }
            i += 1;
        }
        assert forall|j: int| 0 <= j < self.rows().len() implies (#[trigger] self.rows()[j]).id
            != id@ by {
            assert(self.links[j].id@ != id@);
        }
        None
    }

    /// The canonical id that is stored for `id`, if `id` was observed.
    pub fn lookup(&self, id: &str) -> (r: Option<String>)
        requires
            self.wf(),
        ensures
            match r {
                Some(c) => self@.dom().contains(id@) && c@ == self@[id@],
                None => !self@.dom().contains(id@),
            },
    {
        proof {
            lemma_rows_map(self.rows());
        }
        let key: String = id.to_owned();
        match self.position(&key) {
            Some(i) => {
                assert(self.rows()[i as int].id == id@);
                Some(self.links[i].canonical_id.clone())
            },
            None => None,
        }
    }

    /// The canonical id of `raw_id`. A first-seen id is recorded as its own
    /// canonical id.
    pub fn resolve(&mut self, raw_id: &str) -> (link_id: String)
        requires
            old(self).wf(),
        ensures
            final(self).wf(),
            link_id@ == canonical(old(self)@, raw_id@),
            final(self).rows() == observed_rows(old(self).rows(), raw_id@),
            final(self)@ == observed(old(self)@, raw_id@),
    {
        proof {
            lemma_rows_map(self.rows());
            lemma_observed_rows(self.rows(), raw_id@);
        }
        let key: String = raw_id.to_owned();
        match self.position(&key) {
            Some(i) => {
                assert(self.rows()[i as int].id == raw_id@);
                self.links[i].canonical_id.clone()
            },
            None => {
                let ghost before = self.rows();
                self.links.push(EntityLink { id: key.clone(), canonical_id: key.clone() });
                assert(self.rows() =~= before.push(
                    LinkRow { id: raw_id@, canonical_id: raw_id@ },
                ));
                key
            },
        }
    }

    /// Ids whose canonical id is `canonical_id`, in the order in which they
    /// were first observed.
    pub fn ids_resolving_to(&self, canonical_id: &str) -> (ids: Vec<String>)
        ensures
            ids@.map_values(|s: String| s@) == self.rows().filter(
                |r: LinkRow| r.canonical_id == canonical_id@,
            ).map_values(|r: LinkRow| r.id),
    {
        let key: String = canonical_id.to_owned();
        let mut ids: Vec<String> = Vec::new();
        let ghost pred = |r: LinkRow| r.canonical_id == canonical_id@;
        let ghost rows = self.rows();
        let mut i: usize = 0;
        proof {
            assert(rows.take(0).filter(pred) =~= Seq::<LinkRow>::empty());
            assert(ids@.map_values(|s: String| s@) =~= rows.take(0).filter(pred).map_values(
                |r: LinkRow| r.id,
            ));
        }
        while i < self.links.len()
            invariant
                i <= self.links.len(),
                rows == self.rows(),
                rows.len() == self.links.len(),
                key@ == canonical_id@,
                pred == |r: LinkRow| r.canonical_id == canonical_id@,
                ids@.map_values(|s: String| s@) == rows.take(i as int).filter(pred).map_values(
                    |r: LinkRow| r.id,
                ),
            decreases self.links.len() - i,
        {
            let ghost before = ids@;
            proof {
                lemma_filter_take_step(rows, pred, i as int);
                assert(rows[i as int] == self.links[i as int]@);
            }
            if self.links[i].canonical_id == key {
                ids.push(self.links[i].id.clone());
                assert(ids@.map_values(|s: String| s@) =~= before.map_values(|s: String| s@).push(
                    rows[i as int].id,
                ));
                assert(rows.take(i + 1).filter(pred).map_values(|r: LinkRow| r.id) =~= rows.take(
                    i as int,
                ).filter(pred).map_values(|r: LinkRow| r.id).push(rows[i as int].id));
            }
            i += 1;
        }
        assert(rows.take(i as int) =~= rows);
        ids
    }

    /// Merges the entity `delete` into the entity `keep`.
    ///
    /// Every link that resolves to `delete` is repointed to what `keep`
    /// resolves to. Ids that were never observed are recorded first. A
    /// merge of an id into itself leaves the store untouched.
    pub fn merge(&mut self, keep: &str, delete: &str) -> (r: Result<
        MergeOutcome,
        LinkResolutionError,
    >)
        requires
            old(self).wf(),
        ensures
            final(self).wf(),
            r == merge_report(old(self)@, keep@, delete@),
            final(self).rows() == merged_rows(old(self).rows(), keep@, delete@),
            final(self)@ == merged(old(self)@, keep@, delete@),
    {
        proof {
            lemma_merged_rows(self.rows(), keep@, delete@);
        }
        let keep_key: String = keep.to_owned();
        let delete_key: String = delete.to_owned();
        if keep_key == delete_key {
            return Err(LinkResolutionError::SelfMerge);
        }
        let target: String = self.resolve(keep);
        let source: String = self.resolve(delete);
        if source != delete_key {
            return Ok(MergeOutcome::Skipped);
        }
        if target == delete_key {
            return Err(LinkResolutionError::KeepResolvesToDelete);
        }
        let ghost seen = self.rows();
        let mut i: usize = 0;
        while i < self.links.len()
            invariant
                i <= self.links.len(),
                self.links.len() == seen.len(),
                delete_key@ == delete@,
                forall|j: int|
                    0 <= j < i ==> (#[trigger] self.links[j])@ == (if seen[j].canonical_id
                        == delete@ {
                        LinkRow { id: seen[j].id, canonical_id: target@ }
                    } else {
                        seen[j]
                    }),
                forall|j: int| i <= j < seen.len() ==> (#[trigger] self.links[j])@ == seen[j],
            decreases self.links.len() - i,
        {
            if self.links[i].canonical_id == delete_key {
                self.links[i].canonical_id = target.clone();
            }
            i += 1;
        }
        assert(self.rows() =~= repointed_rows(seen, delete@, target@));
        Ok(MergeOutcome::Applied)
    }
}

impl Clone for LinkStore {
    fn clone(&self) -> (copy: LinkStore)
        ensures
            copy.rows() == self.rows(),
    {
        let links = self.links();
        LinkStore { links }
    }
}

} // verus!
