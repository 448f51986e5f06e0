//! The translator registry: which tables are translated, what each one
//! depends on, and the order in which tables are therefore integrated.
//!
//! The order is computed once, when the registry is built. Descriptors that
//! admit no order are a configuration error, found before any record is
//! integrated.

use vstd::prelude::*;
use crate::sync::table::{LegacyTable, table_named};

verus! {

/// The static description of one translator: its table and the tables
/// whose records must be integrated before its own.
#[derive(Debug)]
pub struct PullDependency {
    pub table: LegacyTable,
    pub dependencies: Vec<LegacyTable>,
}

/// A registry that cannot be built.
#[derive(Clone, Copy, Debug, PartialEq, Eq, Structural)]
pub enum ConfigurationError {
    /// Two descriptors name this table.
    DuplicateTable(LegacyTable),
    /// The declared dependencies run in a circle.
    CyclicDependency,
}

/// Some descriptor names the table `t`.
pub open spec fn registered(ds: Seq<PullDependency>, t: LegacyTable) -> bool {
    exists|i: int| 0 <= i < ds.len() && (#[trigger] ds[i]).table == t
}

/// Some descriptor of the table `t` declares the table `u` as a dependency.
pub open spec fn depends_on(ds: Seq<PullDependency>, t: LegacyTable, u: LegacyTable) -> bool {
    exists|i: int, k: int|
        0 <= i < ds.len() && 0 <= k < ds[i].dependencies@.len() && ds[i].table == t
            && #[trigger] ds[i].dependencies@[k] == u
}

/// No table has two descriptors.
pub open spec fn distinct_tables(ds: Seq<PullDependency>) -> bool {
    forall|i: int, j: int|
        0 <= i < ds.len() && 0 <= j < ds.len() && (#[trigger] ds[i]).table == (
        #[trigger] ds[j]).table ==> i == j
}

/// `order` lists every registered table once, each after all the
/// registered tables that it depends on.
pub open spec fn valid_order(ds: Seq<PullDependency>, order: Seq<LegacyTable>) -> bool {
    &&& order.no_duplicates()
    &&& forall|t: LegacyTable| #[trigger] order.contains(t) <==> registered(ds, t)
    &&& forall|a: int, b: int|
        0 <= a < order.len() && 0 <= b < order.len() && depends_on(
            ds,
            #[trigger] order[a],
            #[trigger] order[b],
        ) ==> b < a
}

/// The descriptors admit an order, which is to say that no chain of
/// dependencies leads from a table back to itself.
pub open spec fn orderable(ds: Seq<PullDependency>) -> bool {
    exists|order: Seq<LegacyTable>| valid_order(ds, order)
}

/// The position of the table `t` in `order`, if it occurs there.
pub open spec fn rank_in(order: Seq<LegacyTable>, t: LegacyTable) -> Option<int> {
    if order.contains(t) {
        Some(order.index_of(t))
    } else {
        None
    }
}

/// The translator that is registered for the table called `name`: the
/// table itself, if the name is known and the table stands in `order`.
pub open spec fn translator_named(order: Seq<LegacyTable>, name: Seq<char>) -> Option<LegacyTable> {
    match table_named(name) {
        Some(table) => if order.contains(table) {
            Some(table)
        } else {
            None
        },
        None => None,
    }
}

/// All registered dependencies of the descriptor `i` are placed.
pub open spec fn ready(ds: Seq<PullDependency>, placed: Seq<bool>, i: int) -> bool {
    forall|k: int, j: int|
        0 <= k < ds[i].dependencies@.len() && 0 <= j < ds.len() && (#[trigger] ds[j]).table
            == #[trigger] ds[i].dependencies@[k] ==> placed[j]
}

/// How many descriptors are not placed yet.
pub open spec fn unplaced(placed: Seq<bool>) -> nat
    decreases placed.len(),
{
    if placed.len() == 0 {
        0
    } else {
        unplaced(placed.drop_last()) + if placed.last() {
            0nat
        } else {
            1nat
        }
    }
}

/// Placing a descriptor leaves one fewer unplaced.
pub proof fn lemma_place_decreases(placed: Seq<bool>, i: int)
    requires
        0 <= i < placed.len(),
        !placed[i],
    ensures
        unplaced(placed.update(i, true)) + 1 == unplaced(placed),
    decreases placed.len(),
{
    let after = placed.update(i, true);
    if i == placed.len() - 1 {
        assert(after.drop_last() =~= placed.drop_last());
    } else {
        assert(after.drop_last() =~= placed.drop_last().update(i, true));
        lemma_place_decreases(placed.drop_last(), i);
    }
}

/// The first descriptor at or behind `from` that is ready and not placed;
/// the number of descriptors if there is none.
pub open spec fn first_ready(ds: Seq<PullDependency>, placed: Seq<bool>, from: int) -> int
    decreases ds.len() - from,
{
    if from < 0 || from >= ds.len() {
        ds.len() as int
    } else if !placed[from] && ready(ds, placed, from) {
        from
    } else {
        first_ready(ds, placed, from + 1)
    }
}

/// What `first_ready` finds.
pub proof fn lemma_first_ready(ds: Seq<PullDependency>, placed: Seq<bool>, from: int)
    requires
        0 <= from <= ds.len(),
    ensures
        from <= first_ready(ds, placed, from) <= ds.len(),
        first_ready(ds, placed, from) < ds.len() ==> !placed[first_ready(ds, placed, from)]
            && ready(ds, placed, first_ready(ds, placed, from)),
        forall|u: int|
            from <= u < first_ready(ds, placed, from) ==> placed[u] || !ready(ds, placed, u),
    decreases ds.len() - from,
{
    if from < ds.len() && !(!placed[from] && ready(ds, placed, from)) {
        lemma_first_ready(ds, placed, from + 1);
    }
}

/// The first ready descriptor is the one before which none is ready.
proof fn lemma_first_ready_is(ds: Seq<PullDependency>, placed: Seq<bool>, from: int, c: int)
    requires
        0 <= from <= c <= ds.len(),
        forall|u: int| from <= u < c ==> placed[u] || !ready(ds, placed, u),
        c < ds.len() ==> !placed[c] && ready(ds, placed, c),
    ensures
        first_ready(ds, placed, from) == c,
    decreases c - from,
{
    if from < c {
        lemma_first_ready_is(ds, placed, from + 1, c);
    }
}

/// The order that comes of placing, again and again, the first descriptor
/// that is ready, behind the tables of `order`; `None` when descriptors
/// are left of which none is ready.
pub open spec fn placing_order(
    ds: Seq<PullDependency>,
    placed: Seq<bool>,
    order: Seq<LegacyTable>,
) -> Option<Seq<LegacyTable>>
    decreases unplaced(placed),
{
    let next = first_ready(ds, placed, 0);
    if placed.len() == ds.len() && 0 <= next < ds.len() && !placed[next] {
        proof {
            lemma_place_decreases(placed, next);
        }
        placing_order(ds, placed.update(next, true), order.push(ds[next].table))
    } else if unplaced(placed) == 0 {
        Some(order)
    } else {
        None
    }
}

/// The order of integration that the descriptors give: each time, the
/// first descriptor is placed whose registered dependencies are all placed.
pub open spec fn integration_order(ds: Seq<PullDependency>) -> Option<Seq<LegacyTable>> {
    placing_order(ds, Seq::new(ds.len(), |i: int| false), Seq::empty())
}

/// Nothing is unplaced exactly when everything is placed.
proof fn lemma_unplaced_zero(placed: Seq<bool>)
    ensures
        unplaced(placed) == 0 <==> forall|i: int| 0 <= i < placed.len() ==> placed[i],
    decreases placed.len(),
{
    if placed.len() > 0 {
        let front = placed.drop_last();
        lemma_unplaced_zero(front);
        if unplaced(placed) == 0 {
            assert forall|i: int| 0 <= i < placed.len() implies placed[i] by {
                if i < front.len() {
                    assert(front[i] == placed[i]);
                }
            }
        }
        if forall|i: int| 0 <= i < placed.len() ==> placed[i] {
            assert forall|i: int| 0 <= i < front.len() implies front[i] by {
                assert(front[i] == placed[i]);
            }
            assert(placed[placed.len() - 1]);
        }
    }
}

/// While none of the unplaced descriptors is ready, every table of a valid
/// order belongs to a placed descriptor.
proof fn lemma_stuck_prefix(
    ds: Seq<PullDependency>,
    placed: Seq<bool>,
    order: Seq<LegacyTable>,
    p: int,
    i: int,
)
    requires
        placed.len() == ds.len(),
        forall|u: int| 0 <= u < ds.len() && !placed[u] ==> !ready(ds, placed, u),
        valid_order(ds, order),
        0 <= p < order.len(),
        0 <= i < ds.len(),
        order[p] == ds[i].table,
    ensures
        placed[i],
    decreases p,
{
    if !placed[i] {
        assert(!ready(ds, placed, i));
        let (k, j) = choose|k: int, j: int|
            0 <= k < ds[i].dependencies@.len() && 0 <= j < ds.len() && (#[trigger] ds[j]).table
                == #[trigger] ds[i].dependencies@[k] && !placed[j];
        let u = ds[j].table;
        assert(ds[i].dependencies@[k] == u);
        assert(depends_on(ds, order[p], u));
        assert(registered(ds, u));
        assert(order.contains(u));
        let q = order.index_of(u);
        assert(order[q] == u);
        assert(q < p);
        lemma_stuck_prefix(ds, placed, order, q, j);
    }
}

/// A stuck set of descriptors proves that no order exists.
proof fn lemma_stuck_not_orderable(ds: Seq<PullDependency>, placed: Seq<bool>, i: int)
    requires
        placed.len() == ds.len(),
        forall|u: int| 0 <= u < ds.len() && !placed[u] ==> !ready(ds, placed, u),
        0 <= i < ds.len(),
        !placed[i],
    ensures
        !orderable(ds),
{
    assert forall|order: Seq<LegacyTable>| !valid_order(ds, order) by {
        if valid_order(ds, order) {
            assert(registered(ds, ds[i].table));
            assert(order.contains(ds[i].table));
            let p = order.index_of(ds[i].table);
            lemma_stuck_prefix(ds, placed, order, p, i);
        }
    }
}

/// The translator registry.
pub struct Registry {
    descriptors: Vec<PullDependency>,
    order: Vec<LegacyTable>,
}

impl Registry {
    /// The registry's invariant: no table is described twice, and the
    /// stored order is a valid one.
    pub closed spec fn wf(&self) -> bool {
        &&& distinct_tables(self.descriptors@)
        &&& valid_order(self.descriptors@, self.order@)
    }

    /// The descriptors that the registry was built from.
    pub closed spec fn descriptors(&self) -> Seq<PullDependency> {
        self.descriptors@
    }

    /// The order in which tables are integrated.
    pub closed spec fn table_order(&self) -> Seq<LegacyTable> {
        self.order@
    }

    /// What the invariant says of the order.
    pub proof fn lemma_wf(&self)
        requires
            self.wf(),
        ensures
            distinct_tables(self.descriptors()),
            valid_order(self.descriptors(), self.table_order()),
    {
    }

    /// Builds the registry and fixes the order of integration.
    ///
    /// Fails when a table is described twice or when the dependencies admit
    /// no order; otherwise it succeeds. Among the orders that the
    /// dependencies admit it takes the one that places, each time, the first
    /// descriptor whose dependencies are placed.
    pub fn new(descriptors: Vec<PullDependency>) -> (r: Result<Registry, ConfigurationError>)
        ensures
            match r {
                Ok(registry) => {
                    &&& registry.wf()
                    &&& registry.descriptors() == descriptors@
                    &&& integration_order(descriptors@) == Some(registry.table_order())
                },
                Err(ConfigurationError::DuplicateTable(t)) => exists|i: int, j: int|
                    0 <= i < j < descriptors.len() && descriptors[i].table == t
                        && descriptors[j].table == t,
                Err(ConfigurationError::CyclicDependency) => {
                    &&& distinct_tables(descriptors@)
                    &&& !orderable(descriptors@)
                    &&& integration_order(descriptors@) is None
                },
            },
            r is Ok <==> distinct_tables(descriptors@) && orderable(descriptors@),
    {
        match first_duplicate(&descriptors) {
            Some(t) => {
                return Err(ConfigurationError::DuplicateTable(t));
            },
            None => {},
        }
        let n = descriptors.len();
        let mut placed: Vec<bool> = Vec::new();
        while placed.len() < n
            invariant
                placed.len() <= n,
                forall|i: int| 0 <= i < placed.len() ==> !placed[i],
            decreases n - placed.len(),
        {
            placed.push(false);
        }
        let mut order: Vec<LegacyTable> = Vec::new();
        assert(placed@ =~= Seq::new(descriptors@.len(), |i: int| false));
        assert(order@ =~= Seq::<LegacyTable>::empty());
        loop
            invariant
                n == descriptors.len(),
                placed.len() == n,
                placing_order(descriptors@, placed@, order@) == integration_order(descriptors@),
                distinct_tables(descriptors@),
                order@.no_duplicates(),
                forall|i: int|
                    0 <= i < n ==> (placed[i] <==> order@.contains((#[trigger] descriptors[i]).table)),
                forall|p: int| 0 <= p < order.len() ==> registered(descriptors@, #[trigger] order[p]),
                forall|a: int, b: int|
                    0 <= a < order.len() && 0 <= b < order.len() && depends_on(
                        descriptors@,
                        #[trigger] order[a],
                        #[trigger] order[b],
                    ) ==> b < a,
                forall|i: int, k: int, j: int|
                    0 <= i < n && placed[i] && 0 <= k < descriptors[i].dependencies@.len() && 0 <= j
                        < n && (#[trigger] descriptors[j]).table
                        == #[trigger] descriptors[i].dependencies@[k] ==> placed[j],
            decreases unplaced(placed@),
        {
            let mut pick: Option<usize> = None;
            let mut waiting: Option<usize> = None;
            let mut i: usize = 0;
            while i < n && pick.is_none()
                invariant
                    n == descriptors.len(),
                    placed.len() == n,
                    i <= n,
                    forall|u: int| 0 <= u < i && !placed[u] ==> !ready(descriptors@, placed@, u),
                    pick matches Some(c) ==> c == i && c < n && !placed[c as int] && ready(
                        descriptors@,
                        placed@,
                        c as int,
                    ),
                    match waiting {
                        Some(w) => w < n && !placed[w as int],
                        None => forall|u: int| 0 <= u < i ==> placed[u],
                    },
                decreases n - i + (if pick is None { 1int } else { 0int }),
            {
                if !placed[i] {
                    waiting = Some(i);
                    if is_ready(&descriptors, &placed, i) {
                        pick = Some(i);
                    }
                }
                if pick.is_none() {
                    i += 1;
                }
            }
            match pick {
                Some(c) => {
                    let table = descriptors[c].table;
                    let ghost placed_before = placed@;
                    let ghost order_before = order@;
                    placed.set(c, true);
                    order.push(table);
                    proof {
                        lemma_first_ready_is(descriptors@, placed_before, 0, c as int);
                        lemma_place_decreases(placed_before, c as int);
                        lemma_placing_keeps_order(
                            descriptors@,
                            placed_before,
                            order_before,
                            c as int,
                        );
                    }
                },
                None => {
                    match waiting {
                        Some(w) => {
                            proof {
                                lemma_stuck_not_orderable(descriptors@, placed@, w as int);
                                lemma_first_ready_is(descriptors@, placed@, 0, n as int);
                                lemma_unplaced_zero(placed@);
                            }
                            return Err(ConfigurationError::CyclicDependency);
                        },
                        None => {
                            proof {
                                lemma_first_ready_is(descriptors@, placed@, 0, n as int);
                                lemma_unplaced_zero(placed@);
                                assert forall|t: LegacyTable| #[trigger]
                                    order@.contains(t) <==> registered(descriptors@, t) by {
                                    if registered(descriptors@, t) {
                                        let j = choose|j: int|
                                            0 <= j < descriptors.len() && (
                                            #[trigger] descriptors[j]).table == t;
                                        assert(placed[j]);
                                    }
                                }
                                assert(valid_order(descriptors@, order@));
                            }
                            return Ok(Registry { descriptors, order });
                        },
                    }
                },
            }
        }
    }

    /// The place of `table` in the order of integration; `None` for a table
    /// without a translator in this registry.
    pub fn rank(&self, table: LegacyTable) -> (r: Option<usize>)
        requires
            self.wf(),
        ensures
            match r {
                Some(p) => rank_in(self.table_order(), table) == Some(p as int),
                None => rank_in(self.table_order(), table) is None,
            },
            r is Some <==> registered(self.descriptors(), table),
            r matches Some(p) ==> p < self.table_order().len() && self.table_order()[p as int]
                == table,
    {
        let mut p: usize = 0;
        while p < self.order.len()
            invariant
                self.wf(),
                p <= self.order.len(),
                forall|q: int| 0 <= q < p ==> self.order[q] != table,
            decreases self.order.len() - p,
        {
            if self.order[p] == table {
                proof {
                    assert(self.order@.contains(table));
                    let q = self.order@.index_of(table);
                    assert(self.order@[q] == table);
                    assert(q == p);
                }
                return Some(p);
            }
            p += 1;
        }
        None
    }

    /// The translator that is registered for the table called
    /// `table_name`. An unknown or unregistered table gives `None`, which is
    /// no error: its records are skipped.
    pub fn translator_for(&self, table_name: &str) -> (translator: Option<LegacyTable>)
        requires
            self.wf(),
        ensures
            translator == translator_named(self.table_order(), table_name@),
    {
        match LegacyTable::from_name(table_name) {
            Some(table) => match self.rank(table) {
                Some(_) => Some(table),
                None => None,
            },
            None => None,
        }
    }

    /// The tables in the order in which they are integrated.
    pub fn order(&self) -> (tables: Vec<LegacyTable>)
        requires
            self.wf(),
        ensures
            tables@ == self.table_order(),
    {
        let mut tables: Vec<LegacyTable> = Vec::new();
        let mut p: usize = 0;
        while p < self.order.len()
            invariant
                p <= self.order.len(),
                tables@ == self.order@.take(p as int),
            decreases self.order.len() - p,
        {
            tables.push(self.order[p]);
            assert(self.order@.take(p + 1) =~= self.order@.take(p as int).push(self.order@[p as int]));
            p += 1;
        }
        assert(self.order@.take(p as int) =~= self.order@);
        tables
    }
}

/// Placing a ready, unplaced descriptor at the end keeps every property of
/// the order built so far.
proof fn lemma_placing_keeps_order(
    ds: Seq<PullDependency>,
    placed: Seq<bool>,
    order: Seq<LegacyTable>,
    c: int,
)
    requires
        placed.len() == ds.len(),
        distinct_tables(ds),
        0 <= c < ds.len(),
        !placed[c],
        ready(ds, placed, c),
        order.no_duplicates(),
        forall|i: int| 0 <= i < ds.len() ==> (placed[i] <==> order.contains((#[trigger] ds[i]).table)),
        forall|p: int| 0 <= p < order.len() ==> registered(ds, #[trigger] order[p]),
        forall|a: int, b: int|
            0 <= a < order.len() && 0 <= b < order.len() && depends_on(
                ds,
                #[trigger] order[a],
                #[trigger] order[b],
            ) ==> b < a,
        forall|i: int, k: int, j: int|
            0 <= i < ds.len() && placed[i] && 0 <= k < ds[i].dependencies@.len() && 0 <= j
                < ds.len() && (#[trigger] ds[j]).table == #[trigger] ds[i].dependencies@[k]
                ==> placed[j],
    ensures
        ({
            let placed2 = placed.update(c, true);
            let order2 = order.push(ds[c].table);
            &&& order2.no_duplicates()
            &&& forall|i: int|
                0 <= i < ds.len() ==> (placed2[i] <==> order2.contains((#[trigger] ds[i]).table))
            &&& forall|p: int| 0 <= p < order2.len() ==> registered(ds, #[trigger] order2[p])
            &&& forall|a: int, b: int|
                0 <= a < order2.len() && 0 <= b < order2.len() && depends_on(
                    ds,
                    #[trigger] order2[a],
                    #[trigger] order2[b],
                ) ==> b < a
            &&& forall|i: int, k: int, j: int|
                0 <= i < ds.len() && placed2[i] && 0 <= k < ds[i].dependencies@.len() && 0 <= j
                    < ds.len() && (#[trigger] ds[j]).table == #[trigger] ds[i].dependencies@[k]
                    ==> placed2[j]
        }),
{
    let t = ds[c].table;
    let placed2 = placed.update(c, true);
    let order2 = order.push(t);
    let last = order.len() as int;
    assert(!order.contains(t));
    assert(order2.no_duplicates()) by {
        assert forall|a: int, b: int|
            0 <= a < order2.len() && 0 <= b < order2.len() && a != b implies order2[a]
            != order2[b] by {
            if a == last {
                assert(order[b] == order2[b]);
            } else if b == last {
                assert(order[a] == order2[a]);
            }
        }
    }
    assert forall|i: int| 0 <= i < ds.len() implies (placed2[i] <==> order2.contains(
        (#[trigger] ds[i]).table,
    )) by {
        if i == c {
            assert(order2[last] == t);
        } else {
            if order2.contains(ds[i].table) {
                let q = choose|q: int| 0 <= q < order2.len() && order2[q] == ds[i].table;
                assert(q != last);
                assert(order[q] == ds[i].table);
            }
            if placed[i] {
                let q = choose|q: int| 0 <= q < order.len() && order[q] == ds[i].table;
                assert(order2[q] == ds[i].table);
            }
        }
    }
    assert forall|p: int| 0 <= p < order2.len() implies registered(ds, #[trigger] order2[p]) by {
        if p == last {
            assert(ds[c].table == t);
        } else {
            assert(order2[p] == order[p]);
        }
    }
    assert forall|a: int, b: int|
        0 <= a < order2.len() && 0 <= b < order2.len() && depends_on(
            ds,
            #[trigger] order2[a],
            #[trigger] order2[b],
        ) implies b < a by {
        let (i, k) = choose|i: int, k: int|
            0 <= i < ds.len() && 0 <= k < ds[i].dependencies@.len() && ds[i].table == order2[a]
                && #[trigger] ds[i].dependencies@[k] == order2[b];
        if a == last {
            assert(i == c);
            if b == last {
                assert(ds[c].table == ds[c].dependencies@[k]);
                assert(placed[c]);
            }
        } else {
            assert(order2[a] == order[a]);
            if b == last {
                assert(order.contains(ds[i].table));
                assert(placed[i]);
                assert(ds[c].table == ds[i].dependencies@[k]);
                assert(placed[c]);
            } else {
                assert(order2[b] == order[b]);
            }
        }
    }
    assert forall|i: int, k: int, j: int|
        0 <= i < ds.len() && placed2[i] && 0 <= k < ds[i].dependencies@.len() && 0 <= j < ds.len()
            && (#[trigger] ds[j]).table == #[trigger] ds[i].dependencies@[k] implies placed2[j] by {
        if i == c {
            assert(placed[j]);
        } else {
            assert(placed[i]);
            assert(placed[j]);
        }
    }
}

/// A table that two descriptors name, if there is one.
fn first_duplicate(ds: &Vec<PullDependency>) -> (r: Option<LegacyTable>)
    ensures
        match r {
            Some(t) => exists|i: int, j: int|
                0 <= i < j < ds.len() && ds[i].table == t && ds[j].table == t,
            None => distinct_tables(ds@),
        },
{
    let mut j: usize = 0;
    while j < ds.len()
        invariant
            j <= ds.len(),
            forall|a: int, b: int| 0 <= a < b < j ==> ds[a].table != ds[b].table,
        decreases ds.len() - j,
    {
        let mut i: usize = 0;
        while i < j
            invariant
                j < ds.len(),
                i <= j,
                forall|a: int| 0 <= a < i ==> ds[a].table != ds[j as int].table,
            decreases j - i,
        {
            if ds[i].table == ds[j].table {
                return Some(ds[i].table);
            }
            i += 1;
        }
        j += 1;
    }
    assert forall|a: int, b: int|
        0 <= a < ds.len() && 0 <= b < ds.len() && (#[trigger] ds@[a]).table == (
        #[trigger] ds@[b]).table implies a == b by {
        if a < b {
            assert(ds[a].table != ds[b].table);
        } else if b < a {
            assert(ds[b].table != ds[a].table);
        }
    }
    None
}

/// Whether every registered dependency of the descriptor `i` is placed.
fn is_ready(ds: &Vec<PullDependency>, placed: &Vec<bool>, i: usize) -> (r: bool)
    requires
        placed.len() == ds.len(),
        i < ds.len(),
    ensures
        r == ready(ds@, placed@, i as int),
{
    let deps = &ds[i].dependencies;
    let mut k: usize = 0;
    while k < deps.len()
        invariant
            placed.len() == ds.len(),
            i < ds.len(),
            deps == &ds[i as int].dependencies,
            k <= deps.len(),
            forall|k2: int, j: int|
                0 <= k2 < k && 0 <= j < ds.len() && (#[trigger] ds[j]).table
                    == #[trigger] ds[i as int].dependencies@[k2] ==> placed[j],
        decreases deps.len() - k,
    {
        let mut j: usize = 0;
        while j < ds.len()
            invariant
                placed.len() == ds.len(),
                i < ds.len(),
                deps == &ds[i as int].dependencies,
                k < deps.len(),
                j <= ds.len(),
                forall|j2: int|
                    0 <= j2 < j && (#[trigger] ds[j2]).table == ds[i as int].dependencies@[k as int]
                        ==> placed[j2],
            decreases ds.len() - j,
        {
            if ds[j].table == deps[k] && !placed[j] {
                assert(ds[j as int].table == ds[i as int].dependencies@[k as int]);
                return false;
            }
            j += 1;
        }
        k += 1;
    }
    true
}

} // verus!
