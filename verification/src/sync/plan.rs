//! The order in which the records of a batch are applied.
//!
//! All merges come first, by ascending sequence. Then come the records of
//! the registered tables, table by table in the order of the registry, and
//! within a table by ascending sequence. Records of tables without a
//! translator come last. Records that agree in all of this keep the order
//! in which they arrived.

use vstd::prelude::*;
use crate::sync::envelope::{Envelope, EnvelopeView, SyncAction, envelope_views};
use crate::sync::registry::{Registry, translator_named};
use crate::sync::table::LegacyTable;

verus! {

/// The merges of a batch.
pub const PHASE_MERGE: u8 = 0;

/// The records of tables with a translator.
pub const PHASE_TABLES: u8 = 1;

/// The records of tables without a translator.
pub const PHASE_UNKNOWN: u8 = 2;

/// What decides the place of a record in the plan, as contracts see it.
pub struct PlanOrder {
    pub phase: int,
    pub rank: int,
    pub sequence: int,
}

/// What decides the place of a record in the plan.
#[derive(Clone, Copy, Debug, PartialEq, Eq, Structural)]
pub struct PlanKey {
    pub phase: u8,
    pub rank: usize,
    pub sequence: u64,
}

impl View for PlanKey {
    type V = PlanOrder;

    open spec fn view(&self) -> PlanOrder {
        PlanOrder {
            phase: self.phase as int,
            rank: self.rank as int,
            sequence: self.sequence as int,
        }
    }
}

/// `a` is applied no later than `b`: by phase, then by the rank of the
/// table, then by sequence.
pub open spec fn key_le(a: PlanOrder, b: PlanOrder) -> bool {
    ||| a.phase < b.phase
    ||| a.phase == b.phase && a.rank < b.rank
    ||| a.phase == b.phase && a.rank == b.rank && a.sequence <= b.sequence
}

/// The key of a record under the table order `order`.
pub open spec fn plan_key(order: Seq<LegacyTable>, envelope: EnvelopeView) -> PlanOrder {
    if envelope.action == SyncAction::Merge {
        PlanOrder { phase: PHASE_MERGE as int, rank: 0, sequence: envelope.sequence as int }
    } else {
        match translator_named(order, envelope.table_name) {
            Some(table) => PlanOrder {
                phase: PHASE_TABLES as int,
                rank: order.index_of(table),
                sequence: envelope.sequence as int,
            },
            None => PlanOrder {
                phase: PHASE_UNKNOWN as int,
                rank: 0,
                sequence: envelope.sequence as int,
            },
        }
    }
}

/// `sorted` with `envelope` put behind the last record that is applied no
/// later than it.
pub open spec fn inserted(
    order: Seq<LegacyTable>,
    sorted: Seq<EnvelopeView>,
    envelope: EnvelopeView,
) -> Seq<EnvelopeView>
    decreases sorted.len(),
{
    if sorted.len() == 0 {
        seq![envelope]
    } else if key_le(plan_key(order, sorted.last()), plan_key(order, envelope)) {
        sorted.push(envelope)
    } else {
        inserted(order, sorted.drop_last(), envelope).push(sorted.last())
    }
}

/// The plan of a batch: its records, each inserted in turn.
pub open spec fn planned(order: Seq<LegacyTable>, batch: Seq<EnvelopeView>) -> Seq<EnvelopeView>
    decreases batch.len(),
{
    if batch.len() == 0 {
        seq![]
    } else {
        inserted(order, planned(order, batch.drop_last()), batch.last())
    }
}

/// Each record is applied no later than every record behind it.
pub open spec fn in_plan_order(order: Seq<LegacyTable>, plan: Seq<EnvelopeView>) -> bool {
    forall|i: int, j: int|
        0 <= i < j < plan.len() ==> key_le(
            plan_key(order, #[trigger] plan[i]),
            plan_key(order, #[trigger] plan[j]),
        )
}

/// Inserting a record adds that record and nothing else.
pub proof fn lemma_inserted_content(
    order: Seq<LegacyTable>,
    sorted: Seq<EnvelopeView>,
    envelope: EnvelopeView,
)
    ensures
        inserted(order, sorted, envelope).len() == sorted.len() + 1,
        inserted(order, sorted, envelope).to_multiset() == sorted.to_multiset().insert(envelope),
    decreases sorted.len(),
{
    broadcast use vstd::seq_lib::to_multiset_build;

    if sorted.len() == 0 {
        assert(seq![envelope] =~= Seq::<EnvelopeView>::empty().push(envelope));
        assert(sorted =~= Seq::<EnvelopeView>::empty());
    } else if key_le(plan_key(order, sorted.last()), plan_key(order, envelope)) {
    } else {
        lemma_inserted_content(order, sorted.drop_last(), envelope);
        assert(sorted =~= sorted.drop_last().push(sorted.last()));
        assert(sorted.drop_last().to_multiset().insert(envelope).insert(sorted.last())
            =~= sorted.drop_last().to_multiset().insert(sorted.last()).insert(envelope));
    }
}

/// Inserting into a plan gives a plan.
pub proof fn lemma_inserted_in_order(
    order: Seq<LegacyTable>,
    sorted: Seq<EnvelopeView>,
    envelope: EnvelopeView,
)
    requires
        in_plan_order(order, sorted),
    ensures
        in_plan_order(order, inserted(order, sorted, envelope)),
        forall|i: int|
            0 <= i < inserted(order, sorted, envelope).len() ==> (#[trigger] inserted(
                order,
                sorted,
                envelope,
            )[i]) == envelope || sorted.contains(inserted(order, sorted, envelope)[i]),
    decreases sorted.len(),
{
    let result = inserted(order, sorted, envelope);
    if sorted.len() == 0 {
    } else if key_le(plan_key(order, sorted.last()), plan_key(order, envelope)) {
        assert forall|i: int, j: int| 0 <= i < j < result.len() implies key_le(
            plan_key(order, #[trigger] result[i]),
            plan_key(order, #[trigger] result[j]),
        ) by {
            if j == sorted.len() {
                if i < sorted.len() - 1 {
                    assert(key_le(plan_key(order, sorted[i]), plan_key(order, sorted.last())));
                }
            }
        }
        assert forall|i: int| 0 <= i < result.len() implies (#[trigger] result[i]) == envelope
            || sorted.contains(result[i]) by {
            if i < sorted.len() {
                assert(sorted[i] == result[i]);
            }
        }
    } else {
        let front = sorted.drop_last();
        let inner = inserted(order, front, envelope);
        assert(in_plan_order(order, front)) by {
            assert forall|i: int, j: int| 0 <= i < j < front.len() implies key_le(
                plan_key(order, #[trigger] front[i]),
                plan_key(order, #[trigger] front[j]),
            ) by {
                assert(front[i] == sorted[i] && front[j] == sorted[j]);
            }
        }
        lemma_inserted_in_order(order, front, envelope);
        lemma_inserted_content(order, front, envelope);
        assert forall|i: int| 0 <= i < result.len() implies (#[trigger] result[i]) == envelope
            || sorted.contains(result[i]) by {
            if i < inner.len() {
                assert(result[i] == inner[i]);
                if inner[i] != envelope {
                    assert(front.contains(inner[i]));
                    let k = choose|k: int| 0 <= k < front.len() && front[k] == inner[i];
                    assert(sorted[k] == inner[i]);
                }
            } else {
                assert(result[i] == sorted.last());
                assert(sorted[sorted.len() - 1] == result[i]);
            }
        }
        assert forall|i: int, j: int| 0 <= i < j < result.len() implies key_le(
            plan_key(order, #[trigger] result[i]),
            plan_key(order, #[trigger] result[j]),
        ) by {
            if j < inner.len() {
                assert(result[i] == inner[i] && result[j] == inner[j]);
            } else {
                assert(result[j] == sorted.last());
                assert(result[i] == inner[i]);
                if inner[i] != envelope {
                    assert(front.contains(inner[i]));
                    let k = choose|k: int| 0 <= k < front.len() && front[k] == inner[i];
                    assert(sorted[k] == inner[i]);
                    assert(key_le(plan_key(order, sorted[k]), plan_key(order, sorted.last())));
                }
            }
        }
    }
}

/// The plan of a batch holds the records of the batch, each as often as
/// the batch does, in plan order.
pub proof fn lemma_planned(order: Seq<LegacyTable>, batch: Seq<EnvelopeView>)
    ensures
        planned(order, batch).len() == batch.len(),
        planned(order, batch).to_multiset() == batch.to_multiset(),
        in_plan_order(order, planned(order, batch)),
    decreases batch.len(),
{
    broadcast use vstd::seq_lib::to_multiset_build;

    if batch.len() == 0 {
        assert(batch =~= Seq::<EnvelopeView>::empty());
    } else {
        lemma_planned(order, batch.drop_last());
        lemma_inserted_content(order, planned(order, batch.drop_last()), batch.last());
        lemma_inserted_in_order(order, planned(order, batch.drop_last()), batch.last());
        assert(batch =~= batch.drop_last().push(batch.last()));
    }
}

/// Where the insertion puts a record: behind the last record that is
/// applied no later than it.
proof fn lemma_inserted_at(
    order: Seq<LegacyTable>,
    sorted: Seq<EnvelopeView>,
    envelope: EnvelopeView,
    pos: int,
)
    requires
        0 <= pos <= sorted.len(),
        forall|j: int|
            pos <= j < sorted.len() ==> !key_le(
                plan_key(order, #[trigger] sorted[j]),
                plan_key(order, envelope),
            ),
        pos > 0 ==> key_le(plan_key(order, sorted[pos - 1]), plan_key(order, envelope)),
    ensures
        inserted(order, sorted, envelope) == sorted.insert(pos, envelope),
    decreases sorted.len() - pos,
{
    if sorted.len() == 0 {
        assert(seq![envelope] =~= sorted.insert(pos, envelope));
    } else if pos == sorted.len() {
        assert(sorted.push(envelope) =~= sorted.insert(pos, envelope));
    } else {
        assert(!key_le(plan_key(order, sorted[sorted.len() - 1]), plan_key(order, envelope)));
        let front = sorted.drop_last();
        assert forall|j: int| pos <= j < front.len() implies !key_le(
            plan_key(order, #[trigger] front[j]),
            plan_key(order, envelope),
        ) by {
            assert(front[j] == sorted[j]);
        }
        if pos > 0 {
            assert(front[pos - 1] == sorted[pos - 1]);
        }
        lemma_inserted_at(order, front, envelope, pos);
        assert(front.insert(pos, envelope).push(sorted.last()) =~= sorted.insert(pos, envelope));
    }
}

/// Where the insertion of `envelope` into `sorted` puts it.
pub open spec fn insert_position(
    order: Seq<LegacyTable>,
    sorted: Seq<EnvelopeView>,
    envelope: EnvelopeView,
) -> int
    decreases sorted.len(),
{
    if sorted.len() == 0 {
        0
    } else if key_le(plan_key(order, sorted.last()), plan_key(order, envelope)) {
        sorted.len() as int
    } else {
        insert_position(order, sorted.drop_last(), envelope)
    }
}

/// The insertion puts a record at its position and moves nothing else.
pub proof fn lemma_insert_position(
    order: Seq<LegacyTable>,
    sorted: Seq<EnvelopeView>,
    envelope: EnvelopeView,
)
    ensures
        0 <= insert_position(order, sorted, envelope) <= sorted.len(),
        inserted(order, sorted, envelope) == sorted.insert(
            insert_position(order, sorted, envelope),
            envelope,
        ),
        forall|j: int|
            insert_position(order, sorted, envelope) <= j < sorted.len() ==> !key_le(
                plan_key(order, #[trigger] sorted[j]),
                plan_key(order, envelope),
            ),
        insert_position(order, sorted, envelope) > 0 ==> key_le(
            plan_key(order, sorted[insert_position(order, sorted, envelope) - 1]),
            plan_key(order, envelope),
        ),
    decreases sorted.len(),
{
    let pos = insert_position(order, sorted, envelope);
    if sorted.len() == 0 {
    } else if key_le(plan_key(order, sorted.last()), plan_key(order, envelope)) {
    } else {
        let front = sorted.drop_last();
        lemma_insert_position(order, front, envelope);
        assert forall|j: int| pos <= j < sorted.len() implies !key_le(
            plan_key(order, #[trigger] sorted[j]),
            plan_key(order, envelope),
        ) by {
            if j < front.len() {
                assert(front[j] == sorted[j]);
            }
        }
        if pos > 0 {
            assert(front[pos - 1] == sorted[pos - 1]);
        }
    }
    lemma_inserted_at(order, sorted, envelope, pos);
}

/// Taking a record out of a plan and then inserting another is inserting
/// and then taking the record out.
pub proof fn lemma_inserted_remove(
    order: Seq<LegacyTable>,
    sorted: Seq<EnvelopeView>,
    envelope: EnvelopeView,
    gone: int,
)
    requires
        in_plan_order(order, sorted),
        0 <= gone < sorted.len(),
    ensures
        inserted(order, sorted.remove(gone), envelope) == inserted(order, sorted, envelope).remove(
            if gone < insert_position(order, sorted, envelope) {
                gone
            } else {
                gone + 1
            },
        ),
{
    let pos = insert_position(order, sorted, envelope);
    lemma_insert_position(order, sorted, envelope);
    let shorter = sorted.remove(gone);
    let pos2 = if gone < pos {
        pos - 1
    } else {
        pos
    };
    assert forall|j: int| 0 <= j < pos implies key_le(
        plan_key(order, #[trigger] sorted[j]),
        plan_key(order, envelope),
    ) by {
        if j < pos - 1 {
            assert(key_le(plan_key(order, sorted[j]), plan_key(order, sorted[pos - 1])));
        }
    }
    assert forall|j: int| pos2 <= j < shorter.len() implies !key_le(
        plan_key(order, #[trigger] shorter[j]),
        plan_key(order, envelope),
    ) by {
        if j < gone {
            assert(shorter[j] == sorted[j]);
        } else {
            assert(shorter[j] == sorted[j + 1]);
        }
    }
    if pos2 > 0 {
        if pos2 - 1 < gone {
            assert(shorter[pos2 - 1] == sorted[pos2 - 1]);
        } else {
            assert(shorter[pos2 - 1] == sorted[pos2]);
        }
    }
    lemma_inserted_at(order, shorter, envelope, pos2);
    let moved = if gone < pos {
        gone
    } else {
        gone + 1
    };
    assert(shorter.insert(pos2, envelope) =~= sorted.insert(pos, envelope).remove(moved));
}

/// The place in the plan of the record that stands at `k` in the batch.
pub open spec fn plan_position(order: Seq<LegacyTable>, batch: Seq<EnvelopeView>, k: int) -> int
    decreases batch.len(),
{
    if batch.len() == 0 {
        0
    } else {
        let front = batch.drop_last();
        let pos = insert_position(order, planned(order, front), batch.last());
        if k == batch.len() - 1 {
            pos
        } else {
            let before = plan_position(order, front, k);
            if before < pos {
                before
            } else {
                before + 1
            }
        }
    }
}

/// The plan of a batch without one record is the plan of the batch without
/// that record.
pub proof fn lemma_planned_remove(order: Seq<LegacyTable>, batch: Seq<EnvelopeView>, k: int)
    requires
        0 <= k < batch.len(),
    ensures
        0 <= plan_position(order, batch, k) < planned(order, batch).len(),
        planned(order, batch)[plan_position(order, batch, k)] == batch[k],
        planned(order, batch.remove(k)) == planned(order, batch).remove(
            plan_position(order, batch, k),
        ),
    decreases batch.len(),
{
    let front = batch.drop_last();
    let sorted = planned(order, front);
    let pos = insert_position(order, sorted, batch.last());
    lemma_planned(order, front);
    lemma_planned(order, batch);
    lemma_insert_position(order, sorted, batch.last());
    if k == batch.len() - 1 {
        assert(batch.remove(k) =~= front);
        assert(sorted.insert(pos, batch.last()).remove(pos) =~= sorted);
    } else {
        lemma_planned_remove(order, front, k);
        let before = plan_position(order, front, k);
        let shorter = batch.remove(k);
        assert(shorter.drop_last() =~= front.remove(k));
        assert(shorter.last() == batch.last());
        lemma_inserted_remove(order, sorted, batch.last(), before);
        assert(front[k] == batch[k]);
    }
}

/// The key of a record under the registry's table order.
pub fn key_of(registry: &Registry, envelope: &Envelope) -> (key: PlanKey)
    requires
        registry.wf(),
    ensures
        key@ == plan_key(registry.table_order(), envelope@),
{
    if envelope.action == SyncAction::Merge {
        return PlanKey { phase: PHASE_MERGE, rank: 0, sequence: envelope.sequence };
    }
    match LegacyTable::from_name(envelope.table_name.as_str()) {
        Some(table) => match registry.rank(table) {
            Some(rank) => PlanKey { phase: PHASE_TABLES, rank, sequence: envelope.sequence },
            None => PlanKey { phase: PHASE_UNKNOWN, rank: 0, sequence: envelope.sequence },
        },
        None => PlanKey { phase: PHASE_UNKNOWN, rank: 0, sequence: envelope.sequence },
    }
}

/// Whether `a` is applied no later than `b`.
pub fn applies_no_later(a: PlanKey, b: PlanKey) -> (r: bool)
    ensures
        r == key_le(a@, b@),
{
    if a.phase != b.phase {
        a.phase < b.phase
    } else if a.rank != b.rank {
        a.rank < b.rank
    } else {
        a.sequence <= b.sequence
    }
}

/// Puts the records of a batch in the order in which they are applied.
pub fn plan_batch(registry: &Registry, batch: &Vec<Envelope>) -> (plan: Vec<Envelope>)
    requires
        registry.wf(),
    ensures
        envelope_views(plan@) == planned(registry.table_order(), envelope_views(batch@)),
{
    let ghost order = registry.table_order();
    let ghost views = envelope_views(batch@);
    let mut plan: Vec<Envelope> = Vec::new();
    let mut n: usize = 0;
    assert(views.take(0) =~= Seq::<EnvelopeView>::empty());
    assert(envelope_views(plan@) =~= Seq::<EnvelopeView>::empty());
    while n < batch.len()
        invariant
            registry.wf(),
            order == registry.table_order(),
            views == envelope_views(batch@),
            n <= batch.len(),
            envelope_views(plan@) == planned(order, views.take(n as int)),
        decreases batch.len() - n,
    {
        let key = key_of(registry, &batch[n]);
        let ghost sorted = envelope_views(plan@);
        let mut pos: usize = plan.len();
        while pos > 0 && !applies_no_later(key_of(registry, &plan[pos - 1]), key)
            invariant
                registry.wf(),
                order == registry.table_order(),
                sorted == envelope_views(plan@),
                n < batch.len(),
                key@ == plan_key(order, batch[n as int]@),
                pos <= plan.len(),
                forall|j: int|
                    pos <= j < sorted.len() ==> !key_le(
                        plan_key(order, #[trigger] sorted[j]),
                        plan_key(order, batch[n as int]@),
                    ),
            decreases pos,
        {
            pos -= 1;
        }
        proof {
            if pos > 0 {
                assert(sorted[pos - 1] == plan[pos - 1]@);
            }
            lemma_inserted_at(order, sorted, batch[n as int]@, pos as int);
            assert(views.take(n + 1).drop_last() =~= views.take(n as int));
            assert(views.take(n + 1).last() == batch[n as int]@);
        }
        plan.insert(pos, batch[n].clone());
        assert(envelope_views(plan@) =~= sorted.insert(pos as int, batch[n as int]@));
        n += 1;
    }
    assert(views.take(n as int) =~= views);
    plan
}

} // verus!
