//! The integration driver.
//!
//! One pull cycle takes the pending records of the sync buffer as a batch.
//! The driver plans the batch, applies every record of the plan to working
//! copies of the stores and keeps a log with one entry per record. Nothing
//! of this is visible until the caller has written the staged batch to its
//! storage and reports how that ended: a committed batch becomes the new
//! state and moves the cursor, a failed one is dropped whole.

use vstd::prelude::*;
use crate::sync::domain_store::{DomainMap, DomainStore, applied};
use crate::sync::envelope::{Envelope, EnvelopeView, SyncAction, envelope_views};
use crate::sync::link_store::{LinkResolutionError, LinkRow, LinkStore, MergeOutcome};
use crate::sync::name_merge::{NameMergeTranslation, merge_translation};
use crate::sync::plan::{plan_batch, planned};
use crate::sync::records::{IntegrationRecords, RecordsView};
use crate::sync::registry::{
    ConfigurationError,
    PullDependency,
    Registry,
    distinct_tables,
    integration_order,
    orderable,
    translator_named,
    valid_order,
};
use crate::sync::table::LegacyTable;
use crate::sync::translation::{TranslationError, translate, translation};

verus! {

/// Why a record asked for nothing.
#[derive(Clone, Copy, Debug, PartialEq, Eq, Structural)]
pub enum SkipReason {
    /// No translator is registered for the table of the record.
    UnknownTable,
    /// The merge found nothing that still resolves to the deleted id.
    NoExistingLink,
    /// The link store refused the merge; this is a warning, no error.
    MergeRefused(LinkResolutionError),
}

/// Why a merge that gave no records gave none.
pub open spec fn skip_reason(report: Option<Result<MergeOutcome, LinkResolutionError>>) -> SkipReason {
    match report {
        None => SkipReason::UnknownTable,
        Some(Ok(_)) => SkipReason::NoExistingLink,
        Some(Err(e)) => SkipReason::MergeRefused(e),
    }
}

/// How one record of a batch ended.
#[derive(Clone, Copy, Debug, PartialEq, Eq, Structural)]
pub enum Outcome {
    /// The record was translated and its rows were applied.
    Applied,
    /// The record asked for nothing, for the reason given.
    Skipped(SkipReason),
    /// The record could not be translated. It is parked; nothing of it was
    /// applied.
    Errored(TranslationError),
}

/// One entry of the log, as contracts see it.
pub struct ProcessedView {
    pub record_id: Seq<char>,
    pub table_name: Seq<char>,
    pub sequence: u64,
    pub outcome: Outcome,
    pub records: Option<RecordsView>,
}

/// One entry of the log: a record of the batch, how it ended, and the rows
/// that it wrote and removed.
#[derive(Debug)]
pub struct ProcessedRecord {
    pub record_id: String,
    pub table_name: String,
    pub sequence: u64,
    pub outcome: Outcome,
    pub records: Option<IntegrationRecords>,
}

impl View for ProcessedRecord {
    type V = ProcessedView;

    open spec fn view(&self) -> ProcessedView {
        ProcessedView {
            record_id: self.record_id@,
            table_name: self.table_name@,
            sequence: self.sequence,
            outcome: self.outcome,
            records: match self.records {
                Some(r) => Some(r@),
                None => None,
            },
        }
    }
}

/// The views of a log.
pub open spec fn log_views(log: Seq<ProcessedRecord>) -> Seq<ProcessedView> {
    log.map_values(|p: ProcessedRecord| p@)
}

/// The stores after one record, how the record ended and what it wrote.
pub struct Stepped {
    pub links: Seq<LinkRow>,
    pub domain: DomainMap,
    pub outcome: Outcome,
    pub records: Option<RecordsView>,
}

/// Applying one record.
///
/// A merge goes to the merge translator, whatever its table. Any other
/// record goes to the translator of its table and its records are applied
/// to the domain; without a translator it is skipped. A record that cannot
/// be translated changes nothing.
pub open spec fn stepped(
    order: Seq<LegacyTable>,
    links: Seq<LinkRow>,
    domain: DomainMap,
    envelope: EnvelopeView,
) -> Stepped {
    if envelope.action == SyncAction::Merge {
        let merge = merge_translation(links, envelope);
        match merge.result {
            Ok(Some(records)) => Stepped {
                links: merge.links,
                domain,
                outcome: Outcome::Applied,
                records: Some(records),
            },
            Ok(None) => Stepped {
                links: merge.links,
                domain,
                outcome: Outcome::Skipped(skip_reason(merge.report)),
                records: None,
            },
            Err(e) => Stepped {
                links: merge.links,
                domain,
                outcome: Outcome::Errored(e),
                records: None,
            },
        }
    } else {
        match translator_named(order, envelope.table_name) {
            Some(table) => {
                let translated = translation(table, links, domain, envelope);
                match translated.result {
                    Ok(records) => Stepped {
                        links: translated.links,
                        domain: applied(domain, records),
                        outcome: Outcome::Applied,
                        records: Some(records),
                    },
                    Err(e) => Stepped {
                        links: translated.links,
                        domain,
                        outcome: Outcome::Errored(e),
                        records: None,
                    },
                }
            },
            None => Stepped {
                links,
                domain,
                outcome: Outcome::Skipped(SkipReason::UnknownTable),
                records: None,
            },
        }
    }
}

/// The log entry of a record that was applied with the result `step`.
pub open spec fn processed(envelope: EnvelopeView, step: Stepped) -> ProcessedView {
    ProcessedView {
        record_id: envelope.record_id,
        table_name: envelope.table_name,
        sequence: envelope.sequence,
        outcome: step.outcome,
        records: step.records,
    }
}

/// The stores and the log after a sequence of records.
pub struct Ran {
    pub links: Seq<LinkRow>,
    pub domain: DomainMap,
    pub log: Seq<ProcessedView>,
}

/// Applying the records of `plan` one after the other, first to last.
pub open spec fn ran(
    order: Seq<LegacyTable>,
    links: Seq<LinkRow>,
    domain: DomainMap,
    plan: Seq<EnvelopeView>,
) -> Ran
    decreases plan.len(),
{
    if plan.len() == 0 {
        Ran { links, domain, log: seq![] }
    } else {
        let before = ran(order, links, domain, plan.drop_last());
        let step = stepped(order, before.links, before.domain, plan.last());
        Ran {
            links: step.links,
            domain: step.domain,
            log: before.log.push(processed(plan.last(), step)),
        }
    }
}

/// The newest sequence among `cursor` and the records of `batch`.
pub open spec fn newest(cursor: u64, batch: Seq<EnvelopeView>) -> u64
    decreases batch.len(),
{
    if batch.len() == 0 {
        cursor
    } else {
        let before = newest(cursor, batch.drop_last());
        if batch.last().sequence > before {
            batch.last().sequence
        } else {
            before
        }
    }
}

/// Applies one record to the stores and says how it ended.
pub fn apply_envelope(
    registry: &Registry,
    links: &mut LinkStore,
    domain: &mut DomainStore,
    envelope: &Envelope,
) -> (entry: ProcessedRecord)
    requires
        registry.wf(),
        old(links).wf(),
        old(domain).wf(),
    ensures
        final(links).wf(),
        final(domain).wf(),
        final(links).rows() == stepped(
            registry.table_order(),
            old(links).rows(),
            old(domain)@,
            envelope@,
        ).links,
        final(domain)@ == stepped(
            registry.table_order(),
            old(links).rows(),
            old(domain)@,
            envelope@,
        ).domain,
        entry@ == processed(
            envelope@,
            stepped(registry.table_order(), old(links).rows(), old(domain)@, envelope@),
        ),
{
    let mut outcome = Outcome::Skipped(SkipReason::UnknownTable);
    let mut records: Option<IntegrationRecords> = None;
    if envelope.action == SyncAction::Merge {
        let translator = NameMergeTranslation {  };
        match translator.translate_merge(links, envelope) {
            Ok(Some(done)) => {
                match done.records {
                    Some(rewritten) => {
                        outcome = Outcome::Applied;
                        records = Some(rewritten);
                    },
                    None => {
                        outcome = match done.report {
                            Ok(_) => Outcome::Skipped(SkipReason::NoExistingLink),
                            Err(e) => Outcome::Skipped(SkipReason::MergeRefused(e)),
                        };
                    },
                }
            },
            Ok(None) => {},
            Err(e) => {
                outcome = Outcome::Errored(e);
            },
        }
    } else {
        match registry.translator_for(envelope.table_name.as_str()) {
            Some(table) => match translate(table, links, domain, envelope) {
                Ok(translated) => {
                    domain.apply(&translated);
                    outcome = Outcome::Applied;
                    records = Some(translated);
                },
                Err(e) => {
                    outcome = Outcome::Errored(e);
                },
            },
            None => {},
        }
    }
    ProcessedRecord {
        record_id: envelope.record_id.clone(),
        table_name: envelope.table_name.clone(),
        sequence: envelope.sequence,
        outcome,
        records,
    }
}

/// Applies the records of `plan`, first to last, and returns the log.
pub fn run_plan(
    registry: &Registry,
    links: &mut LinkStore,
    domain: &mut DomainStore,
    plan: &Vec<Envelope>,
) -> (log: Vec<ProcessedRecord>)
    requires
        registry.wf(),
        old(links).wf(),
        old(domain).wf(),
    ensures
        final(links).wf(),
        final(domain).wf(),
        final(links).rows() == ran(
            registry.table_order(),
            old(links).rows(),
            old(domain)@,
            envelope_views(plan@),
        ).links,
        final(domain)@ == ran(
            registry.table_order(),
            old(links).rows(),
            old(domain)@,
            envelope_views(plan@),
        ).domain,
        log_views(log@) == ran(
            registry.table_order(),
            old(links).rows(),
            old(domain)@,
            envelope_views(plan@),
        ).log,
{
    let ghost order = registry.table_order();
    let ghost views = envelope_views(plan@);
    let ghost links0 = links.rows();
    let ghost domain0 = domain@;
    let mut log: Vec<ProcessedRecord> = Vec::new();
    let mut i: usize = 0;
    assert(views.take(0) =~= Seq::<EnvelopeView>::empty());
    assert(log_views(log@) =~= Seq::<ProcessedView>::empty());
    while i < plan.len()
        invariant
            registry.wf(),
            order == registry.table_order(),
            views == envelope_views(plan@),
            i <= plan.len(),
            links.wf(),
            domain.wf(),
            links.rows() == ran(order, links0, domain0, views.take(i as int)).links,
            domain@ == ran(order, links0, domain0, views.take(i as int)).domain,
            log_views(log@) == ran(order, links0, domain0, views.take(i as int)).log,
        decreases plan.len() - i,
    {
        proof {
            assert(views.take(i + 1).drop_last() =~= views.take(i as int));
            assert(views.take(i + 1).last() == plan[i as int]@);
        }
        let ghost before = log_views(log@);
        let entry = apply_envelope(registry, links, domain, &plan[i]);
        log.push(entry);
        assert(log_views(log@) =~= before.push(entry@));
        i += 1;
    }
    assert(views.take(i as int) =~= views);
    log
}

/// The newest sequence among `cursor` and the records of `batch`.
pub fn newest_sequence(cursor: u64, batch: &Vec<Envelope>) -> (sequence: u64)
    ensures
        sequence == newest(cursor, envelope_views(batch@)),
{
    let ghost views = envelope_views(batch@);
    let mut sequence = cursor;
    let mut i: usize = 0;
    assert(views.take(0) =~= Seq::<EnvelopeView>::empty());
    while i < batch.len()
        invariant
            views == envelope_views(batch@),
            i <= batch.len(),
            sequence == newest(cursor, views.take(i as int)),
        decreases batch.len() - i,
    {
        proof {
            assert(views.take(i + 1).drop_last() =~= views.take(i as int));
            assert(views.take(i + 1).last() == batch[i as int]@);
        }
        if batch[i].sequence > sequence {
            sequence = batch[i].sequence;
        }
        i += 1;
    }
    assert(views.take(i as int) =~= views);
    sequence
}

/// What went wrong in the caller's storage.
#[derive(Clone, Copy, Debug, PartialEq, Eq, Structural)]
pub enum StorageError {
    /// The storage could not be reached.
    Connection,
    /// The transaction that wrote the batch did not commit.
    Transaction,
}

/// How the caller's storage took a staged batch.
#[derive(Clone, Copy, Debug, PartialEq, Eq, Structural)]
pub enum StorageOutcome {
    /// Everything that the batch wrote is stored, together with its cursor.
    Committed,
    /// Nothing of the batch is stored.
    Failed(StorageError),
}

/// An error that ends a pull cycle.
#[derive(Clone, Copy, Debug, PartialEq, Eq, Structural)]
pub enum FatalError {
    /// The translators' dependencies admit no order.
    Configuration(ConfigurationError),
    /// The storage failed; the batch is to be pulled again.
    Storage(StorageError),
}

/// The kinds of outcome that the summary counts.
#[derive(Clone, Copy, Debug, PartialEq, Eq, Structural)]
pub enum OutcomeKind {
    Applied,
    Skipped,
    Errored,
}

/// The kind of an outcome.
pub open spec fn kind_of(outcome: Outcome) -> OutcomeKind {
    match outcome {
        Outcome::Applied => OutcomeKind::Applied,
        Outcome::Skipped(_) => OutcomeKind::Skipped,
        Outcome::Errored(_) => OutcomeKind::Errored,
    }
}

/// How many entries of `log` belong to `table` and ended in `kind`.
/// `table` is `None` for the records whose table name is unknown.
pub open spec fn counted(log: Seq<ProcessedView>, table: Option<LegacyTable>, kind: OutcomeKind) -> nat
    decreases log.len(),
{
    if log.len() == 0 {
        0
    } else {
        counted(log.drop_last(), table, kind) + if crate::sync::table::table_named(log.last().table_name)
            == table && kind_of(log.last().outcome) == kind {
            1nat
        } else {
            0nat
        }
    }
}

/// The counts of one table.
#[derive(Clone, Copy, Debug, PartialEq, Eq, Structural)]
pub struct TableCounts {
    pub applied: usize,
    pub skipped: usize,
    pub errored: usize,
}

/// The counts of `table` in `log`.
pub open spec fn counts_in(log: Seq<ProcessedView>, table: Option<LegacyTable>) -> TableCounts {
    TableCounts {
        applied: counted(log, table, OutcomeKind::Applied) as usize,
        skipped: counted(log, table, OutcomeKind::Skipped) as usize,
        errored: counted(log, table, OutcomeKind::Errored) as usize,
    }
}

/// What a pull cycle did: for each table, how many of its records were
/// applied, skipped and parked with an error.
#[derive(Clone, Copy, Debug, PartialEq, Eq, Structural)]
pub struct IntegrationSummary {
    pub name: TableCounts,
    pub store: TableCounts,
    pub item: TableCounts,
    pub orders: TableCounts,
    pub order_line: TableCounts,
    /// The records of tables that the engine does not know.
    pub unknown: TableCounts,
}

/// The summary of a log.
pub open spec fn summary_of(log: Seq<ProcessedView>) -> IntegrationSummary {
    IntegrationSummary {
        name: counts_in(log, Some(LegacyTable::Name)),
        store: counts_in(log, Some(LegacyTable::Store)),
        item: counts_in(log, Some(LegacyTable::Item)),
        orders: counts_in(log, Some(LegacyTable::Orders)),
        order_line: counts_in(log, Some(LegacyTable::OrderLine)),
        unknown: counts_in(log, None),
    }
}

impl IntegrationSummary {
    /// The counts of `table`.
    pub fn counts(&self, table: LegacyTable) -> (counts: TableCounts)
        ensures
            counts == match table {
                LegacyTable::Name => self.name,
                LegacyTable::Store => self.store,
                LegacyTable::Item => self.item,
                LegacyTable::Orders => self.orders,
                LegacyTable::OrderLine => self.order_line,
            },
    {
        match table {
            LegacyTable::Name => self.name,
            LegacyTable::Store => self.store,
            LegacyTable::Item => self.item,
            LegacyTable::Orders => self.orders,
            LegacyTable::OrderLine => self.order_line,
        }
    }
}

/// No count exceeds the length of the log.
proof fn lemma_counted_bound(log: Seq<ProcessedView>, table: Option<LegacyTable>, kind: OutcomeKind)
    ensures
        counted(log, table, kind) <= log.len(),
    decreases log.len(),
{
    if log.len() > 0 {
        lemma_counted_bound(log.drop_last(), table, kind);
    }
}

fn same_table(a: Option<LegacyTable>, b: Option<LegacyTable>) -> (r: bool)
    ensures
        r == (a == b),
{
    match (a, b) {
        (Some(x), Some(y)) => x == y,
        (None, None) => true,
        _ => false,
    }
}

fn kind(outcome: Outcome) -> (k: OutcomeKind)
    ensures
        k == kind_of(outcome),
{
    match outcome {
        Outcome::Applied => OutcomeKind::Applied,
        Outcome::Skipped(_) => OutcomeKind::Skipped,
        Outcome::Errored(_) => OutcomeKind::Errored,
    }
}

/// Counts the entries of `log` that belong to `table`, by outcome.
pub fn tally(log: &Vec<ProcessedRecord>, table: Option<LegacyTable>) -> (counts: TableCounts)
    ensures
        counts == counts_in(log_views(log@), table),
{
    let ghost views = log_views(log@);
    let mut counts = TableCounts { applied: 0, skipped: 0, errored: 0 };
    let mut i: usize = 0;
    assert(views.take(0) =~= Seq::<ProcessedView>::empty());
    while i < log.len()
        invariant
            views == log_views(log@),
            i <= log.len(),
            counts.applied == counted(views.take(i as int), table, OutcomeKind::Applied),
            counts.skipped == counted(views.take(i as int), table, OutcomeKind::Skipped),
            counts.errored == counted(views.take(i as int), table, OutcomeKind::Errored),
        decreases log.len() - i,
    {
        proof {
            assert(views.take(i + 1).drop_last() =~= views.take(i as int));
            assert(views.take(i + 1).last() == log[i as int]@);
            lemma_counted_bound(views.take(i as int), table, OutcomeKind::Applied);
            lemma_counted_bound(views.take(i as int), table, OutcomeKind::Skipped);
            lemma_counted_bound(views.take(i as int), table, OutcomeKind::Errored);
        }
        if same_table(LegacyTable::from_name(log[i].table_name.as_str()), table) {
            match kind(log[i].outcome) {
                OutcomeKind::Applied => {
                    counts.applied += 1;
                },
                OutcomeKind::Skipped => {
                    counts.skipped += 1;
                },
                OutcomeKind::Errored => {
                    counts.errored += 1;
                },
            }
        }
        i += 1;
    }
    assert(views.take(i as int) =~= views);
    counts
}

/// Sums a log up, table by table.
pub fn summarize(log: &Vec<ProcessedRecord>) -> (summary: IntegrationSummary)
    ensures
        summary == summary_of(log_views(log@)),
{
    IntegrationSummary {
        name: tally(log, Some(LegacyTable::Name)),
        store: tally(log, Some(LegacyTable::Store)),
        item: tally(log, Some(LegacyTable::Item)),
        orders: tally(log, Some(LegacyTable::Orders)),
        order_line: tally(log, Some(LegacyTable::OrderLine)),
        unknown: tally(log, None),
    }
}

/// A batch that was applied to working copies of the stores and waits for
/// the caller's storage.
pub struct StagedBatch {
    links: LinkStore,
    domain: DomainStore,
    cursor: u64,
    log: Vec<ProcessedRecord>,
}

impl StagedBatch {
    /// The rows of the link store after the batch.
    pub closed spec fn link_rows(&self) -> Seq<LinkRow> {
        self.links.rows()
    }

    /// The content of the domain store after the batch.
    pub closed spec fn domain_content(&self) -> DomainMap {
        self.domain@
    }

    /// The cursor after the batch.
    pub closed spec fn cursor_value(&self) -> u64 {
        self.cursor
    }

    /// The log of the batch, in the order in which records were applied.
    pub closed spec fn log_entries(&self) -> Seq<ProcessedView> {
        log_views(self.log@)
    }

    /// The staged stores are valid.
    pub closed spec fn wf(&self) -> bool {
        self.links.wf() && self.domain.wf()
    }

    /// The log of the batch: one entry per record, in the order in which
    /// the records were applied. It holds what the caller has to write.
    pub fn log(&self) -> (log: &Vec<ProcessedRecord>)
        ensures
            log_views(log@) == self.log_entries(),
    {
        &self.log
    }

    /// The cursor that is stored together with the batch.
    pub fn cursor(&self) -> (cursor: u64)
        ensures
            cursor == self.cursor_value(),
    {
        self.cursor
    }

    /// What the batch did, table by table.
    pub fn summary(&self) -> (summary: IntegrationSummary)
        ensures
            summary == summary_of(self.log_entries()),
    {
        summarize(&self.log)
    }
}

/// The state of a batch that was staged on the given state.
pub open spec fn staged_on(
    order: Seq<LegacyTable>,
    links: Seq<LinkRow>,
    domain: DomainMap,
    cursor: u64,
    batch: Seq<EnvelopeView>,
    staged: StagedBatch,
) -> bool {
    let run = ran(order, links, domain, planned(order, batch));
    &&& staged.link_rows() == run.links
    &&& staged.domain_content() == run.domain
    &&& staged.log_entries() == run.log
    &&& staged.cursor_value() == newest(cursor, batch)
}

/// The integration driver with the state that it has committed.
pub struct Integrator {
    registry: Registry,
    links: LinkStore,
    domain: DomainStore,
    cursor: u64,
}

impl Integrator {
    /// The order in which tables are integrated.
    pub closed spec fn table_order(&self) -> Seq<LegacyTable> {
        self.registry.table_order()
    }

    /// The rows of the link store.
    pub closed spec fn link_rows(&self) -> Seq<LinkRow> {
        self.links.rows()
    }

    /// The content of the domain store.
    pub closed spec fn domain_content(&self) -> DomainMap {
        self.domain@
    }

    /// The sequence up to which records are integrated.
    pub closed spec fn cursor_value(&self) -> u64 {
        self.cursor
    }

    /// The driver's invariant: the registry and both stores are valid.
    pub closed spec fn wf(&self) -> bool {
        self.registry.wf() && self.links.wf() && self.domain.wf()
    }

    /// A driver that has integrated nothing yet.
    pub fn new(registry: Registry) -> (driver: Integrator)
        requires
            registry.wf(),
        ensures
            driver.wf(),
            driver.table_order() == registry.table_order(),
            driver.link_rows() == Seq::<LinkRow>::empty(),
            driver.domain_content() == Map::<crate::sync::domain_store::RowKey, crate::sync::records::DomainRowView>::empty(),
            driver.cursor_value() == 0,
    {
        Integrator { registry, links: LinkStore::new(), domain: DomainStore::new(), cursor: 0 }
    }

    /// Starts a driver from the descriptors of its translators. Descriptors
    /// that admit no order of integration are refused here, before any
    /// record is integrated.
    pub fn start(descriptors: Vec<PullDependency>) -> (result: Result<Integrator, FatalError>)
        ensures
            match result {
                Ok(driver) => {
                    &&& driver.wf()
                    &&& distinct_tables(descriptors@)
                    &&& valid_order(descriptors@, driver.table_order())
                    &&& integration_order(descriptors@) == Some(driver.table_order())
                    &&& driver.link_rows() == Seq::<LinkRow>::empty()
                    &&& driver.domain_content() == Map::<
                        crate::sync::domain_store::RowKey,
                        crate::sync::records::DomainRowView,
                    >::empty()
                    &&& driver.cursor_value() == 0
                },
                Err(FatalError::Configuration(ConfigurationError::DuplicateTable(t))) => exists|
                    i: int,
                    j: int,
                |
                    0 <= i < j < descriptors.len() && descriptors[i].table == t
                        && descriptors[j].table == t,
                Err(FatalError::Configuration(ConfigurationError::CyclicDependency)) => {
                    distinct_tables(descriptors@) && !orderable(descriptors@)
                },
                Err(FatalError::Storage(_)) => false,
            },
            result is Ok <==> distinct_tables(descriptors@) && orderable(descriptors@),
    {
        match Registry::new(descriptors) {
            Ok(registry) => {
                proof {
                    registry.lemma_wf();
                }
                Ok(Integrator::new(registry))
            },
            Err(e) => Err(FatalError::Configuration(e)),
        }
    }

    /// A driver that resumes from stored state.
    pub fn resume(registry: Registry, links: LinkStore, domain: DomainStore, cursor: u64) -> (driver:
        Integrator)
        requires
            registry.wf(),
            links.wf(),
            domain.wf(),
        ensures
            driver.wf(),
            driver.table_order() == registry.table_order(),
            driver.link_rows() == links.rows(),
            driver.domain_content() == domain@,
            driver.cursor_value() == cursor,
    {
        Integrator { registry, links, domain, cursor }
    }

    /// The link store.
    pub fn links(&self) -> (links: &LinkStore)
        requires
            self.wf(),
        ensures
            links.wf(),
            links.rows() == self.link_rows(),
    {
        &self.links
    }

    /// The domain store.
    pub fn domain(&self) -> (domain: &DomainStore)
        requires
            self.wf(),
        ensures
            domain.wf(),
            domain@ == self.domain_content(),
    {
        &self.domain
    }

    /// The sequence up to which records are integrated.
    pub fn cursor(&self) -> (cursor: u64)
        ensures
            cursor == self.cursor_value(),
    {
        self.cursor
    }

    /// Plans the batch and applies it to working copies of the stores.
    /// The driver's own state does not change.
    pub fn stage(&self, batch: &Vec<Envelope>) -> (staged: StagedBatch)
        requires
            self.wf(),
        ensures
            staged.wf(),
            staged_on(
                self.table_order(),
                self.link_rows(),
                self.domain_content(),
                self.cursor_value(),
                envelope_views(batch@),
                staged,
            ),
    {
        let plan = plan_batch(&self.registry, batch);
        let mut links = self.links.clone();
        let mut domain = self.domain.clone();
        let log = run_plan(&self.registry, &mut links, &mut domain, &plan);
        let cursor = newest_sequence(self.cursor, batch);
        StagedBatch { links, domain, cursor, log }
    }

    /// Ends a pull cycle with what the storage reported.
    ///
    /// A committed batch becomes the state of the driver and its cursor
    /// the cursor. After a failure the driver is as it was before the
    /// batch, cursor included, so that the same batch is pulled again.
    pub fn settle(&mut self, staged: StagedBatch, storage: StorageOutcome) -> (result: Result<
        IntegrationSummary,
        FatalError,
    >)
        requires
            old(self).wf(),
            staged.wf(),
        ensures
            final(self).wf(),
            final(self).table_order() == old(self).table_order(),
            match storage {
                StorageOutcome::Committed => {
                    &&& result == Ok::<IntegrationSummary, FatalError>(
                        summary_of(staged.log_entries()),
                    )
                    &&& final(self).link_rows() == staged.link_rows()
                    &&& final(self).domain_content() == staged.domain_content()
                    &&& final(self).cursor_value() == staged.cursor_value()
                },
                StorageOutcome::Failed(e) => {
                    &&& result == Err::<IntegrationSummary, FatalError>(FatalError::Storage(e))
                    &&& final(self).link_rows() == old(self).link_rows()
                    &&& final(self).domain_content() == old(self).domain_content()
                    &&& final(self).cursor_value() == old(self).cursor_value()
                },
            },
    {
        match storage {
            StorageOutcome::Committed => {
                let summary = staged.summary();
                self.links = staged.links;
                self.domain = staged.domain;
                self.cursor = staged.cursor;
                Ok(summary)
            },
            StorageOutcome::Failed(e) => Err(FatalError::Storage(e)),
        }
    }
}

} // verus!
