//! The unit of the sync buffer: one change record in the legacy format.

use vstd::prelude::*;

verus! {

/// What a change record asks for.
#[derive(Clone, Copy, Debug, PartialEq, Eq, Hash, Structural)]
pub enum SyncAction {
    Upsert,
    Delete,
    Merge,
}

/// One buffered change record, as contracts see it.
pub struct EnvelopeView {
    pub record_id: Seq<char>,
    pub table_name: Seq<char>,
    pub action: SyncAction,
    pub sequence: u64,
    pub payload: Seq<char>,
}

/// One buffered change record. It is never changed once received.
///
/// Within a table, records are ordered by `sequence`. Across tables the
/// sequence says nothing; the order of integration follows from the
/// declared dependencies of the tables.
#[derive(Debug)]
pub struct Envelope {
    pub record_id: String,
    pub table_name: String,
    pub action: SyncAction,
    pub sequence: u64,
    pub payload: String,
}

impl View for Envelope {
    type V = EnvelopeView;

    open spec fn view(&self) -> EnvelopeView {
        EnvelopeView {
            record_id: self.record_id@,
            table_name: self.table_name@,
            action: self.action,
            sequence: self.sequence,
            payload: self.payload@,
        }
    }
}

impl Envelope {
    pub fn new(
        record_id: &str,
        table_name: &str,
        action: SyncAction,
        sequence: u64,
        payload: &str,
    ) -> (envelope: Envelope)
        ensures
            envelope@ == (EnvelopeView {
                record_id: record_id@,
                table_name: table_name@,
                action,
                sequence,
                payload: payload@,
            }),
    {
        Envelope {
            record_id: record_id.to_owned(),
            table_name: table_name.to_owned(),
            action,
            sequence,
            payload: payload.to_owned(),
        }
    }
}

impl Clone for Envelope {
    fn clone(&self) -> (copy: Envelope)
        ensures
            copy@ == self@,
    {
        Envelope {
            record_id: self.record_id.clone(),
            table_name: self.table_name.clone(),
            action: self.action,
            sequence: self.sequence,
            payload: self.payload.clone(),
        }
    }
}

/// The views of a sequence of envelopes.
pub open spec fn envelope_views(batch: Seq<Envelope>) -> Seq<EnvelopeView> {
    batch.map_values(|e: Envelope| e@)
}

} // verus!
