//! Listing invoices and finding one.

use vstd::prelude::*;
use crate::seq_util::lemma_filter_take_step;
use crate::service::listing::{
    ListError,
    PageCheck,
    PaginationOption,
    RepositoryError,
    get_default_pagination,
    i64_to_u32,
    page_for,
};

verus! {

/// The largest page that a listing of invoices gives.
pub const MAX_LIMIT: u32 = 1000;

/// The smallest page that a listing of invoices gives.
pub const MIN_LIMIT: u32 = 1;

/// What an invoice is for.
#[derive(Clone, Copy, Debug, PartialEq, Eq, Hash, Structural)]
pub enum InvoiceRowType {
    OutboundShipment,
    InboundShipment,
    InventoryAddition,
    InventoryReduction,
    Prescription,
    InboundReturn,
    OutboundReturn,
}

/// How far an invoice has come.
#[derive(Clone, Copy, Debug, PartialEq, Eq, Hash, Structural)]
pub enum InvoiceRowStatus {
    New,
    Allocated,
    Picked,
    Shipped,
    Delivered,
    Verified,
}

/// An invoice, in contracts.
pub struct InvoiceView {
    pub id: Seq<char>,
    pub name_id: Seq<char>,
    pub store_id: Seq<char>,
    pub invoice_number: i64,
    pub invoice_type: InvoiceRowType,
    pub status: InvoiceRowStatus,
    pub created_datetime: i64,
    pub allocated_datetime: Option<i64>,
    pub picked_datetime: Option<i64>,
    pub shipped_datetime: Option<i64>,
    pub delivered_datetime: Option<i64>,
    pub verified_datetime: Option<i64>,
}

/// An invoice as listings show it. A point in time is a number of
/// milliseconds since the epoch, in UTC.
#[derive(Debug)]
pub struct Invoice {
    pub id: String,
    pub name_id: String,
    pub store_id: String,
    pub invoice_number: i64,
    pub invoice_type: InvoiceRowType,
    pub status: InvoiceRowStatus,
    pub created_datetime: i64,
    pub allocated_datetime: Option<i64>,
    pub picked_datetime: Option<i64>,
    pub shipped_datetime: Option<i64>,
    pub delivered_datetime: Option<i64>,
    pub verified_datetime: Option<i64>,
}

impl View for Invoice {
    type V = InvoiceView;

    open spec fn view(&self) -> InvoiceView {
        InvoiceView {
            id: self.id@,
            name_id: self.name_id@,
            store_id: self.store_id@,
            invoice_number: self.invoice_number,
            invoice_type: self.invoice_type,
            status: self.status,
            created_datetime: self.created_datetime,
            allocated_datetime: self.allocated_datetime,
            picked_datetime: self.picked_datetime,
            shipped_datetime: self.shipped_datetime,
            delivered_datetime: self.delivered_datetime,
            verified_datetime: self.verified_datetime,
        }
    }
}

/// The views of a list of invoices.
pub open spec fn invoice_views(rows: Seq<Invoice>) -> Seq<InvoiceView> {
    rows.map_values(|r: Invoice| r@)
}

/// One page of a listing, with the number of all rows that match.
#[derive(Debug)]
pub struct ListResult<T> {
    pub rows: Vec<T>,
    pub count: u32,
}

/// Why a single record was not found.
#[derive(Debug)]
pub enum SingleRecordError {
    DatabaseError(RepositoryError),
    NotFound(String),
}

/// The count of a listing: the repository's count where it fits a `u32`,
/// else nothing.
pub open spec fn listed_count(count: i64) -> u32 {
    if 0 <= count <= u32::MAX {
        count as u32
    } else {
        0u32
    }
}

/// The listing for the page that was asked, from the rows and the count
/// that the query gave. A limit outside the bounds is an error.
pub fn get_invoices(pagination: Option<PaginationOption>, rows: Vec<Invoice>, count: i64) -> (result:
    Result<ListResult<Invoice>, ListError>)
    ensures
        match page_for(pagination, MAX_LIMIT, MIN_LIMIT) {
            PageCheck::Page(_) => result matches Ok(list) && list.rows == rows && list.count
                == listed_count(count),
            PageCheck::BelowMin(_) => result matches Err(ListError::LimitBelowMin(m)) && m
                == MIN_LIMIT,
            PageCheck::AboveMax(_) => result matches Err(ListError::LimitAboveMax(m)) && m
                == MAX_LIMIT,
        },
{
    match get_default_pagination(pagination, MAX_LIMIT, MIN_LIMIT) {
        Ok(_) => Ok(ListResult { rows, count: i64_to_u32(count) }),
        Err(e) => Err(e),
    }
}

/// The invoice with `id`, from the rows that a query for that id gave: the
/// last row, or the error that names the id.
pub fn get_invoice(rows: Vec<Invoice>, id: String) -> (result: Result<Invoice, SingleRecordError>)
    ensures
        match result {
            Ok(invoice) => rows.len() > 0 && invoice == rows[rows.len() - 1],
            Err(SingleRecordError::NotFound(missing)) => rows.len() == 0 && missing == id,
            Err(SingleRecordError::DatabaseError(_)) => false,
        },
{
    let mut result = rows;
    match result.pop() {
        Some(record) => Ok(record),
        None => Err(SingleRecordError::NotFound(id)),
    }
}

/// An outbound shipment of the store that has not left yet: it is new,
/// allocated or picked.
pub open spec fn outbound_not_shipped(invoice: InvoiceView, store_id: Seq<char>) -> bool {
    &&& invoice.store_id == store_id
    &&& invoice.invoice_type == InvoiceRowType::OutboundShipment
    &&& (invoice.status == InvoiceRowStatus::New || invoice.status == InvoiceRowStatus::Allocated
        || invoice.status == InvoiceRowStatus::Picked)
}

/// An inbound shipment of the store that is on its way: it is shipped and
/// no further.
pub open spec fn inbound_not_delivered(invoice: InvoiceView, store_id: Seq<char>) -> bool {
    &&& invoice.store_id == store_id
    &&& invoice.invoice_type == InvoiceRowType::InboundShipment
    &&& invoice.status == InvoiceRowStatus::Shipped
}

/// When the invoice reached `status`, if it has.
pub open spec fn reached_at(invoice: InvoiceView, status: InvoiceRowStatus) -> Option<i64> {
    match status {
        InvoiceRowStatus::New => Some(invoice.created_datetime),
        InvoiceRowStatus::Allocated => invoice.allocated_datetime,
        InvoiceRowStatus::Picked => invoice.picked_datetime,
        InvoiceRowStatus::Shipped => invoice.shipped_datetime,
        InvoiceRowStatus::Delivered => invoice.delivered_datetime,
        InvoiceRowStatus::Verified => invoice.verified_datetime,
    }
}

/// An invoice of the store and type that reached `status` no earlier than
/// `oldest` and, where `earliest` is given, no later than that.
pub open spec fn reached_within(
    invoice: InvoiceView,
    invoice_type: InvoiceRowType,
    status: InvoiceRowStatus,
    oldest: i64,
    earliest: Option<i64>,
    store_id: Seq<char>,
) -> bool {
    &&& invoice.store_id == store_id
    &&& invoice.invoice_type == invoice_type
    &&& reached_at(invoice, status) matches Some(at)
    &&& at >= oldest
    &&& earliest matches Some(latest) ==> at <= latest
}

/// How many invoices of the store and type reached `invoice_status`
/// between `oldest` and `earliest`. The time that counts is the time of
/// the change to that status, whatever status the invoice has now.
pub fn invoices_count(
    invoices: &Vec<Invoice>,
    invoice_type: &InvoiceRowType,
    invoice_status: &InvoiceRowStatus,
    oldest: i64,
    earliest: Option<i64>,
    store_id: &str,
) -> (count: usize)
    ensures
        count == invoice_views(invoices@).filter(
            |i: InvoiceView|
                reached_within(i, *invoice_type, *invoice_status, oldest, earliest, store_id@),
        ).len(),
{
    let key: String = store_id.to_owned();
    let ghost views = invoice_views(invoices@);
    let ghost pred = |i: InvoiceView|
        reached_within(i, *invoice_type, *invoice_status, oldest, earliest, store_id@);
    let mut count: usize = 0;
    let mut n: usize = 0;
    assert(views.take(0).filter(pred) =~= Seq::<InvoiceView>::empty());
    while n < invoices.len()
        invariant
            n <= invoices.len(),
            key@ == store_id@,
            views == invoice_views(invoices@),
            pred == |i: InvoiceView|
                reached_within(i, *invoice_type, *invoice_status, oldest, earliest, store_id@),
            count == views.take(n as int).filter(pred).len(),
            count <= n,
        decreases invoices.len() - n,
    {
        proof {
            lemma_filter_take_step(views, pred, n as int);
        }
        let invoice = &invoices[n];
        let at: Option<i64> = match invoice_status {
            InvoiceRowStatus::New => Some(invoice.created_datetime),
            InvoiceRowStatus::Allocated => invoice.allocated_datetime,
            InvoiceRowStatus::Picked => invoice.picked_datetime,
            InvoiceRowStatus::Shipped => invoice.shipped_datetime,
            InvoiceRowStatus::Delivered => invoice.delivered_datetime,
            InvoiceRowStatus::Verified => invoice.verified_datetime,
        };
        let in_range = match at {
            Some(at) => at >= oldest && match earliest {
                Some(latest) => at <= latest,
                None => true,
            },
            None => false,
        };
        if invoice.store_id == key && invoice.invoice_type == *invoice_type && in_range {
            count += 1;
        }
        n += 1;
    }
    assert(views.take(n as int) =~= views);
    count
}

/// Counts of invoices for the dashboard of a store.
#[derive(Clone, Copy, Debug)]
pub struct InvoiceCountService {}

impl InvoiceCountService {
    /// How many outbound shipments of the store have not left yet.
    pub fn outbound_invoices_not_shipped_count(&self, invoices: &Vec<Invoice>, store_id: &str) -> (count:
        usize)
        ensures
            count == invoice_views(invoices@).filter(
                |i: InvoiceView| outbound_not_shipped(i, store_id@),
            ).len(),
    {
        let key: String = store_id.to_owned();
        let ghost views = invoice_views(invoices@);
        let ghost pred = |i: InvoiceView| outbound_not_shipped(i, store_id@);
        let mut count: usize = 0;
        let mut n: usize = 0;
        assert(views.take(0).filter(pred) =~= Seq::<InvoiceView>::empty());
        while n < invoices.len()
            invariant
                n <= invoices.len(),
                key@ == store_id@,
                views == invoice_views(invoices@),
                pred == |i: InvoiceView| outbound_not_shipped(i, store_id@),
                count == views.take(n as int).filter(pred).len(),
                count <= n,
            decreases invoices.len() - n,
        {
            proof {
                lemma_filter_take_step(views, pred, n as int);
            }
            let invoice = &invoices[n];
            let open = match invoice.status {
                InvoiceRowStatus::New => true,
                InvoiceRowStatus::Allocated => true,
                InvoiceRowStatus::Picked => true,
                _ => false,
            };
            if invoice.store_id == key && invoice.invoice_type == InvoiceRowType::OutboundShipment
                && open {
                count += 1;
            }
            n += 1;
        }
        assert(views.take(n as int) =~= views);
        count
    }

    /// How many inbound shipments of the store are on their way.
    pub fn inbound_invoices_not_delivered_count(&self, invoices: &Vec<Invoice>, store_id: &str) -> (count:
        usize)
        ensures
            count == invoice_views(invoices@).filter(
                |i: InvoiceView| inbound_not_delivered(i, store_id@),
            ).len(),
    {
        let key: String = store_id.to_owned();
        let ghost views = invoice_views(invoices@);
        let ghost pred = |i: InvoiceView| inbound_not_delivered(i, store_id@);
        let mut count: usize = 0;
        let mut n: usize = 0;
        assert(views.take(0).filter(pred) =~= Seq::<InvoiceView>::empty());
        while n < invoices.len()
            invariant
                n <= invoices.len(),
                key@ == store_id@,
                views == invoice_views(invoices@),
                pred == |i: InvoiceView| inbound_not_delivered(i, store_id@),
                count == views.take(n as int).filter(pred).len(),
                count <= n,
            decreases invoices.len() - n,
        {
            proof {
                lemma_filter_take_step(views, pred, n as int);
            }
            let invoice = &invoices[n];
            if invoice.store_id == key && invoice.invoice_type == InvoiceRowType::InboundShipment
                && invoice.status == InvoiceRowStatus::Shipped {
                count += 1;
            }
            n += 1;
        }
        assert(views.take(n as int) =~= views);
        count
    }
}

} // verus!
