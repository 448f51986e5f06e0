//! Rules on the log of an asset.

use vstd::prelude::*;
use crate::text::{clone_text, text_of};
use crate::seq_util::lemma_filter_take_step;

verus! {

/// An asset, in contracts.
pub struct AssetView {
    pub id: Seq<char>,
    pub asset_number: Option<Seq<char>>,
}

/// A stored asset.
#[derive(Debug)]
pub struct AssetRow {
    pub id: String,
    pub asset_number: Option<String>,
}

impl View for AssetRow {
    type V = AssetView;

    open spec fn view(&self) -> AssetView {
        AssetView { id: self.id@, asset_number: text_of(self.asset_number) }
    }
}

impl Clone for AssetRow {
    fn clone(&self) -> (copy: AssetRow)
        ensures
            copy@ == self@,
    {
        AssetRow { id: self.id.clone(), asset_number: clone_text(&self.asset_number) }
    }
}

/// An entry of the log of an asset, in contracts.
pub struct AssetLogView {
    pub id: Seq<char>,
    pub asset_id: Seq<char>,
    pub status: Option<AssetLogStatus>,
    pub reason: Option<AssetLogReason>,
}

/// A stored entry of the log of an asset.
#[derive(Debug)]
pub struct AssetLogRow {
    pub id: String,
    pub asset_id: String,
    pub status: Option<AssetLogStatus>,
    pub reason: Option<AssetLogReason>,
}

impl View for AssetLogRow {
    type V = AssetLogView;

    open spec fn view(&self) -> AssetLogView {
        AssetLogView {
            id: self.id@,
            asset_id: self.asset_id@,
            status: self.status,
            reason: self.reason,
        }
    }
}

impl Clone for AssetLogRow {
    fn clone(&self) -> (copy: AssetLogRow)
        ensures
            copy@ == self@,
    {
        AssetLogRow {
            id: self.id.clone(),
            asset_id: self.asset_id.clone(),
            status: self.status,
            reason: self.reason,
        }
    }
}

/// The place of an asset inside a facility, in contracts.
pub struct AssetLocationView {
    pub id: Seq<char>,
    pub asset_id: Seq<char>,
    pub location_id: Seq<char>,
}

/// A stored assignment of a location to an asset.
#[derive(Debug)]
pub struct AssetInternalLocationRow {
    pub id: String,
    pub asset_id: String,
    pub location_id: String,
}

impl View for AssetInternalLocationRow {
    type V = AssetLocationView;

    open spec fn view(&self) -> AssetLocationView {
        AssetLocationView { id: self.id@, asset_id: self.asset_id@, location_id: self.location_id@ }
    }
}

impl Clone for AssetInternalLocationRow {
    fn clone(&self) -> (copy: AssetInternalLocationRow)
        ensures
            copy@ == self@,
    {
        AssetInternalLocationRow {
            id: self.id.clone(),
            asset_id: self.asset_id.clone(),
            location_id: self.location_id.clone(),
        }
    }
}

/// The views of stored assets.
pub open spec fn asset_views(rows: Seq<AssetRow>) -> Seq<AssetView> {
    rows.map_values(|r: AssetRow| r@)
}

/// The views of stored log entries.
pub open spec fn log_views(rows: Seq<AssetLogRow>) -> Seq<AssetLogView> {
    rows.map_values(|r: AssetLogRow| r@)
}

/// The views of stored assignments.
pub open spec fn location_views(rows: Seq<AssetInternalLocationRow>) -> Seq<AssetLocationView> {
    rows.map_values(|r: AssetInternalLocationRow| r@)
}

/// The views of a list of ids.
pub open spec fn id_views(ids: Seq<String>) -> Seq<Seq<char>> {
    ids.map_values(|s: String| s@)
}

/// The first asset with the id `id` among `assets`.
pub fn check_asset_exists(id: &str, assets: &Vec<AssetRow>) -> (found: Option<AssetRow>)
    ensures
        match found {
            Some(row) => exists|i: int|
                0 <= i < assets.len() && row@ == (#[trigger] assets[i])@ && row@.id == id@
                    && forall|j: int| 0 <= j < i ==> (#[trigger] assets[j])@.id != id@,
            None => forall|i: int| 0 <= i < assets.len() ==> (#[trigger] assets[i])@.id != id@,
        },
{
    let key: String = id.to_owned();
    let mut i: usize = 0;
    while i < assets.len()
        invariant
            i <= assets.len(),
            key@ == id@,
            forall|j: int| 0 <= j < i ==> (#[trigger] assets[j])@.id != id@,
        decreases assets.len() - i,
    {
        if assets[i].id == key {
            return Some(assets[i].clone());
        }
        i += 1;
    }
    None
}

/// The assets that carry the number `asset_number`, in stored order.
pub fn check_asset_number_exists(asset_number: &str, assets: &Vec<AssetRow>) -> (found: Vec<
    AssetRow,
>)
    ensures
        asset_views(found@) == asset_views(assets@).filter(
            |a: AssetView| a.asset_number == Some(asset_number@),
        ),
{
    let key: String = asset_number.to_owned();
    let ghost views = asset_views(assets@);
    let ghost pred = |a: AssetView| a.asset_number == Some(asset_number@);
    let mut found: Vec<AssetRow> = Vec::new();
    let mut i: usize = 0;
    assert(views.take(0).filter(pred) =~= Seq::<AssetView>::empty());
    assert(asset_views(found@) =~= Seq::<AssetView>::empty());
    while i < assets.len()
        invariant
            i <= assets.len(),
            key@ == asset_number@,
            views == asset_views(assets@),
            pred == |a: AssetView| a.asset_number == Some(asset_number@),
            asset_views(found@) == views.take(i as int).filter(pred),
        decreases assets.len() - i,
    {
        proof {
            lemma_filter_take_step(views, pred, i as int);
        }
        let matches = match &assets[i].asset_number {
            Some(number) => *number == key,
            None => false,
        };
        if matches {
            let ghost before = asset_views(found@);
            found.push(assets[i].clone());
            assert(asset_views(found@) =~= before.push(views[i as int]));
        }
        i += 1;
    }
    assert(views.take(i as int) =~= views);
    found
}

/// The first log entry with the id `id` among `logs`.
pub fn check_asset_log_exists(id: &str, logs: &Vec<AssetLogRow>) -> (found: Option<AssetLogRow>)
    ensures
        match found {
            Some(row) => exists|i: int|
                0 <= i < logs.len() && row@ == (#[trigger] logs[i])@ && row@.id == id@
                    && forall|j: int| 0 <= j < i ==> (#[trigger] logs[j])@.id != id@,
            None => forall|i: int| 0 <= i < logs.len() ==> (#[trigger] logs[i])@.id != id@,
        },
{
    let key: String = id.to_owned();
    let mut i: usize = 0;
    while i < logs.len()
        invariant
            i <= logs.len(),
            key@ == id@,
            forall|j: int| 0 <= j < i ==> (#[trigger] logs[j])@.id != id@,
        decreases logs.len() - i,
    {
        if logs[i].id == key {
            return Some(logs[i].clone());
        }
        i += 1;
    }
    None
}

/// Whether `ids` holds the id `id`.
fn holds_id(ids: &Vec<String>, id: &String) -> (held: bool)
    ensures
        held == id_views(ids@).contains(id@),
{
    let mut i: usize = 0;
    while i < ids.len()
        invariant
            i <= ids.len(),
            forall|j: int| 0 <= j < i ==> ids[j]@ != id@,
        decreases ids.len() - i,
    {
        if ids[i] == *id {
            assert(id_views(ids@)[i as int] == id@);
            return true;
        }
        i += 1;
    }
    assert forall|j: int| 0 <= j < id_views(ids@).len() implies id_views(ids@)[j] != id@ by {
        assert(ids[j]@ != id@);
    }
    false
}

/// The assignments of one of the locations `location_ids` to another asset
/// than `asset_id`, in stored order.
pub fn check_locations_are_assigned(
    location_ids: Vec<String>,
    asset_id: &str,
    assigned: &Vec<AssetInternalLocationRow>,
) -> (taken: Vec<AssetInternalLocationRow>)
    ensures
        location_views(taken@) == location_views(assigned@).filter(
            |a: AssetLocationView|
                id_views(location_ids@).contains(a.location_id) && a.asset_id != asset_id@,
        ),
{
    let key: String = asset_id.to_owned();
    let ghost views = location_views(assigned@);
    let ghost pred = |a: AssetLocationView|
        id_views(location_ids@).contains(a.location_id) && a.asset_id != asset_id@;
    let mut taken: Vec<AssetInternalLocationRow> = Vec::new();
    let mut i: usize = 0;
    assert(views.take(0).filter(pred) =~= Seq::<AssetLocationView>::empty());
    assert(location_views(taken@) =~= Seq::<AssetLocationView>::empty());
    while i < assigned.len()
        invariant
            i <= assigned.len(),
            key@ == asset_id@,
            views == location_views(assigned@),
            pred == |a: AssetLocationView|
                id_views(location_ids@).contains(a.location_id) && a.asset_id != asset_id@,
            location_views(taken@) == views.take(i as int).filter(pred),
        decreases assigned.len() - i,
    {
        proof {
            lemma_filter_take_step(views, pred, i as int);
        }
        if holds_id(&location_ids, &assigned[i].location_id) && assigned[i].asset_id != key {
            let ghost before = location_views(taken@);
            taken.push(assigned[i].clone());
            assert(location_views(taken@) =~= before.push(views[i as int]));
        }
        i += 1;
    }
    assert(views.take(i as int) =~= views);
    taken
}

/// The state that a log entry puts an asset in.
#[derive(Clone, Copy, Debug, PartialEq, Eq, Hash, Structural)]
pub enum AssetLogStatus {
    NotInUse,
    Functioning,
    FunctioningButNeedsAttention,
    NotFunctioning,
    Decommissioned,
}

/// The reason that a log entry gives for the state.
#[derive(Clone, Copy, Debug, PartialEq, Eq, Hash, Structural)]
pub enum AssetLogReason {
    AwaitingInstallation,
    Stored,
    OffsiteForRepairs,
    AwaitingDecommissioning,
    NeedsServicing,
    MultipleTemperatureBreaches,
    Unknown,
    NeedsSpareParts,
    LackOfPower,
    Functioning,
    Decommissioned,
}

/// The reasons that may be given for a state. A functioning or
/// decommissioned asset takes no reason at all.
pub open spec fn reason_fits(status: AssetLogStatus, reason: AssetLogReason) -> bool {
    match status {
        AssetLogStatus::NotInUse => reason == AssetLogReason::AwaitingDecommissioning || reason
            == AssetLogReason::Stored || reason == AssetLogReason::OffsiteForRepairs,
        AssetLogStatus::FunctioningButNeedsAttention => reason == AssetLogReason::NeedsServicing
            || reason == AssetLogReason::MultipleTemperatureBreaches,
        AssetLogStatus::NotFunctioning => reason == AssetLogReason::Unknown || reason
            == AssetLogReason::NeedsSpareParts || reason == AssetLogReason::LackOfPower,
        AssetLogStatus::Functioning => false,
        AssetLogStatus::Decommissioned => false,
    }
}

/// Whether a log entry may carry this state and this reason together. An
/// entry without a state or without a reason always may.
pub fn check_reason_matches_status(
    status: &Option<AssetLogStatus>,
    reason: &Option<AssetLogReason>,
) -> (fits: bool)
    ensures
        fits == match (*status, *reason) {
            (Some(s), Some(r)) => reason_fits(s, r),
            _ => true,
        },
{
    let status = match status {
        Some(status) => *status,
        None => {
            return true;
        },
    };
    let reason = match reason {
        Some(reason) => *reason,
        None => {
            return true;
        },
    };
    match status {
        AssetLogStatus::NotInUse => {
            reason == AssetLogReason::AwaitingDecommissioning || reason == AssetLogReason::Stored
                || reason == AssetLogReason::OffsiteForRepairs
        },
        AssetLogStatus::FunctioningButNeedsAttention => {
            reason == AssetLogReason::NeedsServicing || reason
                == AssetLogReason::MultipleTemperatureBreaches
        },
        AssetLogStatus::NotFunctioning => {
            reason == AssetLogReason::Unknown || reason == AssetLogReason::NeedsSpareParts || reason
                == AssetLogReason::LackOfPower
        },
        _ => false,
    }
}

} // verus!
