//! Adding a pack variant to an item.
//!
//! The caller looks up what the rules need, the rules decide, and the
//! caller writes the row that they return.

use vstd::prelude::*;
use crate::service::listing::RepositoryError;

verus! {

/// A pack variant, as contracts see it.
pub struct PackVariantView {
    pub id: Seq<char>,
    pub item_id: Seq<char>,
    pub pack_size: i32,
    pub short_name: Seq<char>,
    pub long_name: Seq<char>,
}

/// A stored pack variant.
#[derive(Debug)]
pub struct PackVariantRow {
    pub id: String,
    pub item_id: String,
    pub pack_size: i32,
    pub short_name: String,
    pub long_name: String,
}

impl View for PackVariantRow {
    type V = PackVariantView;

    open spec fn view(&self) -> PackVariantView {
        PackVariantView {
            id: self.id@,
            item_id: self.item_id@,
            pack_size: self.pack_size,
            short_name: self.short_name@,
            long_name: self.long_name@,
        }
    }
}

/// Why a pack variant cannot be added.
#[derive(Debug)]
pub enum InsertPackVariantError {
    VariantWithPackSizeAlreadyExists,
    PackVariantAlreadyExists,
    CreatedRecordNotFound,
    ItemDoesNotExist,
    CannotAddPackSizeOfZero,
    DatabaseError(RepositoryError),
}

/// The pack variant to add.
#[derive(Debug)]
pub struct InsertPackVariant {
    pub id: String,
    pub item_id: String,
    pub pack_size: i32,
    pub short_name: String,
    pub long_name: String,
}

impl View for InsertPackVariant {
    type V = PackVariantView;

    open spec fn view(&self) -> PackVariantView {
        PackVariantView {
            id: self.id@,
            item_id: self.item_id@,
            pack_size: self.pack_size,
            short_name: self.short_name@,
            long_name: self.long_name@,
        }
    }
}

/// What the caller found in its storage for an input.
#[derive(Clone, Copy, Debug, PartialEq, Eq, Structural)]
pub struct PackVariantLookup {
    /// A pack variant with the input's id is stored.
    pub pack_variant_exists: bool,
    /// No stored variant of the item has the input's pack size.
    pub pack_size_is_unique: bool,
    /// The item is visible in the store.
    pub item_exists: bool,
}

/// The first rule that an input breaks.
pub enum Refusal {
    PackVariantAlreadyExists,
    VariantWithPackSizeAlreadyExists,
    CannotAddPackSizeOfZero,
    ItemDoesNotExist,
}

/// The rules in the order in which they are tested; `None` when the input
/// breaks none.
pub open spec fn refusal(found: PackVariantLookup, pack_size: i32) -> Option<Refusal> {
    if found.pack_variant_exists {
        Some(Refusal::PackVariantAlreadyExists)
    } else if !found.pack_size_is_unique {
        Some(Refusal::VariantWithPackSizeAlreadyExists)
    } else if pack_size == 0 {
        Some(Refusal::CannotAddPackSizeOfZero)
    } else if !found.item_exists {
        Some(Refusal::ItemDoesNotExist)
    } else {
        None
    }
}

/// The rule that an error stands for, if it stands for one.
pub open spec fn refusal_of(error: InsertPackVariantError) -> Option<Refusal> {
    match error {
        InsertPackVariantError::PackVariantAlreadyExists => Some(Refusal::PackVariantAlreadyExists),
        InsertPackVariantError::VariantWithPackSizeAlreadyExists => Some(
            Refusal::VariantWithPackSizeAlreadyExists,
        ),
        InsertPackVariantError::CannotAddPackSizeOfZero => Some(Refusal::CannotAddPackSizeOfZero),
        InsertPackVariantError::ItemDoesNotExist => Some(Refusal::ItemDoesNotExist),
        _ => None,
    }
}

/// The row for an input: the same five values.
pub fn generate(input: InsertPackVariant) -> (row: PackVariantRow)
    ensures
        row@ == input@,
{
    let InsertPackVariant { id, item_id, pack_size, short_name, long_name } = input;
    PackVariantRow { id, item_id, pack_size, short_name, long_name }
}

/// Tests the rules on an input, in their order.
pub fn validate(found: PackVariantLookup, input: &InsertPackVariant) -> (result: Result<
    (),
    InsertPackVariantError,
>)
    ensures
        match result {
            Ok(_) => refusal(found, input.pack_size) is None,
            Err(e) => refusal_of(e) is Some && refusal_of(e) == refusal(found, input.pack_size),
        },
{
    if found.pack_variant_exists {
        return Err(InsertPackVariantError::PackVariantAlreadyExists);
    }
    if !found.pack_size_is_unique {
        return Err(InsertPackVariantError::VariantWithPackSizeAlreadyExists);
    }
    if input.pack_size == 0 {
        return Err(InsertPackVariantError::CannotAddPackSizeOfZero);
    }
    if !found.item_exists {
        return Err(InsertPackVariantError::ItemDoesNotExist);
    }
    Ok(())
}

/// Decides on an input: the row to store, or the first rule that the
/// input breaks.
pub fn insert_pack_variant(found: PackVariantLookup, input: InsertPackVariant) -> (result: Result<
    PackVariantRow,
    InsertPackVariantError,
>)
    ensures
        match result {
            Ok(row) => refusal(found, input.pack_size) is None && row@ == input@,
            Err(e) => refusal_of(e) is Some && refusal_of(e) == refusal(found, input.pack_size),
        },
{
    match validate(found, &input) {
        Ok(_) => Ok(generate(input)),
        Err(e) => Err(e),
    }
}

/// What reading the stored row back gives: the row, or the error that says
/// it is not there.
pub fn created_record(stored: Option<PackVariantRow>) -> (result: Result<
    PackVariantRow,
    InsertPackVariantError,
>)
    ensures
        match stored {
            Some(row) => result == Ok::<PackVariantRow, InsertPackVariantError>(row),
            None => result matches Err(InsertPackVariantError::CreatedRecordNotFound),
        },
{
    match stored {
        Some(row) => Ok(row),
        None => Err(InsertPackVariantError::CreatedRecordNotFound),
    }
}

} // verus!
