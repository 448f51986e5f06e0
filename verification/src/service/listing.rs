//! What every listing shares: pagination and the errors of a query.

use vstd::prelude::*;

verus! {

/// The page size when the caller names none.
pub const DEFAULT_PAGINATION_LIMIT: u32 = 100;

/// What went wrong in the repository.
#[derive(Debug)]
pub enum RepositoryError {
    NotFound,
    UniqueViolation(String),
    ForeignKeyViolation(String),
    DBError { msg: String, extra: String },
}

/// The page that a caller asks for; both parts are optional.
#[derive(Clone, Copy, Debug, PartialEq, Eq, Structural)]
pub struct PaginationOption {
    pub limit: Option<u32>,
    pub offset: Option<u32>,
}

/// The page that a query is made with.
#[derive(Clone, Copy, Debug, PartialEq, Eq, Structural)]
pub struct Pagination {
    pub offset: u32,
    pub limit: u32,
}

/// A listing that cannot be made.
#[derive(Debug)]
pub enum ListError {
    DatabaseError(RepositoryError),
    LimitBelowMin(u32),
    LimitAboveMax(u32),
}

/// The page to query with, or the bound that the asked limit breaks.
pub enum PageCheck {
    Page(Pagination),
    BelowMin(u32),
    AboveMax(u32),
}

/// The page for what the caller asked: the asked limit must lie between
/// `min_limit` and `max_limit`, the lower bound being tested first; what
/// the caller left open is filled in.
pub open spec fn page_for(option: Option<PaginationOption>, max_limit: u32, min_limit: u32) -> PageCheck {
    match option {
        Some(PaginationOption { limit: Some(limit), offset }) => if limit < min_limit {
            PageCheck::BelowMin(min_limit)
        } else if limit > max_limit {
            PageCheck::AboveMax(max_limit)
        } else {
            PageCheck::Page(
                Pagination {
                    offset: match offset {
                        Some(o) => o,
                        None => 0,
                    },
                    limit,
                },
            )
        },
        Some(PaginationOption { limit: None, offset }) => PageCheck::Page(
            Pagination {
                offset: match offset {
                    Some(o) => o,
                    None => 0,
                },
                limit: DEFAULT_PAGINATION_LIMIT,
            },
        ),
        None => PageCheck::Page(Pagination { offset: 0, limit: DEFAULT_PAGINATION_LIMIT }),
    }
}

/// Checks the asked page against the bounds and fills in what was left
/// open.
pub fn get_default_pagination(
    pagination_option: Option<PaginationOption>,
    max_limit: u32,
    min_limit: u32,
) -> (result: Result<Pagination, ListError>)
    ensures
        match page_for(pagination_option, max_limit, min_limit) {
            PageCheck::Page(page) => result matches Ok(p) && p == page,
            PageCheck::BelowMin(min) => result matches Err(ListError::LimitBelowMin(m)) && m == min,
            PageCheck::AboveMax(max) => result matches Err(ListError::LimitAboveMax(m)) && m == max,
        },
{
    match pagination_option {
        Some(pagination) => {
            let offset = match pagination.offset {
                Some(offset) => offset,
                None => 0,
            };
            let limit = match pagination.limit {
                Some(limit) => {
                    if limit < min_limit {
                        return Err(ListError::LimitBelowMin(min_limit));
                    }
                    if limit > max_limit {
                        return Err(ListError::LimitAboveMax(max_limit));
                    }
                    limit
                },
                None => DEFAULT_PAGINATION_LIMIT,
            };
            Ok(Pagination { offset, limit })
        },
        None => Ok(Pagination { offset: 0, limit: DEFAULT_PAGINATION_LIMIT }),
    }
}

/// A count as the repository gives it, as a `u32`: what does not fit
/// counts as nothing.
pub fn i64_to_u32(num: i64) -> (count: u32)
    ensures
        count == if 0 <= num <= u32::MAX {
            num as u32
        } else {
            0u32
        },
{
    if num < 0 || num > 4294967295 {
        0
    } else {
        num as u32
    }
}

} // verus!
