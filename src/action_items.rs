//! Shapes of the action-item endpoints' requests and answers.
use vstd::prelude::*;

verus! {

/// The outcome of a change to one action item.
pub struct ActionItemStatusResponse {
    pub status: String,
}

/// Marks an action item deleted without removing it.
pub struct SoftDeleteActionItemRequest {
    pub deleted_by: String,
    pub reason: Option<String>,
    pub kept_task_id: Option<String>,
}

/// Which action items to list, and in what order.
pub struct GetActionItemsQuery {
    pub limit: usize,
    pub offset: usize,
    pub completed: Option<bool>,
    pub conversation_id: Option<String>,
    pub start_date: Option<String>,
    pub end_date: Option<String>,
    pub due_start_date: Option<String>,
    pub due_end_date: Option<String>,
    pub sort_by: Option<String>,
    pub deleted: Option<bool>,
}

/// The page size of an action-item listing that names none.
pub fn default_limit() -> (r: usize)
    ensures
        r == 100,
{
    100
}

} // verus!
