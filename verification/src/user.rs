//! The user's timezone as the remote source reports it, and how a
//! resolved timezone is cached in the entry.

use vstd::prelude::*;
use crate::UserState;

verus! {

/// Timezone details of the remote user record.
#[derive(Debug, PartialEq, Eq)]
pub struct TzInfo {
    pub timezone: String,
}

/// The remote user record, reduced to what the system reads of it.
#[derive(Debug, PartialEq, Eq)]
pub struct User {
    pub tz_info: TzInfo,
}

/// The envelope of the remote user query.
#[derive(Debug, PartialEq, Eq)]
pub struct SyncResponse {
    pub user: User,
}

/// The request body that asks the remote source for the user record.
pub fn user_sync_body() -> (r: String)
    ensures
        r@ == "{\"resource_types\": [\"user\"], \"sync_token\": \"*\"}"@,
{
    "{\"resource_types\": [\"user\"], \"sync_token\": \"*\"}".to_owned()
}

/// The timezone already resolved for this entry, if any.
pub fn cached_timezone(user_state: &UserState) -> (r: Option<chrono_tz::Tz>)
    ensures
        r == user_state.timezone,
{
    user_state.timezone
}

/// Stores a freshly resolved timezone in the entry; everything else is
/// unchanged.
pub fn apply_timezone_update(user_state: UserState, tz: chrono_tz::Tz) -> (r: UserState)
    ensures
        r.timezone == Some(tz),
        r.tasks == user_state.tasks,
        r.skip_task_ids == user_state.skip_task_ids,
        r.tasks_updated_at == user_state.tasks_updated_at,
        r.unsplash == user_state.unsplash,
        r.unsplash_updated_at == user_state.unsplash_updated_at,
{
    let UserState { tasks, skip_task_ids, tasks_updated_at, unsplash, unsplash_updated_at, timezone: _ } =
        user_state;
    UserState {
        tasks,
        skip_task_ids,
        tasks_updated_at,
        unsplash,
        unsplash_updated_at,
        timezone: Some(tz),
    }
}

} // verus!
