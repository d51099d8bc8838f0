//! Image sidebar data: the image descriptor, the fixed non-production
//! stub, and the freshness rule for the cached descriptor.

use vstd::prelude::*;
use crate::time;
use crate::UserState;

verus! {

/// A cached image descriptor is usable for this many minutes.
pub const MAX_UNSPLASH_AGE_MIN: i64 = 1440;

/// Renditions of one image.
#[derive(Debug, PartialEq, Eq)]
pub struct Urls {
    pub full: String,
    pub regular: String,
    pub small: String,
}

/// Links related to one image.
#[derive(Debug, PartialEq, Eq)]
pub struct Links {
    pub html: String,
}

/// The image's author.
#[derive(Debug, PartialEq, Eq)]
pub struct User {
    pub name: String,
}

/// One image descriptor from the image source.
#[derive(Debug, PartialEq, Eq)]
pub struct Unsplash {
    pub urls: Urls,
    pub links: Links,
    pub user: User,
}

impl Clone for Urls {
    fn clone(&self) -> (r: Self)
        ensures
            r == *self,
    {
        Urls {
            full: self.full.clone(),
            regular: self.regular.clone(),
            small: self.small.clone(),
        }
    }
}

impl Clone for Links {
    fn clone(&self) -> (r: Self)
        ensures
            r == *self,
    {
        Links { html: self.html.clone() }
    }
}

impl Clone for User {
    fn clone(&self) -> (r: Self)
        ensures
            r == *self,
    {
        User { name: self.name.clone() }
    }
}

impl Clone for Unsplash {
    fn clone(&self) -> (r: Self)
        ensures
            r == *self,
    {
        Unsplash {
            urls: self.urls.clone(),
            links: self.links.clone(),
            user: self.user.clone(),
        }
    }
}

/// Whether the entry's cached image descriptor is still usable at `now`:
/// present, stamped, and younger than the image freshness window.
pub open spec fn unsplash_usable(e: UserState, now: int) -> bool {
    &&& e.unsplash is Some
    &&& match e.unsplash_updated_at {
        Some(t) => time::age_minutes(t as int, now) < MAX_UNSPLASH_AGE_MIN as int,
        None => false,
    }
}

/// The cached image descriptor, if it is still usable at `now`.
pub fn cached_unsplash(user_state: &UserState, now: i64) -> (r: Option<Unsplash>)
    requires
        match user_state.unsplash_updated_at {
            Some(t) => -0x7fff_ffff_ffff_ffff <= now as int - t as int <= 0x7fff_ffff_ffff_ffff,
            None => true,
        },
    ensures
        match r {
            Some(u) => unsplash_usable(*user_state, now as int) && user_state.unsplash == Some(u),
            None => !unsplash_usable(*user_state, now as int),
        },
{
    if let Some(u) = &user_state.unsplash {
        if let Some(t) = user_state.unsplash_updated_at {
            if time::age_in_minutes(t, now) < MAX_UNSPLASH_AGE_MIN {
                return Some(u.clone());
            }
        }
    }
    None
}

/// Stores a freshly fetched image descriptor in the entry and stamps it
/// with `now`; everything else is unchanged.
pub fn apply_unsplash_update(user_state: UserState, unsplash: Unsplash, now: i64) -> (r: UserState)
    ensures
        r.unsplash == Some(unsplash),
        r.unsplash_updated_at == Some(now),
        r.tasks == user_state.tasks,
        r.skip_task_ids == user_state.skip_task_ids,
        r.tasks_updated_at == user_state.tasks_updated_at,
        r.timezone == user_state.timezone,
{
    let UserState { tasks, skip_task_ids, tasks_updated_at, unsplash: _, unsplash_updated_at: _, timezone } =
        user_state;
    UserState {
        tasks,
        skip_task_ids,
        tasks_updated_at,
        unsplash: Some(unsplash),
        unsplash_updated_at: Some(now),
        timezone,
    }
}

/// The fixed image served when no image-source credential is configured.
pub fn stub() -> (r: Unsplash)
    ensures
        r.urls.full@
            == "https://images.unsplash.com/photo-1731453171960-0f8c884c72a4?crop=entropy&cs=srgb&fm=jpg&ixid=M3w3NDgzNHwwfDF8cmFuZG9tfHx8fHx8fHx8MTczMzAzMDYxOHw&ixlib=rb-4.0.3&q=85"@,
        r.urls.regular@
            == "https://images.unsplash.com/photo-1731453171960-0f8c884c72a4?crop=entropy&cs=tinysrgb&fit=max&fm=jpg&ixid=M3w3NDgzNHwwfDF8cmFuZG9tfHx8fHx8fHx8MTczMzAzMDYxOHw&ixlib=rb-4.0.3&q=80&w=1080"@,
        r.urls.small@
            == "https://images.unsplash.com/photo-1731453171960-0f8c884c72a4?crop=entropy&cs=tinysrgb&fit=max&fm=jpg&ixid=M3w3NDgzNHwwfDF8cmFuZG9tfHx8fHx8fHx8MTczMzAzMDYxOHw&ixlib=rb-4.0.3&q=80&w=400"@,
        r.links.html@ == "https://unsplash.com/photos/a-blurry-photo-of-a-beach-at-sunset-Qn2nubHzL7w"@,
        r.user.name@ == "Adrian Botica"@,
{
    Unsplash {
        urls: Urls {
            full: "https://images.unsplash.com/photo-1731453171960-0f8c884c72a4?crop=entropy&cs=srgb&fm=jpg&ixid=M3w3NDgzNHwwfDF8cmFuZG9tfHx8fHx8fHx8MTczMzAzMDYxOHw&ixlib=rb-4.0.3&q=85".to_owned(),
            regular: "https://images.unsplash.com/photo-1731453171960-0f8c884c72a4?crop=entropy&cs=tinysrgb&fit=max&fm=jpg&ixid=M3w3NDgzNHwwfDF8cmFuZG9tfHx8fHx8fHx8MTczMzAzMDYxOHw&ixlib=rb-4.0.3&q=80&w=1080".to_owned(),
            small: "https://images.unsplash.com/photo-1731453171960-0f8c884c72a4?crop=entropy&cs=tinysrgb&fit=max&fm=jpg&ixid=M3w3NDgzNHwwfDF8cmFuZG9tfHx8fHx8fHx8MTczMzAzMDYxOHw&ixlib=rb-4.0.3&q=80&w=400".to_owned(),
        },
        links: Links {
            html: "https://unsplash.com/photos/a-blurry-photo-of-a-beach-at-sunset-Qn2nubHzL7w".to_owned(),
        },
        user: User { name: "Adrian Botica".to_owned() },
    }
}

} // verus!
