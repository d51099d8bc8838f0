//! The task cache: freshness decision, suppression merging, and the two
//! read-through outcomes (serve from cache, or store a fresh fetch).
//!
//! A read for one cache key runs as: `get_or_create_user_state` on what
//! the store returned, `determine_freshness` on the entry, then either
//! `apply_cache_hit` (entry still usable) or, after the caller fetched the
//! remote list, `apply_cache_refresh`; the caller persists the returned
//! entry, whose `tasks` field is the visible list.

use vstd::prelude::*;
use crate::tasks::{Priority, Task};
use crate::time;
use crate::UserState;

verus! {

/// Cached task data are usable for this many minutes after a fetch.
pub const CACHE_TASKS_MAX_AGE_MINUTES: i64 = 15;

/// How usable one cache entry is for the operation at hand.
#[derive(Debug, Clone, Copy, PartialEq, Eq, Structural)]
pub enum CacheResult {
    /// Recent data with at least one task left to show.
    Hit,
    /// Data too old, or no task would be left to show.
    Expired,
    /// Never fetched for this key.
    Miss,
}

/// The identifier sequences of a list of identifiers.
pub open spec fn id_views(ids: Seq<String>) -> Seq<Seq<char>> {
    ids.map_values(|s: String| s@)
}

/// Whether an identifier occurs in a sequence of identifiers.
pub open spec fn ids_contain(ids: Seq<Seq<char>>, id: Seq<char>) -> bool {
    exists|i: int| 0 <= i < ids.len() && (#[trigger] ids[i]) == id
}

/// The identifier view of an optional identifier parameter.
pub open spec fn opt_id_view(id: Option<&String>) -> Option<Seq<char>> {
    match id {
        Some(s) => Some(s@),
        None => None,
    }
}

/// Whether a task stays visible when `completing` and the identifiers in
/// `skips` are removed.
pub open spec fn task_visible(t: Task, completing: Option<Seq<char>>, skips: Seq<Seq<char>>) -> bool {
    &&& match completing {
        Some(c) => t.id@ != c,
        None => true,
    }
    &&& !ids_contain(skips, t.id@)
}

/// The tasks that stay visible, in order.
pub open spec fn filter_tasks(
    ts: Seq<Task>,
    completing: Option<Seq<char>>,
    skips: Seq<Seq<char>>,
) -> Seq<Task>
    decreases ts.len(),
{
    if ts.len() == 0 {
        Seq::empty()
    } else {
        let rest = filter_tasks(ts.drop_last(), completing, skips);
        if task_visible(ts.last(), completing, skips) {
            rest.push(ts.last())
        } else {
            rest
        }
    }
}

/// The suppressed set after merging one optional skip identifier, with no
/// duplicate insertion.
pub open spec fn merge_skips(skips: Seq<Seq<char>>, skip: Option<Seq<char>>) -> Seq<Seq<char>> {
    match skip {
        Some(s) => if ids_contain(skips, s) {
            skips
        } else {
            skips.push(s)
        },
        None => skips,
    }
}

/// The suppressed set a full refresh starts over with: only the skip
/// issued in the refreshing request itself.
pub open spec fn refresh_skips(skip: Option<Seq<char>>) -> Seq<Seq<char>> {
    match skip {
        Some(s) => seq![s],
        None => Seq::empty(),
    }
}

/// The list a read of this entry would present: the entry's tasks with
/// the completing identifier, the accumulated suppressed identifiers, and
/// the skip of this request removed.
pub open spec fn visible_tasks(
    e: UserState,
    completing: Option<Seq<char>>,
    skip: Option<Seq<char>>,
) -> Seq<Task> {
    filter_tasks(e.tasks@, completing, merge_skips(id_views(e.skip_task_ids@), skip))
}

/// The freshness of an entry at instant `now` for this request.
pub open spec fn freshness_of(
    e: UserState,
    now: int,
    completing: Option<Seq<char>>,
    skip: Option<Seq<char>>,
) -> CacheResult {
    match e.tasks_updated_at {
        None => CacheResult::Miss,
        Some(t) => if time::age_minutes(t as int, now) < CACHE_TASKS_MAX_AGE_MINUTES as int
            && visible_tasks(e, completing, skip).len() > 0 {
            CacheResult::Hit
        } else {
            CacheResult::Expired
        },
    }
}

/// The entry invariant: no stored task carries a suppressed identifier.
pub open spec fn entry_inv(e: UserState) -> bool {
    forall|i: int|
        0 <= i < e.tasks@.len() ==> !ids_contain(
            id_views(e.skip_task_ids@),
            (#[trigger] e.tasks@[i]).id@,
        )
}

/// Whether an identifier occurs in a list of identifiers.
fn id_in_list(ids: &Vec<String>, id: &String) -> (r: bool)
    ensures
        r == ids_contain(id_views(ids@), id@),
{
    let mut i: usize = 0;
    while i < ids.len()
        invariant
            i <= ids@.len(),
            forall|j: int| 0 <= j < i ==> (#[trigger] id_views(ids@)[j]) != id@,
        decreases ids@.len() - i,
    {
        if ids[i].eq(id) {
            proof {
                assert(id_views(ids@)[i as int] == id@);
            }
            return true;
        }
        i += 1;
    }
    false
}

/// Whether a read with the given removals keeps a task visible.
fn task_visible_exec(t: &Task, completing: Option<&String>, skips: &Vec<String>) -> (r: bool)
    ensures
        r == task_visible(*t, opt_id_view(completing), id_views(skips@)),
{
    if let Some(c) = completing {
        if t.id.eq(c) {
            return false;
        }
    }
    !id_in_list(skips, &t.id)
}

/// Removes the completing task and every suppressed task from a list,
/// preserving order.
pub fn filter_completed_task(
    tasks: Vec<Task>,
    complete_task_id: Option<&String>,
    skip_task_ids: &Vec<String>,
) -> (r: Vec<Task>)
    ensures
        r@ == filter_tasks(tasks@, opt_id_view(complete_task_id), id_views(skip_task_ids@)),
{
    let ghost orig: Seq<Task> = tasks@;
    let ghost completing: Option<Seq<char>> = opt_id_view(complete_task_id);
    let ghost skips: Seq<Seq<char>> = id_views(skip_task_ids@);
    let mut tasks = tasks;
    let mut out: Vec<Task> = Vec::new();
    let ghost mut processed: Seq<Task> = Seq::empty();
    while tasks.len() > 0
        invariant
            orig =~= processed + tasks@,
            out@ == filter_tasks(processed, completing, skips),
            completing == opt_id_view(complete_task_id),
            skips == id_views(skip_task_ids@),
        decreases tasks@.len(),
    {
        let ghost prev: Seq<Task> = tasks@;
        let t = tasks.remove(0);
        proof {
            assert(t == prev[0]);
            assert(processed.push(t).drop_last() =~= processed);
            assert(processed + prev =~= processed.push(t) + tasks@);
        }
        let keep = task_visible_exec(&t, complete_task_id, skip_task_ids);
        proof {
            processed = processed.push(t);
        }
        if keep {
            out.push(t);
        }
    }
    proof {
        assert(orig =~= processed);
    }
    out
}

/// The accumulated suppressed identifiers with this request's skip merged
/// in, without duplicate insertion.
pub fn merge_skip_task_ids(user_state: &UserState, skip_task_id: Option<&String>) -> (r: Vec<
    String,
>)
    ensures
        id_views(r@) == merge_skips(id_views(user_state.skip_task_ids@), opt_id_view(skip_task_id)),
{
    let mut merged = user_state.skip_task_ids.clone();
    proof {
        assert(merged@ =~= user_state.skip_task_ids@);
    }
    if let Some(s) = skip_task_id {
        if !id_in_list(&merged, s) {
            merged.push(s.clone());
            proof {
                assert(id_views(merged@) =~= id_views(user_state.skip_task_ids@).push(s@));
            }
        }
    }
    merged
}

/// Whether at least one task would stay visible for this request (beyond
/// the one being completed and the suppressed ones).
pub fn more_tasks(
    state: &UserState,
    complete_task_id: Option<&String>,
    skip_task_id: Option<&String>,
) -> (r: bool)
    ensures
        r == (visible_tasks(*state, opt_id_view(complete_task_id), opt_id_view(skip_task_id)).len()
            > 0),
{
    let merged = merge_skip_task_ids(state, skip_task_id);
    let ghost completing: Option<Seq<char>> = opt_id_view(complete_task_id);
    let ghost skips: Seq<Seq<char>> = id_views(merged@);
    let mut i: usize = 0;
    while i < state.tasks.len()
        invariant
            i <= state.tasks@.len(),
            skips == id_views(merged@),
            completing == opt_id_view(complete_task_id),
            id_views(merged@) == merge_skips(
                id_views(state.skip_task_ids@),
                opt_id_view(skip_task_id),
            ),
            filter_tasks(state.tasks@.take(i as int), completing, skips).len() == 0,
        decreases state.tasks@.len() - i,
    {
        let visible = task_visible_exec(&state.tasks[i], complete_task_id, &merged);
        proof {
            assert(state.tasks@.take(i as int + 1).drop_last() =~= state.tasks@.take(i as int));
            assert(state.tasks@.take(i as int + 1).last() == state.tasks@[i as int]);
        }
        if visible {
            proof {
                lemma_filter_take_grows(state.tasks@, completing, skips, i as int);
            }
            return true;
        }
        i += 1;
    }
    proof {
        assert(state.tasks@.take(i as int) =~= state.tasks@);
    }
    false
}

/// The length of the filtered whole list is positive once some prefix
/// ends in a visible task.
proof fn lemma_filter_take_grows(
    ts: Seq<Task>,
    completing: Option<Seq<char>>,
    skips: Seq<Seq<char>>,
    i: int,
)
    requires
        0 <= i < ts.len(),
        task_visible(ts[i], completing, skips),
    ensures
        filter_tasks(ts, completing, skips).len() > 0,
    decreases ts.len(),
{
    if i == ts.len() - 1 {
        assert(ts.last() == ts[i]);
    } else {
        lemma_filter_take_grows(ts.drop_last(), completing, skips, i);
    }
}

/// The existing entry for a key, or a zero-valued entry if none exists.
pub fn get_or_create_user_state(found: Option<UserState>) -> (r: UserState)
    ensures
        match found {
            Some(s) => r == s,
            None => {
                &&& r.tasks@.len() == 0
                &&& r.skip_task_ids@.len() == 0
                &&& r.tasks_updated_at is None
                &&& r.unsplash is None
                &&& r.unsplash_updated_at is None
                &&& r.timezone is None
            },
        },
{
    if let Some(user_state) = found {
        user_state
    } else {
        UserState {
            tasks: Vec::new(),
            skip_task_ids: Vec::new(),
            tasks_updated_at: None,
            unsplash: None,
            unsplash_updated_at: None,
            timezone: None,
        }
    }
}

/// Decides whether the entry is still usable for this request: fetched,
/// younger than the freshness window, and with at least one task left to
/// show after this request's removals.
pub fn determine_freshness(
    user_state: &UserState,
    now: i64,
    complete_task_id: Option<&String>,
    skip_task_id: Option<&String>,
) -> (r: CacheResult)
    requires
        match user_state.tasks_updated_at {
            Some(t) => -0x7fff_ffff_ffff_ffff <= now as int - t as int <= 0x7fff_ffff_ffff_ffff,
            None => true,
        },
    ensures
        r == freshness_of(*user_state, now as int, opt_id_view(complete_task_id), opt_id_view(skip_task_id)),
{
    match user_state.tasks_updated_at {
        None => CacheResult::Miss,
        Some(t) => {
            let age = time::age_in_minutes(t, now);
            if age < CACHE_TASKS_MAX_AGE_MINUTES && more_tasks(
                user_state,
                complete_task_id,
                skip_task_id,
            ) {
                CacheResult::Hit
            } else {
                CacheResult::Expired
            }
        },
    }
}

/// Serves a read from a usable entry: merges this request's skip into the
/// suppressed set, removes the completing and suppressed tasks, and keeps
/// the fetch instant; the returned entry's `tasks` is the visible list.
pub fn apply_cache_hit(
    user_state: UserState,
    complete_task_id: Option<&String>,
    skip_task_id: Option<&String>,
) -> (r: UserState)
    ensures
        id_views(r.skip_task_ids@) == merge_skips(
            id_views(user_state.skip_task_ids@),
            opt_id_view(skip_task_id),
        ),
        r.tasks@ == filter_tasks(
            user_state.tasks@,
            opt_id_view(complete_task_id),
            id_views(r.skip_task_ids@),
        ),
        r.tasks_updated_at == user_state.tasks_updated_at,
        r.unsplash == user_state.unsplash,
        r.unsplash_updated_at == user_state.unsplash_updated_at,
        r.timezone == user_state.timezone,
{
    let merged = merge_skip_task_ids(&user_state, skip_task_id);
    let UserState { tasks, skip_task_ids: _, tasks_updated_at, unsplash, unsplash_updated_at, timezone } =
        user_state;
    let filtered = filter_completed_task(tasks, complete_task_id, &merged);
    UserState {
        tasks: filtered,
        skip_task_ids: merged,
        tasks_updated_at,
        unsplash,
        unsplash_updated_at,
        timezone,
    }
}

/// Stores a fresh fetch: starts the suppressed set over with only this
/// request's skip, removes it and the completing task from the fetched
/// list, and stamps the entry with `now`; the returned entry's `tasks` is
/// the visible list.
pub fn apply_cache_refresh(
    user_state: UserState,
    fetched: Vec<Task>,
    now: i64,
    complete_task_id: Option<&String>,
    skip_task_id: Option<&String>,
) -> (r: UserState)
    ensures
        id_views(r.skip_task_ids@) == refresh_skips(opt_id_view(skip_task_id)),
        r.tasks@ == filter_tasks(
            fetched@,
            opt_id_view(complete_task_id),
            id_views(r.skip_task_ids@),
        ),
        r.tasks_updated_at == Some(now),
        r.unsplash == user_state.unsplash,
        r.unsplash_updated_at == user_state.unsplash_updated_at,
        r.timezone == user_state.timezone,
{
    let mut skips: Vec<String> = Vec::new();
    if let Some(s) = skip_task_id {
        skips.push(s.clone());
    }
    proof {
        assert(id_views(skips@) =~= refresh_skips(opt_id_view(skip_task_id)));
    }
    let UserState { tasks: _, skip_task_ids: _, tasks_updated_at: _, unsplash, unsplash_updated_at, timezone } =
        user_state;
    let filtered = filter_completed_task(fetched, complete_task_id, &skips);
    UserState {
        tasks: filtered,
        skip_task_ids: skips,
        tasks_updated_at: Some(now),
        unsplash,
        unsplash_updated_at,
        timezone,
    }
}

/// Every task the filter keeps is visible: it is not the completing task
/// and carries no suppressed identifier.
pub proof fn lemma_filter_visible(ts: Seq<Task>, c: Option<Seq<char>>, skips: Seq<Seq<char>>)
    ensures
        forall|i: int|
            0 <= i < filter_tasks(ts, c, skips).len() ==> task_visible(
                #[trigger] filter_tasks(ts, c, skips)[i],
                c,
                skips,
            ),
    decreases ts.len(),
{
    if ts.len() > 0 {
        lemma_filter_visible(ts.drop_last(), c, skips);
        let rest = filter_tasks(ts.drop_last(), c, skips);
        let whole = filter_tasks(ts, c, skips);
        if task_visible(ts.last(), c, skips) {
            assert forall|i: int| 0 <= i < whole.len() implies task_visible(
                whole[i],
                c,
                skips,
            ) by {
                if i < rest.len() {
                    assert(whole[i] == rest[i]);
                } else {
                    assert(whole[i] == ts.last());
                }
            }
        }
    }
}

/// Law: a read returns no suppressed task — every task kept by the filter
/// has an identifier outside the suppressed set it was filtered by; in
/// particular this holds of a read with no completion and no skip.
pub proof fn lemma_read_excludes_suppressed(ts: Seq<Task>, c: Option<Seq<char>>, skips: Seq<
    Seq<char>,
>)
    ensures
        forall|i: int|
            0 <= i < filter_tasks(ts, c, skips).len() ==> !ids_contain(
                skips,
                (#[trigger] filter_tasks(ts, c, skips)[i]).id@,
            ),
{
    lemma_filter_visible(ts, c, skips);
}

/// Law: both read-through outcomes re-establish the entry invariant —
/// an entry whose task list was filtered by its own suppressed set holds
/// no suppressed task.
pub proof fn lemma_read_through_entry_inv(e: UserState, ts: Seq<Task>, c: Option<Seq<char>>)
    requires
        e.tasks@ == filter_tasks(ts, c, id_views(e.skip_task_ids@)),
    ensures
        entry_inv(e),
{
    lemma_read_excludes_suppressed(ts, c, id_views(e.skip_task_ids@));
}

/// A list in which every task is visible is left unchanged by the filter.
pub proof fn lemma_filter_fixpoint(ts: Seq<Task>, c: Option<Seq<char>>, skips: Seq<Seq<char>>)
    requires
        forall|i: int| 0 <= i < ts.len() ==> task_visible(#[trigger] ts[i], c, skips),
    ensures
        filter_tasks(ts, c, skips) == ts,
    decreases ts.len(),
{
    if ts.len() == 0 {
        assert(filter_tasks(ts, c, skips) =~= ts);
    } else {
        lemma_filter_fixpoint(ts.drop_last(), c, skips);
        assert(filter_tasks(ts, c, skips) =~= ts);
    }
}

/// Filtering an already-filtered list changes nothing.
pub proof fn lemma_filter_idempotent(ts: Seq<Task>, c: Option<Seq<char>>, skips: Seq<Seq<char>>)
    ensures
        filter_tasks(filter_tasks(ts, c, skips), c, skips) == filter_tasks(ts, c, skips),
{
    lemma_filter_visible(ts, c, skips);
    lemma_filter_fixpoint(filter_tasks(ts, c, skips), c, skips);
}

/// After merging a skip identifier, the suppressed set contains it.
pub proof fn lemma_merge_contains(skips: Seq<Seq<char>>, s: Seq<char>)
    ensures
        ids_contain(merge_skips(skips, Some(s)), s),
{
    if !ids_contain(skips, s) {
        assert(merge_skips(skips, Some(s))[skips.len() as int] == s);
    }
}

/// Law: submitting the same skip identifier twice in sequence produces
/// the same suppressed set and the same visible list as submitting it
/// once — merging has set semantics and filtering is idempotent.
pub proof fn lemma_skip_idempotent(e: UserState, c: Option<Seq<char>>, s: Seq<char>)
    ensures
        ({
            let skips1 = merge_skips(id_views(e.skip_task_ids@), Some(s));
            let tasks1 = filter_tasks(e.tasks@, c, skips1);
            &&& merge_skips(skips1, Some(s)) == skips1
            &&& filter_tasks(tasks1, c, merge_skips(skips1, Some(s))) == tasks1
        }),
{
    let skips1 = merge_skips(id_views(e.skip_task_ids@), Some(s));
    lemma_merge_contains(id_views(e.skip_task_ids@), s);
    lemma_filter_idempotent(e.tasks@, c, skips1);
}

/// Law: freshness is monotone in age. If the entry would still show a
/// task and is younger than the freshness window at `now1`, while the
/// window has passed at `now2`, then a read at `now1` hits the cache and
/// a read at `now2` refreshes.
pub proof fn lemma_freshness_monotonic(
    e: UserState,
    f: i64,
    now1: int,
    now2: int,
    c: Option<Seq<char>>,
    s: Option<Seq<char>>,
)
    requires
        e.tasks_updated_at == Some(f),
        visible_tasks(e, c, s).len() > 0,
        time::age_minutes(f as int, now1) < CACHE_TASKS_MAX_AGE_MINUTES as int,
        time::age_minutes(f as int, now2) >= CACHE_TASKS_MAX_AGE_MINUTES as int,
    ensures
        freshness_of(e, now1, c, s) == CacheResult::Hit,
        freshness_of(e, now2, c, s) == CacheResult::Expired,
{
}

/// The HTML that comrak renders a markdown text to, under default
/// options.
pub uninterp spec fn html_of(md: Seq<char>) -> Seq<char>;

/// Relies on comrak's `markdown_to_html` with default options: the
/// rendered HTML depends on the markdown text alone.
#[verifier::external_body]
fn markdown_html(md: &str) -> (r: String)
    ensures
        r@ == html_of(md@),
{
    comrak::markdown_to_html(md, &comrak::Options::default())
}

/// Whether `r` is `t` with its content and description rendered to HTML.
pub open spec fn rendered_task(t: Task, r: Task) -> bool {
    &&& r.content@ == html_of(t.content@)
    &&& r.description@ == html_of(t.description@)
    &&& r.id == t.id
    &&& r.priority == t.priority
    &&& r.labels == t.labels
    &&& r.parent_id == t.parent_id
    &&& r.project_id == t.project_id
    &&& r.due == t.due
    &&& r.is_completed == t.is_completed
    &&& r.is_deleted == t.is_deleted
    &&& r.checked == t.checked
    &&& r.duration == t.duration
}

/// Renders each task's content and description from markdown to HTML for
/// the presentation layer; everything else is kept.
pub fn markdown_to_html(tasks: Vec<Task>) -> (r: Vec<Task>)
    ensures
        r@.len() == tasks@.len(),
        forall|i: int| 0 <= i < tasks@.len() ==> rendered_task(tasks@[i], #[trigger] r@[i]),
{
    let ghost orig: Seq<Task> = tasks@;
    let mut tasks = tasks;
    let mut out: Vec<Task> = Vec::new();
    while tasks.len() > 0
        invariant
            out@.len() + tasks@.len() == orig.len(),
            tasks@ == orig.skip(out@.len() as int),
            forall|j: int| 0 <= j < out@.len() ==> rendered_task(orig[j], #[trigger] out@[j]),
        decreases tasks@.len(),
    {
        let ghost prev: Seq<Task> = tasks@;
        let t = tasks.remove(0);
        proof {
            assert(t == orig[out@.len() as int]);
            assert(tasks@ =~= orig.skip(out@.len() as int + 1));
        }
        let content = markdown_html(t.content.as_str());
        let description = markdown_html(t.description.as_str());
        let Task {
            id,
            content: _,
            priority,
            description: _,
            labels,
            parent_id,
            project_id,
            due,
            is_completed,
            is_deleted,
            checked,
            duration,
        } = t;
        out.push(
            Task {
                id,
                content,
                priority,
                description,
                labels,
                parent_id,
                project_id,
                due,
                is_completed,
                is_deleted,
                checked,
                duration,
            },
        );
    }
    out
}

/// The CSS class for a task's content, by priority.
pub fn get_content_color_class(task: &Task) -> (r: String)
    ensures
        match task.priority {
            Priority::NoPriority => r@ == "has-text-white"@,
            Priority::Low => r@ == "has-text-primary"@,
            Priority::Medium => r@ == "has-text-warning"@,
            Priority::High => r@ == "has-text-danger"@,
        },
{
    match task.priority {
        Priority::NoPriority => "has-text-white".to_owned(),
        Priority::Low => "has-text-primary".to_owned(),
        Priority::Medium => "has-text-warning".to_owned(),
        Priority::High => "has-text-danger".to_owned(),
    }
}

} // verus!
