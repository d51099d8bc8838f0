//! Task source adapter: the task data model, the multi-filter fetch
//! helpers (filter splitting, request URL, merge-and-sort), and the
//! completion command body.

use vstd::prelude::*;
use crate::error::{self, Error};
use vstd::string::{StrSliceExecFns, StringExecFns};

verus! {

/// Unit of a task's duration.
#[derive(Debug, Clone, Copy, PartialEq, Eq)]
pub enum Unit {
    Minute,
    Day,
}

/// How long a task is expected to take.
#[derive(Debug, Clone, Copy, PartialEq, Eq)]
pub struct Duration {
    pub amount: u32,
    pub unit: Unit,
}

/// Task priority, ordered from no priority up to high.
#[derive(Debug, Clone, Copy, PartialEq, Eq)]
pub enum Priority {
    NoPriority,
    Low,
    Medium,
    High,
}

impl Priority {
    /// The numeric level of this priority as the task source encodes it;
    /// higher means more urgent.
    pub open spec fn spec_level(self) -> u8 {
        match self {
            Priority::NoPriority => 1,
            Priority::Low => 2,
            Priority::Medium => 3,
            Priority::High => 4,
        }
    }

    /// The numeric level of this priority, ascending with urgency.
    pub fn level(&self) -> (r: u8)
        ensures
            r == self.spec_level(),
    {
        match self {
            Priority::NoPriority => 1,
            Priority::Low => 2,
            Priority::Medium => 3,
            Priority::High => 4,
        }
    }

    /// The priority from its numeric level, for levels the source uses.
    pub fn from_level(level: u8) -> (r: Option<Priority>)
        ensures
            match r {
                Some(p) => p.spec_level() == level,
                None => level < 1 || level > 4,
            },
    {
        match level {
            1u8 => Some(Priority::NoPriority),
            2u8 => Some(Priority::Low),
            3u8 => Some(Priority::Medium),
            4u8 => Some(Priority::High),
            _ => None,
        }
    }

    /// The display name of this priority.
    pub fn text(&self) -> (r: String)
        ensures
            match self {
                Priority::NoPriority => r@ == "None"@,
                Priority::Low => r@ == "Low"@,
                Priority::Medium => r@ == "Medium"@,
                Priority::High => r@ == "High"@,
            },
    {
        match self {
            Priority::NoPriority => "None".to_owned(),
            Priority::Low => "Low".to_owned(),
            Priority::Medium => "Medium".to_owned(),
            Priority::High => "High".to_owned(),
        }
    }
}

/// A task's due-date descriptor: the raw source string, the recurrence
/// flag, the human-readable form, and an optional timezone override.
#[derive(Debug, PartialEq, Eq)]
pub struct DateInfo {
    pub date: String,
    pub is_recurring: bool,
    pub string: String,
    pub timezone: Option<String>,
}

impl Clone for DateInfo {
    fn clone(&self) -> (r: Self)
        ensures
            r == *self,
    {
        DateInfo {
            date: self.date.clone(),
            is_recurring: self.is_recurring,
            string: self.string.clone(),
            timezone: self.timezone.clone(),
        }
    }
}

/// One task as the remote source describes it.
#[derive(Debug, PartialEq, Eq)]
pub struct Task {
    pub id: String,
    pub content: String,
    pub priority: Priority,
    pub description: String,
    pub labels: Vec<String>,
    pub parent_id: Option<String>,
    pub project_id: String,
    pub due: Option<DateInfo>,
    /// Only on rest api return value
    pub is_completed: Option<bool>,
    pub is_deleted: Option<bool>,
    /// only on sync api return value
    pub checked: Option<bool>,
    pub duration: Option<Duration>,
}

impl Clone for Task {
    fn clone(&self) -> (r: Self)
        ensures
            r.id == self.id,
            r.content == self.content,
            r.priority == self.priority,
            r.description == self.description,
            r.labels@ == self.labels@,
            r.parent_id == self.parent_id,
            r.project_id == self.project_id,
            r.due == self.due,
            r.is_completed == self.is_completed,
            r.is_deleted == self.is_deleted,
            r.checked == self.checked,
            r.duration == self.duration,
    {
        let labels = self.labels.clone();
        proof {
            assert(labels@ =~= self.labels@);
        }
        Task {
            id: self.id.clone(),
            content: self.content.clone(),
            priority: self.priority,
            description: self.description.clone(),
            labels,
            parent_id: self.parent_id.clone(),
            project_id: self.project_id.clone(),
            due: self.due.clone(),
            is_completed: self.is_completed,
            is_deleted: self.is_deleted,
            checked: self.checked,
            duration: self.duration,
        }
    }
}

/// The remote endpoint for the sync command API.
pub fn sync_url() -> (r: String)
    ensures
        r@ == "/sync/v9/sync"@,
{
    "/sync/v9/sync".to_owned()
}

/// The sequences of a list of strings.
pub open spec fn string_views(ss: Seq<String>) -> Seq<Seq<char>> {
    ss.map_values(|s: String| s@)
}

/// The comma-separated pieces of a filter expression; empty pieces are
/// kept, and the empty expression is one empty piece.
pub open spec fn split_commas(s: Seq<char>) -> Seq<Seq<char>>
    decreases s.len(),
{
    if s.len() == 0 {
        seq![Seq::empty()]
    } else if s[0] == ',' {
        seq![Seq::<char>::empty()] + split_commas(s.drop_first())
    } else {
        let rest = split_commas(s.drop_first());
        seq![seq![s[0]] + rest[0]] + rest.drop_first()
    }
}

/// A split has at least one piece.
pub proof fn lemma_split_nonempty(s: Seq<char>)
    ensures
        split_commas(s).len() >= 1,
    decreases s.len(),
{
    if s.len() > 0 {
        lemma_split_nonempty(s.drop_first());
    }
}

/// Splits a filter expression into its comma-separated sub-filters.
pub fn split_filters(filter: &str) -> (r: Vec<String>)
    ensures
        string_views(r@) == split_commas(filter@),
{
    let len = filter.unicode_len();
    let mut out: Vec<String> = Vec::new();
    let mut cur = String::new();
    let mut i: usize = 0;
    proof {
        assert(filter@.skip(0) =~= filter@);
        lemma_split_nonempty(filter@);
        assert(string_views(out@) + seq![cur@ + split_commas(filter@.skip(0))[0]] + split_commas(
            filter@.skip(0),
        ).drop_first() =~= split_commas(filter@));
    }
    while i < len
        invariant
            i <= len,
            len == filter@.len(),
            string_views(out@) + seq![cur@ + split_commas(filter@.skip(i as int))[0]]
                + split_commas(filter@.skip(i as int)).drop_first() == split_commas(filter@),
        decreases len - i,
    {
        let c = filter.get_char(i);
        let ghost rest: Seq<Seq<char>> = split_commas(filter@.skip(i as int));
        let ghost rest1: Seq<Seq<char>> = split_commas(filter@.skip(i as int + 1));
        proof {
            assert(filter@.skip(i as int).drop_first() =~= filter@.skip(i as int + 1));
            lemma_split_nonempty(filter@.skip(i as int + 1));
        }
        if c == ',' {
            proof {
                assert(rest =~= seq![Seq::<char>::empty()] + rest1);
                assert(rest[0] =~= Seq::<char>::empty());
                assert(rest.drop_first() =~= rest1);
                assert(cur@ + rest[0] =~= cur@);
            }
            let finished = cur;
            cur = String::new();
            proof {
                assert(string_views(out@.push(finished)) =~= string_views(out@).push(finished@));
                assert(string_views(out@).push(finished@) + seq![cur@ + rest1[0]]
                    + rest1.drop_first() =~= string_views(out@) + seq![finished@ + rest[0]]
                    + rest.drop_first());
            }
            out.push(finished);
        } else {
            proof {
                assert(rest =~= seq![seq![c] + rest1[0]] + rest1.drop_first());
                assert(rest[0] =~= seq![c] + rest1[0]);
                assert(rest.drop_first() =~= rest1.drop_first());
                assert(cur@.push(c) + rest1[0] =~= cur@ + rest[0]);
                assert(string_views(out@) + seq![cur@.push(c) + rest1[0]] + rest1.drop_first()
                    =~= string_views(out@) + seq![cur@ + rest[0]] + rest.drop_first());
            }
            crate::time::push_char(&mut cur, c);
        }
        i += 1;
    }
    proof {
        assert(filter@.skip(i as int) =~= Seq::<char>::empty());
        let rest = split_commas(filter@.skip(i as int));
        assert(rest =~= seq![Seq::<char>::empty()]);
        assert(cur@ + rest[0] =~= cur@);
        assert(rest.drop_first() =~= Seq::<Seq<char>>::empty());
        assert(string_views(out@.push(cur)) =~= string_views(out@).push(cur@));
        assert(string_views(out@).push(cur@) =~= string_views(out@) + seq![cur@ + rest[0]]
            + rest.drop_first());
    }
    out.push(cur);
    out
}

/// The percent-encoding of a string, as urlencoding's `encode` computes
/// it.
pub uninterp spec fn url_encoded(s: Seq<char>) -> Seq<char>;

/// Relies on urlencoding's `encode`: percent-encodes every byte except
/// ASCII alphanumerics and `-`, `_`, `.`, `~`; a function of the string
/// alone.
#[verifier::external_body]
fn url_encode(s: &str) -> (r: String)
    ensures
        r@ == url_encoded(s@),
{
    urlencoding::encode(s).into_owned()
}

/// The list endpoint for one sub-filter, with the filter percent-encoded
/// into the query.
pub fn tasks_url(filter: &str) -> (r: String)
    ensures
        r@ == "/rest/v2/tasks/?filter="@ + url_encoded(filter@),
{
    let mut url = "/rest/v2/tasks/?filter=".to_owned();
    url.append(url_encode(filter).as_str());
    url
}

/// The hexadecimal character of a nibble value.
pub open spec fn hex_char(d: int) -> char {
    if d == 10 {
        'a'
    } else if d == 11 {
        'b'
    } else if d == 12 {
        'c'
    } else if d == 13 {
        'd'
    } else if d == 14 {
        'e'
    } else if d == 15 {
        'f'
    } else {
        crate::time::digit_char(d)
    }
}

/// How one character is written inside a JSON string literal.
pub open spec fn json_escaped_char(c: char) -> Seq<char> {
    if c == '"' {
        seq!['\\', '"']
    } else if c == '\\' {
        seq!['\\', '\\']
    } else if c == '\n' {
        seq!['\\', 'n']
    } else if c == '\r' {
        seq!['\\', 'r']
    } else if c == '\t' {
        seq!['\\', 't']
    } else if (c as int) < 32 {
        seq!['\\', 'u', '0', '0', hex_char(c as int / 16), hex_char(c as int % 16)]
    } else {
        seq![c]
    }
}

/// How a string is written inside a JSON string literal.
pub open spec fn json_escaped(s: Seq<char>) -> Seq<char>
    decreases s.len(),
{
    if s.len() == 0 {
        Seq::empty()
    } else {
        json_escaped(s.drop_last()) + json_escaped_char(s.last())
    }
}

/// The hexadecimal character of a nibble value.
fn hex_char_exec(d: u32) -> (r: char)
    requires
        d <= 15,
    ensures
        r == hex_char(d as int),
{
    match d {
        0u32 => '0',
        1u32 => '1',
        2u32 => '2',
        3u32 => '3',
        4u32 => '4',
        5u32 => '5',
        6u32 => '6',
        7u32 => '7',
        8u32 => '8',
        9u32 => '9',
        10u32 => 'a',
        11u32 => 'b',
        12u32 => 'c',
        13u32 => 'd',
        14u32 => 'e',
        _ => 'f',
    }
}

/// Appends the JSON escape of one character.
fn push_json_char(out: &mut String, c: char)
    ensures
        final(out)@ == old(out)@ + json_escaped_char(c),
{
    if c == '"' {
        crate::time::push_char(out, '\\');
        crate::time::push_char(out, '"');
    } else if c == '\\' {
        crate::time::push_char(out, '\\');
        crate::time::push_char(out, '\\');
    } else if c == '\n' {
        crate::time::push_char(out, '\\');
        crate::time::push_char(out, 'n');
    } else if c == '\r' {
        crate::time::push_char(out, '\\');
        crate::time::push_char(out, 'r');
    } else if c == '\t' {
        crate::time::push_char(out, '\\');
        crate::time::push_char(out, 't');
    } else if (c as u32) < 32 {
        let v = c as u32;
        crate::time::push_char(out, '\\');
        crate::time::push_char(out, 'u');
        crate::time::push_char(out, '0');
        crate::time::push_char(out, '0');
        crate::time::push_char(out, hex_char_exec(v / 16));
        crate::time::push_char(out, hex_char_exec(v % 16));
    } else {
        crate::time::push_char(out, c);
    }
    proof {
        assert(final(out)@ =~= old(out)@ + json_escaped_char(c));
    }
}

/// The JSON escape of a whole string.
fn json_escape(s: &str) -> (r: String)
    ensures
        r@ == json_escaped(s@),
{
    let len = s.unicode_len();
    let mut out = String::new();
    let mut i: usize = 0;
    proof {
        assert(out@ =~= json_escaped(s@.take(0)));
    }
    while i < len
        invariant
            i <= len,
            len == s@.len(),
            out@ == json_escaped(s@.take(i as int)),
        decreases len - i,
    {
        let c = s.get_char(i);
        proof {
            assert(s@.take(i as int + 1).drop_last() =~= s@.take(i as int));
            assert(s@.take(i as int + 1).last() == c);
        }
        push_json_char(&mut out, c);
        i += 1;
    }
    proof {
        assert(s@.take(i as int) =~= s@);
    }
    out
}

/// The zone a due descriptor is interpreted in: its own override when
/// present, else the user's zone.
pub open spec fn due_zone(d: DateInfo, tz: chrono_tz::Tz) -> Option<chrono_tz::Tz> {
    match d.timezone {
        Some(name) => crate::time::resolve_timezone_spec(name@),
        None => Some(tz),
    }
}

/// The effective instant of a due descriptor: its raw date or date-time
/// string read in that zone, a date-only value as 23:59 local time.
pub open spec fn due_instant(d: DateInfo, tz: chrono_tz::Tz) -> Option<int> {
    match due_zone(d, tz) {
        Some(z) => crate::time::parse_datetime_spec(d.date@, z),
        None => None,
    }
}

/// The sort key of a task: `None` when the key cannot be determined,
/// `Some(None)` for a task with no due value, `Some(Some(ts))` for a
/// dated task.
pub open spec fn task_key(t: Task, tz: chrono_tz::Tz) -> Option<Option<int>> {
    match t.due {
        Some(d) => match due_instant(d, tz) {
            Some(ts) => Some(Some(ts)),
            None => None,
        },
        None => Some(None),
    }
}

/// The determined sort key of a task; tasks with no due value rank after
/// all dated tasks.
pub open spec fn opt_key_of(t: Task, tz: chrono_tz::Tz) -> Option<int> {
    match task_key(t, tz) {
        Some(k) => k,
        None => None,
    }
}

/// The mathematical value of an executable sort key.
pub open spec fn opt_int(k: Option<i64>) -> Option<int> {
    match k {
        Some(v) => Some(v as int),
        None => None,
    }
}

/// Ascending order on sort keys; a task with no due value ranks last.
pub open spec fn key_le_int(a: Option<int>, b: Option<int>) -> bool {
    match b {
        None => true,
        Some(vb) => match a {
            Some(va) => va <= vb,
            None => false,
        },
    }
}

/// Inserting a task into a sorted list: it goes after every task whose
/// key is not greater, so tasks with equal keys keep their original
/// relative order.
pub open spec fn insert_task(s: Seq<Task>, t: Task, tz: chrono_tz::Tz) -> Seq<Task>
    decreases s.len(),
{
    if s.len() == 0 {
        seq![t]
    } else if key_le_int(opt_key_of(s.last(), tz), opt_key_of(t, tz)) {
        s.push(t)
    } else {
        insert_task(s.drop_last(), t, tz).push(s.last())
    }
}

/// Stable insertion sort of tasks, ascending by effective due instant.
pub open spec fn sort_tasks(s: Seq<Task>, tz: chrono_tz::Tz) -> Seq<Task>
    decreases s.len(),
{
    if s.len() == 0 {
        Seq::empty()
    } else {
        insert_task(sort_tasks(s.drop_last(), tz), s.last(), tz)
    }
}

/// The concatenation of the fetched per-filter lists, in order.
pub open spec fn flatten_lists(lists: Seq<Vec<Task>>) -> Seq<Task> {
    lists.map_values(|l: Vec<Task>| l@).flatten()
}

/// Whether an executable key value is the task's spec key.
pub open spec fn key_matches(t: Task, tz: chrono_tz::Tz, k: Option<i64>) -> bool {
    match k {
        Some(v) => task_key(t, tz) == Some(Some(v as int)),
        None => task_key(t, tz) == Some(None::<int>),
    }
}

/// The effective sort key of one task: the instant of its due value in
/// the user's (or its own overriding) zone, `None` for no due value; a
/// due value that cannot be read fails.
pub fn effective_due_key(t: &Task, tz: &chrono_tz::Tz) -> (r: Result<Option<i64>, Error>)
    ensures
        match r {
            Ok(k) => key_matches(*t, *tz, k),
            Err(e) => task_key(*t, *tz) is None && e.code == error::INTERNAL_SERVER_ERROR,
        },
{
    match &t.due {
        None => Ok(None),
        Some(d) => {
            let z: chrono_tz::Tz = match &d.timezone {
                Some(name) => match crate::time::timezone_from_str(name.as_str()) {
                    Ok(z) => z,
                    Err(e) => {
                        return Err(e);
                    },
                },
                None => *tz,
            };
            match crate::time::parse_datetime(d.date.as_str(), &z) {
                Ok(ts) => Ok(Some(ts)),
                Err(e) => Err(e),
            }
        },
    }
}

/// Ascending order on executable sort keys.
fn key_le_exec(a: Option<i64>, b: Option<i64>) -> (r: bool)
    ensures
        r == key_le_int(opt_int(a), opt_int(b)),
{
    match b {
        None => true,
        Some(vb) => match a {
            Some(va) => va <= vb,
            None => false,
        },
    }
}

/// Where the insertion scan stops is where the recursive insertion puts
/// the task.
proof fn lemma_insert_task_at(s: Seq<Task>, t: Task, tz: chrono_tz::Tz, j: int)
    requires
        0 <= j <= s.len(),
        forall|m: int|
            j <= m < s.len() ==> !key_le_int(opt_key_of(#[trigger] s[m], tz), opt_key_of(t, tz)),
        j > 0 ==> key_le_int(opt_key_of(s[j - 1], tz), opt_key_of(t, tz)),
    ensures
        insert_task(s, t, tz) == s.take(j).push(t) + s.skip(j),
    decreases s.len(),
{
    if s.len() == 0 {
        assert(insert_task(s, t, tz) =~= s.take(j).push(t) + s.skip(j));
    } else if key_le_int(opt_key_of(s.last(), tz), opt_key_of(t, tz)) {
        assert(j == s.len());
        assert(insert_task(s, t, tz) =~= s.take(j).push(t) + s.skip(j));
    } else {
        assert(j < s.len());
        assert(forall|m: int|
            j <= m < s.drop_last().len() ==> !key_le_int(
                opt_key_of(#[trigger] s.drop_last()[m], tz),
                opt_key_of(t, tz),
            ));
        lemma_insert_task_at(s.drop_last(), t, tz, j);
        assert(s.drop_last().take(j) =~= s.take(j));
        assert((s.drop_last().take(j).push(t) + s.drop_last().skip(j)).push(s.last()) =~= s.take(
            j,
        ).push(t) + s.skip(j));
    }
}

/// Concatenates the fetched per-filter lists and sorts the result,
/// ascending by effective due instant, stably; fails when some task's due
/// value cannot be read.
#[verifier::loop_isolation(false)]
pub fn merge_task_lists(lists: Vec<Vec<Task>>, tz: &chrono_tz::Tz) -> (r: Result<Vec<Task>, Error>)
    ensures
        match r {
            Ok(v) => {
                &&& forall|i: int|
                    0 <= i < flatten_lists(lists@).len() ==> (#[trigger] task_key(
                        flatten_lists(lists@)[i],
                        *tz,
                    )) is Some
                &&& v@ == sort_tasks(flatten_lists(lists@), *tz)
            },
            Err(e) => {
                &&& exists|i: int|
                    0 <= i < flatten_lists(lists@).len() && (#[trigger] task_key(
                        flatten_lists(lists@)[i],
                        *tz,
                    )) is None
                &&& e.code == error::INTERNAL_SERVER_ERROR
            },
        },
{
    let ghost lists0: Seq<Vec<Task>> = lists@;
    let mut lists = lists;
    let mut all: Vec<Task> = Vec::new();
    let ghost mut done: Seq<Vec<Task>> = Seq::empty();
    proof {
        assert(done + lists@ =~= lists0);
        assert(done.map_values(|l: Vec<Task>| l@) =~= Seq::<Seq<Task>>::empty());
        assert(all@ =~= flatten_lists(done));
    }
    while lists.len() > 0
        invariant
            done + lists@ == lists0,
            all@ == flatten_lists(done),
        decreases lists@.len(),
    {
        let ghost prev_lists = lists@;
        let ghost prev_done = done;
        let mut l = lists.remove(0);
        proof {
            broadcast use vstd::seq_lib::group_seq_properties;

            done = done.push(prev_lists[0]);
            assert(done + lists@ =~= lists0);
            assert(done.map_values(|x: Vec<Task>| x@) =~= prev_done.map_values(
                |x: Vec<Task>| x@,
            ).push(prev_lists[0]@));
            Seq::lemma_flatten_push(prev_done.map_values(|x: Vec<Task>| x@), prev_lists[0]@);
        }
        all.append(&mut l);
    }
    proof {
        assert(done =~= lists0);
    }
    let ghost whole: Seq<Task> = flatten_lists(lists0);
    let mut keys: Vec<Option<i64>> = Vec::new();
    let mut idx: usize = 0;
    while idx < all.len()
        invariant
            idx <= all@.len(),
            keys@.len() == idx,
            all@ == whole,
            whole == flatten_lists(lists0),
            forall|j: int| 0 <= j < idx ==> key_matches(all@[j], *tz, #[trigger] keys@[j]),
        decreases all@.len() - idx,
    {
        match effective_due_key(&all[idx], tz) {
            Ok(k) => keys.push(k),
            Err(e) => {
                proof {
                    assert(task_key(flatten_lists(lists0)[idx as int], *tz) is None);
                }
                return Err(e);
            },
        }
        idx += 1;
    }
    proof {
        assert forall|i: int| 0 <= i < whole.len() implies (#[trigger] task_key(
            whole[i],
            *tz,
        )) is Some by {
            assert(key_matches(all@[i], *tz, keys@[i]));
        }
    }
    let mut all = all;
    let mut out_t: Vec<Task> = Vec::new();
    let mut out_k: Vec<Option<i64>> = Vec::new();
    let ghost mut processed: Seq<Task> = Seq::empty();
    proof {
        assert(processed + all@ =~= whole);
        assert(out_t@ =~= sort_tasks(processed, *tz));
    }
    while all.len() > 0
        invariant
            all@.len() == keys@.len(),
            forall|j: int| 0 <= j < all@.len() ==> key_matches(all@[j], *tz, #[trigger] keys@[j]),
            out_t@.len() == out_k@.len(),
            forall|j: int|
                0 <= j < out_t@.len() ==> key_matches(out_t@[j], *tz, #[trigger] out_k@[j]),
            out_t@ == sort_tasks(processed, *tz),
            processed + all@ == whole,
            whole == flatten_lists(lists0),
            forall|i: int| 0 <= i < whole.len() ==> (#[trigger] task_key(whole[i], *tz)) is Some,
        decreases all@.len(),
    {
        let ghost prev_all = all@;
        let ghost prev_keys = keys@;
        let ghost prev_out_t = out_t@;
        let ghost prev_out_k = out_k@;
        let t = all.remove(0);
        let k = keys.remove(0);
        proof {
            assert forall|j: int| 0 <= j < all@.len() implies key_matches(
                all@[j],
                *tz,
                #[trigger] keys@[j],
            ) by {
                assert(all@[j] == prev_all[j + 1]);
                assert(keys@[j] == prev_keys[j + 1]);
            }
        }
        let mut j: usize = out_t.len();
        while j > 0 && !key_le_exec(out_k[j - 1], k)
            invariant
                j <= out_t@.len(),
                out_t@ == prev_out_t,
                out_k@ == prev_out_k,
                out_t@.len() == out_k@.len(),
                key_matches(t, *tz, k),
                forall|m: int|
                    0 <= m < out_t@.len() ==> key_matches(out_t@[m], *tz, #[trigger] out_k@[m]),
                forall|m: int|
                    j <= m < out_t@.len() ==> !key_le_int(
                        opt_key_of(#[trigger] out_t@[m], *tz),
                        opt_key_of(t, *tz),
                    ),
            decreases j,
        {
            proof {
                assert(key_matches(out_t@[j - 1], *tz, out_k@[j - 1]));
                assert(opt_key_of(out_t@[j - 1], *tz) == opt_int(out_k@[j - 1]));
                assert(opt_key_of(t, *tz) == opt_int(k));
            }
            j -= 1;
        }
        proof {
            assert(opt_key_of(t, *tz) == opt_int(k));
            if j > 0 {
                assert(key_matches(out_t@[j - 1], *tz, out_k@[j - 1]));
                assert(opt_key_of(out_t@[j - 1], *tz) == opt_int(out_k@[j - 1]));
            }
            lemma_insert_task_at(out_t@, t, *tz, j as int);
        }
        out_t.insert(j, t);
        out_k.insert(j, k);
        proof {
            assert(out_t@ =~= prev_out_t.take(j as int).push(t) + prev_out_t.skip(j as int));
            assert(processed.push(t).drop_last() =~= processed);
            assert(out_t@ == sort_tasks(processed.push(t), *tz));
            assert forall|m: int| 0 <= m < out_t@.len() implies key_matches(
                out_t@[m],
                *tz,
                #[trigger] out_k@[m],
            ) by {
                if m < j {
                    assert(out_t@[m] == prev_out_t[m]);
                    assert(out_k@[m] == prev_out_k[m]);
                } else if m == j {
                    assert(out_t@[m] == t);
                    assert(out_k@[m] == k);
                } else {
                    assert(out_t@[m] == prev_out_t[m - 1]);
                    assert(out_k@[m] == prev_out_k[m - 1]);
                }
            }
            assert(processed.push(t) + all@ =~= processed + prev_all);
            processed = processed.push(t);
        }
    }
    proof {
        assert(processed =~= whole);
    }
    Ok(out_t)
}

/// All tasks in ascending key order.
pub open spec fn sorted_by_due(s: Seq<Task>, tz: chrono_tz::Tz) -> bool {
    forall|i: int, j: int|
        0 <= i < j < s.len() ==> key_le_int(
            opt_key_of(#[trigger] s[i], tz),
            opt_key_of(#[trigger] s[j], tz),
        )
}

/// Inserting keeps every key bound that held of the list and of the task.
proof fn lemma_insert_task_ub(s: Seq<Task>, t: Task, tz: chrono_tz::Tz, b: Option<int>)
    requires
        forall|i: int| 0 <= i < s.len() ==> key_le_int(opt_key_of(#[trigger] s[i], tz), b),
        key_le_int(opt_key_of(t, tz), b),
    ensures
        forall|i: int|
            0 <= i < insert_task(s, t, tz).len() ==> key_le_int(
                opt_key_of(#[trigger] insert_task(s, t, tz)[i], tz),
                b,
            ),
        insert_task(s, t, tz).len() == s.len() + 1,
    decreases s.len(),
{
    if s.len() == 0 {
    } else if key_le_int(opt_key_of(s.last(), tz), opt_key_of(t, tz)) {
    } else {
        lemma_insert_task_ub(s.drop_last(), t, tz, b);
    }
}

/// Inserting into a sorted list keeps it sorted.
proof fn lemma_insert_task_sorted(s: Seq<Task>, t: Task, tz: chrono_tz::Tz)
    requires
        sorted_by_due(s, tz),
    ensures
        sorted_by_due(insert_task(s, t, tz), tz),
        insert_task(s, t, tz).len() == s.len() + 1,
    decreases s.len(),
{
    let out = insert_task(s, t, tz);
    if s.len() == 0 {
    } else if key_le_int(opt_key_of(s.last(), tz), opt_key_of(t, tz)) {
        assert forall|i: int, j: int| 0 <= i < j < out.len() implies key_le_int(
            opt_key_of(out[i], tz),
            opt_key_of(out[j], tz),
        ) by {
            if j == out.len() - 1 {
                assert(out[j] == t);
                assert(key_le_int(opt_key_of(s[i], tz), opt_key_of(s.last(), tz)));
            }
        }
    } else {
        lemma_insert_task_sorted(s.drop_last(), t, tz);
        let rec = insert_task(s.drop_last(), t, tz);
        lemma_insert_task_ub(s.drop_last(), t, tz, opt_key_of(s.last(), tz));
        assert forall|i: int, j: int| 0 <= i < j < out.len() implies key_le_int(
            opt_key_of(out[i], tz),
            opt_key_of(out[j], tz),
        ) by {
            if j == out.len() - 1 {
                assert(out[j] == s.last());
                assert(out[i] == rec[i]);
            } else {
                assert(out[i] == rec[i]);
                assert(out[j] == rec[j]);
            }
        }
    }
}

/// Law: the merge sort orders tasks ascending by effective due instant,
/// and loses none.
pub proof fn lemma_sort_tasks_sorted(s: Seq<Task>, tz: chrono_tz::Tz)
    ensures
        sorted_by_due(sort_tasks(s, tz), tz),
        sort_tasks(s, tz).len() == s.len(),
    decreases s.len(),
{
    if s.len() > 0 {
        lemma_sort_tasks_sorted(s.drop_last(), tz);
        lemma_insert_task_sorted(sort_tasks(s.drop_last(), tz), s.last(), tz);
    }
}

/// Inserting adds exactly the task to the list's contents.
proof fn lemma_insert_task_multiset(s: Seq<Task>, t: Task, tz: chrono_tz::Tz)
    ensures
        insert_task(s, t, tz).to_multiset() == s.to_multiset().insert(t),
    decreases s.len(),
{
    broadcast use vstd::seq_lib::group_to_multiset_ensures;

    if s.len() == 0 {
        assert(insert_task(s, t, tz) =~= Seq::<Task>::empty().push(t));
        assert(Seq::<Task>::empty().push(t).to_multiset() =~= Seq::<Task>::empty().to_multiset()
            .insert(t));
    } else if key_le_int(opt_key_of(s.last(), tz), opt_key_of(t, tz)) {
    } else {
        lemma_insert_task_multiset(s.drop_last(), t, tz);
        assert(s.drop_last().push(s.last()) =~= s);
        assert(insert_task(s, t, tz).to_multiset() =~= insert_task(s.drop_last(), t, tz)
            .to_multiset().insert(s.last()));
        assert(s.drop_last().to_multiset().insert(t).insert(s.last()) =~= s.drop_last()
            .to_multiset().insert(s.last()).insert(t));
    }
}

/// Law: the merge sort is a permutation — the sorted list holds exactly
/// the fetched tasks, multiplicity included.
pub proof fn lemma_sort_tasks_permutes(s: Seq<Task>, tz: chrono_tz::Tz)
    ensures
        sort_tasks(s, tz).to_multiset() == s.to_multiset(),
    decreases s.len(),
{
    broadcast use vstd::seq_lib::group_to_multiset_ensures;

    if s.len() > 0 {
        lemma_sort_tasks_permutes(s.drop_last(), tz);
        lemma_insert_task_multiset(sort_tasks(s.drop_last(), tz), s.last(), tz);
        assert(s.drop_last().push(s.last()) =~= s);
    }
}

/// The subsequence of tasks with no due value, in order.
pub open spec fn undated(s: Seq<Task>) -> Seq<Task>
    decreases s.len(),
{
    if s.len() == 0 {
        Seq::empty()
    } else if s.last().due is None {
        undated(s.drop_last()).push(s.last())
    } else {
        undated(s.drop_last())
    }
}

/// Inserting a dated task does not touch the undated subsequence; an
/// undated task lands at its end.
proof fn lemma_insert_task_undated(s: Seq<Task>, t: Task, tz: chrono_tz::Tz)
    ensures
        undated(insert_task(s, t, tz)) == if t.due is None {
            undated(s).push(t)
        } else {
            undated(s)
        },
    decreases s.len(),
{
    if s.len() == 0 {
        assert(insert_task(s, t, tz) =~= seq![t]);
        assert(seq![t].drop_last() =~= Seq::<Task>::empty());
        assert(undated(Seq::<Task>::empty()) =~= Seq::<Task>::empty());
        assert(undated(s) =~= Seq::<Task>::empty());
        if t.due is None {
            assert(undated(seq![t]) =~= undated(s).push(t));
        } else {
            assert(undated(seq![t]) =~= undated(s));
        }
    } else if key_le_int(opt_key_of(s.last(), tz), opt_key_of(t, tz)) {
        assert(s.push(t).drop_last() =~= s);
        assert(s.push(t).last() == t);
        assert(undated(insert_task(s, t, tz)) == undated(s.push(t)));
    } else {
        lemma_insert_task_undated(s.drop_last(), t, tz);
        let rec = insert_task(s.drop_last(), t, tz);
        assert(rec.push(s.last()).drop_last() =~= rec);
        if t.due is None {
            assert(opt_key_of(t, tz) is None);
            assert(key_le_int(opt_key_of(s.last(), tz), opt_key_of(t, tz)));
        }
        assert(undated(rec) == undated(s.drop_last()));
        assert(undated(insert_task(s, t, tz)) == undated(s));
    }
}

/// Law: tasks with no due value sort after all dated tasks, in their
/// original relative order — the undated subsequence of the sorted list
/// is the undated subsequence of the input.
pub proof fn lemma_sort_tasks_keeps_undated_order(s: Seq<Task>, tz: chrono_tz::Tz)
    ensures
        undated(sort_tasks(s, tz)) == undated(s),
    decreases s.len(),
{
    if s.len() > 0 {
        lemma_sort_tasks_keeps_undated_order(s.drop_last(), tz);
        lemma_insert_task_undated(sort_tasks(s.drop_last(), tz), s.last(), tz);
    }
}

/// The sync command batch that closes one task, keyed by a request
/// identifier.
pub open spec fn close_command_body(uuid: Seq<char>, task_id: Seq<char>) -> Seq<char> {
    "{\"commands\": [{\"type\": \"item_close\", \"uuid\": \""@ + json_escaped(uuid)
        + "\", \"temp_id\": \""@ + json_escaped(uuid) + "\", \"args\": {\"id\": \""@
        + json_escaped(task_id) + "\"}}]}"@
}

/// Relies on uuid's `new_v4` and its hyphenated rendering: a fresh random
/// version-4 identifier, 36 characters long; nothing is assumed of which
/// value comes back.
#[verifier::external_body]
fn fresh_uuid() -> (r: String)
    ensures
        r@.len() == 36,
{
    uuid::Uuid::new_v4().to_string()
}

/// The completion command for one task: a fresh request identifier and
/// the JSON body that closes the task under that identifier.
pub fn complete_task_command(task_id: &str) -> (r: (String, String))
    ensures
        r.0@.len() == 36,
        r.1@ == close_command_body(r.0@, task_id@),
{
    let uuid = fresh_uuid();
    let mut body = "{\"commands\": [{\"type\": \"item_close\", \"uuid\": \"".to_owned();
    body.append(json_escape(uuid.as_str()).as_str());
    body.append("\", \"temp_id\": \"");
    body.append(json_escape(uuid.as_str()).as_str());
    body.append("\", \"args\": {\"id\": \"");
    body.append(json_escape(task_id).as_str());
    body.append("\"}}]}");
    (uuid, body)
}

} // verus!
