//! The bookkeeping beside the task list: requests kept for retries, the
//! process of each running task, cancelled tasks, the download history, and
//! which tasks a clean-up removes.
use vstd::prelude::*;
use vstd::utf8::{decode_utf8, valid_utf8};
use crate::args::{copy_request, StartDownloadRequest};
use crate::download::{cancel_task_record, TaskRecord};
use crate::settings::{english_spec, is_english};
use crate::text::{
    concat, str_equal, trim_chars, string_of, trimmed, decimal, decimal_string, bytes_to_text_strict, chars_of, chars_less, text_less, lemma_text_less_asymmetric,
    lemma_text_less_transitive,
};

verus! {

/// The entries of a table with the map they hold.
struct TableEntries<V> {
    entries: Vec<(String, V)>,
    model: Ghost<Map<Seq<char>, V>>,
}

impl<V> TableEntries<V> {
    /// The contents of the table.
    pub closed spec fn view(&self) -> Map<Seq<char>, V> {
        self.model@
    }

    /// The entries hold exactly the contents, each key once.
    pub closed spec fn wf(&self) -> bool {
        &&& forall|i: int, j: int|
            0 <= i < j < self.entries@.len() ==> self.entries@[i].0@ != self.entries@[j].0@
        &&& forall|i: int|
            #![trigger self.entries@[i]]
            0 <= i < self.entries@.len() ==> self.model@.dom().contains(self.entries@[i].0@)
                && self.model@[self.entries@[i].0@] == self.entries@[i].1
        &&& forall|k: Seq<char>|
            #![trigger self.model@.dom().contains(k)]
            self.model@.dom().contains(k) ==> exists|i: int|
                0 <= i < self.entries@.len() && self.entries@[i].0@ == k
    }

    /// An empty table.
    pub fn new() -> (r: Self)
        ensures
            r.wf(),
            r@ == Map::<Seq<char>, V>::empty(),
    {
        TableEntries { entries: Vec::new(), model: Ghost(Map::empty()) }
    }

    /// The position of `key`, if present.
    fn find(&self, key: &str) -> (r: Option<usize>)
        requires
            self.wf(),
        ensures
            match r {
                Some(i) => i < self.entries@.len() && self.entries@[i as int].0@ == key@,
                None => !self@.dom().contains(key@),
            },
    {
        let mut i: usize = 0;
        while i < self.entries.len()
            invariant
                i <= self.entries@.len(),
                forall|j: int| 0 <= j < i ==> self.entries@[j].0@ != key@,
            decreases self.entries.len() - i,
        {
            if str_equal(self.entries[i].0.as_str(), key) {
                return Some(i);
            }
            i = i + 1;
        }
        None
    }

    /// The entries of the table, each key once, in no particular order.
    pub fn entries(&self) -> (r: &Vec<(String, V)>)
        requires
            self.wf(),
        ensures
            forall|i: int, j: int| 0 <= i < j < r@.len() ==> r@[i].0@ != r@[j].0@,
            forall|i: int|
                #![trigger r@[i]]
                0 <= i < r@.len() ==> self@.dom().contains(r@[i].0@) && self@[r@[i].0@] == r@[i].1,
            forall|k: Seq<char>|
                #![trigger self@.dom().contains(k)]
                self@.dom().contains(k) ==> exists|i: int| 0 <= i < r@.len() && r@[i].0@ == k,
    {
        &self.entries
    }

    /// The value kept for `key`, if any.
    pub fn get(&self, key: &str) -> (r: Option<&V>)
        requires
            self.wf(),
        ensures
            self@.dom().contains(key@) ==> (r matches Some(v) && *v == self@[key@]),
            !self@.dom().contains(key@) ==> r is None,
    {
        match self.find(key) {
            Some(i) => Some(&self.entries[i].1),
            None => None,
        }
    }

    /// `key` is in the table.
    pub fn contains_key(&self, key: &str) -> (r: bool)
        requires
            self.wf(),
        ensures
            r == self@.dom().contains(key@),
    {
        self.find(key).is_some()
    }

    /// Sets the value for `key` (`HashMap::insert`).
    pub fn insert(&mut self, key: &str, value: V)
        requires
            old(self).wf(),
        ensures
            final(self).wf(),
            final(self)@ == old(self)@.insert(key@, value),
    {
        let ghost m = self.model@.insert(key@, value);
        match self.find(key) {
            Some(i) => {
                let ghost before = self.entries@;
                let (k, _) = self.entries.remove(i);
                self.entries.insert(i, (k, value));
                proof {
                    assert(self.entries@ =~= before.update(i as int, (before[i as int].0, value)));
                    self.model = Ghost(m);
                    assert forall|k2: Seq<char>| #![trigger m.dom().contains(k2)] m.dom().contains(k2) implies exists|j: int|
                        0 <= j < self.entries@.len() && self.entries@[j].0@ == k2 by {
                        if k2 == key@ {
                            assert(self.entries@[i as int].0@ == k2);
                        } else {
                            assert(old(self).model@.dom().contains(k2));
                            let j = choose|j: int| 0 <= j < before.len() && before[j].0@ == k2;
                            assert(self.entries@[j].0@ == k2);
                        }
                    }
                }
            },
            None => {
                let ghost before = self.entries@;
                self.entries.push((key.to_string(), value));
                proof {
                    self.model = Ghost(m);
                    assert forall|k2: Seq<char>| #![trigger m.dom().contains(k2)] m.dom().contains(k2) implies exists|j: int|
                        0 <= j < self.entries@.len() && self.entries@[j].0@ == k2 by {
                        if k2 == key@ {
                            assert(self.entries@[before.len() as int].0@ == k2);
                        } else {
                            assert(old(self).model@.dom().contains(k2));
                            let j = choose|j: int| 0 <= j < before.len() && before[j].0@ == k2;
                            assert(self.entries@[j].0@ == k2);
                        }
                    }
                    assert forall|a: int, b: int| 0 <= a < b < self.entries@.len() implies self.entries@[a].0@
                        != self.entries@[b].0@ by {
                        if b == before.len() {
                            assert(old(self).model@.dom().contains(before[a].0@));
                        }
                    }
                }
            },
        }
    }

    /// Removes `key` and gives back its value (`HashMap::remove`).
    pub fn remove(&mut self, key: &str) -> (r: Option<V>)
        requires
            old(self).wf(),
        ensures
            final(self).wf(),
            final(self)@ == old(self)@.remove(key@),
            old(self)@.dom().contains(key@) ==> r == Some(old(self)@[key@]),
            !old(self)@.dom().contains(key@) ==> r is None,
    {
        match self.find(key) {
            Some(i) => {
                let ghost before = self.entries@;
                let ghost m = self.model@.remove(key@);
                let (_, v) = self.entries.remove(i);
                proof {
                    self.model = Ghost(m);
                    assert forall|a: int| #![trigger self.entries@[a]] 0 <= a < self.entries@.len() implies m.dom().contains(
                        self.entries@[a].0@,
                    ) && m[self.entries@[a].0@] == self.entries@[a].1 by {
                        let src = if a < i { a } else { a + 1 };
                        assert(self.entries@[a] == before[src]);
                        assert(before[src].0@ != before[i as int].0@);
                    }
                    assert forall|k2: Seq<char>| #![trigger m.dom().contains(k2)] m.dom().contains(k2) implies exists|j: int|
                        0 <= j < self.entries@.len() && self.entries@[j].0@ == k2 by {
                        let j = choose|j: int| 0 <= j < before.len() && before[j].0@ == k2;
                        assert(j != i);
                        if j < i {
                            assert(self.entries@[j].0@ == k2);
                        } else {
                            assert(self.entries@[j - 1].0@ == k2);
                        }
                    }
                    assert forall|a: int, b: int| 0 <= a < b < self.entries@.len() implies self.entries@[a].0@
                        != self.entries@[b].0@ by {
                        let sa = if a < i { a } else { a + 1 };
                        let sb = if b < i { b } else { b + 1 };
                        assert(self.entries@[a] == before[sa]);
                        assert(self.entries@[b] == before[sb]);
                    }
                }
                Some(v)
            },
            None => {
                assert(self.model@.remove(key@) =~= self.model@);
                None
            },
        }
    }
}

/// A table keyed by task identifier; no identifier occurs twice.
pub struct KeyedTable<V> {
    table: TableEntries<V>,
}

impl<V> KeyedTable<V> {
    /// The contents of the table.
    pub closed spec fn view(&self) -> Map<Seq<char>, V> {
        self.table@
    }

    /// The entries hold exactly the contents, each key once.
    #[verifier::type_invariant]
    closed spec fn well_formed(self) -> bool {
        self.table.wf()
    }

    /// An empty table.
    pub fn new() -> (r: Self)
        ensures
            r@ == Map::<Seq<char>, V>::empty(),
    {
        KeyedTable { table: TableEntries::new() }
    }

    /// The entries of the table, each key once, in no particular order.
    pub fn entries(&self) -> (r: &Vec<(String, V)>)
        ensures
            forall|i: int, j: int| 0 <= i < j < r@.len() ==> r@[i].0@ != r@[j].0@,
            forall|i: int|
                #![trigger r@[i]]
                0 <= i < r@.len() ==> self@.dom().contains(r@[i].0@) && self@[r@[i].0@] == r@[i].1,
            forall|k: Seq<char>|
                #![trigger self@.dom().contains(k)]
                self@.dom().contains(k) ==> exists|i: int| 0 <= i < r@.len() && r@[i].0@ == k,
    {
        proof {
            use_type_invariant(self);
        }
        self.table.entries()
    }

    /// The value kept for `key`, if any.
    pub fn get(&self, key: &str) -> (r: Option<&V>)
        ensures
            self@.dom().contains(key@) ==> (r matches Some(v) && *v == self@[key@]),
            !self@.dom().contains(key@) ==> r is None,
    {
        proof {
            use_type_invariant(self);
        }
        self.table.get(key)
    }

    /// `key` is in the table.
    pub fn contains_key(&self, key: &str) -> (r: bool)
        ensures
            r == self@.dom().contains(key@),
    {
        proof {
            use_type_invariant(self);
        }
        self.table.contains_key(key)
    }

    /// Sets the value for `key` (`HashMap::insert`).
    pub fn insert(&mut self, key: &str, value: V)
        ensures
            final(self)@ == old(self)@.insert(key@, value),
    {
        proof {
            use_type_invariant(&*self);
        }
        let mut table = TableEntries::new();
        std::mem::swap(&mut table, &mut self.table);
        table.insert(key, value);
        self.table = table;
    }

    /// Removes `key` and gives back its value (`HashMap::remove`).
    pub fn remove(&mut self, key: &str) -> (r: Option<V>)
        ensures
            final(self)@ == old(self)@.remove(key@),
            old(self)@.dom().contains(key@) ==> r == Some(old(self)@[key@]),
            !old(self)@.dom().contains(key@) ==> r is None,
    {
        proof {
            use_type_invariant(&*self);
        }
        let mut table = TableEntries::new();
        std::mem::swap(&mut table, &mut self.table);
        let r = table.remove(key);
        self.table = table;
        r
    }
}

/// A download recorded in the history.
#[derive(Debug)]
pub struct HistoryItem {
    pub title: String,
    pub finished_at: String,
    pub profile: String,
    pub output: String,
}

/// The most items the history keeps.
pub const HISTORY_LIMIT: usize = 200;

// ---------------------------------------------------------------------------
// Specifications
// ---------------------------------------------------------------------------

/// The clean-up scope takes a task with this status.
pub open spec fn scope_takes(scope: Seq<char>, status: Seq<char>) -> bool {
    if scope == "completed"@ {
        status == "done"@
    } else if scope == "failed"@ {
        status == "failed"@ || status == "cancelled"@
    } else {
        scope == "all"@
    }
}

/// A clean-up scope the task list knows.
pub open spec fn known_scope(scope: Seq<char>) -> bool {
    scope == "completed"@ || scope == "failed"@ || scope == "all"@
}

/// The identifiers of the tasks (identifier, status) a clean-up removes, in order.
pub open spec fn clearable(tasks: Seq<(String, String)>, scope: Seq<char>) -> Seq<Seq<char>>
    decreases tasks.len(),
{
    if tasks.len() == 0 {
        Seq::empty()
    } else if scope_takes(scope, tasks.last().1@) {
        clearable(tasks.drop_last(), scope).push(tasks.last().0@)
    } else {
        clearable(tasks.drop_last(), scope)
    }
}

/// The history after recording `item`: newest first, at most the limit.
pub open spec fn history_after(history: Seq<HistoryItem>, item: HistoryItem) -> Seq<HistoryItem> {
    let all = seq![item] + history;
    if all.len() > HISTORY_LIMIT {
        all.take(HISTORY_LIMIT as int)
    } else {
        all
    }
}


/// `a` is listed before `b` in the task list: its identifier is greater.
pub open spec fn task_precedes(a: TaskRecord, b: TaskRecord) -> bool {
    text_less(b.id@, a.id@)
}

/// The first index at or after `k` whose task `x` precedes, or the length.
pub open spec fn task_insert_position(s: Seq<TaskRecord>, x: TaskRecord, k: int) -> int
    decreases s.len() - k,
{
    if k >= s.len() {
        s.len() as int
    } else if task_precedes(x, s[k]) {
        k
    } else {
        task_insert_position(s, x, k + 1)
    }
}

/// The tasks newest first, by identifier in descending text order, equal
/// identifiers in the order they came in (what a stable sort gives).
pub open spec fn newest_first_spec(s: Seq<TaskRecord>) -> Seq<TaskRecord>
    decreases s.len(),
{
    if s.len() == 0 {
        s
    } else {
        let r = newest_first_spec(s.drop_last());
        r.insert(task_insert_position(r, s.last(), 0), s.last())
    }
}


/// The label of the moment a download finished: what `date` printed
/// (trimmed) when it ran, printed valid UTF-8 and printed more than
/// whitespace; else the seconds since the epoch; else "unknown".
pub open spec fn timestamp_text(date_stdout: Option<Seq<u8>>, unix_secs: Option<u64>) -> Seq<char> {
    match date_stdout {
        Some(b) if valid_utf8(b) && trimmed(decode_utf8(b)).len() > 0 => trimmed(decode_utf8(b)),
        _ => match unix_secs {
            Some(n) => decimal(n as nat),
            None => "unknown"@,
        },
    }
}


/// The message when no request is kept for a task to retry.
pub open spec fn no_retry_text(language: Seq<char>) -> Seq<char> {
    if english_spec(language) {
        "No retryable task configuration was found"@
    } else {
        "未找到可重试的任务配置"@
    }
}

/// The message for a task that is not in the task list.
pub open spec fn not_found_text(language: Seq<char>) -> Seq<char> {
    if english_spec(language) {
        "Task not found"@
    } else {
        "未找到任务"@
    }
}

/// The message when cancelling fails: the system's message when the stop
/// signal could not be sent, else a note that the process did not stop.
pub open spec fn cancel_failed_text(language: Seq<char>, system_error: Option<Seq<char>>) -> Seq<char> {
    match system_error {
        Some(e) => if english_spec(language) {
            "Failed to cancel the task: "@ + e
        } else {
            "取消任务失败："@ + e
        },
        None => if english_spec(language) {
            "Failed to cancel the task because the download process could not be terminated"@
        } else {
            "取消任务失败，无法终止下载进程"@
        },
    }
}

// ---------------------------------------------------------------------------
// Executable functions
// ---------------------------------------------------------------------------

/// `store_task_request`: keeps the request of a task for a retry.
pub fn store_task_request(
    store: &mut KeyedTable<StartDownloadRequest>,
    id: &str,
    request: &StartDownloadRequest,
)
    ensures
        final(store)@ == old(store)@.insert(id@, *request),
{
    store.insert(id, copy_request(request));
}

/// `store_task_pid`: the process of a running task.
pub fn store_task_pid(store: &mut KeyedTable<u32>, id: &str, pid: u32)
    ensures
        final(store)@ == old(store)@.insert(id@, pid),
{
    store.insert(id, pid);
}

/// `take_task_pid`: removes and gives back the process of a task.
pub fn take_task_pid(store: &mut KeyedTable<u32>, id: &str) -> (r: Option<u32>)
    ensures
        final(store)@ == old(store)@.remove(id@),
        old(store)@.dom().contains(id@) ==> r == Some(old(store)@[id@]),
        !old(store)@.dom().contains(id@) ==> r is None,
{
    store.remove(id)
}

/// `task_precedes` on two tasks.
fn task_comes_first(a: &TaskRecord, b: &TaskRecord) -> (r: bool)
    ensures
        r == task_precedes(*a, *b),
{
    let la = chars_of(a.id.as_str());
    let lb = chars_of(b.id.as_str());
    chars_less(&lb, &la)
}

/// The task list as it is shown: newest first, by identifier in descending
/// order.
pub fn newest_first(tasks: Vec<TaskRecord>) -> (r: Vec<TaskRecord>)
    ensures
        r@ == newest_first_spec(tasks@),
{
    let ghost all = tasks@;
    let mut items = tasks;
    let mut out: Vec<TaskRecord> = Vec::new();
    let ghost mut taken: nat = 0;
    while items.len() > 0
        invariant
            taken + items@.len() == all.len(),
            items@ == all.skip(taken as int),
            out@ == newest_first_spec(all.take(taken as int)),
        decreases items.len(),
    {
        let ghost old_items = items@;
        let x = items.remove(0);
        assert(x == all[taken as int]) by {
            assert(all.skip(taken as int)[0] == all[taken as int]);
        }
        let mut p: usize = 0;
        let ghost cur = out@;
        while p < out.len() && !task_comes_first(&x, &out[p])
            invariant
                p <= out@.len(),
                cur == out@,
                task_insert_position(cur, x, 0) == task_insert_position(cur, x, p as int),
            decreases out.len() - p,
        {
            p = p + 1;
        }
        out.insert(p, x);
        proof {
            assert(all.take(taken + 1int).drop_last() =~= all.take(taken as int));
            assert(all.take(taken + 1int).last() == x);
            assert(items@ =~= all.skip(taken + 1int));
            taken = taken + 1;
        }
    }
    assert(all.take(all.len() as int) =~= all);
    out
}

/// The finishing time recorded in the history. `date_stdout` is what
/// `date +%Y-%m-%d %H:%M:%S` printed when it ran and succeeded; `unix_secs`
/// the seconds since the epoch, when the clock gives them.
pub fn timestamp_label(date_stdout: Option<Vec<u8>>, unix_secs: Option<u64>) -> (r: String)
    ensures
        r@ == timestamp_text(
            match date_stdout {
                Some(b) => Some(b@),
                None => None,
            },
            unix_secs,
        ),
{
    if let Some(bytes) = date_stdout {
        if let Some(text) = bytes_to_text_strict(bytes) {
            let t = trim_chars(&chars_of(text.as_str()));
            if t.len() > 0 {
                return string_of(&t);
            }
        }
    }
    match unix_secs {
        Some(n) => decimal_string(n as u128),
        None => "unknown".to_string(),
    }
}

/// `remove_task_pid`: forgets the process of a task.
pub fn remove_task_pid(store: &mut KeyedTable<u32>, id: &str)
    ensures
        final(store)@ == old(store)@.remove(id@),
{
    let _ = store.remove(id);
}

/// Marks a task as cancelled by the user.
pub fn mark_task_cancelled(store: &mut KeyedTable<()>, id: &str)
    ensures
        final(store)@.dom() == old(store)@.dom().insert(id@),
{
    store.insert(id, ());
}

/// `clear_task_cancelled`: a new task starts not cancelled.
pub fn clear_task_cancelled(store: &mut KeyedTable<()>, id: &str)
    ensures
        final(store)@.dom() == old(store)@.dom().remove(id@),
{
    let _ = store.remove(id);
}

/// `take_task_cancelled`: whether the task was cancelled, forgetting the mark.
pub fn take_task_cancelled(store: &mut KeyedTable<()>, id: &str) -> (r: bool)
    ensures
        final(store)@.dom() == old(store)@.dom().remove(id@),
        r == old(store)@.dom().contains(id@),
{
    store.remove(id).is_some()
}

/// `request_language_from_state`: the language of the task's request, else
/// the language of the settings.
pub fn request_language_from_state(
    requests: &KeyedTable<StartDownloadRequest>,
    settings_language: &str,
    task_id: &str,
) -> (r: String)
    ensures
        requests@.dom().contains(task_id@) ==> r@ == requests@[task_id@].language@,
        !requests@.dom().contains(task_id@) ==> r@ == settings_language@,
{
    match requests.get(task_id) {
        Some(request) => request.language.clone(),
        None => settings_language.to_string(),
    }
}

/// The task identifiers that `clear_tasks` removes for `scope`, or its error
/// for an unknown scope.
pub fn clearable_task_ids(tasks: &Vec<(String, String)>, scope: &str) -> (r: Result<Vec<String>, String>)
    ensures
        known_scope(scope@) ==> (r matches Ok(ids) && crate::text::views(ids@) == clearable(tasks@, scope@)),
        !known_scope(scope@) ==> (r matches Err(e) && e@ == "未知的清理范围"@),
{
    let mut ids: Vec<String> = Vec::new();
    let mut i: usize = 0;
    let completed = str_equal(scope, "completed");
    let failed = str_equal(scope, "failed");
    let all = str_equal(scope, "all");
    while i < tasks.len()
        invariant
            i <= tasks.len(),
            completed == (scope@ == "completed"@),
            failed == (scope@ == "failed"@),
            all == (scope@ == "all"@),
            crate::text::views(ids@) == clearable(tasks@.take(i as int), scope@),
        decreases tasks.len() - i,
    {
        let status = tasks[i].1.as_str();
        let takes = if completed {
            str_equal(status, "done")
        } else if failed {
            str_equal(status, "failed") || str_equal(status, "cancelled")
        } else {
            all
        };
        assert(tasks@.take(i + 1).drop_last() =~= tasks@.take(i as int));
        if takes {
            let ghost before = ids@;
            ids.push(tasks[i].0.clone());
            assert(crate::text::views(ids@) =~= crate::text::views(before).push(tasks@[i as int].0@));
        }
        i = i + 1;
    }
    assert(tasks@.take(tasks.len() as int) =~= tasks@);
    if !completed && !failed && !all {
        return Err("未知的清理范围".to_string());
    }
    Ok(ids)
}

proof fn lemma_push_to_set(s: Seq<Seq<char>>, x: Seq<char>)
    ensures
        s.push(x).to_set() == s.to_set().insert(x),
{
    assert forall|a: Seq<char>| #[trigger] s.push(x).to_set().contains(a) == s.to_set().insert(x).contains(a) by {
        if s.contains(a) {
            let i = choose|i: int| 0 <= i < s.len() && s[i] == a;
            assert(s.push(x)[i] == a);
        }
        if a == x {
            assert(s.push(x)[s.len() as int] == x);
        }
        if s.push(x).contains(a) {
            let i = choose|i: int| 0 <= i < s.push(x).len() && s.push(x)[i] == a;
            if i < s.len() {
                assert(s[i] == a);
            }
        }
    }
    assert(s.push(x).to_set() =~= s.to_set().insert(x));
}

/// Removes the given tasks from the task list and from the request, process
/// and cancellation tables (the part of `clear_tasks` after the choice of
/// tasks).
pub fn forget_tasks<T>(
    tasks: &mut KeyedTable<T>,
    requests: &mut KeyedTable<StartDownloadRequest>,
    pids: &mut KeyedTable<u32>,
    cancelled: &mut KeyedTable<()>,
    ids: &Vec<String>,
)
    ensures
        final(tasks)@ == old(tasks)@.remove_keys(crate::text::views(ids@).to_set()),
        final(requests)@ == old(requests)@.remove_keys(crate::text::views(ids@).to_set()),
        final(pids)@ == old(pids)@.remove_keys(crate::text::views(ids@).to_set()),
        final(cancelled)@ == old(cancelled)@.remove_keys(crate::text::views(ids@).to_set()),
{
    let mut i: usize = 0;
    while i < ids.len()
        invariant
            i <= ids.len(),
            tasks@ == old(tasks)@.remove_keys(crate::text::views(ids@.take(i as int)).to_set()),
            requests@ == old(requests)@.remove_keys(crate::text::views(ids@.take(i as int)).to_set()),
            pids@ == old(pids)@.remove_keys(crate::text::views(ids@.take(i as int)).to_set()),
            cancelled@ == old(cancelled)@.remove_keys(crate::text::views(ids@.take(i as int)).to_set()),
        decreases ids.len() - i,
    {
        let id = ids[i].as_str();
        let _ = tasks.remove(id);
        let _ = requests.remove(id);
        let _ = pids.remove(id);
        let _ = cancelled.remove(id);
        proof {
            let before = crate::text::views(ids@.take(i as int)).to_set();
            let after = crate::text::views(ids@.take(i + 1)).to_set();
            assert(crate::text::views(ids@.take(i + 1)) =~= crate::text::views(ids@.take(i as int)).push(
                ids@[i as int]@,
            ));
            lemma_push_to_set(crate::text::views(ids@.take(i as int)), ids@[i as int]@);
            assert(after == before.insert(ids@[i as int]@));
            assert(old(tasks)@.remove_keys(before).remove(ids@[i as int]@) =~= old(tasks)@.remove_keys(after));
            assert(old(requests)@.remove_keys(before).remove(ids@[i as int]@) =~= old(requests)@.remove_keys(after));
            assert(old(pids)@.remove_keys(before).remove(ids@[i as int]@) =~= old(pids)@.remove_keys(after));
            assert(old(cancelled)@.remove_keys(before).remove(ids@[i as int]@) =~= old(cancelled)@.remove_keys(after));
        }
        i = i + 1;
    }
    assert(ids@.take(ids.len() as int) =~= ids@);
}

/// The history entry of a finished task.
pub fn history_item(task: &TaskRecord, finished_at: String) -> (r: HistoryItem)
    ensures
        r.title == task.title,
        r.finished_at == finished_at,
        r.profile == task.profile,
        r.output == task.output,
{
    HistoryItem {
        title: task.title.clone(),
        finished_at,
        profile: task.profile.clone(),
        output: task.output.clone(),
    }
}

/// `record_history`: the newest item first, keeping at most 200 items.
pub fn record_history(history: &mut Vec<HistoryItem>, item: HistoryItem)
    ensures
        final(history)@ == history_after(old(history)@, item),
{
    history.insert(0, item);
    if history.len() > HISTORY_LIMIT {
        history.truncate(HISTORY_LIMIT);
    }
    assert(final(history)@ =~= history_after(old(history)@, item)) by {
        assert(seq![item] + old(history)@ =~= old(history)@.insert(0, item));
    }
}

/// `retry_download` before the new run: a copy of the request kept for the
/// task, or the message (in the language of the settings) that none is kept.
pub fn retry_request(
    requests: &KeyedTable<StartDownloadRequest>,
    settings_language: &str,
    task_id: &str,
) -> (r: Result<StartDownloadRequest, String>)
    ensures
        requests@.dom().contains(task_id@) ==> (r matches Ok(q) && q == requests@[task_id@]),
        !requests@.dom().contains(task_id@) ==> (r matches Err(e) && e@ == no_retry_text(settings_language@)),
{
    match requests.get(task_id) {
        Some(request) => Ok(copy_request(request)),
        None => Err(message_no_retry_config(settings_language)),
    }
}

/// What sending the stop signal to a task's process means for the
/// cancellation: nothing when the signal was sent and the command succeeded
/// (`Ok(true)`), else the error to report.
pub fn kill_error(language: &str, kill: Result<bool, String>) -> (r: Option<String>)
    ensures
        match kill {
            Ok(success) => if success {
                r is None
            } else {
                r matches Some(m) && m@ == cancel_failed_text(language@, None)
            },
            Err(e) => r matches Some(m) && m@ == cancel_failed_text(language@, Some(e@)),
        },
{
    match kill {
        Ok(success) => if success {
            None
        } else {
            Some(message_cancel_failed(language, None))
        },
        Err(e) => Some(message_cancel_failed(language, Some(e.as_str()))),
    }
}

/// `cancel_download` once the process is stopped: the task marked cancelled,
/// or the message that no such task is listed.
pub fn cancelled_task(task: Option<TaskRecord>, language: &str) -> (r: Result<TaskRecord, String>)
    ensures
        match task {
            Some(t) => r matches Ok(c) && {
                &&& c.status@ == "cancelled"@
                &&& c.error is None
                &&& c.id == t.id && c.title == t.title && c.speed == t.speed && c.eta == t.eta
                &&& c.output == t.output && c.profile == t.profile && c.source_url == t.source_url
            },
            None => r matches Err(e) && e@ == not_found_text(language@),
        },
{
    match task {
        Some(t) => Ok(cancel_task_record(t)),
        None => Err(message_task_not_found(language)),
    }
}

/// The message when no request is kept for a task to retry.
pub fn message_no_retry_config(language: &str) -> (r: String)
    ensures
        r@ == no_retry_text(language@),
{
    if is_english(language) {
        "No retryable task configuration was found".to_string()
    } else {
        "未找到可重试的任务配置".to_string()
    }
}

/// The message when a task to cancel is not in the list.
pub fn message_task_not_found(language: &str) -> (r: String)
    ensures
        r@ == not_found_text(language@),
{
    if is_english(language) {
        "Task not found".to_string()
    } else {
        "未找到任务".to_string()
    }
}

/// The message when cancelling fails: the system's message when the stop
/// signal could not be sent, else a note that the process did not stop.
pub fn message_cancel_failed(language: &str, system_error: Option<&str>) -> (r: String)
    ensures
        r@ == cancel_failed_text(
            language@,
            match system_error {
                Some(e) => Some(e@),
                None => None,
            },
        ),
{
    let english = is_english(language);
    match system_error {
        Some(e) => if english {
            concat("Failed to cancel the task: ", e)
        } else {
            concat("取消任务失败：", e)
        },
        None => if english {
            "Failed to cancel the task because the download process could not be terminated".to_string()
        } else {
            "取消任务失败，无法终止下载进程".to_string()
        },
    }
}

// ---------------------------------------------------------------------------
// Laws
// ---------------------------------------------------------------------------

/// A table gives back what was last written under a key and leaves the
/// other keys as they were; after a removal it no longer holds the key (so
/// the process of a task is taken once after it was stored, and a retry finds
/// the request that was stored for the task).
pub proof fn law_table_read_after_write<V>(m: Map<Seq<char>, V>, key: Seq<char>, value: V, other: Seq<char>)
    requires
        other != key,
    ensures
        m.insert(key, value).dom().contains(key),
        m.insert(key, value)[key] == value,
        m.insert(key, value).dom().contains(other) == m.dom().contains(other),
        m.dom().contains(other) ==> m.insert(key, value)[other] == m[other],
        !m.insert(key, value).remove(key).dom().contains(key),
        m.remove(key).dom().contains(other) == m.dom().contains(other),
{
}

/// A task marked cancelled is reported cancelled once; after the mark is
/// taken, or cleared for a new run, it is not.
pub proof fn law_cancel_mark_taken_once(s: Set<Seq<char>>, id: Seq<char>)
    ensures
        s.insert(id).contains(id),
        !s.insert(id).remove(id).contains(id),
        !s.remove(id).contains(id),
{
}

/// The history never holds more than 200 items when it did not before, and
/// the item just recorded comes first.
pub proof fn law_history_bounded(history: Seq<HistoryItem>, item: HistoryItem)
    requires
        history.len() <= HISTORY_LIMIT,
    ensures
        history_after(history, item).len() <= HISTORY_LIMIT,
        history_after(history, item)[0] == item,
        history_after(history, item).len() == history.len() + 1 || history_after(history, item).len()
            == HISTORY_LIMIT,
{
}

/// No task in the list comes after one listed later.
pub open spec fn tasks_in_order(s: Seq<TaskRecord>) -> bool {
    forall|i: int, j: int| 0 <= i < j < s.len() ==> !task_precedes(s[j], s[i])
}

proof fn lemma_task_insert_position(s: Seq<TaskRecord>, x: TaskRecord, k: int)
    requires
        0 <= k <= s.len(),
    ensures
        k <= task_insert_position(s, x, k) <= s.len(),
        forall|j: int| k <= j < task_insert_position(s, x, k) ==> !task_precedes(x, #[trigger] s[j]),
        task_insert_position(s, x, k) < s.len() ==> task_precedes(x, s[task_insert_position(s, x, k)]),
    decreases s.len() - k,
{
    if k < s.len() && !task_precedes(x, s[k]) {
        lemma_task_insert_position(s, x, k + 1);
    }
}

proof fn lemma_task_insert_keeps_order(s: Seq<TaskRecord>, x: TaskRecord)
    requires
        tasks_in_order(s),
    ensures
        tasks_in_order(s.insert(task_insert_position(s, x, 0), x)),
{
    let p = task_insert_position(s, x, 0);
    lemma_task_insert_position(s, x, 0);
    let t = s.insert(p, x);
    assert forall|i: int, j: int| 0 <= i < j < t.len() implies !task_precedes(t[j], t[i]) by {
        if j < p {
            assert(t[i] == s[i] && t[j] == s[j]);
        } else if j == p {
            assert(t[i] == s[i]);
            assert(!task_precedes(x, s[i]));
        } else if i > p {
            assert(t[i] == s[i - 1] && t[j] == s[j - 1]);
        } else if i == p {
            assert(t[j] == s[j - 1]);
            assert(task_precedes(x, s[p]));
            if j - 1 > p {
                assert(!task_precedes(s[j - 1], s[p]));
                if task_precedes(s[j - 1], x) {
                    lemma_text_less_transitive(s[p].id@, x.id@, s[j - 1].id@);
                }
            } else {
                lemma_text_less_asymmetric(s[p].id@, x.id@);
            }
        } else {
            assert(t[i] == s[i] && t[j] == s[j - 1]);
        }
    }
}

/// The task list holds exactly the tasks it was given, and none of them
/// after a task with a smaller identifier: the newest come first.
pub proof fn law_tasks_newest_first(s: Seq<TaskRecord>)
    ensures
        tasks_in_order(newest_first_spec(s)),
        newest_first_spec(s).to_multiset() == s.to_multiset(),
    decreases s.len(),
{
    broadcast use vstd::seq_lib::group_to_multiset_ensures;
    if s.len() > 0 {
        let r = newest_first_spec(s.drop_last());
        law_tasks_newest_first(s.drop_last());
        lemma_task_insert_keeps_order(r, s.last());
        lemma_task_insert_position(r, s.last(), 0);
        vstd::seq_lib::to_multiset_insert(r, task_insert_position(r, s.last(), 0), s.last());
        assert(s =~= s.drop_last().push(s.last()));
    } else {
        assert(s.to_multiset() == newest_first_spec(s).to_multiset());
    }
}

} // verus!
