//! Interval timers and scheduled tasks: the persistence contract the
//! scheduler relies on, realized as a verified in-memory store.
//!
//! Times are milliseconds since an arbitrary epoch. A scheduled task fires
//! once at `execute_at`; an interval timer recurs and uses its persisted
//! `last_run` as the idempotency anchor.

use vstd::prelude::*;

verus! {

/// Failure reported by a store backend.
#[derive(Clone, Debug, PartialEq, Eq)]
pub enum TimerStoreError {
    Other(String),
}

/// Which tasks a listing should include.
#[derive(Clone, Debug, PartialEq, Eq)]
pub struct GetGuildTasksFilter {
    pub scope: ScopeSelector,
    pub namespace: Option<String>,
}

/// Task ownership scope: everything, guild-owned only, or one plugin's.
#[derive(Clone, Copy, Debug, PartialEq, Eq, Structural)]
pub enum ScopeSelector {
    All,
    Guild,
    Plugin(u64),
}

/// Recurrence of an interval timer.
#[derive(Clone, Debug, PartialEq, Eq)]
pub enum IntervalType {
    Minutes(u64),
    Cron(String),
}

/// A recurring timer, unique per tenant by `(name, plugin_id)`.
#[derive(Clone, Debug, PartialEq, Eq)]
pub struct IntervalTimer {
    pub name: String,
    pub interval: IntervalType,
    /// When this timer last fired; persisted before dispatch.
    pub last_run: u64,
    pub plugin_id: Option<u64>,
}

/// A single-fire deferred task.
#[derive(Clone, Debug, PartialEq, Eq)]
pub struct ScheduledTask {
    /// Globally unique, assigned by the store in increasing order.
    pub id: u64,
    pub name: String,
    pub plugin_id: Option<u64>,
    /// When present, `(tenant, plugin_id, name, unique_key)` is unique and a
    /// new task replaces the old row.
    pub unique_key: Option<String>,
    /// Opaque JSON supplied by the script.
    pub data: String,
    pub execute_at: u64,
}

/// `(name, plugin_id)` grouping used to exclude in-flight work from fetches.
#[derive(Clone, Debug, PartialEq, Eq)]
pub struct TaskBucket {
    pub name: String,
    pub plugin_id: Option<u64>,
}

/// Mathematical value of an interval timer.
pub struct IntervalV {
    pub name: Seq<char>,
    pub minutes: Option<u64>,
    pub cron: Option<Seq<char>>,
    pub last_run: u64,
    pub plugin_id: Option<u64>,
}

impl View for IntervalTimer {
    type V = IntervalV;

    open spec fn view(&self) -> IntervalV {
        IntervalV {
            name: self.name@,
            minutes: match self.interval {
                IntervalType::Minutes(n) => Some(n),
                IntervalType::Cron(_) => None,
            },
            cron: match self.interval {
                IntervalType::Minutes(_) => None,
                IntervalType::Cron(ref s) => Some(s@),
            },
            last_run: self.last_run,
            plugin_id: self.plugin_id,
        }
    }
}

/// Mathematical value of a scheduled task row.
pub struct TaskV {
    pub id: u64,
    pub name: Seq<char>,
    pub plugin_id: Option<u64>,
    pub unique_key: Option<Seq<char>>,
    pub data: Seq<char>,
    pub execute_at: u64,
}

pub open spec fn opt_string_view(s: Option<String>) -> Option<Seq<char>> {
    match s {
        Some(x) => Some(x@),
        None => None,
    }
}

impl View for ScheduledTask {
    type V = TaskV;

    open spec fn view(&self) -> TaskV {
        TaskV {
            id: self.id,
            name: self.name@,
            plugin_id: self.plugin_id,
            unique_key: opt_string_view(self.unique_key),
            data: self.data@,
            execute_at: self.execute_at,
        }
    }
}

impl ScheduledTask {
    /// A structurally equal copy of this row.
    pub fn duplicate(&self) -> (r: ScheduledTask)
        ensures
            r@ == self@,
    {
        ScheduledTask {
            id: self.id,
            name: clone_string(&self.name),
            plugin_id: self.plugin_id,
            unique_key: clone_opt_string(&self.unique_key),
            data: clone_string(&self.data),
            execute_at: self.execute_at,
        }
    }
}

impl IntervalTimer {
    /// A structurally equal copy of this timer.
    pub fn duplicate(&self) -> (r: IntervalTimer)
        ensures
            r@ == self@,
    {
        IntervalTimer {
            name: clone_string(&self.name),
            interval: match &self.interval {
                IntervalType::Minutes(n) => IntervalType::Minutes(*n),
                IntervalType::Cron(s) => IntervalType::Cron(clone_string(s)),
            },
            last_run: self.last_run,
            plugin_id: self.plugin_id,
        }
    }
}

fn clone_string(s: &String) -> (r: String)
    ensures
        r@ == s@,
{
    s.clone()
}

fn clone_opt_string(s: &Option<String>) -> (r: Option<String>)
    ensures
        opt_string_view(r) == opt_string_view(*s),
{
    match s {
        Some(x) => Some(x.clone()),
        None => None,
    }
}

fn opt_u64_eq(a: &Option<u64>, b: &Option<u64>) -> (r: bool)
    ensures
        r == (a == b),
{
    match (a, b) {
        (Some(x), Some(y)) => *x == *y,
        (None, None) => true,
        _ => false,
    }
}

fn string_eq(a: &String, b: &String) -> (r: bool)
    ensures
        r == (a@ == b@),
{
    a.eq(b)
}

/// Whether `name` passes an optional name filter.
fn name_filter_matches(filter: &Option<String>, name: &String) -> (r: bool)
    ensures
        r == (match opt_string_view(*filter) {
            Some(f) => f == name@,
            None => true,
        }),
{
    match filter {
        Some(f) => string_eq(f, name),
        None => true,
    }
}

/// Whether `plugin_id` passes an optional plugin filter.
fn plugin_filter_matches(filter: &Option<u64>, plugin_id: &Option<u64>) -> (r: bool)
    ensures
        r == (match *filter {
            Some(p) => *plugin_id == Some(p),
            None => true,
        }),
{
    match filter {
        Some(p) => (match plugin_id {
            Some(q) => *p == *q,
            None => false,
        }),
        None => true,
    }
}

/// One tenant's rows are tagged with its guild id.
pub struct TimerStore {
    pub tasks: Vec<(u64, ScheduledTask)>,
    pub intervals: Vec<(u64, IntervalTimer)>,
    pub next_id: u64,
}

/// View of the task table: `(guild_id, row)` pairs in store order.
pub open spec fn tasks_view(rows: Seq<(u64, ScheduledTask)>) -> Seq<(u64, TaskV)> {
    rows.map(|i: int, r: (u64, ScheduledTask)| (r.0, r.1@))
}

/// View of the interval table.
pub open spec fn intervals_view(rows: Seq<(u64, IntervalTimer)>) -> Seq<(u64, IntervalV)> {
    rows.map(|i: int, r: (u64, IntervalTimer)| (r.0, r.1@))
}

/// Two rows collide on the replace-on-conflict constraint: same tenant,
/// plugin, name, and the same present unique key.
pub open spec fn same_unique_key(a: (u64, TaskV), b: (u64, TaskV)) -> bool {
    &&& a.0 == b.0
    &&& a.1.plugin_id == b.1.plugin_id
    &&& a.1.name == b.1.name
    &&& a.1.unique_key is Some
    &&& a.1.unique_key == b.1.unique_key
}

/// A row matches a point lookup by key.
pub open spec fn key_matches(
    row: (u64, TaskV),
    guild_id: u64,
    plugin_id: Option<u64>,
    name: Seq<char>,
    key: Seq<char>,
) -> bool {
    &&& row.0 == guild_id
    &&& row.1.plugin_id == plugin_id
    &&& row.1.name == name
    &&& row.1.unique_key == Some(key)
}

/// The row a point lookup by id returns.
pub open spec fn find_by_id(rows: Seq<(u64, TaskV)>, guild_id: u64, id: u64) -> Option<TaskV> {
    if exists|i: int|
        0 <= i < rows.len() && (#[trigger] rows[i]).0 == guild_id && rows[i].1.id == id {
        let i = choose|i: int|
            0 <= i < rows.len() && (#[trigger] rows[i]).0 == guild_id && rows[i].1.id == id;
        Some(rows[i].1)
    } else {
        None
    }
}

/// The index of the row a point lookup by unique key returns.
pub open spec fn find_key_index(
    rows: Seq<(u64, TaskV)>,
    guild_id: u64,
    plugin_id: Option<u64>,
    name: Seq<char>,
    key: Seq<char>,
) -> Option<int> {
    if exists|i: int|
        0 <= i < rows.len() && key_matches(#[trigger] rows[i], guild_id, plugin_id, name, key) {
        Some(
            choose|i: int|
                0 <= i < rows.len() && key_matches(
                    #[trigger] rows[i],
                    guild_id,
                    plugin_id,
                    name,
                    key,
                ),
        )
    } else {
        None
    }
}

/// The row a point lookup by unique key returns.
pub open spec fn find_by_key(
    rows: Seq<(u64, TaskV)>,
    guild_id: u64,
    plugin_id: Option<u64>,
    name: Seq<char>,
    key: Seq<char>,
) -> Option<TaskV> {
    match find_key_index(rows, guild_id, plugin_id, name, key) {
        Some(i) => Some(rows[i].1),
        None => None,
    }
}

/// Two interval rows collide on the upsert key `(tenant, name, plugin_id)`.
pub open spec fn same_interval_key(a: (u64, IntervalV), b: (u64, IntervalV)) -> bool {
    &&& a.0 == b.0
    &&& a.1.name == b.1.name
    &&& a.1.plugin_id == b.1.plugin_id
}

/// Task-table invariant: ids are assigned in increasing store order and
/// below the next free id, and no two rows share a present unique key.
pub open spec fn tasks_wf(rows: Seq<(u64, TaskV)>, next_id: u64) -> bool {
    &&& (forall|i: int, j: int| 0 <= i < j < rows.len() ==> rows[i].1.id < rows[j].1.id)
    &&& (forall|i: int| 0 <= i < rows.len() ==> (#[trigger] rows[i]).1.id < next_id)
    &&& (forall|i: int, j: int| 0 <= i < j < rows.len() ==> !same_unique_key(rows[i], rows[j]))
}

/// Interval-table invariant: the upsert key is unique.
pub open spec fn intervals_wf(rows: Seq<(u64, IntervalV)>) -> bool {
    forall|i: int, j: int| 0 <= i < j < rows.len() ==> !same_interval_key(rows[i], rows[j])
}

/// Removing a row preserves the task-table invariant.
pub proof fn lemma_tasks_wf_remove(rows: Seq<(u64, TaskV)>, i: int, next_id: u64)
    requires
        tasks_wf(rows, next_id),
        0 <= i < rows.len(),
    ensures
        tasks_wf(rows.remove(i), next_id),
{
    let post = rows.remove(i);
    assert forall|a: int, b: int| 0 <= a < b < post.len() implies post[a].1.id < post[b].1.id
        && !same_unique_key(post[a], post[b]) by {
        let a0: int = if a < i {
            a
        } else {
            a + 1
        };
        let b0: int = if b < i {
            b
        } else {
            b + 1
        };
        assert(post[a] == rows[a0] && post[b] == rows[b0]);
    }
    assert forall|a: int| 0 <= a < post.len() implies (#[trigger] post[a]).1.id < next_id by {
        let a0: int = if a < i {
            a
        } else {
            a + 1
        };
        assert(post[a] == rows[a0]);
    }
}

impl TimerStore {
    pub open spec fn task_rows(&self) -> Seq<(u64, TaskV)> {
        tasks_view(self.tasks@)
    }

    pub open spec fn interval_rows(&self) -> Seq<(u64, IntervalV)> {
        intervals_view(self.intervals@)
    }

    pub open spec fn spec_next_id(&self) -> u64 {
        self.next_id
    }

    pub open spec fn wf(&self) -> bool {
        &&& tasks_wf(self.task_rows(), self.next_id)
        &&& intervals_wf(self.interval_rows())
    }

    pub fn new() -> (s: TimerStore)
        ensures
            s.wf(),
            s.task_rows() =~= Seq::<(u64, TaskV)>::empty(),
            s.interval_rows() =~= Seq::<(u64, IntervalV)>::empty(),
            s.spec_next_id() == 1,
    {
        let s = TimerStore { tasks: Vec::new(), intervals: Vec::new(), next_id: 1 };
        proof {
            assert(s.task_rows() =~= Seq::<(u64, TaskV)>::empty());
            assert(s.interval_rows() =~= Seq::<(u64, IntervalV)>::empty());
        }
        s
    }

    /// Position of the row with this tenant's unique key, if any.
    fn scan_key(
        &self,
        guild_id: u64,
        plugin_id: &Option<u64>,
        name: &String,
        key: &String,
    ) -> (r: Option<usize>)
        requires
            self.wf(),
        ensures
            match r {
                Some(i) => i < self.task_rows().len() && find_key_index(
                    self.task_rows(),
                    guild_id,
                    *plugin_id,
                    name@,
                    key@,
                ) == Some(i as int),
                None => find_key_index(self.task_rows(), guild_id, *plugin_id, name@, key@)
                    is None,
            },
    {
        let mut i: usize = 0;
        while i < self.tasks.len()
            invariant
                i <= self.tasks@.len(),
                self.wf(),
                forall|j: int|
                    0 <= j < i ==> !key_matches(
                        #[trigger] self.task_rows()[j],
                        guild_id,
                        *plugin_id,
                        name@,
                        key@,
                    ),
            decreases self.tasks@.len() - i,
        {
            let row = &self.tasks[i];
            let hit = row.0 == guild_id && opt_u64_eq(&row.1.plugin_id, plugin_id) && string_eq(
                &row.1.name,
                name,
            ) && (match &row.1.unique_key {
                Some(k) => string_eq(k, key),
                None => false,
            });
            if hit {
                proof {
                    assert(key_matches(self.task_rows()[i as int], guild_id, *plugin_id, name@, key@));
                    let k = choose|k: int|
                        0 <= k < self.task_rows().len() && key_matches(
                            #[trigger] self.task_rows()[k],
                            guild_id,
                            *plugin_id,
                            name@,
                            key@,
                        );
                    if k != i as int {
                        if k < i as int {
                            assert(same_unique_key(self.task_rows()[k], self.task_rows()[i as int]));
                        } else {
                            assert(same_unique_key(self.task_rows()[i as int], self.task_rows()[k]));
                        }
                        assert(false);
                    }
                }
                return Some(i);
            }
            i = i + 1;
        }
        None
    }

    /// Create a deferred task. When `unique_key` is present and a row with
    /// the same `(tenant, plugin_id, name, unique_key)` exists, the new task
    /// replaces it; otherwise it is inserted. Returns the stored row,
    /// including the freshly assigned id.
    pub fn create_task(
        &mut self,
        guild_id: u64,
        plugin_id: Option<u64>,
        name: String,
        unique_key: Option<String>,
        data: String,
        at: u64,
    ) -> (t: ScheduledTask)
        requires
            old(self).wf(),
            old(self).spec_next_id() < u64::MAX,
        ensures
            final(self).wf(),
            t@ == (TaskV {
                id: old(self).spec_next_id(),
                name: name@,
                plugin_id,
                unique_key: opt_string_view(unique_key),
                data: data@,
                execute_at: at,
            }),
            final(self).spec_next_id() == old(self).spec_next_id() + 1,
            final(self).interval_rows() =~= old(self).interval_rows(),
            unique_key is None ==> final(self).task_rows() =~= old(self).task_rows().push(
                (guild_id, t@),
            ),
            unique_key is Some ==> match find_key_index(
                old(self).task_rows(),
                guild_id,
                plugin_id,
                name@,
                unique_key.unwrap()@,
            ) {
                Some(i) => final(self).task_rows() =~= old(self).task_rows().remove(i).push(
                    (guild_id, t@),
                ),
                None => final(self).task_rows() =~= old(self).task_rows().push((guild_id, t@)),
            },
    {
        let id = self.next_id;
        self.next_id = self.next_id + 1;
        let removed: Option<usize> = match &unique_key {
            Some(k) => self.scan_key(guild_id, &plugin_id, &name, k),
            None => None,
        };
        if let Some(i) = removed {
            self.tasks.remove(i);
            proof {
                assert(self.task_rows() =~= old(self).task_rows().remove(i as int));
            }
        }
        let t = ScheduledTask { id, name, plugin_id, unique_key, data, execute_at: at };
        let stored = t.duplicate();
        self.tasks.push((guild_id, stored));
        proof {
            let pre = old(self).task_rows();
            let mid = if removed is Some {
                pre.remove(removed.unwrap() as int)
            } else {
                pre
            };
            assert(self.task_rows() =~= mid.push((guild_id, t@)));
            // Every surviving old row keeps its id order and key uniqueness;
            // the new row has the largest id and, after the removal, no
            // surviving row shares its unique key.
            assert forall|a: int, b: int|
                0 <= a < b < self.task_rows().len() implies self.task_rows()[a].1.id
                < self.task_rows()[b].1.id && !same_unique_key(
                self.task_rows()[a],
                self.task_rows()[b],
            ) by {
                if b < self.task_rows().len() - 1 {
                    // both are surviving old rows
                } else {
                    // b is the new row; relate the surviving row to its
                    // position in the old table.
                    let a_pre: int = if removed is Some && a >= removed.unwrap() as int {
                        a + 1
                    } else {
                        a
                    };
                    assert(self.task_rows()[a] == pre[a_pre]);
                    assert(pre[a_pre].1.id < old(self).spec_next_id());
                    if same_unique_key(self.task_rows()[a], self.task_rows()[b]) {
                        // The surviving row would be a second key match in
                        // the old table, against its uniqueness invariant.
                        assert(self.task_rows()[b].1.unique_key == opt_string_view(unique_key));
                        assert(unique_key is Some);
                        let kv = unique_key.unwrap()@;
                        assert(key_matches(pre[a_pre], guild_id, plugin_id, name@, kv));
                        assert(find_key_index(pre, guild_id, plugin_id, name@, kv) is Some);
                        if removed is Some {
                            let r = removed.unwrap() as int;
                            assert(find_key_index(pre, guild_id, plugin_id, name@, kv) == Some(
                                r,
                            ));
                            assert(key_matches(pre[r], guild_id, plugin_id, name@, kv));
                            assert(a_pre != r);
                            if a_pre < r {
                                assert(same_unique_key(pre[a_pre], pre[r]));
                            } else {
                                assert(same_unique_key(pre[r], pre[a_pre]));
                            }
                        }
                        assert(false);
                    }
                }
            }
        }
        t
    }

    /// Point lookup by the store-assigned id.
    pub fn get_task_by_id(&self, guild_id: u64, id: u64) -> (r: Option<ScheduledTask>)
        requires
            self.wf(),
        ensures
            match r {
                Some(t) => find_by_id(self.task_rows(), guild_id, id) == Some(t@),
                None => find_by_id(self.task_rows(), guild_id, id) is None,
            },
    {
        let mut i: usize = 0;
        while i < self.tasks.len()
            invariant
                i <= self.tasks@.len(),
                self.wf(),
                forall|j: int|
                    0 <= j < i ==> !((#[trigger] self.task_rows()[j]).0 == guild_id
                        && self.task_rows()[j].1.id == id),
            decreases self.tasks@.len() - i,
        {
            let row = &self.tasks[i];
            if row.0 == guild_id && row.1.id == id {
                proof {
                    assert(self.task_rows()[i as int].0 == guild_id
                        && self.task_rows()[i as int].1.id == id);
                    let k = choose|k: int|
                        0 <= k < self.task_rows().len() && (#[trigger] self.task_rows()[k]).0
                            == guild_id && self.task_rows()[k].1.id == id;
                    if k < i as int {
                        assert(self.task_rows()[k].1.id < self.task_rows()[i as int].1.id);
                        assert(false);
                    } else if k > i as int {
                        assert(self.task_rows()[i as int].1.id < self.task_rows()[k].1.id);
                        assert(false);
                    }
                }
                return Some(row.1.duplicate());
            }
            i = i + 1;
        }
        None
    }

    /// Point lookup by `(plugin_id, name, unique_key)`.
    pub fn get_task_by_key(
        &self,
        guild_id: u64,
        plugin_id: Option<u64>,
        name: String,
        key: String,
    ) -> (r: Option<ScheduledTask>)
        requires
            self.wf(),
        ensures
            match r {
                Some(t) => find_by_key(self.task_rows(), guild_id, plugin_id, name@, key@)
                    == Some(t@),
                None => find_by_key(self.task_rows(), guild_id, plugin_id, name@, key@) is None,
            },
    {
        let idx = self.scan_key(guild_id, &plugin_id, &name, &key);
        match idx {
            Some(i) => Some(self.tasks[i].1.duplicate()),
            None => None,
        }
    }
}

/// The index of the row a point lookup by id returns.
pub open spec fn find_id_index(rows: Seq<(u64, TaskV)>, guild_id: u64, id: u64) -> Option<int> {
    if exists|i: int|
        0 <= i < rows.len() && (#[trigger] rows[i]).0 == guild_id && rows[i].1.id == id {
        Some(
            choose|i: int|
                0 <= i < rows.len() && (#[trigger] rows[i]).0 == guild_id && rows[i].1.id == id,
        )
    } else {
        None
    }
}

/// Whether a row falls to a bulk delete on `guild_id`, optionally narrowed
/// to one plugin and one task name.
pub open spec fn bulk_delete_matches(
    row: (u64, TaskV),
    guild_id: u64,
    plugin_id: Option<u64>,
    name: Option<Seq<char>>,
) -> bool {
    &&& row.0 == guild_id
    &&& (plugin_id is Some ==> row.1.plugin_id == plugin_id)
    &&& (name is Some ==> row.1.name == name.unwrap())
}

/// The rows surviving a bulk delete, in store order.
pub open spec fn bulk_delete_kept(
    rows: Seq<(u64, TaskV)>,
    guild_id: u64,
    plugin_id: Option<u64>,
    name: Option<Seq<char>>,
) -> Seq<(u64, TaskV)>
    decreases rows.len(),
{
    if rows.len() == 0 {
        Seq::empty()
    } else {
        let rest = bulk_delete_kept(rows.drop_last(), guild_id, plugin_id, name);
        if bulk_delete_matches(rows.last(), guild_id, plugin_id, name) {
            rest
        } else {
            rest.push(rows.last())
        }
    }
}

/// Whether a row is included in a guild task listing.
pub open spec fn listing_matches(
    row: (u64, TaskV),
    guild_id: u64,
    scope: ScopeSelector,
    namespace: Option<Seq<char>>,
    id_after: u64,
) -> bool {
    &&& row.0 == guild_id
    &&& row.1.id > id_after
    &&& (match scope {
        ScopeSelector::All => true,
        ScopeSelector::Guild => row.1.plugin_id is None,
        ScopeSelector::Plugin(p) => row.1.plugin_id == Some(p),
    })
    &&& (namespace is Some ==> row.1.name == namespace.unwrap())
}

/// All rows a listing selects, in store (ascending id) order.
pub open spec fn listed_tasks(
    rows: Seq<(u64, TaskV)>,
    guild_id: u64,
    scope: ScopeSelector,
    namespace: Option<Seq<char>>,
    id_after: u64,
) -> Seq<TaskV>
    decreases rows.len(),
{
    if rows.len() == 0 {
        Seq::empty()
    } else {
        let rest = listed_tasks(rows.drop_last(), guild_id, scope, namespace, id_after);
        if listing_matches(rows.last(), guild_id, scope, namespace, id_after) {
            rest.push(rows.last().1)
        } else {
            rest
        }
    }
}

impl TimerStore {
    /// Delete a task by its globally unique id. Returns the number of rows
    /// removed (zero or one).
    pub fn del_task_by_id(&mut self, guild_id: u64, id: u64) -> (n: u64)
        requires
            old(self).wf(),
        ensures
            final(self).wf(),
            final(self).spec_next_id() == old(self).spec_next_id(),
            final(self).interval_rows() =~= old(self).interval_rows(),
            match find_id_index(old(self).task_rows(), guild_id, id) {
                Some(i) => n == 1 && final(self).task_rows() =~= old(self).task_rows().remove(i),
                None => n == 0 && final(self).task_rows() =~= old(self).task_rows(),
            },
    {
        let mut i: usize = 0;
        while i < self.tasks.len()
            invariant
                i <= self.tasks@.len(),
                self.wf(),
                self.tasks@ == old(self).tasks@,
                self.next_id == old(self).next_id,
                self.intervals == old(self).intervals,
                forall|j: int|
                    0 <= j < i ==> !((#[trigger] self.task_rows()[j]).0 == guild_id
                        && self.task_rows()[j].1.id == id),
            decreases self.tasks@.len() - i,
        {
            let row = &self.tasks[i];
            if row.0 == guild_id && row.1.id == id {
                proof {
                    assert(self.task_rows()[i as int].0 == guild_id
                        && self.task_rows()[i as int].1.id == id);
                    let k = choose|k: int|
                        0 <= k < self.task_rows().len() && (#[trigger] self.task_rows()[k]).0
                            == guild_id && self.task_rows()[k].1.id == id;
                    if k < i as int {
                        assert(self.task_rows()[k].1.id < self.task_rows()[i as int].1.id);
                    } else if k > i as int {
                        assert(self.task_rows()[i as int].1.id < self.task_rows()[k].1.id);
                    }
                    lemma_tasks_wf_remove(self.task_rows(), i as int, self.next_id);
                }
                self.tasks.remove(i);
                proof {
                    assert(self.task_rows() =~= old(self).task_rows().remove(i as int));
                }
                return 1;
            }
            i = i + 1;
        }
        0
    }

    /// Delete the task carrying a tenant's unique key, if any. Rows whose
    /// key is absent are never touched. Returns the number of rows removed.
    pub fn del_task_by_key(
        &mut self,
        guild_id: u64,
        plugin_id: Option<u64>,
        name: String,
        key: String,
    ) -> (n: u64)
        requires
            old(self).wf(),
        ensures
            final(self).wf(),
            final(self).spec_next_id() == old(self).spec_next_id(),
            final(self).interval_rows() =~= old(self).interval_rows(),
            match find_key_index(old(self).task_rows(), guild_id, plugin_id, name@, key@) {
                Some(i) => n == 1 && final(self).task_rows() =~= old(self).task_rows().remove(i),
                None => n == 0 && final(self).task_rows() =~= old(self).task_rows(),
            },
    {
        let idx = self.scan_key(guild_id, &plugin_id, &name, &key);
        match idx {
            Some(i) => {
                proof {
                    lemma_tasks_wf_remove(self.task_rows(), i as int, self.next_id);
                }
                self.tasks.remove(i);
                proof {
                    assert(self.task_rows() =~= old(self).task_rows().remove(i as int));
                }
                1
            },
            None => 0,
        }
    }

    /// Delete all of a tenant's tasks, optionally narrowed to one plugin and
    /// one task name. Returns the number of rows removed.
    pub fn del_all_tasks(
        &mut self,
        guild_id: u64,
        plugin_id: Option<u64>,
        name: Option<String>,
    ) -> (n: u64)
        requires
            old(self).wf(),
        ensures
            final(self).wf(),
            final(self).spec_next_id() == old(self).spec_next_id(),
            final(self).interval_rows() =~= old(self).interval_rows(),
            final(self).task_rows() =~= bulk_delete_kept(
                old(self).task_rows(),
                guild_id,
                plugin_id,
                opt_string_view(name),
            ),
            n == old(self).task_rows().len() - final(self).task_rows().len(),
    {
        let ghost nv = opt_string_view(name);
        let orig_len = self.tasks.len();
        let mut i: usize = 0;
        let ghost j: int = 0;
        while i < self.tasks.len()
            invariant
                nv == opt_string_view(name),
                self.wf(),
                self.next_id == old(self).next_id,
                self.intervals == old(self).intervals,
                i <= self.tasks@.len(),
                0 <= j <= old(self).task_rows().len(),
                i <= j,
                self.task_rows() =~= bulk_delete_kept(
                    old(self).task_rows().take(j),
                    guild_id,
                    plugin_id,
                    nv,
                ) + old(self).task_rows().skip(j),
                i == bulk_delete_kept(old(self).task_rows().take(j), guild_id, plugin_id, nv).len(),
                self.tasks@.len() - i == old(self).task_rows().len() - j,
            decreases self.tasks@.len() - i,
        {
            let ghost pre_rows = self.task_rows();
            let ghost kept = bulk_delete_kept(old(self).task_rows().take(j), guild_id, plugin_id, nv);
            proof {
                assert(old(self).task_rows().take(j + 1).drop_last() =~= old(
                    self,
                ).task_rows().take(j));
                assert(old(self).task_rows().take(j + 1).last() == old(self).task_rows()[j]);
                assert(pre_rows =~= kept + old(self).task_rows().skip(j));
                assert(old(self).task_rows().skip(j)[0] == old(self).task_rows()[j]);
                assert(pre_rows[i as int] == (kept + old(self).task_rows().skip(j))[i as int]);
                assert(pre_rows[i as int] == old(self).task_rows()[j]);
            }
            let row = &self.tasks[i];
            let c1 = row.0 == guild_id;
            let c2 = plugin_filter_matches(&plugin_id, &row.1.plugin_id);
            let c3 = name_filter_matches(&name, &row.1.name);
            let hit = c1 && c2 && c3;
            if hit {
                proof {
                    assert(pre_rows[i as int] == (self.tasks@[i as int].0, self.tasks@[i as int].1@));
                    assert(old(self).task_rows()[j].0 == guild_id);
                    assert(plugin_id is Some ==> old(self).task_rows()[j].1.plugin_id == plugin_id);
                    assert(c3);
                    assert(nv == opt_string_view(name));
                    assert(nv is Some ==> row.1.name@ == nv.unwrap());
                    assert(nv is Some ==> old(self).task_rows()[j].1.name == nv.unwrap());
                    assert(bulk_delete_matches(old(self).task_rows()[j], guild_id, plugin_id, nv));
                    lemma_tasks_wf_remove(self.task_rows(), i as int, self.next_id);
                }
                self.tasks.remove(i);
                proof {
                    assert(self.task_rows() =~= pre_rows.remove(i as int));
                    assert(pre_rows.remove(i as int) =~= kept + old(self).task_rows().skip(
                        j + 1,
                    ));
                    assert(bulk_delete_kept(
                        old(self).task_rows().take(j + 1),
                        guild_id,
                        plugin_id,
                        nv,
                    ) =~= kept);
                    assert(self.task_rows() =~= bulk_delete_kept(
                        old(self).task_rows().take(j + 1),
                        guild_id,
                        plugin_id,
                        nv,
                    ) + old(self).task_rows().skip(j + 1));
                }
            } else {
                proof {
                    assert(pre_rows[i as int] == (self.tasks@[i as int].0, self.tasks@[i as int].1@));
                    assert(!bulk_delete_matches(old(self).task_rows()[j], guild_id, plugin_id, nv));
                    assert(bulk_delete_kept(
                        old(self).task_rows().take(j + 1),
                        guild_id,
                        plugin_id,
                        nv,
                    ) =~= kept.push(old(self).task_rows()[j]));
                    assert(self.task_rows() =~= bulk_delete_kept(
                        old(self).task_rows().take(j + 1),
                        guild_id,
                        plugin_id,
                        nv,
                    ) + old(self).task_rows().skip(j + 1));
                }
                i = i + 1;
            }
            proof {
                j = j + 1;
            }
        }
        proof {
            assert(old(self).task_rows().take(j) =~= old(self).task_rows());
        }
        let remaining = self.tasks.len();
        (orig_len - remaining) as u64
    }

    /// Number of tasks stored for a tenant.
    pub fn get_task_count(&self, guild_id: u64) -> (n: u64)
        requires
            self.wf(),
        ensures
            n == count_guild_tasks(self.task_rows(), guild_id),
    {
        let mut n: u64 = 0;
        let mut i: usize = 0;
        while i < self.tasks.len()
            invariant
                i <= self.tasks@.len(),
                n == count_guild_tasks(self.task_rows().take(i as int), guild_id),
                n <= i,
            decreases self.tasks@.len() - i,
        {
            proof {
                assert(self.task_rows().take(i + 1).drop_last() =~= self.task_rows().take(
                    i as int,
                ));
                assert(self.task_rows().take(i + 1).last() == self.task_rows()[i as int]);
            }
            if self.tasks[i].0 == guild_id {
                n = n + 1;
            }
            i = i + 1;
        }
        proof {
            assert(self.task_rows().take(self.tasks@.len() as int) =~= self.task_rows());
        }
        n
    }

    /// List a tenant's tasks matching a filter, in ascending id order,
    /// starting after `id_after` and returning at most `limit` rows.
    pub fn get_guild_tasks(
        &self,
        guild_id: u64,
        filter: GetGuildTasksFilter,
        id_after: u64,
        limit: usize,
    ) -> (r: Vec<ScheduledTask>)
        requires
            self.wf(),
        ensures
            ({
                let all = listed_tasks(
                    self.task_rows(),
                    guild_id,
                    filter.scope,
                    opt_string_view(filter.namespace),
                    id_after,
                );
                task_views(r@) =~= if all.len() <= limit {
                    all
                } else {
                    all.take(limit as int)
                }
            }),
    {
        let ghost nsv = opt_string_view(filter.namespace);
        let mut r: Vec<ScheduledTask> = Vec::new();
        let mut i: usize = 0;
        while i < self.tasks.len()
            invariant
                nsv == opt_string_view(filter.namespace),
                self.wf(),
                i <= self.tasks@.len(),
                r@.len() <= limit,
                ({
                    let part = listed_tasks(
                        self.task_rows().take(i as int),
                        guild_id,
                        filter.scope,
                        nsv,
                        id_after,
                    );
                    task_views(r@) =~= if part.len() <= limit {
                        part
                    } else {
                        part.take(limit as int)
                    }
                }),
            decreases self.tasks@.len() - i,
        {
            let ghost part = listed_tasks(
                self.task_rows().take(i as int),
                guild_id,
                filter.scope,
                nsv,
                id_after,
            );
            proof {
                assert(self.task_rows().take(i + 1).drop_last() =~= self.task_rows().take(
                    i as int,
                ));
                assert(self.task_rows().take(i + 1).last() == self.task_rows()[i as int]);
            }
            let row = &self.tasks[i];
            let scope_ok = match filter.scope {
                ScopeSelector::All => true,
                ScopeSelector::Guild => row.1.plugin_id.is_none(),
                ScopeSelector::Plugin(p) => (match &row.1.plugin_id {
                    Some(q) => p == *q,
                    None => false,
                }),
            };
            let ns_ok = name_filter_matches(&filter.namespace, &row.1.name);
            let hit = row.0 == guild_id && row.1.id > id_after && scope_ok && ns_ok;
            if hit && r.len() < limit {
                r.push(row.1.duplicate());
                proof {
                    assert(task_views(r@) =~= task_views(r@.drop_last()).push(
                        self.task_rows()[i as int].1,
                    ));
                }
            }
            proof {
                let part2 = listed_tasks(
                    self.task_rows().take(i + 1),
                    guild_id,
                    filter.scope,
                    nsv,
                    id_after,
                );
                assert(self.task_rows()[i as int] == (
                    self.tasks@[i as int].0,
                    self.tasks@[i as int].1@,
                ));
                if hit {
                    assert(listing_matches(
                        self.task_rows()[i as int],
                        guild_id,
                        filter.scope,
                        nsv,
                        id_after,
                    ));
                    assert(part2 =~= part.push(self.task_rows()[i as int].1));
                    if part.len() >= limit {
                        // The listing is already full; the new row falls
                        // beyond the cut.
                        assert(part2.take(limit as int) =~= part.take(limit as int));
                        if part.len() == limit {
                            assert(part.take(limit as int) =~= part);
                        }
                    }
                } else {
                    assert(!listing_matches(
                        self.task_rows()[i as int],
                        guild_id,
                        filter.scope,
                        nsv,
                        id_after,
                    ));
                    assert(part2 =~= part);
                }
            }
            i = i + 1;
        }
        proof {
            assert(self.task_rows().take(self.tasks@.len() as int) =~= self.task_rows());
        }
        r
    }
}

/// Mathematical values of a task list.
pub open spec fn task_views(s: Seq<ScheduledTask>) -> Seq<TaskV> {
    s.map(|i: int, t: ScheduledTask| t@)
}

/// How many rows a tenant owns.
pub open spec fn count_guild_tasks(rows: Seq<(u64, TaskV)>, guild_id: u64) -> int
    decreases rows.len(),
{
    if rows.len() == 0 {
        0
    } else {
        count_guild_tasks(rows.drop_last(), guild_id) + if rows.last().0 == guild_id {
            1int
        } else {
            0int
        }
    }
}

/// Bucket keys as mathematical values.
pub open spec fn bucket_views(bs: Seq<TaskBucket>) -> Seq<(Seq<char>, Option<u64>)> {
    bs.map(|i: int, b: TaskBucket| (b.name@, b.plugin_id))
}

/// Whether a task's `(name, plugin_id)` falls in an excluded bucket.
pub open spec fn in_buckets(
    name: Seq<char>,
    plugin_id: Option<u64>,
    buckets: Seq<(Seq<char>, Option<u64>)>,
) -> bool {
    exists|i: int|
        0 <= i < buckets.len() && (#[trigger] buckets[i]).0 == name && buckets[i].1 == plugin_id
}

/// Whether a row may be fetched: owned by the tenant, not in flight, and not
/// in an excluded bucket.
pub open spec fn task_eligible(
    row: (u64, TaskV),
    guild_id: u64,
    ignore_ids: Seq<u64>,
    buckets: Seq<(Seq<char>, Option<u64>)>,
) -> bool {
    &&& row.0 == guild_id
    &&& !ignore_ids.contains(row.1.id)
    &&& !in_buckets(row.1.name, row.1.plugin_id, buckets)
}

/// All eligible rows due at or before `now`, in store order.
pub open spec fn due_rows(
    rows: Seq<(u64, TaskV)>,
    guild_id: u64,
    now: u64,
    ignore_ids: Seq<u64>,
    buckets: Seq<(Seq<char>, Option<u64>)>,
) -> Seq<TaskV>
    decreases rows.len(),
{
    if rows.len() == 0 {
        Seq::empty()
    } else {
        let rest = due_rows(rows.drop_last(), guild_id, now, ignore_ids, buckets);
        if task_eligible(rows.last(), guild_id, ignore_ids, buckets) && rows.last().1.execute_at
            <= now {
            rest.push(rows.last().1)
        } else {
            rest
        }
    }
}

/// Delivery order of due tasks: ascending `execute_at`, ties broken by
/// ascending id.
pub open spec fn due_le(a: TaskV, b: TaskV) -> bool {
    a.execute_at < b.execute_at || (a.execute_at == b.execute_at && a.id <= b.id)
}

pub open spec fn sorted_by_due(s: Seq<TaskV>) -> bool {
    forall|i: int, j: int| 0 <= i < j < s.len() ==> due_le(s[i], s[j])
}

fn contains_u64(v: &Vec<u64>, x: u64) -> (r: bool)
    ensures
        r == v@.contains(x),
{
    let mut i: usize = 0;
    while i < v.len()
        invariant
            i <= v@.len(),
            forall|j: int| 0 <= j < i ==> v@[j] != x,
        decreases v@.len() - i,
    {
        if v[i] == x {
            return true;
        }
        i = i + 1;
    }
    false
}

fn in_buckets_exec(buckets: &Vec<TaskBucket>, name: &String, plugin_id: &Option<u64>) -> (r: bool)
    ensures
        r == in_buckets(name@, *plugin_id, bucket_views(buckets@)),
{
    let mut i: usize = 0;
    while i < buckets.len()
        invariant
            i <= buckets@.len(),
            forall|j: int|
                0 <= j < i ==> !((#[trigger] bucket_views(buckets@)[j]).0 == name@
                    && bucket_views(buckets@)[j].1 == *plugin_id),
        decreases buckets@.len() - i,
    {
        let b = &buckets[i];
        if string_eq(&b.name, name) && opt_u64_eq(&b.plugin_id, plugin_id) {
            proof {
                assert(bucket_views(buckets@)[i as int].0 == name@
                    && bucket_views(buckets@)[i as int].1 == *plugin_id);
            }
            return true;
        }
        proof {
            assert(bucket_views(buckets@)[i as int] == (buckets@[i as int].name@, buckets@[
                i as int
            ].plugin_id));
        }
        i = i + 1;
    }
    false
}

fn due_le_exec(a: &ScheduledTask, b: &ScheduledTask) -> (r: bool)
    ensures
        r == due_le(a@, b@),
{
    a.execute_at < b.execute_at || (a.execute_at == b.execute_at && a.id <= b.id)
}

/// Order a batch of due tasks for delivery.
fn sort_tasks(v: Vec<ScheduledTask>) -> (out: Vec<ScheduledTask>)
    ensures
        sorted_by_due(task_views(out@)),
        task_views(out@).to_multiset() =~= task_views(v@).to_multiset(),
{
    broadcast use vstd::seq_lib::group_to_multiset_ensures;
    broadcast use vstd::multiset::group_multiset_axioms;

    let mut work = v;
    let mut out: Vec<ScheduledTask> = Vec::new();
    while work.len() > 0
        invariant
            sorted_by_due(task_views(out@)),
            task_views(out@).to_multiset().add(task_views(work@).to_multiset())
                =~= task_views(v@).to_multiset(),
        decreases work@.len(),
    {
        let ghost work_pre = task_views(work@);
        let ghost out_pre = task_views(out@);
        let x = work.remove(0);
        proof {
            assert(task_views(work@) =~= work_pre.remove(0));
            assert(work_pre[0] == x@);
        }
        let mut pos: usize = 0;
        let mut stop = false;
        while pos < out.len() && !stop
            invariant
                pos <= out@.len(),
                forall|k: int| 0 <= k < pos ==> due_le(task_views(out@)[k], x@),
                stop ==> pos < out@.len() && !due_le(task_views(out@)[pos as int], x@),
            decreases out@.len() - pos, (if stop { 0int } else { 1int }),
        {
            if due_le_exec(&out[pos], &x) {
                pos = pos + 1;
            } else {
                stop = true;
            }
        }
        proof {
            work_pre.to_multiset_ensures();
            out_pre.to_multiset_ensures();
            assert(pos == out_pre.len() || !due_le(out_pre[pos as int], x@));
            assert(work_pre.contains(work_pre[0]));
            assert(work_pre.to_multiset().count(x@) > 0);
        }
        out.insert(pos, x);
        proof {
            assert(task_views(out@) =~= out_pre.insert(pos as int, x@));
            vstd::seq_lib::to_multiset_insert(out_pre, pos as int, x@);
            assert forall|a: int, b: int| 0 <= a < b < task_views(out@).len() implies due_le(
                task_views(out@)[a],
                task_views(out@)[b],
            ) by {
                let s = task_views(out@);
                let p = pos as int;
                if a < p && b == p {
                    assert(s[a] == out_pre[a]);
                } else if a == p {
                    assert(s[b] == out_pre[b - 1]);
                    assert(p <= b - 1 < out_pre.len());
                    assert(!due_le(out_pre[p], x@));
                    assert(due_le(x@, out_pre[p]));
                    if b - 1 > p {
                        assert(due_le(out_pre[p], out_pre[b - 1]));
                    }
                    assert(due_le(x@, out_pre[b - 1]));
                } else if a < p && b > p {
                    assert(s[a] == out_pre[a] && s[b] == out_pre[b - 1]);
                } else if a > p {
                    assert(s[a] == out_pre[a - 1] && s[b] == out_pre[b - 1]);
                } else {
                    assert(s[a] == out_pre[a] && s[b] == out_pre[b]);
                }
            }
            assert(task_views(out@).to_multiset() =~= out_pre.to_multiset().insert(x@));
            assert(task_views(work@).to_multiset() =~= work_pre.to_multiset().remove(x@));
            assert forall|e: TaskV|
                task_views(out@).to_multiset().add(task_views(work@).to_multiset()).count(e)
                    == task_views(v@).to_multiset().count(e) by {
                assert(out_pre.to_multiset().add(work_pre.to_multiset()).count(e) == task_views(
                    v@,
                ).to_multiset().count(e));
            }
            assert(task_views(out@).to_multiset().add(task_views(work@).to_multiset())
                =~= task_views(v@).to_multiset());
        }
    }
    proof {
        assert(task_views(work@).to_multiset() =~= Seq::<TaskV>::empty().to_multiset());
    }
    out
}

/// The index of an interval timer under its upsert key.
pub open spec fn find_interval_index(
    rows: Seq<(u64, IntervalV)>,
    guild_id: u64,
    plugin_id: Option<u64>,
    name: Seq<char>,
) -> Option<int> {
    if exists|i: int|
        0 <= i < rows.len() && (#[trigger] rows[i]).0 == guild_id && rows[i].1.name == name
            && rows[i].1.plugin_id == plugin_id {
        Some(
            choose|i: int|
                0 <= i < rows.len() && (#[trigger] rows[i]).0 == guild_id && rows[i].1.name
                    == name && rows[i].1.plugin_id == plugin_id,
        )
    } else {
        None
    }
}

/// A tenant's interval timers, in store order.
pub open spec fn guild_intervals(rows: Seq<(u64, IntervalV)>, guild_id: u64) -> Seq<IntervalV>
    decreases rows.len(),
{
    if rows.len() == 0 {
        Seq::empty()
    } else {
        let rest = guild_intervals(rows.drop_last(), guild_id);
        if rows.last().0 == guild_id {
            rest.push(rows.last().1)
        } else {
            rest
        }
    }
}

/// A minute-based interval is due once a full period has passed since its
/// persisted `last_run`.
pub open spec fn minutes_due(last_run: u64, minutes: u64, now: u64) -> bool {
    now >= last_run + minutes * 60_000
}

impl IntervalTimer {
    /// Whether this timer is due at `now`. A cron schedule's next fire time
    /// is computed outside and passed in; a minute schedule is computed here.
    pub fn is_due(&self, now: u64, cron_next_run: Option<u64>) -> (r: bool)
        ensures
            r == (match self@.minutes {
                Some(n) => minutes_due(self@.last_run, n, now),
                None => cron_next_run is Some && now >= cron_next_run.unwrap(),
            }),
    {
        match &self.interval {
            IntervalType::Minutes(n) => {
                if now < self.last_run {
                    false
                } else {
                    (now - self.last_run) as u128 >= (*n as u128) * 60_000u128
                }
            },
            IntervalType::Cron(_) => match cron_next_run {
                Some(t) => now >= t,
                None => false,
            },
        }
    }
}

/// Firing an interval at `fire_ms` and persisting `last_run == fire_ms`
/// before dispatch makes the interval fire at most once per period: it is
/// not due again at any instant within a full period of the fire time. This
/// holds across worker restarts because `last_run` is persisted first.
pub proof fn lemma_interval_fires_at_most_once_per_period(minutes: u64, fire_ms: u64, t: u64)
    requires
        t < fire_ms + minutes * 60_000,
    ensures
        !minutes_due(fire_ms, minutes, t),
{
}

impl TimerStore {
    /// Earliest `execute_at` among a tenant's eligible tasks, excluding
    /// in-flight ids and excluded buckets.
    pub fn get_next_task_time(
        &self,
        guild_id: u64,
        ignore_ids: &Vec<u64>,
        buckets: &Vec<TaskBucket>,
    ) -> (r: Option<u64>)
        requires
            self.wf(),
        ensures
            match r {
                Some(t) => {
                    &&& exists|i: int|
                        0 <= i < self.task_rows().len() && task_eligible(
                            #[trigger] self.task_rows()[i],
                            guild_id,
                            ignore_ids@,
                            bucket_views(buckets@),
                        ) && self.task_rows()[i].1.execute_at == t
                    &&& forall|i: int|
                        0 <= i < self.task_rows().len() && task_eligible(
                            #[trigger] self.task_rows()[i],
                            guild_id,
                            ignore_ids@,
                            bucket_views(buckets@),
                        ) ==> t <= self.task_rows()[i].1.execute_at
                },
                None => forall|i: int|
                    0 <= i < self.task_rows().len() ==> !task_eligible(
                        #[trigger] self.task_rows()[i],
                        guild_id,
                        ignore_ids@,
                        bucket_views(buckets@),
                    ),
            },
    {
        let mut best: Option<u64> = None;
        let mut i: usize = 0;
        while i < self.tasks.len()
            invariant
                self.wf(),
                i <= self.tasks@.len(),
                match best {
                    Some(t) => {
                        &&& exists|k: int|
                            0 <= k < i && task_eligible(
                                #[trigger] self.task_rows()[k],
                                guild_id,
                                ignore_ids@,
                                bucket_views(buckets@),
                            ) && self.task_rows()[k].1.execute_at == t
                        &&& forall|k: int|
                            0 <= k < i && task_eligible(
                                #[trigger] self.task_rows()[k],
                                guild_id,
                                ignore_ids@,
                                bucket_views(buckets@),
                            ) ==> t <= self.task_rows()[k].1.execute_at
                    },
                    None => forall|k: int|
                        0 <= k < i ==> !task_eligible(
                            #[trigger] self.task_rows()[k],
                            guild_id,
                            ignore_ids@,
                            bucket_views(buckets@),
                        ),
                },
            decreases self.tasks@.len() - i,
        {
            let row = &self.tasks[i];
            proof {
                assert(self.task_rows()[i as int] == (
                    self.tasks@[i as int].0,
                    self.tasks@[i as int].1@,
                ));
            }
            let eligible = row.0 == guild_id && !contains_u64(ignore_ids, row.1.id)
                && !in_buckets_exec(buckets, &row.1.name, &row.1.plugin_id);
            if eligible {
                proof {
                    assert(task_eligible(
                        self.task_rows()[i as int],
                        guild_id,
                        ignore_ids@,
                        bucket_views(buckets@),
                    ));
                }
                let better = match best {
                    Some(t) => row.1.execute_at < t,
                    None => true,
                };
                if better {
                    best = Some(row.1.execute_at);
                }
            } else {
                proof {
                    assert(!task_eligible(
                        self.task_rows()[i as int],
                        guild_id,
                        ignore_ids@,
                        bucket_views(buckets@),
                    ));
                }
            }
            i = i + 1;
        }
        best
    }

    /// All of a tenant's eligible tasks due at or before `now`, ordered by
    /// ascending `(execute_at, id)`.
    pub fn get_triggered_tasks(
        &self,
        guild_id: u64,
        now: u64,
        ignore_ids: &Vec<u64>,
        buckets: &Vec<TaskBucket>,
    ) -> (r: Vec<ScheduledTask>)
        requires
            self.wf(),
        ensures
            sorted_by_due(task_views(r@)),
            task_views(r@).to_multiset() =~= due_rows(
                self.task_rows(),
                guild_id,
                now,
                ignore_ids@,
                bucket_views(buckets@),
            ).to_multiset(),
    {
        let mut found: Vec<ScheduledTask> = Vec::new();
        let mut i: usize = 0;
        while i < self.tasks.len()
            invariant
                self.wf(),
                i <= self.tasks@.len(),
                task_views(found@) =~= due_rows(
                    self.task_rows().take(i as int),
                    guild_id,
                    now,
                    ignore_ids@,
                    bucket_views(buckets@),
                ),
            decreases self.tasks@.len() - i,
        {
            proof {
                assert(self.task_rows().take(i + 1).drop_last() =~= self.task_rows().take(
                    i as int,
                ));
                assert(self.task_rows().take(i + 1).last() == self.task_rows()[i as int]);
                assert(self.task_rows()[i as int] == (
                    self.tasks@[i as int].0,
                    self.tasks@[i as int].1@,
                ));
            }
            let row = &self.tasks[i];
            let eligible = row.0 == guild_id && !contains_u64(ignore_ids, row.1.id)
                && !in_buckets_exec(buckets, &row.1.name, &row.1.plugin_id);
            if eligible && row.1.execute_at <= now {
                proof {
                    assert(task_eligible(
                        self.task_rows()[i as int],
                        guild_id,
                        ignore_ids@,
                        bucket_views(buckets@),
                    ));
                }
                found.push(row.1.duplicate());
                proof {
                    assert(task_views(found@) =~= task_views(found@.drop_last()).push(
                        self.task_rows()[i as int].1,
                    ));
                }
            } else {
                proof {
                    assert(!(task_eligible(
                        self.task_rows()[i as int],
                        guild_id,
                        ignore_ids@,
                        bucket_views(buckets@),
                    ) && self.task_rows()[i as int].1.execute_at <= now));
                }
            }
            i = i + 1;
        }
        proof {
            assert(self.task_rows().take(self.tasks@.len() as int) =~= self.task_rows());
        }
        sort_tasks(found)
    }

    /// Position of a tenant's interval timer under its upsert key.
    fn scan_interval(&self, guild_id: u64, plugin_id: &Option<u64>, name: &String) -> (r: Option<
        usize,
    >)
        requires
            self.wf(),
        ensures
            match r {
                Some(i) => i < self.interval_rows().len() && find_interval_index(
                    self.interval_rows(),
                    guild_id,
                    *plugin_id,
                    name@,
                ) == Some(i as int),
                None => find_interval_index(self.interval_rows(), guild_id, *plugin_id, name@)
                    is None,
            },
    {
        let mut i: usize = 0;
        while i < self.intervals.len()
            invariant
                i <= self.intervals@.len(),
                self.wf(),
                forall|j: int|
                    0 <= j < i ==> !((#[trigger] self.interval_rows()[j]).0 == guild_id
                        && self.interval_rows()[j].1.name == name@
                        && self.interval_rows()[j].1.plugin_id == *plugin_id),
            decreases self.intervals@.len() - i,
        {
            let row = &self.intervals[i];
            proof {
                assert(self.interval_rows()[i as int] == (
                    self.intervals@[i as int].0,
                    self.intervals@[i as int].1@,
                ));
            }
            if row.0 == guild_id && string_eq(&row.1.name, name) && opt_u64_eq(
                &row.1.plugin_id,
                plugin_id,
            ) {
                proof {
                    assert((#[trigger] self.interval_rows()[i as int]).0 == guild_id
                        && self.interval_rows()[i as int].1.name == name@
                        && self.interval_rows()[i as int].1.plugin_id == *plugin_id);
                    let fi = find_interval_index(
                        self.interval_rows(),
                        guild_id,
                        *plugin_id,
                        name@,
                    );
                    assert(fi is Some);
                    let k = fi.unwrap();
                    assert(0 <= k < self.interval_rows().len() && (
                    #[trigger] self.interval_rows()[k]).0 == guild_id
                        && self.interval_rows()[k].1.name == name@
                        && self.interval_rows()[k].1.plugin_id == *plugin_id);
                    if k < i as int {
                        assert(same_interval_key(
                            self.interval_rows()[k],
                            self.interval_rows()[i as int],
                        ));
                        assert(false);
                    } else if k > i as int {
                        assert(same_interval_key(
                            self.interval_rows()[i as int],
                            self.interval_rows()[k],
                        ));
                        assert(false);
                    }
                }
                return Some(i);
            }
            i = i + 1;
        }
        None
    }

    /// Upsert an interval timer: atomic replacement by `(name, plugin_id)`.
    /// Returns the stored timer.
    pub fn update_interval_timer(&mut self, guild_id: u64, timer: IntervalTimer) -> (r:
        IntervalTimer)
        requires
            old(self).wf(),
        ensures
            final(self).wf(),
            r@ == timer@,
            final(self).spec_next_id() == old(self).spec_next_id(),
            final(self).task_rows() =~= old(self).task_rows(),
            match find_interval_index(
                old(self).interval_rows(),
                guild_id,
                timer.plugin_id,
                timer.name@,
            ) {
                Some(i) => final(self).interval_rows() =~= old(self).interval_rows().update(
                    i,
                    (guild_id, timer@),
                ),
                None => final(self).interval_rows() =~= old(self).interval_rows().push(
                    (guild_id, timer@),
                ),
            },
    {
        let r = timer.duplicate();
        let idx = self.scan_interval(guild_id, &timer.plugin_id, &timer.name);
        match idx {
            Some(i) => {
                let ghost pre = self.interval_rows();
                let slot = &mut self.intervals[i];
                *slot = (guild_id, timer);
                proof {
                    assert(self.interval_rows() =~= pre.update(i as int, (guild_id, timer@)));
                    let post = self.interval_rows();
                    assert forall|a: int, b: int| 0 <= a < b < post.len() implies
                        !same_interval_key(post[a], post[b]) by {
                        if a != i as int && b != i as int {
                            assert(post[a] == pre[a] && post[b] == pre[b]);
                        } else if a == i as int {
                            assert(post[b] == pre[b]);
                            if same_interval_key(post[a], post[b]) {
                                assert(same_interval_key(pre[a], pre[b]));
                            }
                        } else {
                            assert(post[a] == pre[a]);
                            if same_interval_key(post[a], post[b]) {
                                assert(same_interval_key(pre[a], pre[b]));
                            }
                        }
                    }
                }
            },
            None => {
                let ghost pre = self.interval_rows();
                self.intervals.push((guild_id, timer));
                proof {
                    assert(self.interval_rows() =~= pre.push((guild_id, timer@)));
                    let post = self.interval_rows();
                    assert forall|a: int, b: int| 0 <= a < b < post.len() implies
                        !same_interval_key(post[a], post[b]) by {
                        if b < post.len() - 1 {
                            assert(post[a] == pre[a] && post[b] == pre[b]);
                        } else {
                            assert(post[a] == pre[a]);
                        }
                    }
                }
            },
        }
        r
    }

    /// A tenant's full interval-timer snapshot.
    pub fn get_all_guild_interval_timers(&self, guild_id: u64) -> (r: Vec<IntervalTimer>)
        requires
            self.wf(),
        ensures
            interval_views(r@) =~= guild_intervals(self.interval_rows(), guild_id),
    {
        let mut r: Vec<IntervalTimer> = Vec::new();
        let mut i: usize = 0;
        while i < self.intervals.len()
            invariant
                self.wf(),
                i <= self.intervals@.len(),
                interval_views(r@) =~= guild_intervals(
                    self.interval_rows().take(i as int),
                    guild_id,
                ),
            decreases self.intervals@.len() - i,
        {
            proof {
                assert(self.interval_rows().take(i + 1).drop_last() =~= self.interval_rows().take(
                    i as int,
                ));
                assert(self.interval_rows().take(i + 1).last() == self.interval_rows()[i as int]);
                assert(self.interval_rows()[i as int] == (
                    self.intervals@[i as int].0,
                    self.intervals@[i as int].1@,
                ));
            }
            let row = &self.intervals[i];
            if row.0 == guild_id {
                r.push(row.1.duplicate());
                proof {
                    assert(interval_views(r@) =~= interval_views(r@.drop_last()).push(
                        self.interval_rows()[i as int].1,
                    ));
                }
            }
            i = i + 1;
        }
        proof {
            assert(self.interval_rows().take(self.intervals@.len() as int)
                =~= self.interval_rows());
        }
        r
    }

    /// Delete one interval timer by its upsert key; reports whether a row
    /// was removed.
    pub fn del_interval_timer(
        &mut self,
        guild_id: u64,
        plugin_id: Option<u64>,
        timer_name: String,
    ) -> (removed: bool)
        requires
            old(self).wf(),
        ensures
            final(self).wf(),
            final(self).spec_next_id() == old(self).spec_next_id(),
            final(self).task_rows() =~= old(self).task_rows(),
            match find_interval_index(
                old(self).interval_rows(),
                guild_id,
                plugin_id,
                timer_name@,
            ) {
                Some(i) => removed && final(self).interval_rows() =~= old(
                    self,
                ).interval_rows().remove(i),
                None => !removed && final(self).interval_rows() =~= old(self).interval_rows(),
            },
    {
        let idx = self.scan_interval(guild_id, &plugin_id, &timer_name);
        match idx {
            Some(i) => {
                let ghost pre = self.interval_rows();
                self.intervals.remove(i);
                proof {
                    assert(self.interval_rows() =~= pre.remove(i as int));
                    let post = self.interval_rows();
                    assert forall|a: int, b: int| 0 <= a < b < post.len() implies
                        !same_interval_key(post[a], post[b]) by {
                        let a0: int = if a < i as int {
                            a
                        } else {
                            a + 1
                        };
                        let b0: int = if b < i as int {
                            b
                        } else {
                            b + 1
                        };
                        assert(post[a] == pre[a0] && post[b] == pre[b0]);
                    }
                }
                true
            },
            None => false,
        }
    }

    /// Drop every row a tenant owns, in both tables.
    pub fn delete_guild_timer_data(&mut self, guild_id: u64)
        requires
            old(self).wf(),
        ensures
            final(self).wf(),
            final(self).spec_next_id() == old(self).spec_next_id(),
            final(self).task_rows() =~= bulk_delete_kept(
                old(self).task_rows(),
                guild_id,
                None,
                None,
            ),
            guild_intervals(final(self).interval_rows(), guild_id) =~= Seq::<IntervalV>::empty(),
    {
        self.del_all_tasks(guild_id, None, None);
        let ghost tasks_after = self.tasks@;
        let mut i: usize = 0;
        while i < self.intervals.len()
            invariant
                self.wf(),
                self.next_id == old(self).next_id,
                tasks_after == self.tasks@,
                tasks_view(tasks_after) =~= bulk_delete_kept(
                    old(self).task_rows(),
                    guild_id,
                    None,
                    None,
                ),
                i <= self.intervals@.len(),
                forall|j: int|
                    0 <= j < i ==> (#[trigger] self.interval_rows()[j]).0 != guild_id,
            decreases self.intervals@.len() - i,
        {
            proof {
                assert(self.interval_rows()[i as int] == (
                    self.intervals@[i as int].0,
                    self.intervals@[i as int].1@,
                ));
            }
            if self.intervals[i].0 == guild_id {
                let ghost pre = self.interval_rows();
                self.intervals.remove(i);
                proof {
                    assert(self.interval_rows() =~= pre.remove(i as int));
                    let post = self.interval_rows();
                    assert forall|a: int, b: int| 0 <= a < b < post.len() implies
                        !same_interval_key(post[a], post[b]) by {
                        let a0: int = if a < i as int {
                            a
                        } else {
                            a + 1
                        };
                        let b0: int = if b < i as int {
                            b
                        } else {
                            b + 1
                        };
                        assert(post[a] == pre[a0] && post[b] == pre[b0]);
                    }
                    assert forall|j: int| 0 <= j < i implies (#[trigger] self.interval_rows()[j]).0
                        != guild_id by {
                        assert(self.interval_rows()[j] == pre[j]);
                    }
                }
            } else {
                i = i + 1;
            }
        }
        proof {
            lemma_no_guild_rows_no_guild_intervals(self.interval_rows(), guild_id);
        }
    }
}

/// Mathematical values of an interval list.
pub open spec fn interval_views(s: Seq<IntervalTimer>) -> Seq<IntervalV> {
    s.map(|i: int, t: IntervalTimer| t@)
}

/// A table with no rows for a tenant lists no intervals for it.
proof fn lemma_no_guild_rows_no_guild_intervals(rows: Seq<(u64, IntervalV)>, guild_id: u64)
    requires
        forall|j: int| 0 <= j < rows.len() ==> (#[trigger] rows[j]).0 != guild_id,
    ensures
        guild_intervals(rows, guild_id) =~= Seq::<IntervalV>::empty(),
    decreases rows.len(),
{
    if rows.len() > 0 {
        lemma_no_guild_rows_no_guild_intervals(rows.drop_last(), guild_id);
    }
}

/// In a well-formed store, at most one row carries any given
/// `(tenant, plugin_id, name, unique_key)`: creating a task with the key of
/// an existing one leaves exactly one row, the later one.
pub proof fn lemma_unique_key_at_most_one_row(
    s: &TimerStore,
    guild_id: u64,
    plugin_id: Option<u64>,
    name: Seq<char>,
    key: Seq<char>,
)
    requires
        s.wf(),
    ensures
        forall|i: int, j: int|
            0 <= i < j < s.task_rows().len() ==> !(key_matches(
                #[trigger] s.task_rows()[i],
                guild_id,
                plugin_id,
                name,
                key,
            ) && key_matches(#[trigger] s.task_rows()[j], guild_id, plugin_id, name, key)),
{
    assert forall|i: int, j: int|
        0 <= i < j < s.task_rows().len() implies !(key_matches(
        #[trigger] s.task_rows()[i],
        guild_id,
        plugin_id,
        name,
        key,
    ) && key_matches(#[trigger] s.task_rows()[j], guild_id, plugin_id, name, key)) by {
        if key_matches(s.task_rows()[i], guild_id, plugin_id, name, key) && key_matches(
            s.task_rows()[j],
            guild_id,
            plugin_id,
            name,
            key,
        ) {
            assert(same_unique_key(s.task_rows()[i], s.task_rows()[j]));
        }
    }
}

/// A row just created is found again by its id, structurally equal to what
/// the insert returned: the new row carries the store's largest id, so the
/// lookup cannot hit anything else.
pub proof fn lemma_create_then_get(s: &TimerStore, guild_id: u64, t: TaskV)
    requires
        s.wf(),
        s.task_rows().len() > 0,
        s.task_rows().last() == (guild_id, t),
    ensures
        find_by_id(s.task_rows(), guild_id, t.id) == Some(t),
{
    let rows = s.task_rows();
    let n = rows.len() as int;
    assert(rows[n - 1].0 == guild_id && rows[n - 1].1.id == t.id);
    let k = choose|k: int|
        0 <= k < rows.len() && (#[trigger] rows[k]).0 == guild_id && rows[k].1.id == t.id;
    if k != n - 1 {
        assert(rows[k].1.id < rows[n - 1].1.id);
        assert(false);
    }
}

} // verus!
