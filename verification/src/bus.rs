//! The daemon on the session bus: being the only one, and what callers see.

use crate::dispatch::PlaylistRow;
use crate::queue::QueueStatus;
use vstd::prelude::*;

verus! {

/// State of a background task, with what went wrong where it failed.
#[derive(Debug)]
pub enum TaskState {
    Running,
    Completed,
    Failed(String),
    Cancelled,
}

/// A background task.
#[derive(Debug)]
pub struct TaskRecord {
    pub id: u64,
    pub kind: String,
    pub name: String,
    pub started_at_ms: i64,
    pub state: TaskState,
}

/// A task as callers see it: number, kind, name, start, state.
pub type TaskRow = (u64, String, String, i64, String);

/// The state in words; a failure says what went wrong.
pub open spec fn state_text(s: TaskState) -> Seq<char> {
    match s {
        TaskState::Running => "running"@,
        TaskState::Completed => "completed"@,
        TaskState::Failed(m) => "failed: "@ + m@,
        TaskState::Cancelled => "cancelled"@,
    }
}

pub open spec fn is_task_row(r: TaskRow, t: TaskRecord) -> bool {
    &&& r.0 == t.id
    &&& r.1 == t.kind
    &&& r.2 == t.name
    &&& r.3 == t.started_at_ms
    &&& r.4@ == state_text(t.state)
}

fn task_row(t: &TaskRecord) -> (r: TaskRow)
    ensures
        is_task_row(r, *t),
{
    let state: String = match &t.state {
        TaskState::Running => "running".to_owned(),
        TaskState::Completed => "completed".to_owned(),
        TaskState::Failed(m) => {
            let mut s = "failed: ".to_owned();
            s.append(m.as_str());
            s
        },
        TaskState::Cancelled => "cancelled".to_owned(),
    };
    (t.id, t.kind.clone(), t.name.clone(), t.started_at_ms, state)
}

/// What the daemon shows on the bus.
#[derive(Debug)]
pub struct Daemon1 {
    pub display_socket_path: String,
    pub tasks: Vec<TaskRecord>,
    /// Tasks that are asked to end.
    pub cancelled: Vec<u64>,
    /// The daemon is asked to end.
    pub quitting: bool,
}

/// How a task ended: a task that was asked to end is cancelled, whatever came of
/// it.
pub open spec fn outcome(asked: bool, fault: Option<String>) -> TaskState {
    if asked {
        TaskState::Cancelled
    } else {
        match fault {
            Some(m) => TaskState::Failed(m),
            None => TaskState::Completed,
        }
    }
}

/// The task once those with the number `id` that ran have come to `end`.
pub open spec fn after_end(t: TaskRecord, id: u64, end: TaskState) -> TaskRecord {
    if t.id == id && t.state is Running {
        TaskRecord { state: end, ..t }
    } else {
        t
    }
}

/// The task runs.
pub open spec fn runs(tasks: Seq<TaskRecord>, id: u64) -> bool {
    exists|i: int| 0 <= i < tasks.len() && (#[trigger] tasks[i]).id == id && tasks[i].state is Running
}

impl Daemon1 {
    /// Asks the daemon to end.
    pub fn quit(&mut self)
        ensures
            *final(self) == (Daemon1 { quitting: true, ..*old(self) }),
    {
        self.quitting = true;
    }

    /// Asks a task to end; `true` when it runs. A task that is unknown or over
    /// is left alone.
    pub fn cancel_task(&mut self, id: u64) -> (r: bool)
        ensures
            r == runs(old(self).tasks@, id),
            final(self).cancelled@ == if r {
                old(self).cancelled@.push(id)
            } else {
                old(self).cancelled@
            },
            *final(self) == (Daemon1 { cancelled: final(self).cancelled, ..*old(self) }),
    {
        let mut i: usize = 0;
        while i < self.tasks.len()
            invariant
                i <= self.tasks@.len(),
                *self == *old(self),
                forall|j: int|
                    0 <= j < i ==> !((#[trigger] self.tasks@[j]).id == id && self.tasks@[j].state is Running),
            decreases self.tasks.len() - i,
        {
            let running: bool = match &self.tasks[i].state {
                TaskState::Running => true,
                _ => false,
            };
            if running && self.tasks[i].id == id {
                assert(runs(self.tasks@, id));
                self.cancelled.push(id);
                return true;
            }
            i = i + 1;
        }
        false
    }

    /// Whether a task is asked to end.
    pub fn is_cancelled(&self, id: u64) -> (r: bool)
        ensures
            r == self.cancelled@.contains(id),
    {
        let mut i: usize = 0;
        while i < self.cancelled.len()
            invariant
                i <= self.cancelled@.len(),
                forall|j: int| 0 <= j < i ==> #[trigger] self.cancelled@[j] != id,
            decreases self.cancelled.len() - i,
        {
            if self.cancelled[i] == id {
                assert(self.cancelled@[i as int] == id);
                return true;
            }
            i = i + 1;
        }
        false
    }

    /// A task came to its end, with what went wrong where something did. A task
    /// that is over already is left alone.
    pub fn task_ended(&mut self, id: u64, fault: Option<String>)
        ensures
            final(self).tasks@.len() == old(self).tasks@.len(),
            forall|i: int|
                0 <= i < final(self).tasks@.len() ==> #[trigger] final(self).tasks@[i] == after_end(
                    old(self).tasks@[i],
                    id,
                    outcome(old(self).cancelled@.contains(id), fault),
                ),
            *final(self) == (Daemon1 { tasks: final(self).tasks, ..*old(self) }),
    {
        let asked: bool = self.is_cancelled(id);
        let ghost before = self.tasks@;
        let ghost end = outcome(asked, fault);
        let mut i: usize = 0;
        while i < self.tasks.len()
            invariant
                i <= self.tasks@.len(),
                self.tasks@.len() == before.len(),
                before == old(self).tasks@,
                end == outcome(asked, fault),
                forall|j: int| 0 <= j < i ==> #[trigger] self.tasks@[j] == after_end(before[j], id, end),
                forall|j: int| i <= j < before.len() ==> #[trigger] self.tasks@[j] == before[j],
                *self == (Daemon1 { tasks: self.tasks, ..*old(self) }),
            decreases self.tasks.len() - i,
        {
            let running: bool = match &self.tasks[i].state {
                TaskState::Running => true,
                _ => false,
            };
            if running && self.tasks[i].id == id {
                let state = if asked {
                    TaskState::Cancelled
                } else {
                    match &fault {
                        Some(m) => TaskState::Failed(m.clone()),
                        None => TaskState::Completed,
                    }
                };
                self.tasks[i].state = state;
            }
            i = i + 1;
        }
    }

    /// All tasks.
    pub fn list_tasks(&self) -> (out: Vec<TaskRow>)
        ensures
            out@.len() == self.tasks@.len(),
            forall|i: int|
                0 <= i < out@.len() ==> is_task_row(#[trigger] out@[i], self.tasks@[i]),
    {
        let mut out: Vec<TaskRow> = Vec::new();
        let mut i: usize = 0;
        while i < self.tasks.len()
            invariant
                i <= self.tasks@.len(),
                out@.len() == i,
                forall|k: int| 0 <= k < i ==> is_task_row(#[trigger] out@[k], self.tasks@[k]),
            decreases self.tasks.len() - i,
        {
            out.push(task_row(&self.tasks[i]));
            i = i + 1;
        }
        out
    }
}

/// A running task that is asked to end shows as cancelled once it has ended,
/// whatever came of it.
pub proof fn cancelled_task_shows_so(cancelled: Seq<u64>, t: TaskRecord, fault: Option<String>)
    requires
        t.state is Running,
    ensures
        state_text(
            after_end(t, t.id, outcome(cancelled.push(t.id).contains(t.id), fault)).state,
        ) == "cancelled"@,
{
    assert(cancelled.push(t.id).last() == t.id);
}

// ---------------------------------------------------------------------------
// Playlists
// ---------------------------------------------------------------------------

/// A playlist as callers see it: number, name, kind, mode, interval, size.
pub type PlaylistTuple = (i64, String, String, String, u32, u32);

pub open spec fn is_playlist_tuple(t: PlaylistTuple, r: PlaylistRow) -> bool {
    &&& t.0 == r.id
    &&& t.1 == r.name
    &&& t.2 == r.source_kind
    &&& t.3 == r.mode
    &&& t.4 == if r.interval_secs < 0 {
        0int
    } else {
        r.interval_secs as int
    }
    &&& t.5 == r.item_count
}

/// All playlists; an interval below zero counts as none.
pub fn playlist_tuples(rows: &Vec<PlaylistRow>) -> (out: Vec<PlaylistTuple>)
    ensures
        out@.len() == rows@.len(),
        forall|i: int| 0 <= i < out@.len() ==> is_playlist_tuple(#[trigger] out@[i], rows@[i]),
{
    let mut out: Vec<PlaylistTuple> = Vec::new();
    let mut i: usize = 0;
    while i < rows.len()
        invariant
            i <= rows@.len(),
            out@.len() == i,
            forall|k: int| 0 <= k < i ==> is_playlist_tuple(#[trigger] out@[k], rows@[k]),
        decreases rows.len() - i,
    {
        let r = &rows[i];
        let interval: u32 = if r.interval_secs < 0 {
            0
        } else {
            r.interval_secs as u32
        };
        out.push(
            (
                r.id,
                r.name.clone(),
                r.source_kind.clone(),
                r.mode.clone(),
                interval,
                r.item_count,
            ),
        );
        i = i + 1;
    }
    out
}

/// The queue as callers see it: playlist, mode, interval, wallpaper, place,
/// size, and whether a filter picks.
pub type StatusTuple = (i64, String, u32, String, u32, u32, bool);

/// The queue; zero and an empty text stand for what is not there.
pub fn status_tuple(s: QueueStatus) -> (t: StatusTuple)
    ensures
        t.0 == (match s.active_id {
            Some(id) => id,
            None => 0,
        }),
        t.1 == s.mode,
        t.2 == s.interval_secs,
        t.3@ == (match s.current {
            Some(c) => c@,
            None => Seq::empty(),
        }),
        t.4 == (match s.position {
            Some(p) => p,
            None => 0,
        }),
        t.5 == s.count,
        t.6 == s.is_smart,
{
    (
        match s.active_id {
            Some(id) => id,
            None => 0,
        },
        s.mode,
        s.interval_secs,
        current_or_empty(s.current),
        match s.position {
            Some(p) => p,
            None => 0,
        },
        s.count,
        s.is_smart,
    )
}

/// The wallpaper shown now; an empty text where there is none.
pub fn current_or_empty(current: Option<String>) -> (s: String)
    ensures
        s@ == (match current {
            Some(c) => c@,
            None => Seq::empty(),
        }),
{
    match current {
        Some(c) => c,
        None => String::new(),
    }
}

// ---------------------------------------------------------------------------
// One daemon at a time
// ---------------------------------------------------------------------------

/// What came of asking for the daemon's name on the bus.
#[derive(Debug)]
pub enum NameReply {
    /// There is no session bus.
    NoBus(String),
    Owned,
    Taken,
    Failed(String),
}

/// How the program goes on.
#[derive(Debug)]
pub enum Startup {
    Serve,
    /// Another daemon runs: this program becomes the user interface.
    Exec(String),
    Exit { code: i32, message: String },
}

/// Goes on as the daemon only where it is the only one; where another one runs
/// the user interface is shown, if there is one.
pub fn after_name_request(reply: NameReply, ui: Option<String>) -> (r: Startup)
    ensures
        match reply {
            NameReply::Owned => r is Serve,
            NameReply::Taken => match ui {
                Some(p) => r == Startup::Exec(p),
                None => r matches Startup::Exit { code, message } && code == 0 && message@
                    == "waywallen: already running, no UI to launch"@,
            },
            NameReply::NoBus(e) => r matches Startup::Exit { code, message } && code == 1 && message@
                == "waywallen: dbus session bus unavailable: "@ + e@,
            NameReply::Failed(e) => r matches Startup::Exit { code, message } && code == 1
                && message@ == "waywallen: dbus RequestName failed: "@ + e@,
        },
{
    match reply {
        NameReply::Owned => Startup::Serve,
        NameReply::Taken => match ui {
            Some(p) => Startup::Exec(p),
            None => Startup::Exit {
                code: 0,
                message: "waywallen: already running, no UI to launch".to_owned(),
            },
        },
        NameReply::NoBus(e) => {
            let mut message = "waywallen: dbus session bus unavailable: ".to_owned();
            message.append(e.as_str());
            Startup::Exit { code: 1, message }
        },
        NameReply::Failed(e) => {
            let mut message = "waywallen: dbus RequestName failed: ".to_owned();
            message.append(e.as_str());
            Startup::Exit { code: 1, message }
        },
    }
}

/// The program serves only as the owner of the name: whatever else came of
/// asking for it, it does not.
pub proof fn only_the_owner_serves(reply: NameReply, ui: Option<String>, r: Startup)
    requires
        call_ensures(after_name_request, (reply, ui), r),
    ensures
        r is Serve <==> reply is Owned,
{
}

/// A task that was asked to end is cancelled, whatever came of it; any other is
/// done, or failed with what went wrong. Tasks that ended before stay as they
/// are, and so do all others.
pub proof fn tasks_end_as_they_end(d: &mut Daemon1, id: u64, fault: Option<String>, i: int)
    requires
        call_ensures(Daemon1::task_ended, (d, id, fault), ()),
        0 <= i < old(d).tasks@.len(),
    ensures
        ({
            let a = old(d).tasks@[i];
            let b = final(d).tasks@[i];
            let asked = old(d).cancelled@.contains(id);
            &&& final(d).tasks@.len() == old(d).tasks@.len()
            &&& (b.id, b.kind, b.name, b.started_at_ms) == (a.id, a.kind, a.name, a.started_at_ms)
            &&& a.id != id || !(a.state is Running) ==> b.state == a.state
            &&& a.id == id && a.state is Running ==> {
                &&& asked ==> b.state is Cancelled
                &&& !asked && fault is None ==> b.state is Completed
                &&& !asked && fault is Some ==> b.state == TaskState::Failed(fault->0)
            }
        }),
{
}

/// Only a task that runs can be cancelled, and then it is known to be.
pub proof fn running_tasks_can_be_cancelled(
    d: &mut Daemon1,
    id: u64,
    r: bool,
    after: Daemon1,
    other: u64,
    was: bool,
    now: bool,
)
    requires
        call_ensures(Daemon1::cancel_task, (d, id), r),
        after == *final(d),
        call_ensures(Daemon1::is_cancelled, (&*old(d), other), was),
        call_ensures(Daemon1::is_cancelled, (&after, other), now),
    ensures
        r <==> exists|i: int|
            0 <= i < old(d).tasks@.len() && (#[trigger] old(d).tasks@[i]).id == id && old(
                d).tasks@[i].state is Running,
        now <==> was || (r && other == id),
        after.tasks == old(d).tasks,
{
    let a = old(d).cancelled@;
    if r {
        assert(after.cancelled@ == a.push(id));
        assert(after.cancelled@.last() == id);
        if was {
            assert(after.cancelled@[a.index_of(other)] == other);
        }
        if now && other != id {
            let k = after.cancelled@.index_of(other);
            assert(a[k] == other);
        }
    }
}

/// Tasks and playlists are listed as they are; a pace below zero is none.
pub proof fn rows_are_told_as_they_are(
    d: Daemon1,
    out: Vec<TaskRow>,
    rows: &Vec<PlaylistRow>,
    tuples: Vec<PlaylistTuple>,
    i: int,
)
    requires
        call_ensures(Daemon1::list_tasks, (&d,), out),
        call_ensures(playlist_tuples, (rows,), tuples),
    ensures
        out@.len() == d.tasks@.len(),
        tuples@.len() == rows@.len(),
        0 <= i < out@.len() ==> {
            let t = d.tasks@[i];
            &&& out@[i].0 == t.id
            &&& out@[i].1 == t.kind
            &&& out@[i].2 == t.name
            &&& out@[i].3 == t.started_at_ms
            &&& t.state is Running ==> out@[i].4@ == "running"@
            &&& t.state is Completed ==> out@[i].4@ == "completed"@
            &&& t.state is Cancelled ==> out@[i].4@ == "cancelled"@
            &&& t.state matches TaskState::Failed(m) ==> out@[i].4@ == "failed: "@ + m@
        },
        0 <= i < tuples@.len() ==> {
            let r = rows@[i];
            let t = tuples@[i];
            &&& t.0 == r.id
            &&& t.1 == r.name
            &&& t.2 == r.source_kind
            &&& t.3 == r.mode
            &&& r.interval_secs >= 0 ==> t.4 == r.interval_secs
            &&& r.interval_secs < 0 ==> t.4 == 0
            &&& t.5 == r.item_count
        },
{
    if 0 <= i < out@.len() {
        assert(is_task_row(out@[i], d.tasks@[i]));
    }
    if 0 <= i < tuples@.len() {
        assert(is_playlist_tuple(tuples@[i], rows@[i]));
    }
}

/// The state of the queue is told as it is, with nothing for what there is not.
pub proof fn queue_is_told_as_it_is(s: QueueStatus, t: StatusTuple)
    requires
        call_ensures(status_tuple, (s,), t),
    ensures
        s.active_id matches Some(id) ==> t.0 == id,
        s.active_id is None ==> t.0 == 0,
        t.1 == s.mode,
        t.2 == s.interval_secs,
        s.current matches Some(c) ==> t.3@ == c@,
        s.current is None ==> t.3@.len() == 0,
        s.position matches Some(p) ==> t.4 == p,
        s.position is None ==> t.4 == 0,
        t.5 == s.count,
        t.6 == s.is_smart,
{
}

/// One daemon serves. A second one opens the interface of the first, or goes;
/// only a fault of the bus is a failure.
pub proof fn one_daemon_serves(reply: NameReply, ui: Option<String>, r: Startup)
    requires
        call_ensures(after_name_request, (reply, ui), r),
    ensures
        r is Serve <==> reply is Owned,
        r is Exec <==> reply is Taken && ui is Some,
        r matches Startup::Exec(p) ==> ui == Some(p),
        r matches Startup::Exit { code, .. } ==> (code == 0 <==> reply is Taken),
        r matches Startup::Exit { code, .. } ==> (code == 1 <==> reply is NoBus || reply is Failed),
{
}

} // verus!
