//! The session manager: a registry of live terminal sessions and the four
//! operations on it.
//!
//! The manager is an ordinary value. Whoever shares it between threads puts it
//! behind a lock of their own; every operation here runs to its end on the
//! manager it was handed.

use vstd::prelude::*;
use portable_pty::CommandBuilder;
use portable_pty::PtySize;
use crate::launch::shell_argv;
use crate::launch::shell_launch;
use crate::launch::Platform;
use crate::launch::ShellLaunch;
use crate::model::ids_after;
use crate::model::no_op;
use crate::model::Request;
use crate::pty::command_arg;
use crate::pty::command_argv;
use crate::pty::command_new;
use crate::pty::into_master;
use crate::pty::kill_child;
use crate::pty::open_pty;
use crate::pty::resize_master;
use crate::pty::spawn_command;
use crate::pty::take_writer;
use crate::pty::try_clone_reader;
use crate::pty::write_all;
use crate::pty::ChildHandle;
use crate::pty::MasterHandle;
use crate::pty::WriterHandle;
use crate::reader::PtyReader;

verus! {

/// One live interactive shell: the master end of its terminal, the stream
/// into the terminal and the process that runs in it.
pub struct Session {
    master: MasterHandle,
    writer: WriterHandle,
    child: ChildHandle,
}

/// A session under the id that its creator chose.
struct Entry {
    id: String,
    session: Session,
}

/// The registry of live sessions.
pub struct PtyManager {
    platform: Platform,
    entries: Vec<Entry>,
}

/// The ids of `entries`, in order.
spec fn entry_ids(entries: Seq<Entry>) -> Seq<Seq<char>> {
    entries.map_values(|e: Entry| e.id@)
}

/// The map from id to session that `entries` stands for.
spec fn registry_of(entries: Seq<Entry>) -> Map<Seq<char>, Session> {
    Map::new(
        |id: Seq<char>| entry_ids(entries).contains(id),
        |id: Seq<char>| entries[entry_ids(entries).index_of(id)].session,
    )
}

/// Where no id occurs twice, each entry is what the map holds under its id,
/// and the map holds nothing else.
proof fn lemma_registry(entries: Seq<Entry>)
    requires
        entry_ids(entries).no_duplicates(),
    ensures
        entry_ids(entries).len() == entries.len(),
        forall|i: int|
            0 <= i < entries.len() ==> #[trigger] entry_ids(entries)[i] == entries[i].id@,
        forall|i: int|
            0 <= i < entries.len() ==> registry_of(entries).dom().contains(
                #[trigger] entries[i].id@,
            ) && registry_of(entries)[entries[i].id@] == entries[i].session,
        forall|id: Seq<char>| #[trigger]
            registry_of(entries).dom().contains(id) <==> entry_ids(entries).contains(id),
        forall|id: Seq<char>| #[trigger]
            registry_of(entries).dom().contains(id) ==> exists|i: int|
                0 <= i < entries.len() && #[trigger] entries[i].id@ == id,
{
    let ids = entry_ids(entries);
    assert forall|i: int| 0 <= i < entries.len() implies registry_of(entries).dom().contains(
        #[trigger] entries[i].id@,
    ) && registry_of(entries)[entries[i].id@] == entries[i].session by {
        let id = entries[i].id@;
        assert(ids[i] == id);
        assert(ids.contains(id));
        let j = ids.index_of(id);
        assert(0 <= j < ids.len() && ids[j] == id);
    }
    assert forall|id: Seq<char>| #[trigger]
        registry_of(entries).dom().contains(id) implies exists|i: int|
        0 <= i < entries.len() && #[trigger] entries[i].id@ == id by {
        let j = choose|j: int| 0 <= j < ids.len() && ids[j] == id;
        assert(entries[j].id@ == id);
    }
}

/// Adding an entry under a new id adds its session to the map.
proof fn lemma_registry_push(entries: Seq<Entry>, entry: Entry)
    requires
        entry_ids(entries).no_duplicates(),
        !entry_ids(entries).contains(entry.id@),
    ensures
        entry_ids(entries.push(entry)) == entry_ids(entries).push(entry.id@),
        entry_ids(entries.push(entry)).no_duplicates(),
        registry_of(entries.push(entry)) == registry_of(entries).insert(entry.id@, entry.session),
{
    let after = entries.push(entry);
    assert(entry_ids(after) == entry_ids(entries).push(entry.id@));
    assert(entry_ids(after).no_duplicates());
    lemma_registry(entries);
    lemma_registry(after);
    let target = registry_of(entries).insert(entry.id@, entry.session);
    assert forall|id: Seq<char>| registry_of(after).dom().contains(id) <==> target.dom().contains(
        id,
    ) by {
        if entry_ids(after).contains(id) {
            let j = choose|j: int| 0 <= j < entry_ids(after).len() && entry_ids(after)[j] == id;
            if j < entries.len() {
                assert(entry_ids(entries)[j] == id);
            }
        }
        if entry_ids(entries).contains(id) {
            let j = choose|j: int| 0 <= j < entry_ids(entries).len() && entry_ids(entries)[j] == id;
            assert(entry_ids(after)[j] == id);
        }
        if id == entry.id@ {
            assert(entry_ids(after)[entries.len() as int] == id);
        }
    }
    assert forall|id: Seq<char>| registry_of(after).dom().contains(id) implies registry_of(
        after,
    )[id] == target[id] by {
        let j = choose|j: int| 0 <= j < after.len() && after[j].id@ == id;
        assert(registry_of(after)[after[j].id@] == after[j].session);
        if j < entries.len() {
            assert(entries[j].id@ == id);
            assert(registry_of(entries)[entries[j].id@] == entries[j].session);
            assert(entry_ids(entries)[j] == id);
        }
    }
    assert(registry_of(after) =~= target);
}

/// Taking the entry at `at` away takes its id out of the map.
proof fn lemma_registry_remove(entries: Seq<Entry>, at: int)
    requires
        entry_ids(entries).no_duplicates(),
        0 <= at < entries.len(),
    ensures
        entry_ids(entries.remove(at)) == entry_ids(entries).remove(at),
        entry_ids(entries.remove(at)).no_duplicates(),
        registry_of(entries.remove(at)) == registry_of(entries).remove(entries[at].id@),
{
    let after = entries.remove(at);
    let ids = entry_ids(entries);
    assert(entry_ids(after) == ids.remove(at));
    assert(entry_ids(after).no_duplicates()) by {
        assert forall|i: int, j: int|
            0 <= i < after.len() && 0 <= j < after.len() && i != j implies entry_ids(after)[i]
            != entry_ids(after)[j] by {
            let oi = if i < at { i } else { i + 1 };
            let oj = if j < at { j } else { j + 1 };
            assert(entry_ids(after)[i] == ids[oi]);
            assert(entry_ids(after)[j] == ids[oj]);
        }
    }
    lemma_registry(entries);
    lemma_registry(after);
    let gone = entries[at].id@;
    let target = registry_of(entries).remove(gone);
    assert forall|id: Seq<char>| registry_of(after).dom().contains(id) <==> target.dom().contains(
        id,
    ) by {
        if registry_of(after).dom().contains(id) {
            let j = choose|j: int| 0 <= j < after.len() && after[j].id@ == id;
            let oj = if j < at { j } else { j + 1 };
            assert(entries[oj].id@ == id);
            assert(ids[oj] == id && ids[at] == gone);
        }
        if target.dom().contains(id) {
            let j = choose|j: int| 0 <= j < entries.len() && entries[j].id@ == id;
            assert(j != at);
            let nj = if j < at { j } else { j - 1 };
            assert(after[nj].id@ == id);
        }
    }
    assert forall|id: Seq<char>| registry_of(after).dom().contains(id) implies registry_of(
        after,
    )[id] == target[id] by {
        let j = choose|j: int| 0 <= j < after.len() && after[j].id@ == id;
        let oj = if j < at { j } else { j + 1 };
        assert(registry_of(after)[after[j].id@] == after[j].session);
        assert(entries[oj].id@ == id);
        assert(registry_of(entries)[entries[oj].id@] == entries[oj].session);
        assert(ids[oj] == id && ids[at] == gone);
    }
    assert(registry_of(after) =~= target);
}

/// Changing the session of the entry at `at` changes the map under its id and
/// nowhere else.
proof fn lemma_registry_update(entries: Seq<Entry>, after: Seq<Entry>, at: int)
    requires
        entry_ids(entries).no_duplicates(),
        0 <= at < entries.len(),
        after.len() == entries.len(),
        after[at].id@ == entries[at].id@,
        forall|j: int| 0 <= j < entries.len() && j != at ==> after[j] == entries[j],
    ensures
        entry_ids(after) == entry_ids(entries),
        registry_of(after) == registry_of(entries).insert(entries[at].id@, after[at].session),
{
    assert(entry_ids(after) =~= entry_ids(entries));
    lemma_registry(entries);
    lemma_registry(after);
    let target = registry_of(entries).insert(entries[at].id@, after[at].session);
    assert forall|id: Seq<char>| registry_of(after).dom().contains(id) implies registry_of(
        after,
    )[id] == target[id] by {
        let j = choose|j: int| 0 <= j < after.len() && after[j].id@ == id;
        assert(registry_of(after)[after[j].id@] == after[j].session);
        if j != at {
            assert(entries[j].id@ == id);
            assert(registry_of(entries)[entries[j].id@] == entries[j].session);
            assert(entry_ids(entries)[j] == id && entry_ids(entries)[at] == entries[at].id@);
        }
    }
    assert(registry_of(after) =~= target);
}

/// `message` is the text that the error `e` shows for itself.
pub open spec fn describes<E: core::fmt::Display>(e: E, message: String) -> bool {
    vstd::string::to_string_from_display_ensures::<E>(&e, message)
}

/// `message` is the text of some error of the terminal crate.
pub open spec fn describes_refusal(message: String) -> bool {
    exists|e: anyhow::Error| #[trigger] describes(e, message)
}

/// `message` is the text of some error of a read, a write or a signal.
pub open spec fn describes_io_failure(message: String) -> bool {
    exists|e: std::io::Error| #[trigger] describes(e, message)
}

/// What the caller is told of an operation of the terminal crate: its result,
/// or in place of the error the text that the error shows for itself.
pub fn described<T>(outcome: Result<T, anyhow::Error>) -> (r: Result<T, String>)
    ensures
        match outcome {
            Ok(value) => r == Ok::<T, String>(value),
            Err(e) => r matches Err(message) && describes(e, message),
        },
{
    match outcome {
        Ok(value) => Ok(value),
        Err(e) => Err(e.to_string()),
    }
}

/// What the caller is told of a read, a write or a signal: its result, or in
/// place of the error the text that the error shows for itself.
pub fn described_io<T>(outcome: Result<T, std::io::Error>) -> (r: Result<T, String>)
    ensures
        match outcome {
            Ok(value) => r == Ok::<T, String>(value),
            Err(e) => r matches Err(message) && describes(e, message),
        },
{
    match outcome {
        Ok(value) => Ok(value),
        Err(e) => Err(e.to_string()),
    }
}

/// The size of a terminal of `cols` by `rows` character cells. The size in
/// pixels is not used and is zero.
pub fn terminal_size(cols: u16, rows: u16) -> (size: PtySize)
    ensures
        size.cols == cols,
        size.rows == rows,
        size.pixel_width == 0,
        size.pixel_height == 0,
{
    PtySize { rows, cols, pixel_width: 0, pixel_height: 0 }
}

/// The command that `launch` describes, ready to be started in a terminal.
pub fn build_command(launch: &ShellLaunch) -> (cmd: CommandBuilder)
    ensures
        command_argv(cmd) == launch.argv(),
{
    let mut cmd = command_new(launch.program.as_str());
    let mut i: usize = 0;
    while i < launch.args.len()
        invariant
            i <= launch.args.len(),
            command_argv(cmd) == seq![launch.program@] + launch.args@.take(i as int).map_values(
                |a: String| a@,
            ),
        decreases launch.args.len() - i,
    {
        command_arg(&mut cmd, launch.args[i].as_str());
        assert(launch.args@.take(i as int + 1).map_values(|a: String| a@) == launch.args@.take(
            i as int,
        ).map_values(|a: String| a@).push(launch.args@[i as int]@));
        i = i + 1;
    }
    assert(launch.args@.take(launch.args.len() as int) == launch.args@);
    cmd
}

/// The shell command for `platform` and the directory hint `cwd`.
pub fn shell_command(platform: Platform, cwd: &str) -> (cmd: CommandBuilder)
    ensures
        command_argv(cmd) == shell_argv(platform, cwd@),
{
    let launch = shell_launch(platform, cwd);
    build_command(&launch)
}

impl PtyManager {
    /// The platform whose shell the sessions run.
    pub closed spec fn platform(&self) -> Platform {
        self.platform
    }

    /// The ids of the live sessions, oldest first.
    pub closed spec fn ids(&self) -> Seq<Seq<char>> {
        entry_ids(self.entries@)
    }

    /// No id is registered twice.
    pub closed spec fn wf(&self) -> bool {
        self.ids().no_duplicates()
    }

    /// The registry as a map from id to session.
    pub closed spec fn view(&self) -> Map<Seq<char>, Session> {
        registry_of(self.entries@)
    }

    /// An empty registry for `platform`.
    pub fn new(platform: Platform) -> (manager: PtyManager)
        ensures
            manager.wf(),
            manager.platform() == platform,
            manager@ == Map::<Seq<char>, Session>::empty(),
    {
        let manager = PtyManager { platform, entries: Vec::new() };
        assert(manager.ids() == Seq::<Seq<char>>::empty());
        assert(manager@ == Map::<Seq<char>, Session>::empty());
        manager
    }

    /// The registered ids are the domain of the view, and they are finitely
    /// many.
    pub proof fn lemma_view_dom(&self)
        ensures
            self@.dom() == self.ids().to_set(),
            self@.dom().finite(),
    {
        assert(self@.dom() == self.ids().to_set());
        vstd::seq_lib::seq_to_set_is_finite(self.ids());
    }

    /// Where the session `id` stands, if it is registered.
    fn find(&self, id: &String) -> (r: Option<usize>)
        requires
            self.wf(),
        ensures
            match r {
                Some(i) => i < self.entries@.len() && self.entries@[i as int].id@ == id@
                    && self@.dom().contains(id@),
                None => !self@.dom().contains(id@) && !self.ids().contains(id@),
            },
    {
        proof {
            lemma_registry(self.entries@);
        }
        let mut i: usize = 0;
        while i < self.entries.len()
            invariant
                i <= self.entries.len(),
                forall|j: int| 0 <= j < i ==> self.entries@[j].id@ != id@,
                forall|j: int|
                    0 <= j < self.entries@.len() ==> self@.dom().contains(
                        #[trigger] self.entries@[j].id@,
                    ),
            decreases self.entries.len() - i,
        {
            if self.entries[i].id == *id {
                return Some(i);
            }
            i = i + 1;
        }
        None
    }

    /// Registers `session` under `id`, which is not registered yet.
    fn register(&mut self, id: String, session: Session)
        requires
            old(self).wf(),
            !old(self)@.dom().contains(id@),
        ensures
            final(self).wf(),
            final(self).platform() == old(self).platform(),
            final(self)@ == old(self)@.insert(id@, session),
    {
        let entry = Entry { id, session };
        proof {
            lemma_registry(self.entries@);
            lemma_registry_push(self.entries@, entry);
        }
        self.entries.push(entry);
    }

    /// Takes the entry at `at` out of the registry.
    fn unregister(&mut self, at: usize) -> (entry: Entry)
        requires
            old(self).wf(),
            at < old(self).entries@.len(),
        ensures
            final(self).wf(),
            final(self).platform() == old(self).platform(),
            entry == old(self).entries@[at as int],
            final(self)@ == old(self)@.remove(entry.id@),
    {
        proof {
            lemma_registry_remove(self.entries@, at as int);
        }
        self.entries.remove(at)
    }

    /// Whether a session is registered under `id`.
    pub fn contains(&self, id: &String) -> (r: bool)
        requires
            self.wf(),
        ensures
            r == self@.dom().contains(id@),
    {
        self.find(id).is_some()
    }

    /// How many sessions are live.
    pub fn len(&self) -> (n: usize)
        requires
            self.wf(),
        ensures
            n == self@.dom().len(),
    {
        proof {
            self.lemma_view_dom();
            self.ids().unique_seq_to_set();
        }
        self.entries.len()
    }
}

/// `after` is `before` with one more session, registered under `id`; every
/// session of `before` is in `after` as it was.
pub open spec fn opened(
    before: Map<Seq<char>, Session>,
    after: Map<Seq<char>, Session>,
    id: Seq<char>,
) -> bool {
    &&& !before.dom().contains(id)
    &&& after.dom().contains(id)
    &&& after == before.insert(id, after[id])
}

/// `after` has the sessions of `before` under the same ids, and none but the
/// one under `id` differs.
pub open spec fn same_but(
    before: Map<Seq<char>, Session>,
    after: Map<Seq<char>, Session>,
    id: Seq<char>,
) -> bool {
    &&& before.dom().contains(id)
    &&& after.dom().contains(id)
    &&& after == before.insert(id, after[id])
}

/// Starts a shell in a new terminal of `cols` by `rows` cells and registers it
/// under `id`. Where `id` is registered already nothing is started and nothing
/// changes. The reader that comes back with a new session delivers its
/// output; the caller drives it.
///
/// Each step that the system can refuse (the terminal, the process, the two
/// streams) ends the call with the system's description of the failure, and
/// the registry is then as it was.
pub fn pty_create(manager: &mut PtyManager, id: String, cols: u16, rows: u16, cwd: String) -> (r:
    Result<Option<PtyReader>, String>)
    requires
        old(manager).wf(),
    ensures
        final(manager).wf(),
        final(manager).platform() == old(manager).platform(),
        final(manager)@.dom() == ids_after(old(manager)@.dom(), Request::Create, id@, r is Ok),
        no_op(old(manager)@.dom(), Request::Create, id@) ==> r == Ok::<Option<PtyReader>, String>(
            None,
        ) && *final(manager) == *old(manager),
        !old(manager)@.dom().contains(id@) ==> match r {
            Ok(Some(reader)) => opened(old(manager)@, final(manager)@, id@) && reader.session_id()
                == id@,
            Ok(None) => false,
            Err(message) => *final(manager) == *old(manager) && describes_refusal(message),
        },
{
    if manager.contains(&id) {
        return Ok(None);
    }
    let opened = open_pty(terminal_size(cols, rows));
    let ghost refusal = opened;
    let pair = match described(opened) {
        Ok(pair) => pair,
        Err(message) => {
            assert(describes(refusal->Err_0, message));
            assert(describes_refusal(message));
            return Err(message);
        },
    };
    let cmd = shell_command(manager.platform, cwd.as_str());
    let spawned = spawn_command(&pair, cmd);
    let ghost refusal = spawned;
    let child = match described(spawned) {
        Ok(child) => child,
        Err(message) => {
            assert(describes(refusal->Err_0, message));
            assert(describes_refusal(message));
            return Err(message);
        },
    };
    let master = into_master(pair);
    let cloned = try_clone_reader(&master);
    let ghost refusal = cloned;
    let source = match described(cloned) {
        Ok(source) => source,
        Err(message) => {
            assert(describes(refusal->Err_0, message));
            assert(describes_refusal(message));
            return Err(message);
        },
    };
    let taken = take_writer(&master);
    let ghost refusal = taken;
    let writer = match described(taken) {
        Ok(writer) => writer,
        Err(message) => {
            assert(describes(refusal->Err_0, message));
            assert(describes_refusal(message));
            return Err(message);
        },
    };
    let reader = PtyReader::new(id.clone(), source);
    manager.register(id, Session { master, writer, child });
    Ok(Some(reader))
}

/// Sends all of `data` to the session `id`. A session that is not registered
/// gets nothing and the call succeeds. A failure of the write comes back as
/// the system's description of it; nothing is tried again.
pub fn pty_write(manager: &mut PtyManager, id: String, data: String) -> (r: Result<(), String>)
    requires
        old(manager).wf(),
    ensures
        final(manager).wf(),
        final(manager).platform() == old(manager).platform(),
        final(manager)@.dom() == ids_after(old(manager)@.dom(), Request::Write, id@, r is Ok),
        no_op(old(manager)@.dom(), Request::Write, id@) ==> r is Ok && *final(manager) == *old(
            manager,
        ),
        old(manager)@.dom().contains(id@) ==> same_but(old(manager)@, final(manager)@, id@),
        r matches Err(message) ==> describes_io_failure(message),
{
    let at = match manager.find(&id) {
        Some(at) => at,
        None => {
            return Ok(());
        },
    };
    let sent = write_all(&mut manager.entries[at].session.writer, data.as_str().as_bytes());
    proof {
        lemma_registry(old(manager).entries@);
        lemma_registry_update(old(manager).entries@, manager.entries@, at as int);
        lemma_registry(manager.entries@);
    }
    let ghost refusal = sent;
    let r = described_io(sent);
    proof {
        if let Err(e) = refusal {
            assert(describes(e, r->Err_0));
        }
    }
    r
}

/// Tells the terminal of the session `id` its new size. A session that is not
/// registered is left alone and the call succeeds. The registry is only read.
pub fn pty_resize(manager: &PtyManager, id: String, cols: u16, rows: u16) -> (r: Result<
    (),
    String,
>)
    requires
        manager.wf(),
    ensures
        no_op(manager@.dom(), Request::Resize, id@) ==> r is Ok,
        r matches Err(message) ==> describes_refusal(message),
{
    let at = match manager.find(&id) {
        Some(at) => at,
        None => {
            return Ok(());
        },
    };
    let answer = resize_master(&manager.entries[at].session.master, terminal_size(cols, rows));
    let ghost refusal = answer;
    let r = described(answer);
    proof {
        if let Err(e) = refusal {
            assert(describes(e, r->Err_0));
        }
    }
    r
}

/// Takes the session `id` out of the registry and asks the system to end its
/// process. Whether the process could be ended is not reported: the session
/// is gone from the registry either way. The call always succeeds.
pub fn pty_close(manager: &mut PtyManager, id: String) -> (r: Result<(), String>)
    requires
        old(manager).wf(),
    ensures
        r is Ok,
        final(manager).wf(),
        final(manager).platform() == old(manager).platform(),
        final(manager)@ == old(manager)@.remove(id@),
        final(manager)@.dom() == ids_after(old(manager)@.dom(), Request::Close, id@, r is Ok),
        no_op(old(manager)@.dom(), Request::Close, id@) ==> *final(manager) == *old(manager),
{
    match manager.find(&id) {
        Some(at) => {
            let mut entry = manager.unregister(at);
            let _ = kill_child(&mut entry.session.child);
        },
        None => {
            assert(manager@.remove(id@) == manager@);
        },
    }
    Ok(())
}

} // verus!
