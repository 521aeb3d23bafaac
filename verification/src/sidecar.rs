//! The process registry: which worker processes are live, under which agent
//! id, and what each request or event does to that set.
//!
//! The registry holds no operating-system resource. A worker process is
//! known to it by a handle, a number that the caller gave when the process
//! started and by which the caller finds the process again.

use vstd::prelude::*;
use vstd::string::*;
use crate::error::OrchestratorError;
use crate::text::{
    clone_option, clone_strings, find_char, has_char, option_text, str_equal, texts,
};

verus! {

/// What a worker is told on its input stream.
#[derive(Debug)]
pub struct SidecarConfig {
    pub prompt: String,
    pub model: String,
    pub api_key: String,
    pub cwd: String,
    pub allowed_tools: Option<Vec<String>>,
    pub max_turns: Option<u32>,
    pub permission_mode: Option<String>,
    pub session_id: Option<String>,
}

/// A worker configuration as plain text and numbers.
pub ghost struct SidecarConfigModel {
    pub prompt: Seq<char>,
    pub model: Seq<char>,
    pub api_key: Seq<char>,
    pub cwd: Seq<char>,
    pub allowed_tools: Option<Seq<Seq<char>>>,
    pub max_turns: Option<u32>,
    pub permission_mode: Option<Seq<char>>,
    pub session_id: Option<Seq<char>>,
}

impl View for SidecarConfig {
    type V = SidecarConfigModel;

    open spec fn view(&self) -> SidecarConfigModel {
        SidecarConfigModel {
            prompt: self.prompt@,
            model: self.model@,
            api_key: self.api_key@,
            cwd: self.cwd@,
            allowed_tools: match self.allowed_tools {
                Some(tools) => Some(texts(tools@)),
                None => None,
            },
            max_turns: self.max_turns,
            permission_mode: option_text(self.permission_mode),
            session_id: option_text(self.session_id),
        }
    }
}

impl Clone for SidecarConfig {
    fn clone(&self) -> (r: SidecarConfig)
        ensures
            r@ == self@,
    {
        SidecarConfig {
            prompt: self.prompt.clone(),
            model: self.model.clone(),
            api_key: self.api_key.clone(),
            cwd: self.cwd.clone(),
            allowed_tools: match &self.allowed_tools {
                Some(tools) => Some(clone_strings(tools)),
                None => None,
            },
            max_turns: self.max_turns,
            permission_mode: clone_option(&self.permission_mode),
            session_id: clone_option(&self.session_id),
        }
    }
}

/// One live worker: its agent id and the caller's handle for its process.
#[derive(Debug)]
pub struct AgentEntry {
    pub agent_id: String,
    pub handle: u64,
}

/// The live workers, at most one under each agent id.
pub struct AgentRegistry {
    entries: Vec<AgentEntry>,
}

/// The agent ids of a run of entries, in order.
pub open spec fn entry_ids(entries: Seq<AgentEntry>) -> Seq<Seq<char>> {
    Seq::new(entries.len(), |i: int| entries[i].agent_id@)
}

/// How many entries a registry holds under `agent_id`: a map has one at
/// most.
pub open spec fn entry_count(live: Map<Seq<char>, u64>, agent_id: Seq<char>) -> nat {
    if live.dom().contains(agent_id) {
        1
    } else {
        0
    }
}

/// How often `agent_id` occurs among `ids`.
pub open spec fn occurrences(ids: Seq<Seq<char>>, agent_id: Seq<char>) -> nat
    decreases ids.len(),
{
    if ids.len() == 0 {
        0
    } else if ids.last() == agent_id {
        occurrences(ids.drop_last(), agent_id) + 1
    } else {
        occurrences(ids.drop_last(), agent_id)
    }
}

/// Among ids without duplicates each id occurs once or not at all.
pub proof fn lemma_occurrences(ids: Seq<Seq<char>>, agent_id: Seq<char>)
    requires
        ids.no_duplicates(),
    ensures
        occurrences(ids, agent_id) == (if ids.contains(agent_id) {
            1nat
        } else {
            0nat
        }),
    decreases ids.len(),
{
    if ids.len() > 0 {
        let rest = ids.drop_last();
        let last = ids.len() - 1;
        lemma_occurrences(rest, agent_id);
        if rest.contains(agent_id) {
            let i = choose|i: int| 0 <= i < rest.len() && rest[i] == agent_id;
            assert(ids[i] == agent_id);
            assert(ids[last] != ids[i]);
        }
        if ids.contains(agent_id) && ids[last] != agent_id {
            let i = choose|i: int| 0 <= i < ids.len() && ids[i] == agent_id;
            assert(rest[i] == agent_id);
        }
        if ids[last] == agent_id {
            assert(ids.contains(agent_id));
        }
    }
}

impl AgentRegistry {
    /// The agent ids of the entries, in the order in which they were entered.
    pub closed spec fn ids(&self) -> Seq<Seq<char>> {
        entry_ids(self.entries@)
    }

    /// No agent id occurs twice.
    #[verifier::type_invariant]
    pub closed spec fn wf(&self) -> bool {
        self.ids().no_duplicates()
    }

    /// The handle of each live agent id.
    pub closed spec fn view(&self) -> Map<Seq<char>, u64> {
        Map::new(
            |id: Seq<char>| self.ids().contains(id),
            |id: Seq<char>|
                self.entries@[choose|i: int| 0 <= i < self.ids().len() && self.ids()[i] == id].handle,
        )
    }

    /// How many entries the registry holds under `agent_id`.
    pub closed spec fn live_count(&self, agent_id: Seq<char>) -> nat {
        occurrences(self.ids(), agent_id)
    }

    /// A registry holds one entry under each live agent id, and none under
    /// any other.
    pub proof fn lemma_live_count(&self, agent_id: Seq<char>)
        requires
            self.wf(),
        ensures
            self.live_count(agent_id) == entry_count(self@, agent_id),
            self.live_count(agent_id) <= 1,
    {
        lemma_occurrences(self.ids(), agent_id);
    }

    proof fn lemma_view_at(&self, i: int)
        requires
            self.wf(),
            0 <= i < self.entries@.len(),
        ensures
            self@.dom().contains(self.entries@[i].agent_id@),
            self@[self.entries@[i].agent_id@] == self.entries@[i].handle,
    {
        let id = self.entries@[i].agent_id@;
        assert(self.ids()[i] == id);
        let j = choose|j: int| 0 <= j < self.ids().len() && self.ids()[j] == id;
        assert(j == i);
    }

    /// The live set is finite and has as many members as there are entries.
    proof fn lemma_view_len(&self)
        requires
            self.wf(),
        ensures
            self@.dom().finite(),
            self@.dom().len() == self.entries@.len(),
    {
        self.ids().unique_seq_to_set();
        assert(self@.dom() =~= self.ids().to_set());
    }

    /// An empty registry.
    pub fn new() -> (r: AgentRegistry)
        ensures
            r@ == Map::<Seq<char>, u64>::empty(),
    {
        let r = AgentRegistry { entries: Vec::new() };
        assert(r@ =~= Map::<Seq<char>, u64>::empty());
        r
    }

    fn position(&self, agent_id: &str) -> (r: Option<usize>)
        ensures
            match r {
                Some(i) => i < self.entries@.len() && self.entries@[i as int].agent_id@
                    == agent_id@,
                None => !self@.dom().contains(agent_id@),
            },
    {
        let mut i: usize = 0;
        while i < self.entries.len()
            invariant
                i <= self.entries@.len(),
                forall|k: int| 0 <= k < i ==> self.ids()[k] != agent_id@,
            decreases self.entries@.len() - i,
        {
            if str_equal(self.entries[i].agent_id.as_str(), agent_id) {
                return Some(i);
            }
            assert(self.ids()[i as int] == self.entries@[i as int].agent_id@);
            i = i + 1;
        }
        None
    }

    /// Whether `agent_id` has a live entry.
    pub fn contains(&self, agent_id: &str) -> (r: bool)
        ensures
            r == self@.dom().contains(agent_id@),
    {
        proof {
            use_type_invariant(self);
        }
        match self.position(agent_id) {
            Some(i) => {
                proof {
                    self.lemma_view_at(i as int);
                }
                true
            },
            None => false,
        }
    }

    /// The handle under which `agent_id` is live.
    pub fn get(&self, agent_id: &str) -> (r: Option<u64>)
        ensures
            r == (if self@.dom().contains(agent_id@) {
                Some(self@[agent_id@])
            } else {
                None
            }),
    {
        proof {
            use_type_invariant(self);
        }
        match self.position(agent_id) {
            Some(i) => {
                proof {
                    self.lemma_view_at(i as int);
                }
                Some(self.entries[i].handle)
            },
            None => None,
        }
    }

    /// The number of live workers.
    pub fn len(&self) -> (r: usize)
        ensures
            self@.dom().finite(),
            r == self@.dom().len(),
    {
        proof {
            use_type_invariant(self);
            self.lemma_view_len();
        }
        self.entries.len()
    }

    /// Whether no worker is live.
    pub fn is_empty(&self) -> (r: bool)
        ensures
            r == (self@ == Map::<Seq<char>, u64>::empty()),
    {
        proof {
            use_type_invariant(self);
            self.lemma_view_len();
            if self.entries@.len() == 0 {
                assert(self@ =~= Map::<Seq<char>, u64>::empty());
            }
        }
        self.entries.len() == 0
    }

    /// Enters a worker under `agent_id`, unless that id is live already.
    pub fn insert(&mut self, agent_id: String, handle: u64) -> (r: Result<(), OrchestratorError>)
        ensures
            match r {
                Ok(()) => !old(self)@.dom().contains(agent_id@) && final(self)@ == old(self)@.insert(
                    agent_id@,
                    handle,
                ) && final(self).live_count(agent_id@) == 1,
                Err(e) => old(self)@.dom().contains(agent_id@) && final(self)@ == old(self)@ && (e
                    matches OrchestratorError::DuplicateAgent { agent_id: a } && a@ == agent_id@),
            },
    {
        proof {
            use_type_invariant(&*self);
        }
        match self.position(agent_id.as_str()) {
            Some(i) => {
                proof {
                    self.lemma_view_at(i as int);
                }
                Err(OrchestratorError::DuplicateAgent { agent_id })
            },
            None => {
                let ghost before = *self;
                let mut entries: Vec<AgentEntry> = Vec::new();
                std::mem::swap(&mut entries, &mut self.entries);
                entries.push(AgentEntry { agent_id, handle });
                proof {
                    let grown = entry_ids(entries@);
                    assert(grown =~= before.ids().push(agent_id@));
                    assert(grown.no_duplicates()) by {
                        assert forall|a: int, b: int|
                            0 <= a < grown.len() && 0 <= b < grown.len() && a != b implies grown[a]
                            != grown[b] by {
                            if a < before.ids().len() && b < before.ids().len() {
                                assert(before.ids()[a] != before.ids()[b]);
                            } else if a < before.ids().len() {
                                assert(before.ids().contains(before.ids()[a]));
                            } else {
                                assert(before.ids().contains(before.ids()[b]));
                            }
                        }
                    }
                }
                self.entries = entries;
                proof {
                    let after = *self;
                    assert(after.ids() =~= before.ids().push(agent_id@));
                    assert forall|id: Seq<char>| after@.dom().contains(id) implies #[trigger] after@[id]
                        == before@.insert(agent_id@, handle)[id] by {
                        let j = choose|j: int| 0 <= j < after.ids().len() && after.ids()[j] == id;
                        after.lemma_view_at(j);
                        if j < before.ids().len() {
                            assert(before.ids()[j] == id);
                            before.lemma_view_at(j);
                        }
                    }
                    assert forall|id: Seq<char>|
                        after@.dom().contains(id) == before@.insert(
                            agent_id@,
                            handle,
                        ).dom().contains(id) by {
                        if before.ids().contains(id) {
                            let j = choose|j: int|
                                0 <= j < before.ids().len() && before.ids()[j] == id;
                            assert(after.ids()[j] == id);
                        }
                        if id == agent_id@ {
                            assert(after.ids()[before.ids().len() as int] == id);
                        }
                        if after.ids().contains(id) {
                            let j = choose|j: int| 0 <= j < after.ids().len() && after.ids()[j] == id;
                            if j < before.ids().len() {
                                assert(before.ids()[j] == id);
                            }
                        }
                    }
                    assert(after@ =~= before@.insert(agent_id@, handle));
                    after.lemma_live_count(agent_id@);
                }
                Ok(())
            },
        }
    }

    /// Takes the entry of `agent_id` out and gives its handle.
    pub fn remove(&mut self, agent_id: &str) -> (r: Option<u64>)
        ensures
            final(self)@ == old(self)@.remove(agent_id@),
            final(self).live_count(agent_id@) == 0,
            r == (if old(self)@.dom().contains(agent_id@) {
                Some(old(self)@[agent_id@])
            } else {
                None
            }),
    {
        proof {
            use_type_invariant(&*self);
        }
        match self.position(agent_id) {
            None => {
                assert(self@ =~= self@.remove(agent_id@));
                proof {
                    self.lemma_live_count(agent_id@);
                }
                None
            },
            Some(i) => {
                let ghost before = *self;
                proof {
                    before.lemma_view_at(i as int);
                }
                let mut entries: Vec<AgentEntry> = Vec::new();
                std::mem::swap(&mut entries, &mut self.entries);
                let gone = entries.remove(i);
                proof {
                    let left = entry_ids(entries@);
                    assert(left =~= before.ids().remove(i as int));
                    assert forall|a: int, b: int|
                        0 <= a < left.len() && 0 <= b < left.len() && a != b implies left[a]
                        != left[b] by {
                        let a0 = if a < i { a } else { a + 1 };
                        let b0 = if b < i { b } else { b + 1 };
                        assert(before.ids()[a0] != before.ids()[b0]);
                    }
                }
                self.entries = entries;
                proof {
                    let after = *self;
                    assert(after.ids() =~= before.ids().remove(i as int));
                    assert forall|id: Seq<char>|
                        after@.dom().contains(id) == before@.remove(agent_id@).dom().contains(
                            id,
                        ) by {
                        if after.ids().contains(id) {
                            let j = choose|j: int| 0 <= j < after.ids().len() && after.ids()[j] == id;
                            let j0 = if j < i { j } else { j + 1 };
                            assert(before.ids()[j0] == id);
                            assert(before.ids()[j0] != before.ids()[i as int]);
                        }
                        if before.ids().contains(id) && id != agent_id@ {
                            let j = choose|j: int|
                                0 <= j < before.ids().len() && before.ids()[j] == id;
                            let j1 = if j < i { j } else { j - 1 };
                            assert(after.ids()[j1] == id);
                        }
                    }
                    assert forall|id: Seq<char>| after@.dom().contains(id) implies #[trigger] after@[id]
                        == before@.remove(agent_id@)[id] by {
                        let j = choose|j: int| 0 <= j < after.ids().len() && after.ids()[j] == id;
                        after.lemma_view_at(j);
                        let j0 = if j < i { j } else { j + 1 };
                        assert(before.ids()[j0] == id);
                        before.lemma_view_at(j0);
                    }
                    assert(after@ =~= before@.remove(agent_id@));
                    after.lemma_live_count(agent_id@);
                }
                Some(gone.handle)
            },
        }
    }

    /// The agent ids of the live workers.
    pub fn agent_ids(&self) -> (r: Vec<String>)
        ensures
            texts(r@).no_duplicates(),
            forall|id: Seq<char>| texts(r@).contains(id) <==> self@.dom().contains(id),
    {
        proof {
            use_type_invariant(self);
        }
        let mut out: Vec<String> = Vec::new();
        let mut i: usize = 0;
        while i < self.entries.len()
            invariant
                i <= self.entries@.len(),
                out@.len() == i,
                forall|k: int| 0 <= k < i ==> out@[k]@ == self.entries@[k].agent_id@,
            decreases self.entries@.len() - i,
        {
            out.push(self.entries[i].agent_id.clone());
            i = i + 1;
        }
        assert(texts(out@) =~= self.ids());
        out
    }

    /// Empties the registry and gives every entry that was in it.
    pub fn take_all(&mut self) -> (r: Vec<AgentEntry>)
        ensures
            final(self)@ == Map::<Seq<char>, u64>::empty(),
            entry_ids(r@).no_duplicates(),
            old(self)@.dom().finite(),
            r@.len() == old(self)@.dom().len(),
            forall|i: int|
                0 <= i < r@.len() ==> old(self)@.dom().contains(#[trigger] r@[i].agent_id@)
                    && old(self)@[r@[i].agent_id@] == r@[i].handle,
            forall|id: Seq<char>|
                old(self)@.dom().contains(id) ==> #[trigger] entry_ids(r@).contains(id),
    {
        proof {
            use_type_invariant(&*self);
            self.lemma_view_len();
        }
        let ghost before = *self;
        let mut entries: Vec<AgentEntry> = Vec::new();
        std::mem::swap(&mut entries, &mut self.entries);
        proof {
            assert(self@ =~= Map::<Seq<char>, u64>::empty());
            assert forall|i: int| 0 <= i < entries@.len() implies before@.dom().contains(
                #[trigger] entries@[i].agent_id@,
            ) && before@[entries@[i].agent_id@] == entries@[i].handle by {
                before.lemma_view_at(i);
            }
        }
        entries
    }
}

/// A registry with no live worker.
pub fn create_registry() -> (r: AgentRegistry)
    ensures
        r@ == Map::<Seq<char>, u64>::empty(),
{
    AgentRegistry::new()
}

/// Whether a worker is live: asked before the application shuts down or a
/// workspace is reset.
pub fn has_running_agents(registry: &AgentRegistry) -> (r: bool)
    ensures
        r == (registry@ != Map::<Seq<char>, u64>::empty()),
{
    !registry.is_empty()
}


/// What the caller found when it tried to start a worker process and to
/// write the configuration line to it.
#[derive(Debug)]
pub enum LaunchOutcome {
    /// The process runs and has its configuration.
    Started { handle: u64 },
    /// The executable was not found, the process did not start, or its
    /// input stream did not take the configuration.
    Failed { reason: String },
}

/// Refuses a spawn under an agent id that is live, before any process is
/// started.
pub fn check_spawn(agent_id: &str, registry: &AgentRegistry) -> (r: Result<(), OrchestratorError>)
    ensures
        r is Ok <==> !registry@.dom().contains(agent_id@),
        r matches Err(e) ==> (e matches OrchestratorError::DuplicateAgent { agent_id: a } && a@
            == agent_id@),
{
    if registry.contains(agent_id) {
        Err(OrchestratorError::DuplicateAgent { agent_id: String::from_str(agent_id) })
    } else {
        Ok(())
    }
}

/// Registers a worker that was started. A launch that failed registers
/// nothing, and neither does one under an agent id that is live.
pub fn spawn_sidecar(agent_id: String, launch: LaunchOutcome, registry: &mut AgentRegistry) -> (r:
    Result<(), OrchestratorError>)
    ensures
        r is Ok <==> (launch is Started && !old(registry)@.dom().contains(agent_id@)),
        match r {
            Ok(()) => final(registry)@ == old(registry)@.insert(agent_id@, launch->handle)
                && final(registry).live_count(agent_id@) == 1,
            Err(e) => final(registry)@ == old(registry)@ && match launch {
                LaunchOutcome::Failed { reason } => e matches OrchestratorError::SpawnFailed {
                    reason: x,
                } && x@ == reason@,
                LaunchOutcome::Started { handle } => e matches OrchestratorError::DuplicateAgent {
                    agent_id: a,
                } && a@ == agent_id@,
            },
        },
{
    match launch {
        LaunchOutcome::Failed { reason } => Err(OrchestratorError::SpawnFailed { reason }),
        LaunchOutcome::Started { handle } => registry.insert(agent_id, handle),
    }
}

/// A serialized configuration as one line.
pub open spec fn config_line(json: Seq<char>) -> Seq<char> {
    json + seq!['\n']
}

/// The one line that a worker reads: the serialized configuration and a
/// line feed. A configuration that holds a line feed itself is refused.
pub fn frame_config_line(json: &str) -> (r: Result<String, OrchestratorError>)
    ensures
        match r {
            Ok(line) => !has_char(json@, '\n') && line@ == config_line(json@),
            Err(e) => has_char(json@, '\n') && (e matches OrchestratorError::SpawnFailed {
                reason,
            } && reason@ == "Failed to write config to stdin: not a single line"@),
        },
{
    let at = find_char(json, '\n');
    if at < json.unicode_len() {
        Err(
            OrchestratorError::SpawnFailed {
                reason: String::from_str("Failed to write config to stdin: not a single line"),
            },
        )
    } else {
        let mut line = String::from_str(json);
        proof {
            reveal_strlit("\n");
            assert("\n"@ =~= seq!['\n']);
        }
        line.append("\n");
        Ok(line)
    }
}

/// How a worker's primary output stream came to its end.
#[derive(Clone, Copy, Debug, PartialEq, Eq, Structural)]
pub enum StreamEnd {
    /// The stream closed.
    Closed,
    /// Reading the stream failed.
    ReadFailed,
}

/// What the operating system told of a process that has ended.
#[derive(Clone, Copy, Debug, PartialEq, Eq, Structural)]
pub enum ExitSeen {
    /// It exited with success.
    Succeeded,
    /// It exited with a failure.
    Failed,
    /// Its status could not be had.
    Unknown,
}

/// The output stream of `agent_id` has ended: its entry leaves the
/// registry. The result is the handle of the process whose exit status is to
/// be inspected and told, or `None` where a cancel took the entry first and
/// nothing more is to be told.
pub fn finish_agent(agent_id: &str, registry: &mut AgentRegistry) -> (r: Option<u64>)
    ensures
        final(registry)@ == old(registry)@.remove(agent_id@),
        final(registry).live_count(agent_id@) == 0,
        r == (if old(registry)@.dom().contains(agent_id@) {
            Some(old(registry)@[agent_id@])
        } else {
            None
        }),
{
    registry.remove(agent_id)
}

/// Whether a worker that ended counts as a success: its output stream
/// closed without a read error, and its exit status, where there is one,
/// is a success.
pub open spec fn exit_is_success(end: StreamEnd, status: ExitSeen) -> bool {
    end == StreamEnd::Closed && status != ExitSeen::Failed
}

/// Whether a worker that ended counts as a success.
pub fn exit_success(end: StreamEnd, status: ExitSeen) -> (r: bool)
    ensures
        r == exit_is_success(end, status),
{
    match end {
        StreamEnd::ReadFailed => false,
        StreamEnd::Closed => match status {
            ExitSeen::Failed => false,
            _ => true,
        },
    }
}

/// Takes `agent_id` out of the registry and gives the handle of the process
/// to kill. The agent ids of other workers keep their entries.
pub fn cancel_sidecar(agent_id: &str, registry: &mut AgentRegistry) -> (r: Result<
    u64,
    OrchestratorError,
>)
    ensures
        final(registry)@ == old(registry)@.remove(agent_id@),
        final(registry).live_count(agent_id@) == 0,
        match r {
            Ok(handle) => old(registry)@.dom().contains(agent_id@) && handle == old(
                registry,
            )@[agent_id@],
            Err(e) => !old(registry)@.dom().contains(agent_id@) && final(registry)@ == old(
                registry,
            )@ && (e matches OrchestratorError::AgentNotFound { agent_id: a } && a@ == agent_id@),
        },
{
    match registry.remove(agent_id) {
        Some(handle) => Ok(handle),
        None => {
            assert(old(registry)@.remove(agent_id@) =~= old(registry)@);
            Err(OrchestratorError::AgentNotFound { agent_id: String::from_str(agent_id) })
        },
    }
}

/// What became of the kill of a cancelled worker.
pub fn kill_result(agent_id: &str, failure: Option<String>) -> (r: Result<(), OrchestratorError>)
    ensures
        match r {
            Ok(()) => failure is None,
            Err(e) => failure is Some && (e matches OrchestratorError::KillFailed {
                agent_id: a,
                reason,
            } && a@ == agent_id@ && reason@ == failure->0@),
        },
{
    match failure {
        None => Ok(()),
        Some(reason) => Err(
            OrchestratorError::KillFailed { agent_id: String::from_str(agent_id), reason },
        ),
    }
}

/// Takes every worker out of the registry and gives the entries, whose
/// processes are to be killed one by one.
pub fn cancel_all(registry: &mut AgentRegistry) -> (r: Vec<AgentEntry>)
    ensures
        final(registry)@ == Map::<Seq<char>, u64>::empty(),
        entry_ids(r@).no_duplicates(),
        old(registry)@.dom().finite(),
        r@.len() == old(registry)@.dom().len(),
        forall|i: int|
            0 <= i < r@.len() ==> old(registry)@.dom().contains(#[trigger] r@[i].agent_id@) && old(
                registry,
            )@[r@[i].agent_id@] == r@[i].handle,
        forall|id: Seq<char>|
            old(registry)@.dom().contains(id) ==> #[trigger] entry_ids(r@).contains(id),
{
    registry.take_all()
}

/// Whether the process of one cancelled worker died.
#[derive(Debug)]
pub struct KillOutcome {
    pub agent_id: String,
    pub killed: bool,
}

/// The outcomes of killing the processes of `entries` one by one, where
/// `died[i]` tells whether the process of the entry `i` died. An entry
/// without a report counts as one whose process did not die.
pub fn kill_outcomes(entries: &Vec<AgentEntry>, died: &Vec<bool>) -> (r: Vec<KillOutcome>)
    ensures
        r@.len() == entries@.len(),
        forall|i: int|
            0 <= i < r@.len() ==> (#[trigger] r@[i]).agent_id@ == entries@[i].agent_id@ && r@[i].killed
                == (i < died@.len() && died@[i]),
{
    let mut out: Vec<KillOutcome> = Vec::new();
    let mut i: usize = 0;
    while i < entries.len()
        invariant
            i <= entries.len(),
            out@.len() == i,
            forall|k: int|
                0 <= k < i ==> (#[trigger] out@[k]).agent_id@ == entries@[k].agent_id@
                    && out@[k].killed == (k < died@.len() && died@[k]),
        decreases entries.len() - i,
    {
        let killed = i < died.len() && died[i];
        out.push(KillOutcome { agent_id: entries[i].agent_id.clone(), killed });
        i = i + 1;
    }
    out
}

/// The agents of a cancel-all whose processes died, and those whose
/// processes did not.
#[derive(Debug)]
pub struct CancelReport {
    pub cancelled: Vec<String>,
    pub failed: Vec<String>,
}

/// The agent ids of the outcomes whose `killed` is `wanted`, in order.
pub open spec fn ids_with(outcomes: Seq<KillOutcome>, wanted: bool) -> Seq<Seq<char>>
    decreases outcomes.len(),
{
    if outcomes.len() == 0 {
        Seq::empty()
    } else if outcomes.last().killed == wanted {
        ids_with(outcomes.drop_last(), wanted).push(outcomes.last().agent_id@)
    } else {
        ids_with(outcomes.drop_last(), wanted)
    }
}

/// Sorts the outcomes of a cancel-all: one worker that would not die does
/// not keep the others from being reported as cancelled.
pub fn summarize_cancel_all(outcomes: &Vec<KillOutcome>) -> (r: CancelReport)
    ensures
        texts(r.cancelled@) == ids_with(outcomes@, true),
        texts(r.failed@) == ids_with(outcomes@, false),
{
    let mut cancelled: Vec<String> = Vec::new();
    let mut failed: Vec<String> = Vec::new();
    let mut i: usize = 0;
    while i < outcomes.len()
        invariant
            i <= outcomes.len(),
            texts(cancelled@) == ids_with(outcomes@.subrange(0, i as int), true),
            texts(failed@) == ids_with(outcomes@.subrange(0, i as int), false),
        decreases outcomes.len() - i,
    {
        let ghost seen = outcomes@.subrange(0, i as int);
        let ghost grown = outcomes@.subrange(0, i + 1);
        let ghost before_cancelled = cancelled@;
        let ghost before_failed = failed@;
        proof {
            assert(grown.drop_last() =~= seen);
            assert(grown.last() == outcomes@[i as int]);
        }
        if outcomes[i].killed {
            cancelled.push(outcomes[i].agent_id.clone());
            assert(texts(cancelled@) =~= texts(before_cancelled).push(outcomes@[i as int].agent_id@));
        } else {
            failed.push(outcomes[i].agent_id.clone());
            assert(texts(failed@) =~= texts(before_failed).push(outcomes@[i as int].agent_id@));
        }
        i = i + 1;
    }
    assert(outcomes@.subrange(0, outcomes.len() as int) =~= outcomes@);
    CancelReport { cancelled, failed }
}

/// A place where the worker script may lie: whether a file is there, and
/// its path as text where the path can be written as text.
#[derive(Debug)]
pub struct PathCandidate {
    pub path: Option<String>,
    pub exists: bool,
}

/// The index of the first candidate that exists, or the number of
/// candidates.
pub open spec fn first_existing(candidates: Seq<PathCandidate>) -> int
    decreases candidates.len(),
{
    if candidates.len() == 0 {
        0
    } else if candidates[0].exists {
        0
    } else {
        1 + first_existing(candidates.drop_first())
    }
}

/// `first_existing` is the least index of a candidate that exists.
pub proof fn lemma_first_existing(candidates: Seq<PathCandidate>)
    ensures
        0 <= first_existing(candidates) <= candidates.len(),
        forall|i: int| 0 <= i < first_existing(candidates) ==> !candidates[i].exists,
        first_existing(candidates) < candidates.len() ==> candidates[first_existing(
            candidates,
        )].exists,
    decreases candidates.len(),
{
    if candidates.len() > 0 && !candidates[0].exists {
        let rest = candidates.drop_first();
        lemma_first_existing(rest);
        assert forall|i: int| 0 <= i < first_existing(candidates) implies !candidates[i].exists by {
            if i > 0 {
                assert(candidates[i] == rest[i - 1]);
            }
        }
    }
}

/// The worker script: the first candidate that exists, in the order given.
/// One that exists but whose path is no text ends the search with an error.
pub fn resolve_sidecar_path(candidates: &Vec<PathCandidate>) -> (r: Result<
    String,
    OrchestratorError,
>)
    ensures
        match r {
            Ok(path) => first_existing(candidates@) < candidates@.len() && (candidates@[first_existing(
                candidates@,
            )].path matches Some(p) && p@ == path@),
            Err(e) => e matches OrchestratorError::SpawnFailed { reason } && (if first_existing(
                candidates@,
            ) < candidates@.len() {
                candidates@[first_existing(candidates@)].path is None && reason@
                    == "Invalid sidecar path"@
            } else {
                reason@
                    == "Could not find agent-runner.js \u{2014} run 'npm run build' in app/sidecar/ first"@
            }),
        },
{
    let mut i: usize = 0;
    proof {
        lemma_first_existing(candidates@);
    }
    while i < candidates.len()
        invariant
            i <= candidates.len(),
            forall|k: int| 0 <= k < i ==> !candidates@[k].exists,
            0 <= first_existing(candidates@) <= candidates@.len(),
            forall|k: int| 0 <= k < first_existing(candidates@) ==> !candidates@[k].exists,
            first_existing(candidates@) < candidates@.len() ==> candidates@[first_existing(
                candidates@,
            )].exists,
        decreases candidates.len() - i,
    {
        if candidates[i].exists {
            assert(first_existing(candidates@) == i);
            return match &candidates[i].path {
                Some(p) => Ok(p.clone()),
                None => Err(
                    OrchestratorError::SpawnFailed {
                        reason: String::from_str("Invalid sidecar path"),
                    },
                ),
            };
        }
        i = i + 1;
    }
    assert(first_existing(candidates@) == candidates@.len());
    Err(
        OrchestratorError::SpawnFailed {
            reason: String::from_str(
                "Could not find agent-runner.js \u{2014} run 'npm run build' in app/sidecar/ first",
            ),
        },
    )
}

/// Between a spawn that succeeded and the end of the process there is one
/// entry under the agent id; once the process has ended or was cancelled
/// there is none, whatever else the registry holds.
pub proof fn lemma_entry_lifecycle(live: Map<Seq<char>, u64>, agent_id: Seq<char>, handle: u64)
    ensures
        entry_count(live.insert(agent_id, handle), agent_id) == 1,
        entry_count(live.insert(agent_id, handle).remove(agent_id), agent_id) == 0,
        entry_count(live.remove(agent_id), agent_id) == 0,
{
}

/// Taking one agent id out of the registry leaves every other agent id as
/// it was; taking out one that is not live changes nothing at all.
pub proof fn lemma_cancel_is_local(live: Map<Seq<char>, u64>, agent_id: Seq<char>, other: Seq<char>)
    requires
        other != agent_id,
    ensures
        live.remove(agent_id).dom().contains(other) == live.dom().contains(other),
        live.dom().contains(other) ==> live.remove(agent_id)[other] == live[other],
        !live.dom().contains(agent_id) ==> live.remove(agent_id) == live,
{
    if !live.dom().contains(agent_id) {
        assert(live.remove(agent_id) =~= live);
    }
}

/// Every outcome of a cancel-all is reported once, as cancelled or as
/// failed: with one worker that would not die among `n`, `n - 1` are
/// reported as cancelled.
pub proof fn lemma_cancel_all_partial(outcomes: Seq<KillOutcome>)
    ensures
        ids_with(outcomes, true).len() + ids_with(outcomes, false).len() == outcomes.len(),
        ids_with(outcomes, false).len() == 1 ==> ids_with(outcomes, true).len() == outcomes.len()
            - 1,
        forall|i: int|
            0 <= i < outcomes.len() ==> ids_with(outcomes, outcomes[i].killed).contains(
                #[trigger] outcomes[i].agent_id@,
            ),
    decreases outcomes.len(),
{
    if outcomes.len() > 0 {
        let rest = outcomes.drop_last();
        lemma_cancel_all_partial(rest);
        assert forall|i: int| 0 <= i < outcomes.len() implies ids_with(
            outcomes,
            outcomes[i].killed,
        ).contains(#[trigger] outcomes[i].agent_id@) by {
            let w = outcomes[i].killed;
            if i < rest.len() {
                assert(rest[i] == outcomes[i]);
                let at = choose|k: int|
                    0 <= k < ids_with(rest, w).len() && ids_with(rest, w)[k] == rest[i].agent_id@;
                assert(ids_with(outcomes, w)[at] == outcomes[i].agent_id@);
            } else {
                assert(ids_with(outcomes, w)[ids_with(rest, w).len() as int]
                    == outcomes[i].agent_id@);
            }
        }
    }
}

} // verus!
