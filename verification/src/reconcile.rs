//! Reconciliation at startup: sessions whose process is gone, skill
//! directories without a record and records without a directory.

use vstd::prelude::*;
use vstd::string::*;
use crate::error::OrchestratorError;
use crate::settings::AppSettings;
use crate::sidecar::{entry_ids, AgentEntry, AgentRegistry};
use crate::text::{
    all_digits, decimal, digits_value, find_char, first_index_of, has_char, has_prefix,
    is_decimal_numeral, is_digit, is_numeral, join, joined, lemma_decimal_is_numeral,
    lemma_first_index_of, lemma_numeral_is_decimal, lemma_selected_again, lemma_selected_members,
    select_names, selected, starts_with, str_equal, texts,
};
use crate::workflow::agent_id_text;

verus! {

/// The persisted record of one user session that works on a skill.
#[derive(Debug)]
pub struct WorkflowSession {
    pub session_id: String,
    pub skill_name: String,
    pub pid: u32,
    pub open: bool,
}

/// A session record as plain text and numbers.
pub ghost struct SessionModel {
    pub session_id: Seq<char>,
    pub skill_name: Seq<char>,
    pub pid: u32,
    pub open: bool,
}

impl View for WorkflowSession {
    type V = SessionModel;

    open spec fn view(&self) -> SessionModel {
        SessionModel {
            session_id: self.session_id@,
            skill_name: self.skill_name@,
            pid: self.pid,
            open: self.open,
        }
    }
}

/// The models of a run of session records, in order.
pub open spec fn session_models(rows: Seq<WorkflowSession>) -> Seq<SessionModel> {
    Seq::new(rows.len(), |i: int| rows[i]@)
}

/// Whether a record of the session `session_id` is among `rows`.
pub open spec fn has_session(rows: Seq<SessionModel>, session_id: Seq<char>) -> bool {
    exists|i: int| 0 <= i < rows.len() && rows[i].session_id == session_id
}

fn find_session(sessions: &Vec<WorkflowSession>, session_id: &str) -> (r: bool)
    ensures
        r == has_session(session_models(sessions@), session_id@),
{
    let mut i: usize = 0;
    while i < sessions.len()
        invariant
            i <= sessions.len(),
            forall|k: int| 0 <= k < i ==> session_models(sessions@)[k].session_id != session_id@,
        decreases sessions.len() - i,
    {
        if str_equal(sessions[i].session_id.as_str(), session_id) {
            assert(session_models(sessions@)[i as int].session_id == session_id@);
            return true;
        }
        i = i + 1;
    }
    false
}

/// Records that the process `pid` began a session on `skill_name`. A session
/// id that has a record keeps it.
pub fn create_workflow_session(
    sessions: &mut Vec<WorkflowSession>,
    session_id: String,
    skill_name: String,
    pid: u32,
)
    ensures
        session_models(final(sessions)@) == (if has_session(
            session_models(old(sessions)@),
            session_id@,
        ) {
            session_models(old(sessions)@)
        } else {
            session_models(old(sessions)@).push(
                SessionModel { session_id: session_id@, skill_name: skill_name@, pid, open: true },
            )
        }),
{
    if !find_session(sessions, session_id.as_str()) {
        sessions.push(WorkflowSession { session_id, skill_name, pid, open: true });
        assert(session_models(sessions@) =~= session_models(old(sessions)@).push(
            SessionModel { session_id: session_id@, skill_name: skill_name@, pid, open: true },
        ));
    }
}

/// The record with its session closed.
pub open spec fn closed(row: SessionModel) -> SessionModel {
    SessionModel { open: false, ..row }
}

/// The records with the session `session_id` closed.
pub open spec fn rows_ended(rows: Seq<SessionModel>, session_id: Seq<char>) -> Seq<SessionModel> {
    Seq::new(
        rows.len(),
        |i: int|
            if rows[i].session_id == session_id {
                closed(rows[i])
            } else {
                rows[i]
            },
    )
}

/// Records that a session ended cleanly.
pub fn end_workflow_session(sessions: &mut Vec<WorkflowSession>, session_id: &str)
    ensures
        session_models(final(sessions)@) == rows_ended(
            session_models(old(sessions)@),
            session_id@,
        ),
{
    let mut i: usize = 0;
    while i < sessions.len()
        invariant
            i <= sessions.len(),
            sessions@.len() == old(sessions)@.len(),
            forall|k: int|
                0 <= k < i ==> sessions@[k]@ == rows_ended(
                    session_models(old(sessions)@),
                    session_id@,
                )[k],
            forall|k: int| i <= k < sessions@.len() ==> sessions@[k] == old(sessions)@[k],
        decreases sessions.len() - i,
    {
        if str_equal(sessions[i].session_id.as_str(), session_id) {
            let row = WorkflowSession {
                session_id: sessions[i].session_id.clone(),
                skill_name: sessions[i].skill_name.clone(),
                pid: sessions[i].pid,
                open: false,
            };
            sessions.set(i, row);
        }
        i = i + 1;
    }
    assert(session_models(sessions@) =~= rows_ended(
        session_models(old(sessions)@),
        session_id@,
    ));
}

/// Whether a process counts as living, by what the host told of it: a
/// process of which the host could tell nothing counts as living, so that no
/// session is closed on a guess.
pub fn process_is_live(seen: Option<bool>) -> (r: bool)
    ensures
        r == (seen != Some(false)),
{
    match seen {
        Some(live) => live,
        None => true,
    }
}

/// A session is orphaned where its record is open and its process is not
/// among the living.
pub open spec fn is_orphan(row: SessionModel, live_pids: Seq<u32>) -> bool {
    row.open && !live_pids.contains(row.pid)
}

/// The records with every orphaned session closed.
pub open spec fn rows_reconciled(rows: Seq<SessionModel>, live_pids: Seq<u32>) -> Seq<SessionModel> {
    Seq::new(
        rows.len(),
        |i: int|
            if is_orphan(rows[i], live_pids) {
                closed(rows[i])
            } else {
                rows[i]
            },
    )
}

/// The skills of the orphaned sessions, in the order of the records.
pub open spec fn orphan_skills(rows: Seq<SessionModel>, live_pids: Seq<u32>) -> Seq<Seq<char>>
    decreases rows.len(),
{
    if rows.len() == 0 {
        Seq::empty()
    } else if is_orphan(rows.last(), live_pids) {
        orphan_skills(rows.drop_last(), live_pids).push(rows.last().skill_name)
    } else {
        orphan_skills(rows.drop_last(), live_pids)
    }
}

fn pid_is_live(live_pids: &Vec<u32>, pid: u32) -> (r: bool)
    ensures
        r == live_pids@.contains(pid),
{
    let mut i: usize = 0;
    while i < live_pids.len()
        invariant
            i <= live_pids.len(),
            forall|k: int| 0 <= k < i ==> live_pids@[k] != pid,
        decreases live_pids.len() - i,
    {
        if live_pids[i] == pid {
            return true;
        }
        i = i + 1;
    }
    false
}

/// Closes every session that is open though its process is gone, and gives
/// the skill of each: one entry for each session closed.
pub fn reconcile_orphaned_sessions(sessions: &mut Vec<WorkflowSession>, live_pids: &Vec<u32>) -> (r:
    Vec<String>)
    ensures
        session_models(final(sessions)@) == rows_reconciled(
            session_models(old(sessions)@),
            live_pids@,
        ),
        texts(r@) == orphan_skills(session_models(old(sessions)@), live_pids@),
{
    let mut skills: Vec<String> = Vec::new();
    let mut i: usize = 0;
    let ghost before = session_models(old(sessions)@);
    while i < sessions.len()
        invariant
            i <= sessions.len(),
            sessions@.len() == old(sessions)@.len(),
            before == session_models(old(sessions)@),
            forall|k: int| 0 <= k < i ==> sessions@[k]@ == rows_reconciled(before, live_pids@)[k],
            forall|k: int| i <= k < sessions@.len() ==> sessions@[k] == old(sessions)@[k],
            texts(skills@) == orphan_skills(before.subrange(0, i as int), live_pids@),
        decreases sessions.len() - i,
    {
        let ghost seen = before.subrange(0, i as int);
        let ghost grown = before.subrange(0, i + 1);
        let ghost had = skills@;
        proof {
            assert(grown.drop_last() =~= seen);
            assert(grown.last() == before[i as int]);
            assert(before[i as int] == sessions@[i as int]@);
        }
        if sessions[i].open && !pid_is_live(live_pids, sessions[i].pid) {
            skills.push(sessions[i].skill_name.clone());
            assert(texts(skills@) =~= texts(had).push(before[i as int].skill_name));
            let row = WorkflowSession {
                session_id: sessions[i].session_id.clone(),
                skill_name: sessions[i].skill_name.clone(),
                pid: sessions[i].pid,
                open: false,
            };
            sessions.set(i, row);
        }
        i = i + 1;
    }
    assert(before.subrange(0, before.len() as int) =~= before);
    assert(session_models(sessions@) =~= rows_reconciled(before, live_pids@));
    skills
}

/// An agent belongs to a skill where its id is one that the engine makes
/// for that skill: the name of the skill, a label without a hyphen and the
/// numeral of a time, with a hyphen between each two.
pub open spec fn belongs_to(agent_id: Seq<char>, skill: Seq<char>) -> bool {
    exists|label: Seq<char>, millis: nat|
        !has_char(label, '-') && agent_id == #[trigger] agent_id_text(skill, label, millis)
}

/// The same by the letters of the id: after the name of the skill and a
/// hyphen comes one more hyphen, and what follows it is a numeral.
pub open spec fn has_id_shape(agent_id: Seq<char>, skill: Seq<char>) -> bool {
    let head = skill + "-"@;
    let rest = agent_id.subrange(head.len() as int, agent_id.len() as int);
    let at = first_index_of(rest, '-');
    &&& has_prefix(agent_id, head)
    &&& at < rest.len()
    &&& is_numeral(rest.subrange(at + 1, rest.len() as int))
}

/// Where the parts of an agent id lie in it: the two hyphens, and no other
/// hyphen after the name of the skill.
pub proof fn lemma_id_layout(skill: Seq<char>, label: Seq<char>, millis: nat)
    requires
        !has_char(label, '-'),
    ensures
        ({
            let id = agent_id_text(skill, label, millis);
            let first = skill.len() as int;
            let second: int = skill.len() as int + 1 + label.len();
            &&& id.len() == second + 1 + decimal(millis).len()
            &&& id.subrange(0, first) == skill
            &&& id[first] == '-'
            &&& id[second] == '-'
            &&& id.subrange(first + 1, second) == label
            &&& id.subrange(second + 1, id.len() as int) == decimal(millis)
            &&& forall|i: int| first < i < id.len() && i != second ==> id[i] != '-'
        }),
{
    reveal_strlit("-");
    let id = agent_id_text(skill, label, millis);
    let first = skill.len() as int;
    let second: int = skill.len() as int + 1 + label.len();
    let numeral = decimal(millis);
    lemma_decimal_is_numeral(millis);
    assert("-"@ =~= seq!['-']);
    assert(id.len() == second + 1 + numeral.len());
    assert(id.subrange(0, first) =~= skill);
    assert(id.subrange(first + 1, second) =~= label);
    assert(id.subrange(second + 1, id.len() as int) =~= numeral);
    assert forall|i: int| first < i < id.len() && i != second implies id[i] != '-' by {
        if i < second {
            assert(id[i] == label[i - first - 1]);
        } else {
            assert(id[i] == numeral[i - second - 1]);
            assert(is_digit(numeral[i - second - 1]));
        }
    }
}

/// An agent id belongs to a skill exactly where it has the shape of the ids
/// of that skill.
pub proof fn lemma_id_shape(agent_id: Seq<char>, skill: Seq<char>)
    ensures
        belongs_to(agent_id, skill) <==> has_id_shape(agent_id, skill),
{
    reveal_strlit("-");
    assert("-"@ =~= seq!['-']);
    let head = skill + "-"@;
    let rest = agent_id.subrange(head.len() as int, agent_id.len() as int);
    let at = first_index_of(rest, '-');
    lemma_first_index_of(rest, '-');
    if has_id_shape(agent_id, skill) {
        let label = rest.subrange(0, at);
        let numeral = rest.subrange(at + 1, rest.len() as int);
        let millis = digits_value(numeral);
        lemma_numeral_is_decimal(numeral);
        assert(!has_char(label, '-')) by {
            if has_char(label, '-') {
                let i = choose|i: int| 0 <= i < label.len() && label[i] == '-';
                assert(rest[i] == label[i]);
            }
        }
        assert(agent_id.subrange(0, head.len() as int) == head);
        assert(agent_id =~= agent_id_text(skill, label, millis));
    }
    if belongs_to(agent_id, skill) {
        let (label, millis) = choose|label: Seq<char>, millis: nat|
            !has_char(label, '-') && agent_id == #[trigger] agent_id_text(skill, label, millis);
        lemma_id_layout(skill, label, millis);
        lemma_decimal_is_numeral(millis);
        let first = skill.len() as int;
        let second: int = skill.len() as int + 1 + label.len();
        assert(agent_id.subrange(0, head.len() as int) =~= head);
        assert(rest[label.len() as int] == agent_id[second]);
        assert forall|i: int| 0 <= i < label.len() implies rest[i] != '-' by {
            assert(rest[i] == agent_id[first + 1 + i]);
        }
        assert(at == label.len()) by {
            if at < label.len() {
                assert(rest[at] == '-');
            }
        }
        assert(rest.subrange(at + 1, rest.len() as int) =~= decimal(millis));
    }
}

/// An agent id belongs to one skill at most, whatever hyphens the names of
/// the skills hold.
pub proof fn lemma_owner_unique(agent_id: Seq<char>, skill: Seq<char>, other: Seq<char>)
    requires
        belongs_to(agent_id, skill),
        belongs_to(agent_id, other),
    ensures
        skill == other,
{
    let (label, millis) = choose|label: Seq<char>, millis: nat|
        !has_char(label, '-') && agent_id == #[trigger] agent_id_text(skill, label, millis);
    let (label2, millis2) = choose|label2: Seq<char>, millis2: nat|
        !has_char(label2, '-') && agent_id == #[trigger] agent_id_text(other, label2, millis2);
    lemma_id_layout(skill, label, millis);
    lemma_id_layout(other, label2, millis2);
    let first = skill.len() as int;
    let second: int = skill.len() as int + 1 + label.len();
    let first2 = other.len() as int;
    let second2: int = other.len() as int + 1 + label2.len();
    assert(agent_id[second] == '-' && agent_id[second2] == '-');
    assert(second == second2);
    assert(agent_id[first] == '-' && agent_id[first2] == '-');
    assert(first == first2);
}

/// An agent is owned by `skills` where it belongs to one of them.
pub open spec fn is_owned(agent_id: Seq<char>, skills: Seq<Seq<char>>) -> bool {
    exists|k: int| 0 <= k < skills.len() && belongs_to(agent_id, #[trigger] skills[k])
}

/// The agent ids that are owned by `skills`.
pub open spec fn owned_ids(skills: Seq<Seq<char>>) -> Set<Seq<char>> {
    Set::new(|id: Seq<char>| is_owned(id, skills))
}

/// The workers of a skill that is not among `skills` are not owned by
/// them, and stay in a registry that the owned workers leave.
pub proof fn lemma_other_skills_keep_agents(
    live: Map<Seq<char>, u64>,
    skills: Seq<Seq<char>>,
    skill: Seq<char>,
    agent_id: Seq<char>,
)
    requires
        belongs_to(agent_id, skill),
        !skills.contains(skill),
    ensures
        !is_owned(agent_id, skills),
        live.remove_keys(owned_ids(skills)).dom().contains(agent_id) == live.dom().contains(
            agent_id,
        ),
        live.dom().contains(agent_id) ==> live.remove_keys(owned_ids(skills))[agent_id]
            == live[agent_id],
{
    if is_owned(agent_id, skills) {
        let k = choose|k: int| 0 <= k < skills.len() && belongs_to(agent_id, #[trigger] skills[k]);
        lemma_owner_unique(agent_id, skill, skills[k]);
        assert(skills.contains(skills[k]));
    }
}

/// Whether `agent_id` is an id that the engine makes for `skill`.
pub fn agent_belongs_to(agent_id: &str, skill: &str) -> (r: bool)
    ensures
        r == belongs_to(agent_id@, skill@),
{
    proof {
        lemma_id_shape(agent_id@, skill@);
    }
    let mut head = String::from_str(skill);
    head.append("-");
    if !starts_with(agent_id, head.as_str()) {
        return false;
    }
    let rest = agent_id.substring_char(head.as_str().unicode_len(), agent_id.unicode_len());
    let at = find_char(rest, '-');
    let n = rest.unicode_len();
    if at >= n {
        return false;
    }
    is_decimal_numeral(rest.substring_char(at + 1, n))
}

fn agent_is_owned(agent_id: &str, skills: &Vec<String>) -> (r: bool)
    ensures
        r == is_owned(agent_id@, texts(skills@)),
{
    let mut k: usize = 0;
    while k < skills.len()
        invariant
            k <= skills.len(),
            forall|j: int| 0 <= j < k ==> !belongs_to(agent_id@, #[trigger] texts(skills@)[j]),
        decreases skills.len() - k,
    {
        assert(texts(skills@)[k as int] == skills@[k as int]@);
        if agent_belongs_to(agent_id, skills[k].as_str()) {
            return true;
        }
        k = k + 1;
    }
    false
}

/// Takes out of the registry every worker that belongs to one of `skills`,
/// and gives the entries, each once, whose processes are to be killed. The
/// workers of every other skill stay.
pub fn cancel_owned_agents(registry: &mut AgentRegistry, skills: &Vec<String>) -> (r: Vec<
    AgentEntry,
>)
    ensures
        final(registry)@ == old(registry)@.remove_keys(owned_ids(texts(skills@))),
        forall|i: int|
            0 <= i < r@.len() ==> is_owned(#[trigger] r@[i].agent_id@, texts(skills@)) && old(
                registry,
            )@.dom().contains(r@[i].agent_id@) && old(registry)@[r@[i].agent_id@] == r@[i].handle,
        forall|id: Seq<char>|
            old(registry)@.dom().contains(id) && is_owned(id, texts(skills@)) ==> #[trigger] entry_ids(
                r@,
            ).contains(id),
        entry_ids(r@).no_duplicates(),
        skills@.len() == 0 ==> r@.len() == 0,
{
    let ids = registry.agent_ids();
    let mut out: Vec<AgentEntry> = Vec::new();
    let mut i: usize = 0;
    let ghost start = registry@;
    let ghost names = texts(skills@);
    assert(start.remove_keys(
        Set::new(|id: Seq<char>| is_owned(id, names) && texts(ids@).subrange(0, 0).contains(id)),
    ) =~= start);
    while i < ids.len()
        invariant
            i <= ids.len(),
            names == texts(skills@),
            start == old(registry)@,
            texts(ids@).no_duplicates(),
            forall|id: Seq<char>| texts(ids@).contains(id) <==> start.dom().contains(id),
            registry@ == start.remove_keys(
                Set::new(
                    |id: Seq<char>|
                        is_owned(id, names) && texts(ids@).subrange(0, i as int).contains(id),
                ),
            ),
            forall|k: int|
                0 <= k < out@.len() ==> is_owned(#[trigger] out@[k].agent_id@, names)
                    && start.dom().contains(out@[k].agent_id@) && start[out@[k].agent_id@]
                    == out@[k].handle,
            forall|id: Seq<char>|
                is_owned(id, names) && texts(ids@).subrange(0, i as int).contains(id)
                    ==> #[trigger] entry_ids(out@).contains(id),
            entry_ids(out@).no_duplicates(),
            forall|k: int|
                0 <= k < out@.len() ==> texts(ids@).subrange(0, i as int).contains(
                    #[trigger] entry_ids(out@)[k],
                ),
            skills@.len() == 0 ==> out@.len() == 0,
        decreases ids.len() - i,
    {
        let ghost id = ids@[i as int]@;
        let ghost seen = texts(ids@).subrange(0, i as int);
        let ghost grown = texts(ids@).subrange(0, i + 1);
        let ghost had = out@;
        let ghost reg_before = registry@;
        proof {
            assert(texts(ids@)[i as int] == id);
            assert(grown =~= seen.push(id));
            assert(texts(ids@).contains(id));
            assert(!seen.contains(id)) by {
                if seen.contains(id) {
                    let j = choose|j: int| 0 <= j < seen.len() && seen[j] == id;
                    assert(texts(ids@)[j] == id);
                }
            }
            assert(forall|x: Seq<char>| grown.contains(x) <==> (seen.contains(x) || x == id)) by {
                assert forall|x: Seq<char>| grown.contains(x) implies (seen.contains(x) || x
                    == id) by {
                    let j = choose|j: int| 0 <= j < grown.len() && grown[j] == x;
                    if j < seen.len() {
                        assert(seen[j] == x);
                    }
                }
                assert forall|x: Seq<char>| (seen.contains(x) || x == id) implies grown.contains(
                    x,
                ) by {
                    if seen.contains(x) {
                        let j = choose|j: int| 0 <= j < seen.len() && seen[j] == x;
                        assert(grown[j] == x);
                    } else {
                        assert(grown[seen.len() as int] == x);
                    }
                }
            }
        }
        if agent_is_owned(ids[i].as_str(), skills) {
            match registry.remove(ids[i].as_str()) {
                Some(handle) => {
                    out.push(AgentEntry { agent_id: ids[i].clone(), handle });
                    proof {
                        assert(entry_ids(out@) =~= entry_ids(had).push(id));
                        assert forall|a: int, b: int|
                            0 <= a < out@.len() && 0 <= b < out@.len() && a != b implies entry_ids(
                            out@,
                        )[a] != entry_ids(out@)[b] by {
                            if a < had.len() && b < had.len() {
                                assert(entry_ids(had)[a] != entry_ids(had)[b]);
                            } else if a < had.len() {
                                assert(seen.contains(entry_ids(had)[a]));
                            } else {
                                assert(seen.contains(entry_ids(had)[b]));
                            }
                        }
                        assert forall|x: Seq<char>|
                            is_owned(x, names) && grown.contains(x) implies #[trigger] entry_ids(
                            out@,
                        ).contains(x) by {
                            if x == id {
                                assert(entry_ids(out@)[had.len() as int] == x);
                            } else {
                                assert(entry_ids(had).contains(x));
                                let j = choose|j: int|
                                    0 <= j < entry_ids(had).len() && entry_ids(had)[j] == x;
                                assert(entry_ids(out@)[j] == x);
                            }
                        }
                    }
                },
                None => {
                    assert(false);
                },
            }
            assert(registry@ =~= start.remove_keys(
                Set::new(|x: Seq<char>| is_owned(x, names) && grown.contains(x)),
            ));
        } else {
            assert(Set::new(|x: Seq<char>| is_owned(x, names) && grown.contains(x)) =~= Set::new(
                |x: Seq<char>| is_owned(x, names) && seen.contains(x),
            ));
        }
        assert forall|k: int| 0 <= k < out@.len() implies grown.contains(
            #[trigger] entry_ids(out@)[k],
        ) by {
            if k < had.len() {
                assert(entry_ids(out@)[k] == entry_ids(had)[k]);
                assert(seen.contains(entry_ids(had)[k]));
            }
        }
        i = i + 1;
    }
    proof {
        assert(texts(ids@).subrange(0, ids@.len() as int) =~= texts(ids@));
        assert(registry@ =~= start.remove_keys(owned_ids(names)));
    }
    out
}

/// What a reconciliation pass did and found.
#[derive(Debug)]
pub struct ReconciliationResult {
    /// The skill of each orphaned session that was closed.
    pub orphaned: Vec<String>,
    /// The workers that were taken out of the registry with them.
    pub cancelled: Vec<AgentEntry>,
    /// The records without a directory, which were pruned.
    pub ghosts: Vec<String>,
    /// The directories without a record, which wait for a decision.
    pub discoveries: Vec<String>,
}

impl ReconciliationResult {
    /// How many repairs the pass made. A discovery is no repair: it waits
    /// for the caller.
    pub open spec fn actions(&self) -> nat {
        self.orphaned@.len() + self.cancelled@.len() + self.ghosts@.len()
    }

    /// How many repairs the pass made.
    pub fn action_count(&self) -> (r: u128)
        ensures
            r == self.actions(),
    {
        self.orphaned.len() as u128 + self.cancelled.len() as u128 + self.ghosts.len() as u128
    }
}

/// What one pass of reconciliation leaves behind. Sessions whose process is
/// gone are closed and the workers of their skills leave the registry;
/// recorded skills without a directory are pruned; directories without a
/// recorded skill are reported.
pub open spec fn is_reconciled(
    result: ReconciliationResult,
    rows: (Seq<SessionModel>, Seq<SessionModel>),
    recorded: (Seq<Seq<char>>, Seq<Seq<char>>),
    live: (Map<Seq<char>, u64>, Map<Seq<char>, u64>),
    on_disk: Seq<Seq<char>>,
    live_pids: Seq<u32>,
) -> bool {
    let orphaned = texts(result.orphaned@);
    &&& rows.1 == rows_reconciled(rows.0, live_pids)
    &&& orphaned == orphan_skills(rows.0, live_pids)
    &&& live.1 == live.0.remove_keys(owned_ids(orphaned))
    &&& forall|i: int|
        0 <= i < result.cancelled@.len() ==> is_owned(
            #[trigger] result.cancelled@[i].agent_id@,
            orphaned,
        ) && live.0.dom().contains(result.cancelled@[i].agent_id@)
            && live.0[result.cancelled@[i].agent_id@] == result.cancelled@[i].handle
    &&& forall|id: Seq<char>|
        live.0.dom().contains(id) && is_owned(id, orphaned) ==> #[trigger] entry_ids(
            result.cancelled@,
        ).contains(id)
    &&& entry_ids(result.cancelled@).no_duplicates()
    &&& result.orphaned@.len() == 0 ==> result.cancelled@.len() == 0
    &&& texts(result.ghosts@) == selected(recorded.0, on_disk, false)
    &&& recorded.1 == selected(recorded.0, on_disk, true)
    &&& texts(result.discoveries@) == selected(on_disk, recorded.0, false)
}

/// One pass of reconciliation over the sessions, the recorded skills and
/// the registry, given the skill directories on disk and the processes
/// that live.
pub fn reconcile_on_startup(
    sessions: &mut Vec<WorkflowSession>,
    recorded: &mut Vec<String>,
    registry: &mut AgentRegistry,
    on_disk: &Vec<String>,
    live_pids: &Vec<u32>,
) -> (r: ReconciliationResult)
    ensures
        is_reconciled(
            r,
            (session_models(old(sessions)@), session_models(final(sessions)@)),
            (texts(old(recorded)@), texts(final(recorded)@)),
            (old(registry)@, final(registry)@),
            texts(on_disk@),
            live_pids@,
        ),
{
    let orphaned = reconcile_orphaned_sessions(sessions, live_pids);
    let cancelled = cancel_owned_agents(registry, &orphaned);
    let ghosts = select_names(recorded, on_disk, false);
    let discoveries = select_names(on_disk, recorded, false);
    let kept = select_names(recorded, on_disk, true);
    *recorded = kept;
    ReconciliationResult { orphaned, cancelled, ghosts, discoveries }
}

/// The message for the first of the two paths that the settings do not
/// name.
pub open spec fn missing_path_text(settings: AppSettings) -> Seq<char> {
    if settings.workspace_path is None {
        "Workspace path not initialized"@
    } else {
        "Skills path not configured. Please set it in Settings."@
    }
}

/// The reconciliation of a cold start: as `reconcile_on_startup`, once the
/// settings name the workspace and the skills directory. Without them
/// nothing is touched.
pub fn reconcile_startup(
    settings: &AppSettings,
    sessions: &mut Vec<WorkflowSession>,
    recorded: &mut Vec<String>,
    registry: &mut AgentRegistry,
    on_disk: &Vec<String>,
    live_pids: &Vec<u32>,
) -> (r: Result<ReconciliationResult, OrchestratorError>)
    ensures
        r is Ok <==> (settings.workspace_path is Some && settings.skills_path is Some),
        match r {
            Ok(result) => is_reconciled(
                result,
                (session_models(old(sessions)@), session_models(final(sessions)@)),
                (texts(old(recorded)@), texts(final(recorded)@)),
                (old(registry)@, final(registry)@),
                texts(on_disk@),
                live_pids@,
            ),
            Err(e) => {
                &&& *final(sessions) == *old(sessions)
                &&& *final(recorded) == *old(recorded)
                &&& final(registry)@ == old(registry)@
                &&& e matches OrchestratorError::MissingSetting { reason } && reason@
                    == missing_path_text(*settings)
            },
        },
{
    match crate::settings::get_workspace_path(settings) {
        Ok(_) => {},
        Err(e) => {
            return Err(e);
        },
    }
    match crate::settings::get_skills_path(settings) {
        Ok(_) => {},
        Err(e) => {
            return Err(e);
        },
    }
    Ok(reconcile_on_startup(sessions, recorded, registry, on_disk, live_pids))
}

/// Whether an orphaned session stands in the way of new work on
/// `skill_name`.
pub open spec fn has_orphan_on(
    rows: Seq<SessionModel>,
    live_pids: Seq<u32>,
    skill_name: Seq<char>,
) -> bool {
    exists|i: int|
        0 <= i < rows.len() && is_orphan(#[trigger] rows[i], live_pids) && rows[i].skill_name
            == skill_name
}

/// Whether new work on `skill_name` has to wait for a reconciliation: a
/// session on that skill is open though its process is gone.
pub fn is_orphaned_skill(
    sessions: &Vec<WorkflowSession>,
    live_pids: &Vec<u32>,
    skill_name: &str,
) -> (r: bool)
    ensures
        r == has_orphan_on(session_models(sessions@), live_pids@, skill_name@),
{
    let mut i: usize = 0;
    while i < sessions.len()
        invariant
            i <= sessions.len(),
            forall|k: int|
                0 <= k < i ==> !(is_orphan(#[trigger] session_models(sessions@)[k], live_pids@)
                    && session_models(sessions@)[k].skill_name == skill_name@),
        decreases sessions.len() - i,
    {
        assert(session_models(sessions@)[i as int] == sessions@[i as int]@);
        if sessions[i].open && !pid_is_live(live_pids, sessions[i].pid) && str_equal(
            sessions[i].skill_name.as_str(),
            skill_name,
        ) {
            return true;
        }
        i = i + 1;
    }
    false
}

/// The message for new work on a skill that waits for a reconciliation.
pub open spec fn unreconciled_text(skill_name: Seq<char>) -> Seq<char> {
    "Skill '"@ + skill_name + "' has a session whose process is gone. Reconcile before new work."@
}

/// Refuses new work on `skill_name` as long as a session on that skill is
/// open though its process is gone.
pub fn check_reconciled(
    sessions: &Vec<WorkflowSession>,
    live_pids: &Vec<u32>,
    skill_name: &str,
) -> (r: Result<(), OrchestratorError>)
    ensures
        r is Ok <==> !has_orphan_on(session_models(sessions@), live_pids@, skill_name@),
        r matches Err(e) ==> (e matches OrchestratorError::OperationRefused { reason } && reason@
            == unreconciled_text(skill_name@)),
{
    if is_orphaned_skill(sessions, live_pids, skill_name) {
        let mut reason = String::from_str("Skill '");
        reason.append(skill_name);
        reason.append("' has a session whose process is gone. Reconcile before new work.");
        Err(OrchestratorError::OperationRefused { reason })
    } else {
        Ok(())
    }
}

/// Once the sessions are reconciled, no orphaned session stands in the way
/// of new work on any skill.
pub proof fn lemma_reconciled_has_no_orphan(
    rows: Seq<SessionModel>,
    live_pids: Seq<u32>,
    skill_name: Seq<char>,
)
    ensures
        !has_orphan_on(rows_reconciled(rows, live_pids), live_pids, skill_name),
{
}

/// A second pass right after a first finds nothing to repair: no session
/// is orphaned, no worker leaves the registry, no record is a ghost, and
/// the sessions, the registry and the recorded skills stay as the first pass
/// left them. The discoveries are the same as before: they wait for the
/// caller.
pub proof fn lemma_reconcile_idempotent(
    rows: Seq<SessionModel>,
    recorded: Seq<Seq<char>>,
    live: Map<Seq<char>, u64>,
    on_disk: Seq<Seq<char>>,
    live_pids: Seq<u32>,
)
    ensures
        ({
            let rows1 = rows_reconciled(rows, live_pids);
            let recorded1 = selected(recorded, on_disk, true);
            let live1 = live.remove_keys(owned_ids(orphan_skills(rows, live_pids)));
            &&& orphan_skills(rows1, live_pids) == Seq::<Seq<char>>::empty()
            &&& rows_reconciled(rows1, live_pids) == rows1
            &&& live1.remove_keys(owned_ids(orphan_skills(rows1, live_pids))) == live1
            &&& selected(recorded1, on_disk, false) == Seq::<Seq<char>>::empty()
            &&& selected(recorded1, on_disk, true) == recorded1
            &&& selected(on_disk, recorded1, false) == selected(on_disk, recorded, false)
        }),
{
    let rows1 = rows_reconciled(rows, live_pids);
    let recorded1 = selected(recorded, on_disk, true);
    let live1 = live.remove_keys(owned_ids(orphan_skills(rows, live_pids)));
    lemma_no_orphan_left(rows1, live_pids);
    assert(rows_reconciled(rows1, live_pids) =~= rows1);
    assert(owned_ids(Seq::<Seq<char>>::empty()) =~= Set::<Seq<char>>::empty());
    assert(live1.remove_keys(Set::<Seq<char>>::empty()) =~= live1);
    assert forall|i: int| 0 <= i < recorded1.len() implies on_disk.contains(
        #[trigger] recorded1[i],
    ) == true by {
        assert(recorded1.contains(recorded1[i]));
        lemma_selected_members(recorded, on_disk, true, recorded1[i]);
    }
    lemma_selected_again(recorded1, on_disk, true);
    lemma_same_discoveries(on_disk, recorded, recorded1, on_disk.len() as int);
    assert(on_disk.subrange(0, on_disk.len() as int) =~= on_disk);
}

proof fn lemma_no_orphan_left(rows: Seq<SessionModel>, live_pids: Seq<u32>)
    requires
        forall|i: int| 0 <= i < rows.len() ==> !is_orphan(#[trigger] rows[i], live_pids),
    ensures
        orphan_skills(rows, live_pids) == Seq::<Seq<char>>::empty(),
    decreases rows.len(),
{
    if rows.len() > 0 {
        let rest = rows.drop_last();
        assert forall|i: int| 0 <= i < rest.len() implies !is_orphan(
            #[trigger] rest[i],
            live_pids,
        ) by {
            assert(rest[i] == rows[i]);
        }
        lemma_no_orphan_left(rest, live_pids);
        assert(!is_orphan(rows[rows.len() - 1], live_pids));
    }
}

/// Pruning the ghosts does not change which directories have no record.
proof fn lemma_same_discoveries(
    on_disk: Seq<Seq<char>>,
    recorded: Seq<Seq<char>>,
    recorded1: Seq<Seq<char>>,
    n: int,
)
    requires
        recorded1 == selected(recorded, on_disk, true),
        0 <= n <= on_disk.len(),
    ensures
        selected(on_disk.subrange(0, n), recorded1, false) == selected(
            on_disk.subrange(0, n),
            recorded,
            false,
        ),
    decreases n,
{
    if n > 0 {
        let part = on_disk.subrange(0, n);
        lemma_same_discoveries(on_disk, recorded, recorded1, n - 1);
        assert(part.drop_last() =~= on_disk.subrange(0, n - 1));
        let name = part.last();
        assert(name == on_disk[n - 1]);
        lemma_selected_members(recorded, on_disk, true, name);
        assert(on_disk.contains(name));
    }
}

/// A directory is a skill directory by its name where the name is not
/// empty and does not begin with a full stop, as the names of hidden
/// directories do.
pub open spec fn is_skill_dir(name: Seq<char>) -> bool {
    name.len() > 0 && name[0] != '.'
}

/// Whether a directory of the skills directory counts as a skill.
pub fn is_skill_dir_name(name: &str) -> (r: bool)
    ensures
        r == is_skill_dir(name@),
{
    name.unicode_len() > 0 && name.get_char(0) != '.'
}

/// Whether `s` has a full stop at `i` and another right after it.
pub open spec fn dots_at(s: Seq<char>, i: int) -> bool {
    s[i] == '.' && s[i + 1] == '.'
}

/// Whether two neighbours in `s` are both full stops.
pub open spec fn has_double_dot(s: Seq<char>) -> bool {
    exists|i: int| 0 <= i < s.len() - 1 && #[trigger] dots_at(s, i)
}

/// A skill name is safe as the name of a directory where it is not empty
/// and holds neither a separator of path segments nor two full stops in a
/// row.
pub open spec fn is_safe_skill_name(name: Seq<char>) -> bool {
    &&& name.len() > 0
    &&& !has_char(name, '/')
    &&& !has_char(name, '\\')
    &&& !has_double_dot(name)
}

fn find_double_dot(s: &str) -> (r: bool)
    ensures
        r == has_double_dot(s@),
{
    let n = s.unicode_len();
    if n < 2 {
        return false;
    }
    let mut i: usize = 0;
    while i < n - 1
        invariant
            n == s@.len(),
            n >= 2,
            i <= n - 1,
            forall|k: int| 0 <= k < i ==> !#[trigger] dots_at(s@, k),
        decreases n - i,
    {
        if s.get_char(i) == '.' && s.get_char(i + 1) == '.' {
            assert(dots_at(s@, i as int));
            return true;
        }
        i = i + 1;
    }
    false
}

/// Refuses a skill name that could lead out of the directory it is joined
/// to.
pub fn validate_skill_name(name: &str) -> (r: Result<(), OrchestratorError>)
    ensures
        r is Ok <==> is_safe_skill_name(name@),
        r matches Err(e) ==> (e matches OrchestratorError::PathTraversalRejected { label }
            && label@ == "skill name"@),
{
    let n = name.unicode_len();
    if n == 0 || find_char(name, '/') < n || find_char(name, '\\') < n || find_double_dot(name) {
        Err(OrchestratorError::PathTraversalRejected { label: String::from_str("skill name") })
    } else {
        Ok(())
    }
}

/// How a host writes its paths.
#[derive(Clone, Copy, Debug, PartialEq, Eq, Structural)]
pub enum PathStyle {
    /// A slash stands between segments; a backslash is a character of a
    /// name.
    Slash,
    /// A backslash or a slash stands between segments.
    Backslash,
}

/// Whether `c` stands between the segments of a path.
pub open spec fn is_separator(c: char, style: PathStyle) -> bool {
    c == '/' || (style == PathStyle::Backslash && c == '\\')
}

/// Whether the canonical path `child` is `parent` or lies below it, segment
/// by segment: it begins with `parent`, and `parent` ends where a segment
/// of `child` ends. Both are absolute paths without `.` and `..`, as the
/// resolution of a path on disk gives them.
pub open spec fn is_within(parent: Seq<char>, child: Seq<char>, style: PathStyle) -> bool {
    &&& has_prefix(child, parent)
    &&& {
        ||| child.len() == parent.len()
        ||| (parent.len() > 0 && is_separator(parent.last(), style))
        ||| is_separator(child[parent.len() as int], style)
    }
}

fn char_is_separator(c: char, style: PathStyle) -> (r: bool)
    ensures
        r == is_separator(c, style),
{
    c == '/' || (c == '\\' && match style {
        PathStyle::Backslash => true,
        PathStyle::Slash => false,
    })
}

/// Whether the canonical path `child` is `parent` or lies below it.
pub fn path_is_within(parent: &str, child: &str, style: PathStyle) -> (r: bool)
    ensures
        r == is_within(parent@, child@, style),
{
    if !starts_with(child, parent) {
        return false;
    }
    let n = parent.unicode_len();
    if child.unicode_len() == n {
        return true;
    }
    if n > 0 && char_is_separator(parent.get_char(n - 1), style) {
        return true;
    }
    char_is_separator(child.get_char(n), style)
}

/// A directory and what joining a name to it leads to: both as canonical
/// paths, the second only where something exists under the joined path,
/// and the style in which the host writes them.
#[derive(Debug)]
pub struct PathCheck {
    pub canonical_parent: String,
    pub canonical_child: Option<String>,
    pub style: PathStyle,
}

/// Whether the check shows a path that left its directory.
pub open spec fn escapes(check: PathCheck) -> bool {
    check.canonical_child matches Some(child) && !is_within(
        check.canonical_parent@,
        child@,
        check.style,
    )
}

/// Refuses a joined path that exists and lies outside of its directory. A
/// path under which nothing exists yet is accepted.
pub fn validate_path_within(check: &PathCheck, label: &str) -> (r: Result<(), OrchestratorError>)
    ensures
        r is Ok <==> !escapes(*check),
        r matches Err(e) ==> (e matches OrchestratorError::PathTraversalRejected { label: x }
            && x@ == label@),
{
    match &check.canonical_child {
        None => Ok(()),
        Some(child) => {
            if path_is_within(check.canonical_parent.as_str(), child.as_str(), check.style) {
                Ok(())
            } else {
                Err(
                    OrchestratorError::PathTraversalRejected { label: String::from_str(label) },
                )
            }
        },
    }
}

/// What the caller decides of a discovery.
#[derive(Clone, Copy, Debug, PartialEq, Eq, Structural)]
pub enum DiscoveryAction {
    /// Adopt it as a run of the builder that is already through.
    AddSkillBuilder,
    /// Adopt it as a skill that was imported.
    AddImported,
    /// Delete it from disk.
    Remove,
}

/// The decision that a word names.
pub open spec fn discovery_action_of(action: Seq<char>) -> Option<DiscoveryAction> {
    if action == "add-skill-builder"@ {
        Some(DiscoveryAction::AddSkillBuilder)
    } else if action == "add-imported"@ {
        Some(DiscoveryAction::AddImported)
    } else if action == "remove"@ {
        Some(DiscoveryAction::Remove)
    } else {
        None
    }
}

/// The message for a word that names no decision on a discovery.
pub open spec fn invalid_discovery_text(action: Seq<char>) -> Seq<char> {
    "Invalid discovery action: '"@ + action
        + "'. Expected 'add-skill-builder', 'add-imported', or 'remove'."@
}

/// Reads the caller's decision on a discovery.
pub fn parse_discovery_action(action: &str) -> (r: Result<DiscoveryAction, OrchestratorError>)
    ensures
        match r {
            Ok(a) => discovery_action_of(action@) == Some(a),
            Err(e) => discovery_action_of(action@) is None && (e
                matches OrchestratorError::InvalidAction { reason } && reason@
                == invalid_discovery_text(action@)),
        },
{
    if str_equal(action, "add-skill-builder") {
        Ok(DiscoveryAction::AddSkillBuilder)
    } else if str_equal(action, "add-imported") {
        Ok(DiscoveryAction::AddImported)
    } else if str_equal(action, "remove") {
        Ok(DiscoveryAction::Remove)
    } else {
        let mut reason = String::from_str("Invalid discovery action: '");
        reason.append(action);
        reason.append("'. Expected 'add-skill-builder', 'add-imported', or 'remove'.");
        Err(OrchestratorError::InvalidAction { reason })
    }
}

/// One thing to do for a discovery, in the order given. A step on a
/// directory is taken only where that directory is there.
#[derive(Clone, Copy, Debug, PartialEq, Eq, Structural)]
pub enum DiscoveryStep {
    /// Store a run of the skill at the last worker step, completed.
    SaveCompletedRun { step: i64 },
    /// Store the skill as imported.
    SaveImported,
    /// Make the directory of the skill in the workspace.
    CreateWorkspaceDir,
    /// Delete the directory `context` of the skill.
    ClearContextDir,
    /// Delete the directory of the skill.
    RemoveSkillDir,
}

/// The step at which an adopted skill stands.
pub const ADOPTED_STEP: i64 = 5;

/// What each decision takes: the store first, the disk second.
pub open spec fn discovery_steps(action: DiscoveryAction) -> Seq<DiscoveryStep> {
    match action {
        DiscoveryAction::AddSkillBuilder => seq![
            DiscoveryStep::SaveCompletedRun { step: ADOPTED_STEP },
            DiscoveryStep::CreateWorkspaceDir,
        ],
        DiscoveryAction::AddImported => seq![
            DiscoveryStep::SaveImported,
            DiscoveryStep::ClearContextDir,
        ],
        DiscoveryAction::Remove => seq![DiscoveryStep::RemoveSkillDir],
    }
}

/// The directory whose bounds an action has to keep: the workspace for a
/// builder skill, the skills directory else.
pub open spec fn checked_path(
    action: DiscoveryAction,
    workspace: PathCheck,
    skills: PathCheck,
) -> PathCheck {
    if action == DiscoveryAction::AddSkillBuilder {
        workspace
    } else {
        skills
    }
}

/// What `resolve_discovery` gives: the steps of the action, unless the
/// name is unsafe, the action unknown or the path outside of its
/// directory, in this order.
pub open spec fn discovery_resolution(
    skill_name: Seq<char>,
    action: Seq<char>,
    workspace: PathCheck,
    skills: PathCheck,
) -> Option<Seq<DiscoveryStep>> {
    if !is_safe_skill_name(skill_name) {
        None
    } else {
        match discovery_action_of(action) {
            None => None,
            Some(a) => if escapes(checked_path(a, workspace, skills)) {
                None
            } else {
                Some(discovery_steps(a))
            },
        }
    }
}

/// Decides what to do with a directory that has no record. Nothing is to
/// be done, on disk or in the store, unless the result is `Ok`.
pub fn resolve_discovery(
    skill_name: &str,
    action: &str,
    workspace: &PathCheck,
    skills: &PathCheck,
) -> (r: Result<Vec<DiscoveryStep>, OrchestratorError>)
    ensures
        match r {
            Ok(steps) => discovery_resolution(skill_name@, action@, *workspace, *skills) == Some(
                steps@,
            ),
            Err(e) => discovery_resolution(skill_name@, action@, *workspace, *skills) is None
                && (if !is_safe_skill_name(skill_name@) {
                e matches OrchestratorError::PathTraversalRejected { label } && label@
                    == "skill name"@
            } else if discovery_action_of(action@) is None {
                e matches OrchestratorError::InvalidAction { reason } && reason@
                    == invalid_discovery_text(action@)
            } else if discovery_action_of(action@) == Some(DiscoveryAction::AddSkillBuilder) {
                e matches OrchestratorError::PathTraversalRejected { label } && label@
                    == "workspace_path"@
            } else {
                e matches OrchestratorError::PathTraversalRejected { label } && label@
                    == "skills_path"@
            }),
        },
{
    match validate_skill_name(skill_name) {
        Err(e) => {
            return Err(e);
        },
        Ok(()) => {},
    }
    let chosen = match parse_discovery_action(action) {
        Err(e) => {
            return Err(e);
        },
        Ok(a) => a,
    };
    let mut steps: Vec<DiscoveryStep> = Vec::new();
    match chosen {
        DiscoveryAction::AddSkillBuilder => {
            match validate_path_within(workspace, "workspace_path") {
                Err(e) => {
                    return Err(e);
                },
                Ok(()) => {},
            }
            steps.push(DiscoveryStep::SaveCompletedRun { step: ADOPTED_STEP });
            steps.push(DiscoveryStep::CreateWorkspaceDir);
        },
        DiscoveryAction::AddImported => {
            match validate_path_within(skills, "skills_path") {
                Err(e) => {
                    return Err(e);
                },
                Ok(()) => {},
            }
            steps.push(DiscoveryStep::SaveImported);
            steps.push(DiscoveryStep::ClearContextDir);
        },
        DiscoveryAction::Remove => {
            match validate_path_within(skills, "skills_path") {
                Err(e) => {
                    return Err(e);
                },
                Ok(()) => {},
            }
            steps.push(DiscoveryStep::RemoveSkillDir);
        },
    }
    assert(steps@ =~= discovery_steps(chosen));
    Ok(steps)
}

/// What the caller decides of a record whose directory is gone.
#[derive(Clone, Copy, Debug, PartialEq, Eq, Structural)]
pub enum OrphanAction {
    /// Drop the record and what is left of the skill on disk.
    Delete,
    /// Keep the record and begin the run anew.
    Keep,
}

/// The decision that a word names.
pub open spec fn orphan_action_of(action: Seq<char>) -> Option<OrphanAction> {
    if action == "delete"@ {
        Some(OrphanAction::Delete)
    } else if action == "keep"@ {
        Some(OrphanAction::Keep)
    } else {
        None
    }
}

/// The message for a word that names no decision on an orphaned record.
pub open spec fn invalid_orphan_text(action: Seq<char>) -> Seq<char> {
    "Invalid orphan action: '"@ + action + "'. Expected 'delete' or 'keep'."@
}

/// Reads the caller's decision on a record whose directory is gone.
pub fn resolve_orphan(action: &str) -> (r: Result<OrphanAction, OrchestratorError>)
    ensures
        match r {
            Ok(a) => orphan_action_of(action@) == Some(a),
            Err(e) => orphan_action_of(action@) is None && (e
                matches OrchestratorError::InvalidAction { reason } && reason@
                == invalid_orphan_text(action@)),
        },
{
    if str_equal(action, "delete") {
        Ok(OrphanAction::Delete)
    } else if str_equal(action, "keep") {
        Ok(OrphanAction::Keep)
    } else {
        let mut reason = String::from_str("Invalid orphan action: '");
        reason.append(action);
        reason.append("'. Expected 'delete' or 'keep'.");
        Err(OrchestratorError::InvalidAction { reason })
    }
}

/// How many of `resolved` are `false`.
pub open spec fn failures(resolved: Seq<bool>) -> nat
    decreases resolved.len(),
{
    if resolved.len() == 0 {
        0
    } else if resolved.last() {
        failures(resolved.drop_last())
    } else {
        failures(resolved.drop_last()) + 1
    }
}

/// No more items fail than were tried.
pub proof fn lemma_failures_bound(resolved: Seq<bool>)
    ensures
        failures(resolved) <= resolved.len(),
    decreases resolved.len(),
{
    if resolved.len() > 0 {
        lemma_failures_bound(resolved.drop_last());
    }
}

/// Sums up a sweep in which each item was tried, whatever became of the
/// items before it: a failure of the sweep where some item did not resolve,
/// with their number.
pub fn summarize_sweep(resolved: &Vec<bool>) -> (r: Result<(), OrchestratorError>)
    ensures
        match r {
            Ok(()) => failures(resolved@) == 0,
            Err(e) => failures(resolved@) > 0 && e
                == (OrchestratorError::ReconciliationPartialFailure {
                failed: failures(resolved@) as usize,
            }),
        },
{
    let mut failed: usize = 0;
    let mut i: usize = 0;
    while i < resolved.len()
        invariant
            i <= resolved.len(),
            failed == failures(resolved@.subrange(0, i as int)),
            failed <= i,
        decreases resolved.len() - i,
    {
        proof {
            let grown = resolved@.subrange(0, i + 1);
            assert(grown.drop_last() =~= resolved@.subrange(0, i as int));
            assert(grown.last() == resolved@[i as int]);
        }
        if !resolved[i] {
            failed = failed + 1;
        }
        i = i + 1;
    }
    assert(resolved@.subrange(0, resolved.len() as int) =~= resolved@);
    if failed == 0 {
        Ok(())
    } else {
        Err(OrchestratorError::ReconciliationPartialFailure { failed })
    }
}

/// The message of a commit that takes in the directories `untracked`.
pub open spec fn auto_commit_text(untracked: Seq<Seq<char>>) -> Seq<char> {
    "auto-commit new skill folders: "@ + joined(untracked, ", "@)
}

/// The message of the commit that takes in the directories which version
/// control does not track yet, or `None` where there is no such directory.
pub fn auto_commit_message(untracked: &Vec<String>) -> (r: Option<String>)
    ensures
        match r {
            Some(message) => untracked@.len() > 0 && message@ == auto_commit_text(
                texts(untracked@),
            ),
            None => untracked@.len() == 0,
        },
{
    if untracked.len() == 0 {
        return None;
    }
    let mut message = String::from_str("auto-commit new skill folders: ");
    let names = join(untracked, ", ");
    message.append(names.as_str());
    Some(message)
}

} // verus!
