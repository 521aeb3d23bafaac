//! The state block of a workflow in a markdown file: lines such as
//! `- **Status**: in_progress`.

use vstd::prelude::*;
use vstd::string::*;
use crate::text::{clone_option, option_text, str_equal, trim, trimmed};

verus! {

/// The pattern of one line of the state block: a key between two pairs of
/// asterisks, a colon, and the value up to the end of the line.
pub const STATE_PATTERN: &'static str = "\\*\\*([^*]+)\\*\\*:\\s*(.+)";

/// What a state block tells of a workflow.
#[derive(Debug)]
pub struct WorkflowState {
    pub skill_name: Option<String>,
    pub domain: Option<String>,
    pub current_step: Option<String>,
    pub status: Option<String>,
    pub completed_steps: Option<String>,
    pub timestamp: Option<String>,
    pub notes: Option<String>,
}

/// A workflow state as plain text.
pub ghost struct WorkflowStateModel {
    pub skill_name: Option<Seq<char>>,
    pub domain: Option<Seq<char>>,
    pub current_step: Option<Seq<char>>,
    pub status: Option<Seq<char>>,
    pub completed_steps: Option<Seq<char>>,
    pub timestamp: Option<Seq<char>>,
    pub notes: Option<Seq<char>>,
}

impl View for WorkflowState {
    type V = WorkflowStateModel;

    open spec fn view(&self) -> WorkflowStateModel {
        WorkflowStateModel {
            skill_name: option_text(self.skill_name),
            domain: option_text(self.domain),
            current_step: option_text(self.current_step),
            status: option_text(self.status),
            completed_steps: option_text(self.completed_steps),
            timestamp: option_text(self.timestamp),
            notes: option_text(self.notes),
        }
    }
}

/// The state that tells nothing.
pub open spec fn empty_state() -> WorkflowStateModel {
    WorkflowStateModel {
        skill_name: None,
        domain: None,
        current_step: None,
        status: None,
        completed_steps: None,
        timestamp: None,
        notes: None,
    }
}

impl Clone for WorkflowState {
    fn clone(&self) -> (r: WorkflowState)
        ensures
            r@ == self@,
    {
        WorkflowState {
            skill_name: clone_option(&self.skill_name),
            domain: clone_option(&self.domain),
            current_step: clone_option(&self.current_step),
            status: clone_option(&self.status),
            completed_steps: clone_option(&self.completed_steps),
            timestamp: clone_option(&self.timestamp),
            notes: clone_option(&self.notes),
        }
    }
}

impl Default for WorkflowState {
    fn default() -> (r: WorkflowState)
        ensures
            r@ == empty_state(),
    {
        WorkflowState {
            skill_name: None,
            domain: None,
            current_step: None,
            status: None,
            completed_steps: None,
            timestamp: None,
            notes: None,
        }
    }
}

/// The state with `value` under the key `key`, where the key is one of the
/// seven that a state has, written in lower case.
pub open spec fn with_field(
    state: WorkflowStateModel,
    key: Seq<char>,
    value: Seq<char>,
) -> WorkflowStateModel {
    if key == "skill name"@ {
        WorkflowStateModel { skill_name: Some(value), ..state }
    } else if key == "domain"@ {
        WorkflowStateModel { domain: Some(value), ..state }
    } else if key == "current step"@ {
        WorkflowStateModel { current_step: Some(value), ..state }
    } else if key == "status"@ {
        WorkflowStateModel { status: Some(value), ..state }
    } else if key == "completed steps"@ {
        WorkflowStateModel { completed_steps: Some(value), ..state }
    } else if key == "timestamp"@ {
        WorkflowStateModel { timestamp: Some(value), ..state }
    } else if key == "notes"@ {
        WorkflowStateModel { notes: Some(value), ..state }
    } else {
        state
    }
}

/// Stores `value` under `key`. A key that a state does not have changes
/// nothing.
pub fn set_field(state: &mut WorkflowState, key: &str, value: String)
    ensures
        final(state)@ == with_field(old(state)@, key@, value@),
{
    if str_equal(key, "skill name") {
        state.skill_name = Some(value);
    } else if str_equal(key, "domain") {
        state.domain = Some(value);
    } else if str_equal(key, "current step") {
        state.current_step = Some(value);
    } else if str_equal(key, "status") {
        state.status = Some(value);
    } else if str_equal(key, "completed steps") {
        state.completed_steps = Some(value);
    } else if str_equal(key, "timestamp") {
        state.timestamp = Some(value);
    } else if str_equal(key, "notes") {
        state.notes = Some(value);
    }
}

/// What `str::to_lowercase` makes of a text.
pub uninterp spec fn lowercase(text: Seq<char>) -> Seq<char>;

/// `str::to_lowercase`: the lower-case form of `text`, which depends on
/// `text` alone.
#[verifier::external_body]
fn to_lowercase(text: &str) -> (r: String)
    ensures
        r@ == lowercase(text@),
{
    text.to_lowercase()
}

/// The matches of the regular expression `pattern` in `haystack`, from left
/// to right and without overlap. Each match is the text of its capture
/// groups, the whole match first, with `None` for a group that took no
/// part. `None` where `pattern` does not compile: it is no regular
/// expression, or one that is too large.
pub uninterp spec fn regex_captures(pattern: Seq<char>, haystack: Seq<char>) -> Option<
    Seq<Seq<Option<Seq<char>>>>,
>;

/// `regex::Regex::new` and `regex::Regex::captures_iter`: compiles
/// `pattern` and collects the capture groups of each successive match in
/// `haystack`. The result depends on the two texts alone.
#[verifier::external_body]
fn capture_all(pattern: &str, haystack: &str) -> (r: Option<Vec<Vec<Option<String>>>>)
    ensures
        r.deep_view() == regex_captures(pattern@, haystack@),
{
    match regex::Regex::new(pattern) {
        Ok(re) => Some(
            re.captures_iter(haystack).map(
                |c| c.iter().map(|m| m.map(|g| g.as_str().to_string())).collect(),
            ).collect(),
        ),
        Err(_) => None,
    }
}

/// The state after one match: its first group is the key, trimmed and in
/// lower case, its second the value, trimmed. A match without these two
/// groups changes nothing.
pub open spec fn with_capture(
    state: WorkflowStateModel,
    groups: Seq<Option<Seq<char>>>,
) -> WorkflowStateModel {
    if groups.len() >= 3 && groups[1] is Some && groups[2] is Some {
        with_field(state, lowercase(trimmed(groups[1]->0)), trimmed(groups[2]->0))
    } else {
        state
    }
}

/// The state after each of `captures`, in order: a later match of a key
/// takes the place of an earlier one.
pub open spec fn with_captures(
    state: WorkflowStateModel,
    captures: Seq<Seq<Option<Seq<char>>>>,
) -> WorkflowStateModel
    decreases captures.len(),
{
    if captures.len() == 0 {
        state
    } else {
        with_capture(with_captures(state, captures.drop_last()), captures.last())
    }
}

/// Stores what one match tells.
pub fn apply_capture(state: &mut WorkflowState, groups: &Vec<Option<String>>)
    ensures
        final(state)@ == with_capture(old(state)@, groups.deep_view()),
{
    if groups.len() < 3 {
        return ;
    }
    assert(groups.deep_view()[1] == groups@[1].deep_view());
    assert(groups.deep_view()[2] == groups@[2].deep_view());
    match (&groups[1], &groups[2]) {
        (Some(raw_key), Some(raw_value)) => {
            let key = to_lowercase(trim(raw_key.as_str()));
            let value = String::from_str(trim(raw_value.as_str()));
            set_field(state, key.as_str(), value);
        },
        _ => {},
    }
}

/// The state that a run of matches tells.
pub fn workflow_state_from_captures(captures: &Vec<Vec<Option<String>>>) -> (r: WorkflowState)
    ensures
        r@ == with_captures(empty_state(), captures.deep_view()),
{
    let mut state = WorkflowState::default();
    let mut i: usize = 0;
    while i < captures.len()
        invariant
            i <= captures.len(),
            state@ == with_captures(empty_state(), captures.deep_view().subrange(0, i as int)),
        decreases captures.len() - i,
    {
        proof {
            let grown = captures.deep_view().subrange(0, i + 1);
            assert(grown.drop_last() =~= captures.deep_view().subrange(0, i as int));
            assert(grown.last() == captures@[i as int].deep_view());
        }
        apply_capture(&mut state, &captures[i]);
        i = i + 1;
    }
    assert(captures.deep_view().subrange(0, captures.len() as int) =~= captures.deep_view());
    state
}

/// What a text tells of a workflow: what the matches of the state pattern
/// in it tell.
pub open spec fn parsed_state(content: Seq<char>) -> WorkflowStateModel {
    match regex_captures(STATE_PATTERN@, content) {
        Some(captures) => with_captures(empty_state(), captures),
        None => empty_state(),
    }
}

/// Reads the state block of a workflow out of a markdown text. Lines that
/// are no state lines, and keys that a state does not have, are passed
/// over.
pub fn parse_workflow_state(content: &str) -> (r: WorkflowState)
    ensures
        r@ == parsed_state(content@),
{
    match capture_all(STATE_PATTERN, content) {
        Some(captures) => workflow_state_from_captures(&captures),
        None => WorkflowState::default(),
    }
}

} // verus!
