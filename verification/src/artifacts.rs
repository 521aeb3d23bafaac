//! What the steps leave in a skill directory, and what a rewind takes away.

use vstd::prelude::*;
use vstd::string::*;
use crate::catalog::{get_step_output_files, step_outputs, LAST_STEP};
use crate::text::{has_prefix, slice_texts};

verus! {

/// Something that a step leaves in the skill directory: a file, or a
/// directory with all that is in it. The path is relative to the skill
/// directory.
#[derive(Debug)]
pub struct Artifact {
    pub path: String,
    pub is_dir: bool,
}

/// An artifact as plain text.
pub ghost struct ArtifactModel {
    pub path: Seq<char>,
    pub is_dir: bool,
}

impl View for Artifact {
    type V = ArtifactModel;

    open spec fn view(&self) -> ArtifactModel {
        ArtifactModel { path: self.path@, is_dir: self.is_dir }
    }
}

/// The models of a run of artifacts, in order.
pub open spec fn artifact_models(v: Seq<Artifact>) -> Seq<ArtifactModel> {
    Seq::new(v.len(), |i: int| v[i]@)
}

/// The files of the given paths, in order.
pub open spec fn file_models(paths: Seq<Seq<char>>) -> Seq<ArtifactModel> {
    Seq::new(paths.len(), |i: int| ArtifactModel { path: paths[i], is_dir: false })
}

/// The name of the package of a skill.
pub open spec fn package_name_text(skill_name: Seq<char>) -> Seq<char> {
    skill_name + ".skill"@
}

/// The file name of the package of `skill_name`.
pub fn package_file_name(skill_name: &str) -> (r: String)
    ensures
        r@ == package_name_text(skill_name@),
{
    let mut s = String::from_str(skill_name);
    s.append(".skill");
    s
}

/// What the step `step_id` leaves behind: its output files, for the build
/// step the directory of references too, for packaging the package.
pub open spec fn step_artifacts(step_id: u32, skill_name: Seq<char>) -> Seq<ArtifactModel> {
    if step_id == 6 {
        file_models(step_outputs(step_id)).push(
            ArtifactModel { path: "references"@, is_dir: true },
        )
    } else if step_id == 9 {
        file_models(step_outputs(step_id)).push(
            ArtifactModel { path: package_name_text(skill_name), is_dir: false },
        )
    } else {
        file_models(step_outputs(step_id))
    }
}

/// The artifacts of the steps `lo`, `lo + 1`, ... below `hi`, in that order.
pub open spec fn artifacts_between(lo: int, hi: int, skill_name: Seq<char>) -> Seq<ArtifactModel>
    decreases hi - lo,
{
    if lo >= hi {
        Seq::empty()
    } else {
        artifacts_between(lo, hi - 1, skill_name) + step_artifacts((hi - 1) as u32, skill_name)
    }
}

/// What a rewind to the step `from_step_id` takes away: the artifacts of
/// that step and of every later one.
pub open spec fn reset_artifacts(from_step_id: u32, skill_name: Seq<char>) -> Seq<ArtifactModel> {
    artifacts_between(from_step_id as int, LAST_STEP + 1, skill_name)
}

/// The artifacts of one step.
pub fn artifacts_of_step(step_id: u32, skill_name: &str) -> (r: Vec<Artifact>)
    ensures
        artifact_models(r@) == step_artifacts(step_id, skill_name@),
{
    let files = get_step_output_files(step_id);
    let mut out: Vec<Artifact> = Vec::new();
    let mut i: usize = 0;
    while i < files.len()
        invariant
            i <= files.len(),
            slice_texts(files@) == step_outputs(step_id),
            out@.len() == i,
            forall|k: int|
                0 <= k < i ==> out@[k]@ == (ArtifactModel {
                    path: step_outputs(step_id)[k],
                    is_dir: false,
                }),
        decreases files.len() - i,
    {
        assert(slice_texts(files@)[i as int] == files@[i as int]@);
        out.push(Artifact { path: String::from_str(files[i]), is_dir: false });
        i = i + 1;
    }
    assert(slice_texts(files@).len() == files@.len());
    assert(artifact_models(out@) =~= file_models(step_outputs(step_id)));
    if step_id == 6 {
        out.push(Artifact { path: String::from_str("references"), is_dir: true });
    } else if step_id == 9 {
        out.push(Artifact { path: package_file_name(skill_name), is_dir: false });
    }
    assert(artifact_models(out@) =~= step_artifacts(step_id, skill_name@));
    out
}

/// What is to be deleted for a rewind to the step `from_step_id`, in the
/// order of the steps. Where the skill directory does not exist, nothing.
pub fn delete_step_output_files(skill_dir_exists: bool, skill_name: &str, from_step_id: u32) -> (r:
    Vec<Artifact>)
    ensures
        artifact_models(r@) == (if skill_dir_exists {
            reset_artifacts(from_step_id, skill_name@)
        } else {
            Seq::empty()
        }),
{
    let mut out: Vec<Artifact> = Vec::new();
    if !skill_dir_exists || from_step_id > LAST_STEP {
        assert(artifact_models(out@) =~= Seq::<ArtifactModel>::empty());
        return out;
    }
    let mut step: u32 = from_step_id;
    assert(artifact_models(out@) =~= artifacts_between(
        from_step_id as int,
        step as int,
        skill_name@,
    ));
    while step <= LAST_STEP
        invariant
            from_step_id <= step <= LAST_STEP + 1,
            artifact_models(out@) == artifacts_between(
                from_step_id as int,
                step as int,
                skill_name@,
            ),
        decreases LAST_STEP + 1 - step,
    {
        let mut more = artifacts_of_step(step, skill_name);
        let ghost before = out@;
        let ghost added = more@;
        out.append(&mut more);
        assert(artifact_models(out@) =~= artifact_models(before) + artifact_models(added));
        step = step + 1;
    }
    out
}

/// Whether deleting `artifact` takes the path `path` away: the file of
/// that name, or the directory of that name and whatever lies below it.
pub open spec fn deletes(artifact: ArtifactModel, path: Seq<char>) -> bool {
    path == artifact.path || (artifact.is_dir && has_prefix(
        path,
        artifact.path + "/"@,
    ))
}

/// The paths that are left of `present` once each of `artifacts` is
/// deleted.
pub open spec fn remaining(present: Set<Seq<char>>, artifacts: Seq<ArtifactModel>) -> Set<
    Seq<char>,
> {
    Set::new(
        |path: Seq<char>|
            present.contains(path) && forall|i: int|
                0 <= i < artifacts.len() ==> !deletes(#[trigger] artifacts[i], path),
    )
}

/// The shape of the names in the catalog: how long the output files of
/// each step are, and that each begins with `c` or `S` and ends in `d`.
pub proof fn lemma_output_shape(step_id: u32, file: Seq<char>)
    requires
        step_outputs(step_id).contains(file),
    ensures
        step_id == 0 || step_id == 2 || step_id == 3 || step_id == 5 || step_id == 6 || step_id
            == 7 || step_id == 8,
        file.len() >= 8,
        file[0] == 'c' || file[0] == 'S',
        file.last() == 'd',
        step_id == 0 ==> file.len() == 34 && file[23] == 'c',
        step_id == 2 ==> (file.len() == 34 && file[23] == 'p') || file.len() == 30,
        step_id == 3 ==> file.len() == 25,
        step_id == 5 ==> file.len() == 20,
        step_id == 6 ==> file.len() == 8,
        step_id == 7 ==> file.len() == 31,
        step_id == 8 ==> file.len() == 21,
{
    reveal_strlit("context/clarifications-concepts.md");
    reveal_strlit("context/clarifications-patterns.md");
    reveal_strlit("context/clarifications-data.md");
    reveal_strlit("context/clarifications.md");
    reveal_strlit("context/decisions.md");
    reveal_strlit("SKILL.md");
    reveal_strlit("context/agent-validation-log.md");
    reveal_strlit("context/test-skill.md");
    let outputs = step_outputs(step_id);
    let i = choose|i: int| 0 <= i < outputs.len() && outputs[i] == file;
    assert(outputs[i] == file);
}

/// No artifact of one step takes away an output file of another step.
pub proof fn lemma_outputs_apart(
    step_id: u32,
    file: Seq<char>,
    other: u32,
    skill_name: Seq<char>,
    i: int,
)
    requires
        step_outputs(step_id).contains(file),
        other != step_id,
        0 <= i < step_artifacts(other, skill_name).len(),
    ensures
        !deletes(step_artifacts(other, skill_name)[i], file),
{
    lemma_output_shape(step_id, file);
    let artifact = step_artifacts(other, skill_name)[i];
    let outputs = step_outputs(other);
    if i < outputs.len() {
        assert(artifact.path == outputs[i]);
        assert(outputs.contains(outputs[i]));
        lemma_output_shape(other, outputs[i]);
    } else if other == 6 {
        reveal_strlit("references");
        reveal_strlit("/");
        assert(artifact.path == "references"@);
        assert(artifact.path[0] == 'r');
        assert((artifact.path + "/"@)[0] == 'r');
        if has_prefix(file, artifact.path + "/"@) {
            assert(file.subrange(0, (artifact.path + "/"@).len() as int)[0] == file[0]);
        }
    } else {
        reveal_strlit(".skill");
        assert(other == 9);
        assert(artifact.path == package_name_text(skill_name));
        assert(artifact.path.last() == 'l');
    }
}

/// After a rewind to the step `from_step_id`, an output file of an earlier
/// step is there as it was before, and no output file of that step or of a
/// later one is there.
pub proof fn lemma_reset_keeps_earlier_outputs(
    present: Set<Seq<char>>,
    skill_name: Seq<char>,
    from_step_id: u32,
    step_id: u32,
    file: Seq<char>,
)
    requires
        step_outputs(step_id).contains(file),
    ensures
        step_id < from_step_id ==> remaining(
            present,
            reset_artifacts(from_step_id, skill_name),
        ).contains(file) == present.contains(file),
        step_id >= from_step_id ==> !remaining(
            present,
            reset_artifacts(from_step_id, skill_name),
        ).contains(file),
{
    lemma_output_shape(step_id, file);
    let artifacts = reset_artifacts(from_step_id, skill_name);
    if step_id < from_step_id {
        assert forall|i: int| 0 <= i < artifacts.len() implies !deletes(
            #[trigger] artifacts[i],
            file,
        ) by {
            lemma_artifact_origin(from_step_id as int, LAST_STEP + 1, skill_name, i);
            let (s, k) = choose|s: u32, k: int|
                from_step_id <= s <= LAST_STEP && 0 <= k < step_artifacts(s, skill_name).len()
                    && artifacts[i] == step_artifacts(s, skill_name)[k];
            lemma_outputs_apart(step_id, file, s, skill_name, k);
        }
    } else {
        let outputs = step_outputs(step_id);
        let k = choose|k: int| 0 <= k < outputs.len() && outputs[k] == file;
        assert(step_artifacts(step_id, skill_name)[k] == (ArtifactModel {
            path: file,
            is_dir: false,
        }));
        lemma_artifact_present(
            from_step_id as int,
            LAST_STEP + 1,
            skill_name,
            step_id,
            k,
        );
        let i = choose|i: int|
            0 <= i < artifacts.len() && artifacts[i] == step_artifacts(step_id, skill_name)[k];
        assert(deletes(artifacts[i], file));
    }
}

/// Each artifact of a range of steps is an artifact of one of its steps.
proof fn lemma_artifact_origin(lo: int, hi: int, skill_name: Seq<char>, i: int)
    requires
        0 <= lo,
        hi <= LAST_STEP + 1,
        0 <= i < artifacts_between(lo, hi, skill_name).len(),
    ensures
        exists|s: u32, k: int|
            lo <= s < hi && 0 <= k < step_artifacts(s, skill_name).len() && artifacts_between(
                lo,
                hi,
                skill_name,
            )[i] == #[trigger] step_artifacts(s, skill_name)[k],
    decreases hi - lo,
{
    if lo < hi {
        let head = artifacts_between(lo, hi - 1, skill_name);
        let last = (hi - 1) as u32;
        if i < head.len() {
            lemma_artifact_origin(lo, hi - 1, skill_name, i);
            let (s, k) = choose|s: u32, k: int|
                lo <= s < hi - 1 && 0 <= k < step_artifacts(s, skill_name).len() && head[i]
                    == #[trigger] step_artifacts(s, skill_name)[k];
            assert(artifacts_between(lo, hi, skill_name)[i] == step_artifacts(s, skill_name)[k]);
        } else {
            let k = i - head.len();
            assert(artifacts_between(lo, hi, skill_name)[i] == step_artifacts(
                last,
                skill_name,
            )[k]);
        }
    }
}

/// Each artifact of a step of a range is among the artifacts of the range.
proof fn lemma_artifact_present(lo: int, hi: int, skill_name: Seq<char>, step_id: u32, k: int)
    requires
        0 <= lo <= step_id < hi,
        hi <= LAST_STEP + 1,
        0 <= k < step_artifacts(step_id, skill_name).len(),
    ensures
        exists|i: int|
            0 <= i < artifacts_between(lo, hi, skill_name).len() && #[trigger] artifacts_between(
                lo,
                hi,
                skill_name,
            )[i] == step_artifacts(step_id, skill_name)[k],
    decreases hi - lo,
{
    let all = artifacts_between(lo, hi, skill_name);
    let head = artifacts_between(lo, hi - 1, skill_name);
    if step_id == hi - 1 {
        assert(all[head.len() + k] == step_artifacts(step_id, skill_name)[k]);
    } else {
        lemma_artifact_present(lo, hi - 1, skill_name, step_id, k);
        let i = choose|i: int|
            0 <= i < head.len() && head[i] == step_artifacts(step_id, skill_name)[k];
        assert(all[i] == step_artifacts(step_id, skill_name)[k]);
    }
}

} // verus!
