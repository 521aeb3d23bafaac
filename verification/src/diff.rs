//! A file's content beside the content that is proposed for it.

use vstd::prelude::*;
use vstd::string::*;

verus! {

/// The present and the proposed content of a file.
#[derive(Debug)]
pub struct DiffResult {
    pub file_path: String,
    pub old_content: String,
    pub new_content: String,
    pub has_changes: bool,
}

impl Clone for DiffResult {
    fn clone(&self) -> (r: DiffResult)
        ensures
            r == *self,
    {
        DiffResult {
            file_path: self.file_path.clone(),
            old_content: self.old_content.clone(),
            new_content: self.new_content.clone(),
            has_changes: self.has_changes,
        }
    }
}

/// Sets the content of a file, empty where the file could not be read,
/// beside the proposed one.
pub fn generate_diff(file_path: String, old_content: String, new_content: String) -> (r: DiffResult)
    ensures
        r.file_path == file_path,
        r.old_content == old_content,
        r.new_content == new_content,
        r.has_changes == (old_content@ != new_content@),
{
    let has_changes = !(old_content == new_content);
    DiffResult { file_path, old_content, new_content, has_changes }
}

} // verus!
