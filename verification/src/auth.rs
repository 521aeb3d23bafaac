//! What the replies of the GitHub API mean to the application.

use vstd::prelude::*;
use vstd::string::*;
use crate::text::clone_option;

verus! {

/// A repository of the user.
#[derive(Debug)]
pub struct GitHubRepo {
    pub full_name: String,
    pub name: String,
    pub private: bool,
    pub description: Option<String>,
    pub clone_url: String,
}

impl Clone for GitHubRepo {
    fn clone(&self) -> (r: GitHubRepo)
        ensures
            r == *self,
    {
        GitHubRepo {
            full_name: self.full_name.clone(),
            name: self.name.clone(),
            private: self.private,
            description: clone_option(&self.description),
            clone_url: self.clone_url.clone(),
        }
    }
}

/// How many repositories one page of the listing holds at most.
pub const REPOS_PER_PAGE: usize = 100;

/// Why the user could not be fetched.
#[derive(Debug)]
pub enum DeviceFlowError {
    /// The request did not come through.
    Http { reason: String },
    /// GitHub answered with an error.
    Api { body: String },
}

impl DeviceFlowError {
    /// The text of the message for the user.
    pub open spec fn message_text(&self) -> Seq<char> {
        match self {
            DeviceFlowError::Http { reason } => "HTTP request failed: "@ + reason@,
            DeviceFlowError::Api { body } => "GitHub API error: "@ + body@,
        }
    }

    /// The message for the user.
    pub fn message(&self) -> (r: String)
        ensures
            r@ == self.message_text(),
    {
        match self {
            DeviceFlowError::Http { reason } => {
                let mut s = String::from_str("HTTP request failed: ");
                s.append(reason.as_str());
                s
            },
            DeviceFlowError::Api { body } => {
                let mut s = String::from_str("GitHub API error: ");
                s.append(body.as_str());
                s
            },
        }
    }
}

/// Reads the reply to the request for the user: the body to parse where the
/// status is a success, else the body as the error of the API.
pub fn fetch_github_user(status_is_success: bool, body: String) -> (r: Result<
    String,
    DeviceFlowError,
>)
    ensures
        match r {
            Ok(b) => status_is_success && b == body,
            Err(e) => !status_is_success && e == (DeviceFlowError::Api { body }),
        },
{
    if status_is_success {
        Ok(body)
    } else {
        Err(DeviceFlowError::Api { body })
    }
}

/// The page to ask for after the page `page` came with `count`
/// repositories: the next one where the page was full, none where it was
/// not.
pub open spec fn next_page(page: u32, count: usize) -> Option<u32> {
    if count < REPOS_PER_PAGE || page == u32::MAX {
        None
    } else {
        Some((page + 1) as u32)
    }
}

/// Decides whether the listing of repositories goes on.
pub fn list_github_repos(page: u32, count: usize) -> (r: Option<u32>)
    ensures
        r == next_page(page, count),
{
    if count < REPOS_PER_PAGE || page == u32::MAX {
        None
    } else {
        Some(page + 1)
    }
}

} // verus!
