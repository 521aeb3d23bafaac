//! Whether the Node.js that runs the workers is there and new enough.

use vstd::prelude::*;
use vstd::string::*;
use crate::text::{
    before_first, option_text, parse_u32, parse_u32_spec, take_before_first, trim, trimmed,
};

verus! {

/// The lowest major version of Node.js that runs the workers.
pub const MIN_NODE_MAJOR: u32 = 18;

/// A version without the `v` that may stand before it.
pub open spec fn without_v(version: Seq<char>) -> Seq<char> {
    if version.len() > 0 && version[0] == 'v' {
        version.subrange(1, version.len() as int)
    } else {
        version
    }
}

/// The major version that a version string names: the number before its
/// first full stop.
pub open spec fn major_version(version: Seq<char>) -> Option<u32> {
    parse_u32_spec(before_first(without_v(version), '.'))
}

/// Whether a version string names a major version of `min_major` or more.
pub open spec fn meets_minimum(version: Seq<char>, min_major: u32) -> bool {
    match major_version(version) {
        Some(major) => major >= min_major,
        None => false,
    }
}

/// Reads a version such as `v20.11.0` and tells whether its major version
/// is `min_major` or more. A string that names no version does not meet any
/// minimum.
pub fn parse_meets_minimum(version: &str, min_major: u32) -> (r: bool)
    ensures
        r == meets_minimum(version@, min_major),
{
    let n = version.unicode_len();
    let rest = if n > 0 && version.get_char(0) == 'v' {
        version.substring_char(1, n)
    } else {
        version
    };
    let major_text = take_before_first(rest, '.');
    match parse_u32(major_text) {
        Some(major) => major >= min_major,
        None => false,
    }
}

/// What came of running `node --version`.
#[derive(Debug)]
pub enum NodeProbe {
    /// The process ran: whether it exited with success, its exit status as
    /// text, and what it wrote.
    Ran { success: bool, status: String, stdout: String, stderr: String },
    /// The process could not be started.
    NotStarted,
}

/// What the application knows of Node.js.
#[derive(Debug)]
pub struct NodeStatus {
    pub available: bool,
    pub version: Option<String>,
    pub meets_minimum: bool,
    pub error: Option<String>,
}

/// A Node.js status as plain text.
pub ghost struct NodeStatusModel {
    pub available: bool,
    pub version: Option<Seq<char>>,
    pub meets_minimum: bool,
    pub error: Option<Seq<char>>,
}

impl View for NodeStatus {
    type V = NodeStatusModel;

    open spec fn view(&self) -> NodeStatusModel {
        NodeStatusModel {
            available: self.available,
            version: option_text(self.version),
            meets_minimum: self.meets_minimum,
            error: option_text(self.error),
        }
    }
}

/// The message for a Node.js that ran and failed.
pub open spec fn node_failed_text(status: Seq<char>, stderr: Seq<char>) -> Seq<char> {
    "Node.js exited with status "@ + status + ": "@ + trimmed(stderr)
}

/// The status that a probe shows.
pub open spec fn node_status(probe: NodeProbe) -> NodeStatusModel {
    match probe {
        NodeProbe::Ran { success, status, stdout, stderr } => if success {
            NodeStatusModel {
                available: true,
                version: Some(trimmed(stdout@)),
                meets_minimum: meets_minimum(trimmed(stdout@), MIN_NODE_MAJOR),
                error: None,
            }
        } else {
            NodeStatusModel {
                available: false,
                version: None,
                meets_minimum: false,
                error: Some(node_failed_text(status@, stderr@)),
            }
        },
        NodeProbe::NotStarted => NodeStatusModel {
            available: false,
            version: None,
            meets_minimum: false,
            error: Some(
                "Node.js not found. Please install Node.js 18+ from https://nodejs.org"@,
            ),
        },
    }
}

/// Reads the outcome of `node --version`.
pub fn check_node(probe: &NodeProbe) -> (r: NodeStatus)
    ensures
        r@ == node_status(*probe),
{
    match probe {
        NodeProbe::Ran { success, status, stdout, stderr } => {
            if *success {
                let version = trim(stdout.as_str());
                let meets = parse_meets_minimum(version, MIN_NODE_MAJOR);
                NodeStatus {
                    available: true,
                    version: Some(String::from_str(version)),
                    meets_minimum: meets,
                    error: None,
                }
            } else {
                let mut message = String::from_str("Node.js exited with status ");
                message.append(status.as_str());
                message.append(": ");
                message.append(trim(stderr.as_str()));
                NodeStatus {
                    available: false,
                    version: None,
                    meets_minimum: false,
                    error: Some(message),
                }
            }
        },
        NodeProbe::NotStarted => NodeStatus {
            available: false,
            version: None,
            meets_minimum: false,
            error: Some(
                String::from_str(
                    "Node.js not found. Please install Node.js 18+ from https://nodejs.org",
                ),
            ),
        },
    }
}

} // verus!
