//! What commands answer: their outcomes, the payload of each answer, and
//! how an answer is framed for the pipe.
use crate::error::ApiError;
use crate::parsing::Nanos;
use crate::types::{GrepMatch, PaneId, PanePermissionRequest, PaneRow};
use vstd::prelude::*;

verus! {

/// Where the token that `token` reports came from.
#[derive(Debug, Clone, Copy, PartialEq, Eq, Structural)]
pub enum TokenSource {
    SessionEnv,
    PluginCache,
    Generated,
}

/// The structured part of an answer.
#[derive(Debug)]
#[allow(inconsistent_fields)]
pub enum Payload {
    Error(ApiError),
    Panes { focused_tab: usize, panes: Vec<PaneRow> },
    Sent { pane_id: PaneId },
    Ran { pane_id: PaneId },
    Interrupted { pane_id: PaneId, sigkill: bool },
    Tail { pane_id: PaneId, lines: Vec<String>, truncated_since: bool },
    Grep { pane_id: PaneId, pattern: String, matches: Vec<GrepMatch> },
    WaitMatched { pane_id: PaneId, lines: Vec<String> },
    ExecDone {
        request_id: String,
        command: Vec<String>,
        exit_code: Option<i32>,
        stdout: String,
        stderr: String,
    },
    Spawned { pane_id: Option<PaneId>, waited: bool },
    Mark { token: String, pane_id: PaneId, line_count: usize, created_at_ms: u128 },
    Since {
        token: String,
        pane_id: PaneId,
        line_count_at_mark: usize,
        current_line_count: usize,
        available_since: usize,
        truncated: bool,
    },
    Token { token: String, created: bool, source: TokenSource, export_command: String },
    Permit { pending: Vec<PanePermissionRequest> },
    Help { commands: Vec<String> },
}

/// What a command gives back: an answer now, or one later from a job.
#[derive(Debug)]
pub enum CommandOutcome {
    Immediate { json_only: bool, human: Option<String>, payload: Payload },
    Async,
}

/// The text written to the pipe: the payload's JSON alone, or the human
/// text (when there is some) followed by a line `@@json ` and the JSON.
pub open spec fn framed(json_only: bool, human: Option<Seq<char>>, payload: Seq<char>) -> Seq<char> {
    if json_only {
        payload
    } else {
        let tail = "@@json "@ + payload;
        match human {
            Some(h) => if h.len() > 0 {
                h + "\n"@ + tail
            } else {
                tail
            },
            None => tail,
        }
    }
}

pub fn frame_output(json_only: bool, human: Option<&str>, payload_json: &str) -> (r: String)
    ensures
        r@ == framed(
            json_only,
            match human {
                Some(h) => Some(h@),
                None => None,
            },
            payload_json@,
        ),
{
    if json_only {
        return String::from_str(payload_json);
    }
    let mut out = String::new();
    match human {
        Some(h) => {
            if !h.is_empty() {
                out.append(h);
                out.append("\n");
            }
        },
        None => {},
    }
    out.append("@@json ");
    out.append(payload_json);
    out
}

/// The time a job waits between two looks at a pane, by default.
pub const DEFAULT_WAIT_INTERVAL: Nanos = 200_000_000;

} // verus!
