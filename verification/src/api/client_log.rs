//! The browser's log, for those whose browser shows none.

use crate::text::{shortened, truncate_chars};
use vstd::prelude::*;

verus! {

pub const MAX_LINES: usize = 200;

pub const MAX_LINE_LEN: usize = 2000;

pub const MAX_SESSION_LEN: usize = 16;

pub const MAX_USER_AGENT_LEN: usize = 200;

/// Log lines of a browser.
#[derive(Clone, Debug)]
pub struct PostClientLogRequest {
    pub session: String,
    pub user_agent: String,
    pub lines: Vec<String>,
}

/// A line as it appears in the server's log.
pub open spec fn log_text(session: Seq<char>, line: Seq<char>, user_agent: Seq<char>) -> Seq<
    char,
> {
    "["@ + shortened(session, MAX_SESSION_LEN as nat) + "] "@ + shortened(
        line,
        MAX_LINE_LEN as nat,
    ) + " ua="@ + shortened(user_agent, MAX_USER_AGENT_LEN as nat)
}

/// How many of the lines are logged.
pub open spec fn logged_lines(count: nat) -> nat {
    if count <= MAX_LINES {
        count
    } else {
        MAX_LINES as nat
    }
}

/// The lines for the server's log. What is too long is cut off.
pub fn client_log_lines(request: &PostClientLogRequest) -> (lines: Vec<String>)
    ensures
        lines@.len() == logged_lines(request.lines@.len()),
        forall|i: int|
            0 <= i < lines@.len() ==> (#[trigger] lines@[i])@ == log_text(
                request.session@,
                request.lines@[i]@,
                request.user_agent@,
            ),
{
    let session: String = truncate_chars(request.session.as_str(), MAX_SESSION_LEN);
    let user_agent: String = truncate_chars(request.user_agent.as_str(), MAX_USER_AGENT_LEN);
    let mut lines: Vec<String> = Vec::new();
    let mut i: usize = 0;
    while i < request.lines.len() && i < MAX_LINES
        invariant
            i <= request.lines@.len(),
            i <= MAX_LINES,
            lines@.len() == i,
            session@ == shortened(request.session@, MAX_SESSION_LEN as nat),
            user_agent@ == shortened(request.user_agent@, MAX_USER_AGENT_LEN as nat),
            forall|k: int|
                0 <= k < i ==> (#[trigger] lines@[k])@ == log_text(
                    request.session@,
                    request.lines@[k]@,
                    request.user_agent@,
                ),
        decreases request.lines@.len() - i,
    {
        let line: String = truncate_chars(request.lines[i].as_str(), MAX_LINE_LEN);
        let mut text: String = "[".to_owned();
        text.append(session.as_str());
        text.append("] ");
        text.append(line.as_str());
        text.append(" ua=");
        text.append(user_agent.as_str());
        assert(text@ =~= log_text(request.session@, request.lines@[i as int]@, request.user_agent@));
        lines.push(text);
        i = i + 1;
    }
    lines
}

/// Whatever a browser sends, its lines stay short.
pub proof fn law_log_is_bounded(session: Seq<char>, line: Seq<char>, user_agent: Seq<char>)
    ensures
        log_text(session, line, user_agent).len() <= MAX_SESSION_LEN + MAX_LINE_LEN
            + MAX_USER_AGENT_LEN + 7,
{
    reveal_strlit("[");
    reveal_strlit("] ");
    reveal_strlit(" ua=");
}

/// Of what a browser logs, the first two hundred lines are kept, each with at most two
/// thousand characters; the session is cut at sixteen and the browser at two hundred.
pub proof fn law_what_is_logged(
    session: Seq<char>,
    line: Seq<char>,
    user_agent: Seq<char>,
    count: nat,
)
    ensures
        count <= 200 ==> logged_lines(count) == count,
        count > 200 ==> logged_lines(count) == 200,
        session.len() <= 16 && line.len() <= 2000 && user_agent.len() <= 200 ==> log_text(
            session,
            line,
            user_agent,
        ) == seq!['['] + session + seq![']', ' '] + line + seq![' ', 'u', 'a', '='] + user_agent,
        log_text(session, line, user_agent) == log_text(
            session.take(if session.len() <= 16 {
                session.len() as int
            } else {
                16
            }),
            line.take(if line.len() <= 2000 {
                line.len() as int
            } else {
                2000
            }),
            user_agent.take(if user_agent.len() <= 200 {
                user_agent.len() as int
            } else {
                200
            }),
        ),
{
    reveal_strlit("[");
    reveal_strlit("] ");
    reveal_strlit(" ua=");
    assert("["@ =~= seq!['[']);
    assert("] "@ =~= seq![']', ' ']);
    assert(" ua="@ =~= seq![' ', 'u', 'a', '=']);
    assert(session.take(session.len() as int) =~= session);
    assert(line.take(line.len() as int) =~= line);
    assert(user_agent.take(user_agent.len() as int) =~= user_agent);
}

} // verus!
