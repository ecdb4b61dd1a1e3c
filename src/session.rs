//! Decisions of the interactive session: what a line of input asks for, what
//! a failed request means, and where the access token comes from.

use vstd::prelude::*;
use vstd::string::*;

use crate::message::same_text;

verus! {

/// What the text typed so far asks for.
#[derive(PartialEq, Eq, Debug)]
pub enum InputAction {
    /// Leave the program.
    Exit,
    /// Forget the conversation.
    Reset,
    /// Send this message.
    Submit(String),
    /// Keep reading lines.
    More,
}

/// The three characters that end a message: `;;` and a newline.
pub open spec fn terminator() -> Seq<char> {
    seq![';', ';', '\n']
}

/// Whether `s` ends with `;;` and a newline.
pub open spec fn ends_with_terminator(s: Seq<char>) -> bool {
    s.len() >= 3 && s.subrange(s.len() - 3, s.len() as int) == terminator()
}

/// `s` without every `;;` and newline at its end.
pub open spec fn without_terminators(s: Seq<char>) -> Seq<char>
    decreases s.len(),
{
    if ends_with_terminator(s) {
        without_terminators(s.subrange(0, s.len() - 3))
    } else {
        s
    }
}

/// What the text typed so far asks for: the line `exit` or `reset` is a
/// command; text ending in `;;` and a newline is a message, sent without its
/// final `;;`s; anything else waits for more lines.
pub open spec fn input_action(s: Seq<char>) -> InputActionView {
    if s == "exit\n"@ {
        InputActionView::Exit
    } else if s == "reset\n"@ {
        InputActionView::Reset
    } else if ends_with_terminator(s) {
        InputActionView::Submit(without_terminators(s))
    } else {
        InputActionView::More
    }
}

/// What an [`InputAction`] is, with its text as characters.
pub ghost enum InputActionView {
    Exit,
    Reset,
    Submit(Seq<char>),
    More,
}

impl View for InputAction {
    type V = InputActionView;

    open spec fn view(&self) -> InputActionView {
        match self {
            InputAction::Exit => InputActionView::Exit,
            InputAction::Reset => InputActionView::Reset,
            InputAction::Submit(t) => InputActionView::Submit(t@),
            InputAction::More => InputActionView::More,
        }
    }
}

/// Whether the first `n` characters of `s` end with `;;` and a newline.
fn ends_with_terminator_at(s: &str, n: usize) -> (r: bool)
    requires
        n <= s@.len(),
    ensures
        r == ends_with_terminator(s@.subrange(0, n as int)),
{
    let ghost t = s@.subrange(0, n as int);
    if n < 3 {
        return false;
    }
    let r = s.get_char(n - 3) == ';' && s.get_char(n - 2) == ';' && s.get_char(n - 1) == '\n';
    let ghost tail = t.subrange(t.len() - 3, t.len() as int);
    assert(tail[0] == s@[n - 3] && tail[1] == s@[n - 2] && tail[2] == s@[n - 1]);
    assert(r ==> tail =~= terminator());
    r
}

/// What the text typed so far asks for (see [`input_action`]).
pub fn classify_input(s: &str) -> (r: InputAction)
    ensures
        r@ == input_action(s@),
{
    if same_text(s, "exit\n") {
        return InputAction::Exit;
    }
    if same_text(s, "reset\n") {
        return InputAction::Reset;
    }
    let len = s.unicode_len();
    if !ends_with_terminator_at(s, len) {
        assert(s@.subrange(0, len as int) == s@);
        return InputAction::More;
    }
    assert(s@.subrange(0, len as int) == s@);
    let mut n: usize = len;
    while ends_with_terminator_at(s, n)
        invariant
            n <= s@.len(),
            without_terminators(s@) == without_terminators(s@.subrange(0, n as int)),
        decreases n,
    {
        assert(s@.subrange(0, n as int).subrange(0, n - 3) == s@.subrange(0, n - 3));
        n = n - 3;
    }
    let text = s.substring_char(0, n).to_owned();
    InputAction::Submit(text)
}

/// Why a request for a completion failed.
#[derive(PartialEq, Eq, Structural, Clone, Copy, Debug)]
pub enum CompletionError {
    /// The request body could not be encoded; nothing was sent.
    RequestSerialize,
    /// The service refused the access token.
    Unauthorized,
    /// The account has run out of quota or made too many requests.
    RateLimited,
    /// Any other failure of the network or of the service.
    Other,
}

/// The HTTP status that means a bad or missing access token.
pub const STATUS_UNAUTHORIZED: u16 = 401;

/// The HTTP status that means too many requests.
pub const STATUS_TOO_MANY_REQUESTS: u16 = 429;

/// What a failed request means, from the HTTP status it came with, if any.
pub open spec fn failure_kind(status: Option<u16>) -> CompletionError {
    match status {
        Some(s) => if s == STATUS_UNAUTHORIZED {
            CompletionError::Unauthorized
        } else if s == STATUS_TOO_MANY_REQUESTS {
            CompletionError::RateLimited
        } else {
            CompletionError::Other
        },
        None => CompletionError::Other,
    }
}

/// What a failed request means (see [`failure_kind`]).
pub fn classify_failure(status: Option<u16>) -> (r: CompletionError)
    ensures
        r == failure_kind(status),
{
    match status {
        Some(s) => if s == STATUS_UNAUTHORIZED {
            CompletionError::Unauthorized
        } else if s == STATUS_TOO_MANY_REQUESTS {
            CompletionError::RateLimited
        } else {
            CompletionError::Other
        },
        None => CompletionError::Other,
    }
}

/// The access token to use: the one from the environment where there is one,
/// else the one saved in the token file, else none.
pub fn resolve_token(from_env: Option<String>, from_file: Option<String>) -> (r: Option<String>)
    ensures
        r == (match from_env {
            Some(t) => Some(t),
            None => from_file,
        }),
{
    match from_env {
        Some(t) => Some(t),
        None => from_file,
    }
}

} // verus!
