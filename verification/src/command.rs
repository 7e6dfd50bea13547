//! Inbound command words and plain-text parsing.
//!
//! A plain-text message is whitespace-separated: the first token is the
//! command word, the second (if present) names a model. The command word is
//! normalized to a `CommandKind`; an unrecognized word keeps its text beside
//! the `Unknown` kind so the help response can embed it.

use vstd::prelude::*;

use crate::tensor::{str_eq, TensorData};

verus! {

/// One inbound message, normalized: the command kind, the original command
/// word (kept so a help response can embed it), and whatever arguments the
/// message carried.
#[derive(Clone, Debug)]
pub struct ParsedCommand {
    pub kind: CommandKind,
    /// The command word as the message spelled it.
    pub word: String,
    pub model_name: Option<String>,
    /// Caller-supplied tensors, when the message carried well-formed ones.
    pub inputs: Option<Vec<(String, TensorData)>>,
    /// The prompt of a text-generation request.
    pub prompt: Option<String>,
    /// The token budget of a text-generation request.
    pub max_len: Option<u64>,
}

/// The commands the gateway recognizes.
#[derive(Clone, Copy, Debug, PartialEq, Eq, Structural)]
pub enum CommandKind {
    Infer,
    InferText,
    Metadata,
    Load,
    Unload,
    Stats,
    List,
    Ping,
    Live,
    Ready,
    Unknown,
}

/// Whitespace for token splitting: the ASCII whitespace characters. This
/// is deliberately narrower than Unicode whitespace; command words and
/// model names are ASCII, so only these four can separate them here.
pub open spec fn spec_is_ws(c: char) -> bool {
    c == ' ' || c == '\t' || c == '\n' || c == '\r'
}

/// `s` with its leading whitespace removed.
pub open spec fn spec_skip_ws(s: Seq<char>) -> Seq<char>
    decreases s.len(),
{
    if s.len() == 0 {
        s
    } else if spec_is_ws(s.first()) {
        spec_skip_ws(s.drop_first())
    } else {
        s
    }
}

/// The leading run of non-whitespace characters of `s`.
pub open spec fn spec_take_tok(s: Seq<char>) -> Seq<char>
    decreases s.len(),
{
    if s.len() == 0 || spec_is_ws(s.first()) {
        Seq::empty()
    } else {
        seq![s.first()] + spec_take_tok(s.drop_first())
    }
}

/// `s` with its leading run of non-whitespace characters removed.
pub open spec fn spec_drop_tok(s: Seq<char>) -> Seq<char>
    decreases s.len(),
{
    if s.len() == 0 || spec_is_ws(s.first()) {
        s
    } else {
        spec_drop_tok(s.drop_first())
    }
}

/// The first whitespace-separated token of `s` (empty when there is none).
pub open spec fn spec_first_token(s: Seq<char>) -> Seq<char> {
    spec_take_tok(spec_skip_ws(s))
}

/// What remains of `s` after its first token.
pub open spec fn spec_after_first_token(s: Seq<char>) -> Seq<char> {
    spec_drop_tok(spec_skip_ws(s))
}

/// The second whitespace-separated token of `s` (empty when there is none).
pub open spec fn spec_second_token(s: Seq<char>) -> Seq<char> {
    spec_first_token(spec_after_first_token(s))
}

/// The command kind a word denotes.
pub open spec fn spec_kind_of(w: Seq<char>) -> CommandKind {
    if w == "infer"@ {
        CommandKind::Infer
    } else if w == "infertext"@ {
        CommandKind::InferText
    } else if w == "metadata"@ {
        CommandKind::Metadata
    } else if w == "load"@ {
        CommandKind::Load
    } else if w == "unload"@ {
        CommandKind::Unload
    } else if w == "stats"@ {
        CommandKind::Stats
    } else if w == "list"@ {
        CommandKind::List
    } else if w == "ping"@ {
        CommandKind::Ping
    } else if w == "live"@ {
        CommandKind::Live
    } else if w == "ready"@ {
        CommandKind::Ready
    } else {
        CommandKind::Unknown
    }
}

fn is_ws_char(c: char) -> (r: bool)
    ensures
        r == spec_is_ws(c),
{
    c == ' ' || c == '\t' || c == '\n' || c == '\r'
}

/// The command kind a word denotes.
pub fn kind_of_word(w: &str) -> (r: CommandKind)
    ensures
        r == spec_kind_of(w@),
{
    if str_eq(w, "infer") {
        CommandKind::Infer
    } else if str_eq(w, "infertext") {
        CommandKind::InferText
    } else if str_eq(w, "metadata") {
        CommandKind::Metadata
    } else if str_eq(w, "load") {
        CommandKind::Load
    } else if str_eq(w, "unload") {
        CommandKind::Unload
    } else if str_eq(w, "stats") {
        CommandKind::Stats
    } else if str_eq(w, "list") {
        CommandKind::List
    } else if str_eq(w, "ping") {
        CommandKind::Ping
    } else if str_eq(w, "live") {
        CommandKind::Live
    } else if str_eq(w, "ready") {
        CommandKind::Ready
    } else {
        CommandKind::Unknown
    }
}

/// Scan the token that starts at or after `start`: skip whitespace, then
/// return the token's text and the position right after it.
pub fn next_token(s: &str, start: usize) -> (r: (String, usize))
    requires
        start <= s@.len(),
    ensures
        r.0@ == spec_take_tok(spec_skip_ws(s@.skip(start as int))),
        start <= r.1 <= s@.len(),
        s@.skip(r.1 as int) == spec_drop_tok(spec_skip_ws(s@.skip(start as int))),
{
    let n = s.unicode_len();
    let mut i: usize = start;
    while i < n && is_ws_char(s.get_char(i))
        invariant
            start <= i <= n,
            n == s@.len(),
            spec_skip_ws(s@.skip(start as int)) == spec_skip_ws(s@.skip(i as int)),
        decreases n - i,
    {
        proof {
            assert(s@.skip(i as int).first() == s@[i as int]);
            assert(s@.skip(i as int).drop_first() =~= s@.skip(i + 1));
        }
        i = i + 1;
    }
    proof {
        if i == n {
            assert(s@.skip(i as int) =~= Seq::<char>::empty());
        }
        assert(spec_skip_ws(s@.skip(i as int)) == s@.skip(i as int));
    }
    let tok_start: usize = i;
    let mut j: usize = i;
    while j < n && !is_ws_char(s.get_char(j))
        invariant
            tok_start <= j <= n,
            n == s@.len(),
            spec_take_tok(s@.skip(tok_start as int)) == s@.subrange(
                tok_start as int,
                j as int,
            ) + spec_take_tok(s@.skip(j as int)),
            spec_drop_tok(s@.skip(tok_start as int)) == spec_drop_tok(s@.skip(j as int)),
        decreases n - j,
    {
        proof {
            assert(s@.skip(j as int).first() == s@[j as int]);
            assert(s@.skip(j as int).drop_first() =~= s@.skip(j + 1));
            assert(s@.subrange(tok_start as int, j + 1) =~= s@.subrange(
                tok_start as int,
                j as int,
            ) + seq![s@[j as int]]);
            assert(s@.subrange(tok_start as int, j as int) + (seq![s@[j as int]]
                + spec_take_tok(s@.skip(j + 1))) =~= s@.subrange(tok_start as int, j + 1)
                + spec_take_tok(s@.skip(j + 1)));
        }
        j = j + 1;
    }
    proof {
        if j == n {
            assert(s@.skip(j as int) =~= Seq::<char>::empty());
        }
        assert(spec_take_tok(s@.skip(j as int)) =~= Seq::<char>::empty());
        assert(spec_drop_tok(s@.skip(j as int)) == s@.skip(j as int));
        assert(s@.subrange(tok_start as int, j as int) + Seq::<char>::empty() =~= s@.subrange(
            tok_start as int,
            j as int,
        ));
    }
    let tok = String::from_str(s.substring_char(tok_start, j));
    (tok, j)
}

/// Split a plain-text message into its command word and optional model name:
/// the first token (empty when the message is blank) and the second token
/// when one is present.
pub fn parse_plain(msg: &str) -> (r: (String, Option<String>))
    ensures
        r.0@ == spec_first_token(msg@),
        match r.1 {
            Some(m) => m@ == spec_second_token(msg@) && spec_second_token(msg@).len() > 0,
            None => spec_second_token(msg@).len() == 0,
        },
{
    proof {
        assert(msg@.skip(0) =~= msg@);
    }
    let (cmd, after) = next_token(msg, 0);
    let (second, _end) = next_token(msg, after);
    if second.unicode_len() == 0 {
        (cmd, None)
    } else {
        (cmd, Some(second))
    }
}

} // verus!
