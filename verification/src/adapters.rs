//! What each provider format makes of a conversation and of an answer:
//! which format a provider kind speaks, where the system text goes, how
//! roles are named, and which text of an answer is the reply.

use vstd::prelude::*;
use crate::cli_input::ProviderKind;
use crate::llm_flow::{AdapterKind, LLMError};
use crate::text::{same_text, push_str};

verus! {

/// The request format a provider kind speaks: Anthropic's and Gemini's
/// own, and the OpenAI format for every other kind.
pub open spec fn adapter_of(kind: ProviderKind) -> AdapterKind {
    match kind {
        ProviderKind::Anthropic => AdapterKind::Anthropic,
        ProviderKind::Gemini => AdapterKind::Gemini,
        _ => AdapterKind::OpenAI,
    }
}

/// The request format a provider kind speaks (see `adapter_of`).
pub fn adapter_for_type(kind: ProviderKind) -> (a: AdapterKind)
    ensures
        a == adapter_of(kind),
{
    match kind {
        ProviderKind::Anthropic => AdapterKind::Anthropic,
        ProviderKind::Gemini => AdapterKind::Gemini,
        _ => AdapterKind::OpenAI,
    }
}

/// One message of a conversation.
#[derive(Debug, Clone, PartialEq, Eq)]
pub struct ChatMessage {
    pub role: String,
    pub content: String,
}

/// The plain values of a message.
pub open spec fn message_view(m: ChatMessage) -> (Seq<char>, Seq<char>) {
    (m.role@, m.content@)
}

/// The plain values of each message.
pub open spec fn messages_view(ms: Seq<ChatMessage>) -> Seq<(Seq<char>, Seq<char>)> {
    ms.map_values(|m: ChatMessage| message_view(m))
}

/// The conversation sent to a provider: the system text, then the user's
/// message.
pub fn chat_messages(system: String, user: String) -> (ms: Vec<ChatMessage>)
    ensures
        messages_view(ms@) == seq![("system"@, system@), ("user"@, user@)],
{
    let mut ms: Vec<ChatMessage> = Vec::new();
    ms.push(ChatMessage { role: "system".to_string(), content: system });
    ms.push(ChatMessage { role: "user".to_string(), content: user });
    proof {
        assert(messages_view(ms@) =~= seq![("system"@, ms@[0].content@), ("user"@, ms@[1].content@)]);
    }
    ms
}

/// The text of the last system message, if there is one.
pub open spec fn last_system(ms: Seq<(Seq<char>, Seq<char>)>) -> Option<Seq<char>>
    decreases ms.len(),
{
    if ms.len() == 0 {
        None
    } else if ms.last().0 == "system"@ {
        Some(ms.last().1)
    } else {
        last_system(ms.drop_last())
    }
}

/// The messages that are not system messages, in order.
pub open spec fn non_system(ms: Seq<(Seq<char>, Seq<char>)>) -> Seq<(Seq<char>, Seq<char>)> {
    ms.filter(|m: (Seq<char>, Seq<char>)| m.0 != "system"@)
}

/// A copy of a message.
fn copy_message(m: &ChatMessage) -> (c: ChatMessage)
    ensures
        message_view(c) == message_view(*m),
{
    ChatMessage { role: m.role.clone(), content: m.content.clone() }
}

/// The system text and the other messages of a conversation, as the
/// Anthropic and Gemini formats carry them apart: the text of the last
/// system message, and every other message in order.
pub fn split_system(ms: &Vec<ChatMessage>) -> (r: (Option<String>, Vec<ChatMessage>))
    ensures
        match r.0 {
            Some(t) => last_system(messages_view(ms@)) == Some(t@),
            None => last_system(messages_view(ms@)) is None,
        },
        messages_view(r.1@) == non_system(messages_view(ms@)),
{
    let ghost all = messages_view(ms@);
    let mut system: Option<String> = None;
    let mut rest: Vec<ChatMessage> = Vec::new();
    let mut i: usize = 0;
    while i < ms.len()
        invariant
            all == messages_view(ms@),
            i <= ms.len(),
            match system {
                Some(t) => last_system(all.take(i as int)) == Some(t@),
                None => last_system(all.take(i as int)) is None,
            },
            messages_view(rest@) == non_system(all.take(i as int)),
        decreases ms.len() - i,
    {
        let ghost before = rest@;
        proof {
            assert(all.take(i + 1).drop_last() =~= all.take(i as int));
            assert(all.take(i + 1).last() == message_view(ms@[i as int]));
            assert(all.take(i + 1) =~= all.take(i as int).push(message_view(ms@[i as int])));
            all.take(i as int).lemma_filter_push(message_view(ms@[i as int]), |m: (Seq<char>, Seq<char>)| m.0 != "system"@);
        }
        if same_text(ms[i].role.as_str(), "system") {
            system = Some(ms[i].content.clone());
        } else {
            rest.push(copy_message(&ms[i]));
            proof {
                assert(messages_view(rest@) =~= messages_view(before).push(message_view(ms@[i as int])));
            }
        }
        i = i + 1;
    }
    proof {
        assert(all.take(i as int) =~= all);
    }
    (system, rest)
}

/// How Gemini names the role of a message: `model` for the assistant,
/// `user` for anyone else.
pub fn gemini_role(role: &str) -> (r: &'static str)
    ensures
        r@ == if role@ == "assistant"@ { "model"@ } else { "user"@ },
{
    if same_text(role, "assistant") {
        "model"
    } else {
        "user"
    }
}

/// The reply of an OpenAI-format answer, given the error message it may
/// carry and the content of its first choice: the error, when there is
/// one, makes the answer unreadable; no first choice or no content in it
/// makes it empty.
pub fn openai_reply(error: Option<String>, first_content: Option<Option<String>>) -> (r: Result<String, LLMError>)
    ensures
        match error {
            Some(m) => r == Err::<String, LLMError>(LLMError::InvalidResponse(m)),
            None => match first_content {
                Some(Some(c)) => r == Ok::<String, LLMError>(c),
                _ => r == Err::<String, LLMError>(LLMError::EmptyResponse),
            },
        },
{
    match error {
        Some(m) => Err(LLMError::InvalidResponse(m)),
        None => match first_content {
            Some(Some(c)) => Ok(c),
            _ => Err(LLMError::EmptyResponse),
        },
    }
}

/// The texts of the pieces that carry one, one after the other.
pub open spec fn joined(pieces: Seq<Option<Seq<char>>>) -> Seq<char>
    decreases pieces.len(),
{
    if pieces.len() == 0 {
        Seq::empty()
    } else {
        joined(pieces.drop_last()) + match pieces.last() {
            Some(t) => t,
            None => Seq::empty(),
        }
    }
}

/// The plain values of optional texts.
pub open spec fn options_view(v: Seq<Option<String>>) -> Seq<Option<Seq<char>>> {
    v.map_values(|o: Option<String>| match o { Some(t) => Some(t@), None => None })
}

/// The texts of the pieces that carry one, joined (see `joined`).
fn join_pieces(pieces: &Vec<Option<String>>) -> (s: String)
    ensures
        s@ == joined(options_view(pieces@)),
{
    let ghost ps = options_view(pieces@);
    let mut s = String::new();
    let mut i: usize = 0;
    while i < pieces.len()
        invariant
            ps == options_view(pieces@),
            i <= pieces.len(),
            s@ == joined(ps.take(i as int)),
        decreases pieces.len() - i,
    {
        proof {
            assert(ps.take(i + 1).drop_last() =~= ps.take(i as int));
        }
        match &pieces[i] {
            Some(t) => push_str(&mut s, t.as_str()),
            None => {},
        }
        i = i + 1;
    }
    proof {
        assert(ps.take(i as int) =~= ps);
    }
    s
}

/// The reply of an answer made of pieces of text (the text blocks of an
/// Anthropic answer, the parts of a Gemini answer's first candidate): the
/// pieces joined, or an empty answer when they hold no text.
pub fn joined_reply(pieces: &Vec<Option<String>>) -> (r: Result<String, LLMError>)
    ensures
        match r {
            Ok(t) => t@ == joined(options_view(pieces@)) && t@.len() > 0,
            Err(e) => e == LLMError::EmptyResponse && joined(options_view(pieces@)).len() == 0,
        },
{
    let s = join_pieces(pieces);
    if s.as_str().is_empty() {
        Err(LLMError::EmptyResponse)
    } else {
        Ok(s)
    }
}

/// The text blocks of an Anthropic answer: the text of each block of type
/// `text`, in order.
pub fn anthropic_text_blocks(blocks: &Vec<(String, Option<String>)>) -> (v: Vec<Option<String>>)
    ensures
        v@.len() == blocks@.len(),
        forall|i: int| 0 <= i < blocks@.len() ==> #[trigger] v@[i] == if blocks@[i].0@ == "text"@ { blocks@[i].1 } else { None::<String> },
{
    let mut v: Vec<Option<String>> = Vec::new();
    let mut i: usize = 0;
    while i < blocks.len()
        invariant
            i <= blocks.len(),
            v@.len() == i,
            forall|j: int| 0 <= j < i ==> #[trigger] v@[j] == if blocks@[j].0@ == "text"@ { blocks@[j].1 } else { None::<String> },
        decreases blocks.len() - i,
    {
        let b = &blocks[i];
        if same_text(b.0.as_str(), "text") {
            let t = match &b.1 {
                Some(x) => Some(x.clone()),
                None => None,
            };
            v.push(t);
        } else {
            v.push(None);
        }
        i = i + 1;
    }
    v
}

} // verus!
