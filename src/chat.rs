//! Shapes of the chat endpoints' requests and answers, and the block of
//! user facts put before a prompt.
use vstd::prelude::*;

verus! {

/// Asks for the context of a chat question.
pub struct ChatContextRequest {
    pub question: String,
    pub timezone: String,
    pub app_id: Option<String>,
    pub messages: Vec<ChatMessageInput>,
}

/// An earlier message of a chat.
pub struct ChatMessageInput {
    pub text: String,
    pub sender: String,
}

/// Asks for the opening message of a chat session.
pub struct InitialMessageRequest {
    pub session_id: String,
    pub app_id: Option<String>,
}

/// The opening message of a chat session and its id.
pub struct InitialMessageResponse {
    pub message: String,
    pub message_id: String,
}

/// Asks for a title for a chat session.
pub struct GenerateTitleRequest {
    pub session_id: String,
    pub messages: Vec<TitleMessageInput>,
}

/// A message a session title is made from.
pub struct TitleMessageInput {
    pub text: String,
    pub sender: String,
}

/// A chat session's title.
pub struct GenerateTitleResponse {
    pub title: String,
}

/// A memory as put into a chat's context.
pub struct MemorySummary {
    pub id: String,
    pub content: String,
    pub category: String,
}

/// The time zone of a context request that names none.
pub fn default_timezone() -> (r: String)
    ensures
        r@ == "UTC"@,
{
    String::from_str("UTC")
}

/// The most memories put into one context block.
pub const MAX_CONTEXT_MEMORIES: usize = 30;

/// One line `- content` per memory, each after a line break.
pub open spec fn fact_lines(ms: Seq<MemorySummary>) -> Seq<char>
    decreases ms.len(),
{
    if ms.len() == 0 {
        Seq::empty()
    } else {
        fact_lines(ms.drop_last()) + "\n- "@ + ms.last().content@
    }
}

/// The user-facts block for `ms`: nothing for no memory, else a tagged block
/// listing the first thirty.
pub open spec fn memories_context(ms: Seq<MemorySummary>) -> Seq<char> {
    if ms.len() == 0 {
        Seq::empty()
    } else {
        let shown = if ms.len() > 30 {
            ms.subrange(0, 30)
        } else {
            ms
        };
        "<user_facts>\nFacts about the user:"@ + fact_lines(shown) + "\n</user_facts>"@
    }
}

/// The user-facts block put before a chat prompt.
pub fn format_memories_context(memories: &[MemorySummary]) -> (r: String)
    ensures
        r@ == memories_context(memories@),
{
    if memories.len() == 0 {
        return String::new();
    }
    let n: usize = if memories.len() > MAX_CONTEXT_MEMORIES {
        MAX_CONTEXT_MEMORIES
    } else {
        memories.len()
    };
    let ghost shown = memories@.subrange(0, n as int);
    let mut out = String::from_str("<user_facts>\nFacts about the user:");
    let ghost head = out@;
    let mut i: usize = 0;
    while i < n
        invariant
            n <= memories@.len(),
            i <= n,
            out@ == head + fact_lines(memories@.subrange(0, i as int)),
        decreases n - i,
    {
        proof {
            assert(memories@.subrange(0, i + 1).drop_last() =~= memories@.subrange(0, i as int));
        }
        out.append("\n- ");
        out.append(memories[i].content.as_str());
        proof {
            assert(out@ =~= head + fact_lines(memories@.subrange(0, i + 1)));
        }
        i += 1;
    }
    out.append("\n</user_facts>");
    proof {
        if memories@.len() <= 30 {
            assert(shown =~= memories@);
        }
    }
    out
}

} // verus!
