//! Human-readable transcripts of a conversation's stored state, for the
//! listing operations.

use vstd::prelude::*;
use vstd::string::StringExecFns;

use crate::model::{Exchange, ExchangeView, Message, MessageView};

verus! {

/// One transcript line: the author's name, a separator, the content, and a
/// line break.
pub open spec fn msg_line(m: MessageView) -> Seq<char> {
    m.author + ": "@ + m.content + "\n"@
}

/// The transcript of a stored history: for each exchange, oldest first, the
/// user line then the assistant line.
pub open spec fn history_transcript(h: Seq<ExchangeView>) -> Seq<char>
    decreases h.len(),
{
    if h.len() == 0 {
        Seq::empty()
    } else {
        history_transcript(h.drop_last()) + msg_line(h.last().user) + msg_line(h.last().assistant)
    }
}

/// The transcript of the persona messages: each content on its own line, in
/// insertion order.
pub open spec fn persona_transcript(p: Seq<MessageView>) -> Seq<char>
    decreases p.len(),
{
    if p.len() == 0 {
        Seq::empty()
    } else {
        persona_transcript(p.drop_last()) + p.last().content + "\n"@
    }
}

/// Render the stored history as a transcript.
pub fn render_history(history: &Vec<Exchange>) -> (out: String)
    ensures
        out@ == history_transcript(history.deep_view()),
{
    let ghost h = history.deep_view();
    let mut out = String::new();
    let mut i: usize = 0;
    proof {
        assert(h.take(0) =~= Seq::<ExchangeView>::empty());
    }
    while i < history.len()
        invariant
            0 <= i <= history.len(),
            h == history.deep_view(),
            h.len() == history.len(),
            out@ == history_transcript(h.take(i as int)),
        decreases history.len() - i,
    {
        let x = &history[i];
        out.append(x.user.author.as_str());
        out.append(": ");
        out.append(x.user.content.as_str());
        out.append("\n");
        out.append(x.assistant.author.as_str());
        out.append(": ");
        out.append(x.assistant.content.as_str());
        out.append("\n");
        i = i + 1;
        proof {
            assert(h.take(i as int).drop_last() =~= h.take(i as int - 1));
            assert(h.take(i as int).last() == h[i as int - 1]);
            assert(out@ =~= history_transcript(h.take(i as int)));
        }
    }
    proof {
        assert(h.take(h.len() as int) =~= h);
    }
    out
}

/// Render the persona messages as a transcript.
pub fn render_persona(persona: &Vec<Message>) -> (out: String)
    ensures
        out@ == persona_transcript(persona.deep_view()),
{
    let ghost p = persona.deep_view();
    let mut out = String::new();
    let mut i: usize = 0;
    proof {
        assert(p.take(0) =~= Seq::<MessageView>::empty());
    }
    while i < persona.len()
        invariant
            0 <= i <= persona.len(),
            p == persona.deep_view(),
            p.len() == persona.len(),
            out@ == persona_transcript(p.take(i as int)),
        decreases persona.len() - i,
    {
        out.append(persona[i].content.as_str());
        out.append("\n");
        i = i + 1;
        proof {
            assert(p.take(i as int).drop_last() =~= p.take(i as int - 1));
            assert(p.take(i as int).last() == p[i as int - 1]);
            assert(out@ =~= persona_transcript(p.take(i as int)));
        }
    }
    proof {
        assert(p.take(p.len() as int) =~= p);
    }
    out
}

} // verus!
