//! The memory manager: orchestrates one turn — assemble the request, let the
//! caller submit it, then account the reported token total, evict and append
//! — and exposes the conversation-inspection and reset operations.
//!
//! The submission itself (the network call) is the caller's: `prepare_turn`
//! yields the exact message list to submit, and `settle_turn` consumes the
//! raw response body. Either a whole exchange is recorded or nothing changes.

use vstd::prelude::*;
use vstd::string::StringExecFns;

use crate::accounting::evicted_history;
use crate::assemble;
use crate::assemble::assembled;
use crate::model::{
    Conversation, ConversationView, Exchange, ExchangeView, Message, MessageView, Role,
    history_total,
};
use crate::reply::{
    chat_fallback, chat_fallback_text, chat_reply_of, extract_chat_reply, trim_reply, trimmed,
};
use crate::store::{ConversationStore, with_cleared_history, with_cleared_persona};

verus! {

/// The author name recorded on stored assistant messages.
pub open spec fn assistant_name() -> Seq<char> {
    "ChatGPT"@
}

/// The result of settling one turn: the user-visible reply, and whether an
/// exchange was recorded.
pub struct TurnOutcome {
    pub reply: String,
    pub saved: bool,
}

/// The exchange a settled turn records: the user message as submitted, the
/// assistant's trimmed reply, and the incremental token cost `inc`.
pub open spec fn recorded_exchange(author: Seq<char>, text: Seq<char>, reply: Seq<char>, inc: int) -> ExchangeView {
    ExchangeView {
        token_cost: inc,
        user: MessageView { role: Role::User, author, content: text },
        assistant: MessageView {
            role: Role::Assistant,
            author: assistant_name(),
            content: trimmed(reply),
        },
    }
}

/// How one well-formed reply settles a conversation: the incremental cost is
/// the reported total minus what the stored history already accounts for;
/// a negative incremental cost records nothing (the turn degrades to a
/// stateless call); otherwise eviction and append happen as one step.
pub open spec fn turn_applied(
    pre: ConversationView,
    limit: int,
    author: Seq<char>,
    text: Seq<char>,
    reply: Seq<char>,
    total: int,
    post: ConversationView,
    saved: bool,
) -> bool {
    let inc = total - history_total(pre.history);
    if inc < 0 {
        post == pre && !saved
    } else {
        &&& saved
        &&& post.persona == pre.persona
        &&& post.history == evicted_history(pre.history, limit, recorded_exchange(author, text, reply, inc))
    }
}

/// The conversation memory manager: the store plus the immutable budget
/// configuration read at startup (`0` meaning unlimited in both).
pub struct MemoryManager {
    pub store: ConversationStore,
    pub memory_limit: i64,
    pub prompt_limit: i64,
}

impl MemoryManager {
    pub open spec fn wf(self) -> bool {
        &&& self.store.wf()
        &&& self.memory_limit >= 0
        &&& self.prompt_limit >= 0
    }

    /// The conversation under `id` as this manager sees it.
    pub open spec fn spec_conv(self, id: u64) -> ConversationView {
        self.store.spec_conv(id)
    }

    pub fn new(memory_limit: i64, prompt_limit: i64) -> (m: MemoryManager)
        requires
            memory_limit >= 0,
            prompt_limit >= 0,
        ensures
            m.wf(),
            m.memory_limit == memory_limit,
            m.prompt_limit == prompt_limit,
            forall|id: u64| m.spec_conv(id) == crate::store::empty_conversation(),
    {
        MemoryManager { store: ConversationStore::new(), memory_limit, prompt_limit }
    }

    /// Build the message list for one turn: persona messages, stored history
    /// oldest first, then the new user message. Empty input is a no-op and
    /// yields nothing.
    pub fn prepare_turn(&self, id: u64, author: &str, text: &str) -> (r: Option<Vec<Message>>)
        requires
            self.wf(),
        ensures
            r is None <==> text@.len() == 0,
            r matches Some(msgs) ==> msgs.deep_view() == assembled(
                self.spec_conv(id).persona,
                self.spec_conv(id).history,
                (MessageView { role: Role::User, author: author@, content: text@ }),
            ),
    {
        if text.unicode_len() == 0 {
            return None;
        }
        let conv = self.store.snapshot(id);
        let user = Message::new(Role::User, String::from_str(author), String::from_str(text));
        Some(assemble::assemble(&conv, &user))
    }

    /// Settle a turn from a reply already extracted: trim it, derive the
    /// incremental cost from the reported total, and either record the whole
    /// exchange (evicting as the budget demands) or, on a negative
    /// incremental cost, record nothing.
    pub fn settle_turn_decided(
        &mut self,
        id: u64,
        author: &str,
        text: &str,
        reply: String,
        total: i64,
    ) -> (outcome: TurnOutcome)
        requires
            old(self).wf(),
        ensures
            final(self).wf(),
            final(self).memory_limit == old(self).memory_limit,
            final(self).prompt_limit == old(self).prompt_limit,
            outcome.reply@ == trimmed(reply@),
            turn_applied(
                old(self).spec_conv(id),
                old(self).memory_limit as int,
                author@,
                text@,
                reply@,
                total as int,
                final(self).spec_conv(id),
                outcome.saved,
            ),
            forall|o: u64| o != id ==> final(self).spec_conv(o) == old(self).spec_conv(o),
            old(self).memory_limit > 0 && outcome.saved ==> history_total(
                final(self).spec_conv(id).history,
            ) <= old(self).memory_limit as int || final(self).spec_conv(id).history.len() == 1,
    {
        let old_total = self.store.total_history_tokens(id);
        let trimmed_reply = trim_reply(reply.as_str());
        let inc_wide: i128 = total as i128 - old_total as i128;
        if inc_wide < 0 {
            return TurnOutcome { reply: trimmed_reply, saved: false };
        }
        let inc: i64 = inc_wide as i64;
        let user = Message::new(Role::User, String::from_str(author), String::from_str(text));
        let assistant = Message::new(
            Role::Assistant,
            String::from_str("ChatGPT"),
            trimmed_reply.clone(),
        );
        let e = Exchange::new(inc, user, assistant);
        proof {
            crate::model::lemma_total_nonneg(old(self).spec_conv(id).history);
        }
        self.store.evict_and_append(id, e, self.memory_limit);
        TurnOutcome { reply: trimmed_reply, saved: true }
    }

    /// Settle a turn from the raw response body: on a body with extractable
    /// reply text and token total, settle as `settle_turn_decided`; on a
    /// malformed body, return the fixed fallback reply and change nothing.
    pub fn settle_turn(&mut self, id: u64, author: &str, text: &str, body: &str) -> (outcome:
        TurnOutcome)
        requires
            old(self).wf(),
        ensures
            final(self).wf(),
            final(self).memory_limit == old(self).memory_limit,
            final(self).prompt_limit == old(self).prompt_limit,
            chat_reply_of(body@) is None ==> !outcome.saved && outcome.reply@
                == chat_fallback_text() && forall|o: u64|
                final(self).spec_conv(o) == old(self).spec_conv(o),
            chat_reply_of(body@) matches Some(q) ==> outcome.reply@ == trimmed(q.0)
                && turn_applied(
                old(self).spec_conv(id),
                old(self).memory_limit as int,
                author@,
                text@,
                q.0,
                q.1,
                final(self).spec_conv(id),
                outcome.saved,
            ),
            forall|o: u64| o != id ==> final(self).spec_conv(o) == old(self).spec_conv(o),
    {
        match extract_chat_reply(body) {
            Some(rt) => {
                let (reply, total) = rt;
                self.settle_turn_decided(id, author, text, reply, total)
            },
            None => TurnOutcome { reply: chat_fallback(), saved: false },
        }
    }

    /// Tokens accounted to the stored history, and the configured budget
    /// (`0` meaning unlimited).
    pub fn report_token_usage(&self, id: u64) -> (r: (i64, i64))
        requires
            self.wf(),
        ensures
            r.0 as int == history_total(self.spec_conv(id).history),
            r.1 == self.memory_limit,
    {
        (self.store.total_history_tokens(id), self.memory_limit)
    }

    /// An owned copy of the conversation under `id`, for listing.
    pub fn snapshot(&self, id: u64) -> (c: Conversation)
        requires
            self.wf(),
        ensures
            c@ == self.spec_conv(id),
            c@.wf(),
    {
        self.store.snapshot(id)
    }

    /// Append a persona message (role System) to the conversation under `id`.
    pub fn append_persona(&mut self, id: u64, text: String)
        requires
            old(self).wf(),
        ensures
            final(self).wf(),
            final(self).memory_limit == old(self).memory_limit,
            final(self).prompt_limit == old(self).prompt_limit,
            final(self).spec_conv(id).persona == old(self).spec_conv(id).persona.push(
                (MessageView { role: Role::System, author: Seq::empty(), content: text@ }),
            ),
            final(self).spec_conv(id).history == old(self).spec_conv(id).history,
            forall|o: u64| o != id ==> final(self).spec_conv(o) == old(self).spec_conv(o),
    {
        self.store.append_persona(id, text);
    }

    /// Clear the stored exchanges of `id`; idempotent, reports whether there
    /// was anything to clear.
    pub fn clear_history(&mut self, id: u64) -> (had: bool)
        requires
            old(self).wf(),
        ensures
            final(self).wf(),
            final(self).memory_limit == old(self).memory_limit,
            final(self).prompt_limit == old(self).prompt_limit,
            final(self).spec_conv(id) == with_cleared_history(old(self).spec_conv(id)),
            had == (old(self).spec_conv(id).history.len() > 0),
            forall|o: u64| o != id ==> final(self).spec_conv(o) == old(self).spec_conv(o),
    {
        self.store.clear_history(id)
    }

    /// The transcript of the stored exchanges of `id`, or nothing when no
    /// exchange is stored.
    pub fn list_memory(&self, id: u64) -> (r: Option<String>)
        requires
            self.wf(),
        ensures
            r is None <==> self.spec_conv(id).history.len() == 0,
            r matches Some(t) ==> t@ == crate::transcript::history_transcript(
                self.spec_conv(id).history,
            ),
    {
        let conv = self.store.snapshot(id);
        if conv.history.len() == 0 {
            None
        } else {
            Some(crate::transcript::render_history(&conv.history))
        }
    }

    /// The transcript of the persona messages of `id`, or nothing when none
    /// is configured.
    pub fn list_persona(&self, id: u64) -> (r: Option<String>)
        requires
            self.wf(),
        ensures
            r is None <==> self.spec_conv(id).persona.len() == 0,
            r matches Some(t) ==> t@ == crate::transcript::persona_transcript(
                self.spec_conv(id).persona,
            ),
    {
        let conv = self.store.snapshot(id);
        if conv.persona.len() == 0 {
            None
        } else {
            Some(crate::transcript::render_persona(&conv.persona))
        }
    }

    /// Clear the persona messages of `id`; idempotent, reports whether there
    /// was anything to clear.
    pub fn clear_persona(&mut self, id: u64) -> (had: bool)
        requires
            old(self).wf(),
        ensures
            final(self).wf(),
            final(self).memory_limit == old(self).memory_limit,
            final(self).prompt_limit == old(self).prompt_limit,
            final(self).spec_conv(id) == with_cleared_persona(old(self).spec_conv(id)),
            had == (old(self).spec_conv(id).persona.len() > 0),
            forall|o: u64| o != id ==> final(self).spec_conv(o) == old(self).spec_conv(o),
    {
        self.store.clear_persona(id)
    }
}

} // verus!
