//! The conversation store: a lazily populated registry mapping a conversation
//! identifier to its conversation. Every mutation is one atomic operation on
//! one conversation; no caller ever observes a conversation mid-update.

use vstd::prelude::*;

use std::collections::HashMap;

use crate::accounting;
use crate::accounting::evicted_history;
use crate::model::{
    Conversation, ConversationView, Exchange, ExchangeView, Message, MessageView, Role,
    history_total,
};

verus! {

broadcast use vstd::std_specs::hash::group_hash_axioms;

/// The view of a conversation no identifier was ever seen for.
pub open spec fn empty_conversation() -> ConversationView {
    ConversationView { persona: Seq::empty(), history: Seq::empty() }
}

/// A conversation view after its exchange log is cleared.
pub open spec fn with_cleared_history(c: ConversationView) -> ConversationView {
    ConversationView { history: Seq::empty(), ..c }
}

/// A conversation view after its persona messages are cleared.
pub open spec fn with_cleared_persona(c: ConversationView) -> ConversationView {
    ConversationView { persona: Seq::empty(), ..c }
}

/// Idempotence law: clearing an exchange log is a projection — clearing it
/// twice in a row leaves exactly the state one clearing leaves.
pub proof fn lemma_clear_history_idempotent(c: ConversationView)
    ensures
        with_cleared_history(with_cleared_history(c)) == with_cleared_history(c),
{
}

/// Idempotence law: clearing the persona twice in a row leaves exactly the
/// state one clearing leaves.
pub proof fn lemma_clear_persona_idempotent(c: ConversationView)
    ensures
        with_cleared_persona(with_cleared_persona(c)) == with_cleared_persona(c),
{
}

/// The registry of conversations, keyed by conversation identifier.
pub struct ConversationStore {
    pub map: HashMap<u64, Conversation>,
}

impl ConversationStore {
    /// The conversation stored under `id`; an identifier never seen yet holds
    /// the empty conversation.
    pub open spec fn spec_conv(self, id: u64) -> ConversationView {
        if self.map@.contains_key(id) {
            self.map@[id]@
        } else {
            empty_conversation()
        }
    }

    /// Every stored conversation is well formed.
    pub open spec fn wf(self) -> bool {
        forall|id: u64| self.map@.contains_key(id) ==> (#[trigger] self.map@[id])@.wf()
    }

    pub fn new() -> (s: ConversationStore)
        ensures
            s.wf(),
            forall|id: u64| s.spec_conv(id) == empty_conversation(),
    {
        ConversationStore { map: HashMap::new() }
    }

    /// Take ownership of the conversation under `id`, creating it empty when
    /// the identifier is new. Pair with `put` around a mutation.
    fn take_conv(&mut self, id: u64) -> (c: Conversation)
        ensures
            c@ == old(self).spec_conv(id),
            old(self).wf() ==> c@.wf(),
            !final(self).map@.contains_key(id),
            forall|o: u64| o != id ==> final(self).spec_conv(o) == old(self).spec_conv(o),
            forall|o: u64| o != id ==> final(self).map@.contains_key(o)
                == old(self).map@.contains_key(o),
            forall|o: u64| #![auto] o != id && final(self).map@.contains_key(o)
                ==> final(self).map@[o] == old(self).map@[o],
    {
        match self.map.remove(&id) {
            Some(c) => c,
            None => Conversation::empty(),
        }
    }

    /// Store `c` back under `id`.
    fn put_conv(&mut self, id: u64, c: Conversation)
        ensures
            final(self).map@ == old(self).map@.insert(id, c),
            final(self).spec_conv(id) == c@,
            forall|o: u64| o != id ==> final(self).spec_conv(o) == old(self).spec_conv(o),
    {
        self.map.insert(id, c);
    }

    /// Append a persona message: role System, empty author name, the given
    /// content. It will precede the history in every future assembly.
    pub fn append_persona(&mut self, id: u64, text: String)
        requires
            old(self).wf(),
        ensures
            final(self).wf(),
            final(self).spec_conv(id).persona == old(self).spec_conv(id).persona.push(
                (MessageView { role: Role::System, author: Seq::empty(), content: text@ }),
            ),
            final(self).spec_conv(id).history == old(self).spec_conv(id).history,
            forall|o: u64| o != id ==> final(self).spec_conv(o) == old(self).spec_conv(o),
    {
        let ghost pre = self.spec_conv(id);
        let mut conv = self.take_conv(id);
        let ghost pv = conv.persona.deep_view();
        conv.persona.push(Message::system(text));
        proof {
            assert(conv.persona.deep_view() =~= pv.push(
                (MessageView { role: Role::System, author: Seq::empty(), content: text@ }),
            ));
        }
        self.put_conv(id, conv);
    }

    /// Remove every persona message of `id`. Idempotent: on an empty persona
    /// it succeeds and reports that there was nothing to clear.
    pub fn clear_persona(&mut self, id: u64) -> (had: bool)
        requires
            old(self).wf(),
        ensures
            final(self).wf(),
            final(self).spec_conv(id) == with_cleared_persona(old(self).spec_conv(id)),
            had == (old(self).spec_conv(id).persona.len() > 0),
            forall|o: u64| o != id ==> final(self).spec_conv(o) == old(self).spec_conv(o),
    {
        let mut conv = self.take_conv(id);
        let had = conv.persona.len() > 0;
        conv.persona.clear();
        proof {
            assert(conv.persona.deep_view() =~= Seq::<MessageView>::empty());
        }
        self.put_conv(id, conv);
        had
    }

    /// Remove every stored exchange of `id`, leaving the persona in place.
    /// Idempotent: on an empty history it succeeds and reports that there was
    /// nothing to clear.
    pub fn clear_history(&mut self, id: u64) -> (had: bool)
        requires
            old(self).wf(),
        ensures
            final(self).wf(),
            final(self).spec_conv(id) == with_cleared_history(old(self).spec_conv(id)),
            had == (old(self).spec_conv(id).history.len() > 0),
            forall|o: u64| o != id ==> final(self).spec_conv(o) == old(self).spec_conv(o),
    {
        let mut conv = self.take_conv(id);
        let had = conv.history.len() > 0;
        conv.history.clear();
        proof {
            assert(conv.history.deep_view() =~= Seq::<ExchangeView>::empty());
        }
        self.put_conv(id, conv);
        had
    }

    /// Atomically evict what the budget demands and append the new exchange
    /// to the conversation under `id`; see `accounting::evict_and_append`.
    pub fn evict_and_append(&mut self, id: u64, e: Exchange, limit: i64)
        requires
            old(self).wf(),
            e@.wf(),
            limit >= 0,
            e@.token_cost + history_total(old(self).spec_conv(id).history) <= i64::MAX as int,
        ensures
            final(self).wf(),
            final(self).spec_conv(id).history == evicted_history(
                old(self).spec_conv(id).history,
                limit as int,
                e@,
            ),
            final(self).spec_conv(id).persona == old(self).spec_conv(id).persona,
            forall|o: u64| o != id ==> final(self).spec_conv(o) == old(self).spec_conv(o),
            limit > 0 ==> history_total(final(self).spec_conv(id).history) <= limit as int
                || final(self).spec_conv(id).history =~= seq![e@],
            limit > 0 && e@.token_cost <= limit as int ==> history_total(
                final(self).spec_conv(id).history,
            ) <= limit as int,
    {
        let mut conv = self.take_conv(id);
        accounting::evict_and_append(&mut conv.history, e, limit);
        self.put_conv(id, conv);
    }

    /// Sum of the stored token costs of the conversation under `id`.
    pub fn total_history_tokens(&self, id: u64) -> (total: i64)
        requires
            self.wf(),
        ensures
            total as int == history_total(self.spec_conv(id).history),
    {
        match self.map.get(&id) {
            Some(c) => accounting::total_tokens(&c.history),
            None => 0,
        }
    }

    /// An owned copy of the conversation under `id`, for reporting; the
    /// caller cannot reach the stored state through it.
    pub fn snapshot(&self, id: u64) -> (c: Conversation)
        requires
            self.wf(),
        ensures
            c@ == self.spec_conv(id),
            c@.wf(),
    {
        match self.map.get(&id) {
            Some(c) => {
                let mut persona: Vec<Message> = Vec::new();
                let mut history: Vec<Exchange> = Vec::new();
                let mut i: usize = 0;
                proof {
                    assert(persona.deep_view() =~= c.persona.deep_view().take(0));
                }
                while i < c.persona.len()
                    invariant
                        0 <= i <= c.persona.len(),
                        persona.deep_view() == c.persona.deep_view().take(i as int),
                    decreases c.persona.len() - i,
                {
                    let ghost pre = persona.deep_view();
                    persona.push(c.persona[i].clone());
                    i = i + 1;
                    proof {
                        assert(persona.deep_view() =~= pre.push(c.persona.deep_view()[i - 1]));
                        assert(pre.push(c.persona.deep_view()[i - 1]) =~= c.persona.deep_view()
                            .take(i as int));
                    }
                }
                let mut j: usize = 0;
                proof {
                    assert(history.deep_view() =~= c.history.deep_view().take(0));
                }
                while j < c.history.len()
                    invariant
                        0 <= j <= c.history.len(),
                        history.deep_view() == c.history.deep_view().take(j as int),
                    decreases c.history.len() - j,
                {
                    let ghost pre = history.deep_view();
                    history.push(c.history[j].clone());
                    j = j + 1;
                    proof {
                        assert(history.deep_view() =~= pre.push(c.history.deep_view()[j - 1]));
                        assert(pre.push(c.history.deep_view()[j - 1]) =~= c.history.deep_view()
                            .take(j as int));
                    }
                }
                let out = Conversation { persona, history };
                proof {
                    assert(c.persona.deep_view().take(c.persona.len() as int) =~= c.persona
                        .deep_view());
                    assert(c.history.deep_view().take(c.history.len() as int) =~= c.history
                        .deep_view());
                }
                out
            },
            None => Conversation::empty(),
        }
    }
}

} // verus!
