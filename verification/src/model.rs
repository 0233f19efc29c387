//! The data model: message roles, messages, stored exchanges, conversations,
//! and the token-cost sum over a history.

use vstd::prelude::*;

verus! {

/// The role a message plays in a conversation.
#[derive(Clone, Copy, PartialEq, Eq, Structural, Debug)]
pub enum Role {
    System,
    User,
    Assistant,
}

impl Role {
    /// The wire name of this role in the completion service's message format.
    pub fn label(&self) -> (r: &'static str)
        ensures
            self is System ==> r@ == "system"@,
            self is User ==> r@ == "user"@,
            self is Assistant ==> r@ == "assistant"@,
    {
        match self {
            Role::System => "system",
            Role::User => "user",
            Role::Assistant => "assistant",
        }
    }
}

/// One chat message. `author` is metadata for human-readable transcripts and
/// is never part of what the completion service receives.
pub struct Message {
    pub role: Role,
    pub author: String,
    pub content: String,
}

/// The mathematical value of a `Message`.
pub ghost struct MessageView {
    pub role: Role,
    pub author: Seq<char>,
    pub content: Seq<char>,
}

impl View for Message {
    type V = MessageView;

    open spec fn view(&self) -> MessageView {
        MessageView { role: self.role, author: self.author@, content: self.content@ }
    }
}

impl DeepView for Message {
    type V = MessageView;

    open spec fn deep_view(&self) -> MessageView {
        self@
    }
}

impl Clone for Message {
    fn clone(&self) -> (r: Self)
        ensures
            r@ == self@,
    {
        Message { role: self.role, author: self.author.clone(), content: self.content.clone() }
    }
}

impl Message {
    pub fn new(role: Role, author: String, content: String) -> (m: Message)
        ensures
            m@ == (MessageView { role, author: author@, content: content@ }),
    {
        Message { role, author, content }
    }

    /// A persona message: role System, empty author name.
    pub fn system(content: String) -> (m: Message)
        ensures
            m@.role == Role::System,
            m@.author == Seq::<char>::empty(),
            m@.content == content@,
    {
        Message { role: Role::System, author: String::new(), content }
    }
}

/// One accepted user/assistant round-trip together with the token cost
/// attributed to it. The atomic unit of storage and eviction.
pub struct Exchange {
    pub token_cost: i64,
    pub user: Message,
    pub assistant: Message,
}

/// The mathematical value of an `Exchange`.
pub ghost struct ExchangeView {
    pub token_cost: int,
    pub user: MessageView,
    pub assistant: MessageView,
}

impl View for Exchange {
    type V = ExchangeView;

    open spec fn view(&self) -> ExchangeView {
        ExchangeView { token_cost: self.token_cost as int, user: self.user@, assistant: self.assistant@ }
    }
}

impl DeepView for Exchange {
    type V = ExchangeView;

    open spec fn deep_view(&self) -> ExchangeView {
        self@
    }
}

impl Clone for Exchange {
    fn clone(&self) -> (r: Self)
        ensures
            r@ == self@,
    {
        Exchange { token_cost: self.token_cost, user: self.user.clone(), assistant: self.assistant.clone() }
    }
}

impl ExchangeView {
    /// A stored exchange never carries a negative cost, and its two halves
    /// keep their roles.
    pub open spec fn wf(self) -> bool {
        &&& self.token_cost >= 0
        &&& self.user.role == Role::User
        &&& self.assistant.role == Role::Assistant
    }
}

impl Exchange {
    pub fn new(token_cost: i64, user: Message, assistant: Message) -> (e: Exchange)
        ensures
            e@ == (ExchangeView { token_cost: token_cost as int, user: user@, assistant: assistant@ }),
    {
        Exchange { token_cost, user, assistant }
    }
}

/// A history is well formed when every stored exchange is.
pub open spec fn history_wf(h: Seq<ExchangeView>) -> bool {
    forall|i: int| 0 <= i < h.len() ==> (#[trigger] h[i]).wf()
}

/// Sum of the stored token costs over a history.
pub open spec fn history_total(h: Seq<ExchangeView>) -> int
    decreases h.len(),
{
    if h.len() == 0 {
        0
    } else {
        history_total(h.drop_last()) + h.last().token_cost
    }
}

/// Extending a prefix of a history by one entry adds that entry's cost.
pub proof fn lemma_total_take_step(h: Seq<ExchangeView>, i: int)
    requires
        0 <= i < h.len(),
    ensures
        history_total(h.take(i + 1)) == history_total(h.take(i)) + h[i].token_cost,
{
    assert(h.take(i + 1).drop_last() =~= h.take(i));
    assert(h.take(i + 1).last() == h[i]);
}

/// The whole history is its own full-length prefix.
pub proof fn lemma_total_take_all(h: Seq<ExchangeView>)
    ensures
        history_total(h.take(h.len() as int)) == history_total(h),
{
    assert(h.take(h.len() as int) =~= h);
}

/// Dropping the oldest entry of a suffix removes exactly its cost.
pub proof fn lemma_total_skip_step(h: Seq<ExchangeView>, k: int)
    requires
        0 <= k < h.len(),
    ensures
        history_total(h.skip(k)) == h[k].token_cost + history_total(h.skip(k + 1)),
    decreases h.len(),
{
    if k + 1 == h.len() {
        assert(h.skip(k) =~= seq![h[k]]);
        assert(h.skip(k + 1) =~= Seq::<ExchangeView>::empty());
        assert(h.skip(k).drop_last() =~= Seq::<ExchangeView>::empty());
    } else {
        lemma_total_skip_step(h.drop_last(), k);
        assert(h.skip(k).drop_last() =~= h.drop_last().skip(k));
        assert(h.skip(k + 1).drop_last() =~= h.drop_last().skip(k + 1));
        assert(h.skip(k).last() == h.last());
        assert(h.skip(k + 1).last() == h.last());
    }
}

/// A well-formed history has a non-negative total cost.
pub proof fn lemma_total_nonneg(h: Seq<ExchangeView>)
    requires
        history_wf(h),
    ensures
        history_total(h) >= 0,
    decreases h.len(),
{
    if h.len() > 0 {
        assert(history_wf(h.drop_last())) by {
            assert(forall|i: int|
                0 <= i < h.drop_last().len() ==> h.drop_last()[i] == #[trigger] h[i]);
        }
        lemma_total_nonneg(h.drop_last());
    }
}

/// A suffix of a well-formed history costs no more than the whole.
pub proof fn lemma_total_skip_le(h: Seq<ExchangeView>, k: int)
    requires
        history_wf(h),
        0 <= k <= h.len(),
    ensures
        0 <= history_total(h.skip(k)) <= history_total(h),
    decreases k,
{
    if k == 0 {
        assert(h.skip(0) =~= h);
        lemma_total_nonneg(h);
    } else {
        lemma_total_skip_le(h, k - 1);
        lemma_total_skip_step(h, k - 1);
        assert(h[k - 1].wf());
        assert(history_wf(h.skip(k))) by {
            assert(forall|i: int|
                0 <= i < h.skip(k).len() ==> h.skip(k)[i] == #[trigger] h[i + k]);
        }
        lemma_total_nonneg(h.skip(k));
    }
}

/// A conversation: operator-configured persona messages plus the stored
/// exchange log, oldest first.
pub struct Conversation {
    pub persona: Vec<Message>,
    pub history: Vec<Exchange>,
}

/// The mathematical value of a `Conversation`.
pub ghost struct ConversationView {
    pub persona: Seq<MessageView>,
    pub history: Seq<ExchangeView>,
}

impl View for Conversation {
    type V = ConversationView;

    open spec fn view(&self) -> ConversationView {
        ConversationView { persona: self.persona.deep_view(), history: self.history.deep_view() }
    }
}

impl ConversationView {
    /// Persona messages all carry the System role; every exchange is well
    /// formed; the accumulated cost fits the machine integer that carries it.
    pub open spec fn wf(self) -> bool {
        &&& forall|i: int| 0 <= i < self.persona.len() ==> (#[trigger] self.persona[i]).role == Role::System
        &&& history_wf(self.history)
        &&& history_total(self.history) <= i64::MAX as int
    }
}

impl Conversation {
    /// The empty conversation a fresh identifier starts from.
    pub fn empty() -> (c: Conversation)
        ensures
            c@.persona == Seq::<MessageView>::empty(),
            c@.history == Seq::<ExchangeView>::empty(),
            c@.wf(),
    {
        let c = Conversation { persona: Vec::new(), history: Vec::new() };
        proof {
            assert(c@.persona =~= Seq::<MessageView>::empty());
            assert(c@.history =~= Seq::<ExchangeView>::empty());
        }
        c
    }
}

} // verus!
