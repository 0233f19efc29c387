//! Request assembly: the exact ordered message list submitted to the
//! completion service — persona messages in insertion order, then each stored
//! exchange's user and assistant message oldest first, then the new user
//! message.

use vstd::prelude::*;

use crate::model::{Conversation, ExchangeView, Message, MessageView};

verus! {

/// The message sequence a stored history contributes: each exchange's user
/// message followed by its assistant message, oldest exchange first.
pub open spec fn history_msgs(h: Seq<ExchangeView>) -> Seq<MessageView>
    decreases h.len(),
{
    if h.len() == 0 {
        Seq::empty()
    } else {
        history_msgs(h.drop_last()) + seq![h.last().user, h.last().assistant]
    }
}

/// Ordering law, read elementwise: the history contributes two messages per
/// exchange; the exchange at position `k` supplies the messages at positions
/// `2k` (its user half) and `2k + 1` (its assistant half).
pub proof fn lemma_history_msgs_index(h: Seq<ExchangeView>)
    ensures
        history_msgs(h).len() == 2 * h.len(),
        forall|k: int| 0 <= k < h.len() ==> history_msgs(h)[2 * k] == (#[trigger] h[k]).user,
        forall|k: int| 0 <= k < h.len() ==> history_msgs(h)[2 * k + 1] == (#[trigger] h[k]).assistant,
    decreases h.len(),
{
    if h.len() > 0 {
        lemma_history_msgs_index(h.drop_last());
        assert(forall|k: int| 0 <= k < h.len() - 1 ==> h.drop_last()[k] == #[trigger] h[k]);
    }
}

/// The full assembled request for one turn.
pub open spec fn assembled(persona: Seq<MessageView>, h: Seq<ExchangeView>, new_user: MessageView) -> Seq<MessageView> {
    persona + history_msgs(h) + seq![new_user]
}

/// Build the ordered message list for one turn: persona messages in append
/// order, stored exchanges oldest first (user then assistant), and the new
/// user message last.
pub fn assemble(conv: &Conversation, new_user: &Message) -> (out: Vec<Message>)
    ensures
        out.deep_view() == assembled(conv@.persona, conv@.history, new_user@),
{
    let ghost p = conv.persona.deep_view();
    let ghost h = conv.history.deep_view();
    let mut out: Vec<Message> = Vec::new();
    let mut i: usize = 0;
    proof {
        assert(out.deep_view() =~= Seq::<MessageView>::empty());
    }
    while i < conv.persona.len()
        invariant
            0 <= i <= conv.persona.len(),
            p == conv.persona.deep_view(),
            p.len() == conv.persona.len(),
            out.deep_view() == p.take(i as int),
        decreases conv.persona.len() - i,
    {
        let ghost pre = out.deep_view();
        let m = conv.persona[i].clone();
        proof {
            assert(m@ == conv.persona@[i as int]@);
            assert(p[i as int] == conv.persona@[i as int]@);
        }
        out.push(m);
        i = i + 1;
        proof {
            assert(out.deep_view() =~= pre + seq![p[i as int - 1]]);
            assert(pre + seq![p[i as int - 1]] =~= p.take(i as int));
        }
    }
    proof {
        assert(p.take(p.len() as int) =~= p);
    }
    let mut j: usize = 0;
    while j < conv.history.len()
        invariant
            0 <= j <= conv.history.len(),
            p == conv.persona.deep_view(),
            h == conv.history.deep_view(),
            h.len() == conv.history.len(),
            out.deep_view() == p + history_msgs(h.take(j as int)),
        decreases conv.history.len() - j,
    {
        let ghost pre = out.deep_view();
        let u = conv.history[j].user.clone();
        let a = conv.history[j].assistant.clone();
        proof {
            assert(h[j as int] == conv.history@[j as int]@);
            assert(u@ == h[j as int].user);
            assert(a@ == h[j as int].assistant);
        }
        out.push(u);
        out.push(a);
        j = j + 1;
        proof {
            assert(out.deep_view() =~= pre + seq![h[j as int - 1].user, h[j as int - 1].assistant]);
            assert(h.take(j as int).drop_last() =~= h.take(j as int - 1));
            assert(h.take(j as int).last() == h[j as int - 1]);
            assert(pre + seq![h[j as int - 1].user, h[j as int - 1].assistant] =~= p + history_msgs(
                h.take(j as int),
            ));
        }
    }
    proof {
        assert(h.take(h.len() as int) =~= h);
    }
    out.push(new_user.clone());
    proof {
        assert(out.deep_view() =~= assembled(p, h, new_user@));
    }
    out
}

} // verus!
