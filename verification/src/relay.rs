//! The relay: each message goes to every user but its sender, and failed
//! writes show which users have gone.
//!
//! `transfer_message` says what is to be written to whom. The writing itself is
//! the caller's; it reports the users whose write failed to `Registry::prune`.
//! That is the only way in which a user who has disconnected leaves the registry.

use crate::frame::{encode, frame_of, MESSAGE_SIZE};
use crate::registry::{
    distinct_ids, has_user, lemma_position, lemma_pruned, lemma_pruned_push, name_of, position,
    pruned, views, Registry,
};
use crate::text::{line_of, relay_line};
use crate::user::{Message, UserView};
use vstd::prelude::*;
use vstd::string::*;

verus! {

/// One message on its way out: the frame, and the users it goes to, in the
/// order in which it is to be written to them.
#[derive(Debug, PartialEq, Eq)]
pub struct Outbound {
    pub frame: Vec<u8>,
    pub recipients: Vec<u128>,
}

/// The identifiers of `users`, in their order.
pub open spec fn ids<H>(users: Seq<UserView<H>>) -> Seq<u128> {
    users.map_values(|u: UserView<H>| u.id)
}

/// Who receives a message sent by `sender`: every user but the sender, in the
/// registry's order.
pub open spec fn recipients<H>(users: Seq<UserView<H>>, sender: u128) -> Seq<u128> {
    ids(pruned(users, seq![sender]))
}

/// The identifiers of `ids` that are not among `failed`, in their order.
pub open spec fn without(ids: Seq<u128>, failed: Seq<u128>) -> Seq<u128> {
    ids.filter(|id: u128| !failed.contains(id))
}

/// The recipients among a list one user longer.
pub proof fn lemma_recipients_push<H>(users: Seq<UserView<H>>, last: UserView<H>, sender: u128)
    ensures
        recipients(users.push(last), sender) == if last.id == sender {
            recipients(users, sender)
        } else {
            recipients(users, sender).push(last.id)
        },
{
    lemma_pruned_push(users, last, seq![sender]);
    assert(seq![sender][0] == sender);
    if last.id != sender {
        assert(ids(pruned(users, seq![sender]).push(last)) =~= ids(
            pruned(users, seq![sender]),
        ).push(last.id));
    }
}

/// Plans the relay of `message`: the frame that carries the line
/// `<sender's name>: <body>`, for every user whose identifier is not the
/// sender's, in the registry's order. Every recipient gets the same frame.
///
/// A sender who has left the registry is relayed like any other, to all users,
/// under the empty name: the line is then `: <body>`.
pub fn transfer_message<H>(registry: &Registry<H>, message: &Message) -> (outbound: Outbound)
    ensures
        outbound.recipients@ == recipients(registry@, message.id),
        outbound.frame@.len() == MESSAGE_SIZE,
        has_user(registry@, message.id) ==> outbound.frame@ == frame_of(
            line_of(name_of(registry@, message.id), message.message@),
        ),
        !has_user(registry@, message.id) ==> outbound.frame@ == frame_of(
            line_of(Seq::empty(), message.message@),
        ),
{
    let line = match registry.find(message.id) {
        Some(sender) => relay_line(sender.username.as_str(), message.message.as_str()),
        None => {
            proof {
                reveal_strlit("");
                assert(""@ =~= Seq::<char>::empty());
            }
            relay_line("", message.message.as_str())
        },
    };
    let frame = encode(line.as_str());
    let users = registry.users();
    let ghost all = views(users@);
    let mut to: Vec<u128> = Vec::new();
    let mut i: usize = 0;
    assert(to@ =~= recipients(all.take(0), message.id)) by {
        reveal(Seq::filter);
    }
    while i < users.len()
        invariant
            i <= users.len(),
            all == views(users@),
            to@ == recipients(all.take(i as int), message.id),
        decreases users.len() - i,
    {
        proof {
            assert(all.take(i + 1) =~= all.take(i as int).push(all[i as int]));
            lemma_recipients_push(all.take(i as int), all[i as int], message.id);
        }
        if users[i].user_id != message.id {
            to.push(users[i].user_id);
        }
        i += 1;
    }
    assert(all.take(i as int) =~= all);
    Outbound { frame, recipients: to }
}

/// A message whose sender is not registered goes to every user.
pub proof fn lemma_unknown_sender_reaches_all<H>(users: Seq<UserView<H>>, sender: u128)
    requires
        !has_user(users, sender),
    ensures
        pruned(users, seq![sender]) == users,
        recipients(users, sender) == ids(users),
    decreases users.len(),
{
    reveal(Seq::filter);
    if users.len() > 0 {
        let init = users.drop_last();
        let last = users.last();
        assert(users =~= init.push(last));
        assert(!has_user(init, sender)) by {
            if has_user(init, sender) {
                let i = choose|i: int| 0 <= i < init.len() && init[i].id == sender;
                assert(users[i].id == sender);
            }
        }
        assert(users[users.len() - 1].id != sender);
        lemma_unknown_sender_reaches_all(init, sender);
        lemma_pruned_push(init, last, seq![sender]);
        assert(seq![sender].contains(last.id) ==> last.id == sender);
    }
}

/// A sender is never pruned by its own message: the users whose write failed
/// are among the recipients, and the sender is none of them.
pub proof fn lemma_own_message_keeps_sender<H>(
    users: Seq<UserView<H>>,
    sender: u128,
    failed: Seq<u128>,
)
    requires
        distinct_ids(users),
        forall|k: int| 0 <= k < failed.len() ==> recipients(users, sender).contains(failed[k]),
    ensures
        !failed.contains(sender),
        has_user(users, sender) ==> has_user(pruned(users, failed), sender) && name_of(
            pruned(users, failed),
            sender,
        ) == name_of(users, sender),
{
    lemma_no_self_delivery(users, sender);
    if has_user(users, sender) {
        lemma_lazy_pruning(users, failed, sender);
    }
}

/// No self-delivery: a message goes to every user but its sender, once to
/// each, and never to the sender.
pub proof fn lemma_no_self_delivery<H>(users: Seq<UserView<H>>, sender: u128)
    requires
        distinct_ids(users),
    ensures
        !recipients(users, sender).contains(sender),
        forall|i: int|
            0 <= i < users.len() && users[i].id != sender ==> recipients(users, sender).contains(
                #[trigger] users[i].id,
            ),
        forall|id: u128| #[trigger]
            recipients(users, sender).contains(id) ==> has_user(users, id),
        recipients(users, sender).no_duplicates(),
{
    let others = pruned(users, seq![sender]);
    let to = recipients(users, sender);
    lemma_pruned(users, seq![sender]);
    assert(seq![sender][0] == sender);
    assert forall|k: int| 0 <= k < to.len() implies has_user(others, #[trigger] to[k]) by {
        assert(others[k].id == to[k]);
    }
    assert forall|id: u128| has_user(others, id) implies to.contains(id) by {
        let k = choose|k: int| 0 <= k < others.len() && others[k].id == id;
        assert(to[k] == id);
    }
    assert forall|i: int| 0 <= i < users.len() && users[i].id != sender implies to.contains(
        #[trigger] users[i].id,
    ) by {
        assert(has_user(users, users[i].id));
        assert(has_user(others, users[i].id));
    }
    assert forall|a: int, b: int| 0 <= a < to.len() && 0 <= b < to.len() && a != b implies to[a]
        != to[b] by {
        assert(to[a] == others[a].id && to[b] == others[b].id);
    }
}

/// Fan-out order: the recipients stand in the order in which they stand in the
/// registry.
pub proof fn lemma_fan_out_order<H>(users: Seq<UserView<H>>, sender: u128)
    requires
        distinct_ids(users),
    ensures
        forall|a: int, b: int|
            0 <= a < b < recipients(users, sender).len() ==> position(
                users,
                #[trigger] recipients(users, sender)[a],
            ) < position(users, #[trigger] recipients(users, sender)[b]),
{
    let others = pruned(users, seq![sender]);
    let to = recipients(users, sender);
    lemma_pruned(users, seq![sender]);
    assert forall|a: int, b: int| 0 <= a < b < to.len() implies position(users, #[trigger] to[a])
        < position(users, #[trigger] to[b]) by {
        assert(to[a] == others[a].id && to[b] == others[b].id);
    }
}

/// The recipients once the users in `failed` have left: those of before that
/// are not in `failed`, in their order.
pub proof fn lemma_recipients_after_pruning<H>(
    users: Seq<UserView<H>>,
    failed: Seq<u128>,
    sender: u128,
)
    ensures
        recipients(pruned(users, failed), sender) == without(recipients(users, sender), failed),
    decreases users.len(),
{
    reveal(Seq::filter);
    if users.len() == 0 {
        assert(pruned(users, failed) =~= users);
        assert(recipients(users, sender) =~= Seq::<u128>::empty());
    } else {
        let init = users.drop_last();
        let last = users.last();
        assert(users =~= init.push(last));
        lemma_recipients_after_pruning(init, failed, sender);
        lemma_pruned_push(init, last, failed);
        lemma_recipients_push(init, last, sender);
        lemma_recipients_push(pruned(init, failed), last, sender);
        recipients(init, sender).lemma_filter_push(last.id, |id: u128| !failed.contains(id));
    }
}

/// Lazy pruning: when the users whose write failed are pruned, each of them is
/// gone, everyone else stays under the same name, and the next message of a
/// sender who stayed goes to the recipients of before but for those pruned.
pub proof fn lemma_lazy_pruning<H>(users: Seq<UserView<H>>, failed: Seq<u128>, sender: u128)
    requires
        distinct_ids(users),
        has_user(users, sender),
        !failed.contains(sender),
    ensures
        distinct_ids(pruned(users, failed)),
        forall|id: u128| failed.contains(id) ==> !(#[trigger] has_user(pruned(users, failed), id)),
        has_user(pruned(users, failed), sender),
        name_of(pruned(users, failed), sender) == name_of(users, sender),
        recipients(pruned(users, failed), sender) == without(recipients(users, sender), failed),
        forall|id: u128| #[trigger]
            recipients(pruned(users, failed), sender).contains(id) <==> recipients(
                users,
                sender,
            ).contains(id) && !failed.contains(id),
{
    let kept = pruned(users, failed);
    lemma_pruned(users, failed);
    lemma_recipients_after_pruning(users, failed, sender);
    assert(has_user(kept, sender));
    let k = position(kept, sender);
    assert(users.contains(kept[k]));
    let at = choose|i: int| 0 <= i < users.len() && users[i] == kept[k];
    lemma_position(users, at);
    lemma_no_self_delivery(users, sender);
    lemma_no_self_delivery(kept, sender);
    assert forall|id: u128| #[trigger]
        recipients(kept, sender).contains(id) <==> recipients(users, sender).contains(id)
            && !failed.contains(id) by {
        if recipients(kept, sender).contains(id) {
            assert(has_user(kept, id));
            assert(has_user(users, id) && !failed.contains(id));
            let i = choose|i: int| 0 <= i < users.len() && users[i].id == id;
            assert(recipients(users, sender).contains(users[i].id));
        }
        if recipients(users, sender).contains(id) && !failed.contains(id) {
            assert(has_user(users, id));
            assert(has_user(kept, id));
            let i = choose|i: int| 0 <= i < kept.len() && kept[i].id == id;
            assert(recipients(kept, sender).contains(kept[i].id));
        }
    }
}

} // verus!
