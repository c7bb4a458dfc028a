//! The registry: the users that are believed to be connected, in the order in
//! which they joined, no two with the same identifier.
//!
//! Users join through `register`, which issues their identifier, and leave
//! through `prune` or `remove`. Nothing else changes a registry.

use crate::text::{blank, is_blank};
use crate::user::{gen_user_id, next_user_id, User, UserView};
use vstd::prelude::*;

verus! {

/// Why a user was not registered.
#[derive(Clone, Copy, Debug, PartialEq, Eq)]
pub enum RegisterError {
    /// The name is empty or white space only.
    BlankName,
    /// Every identifier has been issued.
    NoIdLeft,
}

/// The users that are believed to be connected.
pub struct Registry<H> {
    users: Vec<User<H>>,
    last_id: u128,
}

/// The users of a list as contracts see them.
pub open spec fn views<H>(users: Seq<User<H>>) -> Seq<UserView<H>> {
    users.map_values(|u: User<H>| u@)
}

/// No two users have the same identifier.
pub open spec fn distinct_ids<H>(users: Seq<UserView<H>>) -> bool {
    forall|i: int, j: int| 0 <= i < j < users.len() ==> users[i].id != users[j].id
}

/// Some user has the identifier `id`.
pub open spec fn has_user<H>(users: Seq<UserView<H>>, id: u128) -> bool {
    exists|i: int| 0 <= i < users.len() && users[i].id == id
}

/// Where the user with the identifier `id` stands among `users`.
pub open spec fn position<H>(users: Seq<UserView<H>>, id: u128) -> int
    recommends
        has_user(users, id),
{
    choose|i: int| 0 <= i < users.len() && users[i].id == id
}

/// The name of the user with the identifier `id`.
pub open spec fn name_of<H>(users: Seq<UserView<H>>, id: u128) -> Seq<char>
    recommends
        has_user(users, id),
{
    users[position(users, id)].name
}

/// True of the users whose identifier is not among `failed`.
pub open spec fn not_among<H>(failed: Seq<u128>) -> spec_fn(UserView<H>) -> bool {
    |u: UserView<H>| !failed.contains(u.id)
}

/// The users that stay when those with an identifier among `failed` leave:
/// the others, in their order.
pub open spec fn pruned<H>(users: Seq<UserView<H>>, failed: Seq<u128>) -> Seq<UserView<H>> {
    users.filter(not_among(failed))
}

/// Among users with distinct identifiers, the user found at `i` is the one
/// that `position` finds under its identifier.
pub proof fn lemma_position<H>(users: Seq<UserView<H>>, i: int)
    requires
        distinct_ids(users),
        0 <= i < users.len(),
    ensures
        has_user(users, users[i].id),
        position(users, users[i].id) == i,
{
    let found = position(users, users[i].id);
    assert(0 <= found < users.len() && users[found].id == users[i].id);
    if found < i {
        assert(users[found].id != users[i].id);
    } else if i < found {
        assert(users[i].id != users[found].id);
    }
}

/// Pruning a list one user longer: the last user is kept or dropped, and the
/// users before it fare as they do alone.
pub proof fn lemma_pruned_push<H>(users: Seq<UserView<H>>, last: UserView<H>, failed: Seq<u128>)
    ensures
        pruned(users.push(last), failed) == if failed.contains(last.id) {
            pruned(users, failed)
        } else {
            pruned(users, failed).push(last)
        },
{
    users.lemma_filter_push(last, not_among(failed));
}

/// Who is left after pruning: exactly the users whose identifier is not among
/// those that failed, each as it was, identifiers still distinct and in the
/// order they had.
pub proof fn lemma_pruned<H>(users: Seq<UserView<H>>, failed: Seq<u128>)
    requires
        distinct_ids(users),
    ensures
        distinct_ids(pruned(users, failed)),
        forall|id: u128| #[trigger]
            has_user(pruned(users, failed), id) <==> has_user(users, id) && !failed.contains(id),
        forall|k: int|
            0 <= k < pruned(users, failed).len() ==> users.contains(
                #[trigger] pruned(users, failed)[k],
            ),
        forall|a: int, b: int|
            0 <= a < b < pruned(users, failed).len() ==> position(
                users,
                #[trigger] pruned(users, failed)[a].id,
            ) < position(users, #[trigger] pruned(users, failed)[b].id),
    decreases users.len(),
{
    let kept = pruned(users, failed);
    reveal(Seq::filter);
    if users.len() == 0 {
        assert(kept.len() == 0);
    } else {
        let init = users.drop_last();
        let last = users.last();
        let before = pruned(init, failed);
        assert(users =~= init.push(last));
        assert(distinct_ids(init));
        lemma_pruned(init, failed);
        lemma_pruned_push(init, last, failed);
        lemma_position(users, users.len() - 1);
        assert forall|k: int| 0 <= k < before.len() implies users.contains(before[k])
            && position(users, before[k].id) == position(init, before[k].id)
            && position(users, before[k].id) < users.len() - 1 by {
            assert(init.contains(before[k]));
            let at = choose|i: int| 0 <= i < init.len() && init[i] == before[k];
            assert(users[at] == before[k]);
            lemma_position(users, at);
            lemma_position(init, at);
        }
        assert forall|k: int| 0 <= k < kept.len() implies users.contains(#[trigger] kept[k]) by {
            if k < before.len() {
                assert(kept[k] == before[k]);
            } else {
                assert(kept[k] == last);
                assert(users[users.len() - 1] == last);
            }
        }
        assert forall|a: int, b: int| 0 <= a < b < kept.len() implies kept[a].id != kept[b].id
            && position(users, kept[a].id) < position(users, kept[b].id) by {
            assert(kept[a] == before[a]);
            if b < before.len() {
                assert(kept[b] == before[b]);
            } else {
                assert(kept[b] == last);
            }
        }
        assert forall|id: u128| #[trigger]
            has_user(kept, id) <==> has_user(users, id) && !failed.contains(id) by {
            if has_user(kept, id) {
                let k = choose|k: int| 0 <= k < kept.len() && kept[k].id == id;
                assert(users.contains(kept[k]));
                let at = choose|i: int| 0 <= i < users.len() && users[i] == kept[k];
                assert(users[at].id == id);
                users.lemma_filter_pred(not_among(failed), k);
            }
            if has_user(users, id) && !failed.contains(id) {
                let at = choose|i: int| 0 <= i < users.len() && users[i].id == id;
                users.lemma_filter_contains(not_among(failed), at);
                let k = choose|k: int| 0 <= k < kept.len() && kept[k] == users[at];
                assert(kept[k].id == id);
            }
        }
    }
}

impl<H> View for Registry<H> {
    type V = Seq<UserView<H>>;

    closed spec fn view(&self) -> Seq<UserView<H>> {
        views(self.users@)
    }
}

impl<H> Registry<H> {
    #[verifier::type_invariant]
    spec fn well_formed(&self) -> bool {
        &&& distinct_ids(self@)
        &&& forall|i: int| 0 <= i < self@.len() ==> self@[i].id <= self.last_id
    }

    /// The highest identifier issued so far; 0 before the first.
    pub closed spec fn last_issued(&self) -> u128 {
        self.last_id
    }

    /// A registry without users that has issued no identifier.
    pub fn new() -> (registry: Self)
        ensures
            registry@ == Seq::<UserView<H>>::empty(),
            registry.last_issued() == 0,
    {
        let registry = Registry { users: Vec::new(), last_id: 0 };
        assert(registry@ =~= Seq::<UserView<H>>::empty());
        registry
    }

    /// The users, in the order in which they joined.
    pub fn users(&self) -> (users: &Vec<User<H>>)
        ensures
            views(users@) == self@,
            distinct_ids(self@),
    {
        proof {
            use_type_invariant(self);
        }
        &self.users
    }

    /// The number of users.
    pub fn len(&self) -> (n: usize)
        ensures
            n == self@.len(),
    {
        self.users.len()
    }

    /// The user with the identifier `id`, if there is one.
    pub fn find(&self, id: u128) -> (found: Option<&User<H>>)
        ensures
            found is Some <==> has_user(self@, id),
            found matches Some(user) ==> user@ == self@[position(self@, id)],
    {
        proof {
            use_type_invariant(self);
        }
        let mut i: usize = 0;
        while i < self.users.len()
            invariant
                i <= self.users.len(),
                self@ == views(self.users@),
                distinct_ids(self@),
                forall|k: int| 0 <= k < i ==> self@[k].id != id,
            decreases self.users.len() - i,
        {
            if self.users[i].user_id == id {
                proof {
                    lemma_position(self@, i as int);
                }
                return Some(&self.users[i]);
            }
            i += 1;
        }
        None
    }

    /// Admits a user under a new identifier, behind the users already there.
    /// `clock` is a reading of a clock in nanoseconds; the identifier is that
    /// reading where it is later than every identifier issued before, else the
    /// successor of the last one.
    ///
    /// A blank name is refused, and so is every name once no identifier is
    /// left. A refusal changes nothing.
    pub fn register(&mut self, username: String, socket: H, clock: u128) -> (admitted: Result<
        u128,
        RegisterError,
    >)
        ensures
            match admitted {
                Ok(id) => {
                    &&& !is_blank(username@)
                    &&& next_user_id(old(self).last_issued(), clock) == Some(id)
                    &&& !has_user(old(self)@, id)
                    &&& final(self)@ == old(self)@.push(UserView { id, name: username@, socket })
                    &&& final(self).last_issued() == id
                },
                Err(reason) => {
                    &&& final(self)@ == old(self)@
                    &&& final(self).last_issued() == old(self).last_issued()
                    &&& reason == if is_blank(username@) {
                        RegisterError::BlankName
                    } else {
                        RegisterError::NoIdLeft
                    }
                    &&& is_blank(username@) || next_user_id(old(self).last_issued(), clock) is None
                },
            },
            distinct_ids(final(self)@),
    {
        proof {
            use_type_invariant(&*self);
        }
        if blank(username.as_str()) {
            return Err(RegisterError::BlankName);
        }
        match gen_user_id(self.last_id, clock) {
            None => Err(RegisterError::NoIdLeft),
            Some(id) => {
                let ghost before = self@;
                let mut users: Vec<User<H>> = Vec::new();
                std::mem::swap(&mut users, &mut self.users);
                users.push(User::new(id, username, socket));
                assert(views(users@) =~= before.push(UserView { id, name: username@, socket }));
                self.last_id = id;
                self.users = users;
                Ok(id)
            },
        }
    }

    /// Removes the user with the identifier `id`. Says whether there was one.
    pub fn remove(&mut self, id: u128) -> (removed: bool)
        ensures
            removed == has_user(old(self)@, id),
            final(self)@ == pruned(old(self)@, seq![id]),
            final(self).last_issued() == old(self).last_issued(),
            distinct_ids(final(self)@),
    {
        let removed = self.find(id).is_some();
        let mut failed: Vec<u128> = Vec::new();
        failed.push(id);
        assert(failed@ =~= seq![id]);
        self.prune(&failed);
        removed
    }

    /// Removes every user whose identifier is among `failed`, in one pass. The
    /// users that stay keep their order.
    pub fn prune(&mut self, failed: &Vec<u128>)
        ensures
            final(self)@ == pruned(old(self)@, failed@),
            final(self).last_issued() == old(self).last_issued(),
            distinct_ids(final(self)@),
    {
        proof {
            use_type_invariant(&*self);
        }
        let mut before: Vec<User<H>> = Vec::new();
        std::mem::swap(&mut before, &mut self.users);
        let ghost all = views(before@);
        let ghost source = before@;
        let mut kept: Vec<User<H>> = Vec::new();
        assert(views(kept@) =~= pruned(all.take(0), failed@)) by {
            reveal(Seq::filter);
        }
        for user in it: before
            invariant
                it.seq() == source,
                all == views(source),
                views(kept@) == pruned(all.take(it.index()), failed@),
        {
            proof {
                let i = it.index();
                assert(all.take(i + 1) =~= all.take(i).push(all[i]));
                lemma_pruned_push(all.take(i), all[i], failed@);
                assert(views(kept@.push(user)) =~= views(kept@).push(user@));
            }
            if !among(failed, user.user_id) {
                kept.push(user);
            }
        }
        proof {
            assert(all.take(all.len() as int) =~= all);
            lemma_pruned(all, failed@);
        }
        self.users = kept;
    }
}

/// Whether `id` is one of `ids`.
fn among(ids: &Vec<u128>, id: u128) -> (found: bool)
    ensures
        found == ids@.contains(id),
{
    let mut i: usize = 0;
    while i < ids.len()
        invariant
            i <= ids.len(),
            forall|k: int| 0 <= k < i ==> ids[k] != id,
        decreases ids.len() - i,
    {
        if ids[i] == id {
            return true;
        }
        i += 1;
    }
    false
}

} // verus!
