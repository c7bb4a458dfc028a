//! Connected users, the messages they send, and the identifiers that tell
//! users apart.

use vstd::prelude::*;

verus! {

/// A connected user. `H` is the handle that output for this user is written to;
/// nothing here looks inside it.
pub struct User<H> {
    pub user_id: u128,
    pub username: String,
    pub socket: H,
}

/// A user as contracts see it: the identifier, the name's characters, the handle.
pub ghost struct UserView<H> {
    pub id: u128,
    pub name: Seq<char>,
    pub socket: H,
}

impl<H> View for User<H> {
    type V = UserView<H>;

    open spec fn view(&self) -> UserView<H> {
        UserView { id: self.user_id, name: self.username@, socket: self.socket }
    }
}

/// A text and the identifier of the user who sent it.
#[derive(Debug, PartialEq, Eq)]
pub struct Message {
    pub id: u128,
    pub message: String,
}

/// The identifier issued after `last_issued` when the clock reads `clock`: the
/// clock's reading where that is later than every identifier issued so far,
/// else the successor of the last one. None is left once `u128::MAX` was issued.
pub open spec fn next_user_id(last_issued: u128, clock: u128) -> Option<u128> {
    if clock > last_issued {
        Some(clock)
    } else if last_issued < u128::MAX {
        Some((last_issued + 1) as u128)
    } else {
        None
    }
}

/// Chooses the identifier of a new user. `last_issued` is the highest
/// identifier given out so far (0 before the first), `clock` a reading of a
/// clock in nanoseconds. The result is greater than `last_issued`, so no
/// identifier is issued twice, whatever the clock does.
pub fn gen_user_id(last_issued: u128, clock: u128) -> (id: Option<u128>)
    ensures
        id == next_user_id(last_issued, clock),
        id matches Some(fresh) ==> fresh > last_issued && fresh >= clock,
        id is None <==> last_issued == u128::MAX,
{
    if clock > last_issued {
        Some(clock)
    } else if last_issued < u128::MAX {
        Some(last_issued + 1)
    } else {
        None
    }
}

impl<H> User<H> {
    /// A user with the given identifier, name and output handle.
    pub fn new(user_id: u128, username: String, socket: H) -> (user: Self)
        ensures
            user@ == (UserView { id: user_id, name: username@, socket }),
    {
        User { user_id, username, socket }
    }
}

} // verus!
