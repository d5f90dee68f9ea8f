//! What one connection sends and which others it goes to.

use crate::text::{same_text, text_in};
use vstd::prelude::*;

verus! {

/// How many undelivered events a slow client may lag behind by default.
pub const DEFAULT_CAPACITY: usize = 1024;

/// An event on its way to the other connections.
#[derive(Debug, Clone, PartialEq)]
pub struct Outbound {
    /// The address of the connection that sent it.
    pub sender: String,
    pub xml: String,
    /// The uids that it is addressed to; `None` for everybody.
    pub dest_uids: Option<Vec<String>>,
}

/// Whether an event with these recipients goes to a connection that is known
/// as `my_uid`, or is not known.
pub open spec fn deliverable(dest_uids: Option<Seq<Seq<char>>>, my_uid: Option<Seq<char>>) -> bool {
    match dest_uids {
        None => true,
        Some(uids) => match my_uid {
            Some(uid) => uids.contains(uid),
            None => false,
        },
    }
}

impl Outbound {
    /// Whether a connection that is known as `my_uid` gets this event.
    pub fn is_deliverable_to(&self, my_uid: Option<&str>) -> (res: bool)
        ensures
            res == deliverable(
                self.dest_uids.deep_view(),
                match my_uid {
                    Some(uid) => Some(uid@),
                    None => None,
                },
            ),
    {
        match &self.dest_uids {
            None => true,
            Some(uids) => match my_uid {
                Some(uid) => text_in(uids, uid),
                None => false,
            },
        }
    }

    /// Whether the connection at the address `me`, known as `my_uid`, gets this
    /// event: nothing goes back to its sender.
    pub fn goes_to(&self, me: &str, my_uid: Option<&str>) -> (res: bool)
        ensures
            res == (self.sender@ != me@ && deliverable(
                self.dest_uids.deep_view(),
                match my_uid {
                    Some(uid) => Some(uid@),
                    None => None,
                },
            )),
    {
        !same_text(&self.sender, me) && self.is_deliverable_to(my_uid)
    }
}

/// An event for everybody goes to everybody; a directed one goes to exactly
/// those it names, and never to a connection without an identity.
pub proof fn law_directed_events_reach_only_their_addressees(
    uids: Seq<Seq<char>>,
    my_uid: Option<Seq<char>>,
)
    ensures
        deliverable(None, my_uid),
        !deliverable(Some(uids), None),
        my_uid matches Some(uid) ==> (deliverable(Some(uids), my_uid) <==> uids.contains(uid)),
{
}

} // verus!
