//! Bot lifecycle events and the subscriber lists kept for each: users
//! subscribe to an event kind and are notified whenever it fires. Delivery
//! itself happens outside this crate.

use vstd::prelude::*;

use crate::error::Error;

verus! {

/// The event kinds a user can subscribe to.
#[derive(Debug, Clone, Copy, PartialEq, Eq, Hash, Structural)]
pub enum Event {
    Startup,
    Stream,
    Error,
}

impl Event {
    /// The display name of the event kind.
    pub fn text(&self) -> (r: String)
        ensures
            *self == Event::Startup ==> r@ == "Startup"@,
            *self == Event::Stream ==> r@ == "Streaming"@,
            *self == Event::Error ==> r@ == "Error"@,
    {
        match self {
            Event::Startup => String::from_str("Startup"),
            Event::Stream => String::from_str("Streaming"),
            Event::Error => String::from_str("Error"),
        }
    }

    /// Parse a display name back into an event kind; any other text is an
    /// invalid-event error carrying the text itself.
    pub fn parse(s: &String) -> (r: Result<Event, Error>)
        ensures
            s@ == "Startup"@ ==> r == Ok::<Event, Error>(Event::Startup),
            s@ == "Streaming"@ ==> r == Ok::<Event, Error>(Event::Stream),
            s@ == "Error"@ ==> r == Ok::<Event, Error>(Event::Error),
            r is Err ==> s@ != "Startup"@ && s@ != "Streaming"@ && s@ != "Error"@,
    {
        proof {
            reveal_strlit("Startup");
            reveal_strlit("Streaming");
            reveal_strlit("Error");
            assert("Startup"@.len() == 7 && "Streaming"@.len() == 9 && "Error"@.len() == 5);
        }
        if String::eq(s, &String::from_str("Startup")) {
            Ok(Event::Startup)
        } else if String::eq(s, &String::from_str("Streaming")) {
            Ok(Event::Stream)
        } else if String::eq(s, &String::from_str("Error")) {
            Ok(Event::Error)
        } else {
            Err(Error::InvalidEvent(s.clone()))
        }
    }
}

/// The event-subscription subsystem: pure list manipulation over subscriber
/// lists; the store keeps one list per event kind.
pub struct Events;

impl Events {
    /// Add a user to a subscriber list unless already present; reports
    /// whether anything was added.
    pub fn subscribe(list: &mut Vec<u64>, user: u64) -> (added: bool)
        ensures
            added == !old(list)@.contains(user),
            added ==> final(list)@ == old(list)@.push(user),
            !added ==> final(list)@ == old(list)@,
    {
        let mut i: usize = 0;
        while i < list.len()
            invariant
                i <= list@.len(),
                forall|j: int| 0 <= j < i ==> list@[j] != user,
            decreases list@.len() - i,
        {
            if list[i] == user {
                assert(list@.contains(user));
                return false;
            }
            i = i + 1;
        }
        assert(!list@.contains(user));
        list.push(user);
        true
    }

    /// Remove every occurrence of a user from a subscriber list; reports
    /// whether the user had been subscribed.
    pub fn unsubscribe(list: &mut Vec<u64>, user: u64) -> (removed: bool)
        ensures
            final(list)@ == old(list)@.filter(|u: u64| u != user),
            removed == old(list)@.contains(user),
    {
        let ghost orig = list@;
        let mut out: Vec<u64> = Vec::new();
        let mut found = false;
        let mut i: usize = 0;
        while i < list.len()
            invariant
                i <= orig.len(),
                list@ == orig,
                out@ == orig.take(i as int).filter(|u: u64| u != user),
                found == orig.take(i as int).contains(user),
            decreases orig.len() - i,
        {
            let x = list[i];
            proof {
                reveal(Seq::filter);
                assert(orig.take(i + 1).drop_last() =~= orig.take(i as int));
                assert(orig.take(i + 1).last() == orig[i as int]);
                assert(orig.take(i as int).push(orig[i as int]) =~= orig.take(i + 1));
            }
            if x == user {
                found = true;
            } else {
                out.push(x);
            }
            i = i + 1;
        }
        proof {
            assert(orig.take(orig.len() as int) =~= orig);
        }
        *list = out;
        found
    }
}

} // verus!
