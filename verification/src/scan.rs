//! Which devices a scan follows.
//!
//! Every device the adapter reports gets one subscription to its advertising data. A
//! subscription has a number, so that one that ends late, after its device went away and came
//! back, does not remove its successor.
//!
//! A request arrives from an address of its own, so the data of a device that turns up during
//! the scan is read at once. A device that was there when the scan started is followed but not
//! read: what is cached of it may be minutes old.

use std::collections::HashMap;

use vstd::prelude::*;

use crate::beacon::{is_ours, ours, COMPANY_ID};

verus! {

/// The devices that are followed.
pub struct Followed {
    /// Address to the number of the subscription.
    subscriptions: HashMap<u64, u64>,
    /// The number of the newest subscription.
    newest: u64,
    /// The devices that were there when the scan started.
    existing: Vec<u64>,
}

/// What a scan follows, as data.
#[verifier::ext_equal]
pub struct Follows {
    pub subscriptions: Map<u64, u64>,
    pub newest: u64,
    pub existing: Set<u64>,
}

impl View for Followed {
    type V = Follows;

    closed spec fn view(&self) -> Follows {
        Follows {
            subscriptions: self.subscriptions@,
            newest: self.newest,
            existing: self.existing@.to_set(),
        }
    }
}

/// What to do about a device that appeared.
#[derive(Debug, Clone, Copy, PartialEq, Eq, Structural)]
pub struct Subscription {
    /// The number of its subscription.
    pub number: u64,
    /// Whether to read its data right away.
    pub read: bool,
}

impl Follows {
    /// Every subscription has a number that was handed out.
    pub open spec fn valid(self) -> bool {
        forall|a: u64| #[trigger]
            self.subscriptions.contains_key(a) ==> self.subscriptions[a] <= self.newest
    }

    /// What is followed once a device appeared, and what to do about the device; nothing where
    /// it is followed already.
    pub open spec fn appeared(self, addr: u64) -> (Follows, Option<Subscription>) {
        if self.subscriptions.contains_key(addr) {
            (self, None)
        } else {
            let number = (self.newest + 1) as u64;
            (
                Follows {
                    subscriptions: self.subscriptions.insert(addr, number),
                    newest: number,
                    ..self
                },
                Some(Subscription { number, read: !self.existing.contains(addr) }),
            )
        }
    }

    /// What is followed once a device vanished.
    pub open spec fn vanished(self, addr: u64) -> Follows {
        Follows { subscriptions: self.subscriptions.remove(addr), ..self }
    }

    /// What is followed once a subscription ended by itself.
    pub open spec fn ended(self, addr: u64, number: u64) -> Follows {
        if self.subscriptions.contains_key(addr) && self.subscriptions[addr] == number {
            self.vanished(addr)
        } else {
            self
        }
    }
}

impl Followed {
    /// A scan that starts while the devices at the addresses `existing` are there.
    pub fn new(existing: Vec<u64>) -> (r: Self)
        ensures
            r@ == (Follows {
                subscriptions: Map::empty(),
                newest: 0,
                existing: existing@.to_set(),
            }),
            r@.valid(),
    {
        Followed { subscriptions: HashMap::new(), newest: 0, existing }
    }

    fn was_there(&self, addr: u64) -> (r: bool)
        ensures
            r == self@.existing.contains(addr),
    {
        let mut i: usize = 0;
        while i < self.existing.len()
            invariant
                i <= self.existing@.len(),
                forall|j: int| 0 <= j < i ==> self.existing@[j] != addr,
            decreases self.existing@.len() - i,
        {
            if self.existing[i] == addr {
                assert(self.existing@.contains(addr));
                return true;
            }
            i += 1;
        }
        false
    }

    /// A device appeared.
    pub fn appeared(&mut self, addr: u64) -> (r: Option<Subscription>)
        requires
            old(self)@.valid(),
            old(self)@.newest < u64::MAX,
        ensures
            (final(self)@, r) == old(self)@.appeared(addr),
            final(self)@.valid(),
    {
        if self.subscriptions.contains_key(&addr) {
            return None;
        }
        let read = !self.was_there(addr);
        let number: u64 = self.newest + 1;
        self.newest = number;
        self.subscriptions.insert(addr, number);
        proof {
            let was = old(self)@.subscriptions;
            assert forall|a: u64| #[trigger] self@.subscriptions.contains_key(a) implies
                self@.subscriptions[a] <= self@.newest by {
                if a != addr {
                    assert(was.contains_key(a));
                }
            }
        }
        Some(Subscription { number, read })
    }

    /// A device vanished. Says whether it was followed.
    pub fn vanished(&mut self, addr: u64) -> (r: bool)
        requires
            old(self)@.valid(),
        ensures
            final(self)@ == old(self)@.vanished(addr),
            final(self)@.valid(),
            r == old(self)@.subscriptions.contains_key(addr),
    {
        let r = self.subscriptions.contains_key(&addr);
        self.subscriptions.remove(&addr);
        proof {
            let was = old(self)@.subscriptions;
            assert forall|a: u64| #[trigger] self@.subscriptions.contains_key(a) implies
                self@.subscriptions[a] <= self@.newest by {
                assert(was.contains_key(a));
            }
        }
        r
    }

    /// The subscription `number` of a device ended by itself.
    pub fn ended(&mut self, addr: u64, number: u64)
        requires
            old(self)@.valid(),
        ensures
            final(self)@ == old(self)@.ended(addr, number),
            final(self)@.valid(),
    {
        let same = match self.subscriptions.get(&addr) {
            Some(n) => *n == number,
            None => false,
        };
        if same {
            self.vanished(addr);
        }
    }
}

/// A subscription that ends late, after its device went away and came back, leaves the new
/// subscription in place.
pub proof fn lemma_late_end(f: Follows, addr: u64)
    requires
        f.valid(),
        f.newest < u64::MAX,
        f.subscriptions.contains_key(addr),
    ensures
        ({
            let back = f.vanished(addr).appeared(addr).0;
            back.ended(addr, f.subscriptions[addr]) == back
        }),
{
}

/// What is cached of a device that was there when the scan started is never read.
pub proof fn lemma_no_stale_read(f: Follows, addr: u64)
    requires
        f.existing.contains(addr),
    ensures
        match f.appeared(addr).1 {
            Some(s) => !s.read,
            None => true,
        },
{
}

/// A device that turns up during the scan and is not followed yet is read at once and followed
/// from then on, under a number that no other subscription has; a second report of it changes
/// nothing, and the other devices stay as they are.
pub proof fn lemma_new_device_is_read(f: Follows, addr: u64)
    requires
        f.valid(),
        f.newest < u64::MAX,
        !f.subscriptions.contains_key(addr),
        !f.existing.contains(addr),
    ensures
        ({
            let (after, s) = f.appeared(addr);
            &&& s is Some
            &&& s->0.read
            &&& after.subscriptions.contains_key(addr)
            &&& after.subscriptions[addr] == s->0.number
            &&& after.appeared(addr) == (after, None::<Subscription>)
            &&& forall|a: u64|
                #![trigger after.subscriptions.contains_key(a)]
                a != addr ==> after.subscriptions.contains_key(a)
                    == f.subscriptions.contains_key(a) && (f.subscriptions.contains_key(a)
                    ==> after.subscriptions[a] == f.subscriptions[a] && f.subscriptions[a]
                    != s->0.number)
        }),
{
    assert forall|a: u64|
        f.subscriptions.contains_key(a) implies #[trigger] f.subscriptions[a] <= f.newest by {
        assert(f.subscriptions.contains_key(a));
    }
}

/// A device that was there when the scan started is followed all the same.
pub proof fn lemma_old_device_is_followed(f: Follows, addr: u64)
    requires
        f.valid(),
        f.newest < u64::MAX,
        !f.subscriptions.contains_key(addr),
    ensures
        f.appeared(addr).1 is Some,
        f.appeared(addr).0.subscriptions.contains_key(addr),
        f.appeared(addr).0.existing == f.existing,
{
}

/// A device whose subscription ends, or that vanishes, is no longer followed, and the others
/// still are; when it appears again it is followed again, under a new number.
pub proof fn lemma_end_of_a_subscription(f: Follows, addr: u64)
    requires
        f.valid(),
        f.newest < u64::MAX,
        f.subscriptions.contains_key(addr),
    ensures
        ({
            let after = f.ended(addr, f.subscriptions[addr]);
            &&& after == f.vanished(addr)
            &&& after.valid()
            &&& after.existing == f.existing
            &&& !after.subscriptions.contains_key(addr)
            &&& after.appeared(addr).1 is Some
            &&& after.appeared(addr).1->0.number != f.subscriptions[addr]
            &&& forall|a: u64|
                #![trigger after.subscriptions.contains_key(a)]
                a != addr ==> after.subscriptions.contains_key(a)
                    == f.subscriptions.contains_key(a) && (f.subscriptions.contains_key(a)
                    ==> after.subscriptions[a] == f.subscriptions[a])
        }),
{
    let after = f.ended(addr, f.subscriptions[addr]);
    assert forall|a: u64| #[trigger] after.subscriptions.contains_key(a) implies
        after.subscriptions[a] <= after.newest by {
        assert(f.subscriptions.contains_key(a));
    }
}

/// The packet among a device's manufacturer data that may be for us.
pub fn our_data<'a>(company: u16, data: &'a [u8]) -> (r: Option<&'a [u8]>)
    ensures
        match r {
            Some(d) => d@ == data@ && company == COMPANY_ID && ours(data@),
            None => company != COMPANY_ID || !ours(data@),
        },
{
    if company == COMPANY_ID && is_ours(data) {
        Some(data)
    } else {
        None
    }
}

} // verus!
