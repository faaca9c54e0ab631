use std::collections::VecDeque;
use vstd::prelude::*;

verus! {

/// How many messages one channel can hold before a non-blocking enqueue is
/// refused.
pub const CHANNEL_CAPACITY: usize = 32;

/// Why a non-blocking enqueue did not take the message.
#[derive(Clone, Copy, PartialEq, Eq, Debug)]
pub enum SendRefused {
    /// The queue already holds `CHANNEL_CAPACITY` messages.
    Full,
}

/// A bounded first-in-first-out queue of text messages.
///
/// It is one direction of the server's pipeline: producers append at the
/// back, the single consumer takes from the front, and an append to a full
/// queue is refused at once rather than blocking.
pub struct BoundedQueue {
    items: VecDeque<String>,
}

impl View for BoundedQueue {
    type V = Seq<Seq<char>>;

    closed spec fn view(&self) -> Seq<Seq<char>> {
        self.items.deep_view()
    }
}

impl BoundedQueue {
    /// A queue never holds more than `CHANNEL_CAPACITY` messages.
    pub open spec fn wf(&self) -> bool {
        self@.len() <= CHANNEL_CAPACITY
    }

    pub fn new() -> (q: BoundedQueue)
        ensures
            q@ == Seq::<Seq<char>>::empty(),
            q.wf(),
    {
        let q = BoundedQueue { items: VecDeque::new() };
        proof {
            assert(q@ =~= Seq::<Seq<char>>::empty());
        }
        q
    }

    pub fn len(&self) -> (n: usize)
        ensures
            n == self@.len(),
    {
        self.items.len()
    }

    /// Non-blocking enqueue: appends at the back when there is room, and
    /// refuses the message, leaving the queue unchanged, when the queue
    /// is full.
    pub fn try_send(&mut self, msg: String) -> (r: Result<(), SendRefused>)
        ensures
            old(self)@.len() < CHANNEL_CAPACITY ==> {
                &&& r is Ok
                &&& final(self)@ == old(self)@.push(msg@)
            },
            old(self)@.len() >= CHANNEL_CAPACITY ==> {
                &&& r == Err::<(), SendRefused>(SendRefused::Full)
                &&& final(self)@ == old(self)@
            },
            old(self).wf() ==> final(self).wf(),
    {
        if self.items.len() < CHANNEL_CAPACITY {
            self.items.push_back(msg);
            proof {
                assert(self@ =~= old(self)@.push(msg@));
            }
            Ok(())
        } else {
            Err(SendRefused::Full)
        }
    }

    /// Takes the oldest message, or nothing when the queue is empty.
    pub fn recv(&mut self) -> (r: Option<String>)
        ensures
            old(self)@.len() == 0 ==> {
                &&& r is None
                &&& final(self)@ == old(self)@
            },
            old(self)@.len() > 0 ==> {
                &&& r matches Some(m) && m@ == old(self)@[0]
                &&& final(self)@ == old(self)@.drop_first()
            },
            old(self).wf() ==> final(self).wf(),
    {
        let r = self.items.pop_front();
        proof {
            if old(self)@.len() > 0 {
                assert(self@ =~= old(self)@.drop_first());
            }
        }
        r
    }
}

} // verus!
