//! In-memory queue of runtime notices (info, warning, error).
use vstd::prelude::*;

use crate::stamp::now_iso;

verus! {

/// One notice.
#[derive(Debug)]
pub struct Notification {
    pub level: String,
    pub message: String,
    pub timestamp: String,
}

impl Notification {
    pub fn copy(&self) -> (r: Notification)
        ensures
            r == *self,
    {
        Notification {
            level: self.level.clone(),
            message: self.message.clone(),
            timestamp: self.timestamp.clone(),
        }
    }
}

/// The pending notices, oldest first.
#[derive(Debug)]
pub struct NotificationQueue {
    items: Vec<Notification>,
}

impl View for NotificationQueue {
    type V = Seq<Notification>;

    closed spec fn view(&self) -> Seq<Notification> {
        self.items@
    }
}

impl NotificationQueue {
    pub fn new() -> (r: NotificationQueue)
        ensures
            r@ == Seq::<Notification>::empty(),
    {
        NotificationQueue { items: Vec::new() }
    }

    /// Append a notice stamped `timestamp`.
    pub fn push_at(&mut self, level: &str, message: &str, timestamp: String)
        ensures
            final(self)@.len() == old(self)@.len() + 1,
            final(self)@.subrange(0, old(self)@.len() as int) == old(self)@,
            final(self)@.last().level@ == level@,
            final(self)@.last().message@ == message@,
            final(self)@.last().timestamp == timestamp,
    {
        self.items.push(
            Notification {
                level: String::from_str(level),
                message: String::from_str(message),
                timestamp,
            },
        );
        assert(self.items@.subrange(0, old(self)@.len() as int) =~= old(self)@);
    }

    /// Append a notice stamped with the current time.
    pub fn push(&mut self, level: &str, message: &str)
        ensures
            final(self)@.len() == old(self)@.len() + 1,
            final(self)@.subrange(0, old(self)@.len() as int) == old(self)@,
            final(self)@.last().level@ == level@,
            final(self)@.last().message@ == message@,
    {
        let now = now_iso();
        self.push_at(level, message, now);
    }

    /// The pending notices.
    pub fn get_all(&self) -> (r: &[Notification])
        ensures
            r@ == self@,
    {
        self.items.as_slice()
    }

    /// Take every pending notice out of the queue.
    pub fn drain(&mut self) -> (r: Vec<Notification>)
        ensures
            r@ == old(self)@,
            final(self)@ == Seq::<Notification>::empty(),
    {
        let mut out: Vec<Notification> = Vec::new();
        std::mem::swap(&mut out, &mut self.items);
        out
    }
}

} // verus!
