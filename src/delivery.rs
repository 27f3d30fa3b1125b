use vstd::prelude::*;

verus! {

/// Where a reminder goes: a chat, and the message it answers.
#[derive(Clone, Copy, Debug, PartialEq, Eq, Structural)]
pub struct Target {
    pub chat_id: i64,
    pub reply_to_id: i64,
}

/// A pending reminder. `due_at` is in milliseconds since the Unix epoch (UTC).
#[derive(Clone, Copy, Debug, PartialEq, Eq, Structural)]
pub struct Delivery {
    pub id: i64,
    pub target: Target,
    pub due_at: i64,
}

/// A position in hand-out order: a due time and an id.
#[derive(Clone, Copy, Debug, PartialEq, Eq, Structural)]
pub struct Cursor {
    pub due_at: i64,
    pub id: i64,
}

/// The position of `d` in hand-out order.
pub open spec fn cursor_of(d: Delivery) -> Cursor {
    Cursor { due_at: d.due_at, id: d.id }
}

/// The order in which deliveries are handed out: by due time, then by id.
pub open spec fn precedes(a: Delivery, b: Delivery) -> bool {
    a.due_at < b.due_at || (a.due_at == b.due_at && a.id < b.id)
}

impl Target {
    /// The replied-to message id as a transport message id, when it fits in `i32`.
    pub fn reply_message_id(&self) -> (r: Option<i32>)
        ensures
            r == (if i32::MIN <= self.reply_to_id <= i32::MAX {
                Some(self.reply_to_id as i32)
            } else {
                None::<i32>
            }),
    {
        if i32::MIN as i64 <= self.reply_to_id && self.reply_to_id <= i32::MAX as i64 {
            Some(self.reply_to_id as i32)
        } else {
            None
        }
    }
}

impl Delivery {
    /// The delivery's position in hand-out order.
    pub fn cursor(&self) -> (r: Cursor)
        ensures
            r == cursor_of(*self),
    {
        Cursor { due_at: self.due_at, id: self.id }
    }

    /// Whether the delivery is eligible at `now`.
    pub fn is_due(&self, now: i64) -> (r: bool)
        ensures
            r == (self.due_at <= now),
    {
        self.due_at <= now
    }
}

} // verus!
