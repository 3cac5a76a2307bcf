//! The task record and its mathematical view.

use vstd::prelude::*;

verus! {

/// Upper bound, in bytes of UTF-8, on a record's description.
pub const MAX_DESCRIPTION_BYTES: usize = 280;

/// A stored task record.  One exists per occupied `(owner, task_id)` key.
pub struct TodoAccount {
    /// Caller-chosen 64-bit id, unique per owner.
    pub task_id: u64,
    /// Mutable text, at most 280 bytes of UTF-8.
    pub description: String,
    /// Completion flag, toggled only.
    pub completed: bool,
    /// Unix timestamp fixed at creation.
    pub due_date: i64,
    /// 32-byte identity of the exclusive owner, fixed at creation.
    pub owner: [u8; 32],
}

/// The mathematical value of a [`TodoAccount`].
pub struct TodoView {
    pub task_id: u64,
    pub description: Seq<char>,
    pub completed: bool,
    pub due_date: i64,
    pub owner: Seq<u8>,
}

impl View for TodoAccount {
    type V = TodoView;

    open spec fn view(&self) -> TodoView {
        TodoView {
            task_id: self.task_id,
            description: self.description@,
            completed: self.completed,
            due_date: self.due_date,
            owner: self.owner@,
        }
    }
}

/// Whether a description's UTF-8 encoding is within the 280-byte cap.
pub open spec fn description_fits(description: Seq<char>) -> bool {
    vstd::utf8::encode_utf8(description).len() <= MAX_DESCRIPTION_BYTES
}

/// Byte length of a description's UTF-8 encoding, the quantity the
/// 280-byte cap is measured in.
pub fn description_byte_len(description: &String) -> (n: usize)
    ensures
        n == vstd::utf8::encode_utf8(description@).len(),
{
    description.as_str().as_bytes().len()
}

impl TodoAccount {
    /// Fixed storage footprint of one record, allocated in full at creation:
    /// an 8-byte type tag, the task id, a length-prefixed description slot
    /// sized for the 280-byte cap, the completion flag, the due date and the
    /// owner identity.
    pub const LEN: usize = 8 + 8 + 4 + 280 + 1 + 8 + 32;

    /// A record is well formed when its description respects the byte cap.
    pub open spec fn wf(&self) -> bool {
        description_fits(self.description@)
    }
}

} // verus!
