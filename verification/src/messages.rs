//! The messages shown to the user: the latest few, newest first.

use vstd::prelude::*;

verus! {

/// Holds the latest messages, up to a fixed number of them.
#[derive(Debug)]
pub struct MessageBuffer {
    capacity: usize,
    messages: Vec<String>,
}

pub struct MessageBufferView {
    pub capacity: usize,
    /// The messages held, newest first.
    pub messages: Seq<Seq<char>>,
}

pub open spec fn texts(messages: Seq<String>) -> Seq<Seq<char>> {
    Seq::new(messages.len(), |i: int| messages[i]@)
}

impl View for MessageBuffer {
    type V = MessageBufferView;

    closed spec fn view(&self) -> MessageBufferView {
        MessageBufferView { capacity: self.capacity, messages: texts(self.messages@) }
    }
}

impl MessageBufferView {
    /// The state after a message came in: it is the newest, and the oldest
    /// messages beyond the capacity are gone.
    pub open spec fn push(self, msg: Seq<char>) -> MessageBufferView {
        let all = seq![msg] + self.messages;
        MessageBufferView {
            messages: if all.len() > self.capacity {
                all.take(self.capacity as int)
            } else {
                all
            },
            ..self
        }
    }

    /// The messages held, oldest first.
    pub open spec fn oldest_first(self) -> Seq<Seq<char>> {
        self.messages.reverse()
    }
}

impl MessageBuffer {
    /// An empty buffer that holds up to `capacity` messages.
    pub fn new(capacity: usize) -> (b: MessageBuffer)
        ensures
            b@ == (MessageBufferView { capacity, messages: Seq::empty() }),
    {
        let b = MessageBuffer { capacity, messages: Vec::new() };
        assert(b@.messages =~= Seq::empty());
        b
    }

    /// Takes a message in.
    pub fn push(&mut self, msg: String)
        ensures
            final(self)@ == old(self)@.push(msg@),
    {
        let ghost text = msg@;
        self.messages.insert(0, msg);
        self.messages.truncate(self.capacity);
        assert(self@.messages =~= old(self)@.push(text).messages);
    }

    /// Number of messages held.
    pub fn len(&self) -> (n: usize)
        ensures
            n == self@.messages.len(),
    {
        self.messages.len()
    }

    /// The messages held, oldest first.
    pub fn iter(&self) -> (lines: Vec<String>)
        ensures
            texts(lines@) == self@.oldest_first(),
    {
        let mut lines: Vec<String> = Vec::new();
        let n: usize = self.messages.len();
        let mut k: usize = n;
        while k > 0
            invariant
                k <= n,
                n == self.messages@.len(),
                lines@.len() == n - k,
                forall|i: int| 0 <= i < lines@.len() ==> (#[trigger] lines@[i])@ == self.messages@[n - 1 - i]@,
            decreases k,
        {
            k -= 1;
            lines.push(self.messages[k].clone());
        }
        lines
    }
}

} // verus!
