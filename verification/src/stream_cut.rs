//! Cutting a reply stream after its terminal message.
//!
//! A raw reply stream reads on indefinitely; a typed stream passes on its
//! items up to and including the first terminal message (`StreamEnd` for a
//! streamed response, `DownloadEnd` for a download), and nothing after.

use vstd::prelude::*;
use crate::protocol::MessageKind;

verus! {

/// The state of a cut stream: which kind ends it, and whether it has ended.
pub struct StreamCut {
    end: MessageKind,
    done: bool,
}

/// The next state of a cut stream, and whether the item passes: an item
/// passes while the stream is open; a message of the terminal kind closes it.
pub open spec fn cut_step(end: MessageKind, done: bool, item: Option<MessageKind>) -> (bool, bool) {
    (!done, done || item == Some(end))
}

impl StreamCut {
    /// The kind of message that ends the stream.
    pub closed spec fn end_kind(&self) -> MessageKind {
        self.end
    }

    /// Whether the terminal message has passed.
    pub closed spec fn is_done(&self) -> bool {
        self.done
    }

    /// A stream that ends with a message of kind `end`.
    pub fn new(end: MessageKind) -> (r: Self)
        ensures
            r.end_kind() == end,
            !r.is_done(),
    {
        StreamCut { end, done: false }
    }

    /// Whether the terminal message has passed: the stream has ended.
    pub fn is_over(&self) -> (r: bool)
        ensures
            r == self.is_done(),
    {
        self.done
    }

    /// Whether the next item passes. `item` is the kind of the message it
    /// carries, or `None` for a transport error (which passes too, while the
    /// stream is open).
    pub fn passes(&mut self, item: Option<MessageKind>) -> (pass: bool)
        ensures
            final(self).end_kind() == old(self).end_kind(),
            (pass, final(self).is_done()) == cut_step(old(self).end_kind(), old(self).is_done(), item),
    {
        if self.done {
            return false;
        }
        match item {
            Some(k) => {
                if k == self.end {
                    self.done = true;
                }
            },
            None => {},
        }
        true
    }
}

/// Once the terminal message has passed, nothing more passes.
pub proof fn law_nothing_after_end(end: MessageKind, done: bool, later: Seq<Option<MessageKind>>)
    ensures
        ({
            let s1 = cut_step(end, done, Some(end));
            forall|i: int| 0 <= i < later.len() ==> !cut_step(end, s1.1, #[trigger] later[i]).0
        }),
{
}

} // verus!
