use vstd::prelude::*;

use crate::raft::Term;

verus! {

/// One entry of the replicated log: the term in which a leader created it
/// and the client value it carries.
#[derive(Copy, Clone, Debug, PartialEq, Eq, Structural)]
pub struct LogEntry {
    pub term: Term,
    pub value: usize,
}

/// What `Log::pop` hands back: the removed entry, or nothing when the log
/// was empty.
pub enum TrustedOption {
    Entry(LogEntry),
    Empty,
}

impl TrustedOption {
    pub fn is_none(&self) -> (r: bool)
        ensures
            r == (self is Empty),
    {
        match self {
            TrustedOption::Entry(_) => false,
            TrustedOption::Empty => true,
        }
    }

    pub fn is_some(&self) -> (r: bool)
        ensures
            r == (self is Entry),
    {
        !self.is_none()
    }

    /// The entry held; only defined when there is one.
    pub fn peek(&self) -> (e: LogEntry)
        requires
            self is Entry,
        ensures
            e == self->Entry_0,
    {
        match self {
            TrustedOption::Entry(val) => *val,
            TrustedOption::Empty => {
                proof {
                    assert(false);
                }
                LogEntry { term: 0, value: 0 }
            },
        }
    }
}

/// A singly linked list whose head is the newest entry.
enum Link {
    Empty,
    More(Box<Node>),
}

struct Node {
    elem: LogEntry,
    next: Link,
}

impl Link {
    /// The entries of the list, oldest first.
    spec fn entries(&self) -> Seq<LogEntry>
        decreases self,
    {
        match self {
            Link::Empty => Seq::empty(),
            Link::More(node) => node.next.entries().push(node.elem),
        }
    }

    fn len(&self) -> (r: usize)
        requires
            self.entries().len() <= usize::MAX,
        ensures
            r == self.entries().len(),
            !(self is Empty) ==> r > 0,
        decreases self,
    {
        match self {
            Link::Empty => 0,
            Link::More(node) => 1 + node.next.len(),
        }
    }

    /// The entry `index` steps away from the head (0 is the newest).
    fn lookup(&self, index: usize) -> (e: LogEntry)
        requires
            index < self.entries().len(),
        ensures
            e == self.entries()[self.entries().len() - 1 - index],
        decreases self,
    {
        match self {
            Link::Empty => {
                proof {
                    assert(false);
                }
                LogEntry { term: 0, value: 0 }
            },
            Link::More(node) => {
                if index == 0 {
                    node.elem
                } else {
                    node.next.lookup(index - 1)
                }
            },
        }
    }

    fn clone_link(&self) -> (r: Link)
        ensures
            r.entries() == self.entries(),
        decreases self,
    {
        match self {
            Link::Empty => Link::Empty,
            Link::More(node) => Link::More(
                Box::new(Node { elem: node.elem, next: node.next.clone_link() }),
            ),
        }
    }
}

/// Puts `src` in place of `dest` and hands back what `dest` held.
fn replace(dest: &mut Link, src: Link) -> (r: Link)
    ensures
        *final(dest) == src,
        r == *old(dest),
    no_unwind
{
    let mut src = src;
    std::mem::swap(dest, &mut src);
    src
}

/// The replicated log of a node. Positions are 1-based, as in Raft:
/// `lookup(1)` is the oldest entry and `lookup(len())` the newest.
pub struct Log {
    head: Link,
}

impl View for Log {
    type V = Seq<LogEntry>;

    /// The entries, oldest first.
    closed spec fn view(&self) -> Seq<LogEntry> {
        self.head.entries()
    }
}

impl Log {
    #[verifier::type_invariant]
    spec fn fits(&self) -> bool {
        self.head.entries().len() < usize::MAX
    }

    pub fn len(&self) -> (r: usize)
        ensures
            r == self@.len(),
            r < usize::MAX,
    {
        proof {
            use_type_invariant(self);
        }
        self.head.len()
    }

    /// The entry at 1-based position `index`.
    pub fn lookup(&self, index: usize) -> (e: LogEntry)
        requires
            1 <= index <= self@.len(),
        ensures
            e == self@[index - 1],
    {
        let n = self.len();
        self.head.lookup(n - index)
    }

    pub fn new() -> (r: Self)
        ensures
            r@ == Seq::<LogEntry>::empty(),
    {
        Log { head: Link::Empty }
    }

    /// Appends `elem` as the newest entry.
    pub fn push(&mut self, elem: LogEntry)
        requires
            old(self)@.len() + 1 < usize::MAX,
        ensures
            final(self)@ == old(self)@.push(elem),
    {
        let new_node = Box::new(Node { elem: elem, next: replace(&mut self.head, Link::Empty) });
        self.head = Link::More(new_node);
    }

    /// Removes the newest entry and hands it back.
    pub fn pop(&mut self) -> (r: TrustedOption)
        ensures
            old(self)@.len() == 0 ==> r is Empty && final(self)@ == old(self)@,
            old(self)@.len() > 0 ==> r == TrustedOption::Entry(old(self)@.last()) && final(self)@
                == old(self)@.drop_last(),
    {
        proof {
            use_type_invariant(&*self);
        }
        match replace(&mut self.head, Link::Empty) {
            Link::Empty => TrustedOption::Empty,
            Link::More(node) => {
                let node = *node;
                self.head = node.next;
                TrustedOption::Entry(node.elem)
            },
        }
    }
}

impl Clone for Log {
    fn clone(&self) -> (r: Self)
        ensures
            r@ == self@,
    {
        proof {
            use_type_invariant(self);
        }
        Log { head: self.head.clone_link() }
    }
}

} // verus!
