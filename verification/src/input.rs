//! Pending turns: a short queue between key presses and the snake's head.

use crate::grid::Direction;
use std::collections::VecDeque;
use vstd::prelude::*;

verus! {

/// Number of turns that can wait in the queue.
pub const MAX_INPUT_QUEUE_LENGTH: usize = 2;

/// The queue after the presses of one frame: presses are appended in order
/// while there is room, and the rest is dropped.
pub open spec fn spec_enqueue(queue: Seq<Direction>, pressed: Seq<Direction>) -> Seq<Direction> {
    let room = if queue.len() >= MAX_INPUT_QUEUE_LENGTH {
        0
    } else {
        MAX_INPUT_QUEUE_LENGTH - queue.len()
    };
    let taken = if pressed.len() <= room {
        pressed.len() as int
    } else {
        room
    };
    queue + pressed.subrange(0, taken)
}

/// The heading that a head moving along `head` takes from the queue, and the
/// queue left behind: entries are removed from the front up to and including
/// the first one that is not the reverse of `head`; where there is none, the
/// head keeps its heading and the queue ends empty.
pub open spec fn spec_resolve(queue: Seq<Direction>, head: Direction) -> (
    Direction,
    Seq<Direction>,
)
    decreases queue.len(),
{
    if queue.len() == 0 {
        (head, queue)
    } else if queue[0].spec_reverse() != head {
        (queue[0], queue.subrange(1, queue.len() as int))
    } else {
        spec_resolve(queue.subrange(1, queue.len() as int), head)
    }
}

/// A key that the game listens to.
#[derive(Clone, Copy, Debug, PartialEq, Eq, Hash, Structural)]
pub enum Key {
    Left,
    A,
    Right,
    D,
    Up,
    W,
    Down,
    S,
    Space,
    R,
}

impl Key {
    /// The heading that the key stands for: the arrow keys and W, A, S, D
    /// steer; the other keys do not.
    pub open spec fn spec_direction(self) -> Option<Direction> {
        match self {
            Key::Left | Key::A => Some(Direction::Left),
            Key::Right | Key::D => Some(Direction::Right),
            Key::Up | Key::W => Some(Direction::Up),
            Key::Down | Key::S => Some(Direction::Down),
            Key::Space | Key::R => None,
        }
    }

    /// The heading that the key stands for, if it steers.
    pub fn direction(&self) -> (d: Option<Direction>)
        ensures
            d == self.spec_direction(),
    {
        match self {
            Key::Left | Key::A => Some(Direction::Left),
            Key::Right | Key::D => Some(Direction::Right),
            Key::Up | Key::W => Some(Direction::Up),
            Key::Down | Key::S => Some(Direction::Down),
            Key::Space | Key::R => None,
        }
    }
}

/// The headings of the steering keys among `keys`, in the order of the keys.
pub open spec fn spec_directions(keys: Seq<Key>) -> Seq<Direction>
    decreases keys.len(),
{
    if keys.len() == 0 {
        Seq::empty()
    } else {
        let before = spec_directions(keys.drop_last());
        match keys.last().spec_direction() {
            Some(d) => before.push(d),
            None => before,
        }
    }
}

/// Picks the headings out of the keys that were pressed in one frame.
pub fn directions(keys: &Vec<Key>) -> (pressed: Vec<Direction>)
    ensures
        pressed@ == spec_directions(keys@),
{
    let mut pressed: Vec<Direction> = Vec::new();
    let mut i: usize = 0;
    while i < keys.len()
        invariant
            i <= keys.len(),
            pressed@ == spec_directions(keys@.subrange(0, i as int)),
        decreases keys.len() - i,
    {
        proof {
            assert(keys@.subrange(0, i + 1).drop_last() == keys@.subrange(0, i as int));
        }
        match keys[i].direction() {
            Some(d) => {
                pressed.push(d);
            },
            None => {},
        }
        i = i + 1;
    }
    proof {
        assert(keys@.subrange(0, keys@.len() as int) == keys@);
    }
    pressed
}

/// Whether `key` is among `keys`.
pub fn pressed(keys: &Vec<Key>, key: Key) -> (found: bool)
    ensures
        found == keys@.contains(key),
{
    let mut i: usize = 0;
    while i < keys.len()
        invariant
            i <= keys.len(),
            forall|k: int| 0 <= k < i ==> keys@[k] != key,
        decreases keys.len() - i,
    {
        if keys[i] == key {
            return true;
        }
        i = i + 1;
    }
    false
}

/// Turns that were pressed and not applied yet, oldest first.
#[derive(Clone, Debug)]
pub struct InputQueue {
    pub pending: VecDeque<Direction>,
}

impl View for InputQueue {
    type V = Seq<Direction>;

    open spec fn view(&self) -> Seq<Direction> {
        self.pending@
    }
}

impl InputQueue {
    /// The queue holds no more than its capacity.
    pub open spec fn wf(&self) -> bool {
        self@.len() <= MAX_INPUT_QUEUE_LENGTH
    }

    /// An empty queue.
    pub fn new() -> (q: InputQueue)
        ensures
            q@ == Seq::<Direction>::empty(),
            q.wf(),
    {
        InputQueue { pending: VecDeque::new() }
    }

    /// Number of turns waiting.
    pub fn len(&self) -> (n: usize)
        ensures
            n == self@.len(),
    {
        self.pending.len()
    }

    /// The turn at place `index`, counted from the front.
    pub fn get(&self, index: usize) -> (d: Option<Direction>)
        ensures
            index < self@.len() ==> d == Some(self@[index as int]),
            index >= self@.len() ==> d is None,
    {
        if index < self.pending.len() {
            Some(self.pending[index])
        } else {
            None
        }
    }

    /// Appends the turns pressed in one frame while the queue has room; the
    /// turns that do not fit are dropped.
    pub fn enqueue(&mut self, pressed: &Vec<Direction>)
        ensures
            final(self)@ == spec_enqueue(old(self)@, pressed@),
            old(self).wf() ==> final(self).wf(),
    {
        let ghost start = self@;
        let mut i: usize = 0;
        while i < pressed.len() && self.pending.len() < MAX_INPUT_QUEUE_LENGTH
            invariant
                i <= pressed.len(),
                self@ == start + pressed@.subrange(0, i as int),
                i > 0 ==> start.len() + i <= MAX_INPUT_QUEUE_LENGTH,
            decreases pressed.len() - i,
        {
            self.pending.push_back(pressed[i]);
            i = i + 1;
            assert(pressed@.subrange(0, i as int) == pressed@.subrange(0, i - 1).push(
                pressed@[i - 1],
            ));
        }
    }

    /// Drops every turn that is waiting.
    pub fn clear(&mut self)
        ensures
            final(self)@ == Seq::<Direction>::empty(),
            final(self).wf(),
    {
        self.pending.clear();
    }

    /// Takes the next legal turn for a head moving along `head`: removes
    /// entries from the front until one is not the reverse of `head`, and
    /// returns it. Returns `head` itself, leaving the queue empty, where no
    /// entry is legal.
    pub fn resolve(&mut self, head: Direction) -> (d: Direction)
        ensures
            (d, final(self)@) == spec_resolve(old(self)@, head),
            d != head.spec_reverse(),
            final(self)@.len() <= old(self)@.len(),
    {
        let ghost start = self@;
        let mut chosen = head;
        let mut found = false;
        proof {
            lemma_resolve(start, head);
        }
        while !found && self.pending.len() > 0
            invariant
                !found ==> chosen == head && spec_resolve(self@, head) == spec_resolve(start, head),
                found ==> (chosen, self@) == spec_resolve(start, head),
                self@.len() <= start.len(),
            decreases self@.len() + (if found { 0int } else { 1int }),
        {
            let next = self.pending.pop_front();
            match next {
                Some(d) => {
                    if d.reverse() != head {
                        chosen = d;
                        found = true;
                    }
                },
                None => {},
            }
        }
        chosen
    }
}

/// The heading taken from the queue is never the reverse of the head's
/// heading. It is the head's heading or an entry of the queue, and what
/// stays queued is an end piece of the queue.
pub proof fn lemma_resolve(queue: Seq<Direction>, head: Direction)
    ensures
        spec_resolve(queue, head).0 != head.spec_reverse(),
        spec_resolve(queue, head).0 == head || queue.contains(spec_resolve(queue, head).0),
        spec_resolve(queue, head).1.len() <= queue.len(),
        spec_resolve(queue, head).1 == queue.subrange(
            queue.len() - spec_resolve(queue, head).1.len(),
            queue.len() as int,
        ),
    decreases queue.len(),
{
    crate::grid::lemma_reverse(head);
    if queue.len() == 0 {
        assert(queue.subrange(0, 0) == queue);
    } else if queue[0].spec_reverse() != head {
        crate::grid::lemma_reverse(queue[0]);
    } else {
        let rest = queue.subrange(1, queue.len() as int);
        lemma_resolve(rest, head);
        let left = spec_resolve(rest, head).1;
        assert(rest.subrange(rest.len() - left.len(), rest.len() as int) == queue.subrange(
            queue.len() - left.len(),
            queue.len() as int,
        ));
        if rest.contains(spec_resolve(rest, head).0) {
            let k = choose|k: int| 0 <= k < rest.len() && rest[k] == spec_resolve(rest, head).0;
            assert(queue[k + 1] == rest[k]);
        }
    }
}

} // verus!
