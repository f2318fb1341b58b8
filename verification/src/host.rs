//! Host simulator input: terminal keys mapped to logical keys, and the queue
//! that carries them from the terminal reader to the UI.

use std::collections::VecDeque;

use vstd::prelude::*;

use crate::input::{KeyCode, KeyEvent, key_of_char};

verus! {

/// A key as the terminal reports it.
#[derive(Debug, Clone, Copy, PartialEq, Eq, Structural)]
pub enum TermKey {
    Char(char),
    Enter,
    Tab,
    Backspace,
    Delete,
    Esc,
    Left,
    Right,
    Up,
    Down,
    Home,
    End,
    PageUp,
    PageDown,
    F(u8),
    Menu,
    /// Any other terminal key.
    Other,
}

/// The logical key for a terminal key, with Ctrl held or not: a character
/// with Ctrl is an unrecognised key carrying the character's low byte.
pub open spec fn map_key_spec(key: TermKey, ctrl: bool) -> KeyCode {
    match key {
        TermKey::Char(c) => if ctrl {
            KeyCode::Unknown(((c as u32) % 256) as u8)
        } else {
            key_of_char(c)
        },
        TermKey::Enter => KeyCode::Enter,
        TermKey::Tab => KeyCode::Tab,
        TermKey::Backspace => KeyCode::Backspace,
        TermKey::Delete => KeyCode::Delete,
        TermKey::Esc => KeyCode::Esc,
        TermKey::Left => KeyCode::Left,
        TermKey::Right => KeyCode::Right,
        TermKey::Up => KeyCode::Up,
        TermKey::Down => KeyCode::Down,
        TermKey::Home => KeyCode::Home,
        TermKey::End => KeyCode::End,
        TermKey::PageUp => KeyCode::PageUp,
        TermKey::PageDown => KeyCode::PageDown,
        TermKey::F(n) => KeyCode::F(n),
        TermKey::Menu => KeyCode::Menu,
        TermKey::Other => KeyCode::Unknown(0),
    }
}

/// Map a terminal key press to a logical key.
pub fn map_key(key: TermKey, ctrl: bool) -> (r: KeyCode)
    ensures
        r == map_key_spec(key, ctrl),
{
    match key {
        TermKey::Char(c) => {
            if ctrl {
                KeyCode::Unknown(((c as u32) % 256) as u8)
            } else {
                KeyCode::from_char(c)
            }
        },
        TermKey::Enter => KeyCode::Enter,
        TermKey::Tab => KeyCode::Tab,
        TermKey::Backspace => KeyCode::Backspace,
        TermKey::Delete => KeyCode::Delete,
        TermKey::Esc => KeyCode::Esc,
        TermKey::Left => KeyCode::Left,
        TermKey::Right => KeyCode::Right,
        TermKey::Up => KeyCode::Up,
        TermKey::Down => KeyCode::Down,
        TermKey::Home => KeyCode::Home,
        TermKey::End => KeyCode::End,
        TermKey::PageUp => KeyCode::PageUp,
        TermKey::PageDown => KeyCode::PageDown,
        TermKey::F(n) => KeyCode::F(n),
        TermKey::Menu => KeyCode::Menu,
        TermKey::Other => KeyCode::Unknown(0),
    }
}

/// How many of `len` queued events a read of `capacity` takes.
pub open spec fn taken(len: nat, capacity: usize) -> int {
    if capacity < len {
        capacity as int
    } else {
        len as int
    }
}

/// The simulator's keyboard: a first-in first-out queue of key events that
/// the terminal reader fills and the UI drains.
pub struct HostKeyboard {
    queue: VecDeque<KeyEvent>,
}

impl View for HostKeyboard {
    type V = Seq<KeyEvent>;

    closed spec fn view(&self) -> Seq<KeyEvent> {
        self.queue@
    }
}

impl Default for HostKeyboard {
    fn default() -> (r: Self)
        ensures
            r@ == Seq::<KeyEvent>::empty(),
    {
        HostKeyboard::new()
    }
}

impl HostKeyboard {
    /// An empty queue.
    pub fn new() -> (r: Self)
        ensures
            r@ == Seq::<KeyEvent>::empty(),
    {
        HostKeyboard { queue: VecDeque::new() }
    }

    /// Queue an event behind those already waiting.
    pub fn push(&mut self, ev: KeyEvent)
        ensures
            final(self)@ == old(self)@.push(ev),
    {
        self.queue.push_back(ev);
    }

    /// Number of events waiting.
    pub fn pending(&self) -> (r: usize)
        ensures
            r == self@.len(),
    {
        self.queue.len()
    }

    /// Take up to `capacity` events, oldest first; the rest stay queued in
    /// order.
    pub fn read(&mut self, capacity: usize) -> (r: Vec<KeyEvent>)
        ensures
            r@ == old(self)@.take(taken(old(self)@.len(), capacity)),
            final(self)@ == old(self)@.skip(taken(old(self)@.len(), capacity)),
    {
        let mut out: Vec<KeyEvent> = Vec::new();
        while out.len() < capacity
            invariant_except_break
                old(self)@ == out@ + self@,
                out.len() <= capacity,
            ensures
                old(self)@ == out@ + self@,
                out.len() <= capacity,
                out.len() == capacity || self@.len() == 0,
            decreases capacity - out.len(),
        {
            match self.queue.pop_front() {
                Some(ev) => {
                    out.push(ev);
                },
                None => {
                    break;
                },
            }
        }
        proof {
            let n = taken(old(self)@.len(), capacity);
            assert(old(self)@.len() == out@.len() + self@.len());
            assert(n == out@.len());
            assert(out@ =~= old(self)@.take(n));
            assert(self@ =~= old(self)@.skip(n));
        }
        out
    }
}

/// Events come out in the order they went in, none lost or repeated: after
/// pushing `e1` then `e2` onto a queue holding `q`, reads that together
/// take everything give `q`, `e1`, `e2` in that order and leave the queue
/// empty.
pub proof fn lemma_queue_fifo(q: Seq<KeyEvent>, e1: KeyEvent, e2: KeyEvent, cap1: usize, cap2: usize)
    requires
        cap1 + cap2 >= q.len() + 2,
    ensures
        ({
            let full = q.push(e1).push(e2);
            let n1 = taken(full.len(), cap1);
            let rest = full.skip(n1);
            let n2 = taken(rest.len(), cap2);
            &&& full.take(n1) + rest.take(n2) == q + seq![e1, e2]
            &&& rest.skip(n2).len() == 0
        }),
{
    let full = q.push(e1).push(e2);
    let n1 = taken(full.len(), cap1);
    let rest = full.skip(n1);
    let n2 = taken(rest.len(), cap2);
    assert(n2 == rest.len());
    assert(rest.take(n2) =~= rest);
    assert(full.take(n1) + rest =~= full);
    assert(full =~= q + seq![e1, e2]);
}

} // verus!
