//! The tape: a ring of character slots that overwrites its oldest entry
//! once it is full.

use vstd::prelude::*;
use vstd::std_specs::iter::IteratorSpec;
use core::slice::Iter;

verus! {

/// What a tape holds, as mathematics: the content of each slot in slot
/// order, the slot the next write lands in, and the number of slots written
/// since the tape was last cleared (never more than there are slots).
pub struct TapeState {
    pub slots: Seq<char>,
    pub cursor: nat,
    pub filled: nat,
}

impl TapeState {
    /// The tape as it is created: every slot empty, both counters at zero.
    pub open spec fn empty() -> TapeState {
        TapeState {
            slots: Seq::new(CircularBuffer::MAX_SLOTS as nat, |i: int| CircularBuffer::EMPTY),
            cursor: 0,
            filled: 0,
        }
    }

    /// Until the tape is full the cursor sits right behind the written
    /// slots, and every slot from the cursor on is still empty.
    pub open spec fn wf(self) -> bool {
        &&& self.slots.len() == CircularBuffer::MAX_SLOTS
        &&& self.cursor < CircularBuffer::MAX_SLOTS
        &&& self.filled <= CircularBuffer::MAX_SLOTS
        &&& self.filled < CircularBuffer::MAX_SLOTS ==> self.cursor == self.filled
        &&& forall|i: int|
            self.filled <= i < CircularBuffer::MAX_SLOTS ==> self.slots[i] == CircularBuffer::EMPTY
    }

    /// One write: `c` goes into the slot under the cursor, the cursor moves
    /// on and wraps at the end, and the fill count grows until it has
    /// reached the capacity.
    pub open spec fn insert(self, c: char) -> TapeState {
        TapeState {
            slots: self.slots.update(self.cursor as int, c),
            cursor: (self.cursor + 1) % (CircularBuffer::MAX_SLOTS as nat),
            filled: if self.filled < CircularBuffer::MAX_SLOTS {
                self.filled + 1
            } else {
                self.filled
            },
        }
    }

    /// The writes of `cs`, first element first.
    pub open spec fn insert_all(self, cs: Seq<char>) -> TapeState
        decreases cs.len(),
    {
        if cs.len() == 0 {
            self
        } else {
            self.insert_all(cs.drop_last()).insert(cs.last())
        }
    }

    /// Whether some slot still holds the empty mark.
    pub open spec fn has_unused(self) -> bool {
        exists|i: int| 0 <= i < self.slots.len() && self.slots[i] == CircularBuffer::EMPTY
    }

    /// What a slot shows as on the content line: itself, or the blank mark
    /// when empty.
    pub open spec fn shown(c: char) -> char {
        if c == CircularBuffer::EMPTY {
            CircularBuffer::BLANK
        } else {
            c
        }
    }

    /// A line of spaces with a `V` above the slot under the cursor.
    pub open spec fn marker_line(self) -> Seq<char> {
        Seq::new(
            CircularBuffer::MAX_SLOTS as nat,
            |i: int|
                if i == self.cursor {
                    'V'
                } else {
                    ' '
                },
        )
    }

    /// The content line of a printed tape: the slots in slot order, with
    /// the blank mark for each empty one.
    pub open spec fn content_line(self) -> Seq<char> {
        Seq::new(self.slots.len(), |i: int| Self::shown(self.slots[i]))
    }

    /// A heading, the marker line, `content` and a closing rule, each ended
    /// by carriage return and line feed.
    pub open spec fn framed(self, heading: Seq<char>, content: Seq<char>) -> Seq<char> {
        heading + "\r\n"@ + self.marker_line() + "\r\n"@ + content + "\r\n"@
            + "------------------------\r\n"@
    }

    /// The printed tape: the marker line over the content line, in which
    /// empty slots show as blank marks.
    pub open spec fn dump(self, heading: Seq<char>) -> Seq<char> {
        self.framed(heading, self.content_line())
    }

    /// The tape for debugging: the marker line over the slots exactly as
    /// they are held, empty marks included, under the heading
    /// `Debug-------------------`.
    pub open spec fn debug_text(self) -> Seq<char> {
        self.framed("Debug-------------------"@, self.slots)
    }

    /// Among the first `n` writes to an empty tape, the one whose character
    /// slot `i` holds afterwards (meaningful for `i < n`).
    pub open spec fn last_write(n: int, i: int) -> int {
        i + CircularBuffer::MAX_SLOTS * ((n - 1 - i) / (CircularBuffer::MAX_SLOTS as int))
    }

    /// A write keeps a tape well formed.
    pub proof fn lemma_insert_wf(self, c: char)
        requires
            self.wf(),
        ensures
            self.insert(c).wf(),
    {
    }

    /// After any run of writes to an empty tape, the fill count is the number
    /// of writes capped at the capacity, the cursor is that number modulo the
    /// capacity, and each slot holds the last character written to it, or the
    /// empty mark if none was.
    pub proof fn lemma_insert_all(cs: Seq<char>)
        ensures
            ({
                let t = TapeState::empty().insert_all(cs);
                &&& t.wf()
                &&& t.filled == if cs.len() < CircularBuffer::MAX_SLOTS {
                    cs.len()
                } else {
                    CircularBuffer::MAX_SLOTS as nat
                }
                &&& t.cursor == cs.len() % (CircularBuffer::MAX_SLOTS as nat)
                &&& forall|i: int|
                    0 <= i < CircularBuffer::MAX_SLOTS ==> #[trigger] t.slots[i] == if i
                        < cs.len() {
                        cs[Self::last_write(cs.len() as int, i)]
                    } else {
                        CircularBuffer::EMPTY
                    }
            }),
        decreases cs.len(),
    {
        if cs.len() > 0 {
            let n = cs.len() as int;
            let prev = cs.drop_last();
            Self::lemma_insert_all(prev);
            let before = TapeState::empty().insert_all(prev);
            let t = TapeState::empty().insert_all(cs);
            assert forall|i: int| 0 <= i < CircularBuffer::MAX_SLOTS implies #[trigger] t.slots[i]
                == if i < n {
                cs[Self::last_write(n, i)]
            } else {
                CircularBuffer::EMPTY
            } by {
                if i == before.cursor {
                    assert(Self::last_write(n, i) == n - 1);
                } else if i < n {
                    assert(Self::last_write(n, i) == Self::last_write(n - 1, i));
                }
            }
        }
    }

    /// As long as the writes fit, the slots hold them in the order written.
    pub proof fn lemma_order_kept_until_full(cs: Seq<char>)
        requires
            cs.len() <= CircularBuffer::MAX_SLOTS,
        ensures
            forall|i: int|
                0 <= i < cs.len() ==> TapeState::empty().insert_all(cs).slots[i] == cs[i],
    {
        Self::lemma_insert_all(cs);
        let t = TapeState::empty().insert_all(cs);
        assert forall|i: int| 0 <= i < cs.len() implies t.slots[i] == cs[i] by {
            assert(Self::last_write(cs.len() as int, i) == i);
        }
    }

    /// Once the tape has been filled, the cursor rests on the oldest
    /// character still on it, which is the one the next write replaces.
    pub proof fn lemma_cursor_on_oldest(cs: Seq<char>)
        requires
            cs.len() >= CircularBuffer::MAX_SLOTS,
        ensures
            ({
                let t = TapeState::empty().insert_all(cs);
                t.slots[t.cursor as int] == cs[cs.len() - CircularBuffer::MAX_SLOTS]
            }),
    {
        Self::lemma_insert_all(cs);
        let n = cs.len() as int;
        let cursor = TapeState::empty().insert_all(cs).cursor as int;
        assert(cursor == n % 32);
        assert(Self::last_write(n, cursor) == n - CircularBuffer::MAX_SLOTS);
    }

    /// One write more than there are slots fills the tape and replaces the
    /// oldest character: the first slot then holds the last one written.
    pub proof fn lemma_overwrite_oldest(cs: Seq<char>)
        requires
            cs.len() == CircularBuffer::MAX_SLOTS + 1,
        ensures
            TapeState::empty().insert_all(cs).filled == CircularBuffer::MAX_SLOTS,
            TapeState::empty().insert_all(cs).cursor == 1,
            TapeState::empty().insert_all(cs).slots[0] == cs[CircularBuffer::MAX_SLOTS as int],
            forall|i: int|
                1 <= i < CircularBuffer::MAX_SLOTS ==> TapeState::empty().insert_all(cs).slots[i]
                    == cs[i],
    {
        Self::lemma_insert_all(cs);
        let n = cs.len() as int;
        let t = TapeState::empty().insert_all(cs);
        assert(Self::last_write(n, 0) == CircularBuffer::MAX_SLOTS);
        assert forall|i: int| 1 <= i < CircularBuffer::MAX_SLOTS implies t.slots[i] == cs[i] by {
            assert(Self::last_write(n, i) == i);
        }
    }

    /// Once as many characters have been written as there are slots, and
    /// none of the last of them, one per slot, was the empty mark, no slot is
    /// unused.
    pub proof fn lemma_filled_tape_has_no_unused(cs: Seq<char>)
        requires
            cs.len() >= CircularBuffer::MAX_SLOTS,
            forall|j: int|
                cs.len() - CircularBuffer::MAX_SLOTS <= j < cs.len() ==> cs[j]
                    != CircularBuffer::EMPTY,
        ensures
            !TapeState::empty().insert_all(cs).has_unused(),
    {
        Self::lemma_insert_all(cs);
        let n = cs.len() as int;
        let t = TapeState::empty().insert_all(cs);
        assert forall|i: int| 0 <= i < t.slots.len() implies t.slots[i]
            != CircularBuffer::EMPTY by {
            let j = Self::last_write(n, i);
            assert(n - CircularBuffer::MAX_SLOTS <= j < n);
            assert(t.slots[i] == cs[j]);
        }
    }

    /// On a tape whose written slots hold no empty mark, a slot is unused
    /// exactly as long as the tape has not been filled.
    pub proof fn lemma_unused_iff_not_full(self)
        requires
            self.wf(),
            forall|i: int| 0 <= i < self.filled ==> self.slots[i] != CircularBuffer::EMPTY,
        ensures
            self.has_unused() <==> self.filled < CircularBuffer::MAX_SLOTS,
    {
        if self.filled < CircularBuffer::MAX_SLOTS {
            assert(self.slots[self.filled as int] == CircularBuffer::EMPTY);
        }
    }
}

/// A fixed ring of character slots with a write cursor.
pub struct CircularBuffer {
    buffer: [char; CircularBuffer::MAX_SLOTS],
    current_slot: usize,
    filled: usize,
}

impl View for CircularBuffer {
    type V = TapeState;

    closed spec fn view(&self) -> TapeState {
        TapeState {
            slots: self.buffer@,
            cursor: self.current_slot as nat,
            filled: self.filled as nat,
        }
    }
}

impl CircularBuffer {
    /// The number of slots.
    pub const MAX_SLOTS: usize = 32;

    /// What a slot holds before anything is written to it.
    pub const EMPTY: char = '\0';

    /// What stands for an empty slot on the content line of a printed tape.
    pub const BLANK: char = '~';

    /// Two tapes with the same content are the same tape.
    pub proof fn lemma_view_is_whole(a: CircularBuffer, b: CircularBuffer)
        requires
            a@ == b@,
        ensures
            a == b,
    {
        assert(a.buffer =~= b.buffer);
    }

    /// A tape with every slot empty.
    #[inline(always)]
    pub fn new() -> (r: CircularBuffer)
        ensures
            r@ == TapeState::empty(),
            r@.wf(),
    {
        let r = CircularBuffer {
            buffer: [CircularBuffer::EMPTY; CircularBuffer::MAX_SLOTS],
            current_slot: 0,
            filled: 0,
        };
        assert(r@.slots =~= TapeState::empty().slots);
        r
    }

    /// Puts the tape back into the state it was created in.
    #[inline(always)]
    pub fn clear(&mut self) -> (r: &mut Self)
        ensures
            r@ == TapeState::empty(),
            r@.wf(),
            *final(self) == *final(r),
    {
        self.buffer = [CircularBuffer::EMPTY; CircularBuffer::MAX_SLOTS];
        self.current_slot = 0;
        self.filled = 0;
        assert(self@.slots =~= TapeState::empty().slots);
        self
    }

    /// Writes `val` under the cursor, whatever it is, and moves the cursor
    /// on. A full tape loses its oldest character to the write.
    #[inline(always)]
    pub fn insert(&mut self, val: char) -> (r: &mut Self)
        requires
            old(self)@.wf(),
        ensures
            r@ == old(self)@.insert(val),
            r@.wf(),
            *final(self) == *final(r),
    {
        self.buffer[self.current_slot] = val;
        self.current_slot = (self.current_slot + 1) % CircularBuffer::MAX_SLOTS;
        if self.filled < CircularBuffer::MAX_SLOTS {
            self.filled += 1;
        }
        self
    }

    /// The slot the next write lands in.
    #[inline(always)]
    pub fn current_slot(&self) -> (r: usize)
        ensures
            r == self@.cursor,
    {
        self.current_slot
    }

    /// The number of slots written since the tape was created or cleared,
    /// counting no further once every slot has been written.
    #[inline(always)]
    pub fn filled_count(&self) -> (r: usize)
        ensures
            r == self@.filled,
    {
        self.filled
    }

    /// What slot `index` holds.
    #[inline(always)]
    pub fn get(&self, index: usize) -> (c: char)
        requires
            index < CircularBuffer::MAX_SLOTS,
        ensures
            c == self@.slots[index as int],
    {
        self.buffer[index]
    }

    /// Walks the slots in slot order, which after a wrap is not the order of
    /// writing.
    #[inline(always)]
    pub fn iter(&self) -> (r: Iter<'_, char>)
        ensures
            r.remaining() == self@.slots.as_ref(),
            r.remaining().len() == CircularBuffer::MAX_SLOTS,
            r.decrease() is Some,
            r.initial_value_relation(&r),
    {
        self.buffer.iter()
    }

    /// Whether some slot has never been written since the last clear, going
    /// by what the slots hold.
    pub fn has_unused_slots(&self) -> (r: bool)
        ensures
            r == self@.has_unused(),
    {
        let mut unused_slots: usize = 0;
        for c in it: self.buffer.iter()
            invariant
                it.seq() == self.buffer@.as_ref(),
                unused_slots <= it.index(),
                unused_slots > 0 <==> exists|i: int|
                    0 <= i < it.index() && self.buffer@[i] == CircularBuffer::EMPTY,
        {
            if *c == CircularBuffer::EMPTY {
                unused_slots += 1;
            }
        }
        assert(self@.slots == self.buffer@);
        unused_slots > 0
    }

    /// The tape as text, for a debugging console: a heading, a line that
    /// marks the slot of the next write, the slots as they are held, and a
    /// closing rule. Nothing stands in for an empty slot: it goes out as the
    /// empty mark it holds.
    #[inline(always)]
    pub fn debug(&self) -> (r: Vec<char>)
        ensures
            r@ == self@.debug_text(),
    {
        let slot = self.current_slot();
        let mut out: Vec<char> = Vec::new();
        push_str(&mut out, "Debug-------------------");
        push_str(&mut out, "\r\n");
        let ghost head = out@;
        let mut i: usize = 0;
        while i < CircularBuffer::MAX_SLOTS
            invariant
                i <= CircularBuffer::MAX_SLOTS,
                slot == self@.cursor,
                out@ == head + self@.marker_line().take(i as int),
            decreases CircularBuffer::MAX_SLOTS - i,
        {
            if i == slot {
                out.push('V');
            } else {
                out.push(' ');
            }
            i += 1;
        }
        push_str(&mut out, "\r\n");
        let ghost head = out@;
        for c in it: self.iter()
            invariant
                it.seq() == self@.slots.as_ref(),
                self@.slots.len() == CircularBuffer::MAX_SLOTS,
                out@ == head + self@.slots.take(it.index()),
        {
            out.push(*c);
        }
        assert(self@.slots.take(CircularBuffer::MAX_SLOTS as int) =~= self@.slots);
        push_str(&mut out, "\r\n");
        push_str(&mut out, "------------------------\r\n");
        out
    }
}

/// Appends the characters of `s` to `out`.
fn push_str(out: &mut Vec<char>, s: &str)
    ensures
        final(out)@ == old(out)@ + s@,
{
    for c in it: s.chars()
        invariant
            it.seq() == s@,
            out@ == old(out)@ + s@.take(it.index()),
    {
        out.push(c);
    }
}

} // verus!
