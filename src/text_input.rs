use vstd::prelude::*;

use crate::keys::{key_char, keycode_to_char, Keycode};
use crate::strings::{chars_of, string_of};

verus! {

/// Largest number of characters the input line holds; further inserts are dropped.
pub const MAX_INPUT_LEN: usize = 65535;

/// The pieces of `s` between single spaces, in order. Repeated, leading or
/// trailing spaces give empty pieces; an empty line gives one empty piece.
pub open spec fn split_spaces(s: Seq<char>) -> Seq<Seq<char>>
    decreases s.len(),
{
    if s.len() == 0 {
        seq![Seq::empty()]
    } else {
        let init = split_spaces(s.drop_last());
        if s.last() == ' ' {
            init.push(Seq::empty())
        } else {
            init.update(init.len() - 1, init.last().push(s.last()))
        }
    }
}

pub proof fn lemma_split_spaces_nonempty(s: Seq<char>)
    ensures
        split_spaces(s).len() >= 1,
    decreases s.len(),
{
    if s.len() > 0 {
        lemma_split_spaces_nonempty(s.drop_last());
    }
}

/// One editing operation on the input line.
pub enum EditOp {
    Insert(char),
    Backspace,
    Delete,
    Advance,
    Retreat,
}

/// The caret moved one place right, stopping at the end of the text.
pub open spec fn advance_state(s: (Seq<char>, nat)) -> (Seq<char>, nat) {
    (s.0, if s.1 < s.0.len() { s.1 + 1 } else { s.0.len() })
}

/// The character before the caret removed and the caret moved onto its place.
pub open spec fn backspace_state(s: (Seq<char>, nat)) -> (Seq<char>, nat) {
    if s.0.len() > 0 && s.1 > 0 {
        (s.0.remove(s.1 - 1), (s.1 - 1) as nat)
    } else {
        s
    }
}

/// What an edit does to a line `(text, caret)`.
pub open spec fn edit_state(s: (Seq<char>, nat), op: EditOp) -> (Seq<char>, nat) {
    match op {
        EditOp::Insert(c) => if s.0.len() < MAX_INPUT_LEN {
            (s.0.insert(s.1 as int, c), s.1 + 1)
        } else {
            s
        },
        EditOp::Backspace => backspace_state(s),
        EditOp::Delete => backspace_state(advance_state(s)),
        EditOp::Advance => advance_state(s),
        EditOp::Retreat => (s.0, if s.1 > 0 { (s.1 - 1) as nat } else { 0 }),
    }
}

/// The line after a sequence of edits, applied in order.
pub open spec fn run_edits(s: (Seq<char>, nat), ops: Seq<EditOp>) -> (Seq<char>, nat)
    decreases ops.len(),
{
    if ops.len() == 0 {
        s
    } else {
        edit_state(run_edits(s, ops.drop_last()), ops.last())
    }
}

/// A line whose caret lies within its text and whose text is within the cap.
pub open spec fn line_ok(s: (Seq<char>, nat)) -> bool {
    s.1 <= s.0.len() && s.0.len() <= MAX_INPUT_LEN
}

proof fn lemma_edit_keeps_line_ok(s: (Seq<char>, nat), op: EditOp)
    requires
        line_ok(s),
    ensures
        line_ok(edit_state(s, op)),
{
    let a = advance_state(s);
    assert(line_ok(a));
    if a.0.len() > 0 && a.1 > 0 {
        assert(a.0.remove(a.1 - 1).len() == a.0.len() - 1);
    }
    if s.0.len() > 0 && s.1 > 0 {
        assert(s.0.remove(s.1 - 1).len() == s.0.len() - 1);
    }
    if let EditOp::Insert(c) = op {
        if s.0.len() < MAX_INPUT_LEN {
            assert(s.0.insert(s.1 as int, c).len() == s.0.len() + 1);
        }
    }
}

/// Every sequence of inserts, deletions and caret moves keeps the caret
/// between the start and the end of the text, after each single operation.
pub proof fn lemma_edits_keep_caret_in_bounds(s: (Seq<char>, nat), ops: Seq<EditOp>)
    requires
        line_ok(s),
    ensures
        forall|k: int| 0 <= k <= ops.len() ==> line_ok(#[trigger] run_edits(s, ops.take(k))),
    decreases ops.len(),
{
    if ops.len() > 0 {
        lemma_edits_keep_caret_in_bounds(s, ops.drop_last());
        assert forall|k: int| 0 <= k <= ops.len() implies line_ok(#[trigger] run_edits(s, ops.take(k))) by {
            if k < ops.len() {
                assert(ops.take(k) == ops.drop_last().take(k));
            } else {
                assert(ops.take(k) == ops);
                assert(ops.take(k).drop_last() == ops.drop_last().take(ops.len() - 1));
                assert(ops.drop_last().take(ops.len() - 1) == ops.drop_last());
                lemma_edit_keeps_line_ok(run_edits(s, ops.drop_last()), ops.last());
            }
        }
    }
}

/// The line holding the first `MAX_INPUT_LEN` characters of `t`, caret at its end.
pub open spec fn set_text_state(t: Seq<char>) -> (Seq<char>, nat) {
    let n = if t.len() <= MAX_INPUT_LEN { t.len() } else { MAX_INPUT_LEN as nat };
    (t.take(n as int), n)
}

/// The edited input line: its characters and a caret between them.
pub struct TextInput {
    caret_position: u16,
    buffer: Vec<char>,
}

impl View for TextInput {
    type V = (Seq<char>, nat);

    closed spec fn view(&self) -> (Seq<char>, nat) {
        (self.buffer@, self.caret_position as nat)
    }
}

impl TextInput {
    /// The text and caret satisfy the line's invariant.
    pub open spec fn wf(&self) -> bool {
        line_ok(self@)
    }

    pub fn new() -> (r: Self)
        ensures
            r@ == (Seq::<char>::empty(), 0nat),
            r.wf(),
    {
        TextInput { caret_position: 0, buffer: Vec::new() }
    }

    /// The characters of the line.
    pub fn text(&self) -> (r: String)
        ensures
            r@ == self@.0,
    {
        string_of(self.buffer.as_slice())
    }

    /// The caret offset, in characters.
    pub fn caret_position(&self) -> (r: usize)
        ensures
            r == self@.1,
    {
        self.caret_position as usize
    }

    /// Inserts `letter` at the caret and moves the caret past it, unless the
    /// line is full.
    pub fn insert_char_at_caret(&mut self, letter: char)
        requires
            old(self).wf(),
        ensures
            final(self)@ == edit_state(old(self)@, EditOp::Insert(letter)),
            final(self).wf(),
    {
        if self.buffer.len() < MAX_INPUT_LEN {
            self.buffer.insert(self.caret_position as usize, letter);
            self.caret_position = self.caret_position + 1;
        }
    }

    /// Removes the character before the caret and moves the caret back.
    pub fn remove_char_at_caret(&mut self)
        requires
            old(self).wf(),
        ensures
            final(self)@ == edit_state(old(self)@, EditOp::Backspace),
            final(self).wf(),
    {
        if self.buffer.len() > 0 && self.caret_position > 0 {
            self.buffer.remove(self.caret_position as usize - 1);
            self.caret_position = self.caret_position - 1;
        }
    }

    /// Moves the caret one place right, stopping at the end.
    pub fn advance_caret(&mut self)
        requires
            old(self).wf(),
        ensures
            final(self)@ == edit_state(old(self)@, EditOp::Advance),
            final(self).wf(),
    {
        if (self.caret_position as usize) < self.buffer.len() {
            self.caret_position = self.caret_position + 1;
        }
    }

    /// Moves the caret one place left, stopping at the start.
    pub fn retreat_caret(&mut self)
        requires
            old(self).wf(),
        ensures
            final(self)@ == edit_state(old(self)@, EditOp::Retreat),
            final(self).wf(),
    {
        if self.caret_position > 0 {
            self.caret_position = self.caret_position - 1;
        }
    }

    pub fn is_caret_at_end(&self) -> (r: bool)
        ensures
            r == (self@.1 == self@.0.len()),
    {
        self.caret_position as usize == self.buffer.len()
    }

    /// Left and Right move the caret; other keys leave the line as it is.
    pub fn keycode_interaction(&mut self, keycode: Keycode)
        requires
            old(self).wf(),
        ensures
            final(self)@ == match keycode {
                Keycode::Left => edit_state(old(self)@, EditOp::Retreat),
                Keycode::Right => edit_state(old(self)@, EditOp::Advance),
                _ => old(self)@,
            },
            final(self).wf(),
    {
        match keycode {
            Keycode::Left => self.retreat_caret(),
            Keycode::Right => self.advance_caret(),
            _ => {},
        }
    }

    /// Backspace and Delete remove a character; a printable key inserts the
    /// character it types under the given shift state; other keys do nothing.
    pub fn act_char_at_caret(&mut self, keycode: Keycode, shift: bool)
        requires
            old(self).wf(),
        ensures
            final(self)@ == match keycode {
                Keycode::Backspace => edit_state(old(self)@, EditOp::Backspace),
                Keycode::Delete => edit_state(old(self)@, EditOp::Delete),
                _ => match key_char(keycode, shift) {
                    Some(c) => edit_state(old(self)@, EditOp::Insert(c)),
                    None => old(self)@,
                },
            },
            final(self).wf(),
    {
        match keycode {
            Keycode::Backspace => self.remove_char_at_caret(),
            Keycode::Delete => {
                self.advance_caret();
                self.remove_char_at_caret();
            },
            _ => {
                if let Some(c) = keycode_to_char(keycode, shift) {
                    self.insert_char_at_caret(c);
                }
            },
        }
    }

    /// Replaces the line with the characters of `text` (the first
    /// `MAX_INPUT_LEN` of them) and puts the caret at the end.
    pub fn set_text(&mut self, text: &str)
        ensures
            final(self)@ == set_text_state(text@),
            final(self).wf(),
    {
        let mut chars = chars_of(text);
        if chars.len() > MAX_INPUT_LEN {
            chars.truncate(MAX_INPUT_LEN);
        }
        self.caret_position = chars.len() as u16;
        self.buffer = chars;
    }

    /// The line split on single spaces, empty pieces included.
    pub fn get_args(&self) -> (r: Vec<String>)
        ensures
            r@.len() == split_spaces(self@.0).len(),
            forall|i: int| 0 <= i < r@.len() ==> #[trigger] r@[i]@ == split_spaces(self@.0)[i],
    {
        let mut args: Vec<String> = Vec::new();
        let mut current: Vec<char> = Vec::new();
        let mut i: usize = 0;
        while i < self.buffer.len()
            invariant
                i <= self.buffer@.len(),
                args@.len() + 1 == split_spaces(self.buffer@.take(i as int)).len(),
                forall|j: int| 0 <= j < args@.len() ==> #[trigger] args@[j]@
                    == split_spaces(self.buffer@.take(i as int))[j],
                current@ == split_spaces(self.buffer@.take(i as int)).last(),
            decreases self.buffer@.len() - i,
        {
            let c = self.buffer[i];
            let ghost prev = self.buffer@.take(i as int);
            assert(self.buffer@.take(i + 1).drop_last() == prev);
            proof {
                lemma_split_spaces_nonempty(prev);
            }
            if c == ' ' {
                args.push(string_of(current.as_slice()));
                current = Vec::new();
            } else {
                current.push(c);
            }
            i = i + 1;
        }
        assert(self.buffer@.take(i as int) == self.buffer@);
        proof {
            lemma_split_spaces_nonempty(self.buffer@);
        }
        args.push(string_of(current.as_slice()));
        args
    }
}

} // verus!
