use vstd::prelude::*;

use crate::keys::{key_char, Keycode};
use crate::pager::{move_selection, Pager, SelectionMove};
use crate::text_input::{edit_state, set_text_state, split_spaces, EditOp, TextInput};

verus! {

/// What the event loop does after a key.
pub enum Action {
    /// Keep running.
    Continue,
    /// Stop without launching anything.
    Quit,
    /// Start `program` with `args`, detached from the launcher, then stop.
    Launch { program: String, args: Vec<String> },
}

/// The query: the first space-delimited token of the line.
pub open spec fn first_token(text: Seq<char>) -> Seq<char> {
    split_spaces(text)[0]
}

/// The number of non-empty tokens.
pub open spec fn nonempty_count(tokens: Seq<Seq<char>>) -> nat
    decreases tokens.len(),
{
    if tokens.len() == 0 {
        0
    } else {
        nonempty_count(tokens.drop_last()) + if tokens.last().len() > 0 {
            1nat
        } else {
            0nat
        }
    }
}

/// What Return starts, as program and arguments: the selected candidate
/// alone while the line holds at most one non-empty token; otherwise the
/// first token, with the rest as its arguments; nothing for no tokens.
pub open spec fn launch_target(tokens: Seq<Seq<char>>, selected: Option<Seq<char>>) -> Option<
    (Seq<char>, Seq<Seq<char>>),
> {
    if nonempty_count(tokens) <= 1 && selected is Some {
        Some((selected->0, Seq::empty()))
    } else if tokens.len() > 0 {
        Some((tokens[0], tokens.drop_first()))
    } else {
        None
    }
}

/// The action that launches `program` with `args`, as character sequences.
pub open spec fn launches(a: Action, program: Seq<char>, args: Seq<Seq<char>>) -> bool {
    match a {
        Action::Launch { program: p, args: v } => p@ == program && v@.len() == args.len() && forall|
            i: int,
        |
            0 <= i < args.len() ==> #[trigger] v@[i]@ == args[i],
        _ => false,
    }
}

/// Whether a key moves the selection rather than the caret: Right while the
/// caret is at the end of the line, Left while the selection is past the first
/// match.
pub open spec fn routes_to_selection(keycode: Keycode, caret_at_end: bool, sel_at_start: bool) -> bool {
    (keycode == Keycode::Right && caret_at_end) || (keycode == Keycode::Left && !sel_at_start)
}

/// The line after a key's routing: Right moves the caret unless it is at the
/// end, Left moves it back while the selection is at the first match.
pub open spec fn routed_line(keycode: Keycode, line: (Seq<char>, nat), sel: nat) -> (Seq<char>, nat) {
    if keycode == Keycode::Right && line.1 != line.0.len() {
        edit_state(line, EditOp::Advance)
    } else if keycode == Keycode::Left && sel == 0 {
        edit_state(line, EditOp::Retreat)
    } else {
        line
    }
}

/// The selection after a key's routing among `total` matches.
pub open spec fn routed_selection(keycode: Keycode, line: (Seq<char>, nat), sel: nat, total: nat) -> nat {
    if keycode == Keycode::Right && line.1 == line.0.len() {
        move_selection(sel, total, SelectionMove::Advance)
    } else if keycode == Keycode::Left && sel != 0 {
        move_selection(sel, total, SelectionMove::Retreat)
    } else {
        sel
    }
}

/// The line after a key's edit: Backspace and Delete remove a character, a
/// printable key inserts its character.
pub open spec fn edited_line(keycode: Keycode, shift: bool, line: (Seq<char>, nat)) -> (Seq<char>, nat) {
    match keycode {
        Keycode::Backspace => edit_state(line, EditOp::Backspace),
        Keycode::Delete => edit_state(line, EditOp::Delete),
        _ => match key_char(keycode, shift) {
            Some(c) => edit_state(line, EditOp::Insert(c)),
            None => line,
        },
    }
}

/// A Right or Left key moves exactly one of the two cursors: Right moves the
/// caret while it is before the end of the line and the selection once it is
/// at the end; Left moves the selection while it is past the first match and
/// the caret once it is at the first match.
pub proof fn lemma_routing_priority(
    keycode: Keycode,
    line: (Seq<char>, nat),
    sel: nat,
    total: nat,
)
    requires
        keycode == Keycode::Right || keycode == Keycode::Left,
    ensures
        keycode == Keycode::Right && line.1 != line.0.len() ==> routed_line(keycode, line, sel)
            == edit_state(line, EditOp::Advance) && routed_selection(keycode, line, sel, total)
            == sel,
        keycode == Keycode::Right && line.1 == line.0.len() ==> routed_line(keycode, line, sel)
            == line && routed_selection(keycode, line, sel, total) == move_selection(
            sel,
            total,
            SelectionMove::Advance,
        ),
        keycode == Keycode::Left && sel == 0 ==> routed_line(keycode, line, sel) == edit_state(
            line,
            EditOp::Retreat,
        ) && routed_selection(keycode, line, sel, total) == sel,
        keycode == Keycode::Left && sel != 0 ==> routed_line(keycode, line, sel) == line
            && routed_selection(keycode, line, sel, total) == move_selection(
            sel,
            total,
            SelectionMove::Retreat,
        ),
        routes_to_selection(keycode, line.1 == line.0.len(), sel == 0) ==> routed_line(
            keycode,
            line,
            sel,
        ) == line,
        !routes_to_selection(keycode, line.1 == line.0.len(), sel == 0) ==> routed_selection(
            keycode,
            line,
            sel,
            total,
        ) == sel,
{
}

/// The launcher's state: the input line, the candidate pages with their
/// selection, whether shift is held, and whether the line has several tokens.
pub struct Launcher {
    input: TextInput,
    pager: Pager,
    shift_pressed: bool,
    in_args: bool,
}

impl Launcher {
    pub closed spec fn spec_input(&self) -> TextInput {
        self.input
    }

    pub closed spec fn spec_pager(&self) -> Pager {
        self.pager
    }

    pub closed spec fn spec_shift(&self) -> bool {
        self.shift_pressed
    }

    /// Whether the line holds more than one token; Tab does nothing then.
    pub closed spec fn multi_token(&self) -> bool {
        self.in_args
    }

    pub open spec fn wf(&self) -> bool {
        self.spec_input().wf() && self.spec_pager().wf()
    }

    /// The name of the selected candidate, if any.
    pub open spec fn selected_name(&self) -> Option<Seq<char>> {
        match self.spec_pager().selected() {
            Some(it) => Some(it.text@),
            None => None,
        }
    }

    /// A launcher over `candidates` with an empty line and no pages yet.
    pub fn new(candidates: Vec<String>) -> (r: Self)
        ensures
            r.wf(),
            r.spec_input()@ == (Seq::<char>::empty(), 0nat),
            r.spec_pager().candidates().to_multiset() == candidates@.to_multiset(),
            crate::candidates::sorted_by_folded_name(r.spec_pager().candidates()),
            r.spec_pager().last_query() is None,
            !r.spec_shift(),
            !r.multi_token(),
    {
        Launcher { input: TextInput::new(), pager: Pager::new(candidates), shift_pressed: false, in_args: false }
    }

    pub fn input(&self) -> (r: &TextInput)
        ensures
            *r == self.spec_input(),
    {
        &self.input
    }

    pub fn pager(&self) -> (r: &Pager)
        ensures
            *r == self.spec_pager(),
    {
        &self.pager
    }

    pub fn in_args(&self) -> (r: bool)
        ensures
            r == self.multi_token(),
    {
        self.in_args
    }

    /// Sets where and how large the pages are drawn.
    pub fn place_pager(&mut self, position: crate::vector::Vector2<i32>, size: crate::vector::Vector2<u32>)
        requires
            old(self).wf(),
        ensures
            final(self).wf(),
            final(self).spec_input() == old(self).spec_input(),
            final(self).spec_pager().width() == size.x,
            final(self).spec_pager().spec_height() == size.y,
            final(self).spec_pager().spec_position() == (position.x as int, position.y as int),
            final(self).spec_pager().candidates() == old(self).spec_pager().candidates(),
            final(self).spec_pager().pages() == old(self).spec_pager().pages(),
            final(self).spec_pager().selection() == old(self).spec_pager().selection(),
            final(self).spec_pager().last_query() == old(self).spec_pager().last_query(),
            final(self).spec_shift() == old(self).spec_shift(),
            final(self).multi_token() == old(self).multi_token(),
    {
        self.pager.set_position(position);
        self.pager.set_size(size);
    }

    /// Recomputes the pages for the line's first token and the multi-token flag.
    pub fn refresh<E, F: Fn(&String) -> Result<u32, E>>(&mut self, measure: &F) -> (r: Result<(), E>)
        requires
            old(self).wf(),
            forall|s: &String| #[trigger] measure.requires((s,)),
        ensures
            final(self).wf(),
            final(self).spec_input() == old(self).spec_input(),
            final(self).spec_shift() == old(self).spec_shift(),
            r is Ok ==> Pager::recomputed(
                old(self).spec_pager(),
                final(self).spec_pager(),
                first_token(old(self).spec_input()@.0),
            ),
            r is Ok ==> final(self).multi_token() == (split_spaces(old(self).spec_input()@.0).len() > 1),
            r is Err ==> final(self).spec_pager() == old(self).spec_pager() && final(self).multi_token()
                == old(self).multi_token(),
            old(self).spec_pager().last_query() == Some(first_token(old(self).spec_input()@.0)) ==> r is Ok,
            r matches Err(e) ==> Pager::measure_failed(
                old(self).spec_pager(),
                first_token(old(self).spec_input()@.0),
                measure,
                e,
            ),
    {
        let args = self.input.get_args();
        proof {
            crate::text_input::lemma_split_spaces_nonempty(self.input@.0);
        }
        let res = self.pager.compute_text(args[0].as_str(), measure);
        match res {
            Ok(()) => {
                self.in_args = args.len() > 1;
                Ok(())
            },
            Err(e) => Err(e),
        }
    }

    /// Handles a key going up: releasing shift.
    pub fn key_up(&mut self, keycode: Keycode)
        ensures
            final(self).spec_input() == old(self).spec_input(),
            final(self).spec_pager() == old(self).spec_pager(),
            final(self).multi_token() == old(self).multi_token(),
            final(self).spec_shift() == if keycode == Keycode::LShift || keycode == Keycode::RShift {
                false
            } else {
                old(self).spec_shift()
            },
    {
        match keycode {
            Keycode::LShift | Keycode::RShift => {
                self.shift_pressed = false;
            },
            _ => {},
        }
    }

    /// Handles a key going down and says what the event loop does next.
    ///
    /// Escape quits. Shift is remembered. Tab, unless the line has several
    /// tokens, replaces the line with the selected candidate's name. Return
    /// launches what `launch_target` names. Any other key is first routed to
    /// the caret or the selection, then edits the line, and the pages are
    /// recomputed for the line's first token.
    pub fn key_down<E, F: Fn(&String) -> Result<u32, E>>(&mut self, keycode: Keycode, measure: &F) -> (r:
        Result<Action, E>)
        requires
            old(self).wf(),
            forall|s: &String| #[trigger] measure.requires((s,)),
        ensures
            final(self).wf(),
            keycode == Keycode::Escape ==> (r matches Ok(Action::Quit)) && *final(self) == *old(self),
            keycode == Keycode::LShift || keycode == Keycode::RShift ==> (r matches Ok(Action::Continue))
                && final(self).spec_shift() && final(self).spec_input() == old(self).spec_input()
                && final(self).spec_pager() == old(self).spec_pager() && final(self).multi_token()
                == old(self).multi_token(),
            keycode == Keycode::Tab ==> {
                &&& r matches Ok(Action::Continue)
                &&& final(self).spec_pager() == old(self).spec_pager()
                &&& final(self).spec_shift() == old(self).spec_shift()
                &&& final(self).multi_token() == old(self).multi_token()
                &&& final(self).spec_input()@ == if !old(self).multi_token()
                    && old(self).selected_name() is Some {
                    set_text_state(old(self).selected_name()->0)
                } else {
                    old(self).spec_input()@
                }
            },
            keycode == Keycode::Return ==> {
                &&& *final(self) == *old(self)
                &&& r is Ok
                &&& match launch_target(
                    split_spaces(old(self).spec_input()@.0),
                    old(self).selected_name(),
                ) {
                    Some((program, args)) => launches(r->Ok_0, program, args),
                    None => r matches Ok(Action::Continue),
                }
            },
            keycode != Keycode::Escape && keycode != Keycode::LShift && keycode != Keycode::RShift
                && keycode != Keycode::Tab && keycode != Keycode::Return ==> {
                let line = old(self).spec_input()@;
                let sel = old(self).spec_pager().selection();
                let total = old(self).spec_pager().total();
                let routed = routed_line(keycode, line, sel);
                let edited = edited_line(keycode, old(self).spec_shift(), routed);
                let moved = old(self).spec_pager().with_selection(
                    routed_selection(keycode, line, sel, total),
                );
                &&& final(self).spec_input()@ == edited
                &&& final(self).spec_shift() == old(self).spec_shift()
                &&& r is Ok ==> (r matches Ok(Action::Continue)) && Pager::recomputed(
                    moved,
                    final(self).spec_pager(),
                    first_token(edited.0),
                ) && final(self).multi_token() == (split_spaces(edited.0).len() > 1)
                &&& r is Err ==> final(self).spec_pager() == moved && final(self).multi_token()
                    == old(self).multi_token()
                &&& moved.last_query() == Some(first_token(edited.0)) ==> r is Ok
                &&& r matches Err(e) ==> Pager::measure_failed(moved, first_token(edited.0), measure, e)
            },
    {
        match keycode {
            Keycode::Escape => Ok(Action::Quit),
            Keycode::LShift | Keycode::RShift => {
                self.shift_pressed = true;
                Ok(Action::Continue)
            },
            Keycode::Tab => {
                if !self.in_args {
                    if let Some(selected) = self.pager.get_selected_entry() {
                        self.input.set_text(selected.item().get_text());
                    }
                }
                Ok(Action::Continue)
            },
            Keycode::Return => Ok(self.launch_action()),
            _ => {
                proof {
                    Pager::lemma_with_own_selection(self.pager);
                }
                if keycode == Keycode::Right {
                    if self.input.is_caret_at_end() {
                        self.pager.advance_caret();
                    } else {
                        self.input.advance_caret();
                    }
                } else if keycode == Keycode::Left {
                    if self.pager.is_caret_at_start() {
                        self.input.retreat_caret();
                    } else {
                        self.pager.retreat_caret();
                    }
                }
                self.input.act_char_at_caret(keycode, self.shift_pressed);
                match self.refresh(measure) {
                    Ok(()) => Ok(Action::Continue),
                    Err(e) => Err(e),
                }
            },
        }
    }

    /// The action for Return on the current line and selection.
    fn launch_action(&self) -> (r: Action)
        requires
            self.wf(),
        ensures
            match launch_target(split_spaces(self.spec_input()@.0), self.selected_name()) {
                Some((program, args)) => launches(r, program, args),
                None => r is Continue,
            },
    {
        let mut args = self.input.get_args();
        let ghost tokens = split_spaces(self.input@.0);
        let mut nonempty: usize = 0;
        let mut i: usize = 0;
        while i < args.len()
            invariant
                args@.len() == tokens.len(),
                forall|k: int| 0 <= k < args@.len() ==> #[trigger] args@[k]@ == tokens[k],
                i <= args@.len(),
                nonempty == nonempty_count(tokens.take(i as int)),
                nonempty <= i,
            decreases args@.len() - i,
        {
            assert(tokens.take(i + 1).drop_last() == tokens.take(i as int));
            if args[i].as_str().unicode_len() > 0 {
                nonempty = nonempty + 1;
            }
            i = i + 1;
        }
        assert(tokens.take(i as int) == tokens);
        if nonempty <= 1 {
            if let Some(selected) = self.pager.get_selected_entry() {
                return Action::Launch { program: selected.item().text.clone(), args: Vec::new() };
            }
        }
        if args.len() == 0 {
            return Action::Continue;
        }
        let ghost before = args@;
        let program = args.remove(0);
        proof {
            assert forall|k: int| 0 <= k < args@.len() implies #[trigger] args@[k]@
                == tokens.drop_first()[k] by {
                assert(args@[k] == before[k + 1]);
            }
        }
        Action::Launch { program, args }
    }
}

} // verus!
