//! The editor behind the interactive input of a scramble and a target state:
//! which field is active, where the cursor is, and how each key changes them.
use vstd::prelude::*;
use crate::parser::move_parser::string_from_chars;

verus! {

/// A field of the editor.
#[derive(Debug, Clone, Copy, PartialEq, Eq, Structural)]
pub enum StateField {
    Scramble,
    Cp,
    Co,
    Ep,
    Eo,
}

/// A key the editor reacts to; `Other` stands for every other key.
#[derive(Debug, Clone, Copy, PartialEq, Eq, Structural)]
pub enum EditorKey {
    Esc,
    Enter,
    Tab,
    Left,
    Right,
    Up,
    Down,
    Char(char),
    Backspace,
    Delete,
    Other,
}

/// What the caller does after a key: go on, stop without a result, or stop with the result.
#[derive(Debug, Clone, Copy, PartialEq, Eq, Structural)]
pub enum EditorAction {
    Continue,
    Cancel,
    Confirm,
}

/// The editor's contents: the scramble text, the four target arrays, the
/// active field, the cursor and whether the input was confirmed.
pub struct EditorView {
    pub scramble: Seq<char>,
    pub cp: Seq<usize>,
    pub co: Seq<usize>,
    pub ep: Seq<usize>,
    pub eo: Seq<usize>,
    pub field: StateField,
    pub cursor: int,
    pub confirmed: bool,
}

/// The field after `f`, cycling back to the scramble.
pub open spec fn field_after(f: StateField) -> StateField {
    match f {
        StateField::Scramble => StateField::Cp,
        StateField::Cp => StateField::Co,
        StateField::Co => StateField::Ep,
        StateField::Ep => StateField::Eo,
        StateField::Eo => StateField::Scramble,
    }
}

/// The last cursor position in field `f` of `v`.
pub open spec fn max_cursor(v: EditorView) -> int {
    match v.field {
        StateField::Scramble => if v.scramble.len() == 0 {
            0
        } else {
            v.scramble.len() - 1
        },
        StateField::Cp | StateField::Co => 7,
        StateField::Ep | StateField::Eo => 11,
    }
}

/// `x` one up, wrapping from `max` to 0.
pub open spec fn up_value(x: usize, max: usize) -> usize {
    ((x + 1) % (max + 1)) as usize
}

/// `x` one down, wrapping from 0 to `max`.
pub open spec fn down_value(x: usize, max: usize) -> usize {
    if x == 0 {
        max
    } else {
        (x - 1) as usize
    }
}

/// The value at the cursor of the active target array changed by `f`.
pub open spec fn change_value(v: EditorView, up: bool) -> EditorView {
    let c = v.cursor;
    match v.field {
        StateField::Scramble => v,
        StateField::Cp => EditorView {
            cp: v.cp.update(c, if up { up_value(v.cp[c], 7) } else { down_value(v.cp[c], 7) }),
            ..v
        },
        StateField::Co => EditorView {
            co: v.co.update(c, if up { up_value(v.co[c], 2) } else { down_value(v.co[c], 2) }),
            ..v
        },
        StateField::Ep => EditorView {
            ep: v.ep.update(c, if up { up_value(v.ep[c], 11) } else { down_value(v.ep[c], 11) }),
            ..v
        },
        StateField::Eo => EditorView {
            eo: v.eo.update(c, if up { up_value(v.eo[c], 1) } else { down_value(v.eo[c], 1) }),
            ..v
        },
    }
}

/// The editor after key `k`, and what the caller does next.
pub open spec fn editor_step(v: EditorView, k: EditorKey) -> (EditorView, EditorAction) {
    match k {
        EditorKey::Esc => (v, EditorAction::Cancel),
        EditorKey::Enter => if v.field == StateField::Eo {
            (EditorView { confirmed: true, ..v }, EditorAction::Confirm)
        } else {
            (EditorView { field: field_after(v.field), cursor: 0, ..v }, EditorAction::Continue)
        },
        EditorKey::Tab => (EditorView { field: field_after(v.field), cursor: 0, ..v }, EditorAction::Continue),
        EditorKey::Left => if v.cursor > 0 {
            (EditorView { cursor: v.cursor - 1, ..v }, EditorAction::Continue)
        } else {
            (v, EditorAction::Continue)
        },
        EditorKey::Right => if v.cursor < max_cursor(v) {
            (EditorView { cursor: v.cursor + 1, ..v }, EditorAction::Continue)
        } else {
            (v, EditorAction::Continue)
        },
        EditorKey::Up => (change_value(v, true), EditorAction::Continue),
        EditorKey::Down => (change_value(v, false), EditorAction::Continue),
        EditorKey::Char(c) => if v.field == StateField::Scramble {
            (
                EditorView { scramble: v.scramble.insert(v.cursor, c), cursor: v.cursor + 1, ..v },
                EditorAction::Continue,
            )
        } else {
            (v, EditorAction::Continue)
        },
        EditorKey::Backspace => if v.field == StateField::Scramble && v.cursor > 0 {
            (
                EditorView { scramble: v.scramble.remove(v.cursor - 1), cursor: v.cursor - 1, ..v },
                EditorAction::Continue,
            )
        } else {
            (v, EditorAction::Continue)
        },
        EditorKey::Delete => if v.field == StateField::Scramble && v.cursor < v.scramble.len() {
            (EditorView { scramble: v.scramble.remove(v.cursor), ..v }, EditorAction::Continue)
        } else {
            (v, EditorAction::Continue)
        },
        EditorKey::Other => (v, EditorAction::Continue),
    }
}

/// Every value is at most `max`.
pub open spec fn values_at_most(s: Seq<usize>, max: usize) -> bool {
    forall|i: int| 0 <= i < s.len() ==> #[trigger] s[i] <= max
}

/// An ASCII character.
pub open spec fn is_ascii_char(c: char) -> bool {
    (c as u32) < 128
}

/// The editor's consistency: ASCII scramble text, values in range, and a
/// cursor inside the active field.
pub open spec fn editor_wf(v: EditorView) -> bool {
    &&& forall|i: int| 0 <= i < v.scramble.len() ==> is_ascii_char(#[trigger] v.scramble[i])
    &&& v.scramble.len() < usize::MAX
    &&& v.cp.len() == 8 && values_at_most(v.cp, 7)
    &&& v.co.len() == 8 && values_at_most(v.co, 2)
    &&& v.ep.len() == 12 && values_at_most(v.ep, 11)
    &&& v.eo.len() == 12 && values_at_most(v.eo, 1)
    &&& 0 <= v.cursor
    &&& match v.field {
        StateField::Scramble => v.cursor <= v.scramble.len(),
        StateField::Cp | StateField::Co => v.cursor < 8,
        StateField::Ep | StateField::Eo => v.cursor < 12,
    }
}

/// A key the editor can take: a typed character must be ASCII, and the
/// scramble must have room for it.
pub open spec fn key_acceptable(v: EditorView, k: EditorKey) -> bool {
    match k {
        EditorKey::Char(c) => is_ascii_char(c) && v.scramble.len() + 1 < usize::MAX,
        _ => true,
    }
}

/// One step up and one step down, in either order, give the value back.
pub proof fn lemma_up_down_values(x: usize, max: usize)
    requires
        x <= max,
        max < usize::MAX,
    ensures
        down_value(up_value(x, max), max) == x,
        up_value(down_value(x, max), max) == x,
{
    if x == max {
        assert((x + 1) % (max + 1) == 0) by {
            vstd::arithmetic::div_mod::lemma_mod_self_0((max + 1) as int);
        }
    } else {
        assert((x + 1) % (max + 1) == x + 1) by {
            vstd::arithmetic::div_mod::lemma_small_mod((x + 1) as nat, (max + 1) as nat);
        }
    }
    if x == 0 {
        assert((max + 1) % (max + 1) == 0) by {
            vstd::arithmetic::div_mod::lemma_mod_self_0((max + 1) as int);
        }
    } else {
        assert((x as int) % (max + 1) == x) by {
            vstd::arithmetic::div_mod::lemma_small_mod(x as nat, (max + 1) as nat);
        }
    }
}

/// The Up key undoes the Down key and the Down key the Up key: on any
/// consistent editor, either pair of keys leaves it as it was.
pub proof fn lemma_up_down_undo(v: EditorView)
    requires
        editor_wf(v),
    ensures
        editor_step(editor_step(v, EditorKey::Up).0, EditorKey::Down).0 == v,
        editor_step(editor_step(v, EditorKey::Down).0, EditorKey::Up).0 == v,
{
    let c = v.cursor;
    match v.field {
        StateField::Scramble => {},
        StateField::Cp => {
            lemma_up_down_values(v.cp[c], 7);
            assert(change_value(change_value(v, true), false).cp =~= v.cp);
            assert(change_value(change_value(v, false), true).cp =~= v.cp);
        },
        StateField::Co => {
            lemma_up_down_values(v.co[c], 2);
            assert(change_value(change_value(v, true), false).co =~= v.co);
            assert(change_value(change_value(v, false), true).co =~= v.co);
        },
        StateField::Ep => {
            lemma_up_down_values(v.ep[c], 11);
            assert(change_value(change_value(v, true), false).ep =~= v.ep);
            assert(change_value(change_value(v, false), true).ep =~= v.ep);
        },
        StateField::Eo => {
            lemma_up_down_values(v.eo[c], 1);
            assert(change_value(change_value(v, true), false).eo =~= v.eo);
            assert(change_value(change_value(v, false), true).eo =~= v.eo);
        },
    }
}

/// Input of a scramble and a target state (corner and edge permutations and orientations).
pub struct StateInputEditor {
    scramble: Vec<char>,
    target_cp: [usize; 8],
    target_co: [usize; 8],
    target_ep: [usize; 12],
    target_eo: [usize; 12],
    current_field: StateField,
    cursor_position: usize,
    is_confirmed: bool,
}

impl View for StateInputEditor {
    type V = EditorView;

    closed spec fn view(&self) -> EditorView {
        EditorView {
            scramble: self.scramble@,
            cp: self.target_cp@,
            co: self.target_co@,
            ep: self.target_ep@,
            eo: self.target_eo@,
            field: self.current_field,
            cursor: self.cursor_position as int,
            confirmed: self.is_confirmed,
        }
    }
}

impl StateInputEditor {
    /// An empty scramble, the solved target and the scramble field active.
    pub fn new() -> (r: Self)
        ensures
            r@.scramble == Seq::<char>::empty(),
            r@.cp == seq![0usize, 1, 2, 3, 4, 5, 6, 7],
            r@.co == seq![0usize, 0, 0, 0, 0, 0, 0, 0],
            r@.ep == seq![0usize, 1, 2, 3, 4, 5, 6, 7, 8, 9, 10, 11],
            r@.eo == seq![0usize, 0, 0, 0, 0, 0, 0, 0, 0, 0, 0, 0],
            r@.field == StateField::Scramble,
            r@.cursor == 0,
            !r@.confirmed,
            editor_wf(r@),
    {
        let r = StateInputEditor {
            scramble: Vec::new(),
            target_cp: [0, 1, 2, 3, 4, 5, 6, 7],
            target_co: [0, 0, 0, 0, 0, 0, 0, 0],
            target_ep: [0, 1, 2, 3, 4, 5, 6, 7, 8, 9, 10, 11],
            target_eo: [0, 0, 0, 0, 0, 0, 0, 0, 0, 0, 0, 0],
            current_field: StateField::Scramble,
            cursor_position: 0,
            is_confirmed: false,
        };
        assert(r@.scramble =~= Seq::<char>::empty());
        assert(r@.cp =~= seq![0usize, 1, 2, 3, 4, 5, 6, 7]);
        assert(r@.co =~= seq![0usize, 0, 0, 0, 0, 0, 0, 0]);
        assert(r@.ep =~= seq![0usize, 1, 2, 3, 4, 5, 6, 7, 8, 9, 10, 11]);
        assert(r@.eo =~= seq![0usize, 0, 0, 0, 0, 0, 0, 0, 0, 0, 0, 0]);
        r
    }

    /// The field after the active one.
    fn next_field(&self) -> (f: StateField)
        ensures
            f == field_after(self@.field),
    {
        match self.current_field {
            StateField::Scramble => StateField::Cp,
            StateField::Cp => StateField::Co,
            StateField::Co => StateField::Ep,
            StateField::Ep => StateField::Eo,
            StateField::Eo => StateField::Scramble,
        }
    }

    /// Raises the value at the cursor of the active target array, wrapping.
    fn increment_current_value(&mut self)
        requires
            editor_wf(old(self)@),
        ensures
            final(self)@ == change_value(old(self)@, true),
            editor_wf(final(self)@),
    {
        let c = self.cursor_position;
        match self.current_field {
            StateField::Scramble => {},
            StateField::Cp => {
                self.target_cp[c] = (self.target_cp[c] + 1) % 8;
            },
            StateField::Co => {
                self.target_co[c] = (self.target_co[c] + 1) % 3;
            },
            StateField::Ep => {
                self.target_ep[c] = (self.target_ep[c] + 1) % 12;
            },
            StateField::Eo => {
                self.target_eo[c] = (self.target_eo[c] + 1) % 2;
            },
        }
        assert(self@ =~= change_value(old(self)@, true));
    }

    /// Lowers the value at the cursor of the active target array, wrapping.
    fn decrement_current_value(&mut self)
        requires
            editor_wf(old(self)@),
        ensures
            final(self)@ == change_value(old(self)@, false),
            editor_wf(final(self)@),
    {
        let c = self.cursor_position;
        match self.current_field {
            StateField::Scramble => {},
            StateField::Cp => {
                self.target_cp[c] = if self.target_cp[c] == 0 { 7 } else { self.target_cp[c] - 1 };
            },
            StateField::Co => {
                self.target_co[c] = if self.target_co[c] == 0 { 2 } else { self.target_co[c] - 1 };
            },
            StateField::Ep => {
                self.target_ep[c] = if self.target_ep[c] == 0 { 11 } else { self.target_ep[c] - 1 };
            },
            StateField::Eo => {
                self.target_eo[c] = if self.target_eo[c] == 0 { 1 } else { self.target_eo[c] - 1 };
            },
        }
        assert(self@ =~= change_value(old(self)@, false));
    }

    /// Applies one key (see [`editor_step`]) and says what to do next.
    pub fn handle_key(&mut self, key: EditorKey) -> (action: EditorAction)
        requires
            editor_wf(old(self)@),
            key_acceptable(old(self)@, key),
        ensures
            (final(self)@, action) == editor_step(old(self)@, key),
            editor_wf(final(self)@),
    {
        match key {
            EditorKey::Esc => EditorAction::Cancel,
            EditorKey::Enter => {
                if self.current_field == StateField::Eo {
                    self.is_confirmed = true;
                    EditorAction::Confirm
                } else {
                    self.current_field = self.next_field();
                    self.cursor_position = 0;
                    EditorAction::Continue
                }
            },
            EditorKey::Tab => {
                self.current_field = self.next_field();
                self.cursor_position = 0;
                EditorAction::Continue
            },
            EditorKey::Left => {
                if self.cursor_position > 0 {
                    self.cursor_position = self.cursor_position - 1;
                }
                EditorAction::Continue
            },
            EditorKey::Right => {
                let max_pos: usize = match self.current_field {
                    StateField::Scramble => if self.scramble.len() == 0 {
                        0
                    } else {
                        self.scramble.len() - 1
                    },
                    StateField::Cp | StateField::Co => 7,
                    StateField::Ep | StateField::Eo => 11,
                };
                if self.cursor_position < max_pos {
                    self.cursor_position = self.cursor_position + 1;
                }
                EditorAction::Continue
            },
            EditorKey::Up => {
                self.increment_current_value();
                EditorAction::Continue
            },
            EditorKey::Down => {
                self.decrement_current_value();
                EditorAction::Continue
            },
            EditorKey::Char(c) => {
                if self.current_field == StateField::Scramble {
                    self.scramble.insert(self.cursor_position, c);
                    self.cursor_position = self.cursor_position + 1;
                }
                EditorAction::Continue
            },
            EditorKey::Backspace => {
                if self.current_field == StateField::Scramble && self.cursor_position > 0 {
                    self.scramble.remove(self.cursor_position - 1);
                    self.cursor_position = self.cursor_position - 1;
                }
                EditorAction::Continue
            },
            EditorKey::Delete => {
                if self.current_field == StateField::Scramble && self.cursor_position < self.scramble.len() {
                    self.scramble.remove(self.cursor_position);
                }
                EditorAction::Continue
            },
            EditorKey::Other => EditorAction::Continue,
        }
    }

    /// The scramble text.
    pub fn scramble(&self) -> (s: String)
        ensures
            s@ == self@.scramble,
    {
        string_from_chars(&self.scramble)
    }

    pub fn target_cp(&self) -> (r: [usize; 8])
        ensures
            r@ == self@.cp,
    {
        self.target_cp
    }

    pub fn target_co(&self) -> (r: [usize; 8])
        ensures
            r@ == self@.co,
    {
        self.target_co
    }

    pub fn target_ep(&self) -> (r: [usize; 12])
        ensures
            r@ == self@.ep,
    {
        self.target_ep
    }

    pub fn target_eo(&self) -> (r: [usize; 12])
        ensures
            r@ == self@.eo,
    {
        self.target_eo
    }

    pub fn current_field(&self) -> (f: StateField)
        ensures
            f == self@.field,
    {
        self.current_field
    }

    pub fn cursor_position(&self) -> (c: usize)
        ensures
            c == self@.cursor,
    {
        self.cursor_position
    }

    pub fn is_confirmed(&self) -> (b: bool)
        ensures
            b == self@.confirmed,
    {
        self.is_confirmed
    }

    /// The scramble and the four target arrays.
    pub fn result(&self) -> (r: (String, [usize; 8], [usize; 8], [usize; 12], [usize; 12]))
        ensures
            r.0@ == self@.scramble,
            r.1@ == self@.cp,
            r.2@ == self@.co,
            r.3@ == self@.ep,
            r.4@ == self@.eo,
    {
        (self.scramble(), self.target_cp, self.target_co, self.target_ep, self.target_eo)
    }
}

} // verus!
