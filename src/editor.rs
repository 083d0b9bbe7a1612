//! The editor engine: cursor and viewport state, the mode state machine,
//! the action executor with its undo log, bounds clamping, and key routing.

use vstd::prelude::*;
use crate::buffer::{Buffer, insert_char, remove_char, insert_line, remove_line};
use crate::keys::{
    Action, ActionView, KeyAction, KeyActionView, KeyBindingView, KeyCode, KeyPress, Config, Mode,
    all_actions_view, all_bindings_view, opt_key_action_view, lookup, key_text, event_to_key_action,
    lemma_all_actions_view_push, lemma_all_actions_view_pop, lemma_all_actions_view_index,
};
use crate::theme::Theme;
use crate::text::chars_of;

verus! {

/// The mathematical state of the editor: the lines, the viewport's size,
/// the cursor relative to the viewport, the mode, the pending key table and
/// the two undo lists.
pub struct EditorModel {
    pub lines: Seq<Seq<char>>,
    pub width: usize,
    pub height: usize,
    pub vtop: usize,
    pub vleft: usize,
    pub cx: usize,
    pub cy: usize,
    pub mode: Mode,
    pub waiting: Option<KeyActionView>,
    pub undo: Seq<ActionView>,
    pub insert_undo: Seq<ActionView>,
}

impl EditorModel {
    /// The buffer line under the cursor.
    pub open spec fn line(&self) -> usize {
        self.vtop.saturating_add(self.cy)
    }

    /// The length of the buffer line under the cursor, 0 past the end.
    pub open spec fn line_len(&self) -> usize {
        if (self.line() as int) < self.lines.len() {
            self.lines[self.line() as int].len() as usize
        } else {
            0
        }
    }
}

/// `m` with the inverse `inv` recorded: on the insert session's list in
/// Insert mode, on the undo log otherwise.
pub open spec fn record(m: EditorModel, inv: ActionView) -> EditorModel {
    if m.mode == Mode::Insert {
        EditorModel { insert_undo: m.insert_undo.push(inv), ..m }
    } else {
        EditorModel { undo: m.undo.push(inv), ..m }
    }
}

/// `m` after one recorded inverse action; other actions change nothing.
pub open spec fn apply_inverse(m: EditorModel, e: ActionView) -> EditorModel {
    match e {
        ActionView::RemoveCharAt(x, y) => EditorModel { lines: remove_char(m.lines, x as int, y as int), ..m },
        ActionView::InsertLineAt(y, Some(t)) => EditorModel { lines: insert_line(m.lines, y as int, t), ..m },
        ActionView::DeleteLineAt(y) => EditorModel { lines: remove_line(m.lines, y as int), ..m },
        _ => m,
    }
}

/// `m` after the first `n` inverses of `v`, last first.
pub open spec fn apply_inverses_rev(m: EditorModel, v: Seq<ActionView>, n: nat) -> EditorModel
    decreases n,
{
    if n == 0 || n > v.len() {
        m
    } else {
        apply_inverses_rev(apply_inverse(m, v[n - 1]), v, (n - 1) as nat)
    }
}

/// `m` after one entry of the undo log: a bundle is undone last first.
pub open spec fn apply_undo_entry(m: EditorModel, e: ActionView) -> EditorModel {
    match e {
        ActionView::UndoMultiple(v) => apply_inverses_rev(m, v, v.len()),
        _ => apply_inverse(m, e),
    }
}

/// `m` after a change of mode: entering Insert starts an empty session;
/// leaving it commits a non-empty session to the undo log as one bundle.
pub open spec fn enter_mode(m: EditorModel, new: Mode) -> EditorModel {
    let m1 = if m.mode != Mode::Insert && new == Mode::Insert {
        EditorModel { insert_undo: Seq::empty(), ..m }
    } else {
        m
    };
    let m2 = if m.mode == Mode::Insert && new == Mode::Normal && m.insert_undo.len() > 0 {
        EditorModel {
            undo: m.undo.push(ActionView::UndoMultiple(m.insert_undo)),
            insert_undo: Seq::empty(),
            ..m1
        }
    } else {
        m1
    };
    EditorModel { mode: new, ..m2 }
}

/// `m` after recentering the viewport so that the cursor's line stands on
/// the middle row: scrolling down only where enough lines stand below to
/// fill the viewport, scrolling up only where enough lines stand above;
/// otherwise nothing changes. The cursor stays on its line.
pub open spec fn recenter(m: EditorModel) -> EditorModel {
    let center = m.height / 2;
    if m.cy > center {
        let d = (m.cy - center) as usize;
        if m.vtop + d + m.height <= m.lines.len() {
            EditorModel { vtop: (m.vtop + d) as usize, cy: center, ..m }
        } else {
            m
        }
    } else if m.cy < center {
        let d = (center - m.cy) as usize;
        if m.vtop >= d {
            EditorModel { vtop: (m.vtop - d) as usize, cy: center, ..m }
        } else {
            m
        }
    } else {
        m
    }
}

/// The state after executing action `a` in state `m`.
pub open spec fn step(m: EditorModel, a: ActionView) -> EditorModel
    decreases a, 0nat,
{
    let l = m.line();
    match a {
        ActionView::Undo => if m.undo.len() > 0 {
            apply_undo_entry(EditorModel { undo: m.undo.drop_last(), ..m }, m.undo.last())
        } else {
            m
        },
        ActionView::Quit => m,
        ActionView::MoveUp => if m.cy == 0 {
            if m.vtop > 0 {
                EditorModel { vtop: (m.vtop - 1) as usize, ..m }
            } else {
                m
            }
        } else {
            EditorModel { cy: (m.cy - 1) as usize, ..m }
        },
        ActionView::MoveDown => {
            let cy1 = m.cy.saturating_add(1);
            if cy1 >= m.height {
                EditorModel { vtop: m.vtop.saturating_add(1), cy: (cy1 - 1) as usize, ..m }
            } else {
                EditorModel { cy: cy1, ..m }
            }
        },
        ActionView::MoveLeft => {
            let c = m.cx.saturating_sub(1);
            EditorModel {
                cx: if c < m.vleft {
                    m.vleft
                } else {
                    c
                },
                ..m
            }
        },
        ActionView::MoveRight => EditorModel { cx: m.cx.saturating_add(1), ..m },
        ActionView::PageUp => if m.vtop > 0 {
            EditorModel { vtop: m.vtop.saturating_sub(m.height), ..m }
        } else {
            m
        },
        ActionView::PageDown => if m.lines.len() > m.vtop + m.height {
            EditorModel { vtop: (m.vtop + m.height) as usize, ..m }
        } else {
            m
        },
        ActionView::MoveToLineStart => EditorModel { cx: 0, ..m },
        ActionView::MoveToLineEnd => EditorModel { cx: m.line_len().saturating_sub(1), ..m },
        ActionView::EnterMode(new) => enter_mode(m, new),
        ActionView::InsertCharAtCursorPos(c) => {
            let r = record(m, ActionView::RemoveCharAt(m.cx, l));
            EditorModel {
                lines: insert_char(m.lines, m.cx as int, l as int, c),
                cx: m.cx.saturating_add(1),
                ..r
            }
        },
        ActionView::RemoveCharAt(_, _) => apply_inverse(m, a),
        ActionView::InsertLineAt(_, _) => apply_inverse(m, a),
        ActionView::DeleteLineAt(_) => apply_inverse(m, a),
        ActionView::DeleteCharAtCursorPos => EditorModel {
            lines: remove_char(m.lines, m.cx as int, l as int),
            ..m
        },
        ActionView::NewLine => {
            let cy1 = m.cy.saturating_add(1);
            EditorModel {
                cx: 0,
                cy: cy1,
                lines: insert_line(m.lines, m.vtop.saturating_add(cy1) as int, Seq::empty()),
                ..m
            }
        },
        ActionView::SetWaitingKeyAction(k) => EditorModel { waiting: Some(*k), ..m },
        ActionView::DeleteCurrentLine => {
            let contents = if (l as int) < m.lines.len() {
                Some(m.lines[l as int])
            } else {
                None
            };
            let r = record(m, ActionView::InsertLineAt(l, contents));
            EditorModel { lines: remove_line(m.lines, l as int), ..r }
        },
        ActionView::MoveLineToViewportCenter => recenter(m),
        ActionView::InsertLineAtCursor => {
            let r = record(m, ActionView::DeleteLineAt(l));
            EditorModel { lines: insert_line(m.lines, l as int, Seq::empty()), cx: 0, ..r }
        },
        ActionView::InsertLineBelowCursor => {
            let l1 = l.saturating_add(1);
            let r = record(m, ActionView::DeleteLineAt(l1));
            EditorModel {
                lines: insert_line(m.lines, l1 as int, Seq::empty()),
                cy: m.cy.saturating_add(1),
                cx: 0,
                ..r
            }
        },
        ActionView::MoveToTop => EditorModel { vtop: 0, cy: 0, ..m },
        ActionView::MoveToBottom => if m.lines.len() > m.height {
            EditorModel {
                vtop: (m.lines.len() - m.height) as usize,
                cy: m.height.saturating_sub(1),
                ..m
            }
        } else {
            EditorModel { cy: (m.lines.len() as usize).saturating_sub(1), ..m }
        },
        ActionView::UndoMultiple(v) => steps_rev(m, v, v.len()),
        ActionView::DeletePreviousChar => if m.cx > 0 {
            let c = (m.cx - 1) as usize;
            EditorModel { cx: c, lines: remove_char(m.lines, c as int, l as int), ..m }
        } else {
            m
        },
    }
}

/// The state after executing the first `n` actions of `v`, last first.
pub open spec fn steps_rev(m: EditorModel, v: Seq<ActionView>, n: nat) -> EditorModel
    decreases v, n,
{
    if n == 0 || n > v.len() {
        m
    } else {
        steps_rev(step(m, v[n - 1]), v, (n - 1) as nat)
    }
}

/// The state after executing the actions of `v` in order.
pub open spec fn run(m: EditorModel, v: Seq<ActionView>) -> EditorModel
    decreases v.len(),
{
    if v.len() == 0 {
        m
    } else {
        step(run(m, v.drop_last()), v.last())
    }
}

/// `m` with its cursor and viewport brought back in bounds: the cursor row
/// inside the viewport (scrolling to keep its line), the cursor's line
/// inside the buffer, and the column inside the line (one past its end only
/// in Insert mode) and inside the terminal's width.
pub open spec fn clamp(m: EditorModel) -> EditorModel {
    let h = m.height;
    let m1 = if h > 0 && m.cy >= h {
        EditorModel { vtop: m.vtop.saturating_add((m.cy - (h - 1)) as usize), cy: (h - 1) as usize, ..m }
    } else {
        m
    };
    let len = m1.lines.len();
    let m2 = if len == 0 {
        EditorModel { vtop: 0, cy: 0, ..m1 }
    } else if m1.vtop >= len {
        EditorModel { vtop: (len - 1) as usize, cy: 0, ..m1 }
    } else if m1.vtop + m1.cy >= len {
        EditorModel { cy: (len - 1 - m1.vtop) as usize, ..m1 }
    } else {
        m1
    };
    let ll = m2.line_len();
    let m3 = if m2.mode == Mode::Normal {
        if m2.cx >= ll {
            EditorModel { cx: ll.saturating_sub(1), ..m2 }
        } else {
            m2
        }
    } else {
        if m2.cx > ll {
            EditorModel { cx: ll, ..m2 }
        } else {
            m2
        }
    };
    if m3.width > 0 && m3.cx >= m3.width {
        EditorModel { cx: (m3.width - 1) as usize, ..m3 }
    } else {
        m3
    }
}

/// The cursor stands inside the viewport, on a line of the buffer (or on
/// the first row of an empty one), and in Normal mode on a character of its
/// line (or at column 0 of an empty one).
pub open spec fn in_bounds(m: EditorModel) -> bool {
    &&& m.cy < m.height
    &&& m.vtop + m.cy < if m.lines.len() == 0 {
        1
    } else {
        m.lines.len()
    }
    &&& m.mode == Mode::Normal ==> m.cx < if m.line_len() == 0 {
        1
    } else {
        m.line_len()
    }
}

/// What a key press resolves to, and the state after it: a pending table
/// resolves the key (a miss drops it) and is cleared; otherwise the mode's
/// table does, and in Insert mode an unbound character inserts itself.
pub open spec fn route(
    m: EditorModel,
    normal: Seq<KeyBindingView>,
    insert: Seq<KeyBindingView>,
    ev: KeyPress,
) -> (Option<KeyActionView>, EditorModel) {
    let key = key_text(ev);
    match m.waiting {
        Some(w) => (
            match w {
                KeyActionView::Nested(t) => lookup(t, key),
                _ => None,
            },
            EditorModel { waiting: None, ..m },
        ),
        None => if m.mode == Mode::Normal {
            (lookup(normal, key), m)
        } else {
            (
                match lookup(insert, key) {
                    Some(r) => Some(r),
                    None => match ev.code {
                        KeyCode::Char(c) => Some(KeyActionView::Single(ActionView::InsertCharAtCursorPos(c))),
                        _ => None,
                    },
                },
                m,
            )
        },
    }
}

/// The state after executing `v` from index `i` on, stopping at the first
/// `Quit`, and whether one was met.
pub open spec fn run_until_quit(m: EditorModel, v: Seq<ActionView>, i: nat) -> (EditorModel, bool)
    decreases v.len() - i,
{
    if i >= v.len() {
        (m, false)
    } else if v[i as int] is Quit {
        (m, true)
    } else {
        run_until_quit(step(m, v[i as int]), v, i + 1)
    }
}

/// The state after a resolved key action, and whether the editor quits: one
/// action is executed, several are executed in order up to a `Quit`, and a
/// table becomes the pending one.
pub open spec fn dispatch(m: EditorModel, k: KeyActionView) -> (EditorModel, bool) {
    match k {
        KeyActionView::Single(a) => (step(m, a), a is Quit),
        KeyActionView::Multiple(v) => run_until_quit(m, v, 0),
        KeyActionView::Nested(t) => (EditorModel { waiting: Some(KeyActionView::Nested(t)), ..m }, false),
    }
}

/// The editor: the buffer, the terminal size, the cursor and viewport, the
/// mode, a pending key table and the undo lists.
pub struct Editor {
    pub config: Config,
    pub theme: Theme,
    pub buffer: Buffer,
    pub size: (u16, u16),
    pub vtop: usize,
    pub vleft: usize,
    pub cx: usize,
    pub cy: usize,
    pub vx: usize,
    pub mode: Mode,
    pub waiting_key_action: Option<KeyAction>,
    pub undo_actions: Vec<Action>,
    pub insert_undo_actions: Vec<Action>,
}

impl View for Editor {
    type V = EditorModel;

    open spec fn view(&self) -> EditorModel {
        EditorModel {
            lines: self.buffer@,
            width: self.size.0 as usize,
            height: (self.size.1 as usize).saturating_sub(2),
            vtop: self.vtop,
            vleft: self.vleft,
            cx: self.cx,
            cy: self.cy,
            mode: self.mode,
            waiting: opt_key_action_view(self.waiting_key_action),
            undo: all_actions_view(self.undo_actions@),
            insert_undo: all_actions_view(self.insert_undo_actions@),
        }
    }
}

impl Editor {
    /// What no action changes: the configuration, the theme, the size, the
    /// text offset and the buffer's name.
    pub open spec fn same_frame(&self, other: &Editor) -> bool {
        &&& self.config == other.config
        &&& self.theme == other.theme
        &&& self.size == other.size
        &&& self.vx == other.vx
        &&& self.buffer.file == other.buffer.file
    }

    /// The number of buffer rows in the viewport: the terminal's height less
    /// the status and message lines.
    pub fn vheight(&self) -> (r: usize)
        ensures
            r == self@.height,
    {
        (self.size.1 as usize).saturating_sub(2)
    }

    /// The terminal's width.
    pub fn vwidth(&self) -> (r: usize)
        ensures
            r == self@.width,
    {
        self.size.0 as usize
    }

    /// The buffer line under the cursor.
    pub fn buffer_line(&self) -> (r: usize)
        ensures
            r == self@.line(),
    {
        self.vtop.saturating_add(self.cy)
    }

    /// The buffer line shown on viewport row `n`, if there is one.
    pub fn viewport_line(&self, n: usize) -> (r: Option<String>)
        ensures
            r.is_some() == ((self.vtop.saturating_add(n) as int) < self@.lines.len()),
            r.is_some() ==> r.unwrap()@ == self@.lines[self.vtop.saturating_add(n) as int],
    {
        self.buffer.get(self.vtop.saturating_add(n))
    }

    /// The contents of the line under the cursor, if there is one.
    pub fn current_line_contents(&self) -> (r: Option<String>)
        ensures
            r.is_some() == ((self@.line() as int) < self@.lines.len()),
            r.is_some() ==> r.unwrap()@ == self@.lines[self@.line() as int],
    {
        self.buffer.get(self.buffer_line())
    }

    /// The length of the line under the cursor, 0 past the end.
    pub fn line_length(&self) -> (r: usize)
        ensures
            r == self@.line_len(),
    {
        if let Some(line) = self.viewport_line(self.cy) {
            return chars_of(line.as_str()).len();
        }
        0
    }

    /// Whether the editor is in Insert mode.
    pub fn is_insert(&self) -> (r: bool)
        ensures
            r == (self.mode == Mode::Insert),
    {
        matches!(self.mode, Mode::Insert)
    }

    fn record(&mut self, inv: Action)
        ensures
            final(self)@ == record(old(self)@, inv@),
            final(self).same_frame(old(self)),
    {
        proof {
            lemma_all_actions_view_push(self.insert_undo_actions@, inv);
            lemma_all_actions_view_push(self.undo_actions@, inv);
        }
        if self.is_insert() {
            self.insert_undo_actions.push(inv);
        } else {
            self.undo_actions.push(inv);
        }
        proof {
            assert(self@ =~= record(old(self)@, inv@));
        }
    }

    fn apply_inverse(&mut self, e: &Action)
        ensures
            final(self)@ == apply_inverse(old(self)@, e@),
            final(self).same_frame(old(self)),
    {
        match e {
            Action::RemoveCharAt(x, y) => {
                self.buffer.remove(*x, *y);
            },
            Action::InsertLineAt(y, contents) => {
                if let Some(t) = contents {
                    self.buffer.insert_line(*y, t.clone());
                }
            },
            Action::DeleteLineAt(y) => {
                self.buffer.remove_line(*y);
            },
            _ => {},
        }
        proof {
            assert(self@ =~= apply_inverse(old(self)@, e@));
        }
    }

    fn apply_undo_entry(&mut self, e: &Action)
        ensures
            final(self)@ == apply_undo_entry(old(self)@, e@),
            final(self).same_frame(old(self)),
    {
        match e {
            Action::UndoMultiple(v) => {
                let ghost vv = all_actions_view(v@);
                proof {
                    lemma_all_actions_view_index(v@);
                }
                let mut i: usize = v.len();
                while i > 0
                    invariant
                        i <= v@.len(),
                        vv == all_actions_view(v@),
                        vv.len() == v@.len(),
                        forall|j: int| 0 <= j < v@.len() ==> #[trigger] vv[j] == v@[j]@,
                        apply_inverses_rev(old(self)@, vv, vv.len()) == apply_inverses_rev(
                            self@,
                            vv,
                            i as nat,
                        ),
                        self.same_frame(old(self)),
                    decreases i,
                {
                    self.apply_inverse(&v[i - 1]);
                    i = i - 1;
                }
            },
            _ => {
                self.apply_inverse(e);
            },
        }
    }

    /// Brings the cursor and viewport back in bounds (see [`clamp`]).
    pub fn check_bounds(&mut self)
        ensures
            final(self)@ == clamp(old(self)@),
            final(self).same_frame(old(self)),
            old(self)@.height > 0 ==> in_bounds(final(self)@),
    {
        let h = self.vheight();
        if h > 0 && self.cy >= h {
            self.vtop = self.vtop.saturating_add(self.cy - (h - 1));
            self.cy = h - 1;
        }
        let len = self.buffer.len();
        if len == 0 {
            self.vtop = 0;
            self.cy = 0;
        } else if self.vtop >= len {
            self.vtop = len - 1;
            self.cy = 0;
        } else if self.cy >= len - self.vtop {
            self.cy = len - 1 - self.vtop;
        }
        let ll = self.line_length();
        if !self.is_insert() {
            if self.cx >= ll {
                self.cx = ll.saturating_sub(1);
            }
        } else {
            if self.cx > ll {
                self.cx = ll;
            }
        }
        let w = self.vwidth();
        if w > 0 && self.cx >= w {
            self.cx = w - 1;
        }
        proof {
            assert(self@ =~= clamp(old(self)@));
            if old(self)@.height > 0 {
                lemma_clamp_in_bounds(old(self)@);
            }
        }
    }

    /// Resolves a key press: against the pending table if there is one
    /// (clearing it), else against the mode's table (see [`route`]).
    pub fn handle_event(&mut self, ev: &KeyPress) -> (r: Option<KeyAction>)
        ensures
            (opt_key_action_view(r), final(self)@) == route(
                old(self)@,
                all_bindings_view(old(self).config.keys.normal@),
                all_bindings_view(old(self).config.keys.insert@),
                *ev,
            ),
            final(self).same_frame(old(self)),
    {
        let mut pending: Option<KeyAction> = None;
        std::mem::swap(&mut pending, &mut self.waiting_key_action);
        proof {
            assert(self@ =~= EditorModel { waiting: None, ..old(self)@ });
        }
        match pending {
            Some(ka) => {
                match ka {
                    KeyAction::Nested(table) => event_to_key_action(&table, ev),
                    _ => None,
                }
            },
            None => {
                if self.is_insert() {
                    let r = event_to_key_action(&self.config.keys.insert, ev);
                    if r.is_some() {
                        return r;
                    }
                    match &ev.code {
                        KeyCode::Char(c) => Some(KeyAction::Single(Action::InsertCharAtCursorPos(*c))),
                        _ => None,
                    }
                } else {
                    event_to_key_action(&self.config.keys.normal, ev)
                }
            },
        }
    }

    /// Carries out a resolved key action (see [`dispatch`]); returns whether
    /// the editor should quit.
    pub fn dispatch(&mut self, ka: KeyAction) -> (quit: bool)
        ensures
            (final(self)@, quit) == dispatch(old(self)@, ka@),
            final(self).same_frame(old(self)),
    {
        let ghost kv = ka@;
        match ka {
            KeyAction::Single(a) => self.execute(&a),
            KeyAction::Multiple(actions) => {
                let ghost vv = all_actions_view(actions@);
                assert(kv == KeyActionView::Multiple(vv));
                proof {
                    lemma_all_actions_view_index(actions@);
                }
                let mut i: usize = 0;
                while i < actions.len()
                    invariant
                        i <= actions@.len(),
                        vv == all_actions_view(actions@),
                        vv.len() == actions@.len(),
                        forall|j: int| 0 <= j < actions@.len() ==> #[trigger] vv[j] == actions@[j]@,
                        kv == KeyActionView::Multiple(vv),
                        kv == ka@,
                        run_until_quit(old(self)@, vv, 0) == run_until_quit(self@, vv, i as nat),
                        self.same_frame(old(self)),
                    decreases actions.len() - i,
                {
                    let ghost before = self@;
                    if self.execute(&actions[i]) {
                        proof {
                            assert(vv[i as int] is Quit);
                            assert(run_until_quit(before, vv, i as nat) == (before, true));
                            assert(self@ == before);
                            assert(dispatch(old(self)@, kv) == (self@, true));
                        }
                        return true;
                    }
                    i = i + 1;
                }
                false
            },
            KeyAction::Nested(table) => {
                let ghost t = ka@;
                self.waiting_key_action = Some(KeyAction::Nested(table));
                proof {
                    assert(self@ =~= dispatch(old(self)@, t).0);
                }
                false
            },
        }
    }

    /// Executes `action`; returns whether the editor should quit (for `Quit`
    /// alone).
    #[verifier::rlimit(100)]
    pub fn execute(&mut self, action: &Action) -> (quit: bool)
        ensures
            final(self)@ == step(old(self)@, action@),
            final(self).same_frame(old(self)),
            quit == (action@ is Quit),
            undo_log_ok(old(self)@) ==> undo_log_ok(final(self)@),
        decreases action,
    {
        let l = self.buffer_line();
        match action {
            Action::Quit => {
                return true;
            },
            Action::Undo => {
                // The popped entry is applied as the inverse it records; on the
                // entries the editor records this is executing it
                // (`lemma_undo_entry_is_step`).
                proof {
                    if self.undo_actions@.len() > 0 {
                        lemma_all_actions_view_pop(self.undo_actions@);
                    }
                }
                if let Some(e) = self.undo_actions.pop() {
                    proof {
                        assert(self@ =~= EditorModel { undo: old(self)@.undo.drop_last(), ..old(self)@ });
                    }
                    self.apply_undo_entry(&e);
                }
            },
            Action::MoveUp => {
                if self.cy == 0 {
                    if self.vtop > 0 {
                        self.vtop = self.vtop - 1;
                    }
                } else {
                    self.cy = self.cy - 1;
                }
            },
            Action::MoveDown => {
                let cy1 = self.cy.saturating_add(1);
                if cy1 >= self.vheight() {
                    self.vtop = self.vtop.saturating_add(1);
                    self.cy = cy1 - 1;
                } else {
                    self.cy = cy1;
                }
            },
            Action::MoveLeft => {
                self.cx = self.cx.saturating_sub(1);
                if self.cx < self.vleft {
                    self.cx = self.vleft;
                }
            },
            Action::MoveRight => {
                self.cx = self.cx.saturating_add(1);
            },
            Action::MoveToLineStart => {
                self.cx = 0;
            },
            Action::MoveToLineEnd => {
                self.cx = self.line_length().saturating_sub(1);
            },
            Action::PageUp => {
                if self.vtop > 0 {
                    self.vtop = self.vtop.saturating_sub(self.vheight());
                }
            },
            Action::PageDown => {
                let h = self.vheight();
                if self.buffer.len() > self.vtop && self.buffer.len() - self.vtop > h {
                    self.vtop = self.vtop + h;
                }
            },
            Action::EnterMode(new_mode) => {
                if !self.is_insert() && matches!(new_mode, Mode::Insert) {
                    self.insert_undo_actions = Vec::new();
                }
                if self.is_insert() && matches!(new_mode, Mode::Normal) {
                    if self.insert_undo_actions.len() > 0 {
                        let mut actions: Vec<Action> = Vec::new();
                        std::mem::swap(&mut actions, &mut self.insert_undo_actions);
                        let ghost before = self.undo_actions@;
                        let bundle = Action::UndoMultiple(actions);
                        proof {
                            lemma_all_actions_view_push(before, bundle);
                        }
                        self.undo_actions.push(bundle);
                    }
                }
                self.mode = *new_mode;
                proof {
                    assert(self@.insert_undo =~= step(old(self)@, action@).insert_undo);
                    assert(self@ =~= step(old(self)@, action@));
                }
            },
            Action::InsertCharAtCursorPos(c) => {
                self.record(Action::RemoveCharAt(self.cx, l));
                self.buffer.insert(self.cx, l, *c);
                self.cx = self.cx.saturating_add(1);
            },
            Action::RemoveCharAt(_, _) => {
                self.apply_inverse(action);
            },
            Action::InsertLineAt(_, _) => {
                self.apply_inverse(action);
            },
            Action::DeleteLineAt(_) => {
                self.apply_inverse(action);
            },
            Action::DeleteCharAtCursorPos => {
                self.buffer.remove(self.cx, l);
            },
            Action::NewLine => {
                self.cx = 0;
                self.cy = self.cy.saturating_add(1);
                let l1 = self.buffer_line();
                self.buffer.insert_line(l1, String::new());
            },
            Action::SetWaitingKeyAction(key_action) => {
                self.waiting_key_action = Some(crate::keys::copy_key_action(&**key_action));
            },
            Action::DeleteCurrentLine => {
                let contents = self.current_line_contents();
                self.buffer.remove_line(l);
                self.record(Action::InsertLineAt(l, contents));
            },
            Action::MoveLineToViewportCenter => {
                let center = self.vheight() / 2;
                let len = self.buffer.len();
                let h = self.vheight();
                if self.cy > center {
                    let d = self.cy - center;
                    if self.vtop <= len && d <= len - self.vtop && h <= len - self.vtop - d {
                        self.vtop = self.vtop + d;
                        self.cy = center;
                    }
                } else if self.cy < center {
                    let d = center - self.cy;
                    if self.vtop >= d {
                        self.vtop = self.vtop - d;
                        self.cy = center;
                    }
                }
            },
            Action::InsertLineAtCursor => {
                self.record(Action::DeleteLineAt(l));
                self.buffer.insert_line(l, String::new());
                self.cx = 0;
            },
            Action::InsertLineBelowCursor => {
                let l1 = l.saturating_add(1);
                self.record(Action::DeleteLineAt(l1));
                self.buffer.insert_line(l1, String::new());
                self.cy = self.cy.saturating_add(1);
                self.cx = 0;
            },
            Action::MoveToTop => {
                self.vtop = 0;
                self.cy = 0;
            },
            Action::MoveToBottom => {
                let h = self.vheight();
                if self.buffer.len() > h {
                    self.vtop = self.buffer.len() - h;
                    self.cy = h.saturating_sub(1);
                } else {
                    self.cy = self.buffer.len().saturating_sub(1);
                }
            },
            Action::UndoMultiple(v) => {
                let ghost vv = all_actions_view(v@);
                proof {
                    lemma_all_actions_view_index(v@);
                }
                let mut i: usize = v.len();
                while i > 0
                    invariant
                        i <= v@.len(),
                        vv == all_actions_view(v@),
                        vv.len() == v@.len(),
                        action@ == ActionView::UndoMultiple(vv),
                        *action == Action::UndoMultiple(*v),
                        forall|j: int| 0 <= j < v@.len() ==> #[trigger] vv[j] == v@[j]@,
                        steps_rev(old(self)@, vv, vv.len()) == steps_rev(self@, vv, i as nat),
                        self.same_frame(old(self)),
                    decreases i,
                {
                    proof {
                        assert(decreases_to!(*v => v[i - 1]));
                    }
                    self.execute(&v[i - 1]);
                    i = i - 1;
                }
            },
            Action::DeletePreviousChar => {
                if self.cx > 0 {
                    self.cx = self.cx - 1;
                    self.buffer.remove(self.cx, l);
                }
            },
        }
        proof {
            assert(self@ =~= step(old(self)@, action@));
            if undo_log_ok(old(self)@) {
                lemma_step_keeps_undo_log(old(self)@, action@);
            }
        }
        false
    }
}

/// After bounds clamping the cursor is in bounds, whatever actions came
/// before: the row inside a viewport of at least one row, the line inside
/// the buffer, and in Normal mode the column on a character of the line.
pub proof fn lemma_clamp_in_bounds(m: EditorModel)
    requires
        m.height > 0,
    ensures
        in_bounds(clamp(m)),
        clamp(m).lines == m.lines,
        clamp(m).mode == m.mode,
{
}

/// A two-key sequence bound to one action fires that action only when both
/// keys come in order: the first key yields the nested table, which becomes
/// pending; the second key resolves against it and clears it.
pub proof fn lemma_nested_key_sequence(
    m: EditorModel,
    normal: Seq<KeyBindingView>,
    insert: Seq<KeyBindingView>,
    first: KeyPress,
    second: KeyPress,
    t: Seq<KeyBindingView>,
    a: ActionView,
)
    requires
        m.waiting is None,
        m.mode == Mode::Normal,
        lookup(normal, key_text(first)) == Some(KeyActionView::Nested(t)),
        lookup(t, key_text(second)) == Some(KeyActionView::Single(a)),
    ensures
        ({
            let (r1, m1) = route(m, normal, insert, first);
            let (m2, quit) = dispatch(m1, r1.unwrap());
            let (r2, m3) = route(m2, normal, insert, second);
            &&& r1 == Some(KeyActionView::Nested(t))
            &&& !quit
            &&& m2 == EditorModel { waiting: Some(KeyActionView::Nested(t)), ..m }
            &&& r2 == Some(KeyActionView::Single(a))
            &&& m3 == m
        }),
{
}

/// A key that the pending table does not bind resolves to nothing and
/// clears the pending table.
pub proof fn lemma_nested_key_miss(
    m: EditorModel,
    normal: Seq<KeyBindingView>,
    insert: Seq<KeyBindingView>,
    key: KeyPress,
    t: Seq<KeyBindingView>,
)
    requires
        m.waiting == Some(KeyActionView::Nested(t)),
        lookup(t, key_text(key)) is None,
    ensures
        route(m, normal, insert, key) == (None::<KeyActionView>, EditorModel { waiting: None, ..m }),
{
}

/// Inserting a character at the cursor records `RemoveCharAt` of the
/// cursor's position, and executing it restores the lines; in Normal mode
/// one `Undo` restores the lines and the undo log.
#[verifier::rlimit(100)]
pub proof fn lemma_insert_char_round_trip(m: EditorModel, c: char)
    ensures
        ({
            let m1 = step(m, ActionView::InsertCharAtCursorPos(c));
            let inv = ActionView::RemoveCharAt(m.cx, m.line());
            &&& m.mode == Mode::Insert ==> m1.insert_undo == m.insert_undo.push(inv)
            &&& m.mode == Mode::Normal ==> m1.undo == m.undo.push(inv)
            &&& step(m1, inv).lines == m.lines
            &&& m.mode == Mode::Normal ==> step(m1, ActionView::Undo).lines == m.lines
                && step(m1, ActionView::Undo).undo == m.undo
        }),
{
    let l = m.line() as int;
    let m1 = step(m, ActionView::InsertCharAtCursorPos(c));
    let inv = ActionView::RemoveCharAt(m.cx, m.line());
    assert(m1 == EditorModel {
        lines: insert_char(m.lines, m.cx as int, l, c),
        cx: m.cx.saturating_add(1),
        ..record(m, inv)
    });
    assert(step(m1, inv) == apply_inverse(m1, inv));
    if m.mode == Mode::Normal {
        let p = EditorModel { undo: m1.undo.drop_last(), ..m1 };
        assert(step(m1, ActionView::Undo) == apply_undo_entry(p, inv));
    }
    if l < m.lines.len() && m.cx <= m.lines[l].len() {
        assert(m.lines[l].insert(m.cx as int, c).remove(m.cx as int) =~= m.lines[l]);
        assert(m1.lines.update(l, m1.lines[l].remove(m.cx as int)) =~= m.lines);
    }
    if m.mode == Mode::Normal {
        assert(m1.undo.drop_last() =~= m.undo);
    }
}

/// Deleting the cursor's line records `InsertLineAt` of its index and its
/// text (none past the end), and executing it restores the lines; in Normal
/// mode one `Undo` restores the lines and the undo log.
#[verifier::rlimit(100)]
pub proof fn lemma_delete_line_round_trip(m: EditorModel)
    ensures
        ({
            let m1 = step(m, ActionView::DeleteCurrentLine);
            let inv = ActionView::InsertLineAt(
                m.line(),
                if (m.line() as int) < m.lines.len() {
                    Some(m.lines[m.line() as int])
                } else {
                    None
                },
            );
            &&& m.mode == Mode::Insert ==> m1.insert_undo == m.insert_undo.push(inv)
            &&& m.mode == Mode::Normal ==> m1.undo == m.undo.push(inv)
            &&& step(m1, inv).lines == m.lines
            &&& m.mode == Mode::Normal ==> step(m1, ActionView::Undo).lines == m.lines
                && step(m1, ActionView::Undo).undo == m.undo
        }),
{
    let l = m.line() as int;
    let m1 = step(m, ActionView::DeleteCurrentLine);
    let inv = ActionView::InsertLineAt(
        m.line(),
        if l < m.lines.len() {
            Some(m.lines[l])
        } else {
            None
        },
    );
    assert(m1 == EditorModel { lines: remove_line(m.lines, l), ..record(m, inv) });
    assert(step(m1, inv) == apply_inverse(m1, inv));
    if m.mode == Mode::Normal {
        let p = EditorModel { undo: m1.undo.drop_last(), ..m1 };
        assert(step(m1, ActionView::Undo) == apply_undo_entry(p, inv));
    }
    if l < m.lines.len() {
        assert(m.lines.remove(l).insert(l, m.lines[l]) =~= m.lines);
    }
    if m.mode == Mode::Normal {
        assert(m1.undo.drop_last() =~= m.undo);
    }
}

/// The action that inserts `c` at the cursor.
pub open spec fn insert_action(c: char) -> ActionView {
    ActionView::InsertCharAtCursorPos(c)
}

/// The actions that insert the characters of `cs` one by one.
pub open spec fn insert_actions(cs: Seq<char>) -> Seq<ActionView> {
    Seq::new(cs.len(), |i: int| insert_action(cs[i]))
}

/// The inverse that removes the character at column `x` of line `y`.
pub open spec fn remove_action(x: int, y: usize) -> ActionView {
    ActionView::RemoveCharAt(x as usize, y)
}

/// The inverses recorded by `k` insertions from column `x` of line `y`.
pub open spec fn removals(x: int, y: usize, k: nat) -> Seq<ActionView> {
    Seq::new(k, |j: int| remove_action(x + j, y))
}

#[verifier::rlimit(100)]
proof fn lemma_session_inserts(m1: EditorModel, cs: Seq<char>, k: nat)
    requires
        m1.mode == Mode::Insert,
        m1.insert_undo.len() == 0,
        (m1.line() as int) < m1.lines.len(),
        m1.cx <= m1.lines[m1.line() as int].len(),
        m1.cx + cs.len() < usize::MAX,
        k <= cs.len(),
    ensures
        ({
            let l = m1.line() as int;
            let line = m1.lines[l];
            run(m1, insert_actions(cs).subrange(0, k as int)) == EditorModel {
                lines: m1.lines.update(
                    l,
                    line.subrange(0, m1.cx as int) + cs.subrange(0, k as int) + line.subrange(
                        m1.cx as int,
                        line.len() as int,
                    ),
                ),
                cx: (m1.cx + k) as usize,
                insert_undo: removals(m1.cx as int, m1.line(), k),
                ..m1
            }
        }),
    decreases k,
{
    let l = m1.line() as int;
    let line = m1.lines[l];
    let pre = line.subrange(0, m1.cx as int);
    let post = line.subrange(m1.cx as int, line.len() as int);
    if k == 0 {
        assert(insert_actions(cs).subrange(0, 0) =~= Seq::<ActionView>::empty());
        assert(pre + cs.subrange(0, 0) + post =~= line);
        assert(m1.lines.update(l, line) =~= m1.lines);
        assert(removals(m1.cx as int, m1.line(), 0) =~= m1.insert_undo);
    } else {
        lemma_session_inserts(m1, cs, (k - 1) as nat);
        let v = insert_actions(cs).subrange(0, k as int);
        assert(v.drop_last() =~= insert_actions(cs).subrange(0, k - 1));
        let prev = run(m1, v.drop_last());
        assert(v.last() == insert_action(cs[k - 1]));
        let cur = pre + cs.subrange(0, k - 1) + post;
        assert(prev.line() == m1.line());
        assert(prev.lines[l] == cur);
        assert(prev.mode == Mode::Insert);
        assert(run(m1, v) == step(prev, insert_action(cs[k - 1])));
        assert(step(prev, insert_action(cs[k - 1])) == EditorModel {
            lines: insert_char(prev.lines, prev.cx as int, l, cs[k - 1]),
            cx: prev.cx.saturating_add(1),
            insert_undo: prev.insert_undo.push(ActionView::RemoveCharAt(prev.cx, prev.line())),
            ..prev
        });
        assert(cur.insert(m1.cx + k - 1, cs[k - 1]) =~= pre + cs.subrange(0, k as int) + post);
        assert(prev.lines.update(l, cur.insert(m1.cx + k - 1, cs[k - 1])) =~= m1.lines.update(
            l,
            pre + cs.subrange(0, k as int) + post,
        ));
        assert(removals(m1.cx as int, m1.line(), (k - 1) as nat).push(
            remove_action(m1.cx + k - 1, m1.line()),
        ) =~= removals(m1.cx as int, m1.line(), k));
    }
}

#[verifier::rlimit(100)]
proof fn lemma_session_inserts_off(m1: EditorModel, cs: Seq<char>, k: nat)
    requires
        m1.mode == Mode::Insert,
        m1.insert_undo.len() == 0,
        !((m1.line() as int) < m1.lines.len() && m1.cx <= m1.lines[m1.line() as int].len()),
        m1.cx + cs.len() < usize::MAX,
        k <= cs.len(),
    ensures
        run(m1, insert_actions(cs).subrange(0, k as int)) == (EditorModel {
            cx: (m1.cx + k) as usize,
            insert_undo: removals(m1.cx as int, m1.line(), k),
            ..m1
        }),
    decreases k,
{
    if k == 0 {
        assert(insert_actions(cs).subrange(0, 0) =~= Seq::<ActionView>::empty());
        assert(removals(m1.cx as int, m1.line(), 0) =~= m1.insert_undo);
    } else {
        lemma_session_inserts_off(m1, cs, (k - 1) as nat);
        let v = insert_actions(cs).subrange(0, k as int);
        assert(v.drop_last() =~= insert_actions(cs).subrange(0, k - 1));
        let prev = run(m1, v.drop_last());
        assert(v.last() == insert_action(cs[k - 1]));
        assert(run(m1, v) == step(prev, insert_action(cs[k - 1])));
        assert(prev.mode == Mode::Insert);
        assert(insert_char(prev.lines, prev.cx as int, prev.line() as int, cs[k - 1]) == prev.lines);
        assert(step(prev, insert_action(cs[k - 1])) == EditorModel {
            lines: insert_char(prev.lines, prev.cx as int, prev.line() as int, cs[k - 1]),
            cx: prev.cx.saturating_add(1),
            insert_undo: prev.insert_undo.push(ActionView::RemoveCharAt(prev.cx, prev.line())),
            ..prev
        });
        assert(removals(m1.cx as int, m1.line(), (k - 1) as nat).push(
            remove_action(m1.cx + k - 1, m1.line()),
        ) =~= removals(m1.cx as int, m1.line(), k));
    }
}

proof fn lemma_session_removals_off(s: EditorModel, l: usize, x: int, n: nat, k: nat)
    requires
        !((l as int) < s.lines.len() && 0 <= x <= s.lines[l as int].len()),
        0 <= x,
        x + n < usize::MAX,
        k <= n,
    ensures
        apply_inverses_rev(s, removals(x, l, n), k) == s,
    decreases k,
{
    if k > 0 {
        let v = removals(x, l, n);
        assert(v[k - 1] == remove_action(x + k - 1, l));
        assert(apply_inverse(s, v[k - 1]) == s);
        lemma_session_removals_off(s, l, x, n, (k - 1) as nat);
    }
}

proof fn lemma_session_removals(
    s: EditorModel,
    lines: Seq<Seq<char>>,
    l: usize,
    x: int,
    cs: Seq<char>,
    n: nat,
    k: nat,
)
    requires
        (l as int) < lines.len(),
        0 <= x <= lines[l as int].len(),
        x + n < usize::MAX,
        k <= n <= cs.len(),
        s.lines == lines.update(
            l as int,
            lines[l as int].subrange(0, x) + cs.subrange(0, k as int) + lines[l as int].subrange(
                x,
                lines[l as int].len() as int,
            ),
        ),
    ensures
        apply_inverses_rev(s, removals(x, l, n), k) == (EditorModel { lines, ..s }),
    decreases k,
{
    let line = lines[l as int];
    let pre = line.subrange(0, x);
    let post = line.subrange(x, line.len() as int);
    if k == 0 {
        assert(pre + cs.subrange(0, 0) + post =~= line);
        assert(lines.update(l as int, line) =~= lines);
    } else {
        let v = removals(x, l, n);
        assert(v[k - 1] == remove_action(x + k - 1, l));
        let cur = pre + cs.subrange(0, k as int) + post;
        assert(cur.remove(x + k - 1) =~= pre + cs.subrange(0, k - 1) + post);
        let s1 = apply_inverse(s, v[k - 1]);
        assert(s1.lines =~= lines.update(l as int, pre + cs.subrange(0, k - 1) + post));
        lemma_session_removals(s1, lines, l, x, cs, n, (k - 1) as nat);
    }
}

proof fn lemma_inverses_keep_size(m: EditorModel, v: Seq<ActionView>, n: nat)
    ensures
        apply_inverses_rev(m, v, n) == (EditorModel { lines: apply_inverses_rev(m, v, n).lines, ..m }),
    decreases n,
{
    if n > 0 && n <= v.len() {
        lemma_inverses_keep_size(apply_inverse(m, v[n - 1]), v, (n - 1) as nat);
    }
}

/// No action changes the viewport's size.
pub proof fn lemma_step_keeps_size(m: EditorModel, a: ActionView)
    ensures
        step(m, a).height == m.height,
        step(m, a).width == m.width,
    decreases a, 0nat,
{
    match a {
        ActionView::Undo => {
            if m.undo.len() > 0 {
                let p = EditorModel { undo: m.undo.drop_last(), ..m };
                match m.undo.last() {
                    ActionView::UndoMultiple(v) => lemma_inverses_keep_size(p, v, v.len()),
                    _ => {},
                }
            }
        },
        ActionView::UndoMultiple(v) => lemma_steps_rev_keep_size(m, v, v.len()),
        _ => {},
    }
}

proof fn lemma_steps_rev_keep_size(m: EditorModel, v: Seq<ActionView>, n: nat)
    ensures
        steps_rev(m, v, n).height == m.height,
        steps_rev(m, v, n).width == m.width,
    decreases v, n,
{
    if n > 0 && n <= v.len() {
        lemma_step_keeps_size(m, v[n - 1]);
        lemma_steps_rev_keep_size(step(m, v[n - 1]), v, (n - 1) as nat);
    }
}

/// An action that an undo list records: the inverse of one edit.
pub open spec fn is_inverse(a: ActionView) -> bool {
    a is RemoveCharAt || a is InsertLineAt || a is DeleteLineAt
}

/// An entry of the undo log: one inverse, or a bundle of inverses.
pub open spec fn is_undo_entry(a: ActionView) -> bool {
    is_inverse(a) || match a {
        ActionView::UndoMultiple(v) => forall|i: int| 0 <= i < v.len() ==> is_inverse(#[trigger] v[i]),
        _ => false,
    }
}

/// The undo lists hold what the editor records: inverses on the insert
/// session's list, inverses or bundles of them on the undo log.
pub open spec fn undo_log_ok(m: EditorModel) -> bool {
    &&& forall|i: int| 0 <= i < m.undo.len() ==> is_undo_entry(#[trigger] m.undo[i])
    &&& forall|i: int| 0 <= i < m.insert_undo.len() ==> is_inverse(#[trigger] m.insert_undo[i])
}

proof fn lemma_inverses_are_steps(m: EditorModel, v: Seq<ActionView>, n: nat)
    requires
        forall|i: int| 0 <= i < v.len() ==> is_inverse(#[trigger] v[i]),
    ensures
        apply_inverses_rev(m, v, n) == steps_rev(m, v, n),
    decreases n,
{
    if n > 0 && n <= v.len() {
        assert(is_inverse(v[n - 1]));
        assert(apply_inverse(m, v[n - 1]) == step(m, v[n - 1]));
        lemma_inverses_are_steps(apply_inverse(m, v[n - 1]), v, (n - 1) as nat);
    }
}

/// Undo applies the popped entry of the log; on an entry that the editor
/// records, that is executing it.
pub proof fn lemma_undo_entry_is_step(m: EditorModel, e: ActionView)
    requires
        is_undo_entry(e),
    ensures
        apply_undo_entry(m, e) == step(m, e),
{
    match e {
        ActionView::UndoMultiple(v) => {
            lemma_inverses_are_steps(m, v, v.len());
        },
        _ => {},
    }
}

/// Every action keeps the undo lists to what the editor records.
pub proof fn lemma_step_keeps_undo_log(m: EditorModel, a: ActionView)
    requires
        undo_log_ok(m),
    ensures
        undo_log_ok(step(m, a)),
    decreases a, 0nat,
{
    match a {
        ActionView::Undo => {
            if m.undo.len() > 0 {
                let p = EditorModel { undo: m.undo.drop_last(), ..m };
                assert(undo_log_ok(p));
                match m.undo.last() {
                    ActionView::UndoMultiple(v) => lemma_inverses_keep_size(p, v, v.len()),
                    _ => {},
                }
            }
        },
        ActionView::UndoMultiple(v) => lemma_steps_rev_keep_undo_log(m, v, v.len()),
        ActionView::EnterMode(new) => {
            let r = step(m, a);
            if m.mode == Mode::Insert && new == Mode::Normal && m.insert_undo.len() > 0 {
                assert(is_undo_entry(ActionView::UndoMultiple(m.insert_undo)));
                assert forall|i: int| 0 <= i < r.undo.len() implies is_undo_entry(#[trigger] r.undo[i]) by {
                    if i < m.undo.len() {
                        assert(r.undo[i] == m.undo[i]);
                    }
                }
            }
        },
        _ => {
            let r = step(m, a);
            assert forall|i: int| 0 <= i < r.undo.len() implies is_undo_entry(#[trigger] r.undo[i]) by {
                if i < m.undo.len() {
                    assert(r.undo[i] == m.undo[i]);
                }
            }
            assert forall|i: int| 0 <= i < r.insert_undo.len() implies is_inverse(#[trigger] r.insert_undo[i]) by {
                if i < m.insert_undo.len() {
                    assert(r.insert_undo[i] == m.insert_undo[i]);
                }
            }
        },
    }
}

proof fn lemma_steps_rev_keep_undo_log(m: EditorModel, v: Seq<ActionView>, n: nat)
    requires
        undo_log_ok(m),
    ensures
        undo_log_ok(steps_rev(m, v, n)),
    decreases v, n,
{
    if n > 0 && n <= v.len() {
        lemma_step_keeps_undo_log(m, v[n - 1]);
        lemma_steps_rev_keep_undo_log(step(m, v[n - 1]), v, (n - 1) as nat);
    }
}

/// Recentering keeps the cursor on its buffer line.
pub proof fn lemma_recenter_keeps_line(m: EditorModel)
    requires
        m.vtop + m.cy <= usize::MAX,
    ensures
        recenter(m).vtop + recenter(m).cy == m.vtop + m.cy,
        recenter(m).lines == m.lines,
{
}

/// Whatever actions ran before, bounds clamping leaves the cursor in
/// bounds.
pub proof fn lemma_bounds_after_actions(m: EditorModel, v: Seq<ActionView>)
    requires
        m.height > 0,
    ensures
        run(m, v).height == m.height,
        in_bounds(clamp(run(m, v))),
    decreases v.len(),
{
    if v.len() > 0 {
        lemma_bounds_after_actions(m, v.drop_last());
        lemma_step_keeps_size(run(m, v.drop_last()), v.last());
    }
    lemma_clamp_in_bounds(run(m, v));
}

/// An insert session undoes in one step: entering Insert mode, inserting
/// the characters of `cs` (at least one), and going back to Normal mode
/// adds one entry to the undo log; one `Undo` then restores the lines and
/// the undo log.
#[verifier::rlimit(100)]
pub proof fn lemma_insert_session_single_undo(m: EditorModel, cs: Seq<char>)
    requires
        m.mode == Mode::Normal,
        cs.len() > 0,
        m.cx + cs.len() < usize::MAX,
    ensures
        ({
            let m1 = step(m, ActionView::EnterMode(Mode::Insert));
            let m2 = run(m1, insert_actions(cs));
            let m3 = step(m2, ActionView::EnterMode(Mode::Normal));
            let m4 = step(m3, ActionView::Undo);
            &&& m3.undo.len() == m.undo.len() + 1
            &&& m4.lines == m.lines
            &&& m4.undo == m.undo
        }),
{
    let m1 = step(m, ActionView::EnterMode(Mode::Insert));
    assert(m1 == enter_mode(m, Mode::Insert));
    assert(m1 == EditorModel { insert_undo: Seq::empty(), mode: Mode::Insert, ..m });
    let n = cs.len();
    let valid = (m.line() as int) < m.lines.len() && m.cx <= m.lines[m.line() as int].len();
    if valid {
        lemma_session_inserts(m1, cs, n);
    } else {
        lemma_session_inserts_off(m1, cs, n);
    }
    assert(insert_actions(cs).subrange(0, n as int) =~= insert_actions(cs));
    let m2 = run(m1, insert_actions(cs));
    let rm = removals(m.cx as int, m.line(), n);
    assert(m2.insert_undo == rm);
    assert(m2.mode == Mode::Insert);
    let m3 = step(m2, ActionView::EnterMode(Mode::Normal));
    assert(m3 == enter_mode(m2, Mode::Normal));
    assert(m3.undo == m.undo.push(ActionView::UndoMultiple(rm)));
    let popped = EditorModel { undo: m3.undo.drop_last(), ..m3 };
    assert(m3.undo.drop_last() =~= m.undo);
    assert(step(m3, ActionView::Undo) == apply_undo_entry(popped, ActionView::UndoMultiple(rm)));
    assert(apply_undo_entry(popped, ActionView::UndoMultiple(rm)) == apply_inverses_rev(popped, rm, n));
    if valid {
        lemma_session_removals(popped, m.lines, m.line(), m.cx as int, cs, n, n);
    } else {
        lemma_session_removals_off(popped, m.line(), m.cx as int, n, n);
    }
}

} // verus!
