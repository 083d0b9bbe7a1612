//! Actions, key presses, and the key tables that map one to the other.

use vstd::prelude::*;
use crate::text::{string_of, chars_of};

verus! {

broadcast use vstd::std_specs::vec::axiom_vec_index_decreases;

/// The editing mode: which key table applies, and whether the cursor may
/// stand one past the end of a line.
#[derive(Clone, Copy, Debug, PartialEq, Eq, Structural)]
pub enum Mode {
    Normal,
    Insert,
}

/// One discrete edit or navigation operation, interpreted by the editor.
#[derive(Debug)]
pub enum Action {
    Undo,
    Quit,
    MoveUp,
    MoveDown,
    MoveLeft,
    MoveRight,
    PageUp,
    PageDown,
    MoveToLineStart,
    MoveToLineEnd,
    InsertCharAtCursorPos(char),
    DeleteCharAtCursorPos,
    DeleteCurrentLine,
    DeleteLineAt(usize),
    NewLine,
    EnterMode(Mode),
    SetWaitingKeyAction(Box<KeyAction>),
    InsertLineAt(usize, Option<String>),
    MoveLineToViewportCenter,
    InsertLineAtCursor,
    InsertLineBelowCursor,
    MoveToBottom,
    MoveToTop,
    RemoveCharAt(usize, usize),
    UndoMultiple(Vec<Action>),
    DeletePreviousChar,
}

/// What a key resolves to: one action, several in order, or a table that
/// resolves the next key.
#[derive(Debug)]
pub enum KeyAction {
    Single(Action),
    Multiple(Vec<Action>),
    Nested(Vec<KeyBinding>),
}

/// A key name and what it resolves to.
#[derive(Debug)]
pub struct KeyBinding {
    pub key: String,
    pub action: KeyAction,
}

/// The key of a key press: a character, or a named key such as `Esc`.
#[derive(Debug)]
pub enum KeyCode {
    Char(char),
    Named(String),
}

/// The modifier held with a key: Control alone, Alt alone, or neither.
#[derive(Clone, Copy, Debug, PartialEq, Eq, Structural)]
pub enum Modifiers {
    Plain,
    Control,
    Alt,
}

/// One key press from the terminal.
#[derive(Debug)]
pub struct KeyPress {
    pub code: KeyCode,
    pub modifiers: Modifiers,
}

/// The mathematical value of an [`Action`]: strings as character
/// sequences, bundles as sequences.
pub enum ActionView {
    Undo,
    Quit,
    MoveUp,
    MoveDown,
    MoveLeft,
    MoveRight,
    PageUp,
    PageDown,
    MoveToLineStart,
    MoveToLineEnd,
    InsertCharAtCursorPos(char),
    DeleteCharAtCursorPos,
    DeleteCurrentLine,
    DeleteLineAt(usize),
    NewLine,
    EnterMode(Mode),
    SetWaitingKeyAction(Box<KeyActionView>),
    InsertLineAt(usize, Option<Seq<char>>),
    MoveLineToViewportCenter,
    InsertLineAtCursor,
    InsertLineBelowCursor,
    MoveToBottom,
    MoveToTop,
    RemoveCharAt(usize, usize),
    UndoMultiple(Seq<ActionView>),
    DeletePreviousChar,
}

/// The mathematical value of a [`KeyAction`].
pub enum KeyActionView {
    Single(ActionView),
    Multiple(Seq<ActionView>),
    Nested(Seq<KeyBindingView>),
}

/// The mathematical value of a [`KeyBinding`].
pub struct KeyBindingView {
    pub key: Seq<char>,
    pub action: KeyActionView,
}

pub open spec fn action_view(a: Action) -> ActionView
    decreases a, 0nat,
{
    match a {
        Action::Undo => ActionView::Undo,
        Action::Quit => ActionView::Quit,
        Action::MoveUp => ActionView::MoveUp,
        Action::MoveDown => ActionView::MoveDown,
        Action::MoveLeft => ActionView::MoveLeft,
        Action::MoveRight => ActionView::MoveRight,
        Action::PageUp => ActionView::PageUp,
        Action::PageDown => ActionView::PageDown,
        Action::MoveToLineStart => ActionView::MoveToLineStart,
        Action::MoveToLineEnd => ActionView::MoveToLineEnd,
        Action::InsertCharAtCursorPos(c) => ActionView::InsertCharAtCursorPos(c),
        Action::DeleteCharAtCursorPos => ActionView::DeleteCharAtCursorPos,
        Action::DeleteCurrentLine => ActionView::DeleteCurrentLine,
        Action::DeleteLineAt(y) => ActionView::DeleteLineAt(y),
        Action::NewLine => ActionView::NewLine,
        Action::EnterMode(m) => ActionView::EnterMode(m),
        Action::SetWaitingKeyAction(k) => ActionView::SetWaitingKeyAction(Box::new(key_action_view(*k))),
        Action::InsertLineAt(y, s) => ActionView::InsertLineAt(
            y,
            match s {
                Some(t) => Some(t@),
                None => None,
            },
        ),
        Action::MoveLineToViewportCenter => ActionView::MoveLineToViewportCenter,
        Action::InsertLineAtCursor => ActionView::InsertLineAtCursor,
        Action::InsertLineBelowCursor => ActionView::InsertLineBelowCursor,
        Action::MoveToBottom => ActionView::MoveToBottom,
        Action::MoveToTop => ActionView::MoveToTop,
        Action::RemoveCharAt(x, y) => ActionView::RemoveCharAt(x, y),
        Action::UndoMultiple(v) => ActionView::UndoMultiple(actions_view(v@, v@.len())),
        Action::DeletePreviousChar => ActionView::DeletePreviousChar,
    }
}

/// The values of the first `n` actions of `s`.
pub open spec fn actions_view(s: Seq<Action>, n: nat) -> Seq<ActionView>
    decreases s, n,
{
    if n == 0 || n > s.len() {
        Seq::empty()
    } else {
        actions_view(s, (n - 1) as nat).push(action_view(s[n - 1]))
    }
}

pub open spec fn key_action_view(k: KeyAction) -> KeyActionView
    decreases k, 0nat,
{
    match k {
        KeyAction::Single(a) => KeyActionView::Single(action_view(a)),
        KeyAction::Multiple(v) => KeyActionView::Multiple(actions_view(v@, v@.len())),
        KeyAction::Nested(v) => KeyActionView::Nested(bindings_view(v@, v@.len())),
    }
}

/// The values of the first `n` bindings of `s`.
pub open spec fn bindings_view(s: Seq<KeyBinding>, n: nat) -> Seq<KeyBindingView>
    decreases s, n,
{
    if n == 0 || n > s.len() {
        Seq::empty()
    } else {
        bindings_view(s, (n - 1) as nat).push(
            KeyBindingView { key: s[n - 1].key@, action: key_action_view(s[n - 1].action) },
        )
    }
}

impl View for Action {
    type V = ActionView;

    open spec fn view(&self) -> ActionView {
        action_view(*self)
    }
}

impl View for KeyAction {
    type V = KeyActionView;

    open spec fn view(&self) -> KeyActionView {
        key_action_view(*self)
    }
}

/// The values of all actions of `v`.
pub open spec fn all_actions_view(v: Seq<Action>) -> Seq<ActionView> {
    actions_view(v, v.len())
}

/// The values of all bindings of `v`.
pub open spec fn all_bindings_view(v: Seq<KeyBinding>) -> Seq<KeyBindingView> {
    bindings_view(v, v.len())
}

proof fn lemma_actions_view_prefix(s: Seq<Action>, n: nat)
    requires
        n <= s.len(),
    ensures
        actions_view(s, n).len() == n,
        forall|j: int| 0 <= j < n ==> #[trigger] actions_view(s, n)[j] == action_view(s[j]),
    decreases n,
{
    if n > 0 {
        lemma_actions_view_prefix(s, (n - 1) as nat);
    }
}

proof fn lemma_bindings_view_prefix(s: Seq<KeyBinding>, n: nat)
    requires
        n <= s.len(),
    ensures
        bindings_view(s, n).len() == n,
        forall|j: int|
            0 <= j < n ==> #[trigger] bindings_view(s, n)[j] == (KeyBindingView {
                key: s[j].key@,
                action: key_action_view(s[j].action),
            }),
    decreases n,
{
    if n > 0 {
        lemma_bindings_view_prefix(s, (n - 1) as nat);
    }
}

/// The value of the actions of `s` after one more is pushed.
pub proof fn lemma_all_actions_view_push(s: Seq<Action>, a: Action)
    ensures
        all_actions_view(s.push(a)) == all_actions_view(s).push(a@),
{
    lemma_actions_view_prefix(s, s.len());
    lemma_actions_view_prefix(s.push(a), s.len() + 1);
    assert(all_actions_view(s.push(a)) =~= all_actions_view(s).push(a@));
}

/// The value of the actions of `s` after its last is popped.
pub proof fn lemma_all_actions_view_pop(s: Seq<Action>)
    requires
        s.len() > 0,
    ensures
        all_actions_view(s.drop_last()) == all_actions_view(s).drop_last(),
        all_actions_view(s).last() == s.last()@,
        all_actions_view(s).len() == s.len(),
{
    lemma_actions_view_prefix(s, s.len());
    lemma_actions_view_prefix(s.drop_last(), (s.len() - 1) as nat);
    assert(all_actions_view(s.drop_last()) =~= all_actions_view(s).drop_last());
}

/// The value of each action of `s`, one by one.
pub proof fn lemma_all_actions_view_index(s: Seq<Action>)
    ensures
        all_actions_view(s).len() == s.len(),
        forall|j: int| 0 <= j < s.len() ==> #[trigger] all_actions_view(s)[j] == s[j]@,
{
    lemma_actions_view_prefix(s, s.len());
}

/// A copy of `a` with the same value.
pub fn copy_action(a: &Action) -> (r: Action)
    ensures
        r@ == a@,
    decreases a,
{
    match a {
        Action::Undo => Action::Undo,
        Action::Quit => Action::Quit,
        Action::MoveUp => Action::MoveUp,
        Action::MoveDown => Action::MoveDown,
        Action::MoveLeft => Action::MoveLeft,
        Action::MoveRight => Action::MoveRight,
        Action::PageUp => Action::PageUp,
        Action::PageDown => Action::PageDown,
        Action::MoveToLineStart => Action::MoveToLineStart,
        Action::MoveToLineEnd => Action::MoveToLineEnd,
        Action::InsertCharAtCursorPos(c) => Action::InsertCharAtCursorPos(*c),
        Action::DeleteCharAtCursorPos => Action::DeleteCharAtCursorPos,
        Action::DeleteCurrentLine => Action::DeleteCurrentLine,
        Action::DeleteLineAt(y) => Action::DeleteLineAt(*y),
        Action::NewLine => Action::NewLine,
        Action::EnterMode(m) => Action::EnterMode(*m),
        Action::SetWaitingKeyAction(k) => Action::SetWaitingKeyAction(Box::new(copy_key_action(&**k))),
        Action::InsertLineAt(y, s) => Action::InsertLineAt(
            *y,
            match s {
                Some(t) => Some(t.clone()),
                None => None,
            },
        ),
        Action::MoveLineToViewportCenter => Action::MoveLineToViewportCenter,
        Action::InsertLineAtCursor => Action::InsertLineAtCursor,
        Action::InsertLineBelowCursor => Action::InsertLineBelowCursor,
        Action::MoveToBottom => Action::MoveToBottom,
        Action::MoveToTop => Action::MoveToTop,
        Action::RemoveCharAt(x, y) => Action::RemoveCharAt(*x, *y),
        Action::UndoMultiple(v) => Action::UndoMultiple(copy_actions(v)),
        Action::DeletePreviousChar => Action::DeletePreviousChar,
    }
}

/// A copy of `v` with the same values.
pub fn copy_actions(v: &Vec<Action>) -> (r: Vec<Action>)
    ensures
        all_actions_view(r@) == all_actions_view(v@),
    decreases v,
{
    let mut r: Vec<Action> = Vec::new();
    let mut i: usize = 0;
    while i < v.len()
        invariant
            i <= v@.len(),
            r@.len() == i,
            forall|j: int| 0 <= j < i ==> action_view(#[trigger] r@[j]) == action_view(v@[j]),
        decreases v.len() - i,
    {
        proof {
            assert(decreases_to!(*v => v@[i as int]));
        }
        r.push(copy_action(&v[i]));
        i = i + 1;
    }
    proof {
        lemma_actions_view_prefix(r@, r@.len());
        lemma_actions_view_prefix(v@, v@.len());
        assert(all_actions_view(r@) =~= all_actions_view(v@));
    }
    r
}

/// A copy of `k` with the same value.
pub fn copy_key_action(k: &KeyAction) -> (r: KeyAction)
    ensures
        r@ == k@,
    decreases k,
{
    match k {
        KeyAction::Single(a) => KeyAction::Single(copy_action(a)),
        KeyAction::Multiple(v) => KeyAction::Multiple(copy_actions(v)),
        KeyAction::Nested(v) => KeyAction::Nested(copy_bindings(v)),
    }
}

/// A copy of `v` with the same values.
pub fn copy_bindings(v: &Vec<KeyBinding>) -> (r: Vec<KeyBinding>)
    ensures
        all_bindings_view(r@) == all_bindings_view(v@),
    decreases v,
{
    let mut r: Vec<KeyBinding> = Vec::new();
    let mut i: usize = 0;
    while i < v.len()
        invariant
            i <= v@.len(),
            r@.len() == i,
            forall|j: int|
                0 <= j < i ==> (#[trigger] r@[j]).key@ == v@[j].key@ && key_action_view(r@[j].action)
                    == key_action_view(v@[j].action),
        decreases v.len() - i,
    {
        proof {
            assert(decreases_to!(*v => v@[i as int]));
        }
        let b = KeyBinding { key: v[i].key.clone(), action: copy_key_action(&v[i].action) };
        r.push(b);
        i = i + 1;
    }
    proof {
        lemma_bindings_view_prefix(r@, r@.len());
        lemma_bindings_view_prefix(v@, v@.len());
        assert(all_bindings_view(r@) =~= all_bindings_view(v@));
    }
    r
}

impl Clone for Action {
    fn clone(&self) -> (r: Self)
        ensures
            r@ == self@,
    {
        copy_action(self)
    }
}

impl Clone for KeyAction {
    fn clone(&self) -> (r: Self)
        ensures
            r@ == self@,
    {
        copy_key_action(self)
    }
}

/// The key tables of the two modes.
#[derive(Debug)]
pub struct Keys {
    pub normal: Vec<KeyBinding>,
    pub insert: Vec<KeyBinding>,
}

/// The editor's configuration.
#[derive(Debug)]
pub struct Config {
    pub keys: Keys,
}

fn bind(key: &str, action: KeyAction) -> (r: KeyBinding)
    ensures
        r.key@ == key@,
        r.action@ == action@,
{
    KeyBinding { key: key.to_string(), action }
}

fn single(a: Action) -> (r: KeyAction)
    ensures
        r@ == KeyActionView::Single(a@),
{
    KeyAction::Single(a)
}

fn pair(a: Action, b: Action) -> (r: KeyAction)
    ensures
        r@ == KeyActionView::Multiple(seq![a@, b@]),
{
    let mut v: Vec<Action> = Vec::new();
    v.push(a);
    v.push(b);
    proof {
        lemma_actions_view_prefix(v@, 2);
        assert(all_actions_view(v@) =~= seq![a@, b@]);
    }
    KeyAction::Multiple(v)
}

fn then_key(key: &str, a: Action) -> (r: KeyAction)
    ensures
        r@ == KeyActionView::Nested(seq![KeyBindingView { key: key@, action: KeyActionView::Single(a@) }]),
{
    let mut v: Vec<KeyBinding> = Vec::new();
    v.push(bind(key, single(a)));
    proof {
        lemma_bindings_view_prefix(v@, 1);
        assert(all_bindings_view(v@) =~= seq![
            KeyBindingView { key: key@, action: KeyActionView::Single(a@) },
        ]);
    }
    KeyAction::Nested(v)
}

/// The default Normal-mode table: vi-like motions, `i`/`a`/`o`/`O` into
/// Insert mode, `x`, `u`, `G`, `q`, and the two-key `gg`, `dd` and `zz`.
pub open spec fn default_normal_keys() -> Seq<KeyBindingView> {
    seq![
        KeyBindingView { key: "q"@, action: KeyActionView::Single(ActionView::Quit) },
        KeyBindingView { key: "h"@, action: KeyActionView::Single(ActionView::MoveLeft) },
        KeyBindingView { key: "j"@, action: KeyActionView::Single(ActionView::MoveDown) },
        KeyBindingView { key: "k"@, action: KeyActionView::Single(ActionView::MoveUp) },
        KeyBindingView { key: "l"@, action: KeyActionView::Single(ActionView::MoveRight) },
        KeyBindingView { key: "Left"@, action: KeyActionView::Single(ActionView::MoveLeft) },
        KeyBindingView { key: "Down"@, action: KeyActionView::Single(ActionView::MoveDown) },
        KeyBindingView { key: "Up"@, action: KeyActionView::Single(ActionView::MoveUp) },
        KeyBindingView { key: "Right"@, action: KeyActionView::Single(ActionView::MoveRight) },
        KeyBindingView { key: "0"@, action: KeyActionView::Single(ActionView::MoveToLineStart) },
        KeyBindingView { key: "$"@, action: KeyActionView::Single(ActionView::MoveToLineEnd) },
        KeyBindingView { key: "Ctrl-b"@, action: KeyActionView::Single(ActionView::PageUp) },
        KeyBindingView { key: "Ctrl-f"@, action: KeyActionView::Single(ActionView::PageDown) },
        KeyBindingView { key: "i"@, action: KeyActionView::Single(ActionView::EnterMode(Mode::Insert)) },
        KeyBindingView { key: "a"@, action: KeyActionView::Multiple(seq![ActionView::EnterMode(Mode::Insert), ActionView::MoveRight]) },
        KeyBindingView { key: "o"@, action: KeyActionView::Multiple(seq![ActionView::InsertLineBelowCursor, ActionView::EnterMode(Mode::Insert)]) },
        KeyBindingView { key: "O"@, action: KeyActionView::Multiple(seq![ActionView::InsertLineAtCursor, ActionView::EnterMode(Mode::Insert)]) },
        KeyBindingView { key: "x"@, action: KeyActionView::Single(ActionView::DeleteCharAtCursorPos) },
        KeyBindingView { key: "u"@, action: KeyActionView::Single(ActionView::Undo) },
        KeyBindingView { key: "G"@, action: KeyActionView::Single(ActionView::MoveToBottom) },
        KeyBindingView { key: "g"@, action: KeyActionView::Nested(seq![KeyBindingView { key: "g"@, action: KeyActionView::Single(ActionView::MoveToTop) }]) },
        KeyBindingView { key: "d"@, action: KeyActionView::Nested(seq![KeyBindingView { key: "d"@, action: KeyActionView::Single(ActionView::DeleteCurrentLine) }]) },
        KeyBindingView { key: "z"@, action: KeyActionView::Nested(seq![KeyBindingView { key: "z"@, action: KeyActionView::Single(ActionView::MoveLineToViewportCenter) }]) },
    ]
}

/// The default Insert-mode table: `Esc`, `Enter`, `Backspace` and the
/// arrows.
pub open spec fn default_insert_keys() -> Seq<KeyBindingView> {
    seq![
        KeyBindingView { key: "Esc"@, action: KeyActionView::Single(ActionView::EnterMode(Mode::Normal)) },
        KeyBindingView { key: "Enter"@, action: KeyActionView::Single(ActionView::NewLine) },
        KeyBindingView { key: "Backspace"@, action: KeyActionView::Single(ActionView::DeletePreviousChar) },
        KeyBindingView { key: "Left"@, action: KeyActionView::Single(ActionView::MoveLeft) },
        KeyBindingView { key: "Down"@, action: KeyActionView::Single(ActionView::MoveDown) },
        KeyBindingView { key: "Up"@, action: KeyActionView::Single(ActionView::MoveUp) },
        KeyBindingView { key: "Right"@, action: KeyActionView::Single(ActionView::MoveRight) },
    ]
}

/// No two bindings of the table share a key, as in a map.
pub open spec fn keys_unique(t: Seq<KeyBindingView>) -> bool {
    forall|i: int, j: int| 0 <= i < j < t.len() ==> #[trigger] t[i].key != #[trigger] t[j].key
}

/// The default tables bind each key once.
pub proof fn lemma_default_keys_unique()
    ensures
        keys_unique(default_normal_keys()),
        keys_unique(default_insert_keys()),
{
    reveal_strlit("q");
    reveal_strlit("h");
    reveal_strlit("j");
    reveal_strlit("k");
    reveal_strlit("l");
    reveal_strlit("Left");
    reveal_strlit("Down");
    reveal_strlit("Up");
    reveal_strlit("Right");
    reveal_strlit("0");
    reveal_strlit("$");
    reveal_strlit("Ctrl-b");
    reveal_strlit("Ctrl-f");
    reveal_strlit("i");
    reveal_strlit("a");
    reveal_strlit("o");
    reveal_strlit("O");
    reveal_strlit("x");
    reveal_strlit("u");
    reveal_strlit("G");
    reveal_strlit("g");
    reveal_strlit("d");
    reveal_strlit("z");
    reveal_strlit("Esc");
    reveal_strlit("Enter");
    reveal_strlit("Backspace");
    let t = default_normal_keys();
    assert forall|i: int, j: int| 0 <= i < j < t.len() implies #[trigger] t[i].key != #[trigger] t[j].key by {
        assert(t[i].key.len() != t[j].key.len() || t[i].key[0] != t[j].key[0] || t[i].key.last()
            != t[j].key.last());
    }
    let u = default_insert_keys();
    assert forall|i: int, j: int| 0 <= i < j < u.len() implies #[trigger] u[i].key != #[trigger] u[j].key by {
        assert(u[i].key.len() != u[j].key.len() || u[i].key[0] != u[j].key[0]);
    }
}

proof fn lemma_table_view(v: Seq<KeyBinding>, t: Seq<KeyBindingView>)
    requires
        v.len() == t.len(),
        forall|j: int|
            0 <= j < v.len() ==> (#[trigger] v[j]).key@ == t[j].key && v[j].action@ == t[j].action,
    ensures
        all_bindings_view(v) == t,
{
    lemma_bindings_view_prefix(v, v.len());
    assert(all_bindings_view(v) =~= t);
}

impl Default for Config {
    /// The default key tables (see [`default_normal_keys`] and
    /// [`default_insert_keys`]).
    fn default() -> (r: Config)
        ensures
            all_bindings_view(r.keys.normal@) == default_normal_keys(),
            all_bindings_view(r.keys.insert@) == default_insert_keys(),
    {
        let mut normal: Vec<KeyBinding> = Vec::new();
        normal.push(bind("q", single(Action::Quit)));
        normal.push(bind("h", single(Action::MoveLeft)));
        normal.push(bind("j", single(Action::MoveDown)));
        normal.push(bind("k", single(Action::MoveUp)));
        normal.push(bind("l", single(Action::MoveRight)));
        normal.push(bind("Left", single(Action::MoveLeft)));
        normal.push(bind("Down", single(Action::MoveDown)));
        normal.push(bind("Up", single(Action::MoveUp)));
        normal.push(bind("Right", single(Action::MoveRight)));
        normal.push(bind("0", single(Action::MoveToLineStart)));
        normal.push(bind("$", single(Action::MoveToLineEnd)));
        normal.push(bind("Ctrl-b", single(Action::PageUp)));
        normal.push(bind("Ctrl-f", single(Action::PageDown)));
        normal.push(bind("i", single(Action::EnterMode(Mode::Insert))));
        normal.push(bind("a", pair(Action::EnterMode(Mode::Insert), Action::MoveRight)));
        normal.push(bind("o", pair(Action::InsertLineBelowCursor, Action::EnterMode(Mode::Insert))));
        normal.push(bind("O", pair(Action::InsertLineAtCursor, Action::EnterMode(Mode::Insert))));
        normal.push(bind("x", single(Action::DeleteCharAtCursorPos)));
        normal.push(bind("u", single(Action::Undo)));
        normal.push(bind("G", single(Action::MoveToBottom)));
        normal.push(bind("g", then_key("g", Action::MoveToTop)));
        normal.push(bind("d", then_key("d", Action::DeleteCurrentLine)));
        normal.push(bind("z", then_key("z", Action::MoveLineToViewportCenter)));
        let mut insert: Vec<KeyBinding> = Vec::new();
        insert.push(bind("Esc", single(Action::EnterMode(Mode::Normal))));
        insert.push(bind("Enter", single(Action::NewLine)));
        insert.push(bind("Backspace", single(Action::DeletePreviousChar)));
        insert.push(bind("Left", single(Action::MoveLeft)));
        insert.push(bind("Down", single(Action::MoveDown)));
        insert.push(bind("Up", single(Action::MoveUp)));
        insert.push(bind("Right", single(Action::MoveRight)));
        proof {
            lemma_table_view(normal@, default_normal_keys());
            lemma_table_view(insert@, default_insert_keys());
        }
        Config { keys: Keys { normal, insert } }
    }
}

/// The text of a key: the character itself, or the key's name.
pub open spec fn code_text(c: KeyCode) -> Seq<char> {
    match c {
        KeyCode::Char(ch) => seq![ch],
        KeyCode::Named(s) => s@,
    }
}

/// The prefix that a held modifier puts before the key's text.
pub open spec fn modifier_prefix(m: Modifiers) -> Seq<char> {
    match m {
        Modifiers::Plain => Seq::empty(),
        Modifiers::Control => seq!['C', 't', 'r', 'l', '-'],
        Modifiers::Alt => seq!['A', 'l', 't', '-'],
    }
}

/// The canonical name of a key press, as key tables spell it.
pub open spec fn key_text(k: KeyPress) -> Seq<char> {
    modifier_prefix(k.modifiers) + code_text(k.code)
}

/// What the first binding of `key` in `table` resolves to.
pub open spec fn lookup(table: Seq<KeyBindingView>, key: Seq<char>) -> Option<KeyActionView>
    decreases table.len(),
{
    if table.len() == 0 {
        None
    } else if table[0].key == key {
        Some(table[0].action)
    } else {
        lookup(table.drop_first(), key)
    }
}

/// The value of an optional key action.
pub open spec fn opt_key_action_view(k: Option<KeyAction>) -> Option<KeyActionView> {
    match k {
        Some(a) => Some(a@),
        None => None,
    }
}

/// The canonical name of a key press: `Ctrl-` or `Alt-` before the key's
/// text where that modifier alone is held.
pub fn key_name(k: &KeyPress) -> (r: String)
    ensures
        r@ == key_text(*k),
{
    let mut v: Vec<char> = Vec::new();
    match k.modifiers {
        Modifiers::Plain => {},
        Modifiers::Control => {
            v.push('C');
            v.push('t');
            v.push('r');
            v.push('l');
            v.push('-');
        },
        Modifiers::Alt => {
            v.push('A');
            v.push('l');
            v.push('t');
            v.push('-');
        },
    }
    proof {
        assert(v@ =~= modifier_prefix(k.modifiers));
    }
    let ghost pre = v@;
    match &k.code {
        KeyCode::Char(c) => {
            v.push(*c);
        },
        KeyCode::Named(s) => {
            let cs = chars_of(s.as_str());
            let mut i: usize = 0;
            while i < cs.len()
                invariant
                    i <= cs@.len(),
                    v@ == pre + cs@.subrange(0, i as int),
                decreases cs.len() - i,
            {
                v.push(cs[i]);
                proof {
                    assert(v@ =~= pre + cs@.subrange(0, i + 1));
                }
                i = i + 1;
            }
            proof {
                assert(cs@.subrange(0, i as int) =~= cs@);
            }
        },
    }
    proof {
        assert(v@ =~= key_text(*k));
    }
    string_of(&v)
}

/// What the first binding of `key` in `table` resolves to, if any.
pub fn lookup_key(table: &Vec<KeyBinding>, key: &String) -> (r: Option<KeyAction>)
    ensures
        opt_key_action_view(r) == lookup(all_bindings_view(table@), key@),
{
    let ghost tv = all_bindings_view(table@);
    let mut i: usize = 0;
    proof {
        lemma_bindings_view_prefix(table@, table@.len());
        assert(tv.subrange(0, tv.len() as int) =~= tv);
    }
    while i < table.len()
        invariant
            i <= table@.len(),
            tv == all_bindings_view(table@),
            tv.len() == table@.len(),
            forall|j: int|
                0 <= j < table@.len() ==> #[trigger] tv[j] == (KeyBindingView {
                    key: table@[j].key@,
                    action: key_action_view(table@[j].action),
                }),
            lookup(tv, key@) == lookup(tv.subrange(i as int, tv.len() as int), key@),
        decreases table.len() - i,
    {
        proof {
            assert(tv.subrange(i as int, tv.len() as int).drop_first() =~= tv.subrange(
                i + 1,
                tv.len() as int,
            ));
            assert(tv.subrange(i as int, tv.len() as int)[0] == tv[i as int]);
        }
        if table[i].key == *key {
            return Some(copy_key_action(&table[i].action));
        }
        i = i + 1;
    }
    None
}

/// What `ev` resolves to in `mappings`.
pub fn event_to_key_action(mappings: &Vec<KeyBinding>, ev: &KeyPress) -> (r: Option<KeyAction>)
    ensures
        opt_key_action_view(r) == lookup(all_bindings_view(mappings@), key_text(*ev)),
{
    let key = key_name(ev);
    lookup_key(mappings, &key)
}

} // verus!
