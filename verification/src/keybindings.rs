//! Keyboard shortcuts: parsing binding words like `Super+Shift+q`, matching
//! them against pressed modifiers and keys, the actions they trigger, and
//! the standard binding table.

use vstd::prelude::*;
use vstd::pervasive::VecAdditionalExecFns;
use crate::strutil::{lower_seq, split_seq, split_str, str_eq, to_lower, trim_str, trimmed,
    push_char, clone_string};

verus! {

broadcast use vstd::string::group_string_axioms;

/// The lengths and deciding characters of the standard binding words, so
/// that the words are provably pairwise distinct.
proof fn lemma_binding_word_facts()
    ensures
        "Super+Shift+q"@.len() == 13 && "Super+Shift+q"@[12] == 'q',
        "Super+Shift+c"@.len() == 13 && "Super+Shift+c"@[12] == 'c',
        "Super+Shift+r"@.len() == 13 && "Super+Shift+r"@[12] == 'r',
        "Super+Shift+0"@.len() == 13 && "Super+Shift+0"@[12] == '0',
        "Super+Shift+"@.len() == 12,
        "Super+h"@.len() == 7 && "Super+h"@[6] == 'h',
        "Super+j"@.len() == 7 && "Super+j"@[6] == 'j',
        "Super+k"@.len() == 7 && "Super+k"@[6] == 'k',
        "Super+l"@.len() == 7 && "Super+l"@[6] == 'l',
        "Super+b"@.len() == 7 && "Super+b"@[6] == 'b',
        "Super+v"@.len() == 7 && "Super+v"@[6] == 'v',
        "Super+e"@.len() == 7 && "Super+e"@[6] == 'e',
        "Super+w"@.len() == 7 && "Super+w"@[6] == 'w',
        "Super+s"@.len() == 7 && "Super+s"@[6] == 's',
        "Super+t"@.len() == 7 && "Super+t"@[6] == 't',
        "Super+d"@.len() == 7 && "Super+d"@[6] == 'd',
        "Super+0"@.len() == 7 && "Super+0"@[6] == '0',
        "Super+"@.len() == 6,
        "Super+Shift+space"@.len() == 17,
        "F12"@.len() == 3,
{
    reveal_strlit("Super+Shift+q");
    reveal_strlit("Super+Shift+c");
    reveal_strlit("Super+Shift+r");
    reveal_strlit("Super+Shift+0");
    reveal_strlit("Super+Shift+");
    reveal_strlit("Super+h");
    reveal_strlit("Super+j");
    reveal_strlit("Super+k");
    reveal_strlit("Super+l");
    reveal_strlit("Super+b");
    reveal_strlit("Super+v");
    reveal_strlit("Super+e");
    reveal_strlit("Super+w");
    reveal_strlit("Super+s");
    reveal_strlit("Super+t");
    reveal_strlit("Super+d");
    reveal_strlit("Super+0");
    reveal_strlit("Super+");
    reveal_strlit("Super+Shift+space");
    reveal_strlit("F12");
}

/// Splitting always yields at least one piece.
proof fn lemma_split_acc_nonempty(s: Seq<char>, sep: char, cur: Seq<char>)
    ensures
        crate::strutil::split_acc(s, sep, cur).len() >= 1,
    decreases s.len(),
{
    if s.len() == 0 {
    } else if s.first() == sep {
    } else {
        lemma_split_acc_nonempty(s.drop_first(), sep, cur.push(s.first()));
    }
}

/// Why a binding word failed to parse.
#[derive(Debug)]
pub enum KeybindingError {
    /// The word has no usable shape.
    InvalidFormat(String),
    /// A part before the last names no known modifier.
    UnknownModifier(String),
    /// The last part names no known key.
    UnknownKey(String),
}

/// Modifier keys.
#[derive(Debug, Clone, Copy, PartialEq, Eq, Hash, Structural)]
pub enum Modifier {
    /// Super, logo or windows key.
    Super,
    /// Shift key.
    Shift,
    /// Control key.
    Ctrl,
    /// Alt key.
    Alt,
}

/// Key symbol codes, as the established keyboard encoding assigns them:
/// letters and digits carry their character codes, the named keys their
/// fixed values.
pub const KEYSYM_SPACE: u32 = 0x20;
pub const KEYSYM_RETURN: u32 = 0xff0d;
pub const KEYSYM_ESCAPE: u32 = 0xff1b;
pub const KEYSYM_TAB: u32 = 0xff09;
pub const KEYSYM_BACKSPACE: u32 = 0xff08;
pub const KEYSYM_DELETE: u32 = 0xffff;
pub const KEYSYM_LEFT: u32 = 0xff51;
pub const KEYSYM_UP: u32 = 0xff52;
pub const KEYSYM_RIGHT: u32 = 0xff53;
pub const KEYSYM_DOWN: u32 = 0xff54;
pub const KEYSYM_F1: u32 = 0xffbe;
pub const KEYSYM_F12: u32 = 0xffc9;
pub const KEYSYM_D: u32 = 0x64;
pub const KEYSYM_Q: u32 = 0x71;
pub const KEYSYM_C: u32 = 0x63;

/// The key symbol a word names, case-insensitively: single letters and
/// digits map to their character codes, function keys and a fixed set of
/// named keys to their codes; anything else is unknown.
pub open spec fn keysym_of(s: Seq<char>) -> Option<u32> {
    let l = lower_seq(s);
    if l.len() == 1 && (('a' <= l[0] && l[0] <= 'z') || ('0' <= l[0] && l[0] <= '9')) {
        Some(l[0] as u32)
    } else if l == "f1"@ {
        Some(0xffbe)
    } else if l == "f2"@ {
        Some(0xffbf)
    } else if l == "f3"@ {
        Some(0xffc0)
    } else if l == "f4"@ {
        Some(0xffc1)
    } else if l == "f5"@ {
        Some(0xffc2)
    } else if l == "f6"@ {
        Some(0xffc3)
    } else if l == "f7"@ {
        Some(0xffc4)
    } else if l == "f8"@ {
        Some(0xffc5)
    } else if l == "f9"@ {
        Some(0xffc6)
    } else if l == "f10"@ {
        Some(0xffc7)
    } else if l == "f11"@ {
        Some(0xffc8)
    } else if l == "f12"@ {
        Some(0xffc9)
    } else if l == "space"@ {
        Some(KEYSYM_SPACE)
    } else if l == "return"@ || l == "enter"@ {
        Some(KEYSYM_RETURN)
    } else if l == "escape"@ || l == "esc"@ {
        Some(KEYSYM_ESCAPE)
    } else if l == "tab"@ {
        Some(KEYSYM_TAB)
    } else if l == "backspace"@ {
        Some(KEYSYM_BACKSPACE)
    } else if l == "delete"@ || l == "del"@ {
        Some(KEYSYM_DELETE)
    } else if l == "left"@ {
        Some(KEYSYM_LEFT)
    } else if l == "right"@ {
        Some(KEYSYM_RIGHT)
    } else if l == "up"@ {
        Some(KEYSYM_UP)
    } else if l == "down"@ {
        Some(KEYSYM_DOWN)
    } else {
        None
    }
}

/// The key symbol a word names; see `keysym_of`.
pub fn string_to_keysym(s: &str) -> (sym: Option<u32>)
    ensures
        sym == keysym_of(s@),
{
    let l = to_lower(s);
    let ls = l.as_str();
    let n = ls.unicode_len();
    if n == 1 {
        let c = ls.get_char(0);
        if (c >= 'a' && c <= 'z') || (c >= '0' && c <= '9') {
            return Some(c as u32);
        }
    }
    if str_eq(ls, "f1") {
        Some(0xffbe)
    } else if str_eq(ls, "f2") {
        Some(0xffbf)
    } else if str_eq(ls, "f3") {
        Some(0xffc0)
    } else if str_eq(ls, "f4") {
        Some(0xffc1)
    } else if str_eq(ls, "f5") {
        Some(0xffc2)
    } else if str_eq(ls, "f6") {
        Some(0xffc3)
    } else if str_eq(ls, "f7") {
        Some(0xffc4)
    } else if str_eq(ls, "f8") {
        Some(0xffc5)
    } else if str_eq(ls, "f9") {
        Some(0xffc6)
    } else if str_eq(ls, "f10") {
        Some(0xffc7)
    } else if str_eq(ls, "f11") {
        Some(0xffc8)
    } else if str_eq(ls, "f12") {
        Some(0xffc9)
    } else if str_eq(ls, "space") {
        Some(KEYSYM_SPACE)
    } else if str_eq(ls, "return") || str_eq(ls, "enter") {
        Some(KEYSYM_RETURN)
    } else if str_eq(ls, "escape") || str_eq(ls, "esc") {
        Some(KEYSYM_ESCAPE)
    } else if str_eq(ls, "tab") {
        Some(KEYSYM_TAB)
    } else if str_eq(ls, "backspace") {
        Some(KEYSYM_BACKSPACE)
    } else if str_eq(ls, "delete") || str_eq(ls, "del") {
        Some(KEYSYM_DELETE)
    } else if str_eq(ls, "left") {
        Some(KEYSYM_LEFT)
    } else if str_eq(ls, "right") {
        Some(KEYSYM_RIGHT)
    } else if str_eq(ls, "up") {
        Some(KEYSYM_UP)
    } else if str_eq(ls, "down") {
        Some(KEYSYM_DOWN)
    } else {
        None
    }
}


/// The workspace a digit key selects: the digits select workspaces 1
/// through 9 and the zero key the tenth; other keys select none.
pub fn keysym_to_workspace_num(keysym: u32) -> (num: Option<usize>)
    ensures
        num == (if 0x31 <= keysym <= 0x39 {
            Some((keysym - 0x30) as usize)
        } else if keysym == 0x30 {
            Some(10usize)
        } else {
            None::<usize>
        }),
{
    if keysym >= 0x31 && keysym <= 0x39 {
        Some((keysym - 0x30) as usize)
    } else if keysym == 0x30 {
        Some(10)
    } else {
        None
    }
}

/// The modifier a word names, case-insensitively.
pub open spec fn modifier_of(s: Seq<char>) -> Option<Modifier> {
    let l = lower_seq(s);
    if l == "super"@ || l == "mod"@ || l == "logo"@ || l == "win"@ {
        Some(Modifier::Super)
    } else if l == "shift"@ {
        Some(Modifier::Shift)
    } else if l == "ctrl"@ || l == "control"@ {
        Some(Modifier::Ctrl)
    } else if l == "alt"@ {
        Some(Modifier::Alt)
    } else {
        None
    }
}

/// The modifier a word names; see `modifier_of`.
fn parse_modifier(s: &str) -> (m: Option<Modifier>)
    ensures
        m == modifier_of(s@),
{
    let l = to_lower(s);
    let ls = l.as_str();
    if str_eq(ls, "super") || str_eq(ls, "mod") || str_eq(ls, "logo") || str_eq(ls, "win") {
        Some(Modifier::Super)
    } else if str_eq(ls, "shift") {
        Some(Modifier::Shift)
    } else if str_eq(ls, "ctrl") || str_eq(ls, "control") {
        Some(Modifier::Ctrl)
    } else if str_eq(ls, "alt") {
        Some(Modifier::Alt)
    } else {
        None
    }
}

/// A parsed binding: the modifiers that must be held and the key symbol.
#[derive(Debug, Clone, PartialEq)]
pub struct Keybinding {
    pub modifiers: Vec<Modifier>,
    pub key: u32,
}

/// The trimmed pieces of a binding word split at `+`.
pub open spec fn binding_parts(s: Seq<char>) -> Seq<Seq<char>> {
    split_seq(s, '+').map_values(|p: Seq<char>| trimmed(p))
}

impl Keybinding {
    /// Parse a binding word like `Super+Shift+q`: every `+`-separated part
    /// but the last must name a modifier, and the last must name a key. The
    /// first unknown modifier, or the unknown key, is reported back in the
    /// error.
    pub fn parse(s: &str) -> (r: Result<Self, KeybindingError>)
        ensures
            ({
                let parts = binding_parts(s@);
                let last = parts[parts.len() - 1];
                &&& (r is Ok <==> (forall|j: int| 0 <= j < parts.len() - 1
                        ==> modifier_of(#[trigger] parts[j]) is Some) && keysym_of(last) is Some)
                &&& r matches Ok(kb) ==> kb.key == keysym_of(last)->0
                        && kb.modifiers@.len() == parts.len() - 1
                        && forall|j: int| 0 <= j < parts.len() - 1
                            ==> kb.modifiers@[j] == modifier_of(#[trigger] parts[j])->0
                &&& r matches Err(e) ==> match e {
                    KeybindingError::UnknownModifier(m) => exists|j: int|
                        0 <= j < parts.len() - 1 && modifier_of(#[trigger] parts[j]) is None
                            && m@ == parts[j]
                            && forall|j2: int| 0 <= j2 < j
                                ==> modifier_of(#[trigger] parts[j2]) is Some,
                    KeybindingError::UnknownKey(k) => k@ == last && keysym_of(last) is None
                        && forall|j: int| 0 <= j < parts.len() - 1
                            ==> modifier_of(#[trigger] parts[j]) is Some,
                    KeybindingError::InvalidFormat(_) => false,
                }
            }),
    {
        proof {
            lemma_split_acc_nonempty(s@, '+', Seq::empty());
        }
        let raw_parts = split_str(s, '+');
        let mut parts: Vec<String> = Vec::new();
        let mut t: usize = 0;
        while t < raw_parts.len()
            invariant
                t <= raw_parts@.len(),
                parts@.len() == t,
                raw_parts@.len() == binding_parts(s@).len(),
                forall|j: int| 0 <= j < raw_parts@.len()
                    ==> trimmed(raw_parts@[j]@) == binding_parts(s@)[j],
                forall|j: int| 0 <= j < t ==> parts@[j]@ == binding_parts(s@)[j],
            decreases raw_parts@.len() - t,
        {
            parts.push(trim_str(raw_parts[t].as_str()));
            t = t + 1;
        }

        if parts.len() == 0 {
            // splitting always yields at least one piece, so this report
            // of an empty word can never fire
            return Err(KeybindingError::InvalidFormat("Empty keybinding string".to_owned()));
        }

        let mut modifiers: Vec<Modifier> = Vec::new();
        let mut i: usize = 0;
        while i < parts.len() - 1
            invariant
                parts@.len() >= 1,
                i <= parts@.len() - 1,
                modifiers@.len() == i,
                parts@.len() == binding_parts(s@).len(),
                forall|j: int| 0 <= j < parts@.len() ==> parts@[j]@ == binding_parts(s@)[j],
                forall|j: int| 0 <= j < i ==> modifier_of(#[trigger] binding_parts(s@)[j]) is Some,
                forall|j: int| 0 <= j < i
                    ==> modifiers@[j] == modifier_of(#[trigger] binding_parts(s@)[j])->0,
            decreases parts@.len() - 1 - i,
        {
            match parse_modifier(parts[i].as_str()) {
                Some(m) => {
                    modifiers.push(m);
                }
                None => {
                    proof {
                        let bp = binding_parts(s@);
                        assert(0 <= (i as int) < bp.len() - 1 && modifier_of(bp[i as int]) is None);
                    }
                    return Err(KeybindingError::UnknownModifier(clone_string(&parts[i])));
                }
            }
            i = i + 1;
        }

        let key_part = &parts[parts.len() - 1];
        match string_to_keysym(key_part.as_str()) {
            Some(key) => Ok(Keybinding { modifiers, key }),
            None => Err(KeybindingError::UnknownKey(clone_string(key_part))),
        }
    }

    /// Whether this binding fires for the pressed key and modifier set: the
    /// key must agree and each modifier must be held exactly when the
    /// binding lists it.
    pub fn matches(
        &self,
        key: u32,
        super_pressed: bool,
        shift_pressed: bool,
        ctrl_pressed: bool,
        alt_pressed: bool,
    ) -> (fires: bool)
        ensures
            fires == (self.key == key
                && self.modifiers@.contains(Modifier::Super) == super_pressed
                && self.modifiers@.contains(Modifier::Shift) == shift_pressed
                && self.modifiers@.contains(Modifier::Ctrl) == ctrl_pressed
                && self.modifiers@.contains(Modifier::Alt) == alt_pressed),
    {
        if self.key != key {
            return false;
        }
        let has_super = contains_modifier(&self.modifiers, Modifier::Super);
        let has_shift = contains_modifier(&self.modifiers, Modifier::Shift);
        let has_ctrl = contains_modifier(&self.modifiers, Modifier::Ctrl);
        let has_alt = contains_modifier(&self.modifiers, Modifier::Alt);
        has_super == super_pressed && has_shift == shift_pressed && has_ctrl == ctrl_pressed
            && has_alt == alt_pressed
    }
}

/// Whether the list holds the modifier.
fn contains_modifier(mods: &Vec<Modifier>, m: Modifier) -> (found: bool)
    ensures
        found == mods@.contains(m),
{
    let mut i: usize = 0;
    while i < mods.len()
        invariant
            i <= mods@.len(),
            forall|j: int| 0 <= j < i ==> mods@[j] != m,
        decreases mods@.len() - i,
    {
        if mods[i] == m {
            assert(mods@[i as int] == m);
            return true;
        }
        i = i + 1;
    }
    false
}

/// Direction of a focus command.
#[derive(Debug, Clone, Copy, PartialEq, Eq, Structural)]
pub enum Direction {
    Left,
    Right,
    Up,
    Down,
}

/// Orientation of a split command.
#[derive(Debug, Clone, Copy, PartialEq, Eq, Structural)]
pub enum SplitDirection {
    Horizontal,
    Vertical,
}

/// What a binding triggers.
#[derive(Debug, Clone, PartialEq)]
pub enum Action {
    /// Quit the compositor.
    Quit,
    /// Close the focused window.
    CloseWindow,
    /// Move focus in a direction.
    NavigateFocus(Direction),
    /// Wrap the focused container in a split.
    Split(SplitDirection),
    /// Switch to a workspace by number.
    SwitchWorkspace(usize),
    /// Move the focused window to a workspace by number.
    MoveToWorkspace(usize),
    /// Change the layout mode, by its configuration word.
    ChangeLayout(String),
    /// Toggle the focused window between tiled and floating.
    ToggleFloating,
    /// Open or close the application launcher.
    ToggleLauncher,
    /// Reload the configuration.
    ReloadConfig,
    /// Spawn a terminal.
    SpawnTerminal,
}

/// The action bound to a word in a binding table, scanning from the front.
pub open spec fn bindings_get(entries: Seq<(String, Action)>, key: Seq<char>) -> Option<Action>
    decreases entries.len(),
{
    if entries.len() == 0 {
        None
    } else if entries[0].0@ == key {
        Some(entries[0].1)
    } else {
        bindings_get(entries.drop_first(), key)
    }
}

/// A table of binding words and their actions, at most one action per word.
#[derive(Debug)]
pub struct BindingMap {
    entries: Vec<(String, Action)>,
}

/// Replacing the entry at a matching index rebinds exactly that word.
proof fn lemma_bindings_get_update(
    entries: Seq<(String, Action)>,
    i: int,
    word: String,
    action: Action,
    k: Seq<char>,
)
    requires
        0 <= i < entries.len(),
        entries[i].0@ == word@,
        forall|j: int| 0 <= j < i ==> (#[trigger] entries[j].0)@ != word@,
    ensures
        bindings_get(entries.update(i, (word, action)), k) == if k == word@ {
            Some(action)
        } else {
            bindings_get(entries, k)
        },
    decreases entries.len(),
{
    if i == 0 {
        assert(entries.update(0, (word, action)).drop_first() =~= entries.drop_first());
    } else {
        assert(entries.update(i, (word, action)).drop_first() =~= entries.drop_first().update(
            i - 1,
            (word, action),
        ));
        assert forall|j: int| 0 <= j < i - 1
            implies (#[trigger] entries.drop_first()[j].0)@ != word@ by {
            assert(entries[j + 1].0@ != word@);
        }
        lemma_bindings_get_update(entries.drop_first(), i - 1, word, action, k);
    }
}

/// Appending a word that is not yet bound binds exactly that word.
proof fn lemma_bindings_get_push(
    entries: Seq<(String, Action)>,
    word: String,
    action: Action,
    k: Seq<char>,
)
    requires
        bindings_get(entries, word@) is None,
    ensures
        bindings_get(entries.push((word, action)), k) == if k == word@ {
            Some(action)
        } else {
            bindings_get(entries, k)
        },
    decreases entries.len(),
{
    if entries.len() == 0 {
        assert(entries.push((word, action)).drop_first() =~= Seq::<(String, Action)>::empty());
    } else {
        assert(entries.push((word, action)).drop_first() =~= entries.drop_first().push(
            (word, action),
        ));
        lemma_bindings_get_push(entries.drop_first(), word, action, k);
    }
}

impl BindingMap {
    /// The bound words and actions, in insertion order.
    pub closed spec fn spec_entries(&self) -> Seq<(String, Action)> {
        self.entries@
    }

    /// The action bound to a word.
    pub open spec fn spec_get(&self, key: Seq<char>) -> Option<Action> {
        bindings_get(self.spec_entries(), key)
    }

    /// An empty table.
    pub fn new() -> (map: Self)
        ensures
            map.spec_entries() == Seq::<(String, Action)>::empty(),
            forall|k: Seq<char>| map.spec_get(k) is None,
    {
        BindingMap { entries: Vec::new() }
    }

    /// The index of the first entry for a word, if the word is bound.
    fn find_index(&self, key: &str) -> (found: Option<usize>)
        ensures
            match found {
                Some(i) => i < self.spec_entries().len()
                    && self.spec_entries()[i as int].0@ == key@
                    && forall|j: int| 0 <= j < i
                        ==> (#[trigger] self.spec_entries()[j].0)@ != key@,
                None => self.spec_get(key@) is None,
            },
            found is None ==> forall|j: int| 0 <= j < self.spec_entries().len()
                ==> (#[trigger] self.spec_entries()[j].0)@ != key@,
    {
        let mut i: usize = 0;
        while i < self.entries.len()
            invariant
                i <= self.spec_entries().len(),
                forall|j: int| 0 <= j < i ==> (#[trigger] self.spec_entries()[j].0)@ != key@,
            decreases self.spec_entries().len() - i,
        {
            if str_eq(self.entries[i].0.as_str(), key) {
                return Some(i);
            }
            i = i + 1;
        }
        proof {
            lemma_scan_none(self.spec_entries(), key@);
        }
        None
    }

    /// Bind a word to an action, replacing any earlier binding of the word.
    pub fn insert(&mut self, word: String, action: Action)
        ensures
            forall|k: Seq<char>| final(self).spec_get(k) == (if k == word@ {
                Some(action)
            } else {
                old(self).spec_get(k)
            }),
    {
        let ghost pre = self.entries@;
        let ghost w = word;
        let ghost a = action;
        match self.find_index(word.as_str()) {
            Some(i) => {
                self.entries.set(i, (word, action));
                proof {
                    assert forall|k: Seq<char>| self.spec_get(k) == (if k == w@ {
                        Some(a)
                    } else {
                        bindings_get(pre, k)
                    }) by {
                        lemma_bindings_get_update(pre, i as int, w, a, k);
                    }
                }
            }
            None => {
                self.entries.push((word, action));
                proof {
                    assert forall|k: Seq<char>| self.spec_get(k) == (if k == w@ {
                        Some(a)
                    } else {
                        bindings_get(pre, k)
                    }) by {
                        lemma_bindings_get_push(pre, w, a, k);
                    }
                }
            }
        }
    }

    /// The action bound to a word, if any.
    pub fn get(&self, key: &str) -> (found: Option<&Action>)
        ensures
            match found {
                Some(a) => self.spec_get(key@) == Some(*a),
                None => self.spec_get(key@) is None,
            },
    {
        match self.find_index(key) {
            Some(i) => {
                proof {
                    lemma_scan_found(self.spec_entries(), key@, i as int);
                }
                Some(&self.entries[i].1)
            }
            None => None,
        }
    }

    /// Whether a word is bound.
    pub fn contains_key(&self, key: &str) -> (bound: bool)
        ensures
            bound == (self.spec_get(key@) is Some),
    {
        match self.get(key) {
            Some(_) => true,
            None => false,
        }
    }

    /// Whether the table binds nothing at all.
    pub fn is_empty(&self) -> (empty: bool)
        ensures
            empty == (self.spec_entries().len() == 0),
    {
        self.entries.is_empty()
    }

    /// All bound words with their actions, in insertion order.
    pub fn entries_list(&self) -> (list: &Vec<(String, Action)>)
        ensures
            list@ == self.spec_entries(),
    {
        &self.entries
    }
}

/// A scan that misses everywhere finds nothing.
proof fn lemma_scan_none(entries: Seq<(String, Action)>, key: Seq<char>)
    requires
        forall|j: int| 0 <= j < entries.len() ==> (#[trigger] entries[j].0)@ != key,
    ensures
        bindings_get(entries, key) is None,
    decreases entries.len(),
{
    if entries.len() > 0 {
        assert(entries[0].0@ != key);
        assert forall|j: int| 0 <= j < entries.drop_first().len()
            implies (#[trigger] entries.drop_first()[j].0)@ != key by {
            assert(entries[j + 1].0@ != key);
        }
        lemma_scan_none(entries.drop_first(), key);
    }
}

/// A scan that misses before `i` and hits at `i` finds the entry at `i`.
proof fn lemma_scan_found(entries: Seq<(String, Action)>, key: Seq<char>, i: int)
    requires
        0 <= i < entries.len(),
        entries[i].0@ == key,
        forall|j: int| 0 <= j < i ==> (#[trigger] entries[j].0)@ != key,
    ensures
        bindings_get(entries, key) == Some(entries[i].1),
    decreases entries.len(),
{
    if i > 0 {
        assert forall|j: int| 0 <= j < i - 1
            implies (#[trigger] entries.drop_first()[j].0)@ != key by {
            assert(entries[j + 1].0@ != key);
        }
        lemma_scan_found(entries.drop_first(), key, i - 1);
    }
}

/// Keybinding configuration: the table of binding words and actions.
#[derive(Debug)]
pub struct KeybindingsConfig {
    pub bindings: BindingMap,
}

impl Default for KeybindingsConfig {
    /// The standard binding table.
    fn default() -> (c: Self)
        ensures
            c.bindings.spec_get("Super+d"@) == Some(Action::ToggleLauncher),
            c.bindings.spec_entries().len() > 0,
    {
        KeybindingsConfig { bindings: default_keybindings() }
    }
}

/// Whether a binding word parses: all its leading parts name modifiers and
/// its last part names a key.
pub open spec fn parses_ok(word: Seq<char>) -> bool {
    let parts = binding_parts(word);
    &&& forall|j: int| 0 <= j < parts.len() - 1 ==> modifier_of(#[trigger] parts[j]) is Some
    &&& keysym_of(parts[parts.len() - 1]) is Some
}

/// The table entries whose words parse, in table order.
pub open spec fn parseable_entries(entries: Seq<(String, Action)>) -> Seq<(String, Action)> {
    entries.filter(|e: (String, Action)| parses_ok(e.0@))
}

/// What one parsed table entry must look like: the binding carries the
/// entry's key symbol and modifiers, and the action is a copy of the
/// entry's.
pub open spec fn parsed_pair_ok(entry: (String, Action), pair: (Keybinding, Action)) -> bool {
    let parts = binding_parts(entry.0@);
    &&& action_matches(entry.1, pair.1)
    &&& pair.0.key == keysym_of(parts[parts.len() - 1])->0
    &&& pair.0.modifiers@.len() == parts.len() - 1
    &&& forall|j: int| 0 <= j < parts.len() - 1
            ==> pair.0.modifiers@[j] == modifier_of(#[trigger] parts[j])->0
}

impl KeybindingsConfig {
    /// Parse every bound word; words that fail to parse are skipped. The
    /// result pairs each parsed binding with its action, in table order.
    pub fn parse_all(&self) -> (parsed: Vec<(Keybinding, Action)>)
        ensures
            parsed@.len() == parseable_entries(self.bindings.spec_entries()).len(),
            forall|i: int| 0 <= i < parsed@.len() ==> parsed_pair_ok(
                parseable_entries(self.bindings.spec_entries())[i],
                #[trigger] parsed@[i],
            ),
    {
        let entries = self.bindings.entries_list();
        let ghost eseq = entries@;
        let mut parsed: Vec<(Keybinding, Action)> = Vec::new();
        let mut i: usize = 0;
        while i < entries.len()
            invariant
                i <= eseq.len(),
                entries@ == eseq,
                parsed@.len() == parseable_entries(eseq.subrange(0, i as int)).len(),
                forall|k: int| 0 <= k < parsed@.len() ==> parsed_pair_ok(
                    parseable_entries(eseq.subrange(0, i as int))[k],
                    #[trigger] parsed@[k],
                ),
            decreases eseq.len() - i,
        {
            proof {
                reveal(Seq::filter);
                assert(eseq.subrange(0, i + 1).drop_last() =~= eseq.subrange(0, i as int));
                assert(eseq.subrange(0, i + 1).last() == eseq[i as int]);
            }
            match Keybinding::parse(entries[i].0.as_str()) {
                Ok(kb) => {
                    parsed.push((kb, clone_action(&entries[i].1)));
                }
                Err(_) => {}
            }
            i = i + 1;
        }
        proof {
            assert(eseq.subrange(0, eseq.len() as int) =~= eseq);
        }
        parsed
    }
}

/// Whether two actions are the same command, their words compared by text.
pub open spec fn action_matches(a: Action, b: Action) -> bool {
    match (a, b) {
        (Action::Quit, Action::Quit) => true,
        (Action::CloseWindow, Action::CloseWindow) => true,
        (Action::NavigateFocus(x), Action::NavigateFocus(y)) => x == y,
        (Action::Split(x), Action::Split(y)) => x == y,
        (Action::SwitchWorkspace(x), Action::SwitchWorkspace(y)) => x == y,
        (Action::MoveToWorkspace(x), Action::MoveToWorkspace(y)) => x == y,
        (Action::ChangeLayout(x), Action::ChangeLayout(y)) => x@ == y@,
        (Action::ToggleFloating, Action::ToggleFloating) => true,
        (Action::ToggleLauncher, Action::ToggleLauncher) => true,
        (Action::ReloadConfig, Action::ReloadConfig) => true,
        (Action::SpawnTerminal, Action::SpawnTerminal) => true,
        _ => false,
    }
}

/// A copy of an action.
fn clone_action(a: &Action) -> (out: Action)
    ensures
        action_matches(*a, out),
{
    match a {
        Action::Quit => Action::Quit,
        Action::CloseWindow => Action::CloseWindow,
        Action::NavigateFocus(d) => Action::NavigateFocus(*d),
        Action::Split(d) => Action::Split(*d),
        Action::SwitchWorkspace(n) => Action::SwitchWorkspace(*n),
        Action::MoveToWorkspace(n) => Action::MoveToWorkspace(*n),
        Action::ChangeLayout(s) => Action::ChangeLayout(clone_string(s)),
        Action::ToggleFloating => Action::ToggleFloating,
        Action::ToggleLauncher => Action::ToggleLauncher,
        Action::ReloadConfig => Action::ReloadConfig,
        Action::SpawnTerminal => Action::SpawnTerminal,
    }
}

/// The word `Super+<digit>` for one workspace digit.
fn workspace_word(prefix: &str, digit: u32) -> (word: String)
    requires
        digit <= 9,
    ensures
        word@ == prefix@.push(((0x30 + digit) as u8) as char),
{
    let mut word = prefix.to_owned();
    let c = ((0x30 + digit) as u8) as char;
    push_char(&mut word, c);
    word
}

/// The standard binding table: quit/close/reload on the super and shift
/// chords, focus movement on the home-row letters, splits, workspace
/// switching and movement on the digits, layout modes, floating, the
/// launcher, and a terminal for testing.
pub fn default_keybindings() -> (map: BindingMap)
    ensures
        map.spec_get("Super+d"@) == Some(Action::ToggleLauncher),
        map.spec_get("Super+Shift+q"@) == Some(Action::Quit),
        map.spec_get("Super+Shift+c"@) == Some(Action::CloseWindow),
        map.spec_get("Super+Shift+r"@) == Some(Action::ReloadConfig),
        map.spec_get("Super+h"@) == Some(Action::NavigateFocus(Direction::Left)),
        map.spec_get("Super+j"@) == Some(Action::NavigateFocus(Direction::Down)),
        map.spec_get("Super+k"@) == Some(Action::NavigateFocus(Direction::Up)),
        map.spec_get("Super+l"@) == Some(Action::NavigateFocus(Direction::Right)),
        map.spec_get("Super+b"@) == Some(Action::Split(SplitDirection::Horizontal)),
        map.spec_get("Super+v"@) == Some(Action::Split(SplitDirection::Vertical)),
        map.spec_get("Super+0"@) == Some(Action::SwitchWorkspace(10)),
        map.spec_get("Super+Shift+0"@) == Some(Action::MoveToWorkspace(10)),
        (map.spec_get("Super+e"@) matches Some(Action::ChangeLayout(word))
            && word@ == "splith"@),
        (map.spec_get("Super+w"@) matches Some(Action::ChangeLayout(word))
            && word@ == "splitv"@),
        (map.spec_get("Super+s"@) matches Some(Action::ChangeLayout(word))
            && word@ == "stacking"@),
        (map.spec_get("Super+t"@) matches Some(Action::ChangeLayout(word))
            && word@ == "tabbed"@),
        map.spec_get("Super+Shift+space"@) == Some(Action::ToggleFloating),
        map.spec_get("F12"@) == Some(Action::SpawnTerminal),
        forall|i: int| 1 <= i <= 9 ==> #[trigger] map.spec_get(
            "Super+"@.push(((0x30 + i) as u8) as char),
        ) == Some(Action::SwitchWorkspace(i as usize)),
        forall|i: int| 1 <= i <= 9 ==> #[trigger] map.spec_get(
            "Super+Shift+"@.push(((0x30 + i) as u8) as char),
        ) == Some(Action::MoveToWorkspace(i as usize)),
        map.spec_entries().len() > 0,
{
    let mut map = BindingMap::new();

    map.insert("Super+Shift+q".to_owned(), Action::Quit);
    map.insert("Super+Shift+c".to_owned(), Action::CloseWindow);
    map.insert("Super+Shift+r".to_owned(), Action::ReloadConfig);

    map.insert("Super+h".to_owned(), Action::NavigateFocus(Direction::Left));
    map.insert("Super+j".to_owned(), Action::NavigateFocus(Direction::Down));
    map.insert("Super+k".to_owned(), Action::NavigateFocus(Direction::Up));
    map.insert("Super+l".to_owned(), Action::NavigateFocus(Direction::Right));

    map.insert("Super+b".to_owned(), Action::Split(SplitDirection::Horizontal));
    map.insert("Super+v".to_owned(), Action::Split(SplitDirection::Vertical));

    proof {
        lemma_binding_word_facts();
    }
    let mut i: u32 = 1;
    while i <= 9
        invariant
            1 <= i <= 10,
            map.spec_get("Super+Shift+q"@) == Some(Action::Quit),
            map.spec_get("Super+Shift+c"@) == Some(Action::CloseWindow),
            map.spec_get("Super+Shift+r"@) == Some(Action::ReloadConfig),
            map.spec_get("Super+h"@) == Some(Action::NavigateFocus(Direction::Left)),
            map.spec_get("Super+j"@) == Some(Action::NavigateFocus(Direction::Down)),
            map.spec_get("Super+k"@) == Some(Action::NavigateFocus(Direction::Up)),
            map.spec_get("Super+l"@) == Some(Action::NavigateFocus(Direction::Right)),
            map.spec_get("Super+b"@) == Some(Action::Split(SplitDirection::Horizontal)),
            map.spec_get("Super+v"@) == Some(Action::Split(SplitDirection::Vertical)),
            forall|j: int| 1 <= j < i ==> #[trigger] map.spec_get(
                "Super+"@.push(((0x30 + j) as u8) as char),
            ) == Some(Action::SwitchWorkspace(j as usize)),
            forall|j: int| 1 <= j < i ==> #[trigger] map.spec_get(
                "Super+Shift+"@.push(((0x30 + j) as u8) as char),
            ) == Some(Action::MoveToWorkspace(j as usize)),
        decreases 10 - i,
    {
        proof {
            lemma_binding_word_facts();
        }
        let word = workspace_word("Super+", i);
        map.insert(word, Action::SwitchWorkspace(i as usize));
        let shifted = workspace_word("Super+Shift+", i);
        map.insert(shifted, Action::MoveToWorkspace(i as usize));
        proof {
            let di = ((0x30 + i as int) as u8) as char;
            assert forall|j: int| 1 <= j < i as int + 1 implies #[trigger] map.spec_get(
                "Super+"@.push(((0x30 + j) as u8) as char),
            ) == Some(Action::SwitchWorkspace(j as usize)) by {
                let dj = ((0x30 + j) as u8) as char;
                assert("Super+"@.push(dj).len() == 7);
                assert("Super+Shift+"@.push(di).len() == 13);
                assert("Super+"@.push(dj)[6] == dj);
                if j < i as int {
                    assert(dj != di);
                    assert("Super+"@.push(di)[6] == di);
                    assert("Super+"@.push(dj) != "Super+"@.push(di));
                }
            }
            assert forall|j: int| 1 <= j < i as int + 1 implies #[trigger] map.spec_get(
                "Super+Shift+"@.push(((0x30 + j) as u8) as char),
            ) == Some(Action::MoveToWorkspace(j as usize)) by {
                let dj = ((0x30 + j) as u8) as char;
                assert("Super+Shift+"@.push(dj).len() == 13);
                assert("Super+Shift+"@.push(dj)[12] == dj);
                if j < i as int {
                    assert(dj != di);
                    assert("Super+Shift+"@.push(di)[12] == di);
                    assert("Super+Shift+"@.push(dj) != "Super+Shift+"@.push(di));
                }
            }
        }
        i = i + 1;
    }
    proof {
        lemma_binding_word_facts();
    }
    map.insert("Super+0".to_owned(), Action::SwitchWorkspace(10));
    map.insert("Super+Shift+0".to_owned(), Action::MoveToWorkspace(10));

    map.insert("Super+e".to_owned(), Action::ChangeLayout("splith".to_owned()));
    map.insert("Super+w".to_owned(), Action::ChangeLayout("splitv".to_owned()));
    map.insert("Super+s".to_owned(), Action::ChangeLayout("stacking".to_owned()));
    map.insert("Super+t".to_owned(), Action::ChangeLayout("tabbed".to_owned()));

    map.insert("Super+Shift+space".to_owned(), Action::ToggleFloating);

    map.insert("Super+d".to_owned(), Action::ToggleLauncher);

    map.insert("F12".to_owned(), Action::SpawnTerminal);

    map
}

} // verus!
