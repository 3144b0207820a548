//! Keyboard shortcuts: actions, keys, the default bindings, and how saved
//! bindings are read back and checked for conflicts.
use vstd::prelude::*;

use vstd::string::StringExecFns;

use crate::i18n::{translation, I18n, Language};
use crate::text::{join, str_eq};

verus! {

/// An action that a keyboard shortcut triggers.
#[derive(Clone, Copy, Debug, PartialEq, Eq, Structural)]
pub enum ShortcutAction {
    OpenFolder,
    PrevImage,
    NextImage,
    DeleteImage,
    ToggleDual,
    CopyLeft,
    CopyRight,
    ToggleFit,
    About,
    ToggleFullscreen,
    RotateCW,
    RotateCCW,
    ShowEXIF,
    ToggleSlideshow,
}

/// Every action, in the order of the actions menu.
pub const ALL_ACTIONS: [ShortcutAction; 14] = [
    ShortcutAction::OpenFolder,
    ShortcutAction::PrevImage,
    ShortcutAction::NextImage,
    ShortcutAction::DeleteImage,
    ShortcutAction::ToggleDual,
    ShortcutAction::CopyLeft,
    ShortcutAction::CopyRight,
    ShortcutAction::ToggleFit,
    ShortcutAction::About,
    ShortcutAction::ToggleFullscreen,
    ShortcutAction::RotateCW,
    ShortcutAction::RotateCCW,
    ShortcutAction::ShowEXIF,
    ShortcutAction::ToggleSlideshow,
];

/// The translation key of an action.
pub open spec fn action_key(a: ShortcutAction) -> &'static str {
    match a {
        ShortcutAction::OpenFolder => "action_open_folder",
        ShortcutAction::PrevImage => "action_prev_image",
        ShortcutAction::NextImage => "action_next_image",
        ShortcutAction::DeleteImage => "action_delete_image",
        ShortcutAction::ToggleDual => "action_toggle_dual",
        ShortcutAction::CopyLeft => "action_copy_left",
        ShortcutAction::CopyRight => "action_copy_right",
        ShortcutAction::ToggleFit => "action_toggle_fit",
        ShortcutAction::About => "action_about",
        ShortcutAction::ToggleFullscreen => "action_fullscreen",
        ShortcutAction::RotateCW => "action_rotate_cw",
        ShortcutAction::RotateCCW => "action_rotate_ccw",
        ShortcutAction::ShowEXIF => "action_show_exif",
        ShortcutAction::ToggleSlideshow => "action_toggle_slideshow",
    }
}

/// The action whose translation key is `key`, if any.
pub open spec fn action_for_key(key: Seq<char>) -> Option<ShortcutAction> {
    if exists|a: ShortcutAction| #[trigger] action_key(a)@ == key {
        Some(choose|a: ShortcutAction| #[trigger] action_key(a)@ == key)
    } else {
        None
    }
}

/// Different actions have different translation keys.
pub proof fn action_keys_distinct(a: ShortcutAction, b: ShortcutAction)
    ensures
        action_key(a)@ == action_key(b)@ ==> a == b,
{
    reveal_strlit("action_open_folder");
    reveal_strlit("action_prev_image");
    reveal_strlit("action_next_image");
    reveal_strlit("action_delete_image");
    reveal_strlit("action_toggle_dual");
    reveal_strlit("action_copy_left");
    reveal_strlit("action_copy_right");
    reveal_strlit("action_toggle_fit");
    reveal_strlit("action_about");
    reveal_strlit("action_fullscreen");
    reveal_strlit("action_rotate_cw");
    reveal_strlit("action_rotate_ccw");
    reveal_strlit("action_show_exif");
    reveal_strlit("action_toggle_slideshow");
    if action_key(a)@ == action_key(b)@ {
        // The length and the first letter after the common prefix tell the keys apart.
        assert(action_key(a)@.len() == action_key(b)@.len());
        assert(action_key(a)@[7] == action_key(b)@[7]);
    }
}

impl ShortcutAction {
    /// The translation key of the action.
    pub fn i18n_key(&self) -> (r: &'static str)
        ensures
            r == action_key(*self),
    {
        match self {
            ShortcutAction::OpenFolder => "action_open_folder",
            ShortcutAction::PrevImage => "action_prev_image",
            ShortcutAction::NextImage => "action_next_image",
            ShortcutAction::DeleteImage => "action_delete_image",
            ShortcutAction::ToggleDual => "action_toggle_dual",
            ShortcutAction::CopyLeft => "action_copy_left",
            ShortcutAction::CopyRight => "action_copy_right",
            ShortcutAction::ToggleFit => "action_toggle_fit",
            ShortcutAction::About => "action_about",
            ShortcutAction::ToggleFullscreen => "action_fullscreen",
            ShortcutAction::RotateCW => "action_rotate_cw",
            ShortcutAction::RotateCCW => "action_rotate_ccw",
            ShortcutAction::ShowEXIF => "action_show_exif",
            ShortcutAction::ToggleSlideshow => "action_toggle_slideshow",
        }
    }

    /// The action whose translation key is `key`, if any.
    pub fn from_i18n_key(key: &str) -> (r: Option<Self>)
        ensures
            r == action_for_key(key@),
    {
        let mut i: usize = 0;
        while i < 14
            invariant
                i <= 14,
                forall|j: int| 0 <= j < i ==> action_key(#[trigger] ALL_ACTIONS@[j])@ != key@,
            decreases 14 - i,
        {
            let a = ALL_ACTIONS[i];
            if str_eq(a.i18n_key(), key) {
                proof {
                    let c = choose|b: ShortcutAction| #[trigger] action_key(b)@ == key@;
                    action_keys_distinct(a, c);
                }
                return Some(a);
            }
            i += 1;
        }
        proof {
            assert forall|a: ShortcutAction| #[trigger] action_key(a)@ != key@ by {
                lemma_all_actions_listed(a);
            }
        }
        None
    }
}

/// Every action is in `ALL_ACTIONS`.
pub proof fn lemma_all_actions_listed(a: ShortcutAction)
    ensures
        exists|j: int| 0 <= j < 14 && ALL_ACTIONS@[j] == a,
{
    match a {
        ShortcutAction::OpenFolder => assert(ALL_ACTIONS@[0] == a),
        ShortcutAction::PrevImage => assert(ALL_ACTIONS@[1] == a),
        ShortcutAction::NextImage => assert(ALL_ACTIONS@[2] == a),
        ShortcutAction::DeleteImage => assert(ALL_ACTIONS@[3] == a),
        ShortcutAction::ToggleDual => assert(ALL_ACTIONS@[4] == a),
        ShortcutAction::CopyLeft => assert(ALL_ACTIONS@[5] == a),
        ShortcutAction::CopyRight => assert(ALL_ACTIONS@[6] == a),
        ShortcutAction::ToggleFit => assert(ALL_ACTIONS@[7] == a),
        ShortcutAction::About => assert(ALL_ACTIONS@[8] == a),
        ShortcutAction::ToggleFullscreen => assert(ALL_ACTIONS@[9] == a),
        ShortcutAction::RotateCW => assert(ALL_ACTIONS@[10] == a),
        ShortcutAction::RotateCCW => assert(ALL_ACTIONS@[11] == a),
        ShortcutAction::ShowEXIF => assert(ALL_ACTIONS@[12] == a),
        ShortcutAction::ToggleSlideshow => assert(ALL_ACTIONS@[13] == a),
    }
}

/// A key of the keyboard that a shortcut can use.
#[derive(Clone, Copy, Debug, PartialEq, Eq, Structural)]
pub enum Key {
    A,
    B,
    C,
    D,
    E,
    F,
    G,
    H,
    I,
    J,
    K,
    L,
    M,
    N,
    O,
    P,
    Q,
    R,
    S,
    T,
    U,
    V,
    W,
    X,
    Y,
    Z,
    Num0,
    Num1,
    Num2,
    Num3,
    Num4,
    Num5,
    Num6,
    Num7,
    Num8,
    Num9,
    F1,
    F2,
    F3,
    F4,
    F5,
    F6,
    F7,
    F8,
    F9,
    F10,
    F11,
    F12,
    ArrowLeft,
    ArrowRight,
    ArrowUp,
    ArrowDown,
    Escape,
    Delete,
    Space,
    Enter,
    Tab,
    Backspace,
    Home,
    End,
    PageUp,
    PageDown,
    Insert,
    Minus,
    Equals,
    Comma,
    Period,
    Semicolon,
    Quote,
    Backslash,
    Slash,
    /// Any other key of the keyboard.
    Other,
}

/// The label of a key shown to the user.
pub open spec fn key_label_of(key: Key) -> &'static str {
    match key {
        Key::A => "A",
        Key::B => "B",
        Key::C => "C",
        Key::D => "D",
        Key::E => "E",
        Key::F => "F",
        Key::G => "G",
        Key::H => "H",
        Key::I => "I",
        Key::J => "J",
        Key::K => "K",
        Key::L => "L",
        Key::M => "M",
        Key::N => "N",
        Key::O => "O",
        Key::P => "P",
        Key::Q => "Q",
        Key::R => "R",
        Key::S => "S",
        Key::T => "T",
        Key::U => "U",
        Key::V => "V",
        Key::W => "W",
        Key::X => "X",
        Key::Y => "Y",
        Key::Z => "Z",
        Key::Num0 => "0",
        Key::Num1 => "1",
        Key::Num2 => "2",
        Key::Num3 => "3",
        Key::Num4 => "4",
        Key::Num5 => "5",
        Key::Num6 => "6",
        Key::Num7 => "7",
        Key::Num8 => "8",
        Key::Num9 => "9",
        Key::F1 => "F1",
        Key::F2 => "F2",
        Key::F3 => "F3",
        Key::F4 => "F4",
        Key::F5 => "F5",
        Key::F6 => "F6",
        Key::F7 => "F7",
        Key::F8 => "F8",
        Key::F9 => "F9",
        Key::F10 => "F10",
        Key::F11 => "F11",
        Key::F12 => "F12",
        Key::ArrowLeft => "\u{2190}",
        Key::ArrowRight => "\u{2192}",
        Key::ArrowUp => "\u{2191}",
        Key::ArrowDown => "\u{2193}",
        Key::Escape => "Esc",
        Key::Delete => "Del",
        Key::Space => "Space",
        Key::Enter => "Enter",
        Key::Tab => "Tab",
        Key::Backspace => "Bksp",
        Key::Home => "Home",
        Key::End => "End",
        Key::PageUp => "PgUp",
        Key::PageDown => "PgDn",
        Key::Insert => "Ins",
        Key::Minus => "-",
        Key::Equals => "=",
        Key::Comma => ",",
        Key::Period => ".",
        Key::Semicolon => ";",
        Key::Quote => "'",
        Key::Backslash => "\\",
        Key::Slash => "/",
        Key::Other => "?",
    }
}

/// The label of a key shown to the user.
pub fn key_label(key: Key) -> (r: &'static str)
    ensures
        r == key_label_of(key),
{
    match key {
            Key::A => "A",
            Key::B => "B",
            Key::C => "C",
            Key::D => "D",
            Key::E => "E",
            Key::F => "F",
            Key::G => "G",
            Key::H => "H",
            Key::I => "I",
            Key::J => "J",
            Key::K => "K",
            Key::L => "L",
            Key::M => "M",
            Key::N => "N",
            Key::O => "O",
            Key::P => "P",
            Key::Q => "Q",
            Key::R => "R",
            Key::S => "S",
            Key::T => "T",
            Key::U => "U",
            Key::V => "V",
            Key::W => "W",
            Key::X => "X",
            Key::Y => "Y",
            Key::Z => "Z",
            Key::Num0 => "0",
            Key::Num1 => "1",
            Key::Num2 => "2",
            Key::Num3 => "3",
            Key::Num4 => "4",
            Key::Num5 => "5",
            Key::Num6 => "6",
            Key::Num7 => "7",
            Key::Num8 => "8",
            Key::Num9 => "9",
            Key::F1 => "F1",
            Key::F2 => "F2",
            Key::F3 => "F3",
            Key::F4 => "F4",
            Key::F5 => "F5",
            Key::F6 => "F6",
            Key::F7 => "F7",
            Key::F8 => "F8",
            Key::F9 => "F9",
            Key::F10 => "F10",
            Key::F11 => "F11",
            Key::F12 => "F12",
            Key::ArrowLeft => "\u{2190}",
            Key::ArrowRight => "\u{2192}",
            Key::ArrowUp => "\u{2191}",
            Key::ArrowDown => "\u{2193}",
            Key::Escape => "Esc",
            Key::Delete => "Del",
            Key::Space => "Space",
            Key::Enter => "Enter",
            Key::Tab => "Tab",
            Key::Backspace => "Bksp",
            Key::Home => "Home",
            Key::End => "End",
            Key::PageUp => "PgUp",
            Key::PageDown => "PgDn",
            Key::Insert => "Ins",
            Key::Minus => "-",
            Key::Equals => "=",
            Key::Comma => ",",
            Key::Period => ".",
            Key::Semicolon => ";",
            Key::Quote => "'",
            Key::Backslash => "\\",
            Key::Slash => "/",
            Key::Other => "?",
    }
}

/// The keys that a shortcut can be set to, in the order offered to the user.
pub const OFFERED_KEYS: [Key; 57] = [
    Key::A,
    Key::B,
    Key::C,
    Key::D,
    Key::E,
    Key::F,
    Key::G,
    Key::H,
    Key::I,
    Key::J,
    Key::K,
    Key::L,
    Key::M,
    Key::N,
    Key::O,
    Key::P,
    Key::Q,
    Key::R,
    Key::S,
    Key::T,
    Key::U,
    Key::V,
    Key::W,
    Key::X,
    Key::Y,
    Key::Z,
    Key::Num0,
    Key::Num1,
    Key::Num2,
    Key::Num3,
    Key::Num4,
    Key::Num5,
    Key::Num6,
    Key::Num7,
    Key::Num8,
    Key::Num9,
    Key::F1,
    Key::F2,
    Key::F3,
    Key::F4,
    Key::F5,
    Key::F6,
    Key::F7,
    Key::F8,
    Key::F9,
    Key::F10,
    Key::F11,
    Key::F12,
    Key::ArrowLeft,
    Key::ArrowRight,
    Key::ArrowUp,
    Key::ArrowDown,
    Key::Escape,
    Key::Delete,
    Key::Space,
    Key::Enter,
    Key::Tab,
];

/// The first key of `keys` whose label is `label`.
pub open spec fn key_for_label(keys: Seq<Key>, label: Seq<char>) -> Option<Key>
    decreases keys.len(),
{
    if keys.len() == 0 {
        None
    } else if key_label_of(keys[0])@ == label {
        Some(keys[0])
    } else {
        key_for_label(keys.drop_first(), label)
    }
}

/// A shortcut can be set to `key`.
pub open spec fn key_offered(key: Key) -> bool {
    OFFERED_KEYS@.contains(key)
}

/// The keys that a shortcut can be set to, with their labels, in the order
/// offered to the user.
pub fn all_key_options() -> (r: Vec<(&'static str, Key)>)
    ensures
        r@.len() == 57,
        forall|i: int| 0 <= i < 57 ==> #[trigger] r@[i] == (key_label_of(OFFERED_KEYS@[i]), OFFERED_KEYS@[i]),
{
    let mut r: Vec<(&'static str, Key)> = Vec::new();
    let mut i: usize = 0;
    while i < 57
        invariant
            i <= 57,
            r@.len() == i,
            forall|j: int| 0 <= j < i ==> #[trigger] r@[j] == (key_label_of(OFFERED_KEYS@[j]), OFFERED_KEYS@[j]),
        decreases 57 - i,
    {
        let key = OFFERED_KEYS[i];
        r.push((key_label(key), key));
        i += 1;
    }
    r
}

/// The key offered under `label`, if any.
pub fn key_from_label(label: &str) -> (r: Option<Key>)
    ensures
        r == key_for_label(OFFERED_KEYS@, label@),
{
    let mut i: usize = 0;
    assert(OFFERED_KEYS@.skip(0) =~= OFFERED_KEYS@);
    while i < 57
        invariant
            i <= 57,
            key_for_label(OFFERED_KEYS@, label@) == key_for_label(OFFERED_KEYS@.skip(i as int), label@),
        decreases 57 - i,
    {
        let key = OFFERED_KEYS[i];
        assert(OFFERED_KEYS@.skip(i as int)[0] == key);
        assert(OFFERED_KEYS@.skip(i as int).drop_first() =~= OFFERED_KEYS@.skip(i as int + 1));
        if str_eq(key_label(key), label) {
            return Some(key);
        }
        i += 1;
    }
    None
}

/// Different keys have different labels.
pub proof fn key_labels_distinct(a: Key, b: Key)
    ensures
        key_label_of(a)@ == key_label_of(b)@ ==> a == b,
{
    reveal_strlit("A");
    reveal_strlit("B");
    reveal_strlit("C");
    reveal_strlit("D");
    reveal_strlit("E");
    reveal_strlit("F");
    reveal_strlit("G");
    reveal_strlit("H");
    reveal_strlit("I");
    reveal_strlit("J");
    reveal_strlit("K");
    reveal_strlit("L");
    reveal_strlit("M");
    reveal_strlit("N");
    reveal_strlit("O");
    reveal_strlit("P");
    reveal_strlit("Q");
    reveal_strlit("R");
    reveal_strlit("S");
    reveal_strlit("T");
    reveal_strlit("U");
    reveal_strlit("V");
    reveal_strlit("W");
    reveal_strlit("X");
    reveal_strlit("Y");
    reveal_strlit("Z");
    reveal_strlit("0");
    reveal_strlit("1");
    reveal_strlit("2");
    reveal_strlit("3");
    reveal_strlit("4");
    reveal_strlit("5");
    reveal_strlit("6");
    reveal_strlit("7");
    reveal_strlit("8");
    reveal_strlit("9");
    reveal_strlit("F1");
    reveal_strlit("F2");
    reveal_strlit("F3");
    reveal_strlit("F4");
    reveal_strlit("F5");
    reveal_strlit("F6");
    reveal_strlit("F7");
    reveal_strlit("F8");
    reveal_strlit("F9");
    reveal_strlit("F10");
    reveal_strlit("F11");
    reveal_strlit("F12");
    reveal_strlit("\u{2190}");
    reveal_strlit("\u{2192}");
    reveal_strlit("\u{2191}");
    reveal_strlit("\u{2193}");
    reveal_strlit("Esc");
    reveal_strlit("Del");
    reveal_strlit("Space");
    reveal_strlit("Enter");
    reveal_strlit("Tab");
    reveal_strlit("Bksp");
    reveal_strlit("Home");
    reveal_strlit("End");
    reveal_strlit("PgUp");
    reveal_strlit("PgDn");
    reveal_strlit("Ins");
    reveal_strlit("-");
    reveal_strlit("=");
    reveal_strlit(",");
    reveal_strlit(".");
    reveal_strlit(";");
    reveal_strlit("'");
    reveal_strlit("\\");
    reveal_strlit("/");
    reveal_strlit("?");
    if key_label_of(a)@ == key_label_of(b)@ {
        // Length, first and last character tell every two labels apart.
        let la = key_label_of(a)@;
        let lb = key_label_of(b)@;
        assert(la.len() == lb.len());
        assert(la[0] == lb[0]);
        assert(la[la.len() - 1] == lb[lb.len() - 1]);
    }
}

proof fn lemma_label_found(keys: Seq<Key>, key: Key)
    requires
        keys.contains(key),
    ensures
        key_for_label(keys, key_label_of(key)@) == Some(key),
    decreases keys.len(),
{
    key_labels_distinct(keys[0], key);
    if keys[0] != key {
        let j = choose|j: int| 0 <= j < keys.len() && keys[j] == key;
        assert(keys.drop_first()[j - 1] == key);
        lemma_label_found(keys.drop_first(), key);
    }
}

/// The label of an offered key reads back as that key.
pub proof fn key_label_round_trip(key: Key)
    requires
        key_offered(key),
    ensures
        key_for_label(OFFERED_KEYS@, key_label_of(key)@) == Some(key),
{
    lemma_label_found(OFFERED_KEYS@, key);
}

/// The modifier keys held with a shortcut key.
#[derive(Clone, Copy, Debug, PartialEq, Eq, Structural)]
pub struct Modifiers {
    pub alt: bool,
    pub ctrl: bool,
    pub shift: bool,
    pub mac_cmd: bool,
    pub command: bool,
}

impl Modifiers {
    /// No modifier key.
    pub fn none() -> (r: Self)
        ensures
            r == no_modifiers(),
    {
        Modifiers { alt: false, ctrl: false, shift: false, mac_cmd: false, command: false }
    }
}

/// No modifier key.
pub open spec fn no_modifiers() -> Modifiers {
    Modifiers { alt: false, ctrl: false, shift: false, mac_cmd: false, command: false }
}

/// A key binding: an action, its key and its modifiers.
#[derive(Clone, Copy, Debug, PartialEq, Eq, Structural)]
pub struct ShortcutEntry {
    pub action: ShortcutAction,
    pub key: Key,
    pub modifiers: Modifiers,
}

impl ShortcutEntry {
    /// A binding of `action` to `key` with `modifiers`.
    pub fn new(action: ShortcutAction, key: Key, modifiers: Modifiers) -> (r: Self)
        ensures
            r == (ShortcutEntry { action, key, modifiers }),
    {
        ShortcutEntry { action, key, modifiers }
    }
}

/// The default bindings, each without modifiers.
pub const DEFAULT_SHORTCUTS: [(ShortcutAction, Key); 16] = [
    (ShortcutAction::OpenFolder, Key::O),
    (ShortcutAction::PrevImage, Key::ArrowLeft),
    (ShortcutAction::PrevImage, Key::ArrowUp),
    (ShortcutAction::NextImage, Key::ArrowRight),
    (ShortcutAction::NextImage, Key::ArrowDown),
    (ShortcutAction::DeleteImage, Key::Delete),
    (ShortcutAction::ToggleDual, Key::F2),
    (ShortcutAction::CopyLeft, Key::Num1),
    (ShortcutAction::CopyRight, Key::Num2),
    (ShortcutAction::ToggleFit, Key::V),
    (ShortcutAction::About, Key::F1),
    (ShortcutAction::ToggleFullscreen, Key::F11),
    (ShortcutAction::RotateCW, Key::R),
    (ShortcutAction::RotateCCW, Key::L),
    (ShortcutAction::ShowEXIF, Key::F3),
    (ShortcutAction::ToggleSlideshow, Key::F5),
];

/// The default bindings as entries.
pub open spec fn default_entries() -> Seq<ShortcutEntry> {
    Seq::new(
        16,
        |i: int|
            ShortcutEntry {
                action: DEFAULT_SHORTCUTS@[i].0,
                key: DEFAULT_SHORTCUTS@[i].1,
                modifiers: no_modifiers(),
            },
    )
}

/// All key bindings.
pub struct ShortcutConfig {
    pub entries: Vec<ShortcutEntry>,
}

impl ShortcutConfig {
    /// The default key bindings.
    pub fn defaults() -> (r: Self)
        ensures
            r.entries@ == default_entries(),
    {
        let mut entries: Vec<ShortcutEntry> = Vec::new();
        let mut i: usize = 0;
        while i < 16
            invariant
                i <= 16,
                entries@ == default_entries().take(i as int),
            decreases 16 - i,
        {
            let (action, key) = DEFAULT_SHORTCUTS[i];
            entries.push(ShortcutEntry::new(action, key, Modifiers::none()));
            i += 1;
            assert(entries@ =~= default_entries().take(i as int));
        }
        assert(default_entries().take(16) =~= default_entries());
        ShortcutConfig { entries }
    }
}

/// Two bindings conflict: the same key with the same modifiers.
pub open spec fn bindings_conflict(a: ShortcutEntry, b: ShortcutEntry) -> bool {
    a.key == b.key && a.modifiers == b.modifiers
}

/// How a conflict between the actions `a` and `b` is reported.
pub open spec fn conflict_text(lang: Language, a: ShortcutAction, b: ShortcutAction) -> Seq<char> {
    translation(lang, action_key(a))@ + " / "@ + translation(lang, action_key(b))@
}

/// The conflicts of the `i`-th binding with the bindings from the `j`-th on.
pub open spec fn conflicts_of(entries: Seq<ShortcutEntry>, lang: Language, i: int, j: int) -> Seq<Seq<char>>
    decreases entries.len() - j,
{
    if j >= entries.len() {
        Seq::empty()
    } else {
        (if bindings_conflict(entries[i], entries[j]) {
            seq![conflict_text(lang, entries[i].action, entries[j].action)]
        } else {
            Seq::empty()
        }) + conflicts_of(entries, lang, i, j + 1)
    }
}

/// Every conflict between two bindings from the `i`-th on: for each binding
/// in order, its conflicts with the bindings after it, in order.
pub open spec fn conflicts_from(entries: Seq<ShortcutEntry>, lang: Language, i: int) -> Seq<Seq<char>>
    decreases entries.len() - i,
{
    if i >= entries.len() {
        Seq::empty()
    } else {
        conflicts_of(entries, lang, i, i + 1) + conflicts_from(entries, lang, i + 1)
    }
}

/// Each conflict is reported when and only when two bindings conflict.
pub proof fn conflict_found_iff(entries: Seq<ShortcutEntry>, lang: Language, i: int)
    requires
        0 <= i,
    ensures
        conflicts_from(entries, lang, i).len() == 0 <==> forall|k: int, l: int|
            i <= k < l < entries.len() ==> !bindings_conflict(#[trigger] entries[k], #[trigger] entries[l]),
    decreases entries.len() - i,
{
    if i < entries.len() {
        conflict_found_iff(entries, lang, i + 1);
        row_empty_iff(entries, lang, i, i + 1);
        if conflicts_from(entries, lang, i).len() == 0 {
            assert forall|k: int, l: int|
                i <= k < l < entries.len() implies !bindings_conflict(#[trigger] entries[k], #[trigger] entries[l]) by {
                if k == i {
                    assert(i + 1 <= l);
                }
            }
        }
    }
}

/// The bindings conflict exactly when no two of them share a key and the
/// whole set of modifiers (Alt, Ctrl, Shift, Mac command and command):
/// bindings that differ in any one modifier, Shift included, never conflict.
pub proof fn conflicts_need_same_key_and_modifiers(entries: Seq<ShortcutEntry>, lang: Language)
    ensures
        conflicts_from(entries, lang, 0).len() == 0 <==> forall|k: int, l: int|
            0 <= k < l < entries.len() ==> !{
                let a = #[trigger] entries[k];
                let b = #[trigger] entries[l];
                &&& a.key == b.key
                &&& a.modifiers.alt == b.modifiers.alt
                &&& a.modifiers.ctrl == b.modifiers.ctrl
                &&& a.modifiers.shift == b.modifiers.shift
                &&& a.modifiers.mac_cmd == b.modifiers.mac_cmd
                &&& a.modifiers.command == b.modifiers.command
            },
{
    conflict_found_iff(entries, lang, 0);
    assert forall|a: ShortcutEntry, b: ShortcutEntry|
        #[trigger] bindings_conflict(a, b) == (a.key == b.key && a.modifiers.alt == b.modifiers.alt
            && a.modifiers.ctrl == b.modifiers.ctrl && a.modifiers.shift == b.modifiers.shift
            && a.modifiers.mac_cmd == b.modifiers.mac_cmd && a.modifiers.command
            == b.modifiers.command) by {}
}

proof fn row_empty_iff(entries: Seq<ShortcutEntry>, lang: Language, i: int, j: int)
    requires
        0 <= i < entries.len(),
        0 <= j,
    ensures
        conflicts_of(entries, lang, i, j).len() == 0 <==> forall|l: int|
            j <= l < entries.len() ==> !bindings_conflict(entries[i], #[trigger] entries[l]),
    decreases entries.len() - j,
{
    if j < entries.len() {
        row_empty_iff(entries, lang, i, j + 1);
    }
}

impl ShortcutConfig {
    /// The conflicting bindings, each pair once, as "first / second" with the
    /// actions' names in `i18n`'s language.
    pub fn conflicts(&self, i18n: &I18n) -> (r: Vec<String>)
        ensures
            r@.map_values(|s: String| s@) == conflicts_from(self.entries@, i18n.lang, 0),
    {
        let n = self.entries.len();
        let ghost all = conflicts_from(self.entries@, i18n.lang, 0);
        let mut out: Vec<String> = Vec::new();
        let mut i: usize = 0;
        while i < n
            invariant
                n == self.entries@.len(),
                i <= n,
                out@.map_values(|s: String| s@) + conflicts_from(self.entries@, i18n.lang, i as int) == all,
            decreases n - i,
        {
            let mut j: usize = i + 1;
            proof {
                assert(out@.map_values(|s: String| s@) + conflicts_of(self.entries@, i18n.lang, i as int, j as int)
                    + conflicts_from(self.entries@, i18n.lang, i as int + 1) =~= all);
            }
            while j < n
                invariant
                    n == self.entries@.len(),
                    i < n,
                    i + 1 <= j <= n,
                    out@.map_values(|s: String| s@) + conflicts_of(self.entries@, i18n.lang, i as int, j as int)
                        + conflicts_from(self.entries@, i18n.lang, i as int + 1) == all,
                decreases n - j,
            {
                let a = self.entries[i];
                let b = self.entries[j];
                let ghost before = out@.map_values(|s: String| s@);
                if a.key == b.key && a.modifiers == b.modifiers {
                    let mut text = String::from_str(i18n.t(a.action.i18n_key()));
                    text.append(" / ");
                    text.append(i18n.t(b.action.i18n_key()));
                    out.push(text);
                    proof {
                        assert(out@.map_values(|s: String| s@) =~= before.push(
                            conflict_text(i18n.lang, a.action, b.action),
                        ));
                    }
                }
                proof {
                    assert(out@.map_values(|s: String| s@) + conflicts_of(self.entries@, i18n.lang, i as int, j + 1)
                        + conflicts_from(self.entries@, i18n.lang, i as int + 1) =~= all);
                }
                j += 1;
            }
            proof {
                assert(out@.map_values(|s: String| s@) + conflicts_from(self.entries@, i18n.lang, i as int + 1) =~= all);
            }
            i += 1;
        }
        proof {
            assert(out@.map_values(|s: String| s@) =~= all);
        }
        out
    }
}

/// The message shown for conflicting bindings: the warning and the
/// conflicts joined with commas.
pub open spec fn conflict_message_text(lang: Language, conflicts: Seq<Seq<char>>) -> Seq<char> {
    translation(lang, "settings_conflict")@ + ": "@ + join(conflicts, ", "@)
}

/// The message shown for conflicting bindings.
pub fn conflict_message(i18n: &I18n, conflicts: &Vec<String>) -> (r: String)
    ensures
        r@ == conflict_message_text(i18n.lang, conflicts@.map_values(|s: String| s@)),
{
    let mut r = String::from_str(i18n.t("settings_conflict"));
    r.append(": ");
    let joined = crate::text::join_strings(conflicts, ", ");
    r.append(joined.as_str());
    proof {
        assert(crate::text::views(conflicts@) =~= conflicts@.map_values(|s: String| s@));
    }
    r
}

/// The modifiers that the settings' three check boxes give.
pub fn modifiers_from_flags(alt: bool, shift: bool, ctrl: bool) -> (r: Modifiers)
    ensures
        r == (Modifiers { alt, ctrl: false, shift, mac_cmd: false, command: ctrl }),
{
    Modifiers { alt, ctrl: false, shift, mac_cmd: false, command: ctrl }
}

} // verus!
