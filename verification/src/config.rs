//! Saved settings: the names under which the language, the theme and the sort
//! mode are written, how key bindings are saved and read back, and the
//! settings of the viewer as a whole.
use vstd::prelude::*;

use crate::app::JinnImageViewer;
use crate::i18n::Language;
use crate::shortcuts::{
    action_for_key, action_key, key_for_label, key_label, key_label_of, key_offered,
    key_from_label, key_label_round_trip, Modifiers, ShortcutAction, ShortcutConfig,
    ShortcutEntry, OFFERED_KEYS,
};
use crate::sorting::ImageSortMode;
use crate::text::str_eq;
use crate::theme::Theme;

verus! {

/// The sort mode of a configuration that does not name one.
pub fn default_image_sort_mode() -> (r: String)
    ensures
        r@ == "date"@,
{
    "date".to_string()
}

/// The name under which a language is saved.
pub open spec fn language_name_of(lang: Language) -> &'static str {
    match lang {
        Language::English => "en",
        Language::Chinese => "zh",
    }
}

/// The language saved under `name`: English for "en", Chinese for anything else.
pub open spec fn language_named(name: Seq<char>) -> Language {
    if name == "en"@ {
        Language::English
    } else {
        Language::Chinese
    }
}

/// The name under which a language is saved.
pub fn language_name(lang: Language) -> (r: &'static str)
    ensures
        r == language_name_of(lang),
{
    match lang {
        Language::English => "en",
        Language::Chinese => "zh",
    }
}

/// The language saved under `name`.
pub fn language_from_name(name: &str) -> (r: Language)
    ensures
        r == language_named(name@),
{
    if str_eq(name, "en") {
        Language::English
    } else {
        Language::Chinese
    }
}

/// A saved language reads back as itself.
pub proof fn language_name_round_trip(lang: Language)
    ensures
        language_named(language_name_of(lang)@) == lang,
{
    reveal_strlit("en");
    reveal_strlit("zh");
    let n = language_name_of(lang)@;
    if n == "en"@ {
        assert(n[0] == "en"@[0]);
    }
}

/// The name under which a theme is saved.
pub open spec fn theme_name_of(theme: Theme) -> &'static str {
    match theme {
        Theme::ClassicDark => "ClassicDark",
        Theme::DeepSpace => "DeepSpace",
        Theme::CyberPurple => "CyberPurple",
        Theme::AuroraGreen => "AuroraGreen",
        Theme::MinimalGray => "MinimalGray",
    }
}

/// The theme saved under `name`: the classic dark theme for an unknown name.
pub open spec fn theme_named(name: Seq<char>) -> Theme {
    if name == "DeepSpace"@ {
        Theme::DeepSpace
    } else if name == "CyberPurple"@ {
        Theme::CyberPurple
    } else if name == "AuroraGreen"@ {
        Theme::AuroraGreen
    } else if name == "MinimalGray"@ {
        Theme::MinimalGray
    } else {
        Theme::ClassicDark
    }
}

/// The name under which a theme is saved.
pub fn theme_name(theme: Theme) -> (r: &'static str)
    ensures
        r == theme_name_of(theme),
{
    match theme {
        Theme::ClassicDark => "ClassicDark",
        Theme::DeepSpace => "DeepSpace",
        Theme::CyberPurple => "CyberPurple",
        Theme::AuroraGreen => "AuroraGreen",
        Theme::MinimalGray => "MinimalGray",
    }
}

/// The theme saved under `name`.
pub fn theme_from_name(name: &str) -> (r: Theme)
    ensures
        r == theme_named(name@),
{
    if str_eq(name, "DeepSpace") {
        Theme::DeepSpace
    } else if str_eq(name, "CyberPurple") {
        Theme::CyberPurple
    } else if str_eq(name, "AuroraGreen") {
        Theme::AuroraGreen
    } else if str_eq(name, "MinimalGray") {
        Theme::MinimalGray
    } else {
        Theme::ClassicDark
    }
}

/// A saved theme reads back as itself.
pub proof fn theme_name_round_trip(theme: Theme)
    ensures
        theme_named(theme_name_of(theme)@) == theme,
{
    reveal_strlit("ClassicDark");
    reveal_strlit("DeepSpace");
    reveal_strlit("CyberPurple");
    reveal_strlit("AuroraGreen");
    reveal_strlit("MinimalGray");
    let n = theme_name_of(theme)@;
    // The first two letters tell the names apart.
    if n == "DeepSpace"@ {
        assert(n[0] == "DeepSpace"@[0]);
    }
    if n == "CyberPurple"@ {
        assert(n[0] == "CyberPurple"@[0] && n[1] == "CyberPurple"@[1]);
    }
    if n == "AuroraGreen"@ {
        assert(n[0] == "AuroraGreen"@[0]);
    }
    if n == "MinimalGray"@ {
        assert(n[0] == "MinimalGray"@[0]);
    }
}

/// The name under which a sort mode is saved.
pub open spec fn sort_mode_name_of(mode: ImageSortMode) -> &'static str {
    match mode {
        ImageSortMode::Size => "size",
        ImageSortMode::Date => "date",
        ImageSortMode::Name => "name",
    }
}

/// The sort mode saved under `name`: by date for an unknown name.
pub open spec fn sort_mode_named(name: Seq<char>) -> ImageSortMode {
    if name == "size"@ {
        ImageSortMode::Size
    } else if name == "name"@ {
        ImageSortMode::Name
    } else {
        ImageSortMode::Date
    }
}

/// The name under which a sort mode is saved.
pub fn sort_mode_name(mode: ImageSortMode) -> (r: &'static str)
    ensures
        r == sort_mode_name_of(mode),
{
    match mode {
        ImageSortMode::Size => "size",
        ImageSortMode::Date => "date",
        ImageSortMode::Name => "name",
    }
}

/// The sort mode saved under `name`.
pub fn sort_mode_from_name(name: &str) -> (r: ImageSortMode)
    ensures
        r == sort_mode_named(name@),
{
    if str_eq(name, "size") {
        ImageSortMode::Size
    } else if str_eq(name, "name") {
        ImageSortMode::Name
    } else {
        ImageSortMode::Date
    }
}

/// A saved sort mode reads back as itself.
pub proof fn sort_mode_name_round_trip(mode: ImageSortMode)
    ensures
        sort_mode_named(sort_mode_name_of(mode)@) == mode,
{
    reveal_strlit("size");
    reveal_strlit("date");
    reveal_strlit("name");
    let n = sort_mode_name_of(mode)@;
    if n == "size"@ {
        assert(n[0] == "size"@[0]);
    }
    if n == "name"@ {
        assert(n[0] == "name"@[0]);
    }
}

/// A key binding as it is saved: the action's translation key, the key's
/// label and three modifier flags.
pub struct ShortcutSetting {
    pub action: String,
    pub key: String,
    pub alt: bool,
    pub shift: bool,
    pub ctrl: bool,
}

/// How many items of `s` satisfy `p`.
pub open spec fn count_where<T>(s: Seq<T>, p: spec_fn(T) -> bool) -> nat
    decreases s.len(),
{
    if s.len() == 0 {
        0
    } else {
        count_where(s.drop_last(), p) + if p(s.last()) {
            1nat
        } else {
            0nat
        }
    }
}

proof fn lemma_count_step<T>(s: Seq<T>, p: spec_fn(T) -> bool, i: int)
    requires
        0 <= i < s.len(),
    ensures
        count_where(s.take(i + 1), p) == count_where(s.take(i), p) + if p(s[i]) {
            1nat
        } else {
            0nat
        },
{
    assert(s.take(i + 1).drop_last() =~= s.take(i));
}

proof fn lemma_count_monotone<T>(s: Seq<T>, p: spec_fn(T) -> bool, i: int, j: int)
    requires
        0 <= i <= j <= s.len(),
    ensures
        count_where(s.take(i), p) <= count_where(s.take(j), p),
    decreases j - i,
{
    if i < j {
        lemma_count_monotone(s, p, i, j - 1);
        lemma_count_step(s, p, j - 1);
    }
}

/// Two items that satisfy `p` and have as many such items before them are
/// the same item.
proof fn lemma_count_rank_unique<T>(s: Seq<T>, p: spec_fn(T) -> bool, i: int, j: int)
    requires
        0 <= i < s.len(),
        0 <= j < s.len(),
        p(s[i]),
        p(s[j]),
        count_where(s.take(i), p) == count_where(s.take(j), p),
    ensures
        i == j,
{
    if i < j {
        lemma_count_step(s, p, i);
        lemma_count_monotone(s, p, i + 1, j);
    } else if j < i {
        lemma_count_step(s, p, j);
        lemma_count_monotone(s, p, j + 1, i);
    }
}

/// Counting by two tests that agree item by item gives the same number.
proof fn lemma_count_agree<T, U>(
    s: Seq<T>,
    p: spec_fn(T) -> bool,
    t: Seq<U>,
    q: spec_fn(U) -> bool,
    i: int,
)
    requires
        0 <= i <= s.len(),
        i <= t.len(),
        forall|j: int| 0 <= j < i ==> p(#[trigger] s[j]) == q(t[j]),
    ensures
        count_where(s.take(i), p) == count_where(t.take(i), q),
    decreases i,
{
    if i > 0 {
        lemma_count_agree(s, p, t, q, i - 1);
        lemma_count_step(s, p, i - 1);
        lemma_count_step(t, q, i - 1);
    }
}

/// The saved binding names `action` and a key that can be read back.
pub open spec fn setting_binds(s: ShortcutSetting, action: ShortcutAction) -> bool {
    &&& action_for_key(s.action@) == Some(action)
    &&& key_for_label(OFFERED_KEYS@, s.key@) is Some
}

/// The test "binds `action`" on saved bindings.
pub open spec fn binds(action: ShortcutAction) -> spec_fn(ShortcutSetting) -> bool {
    |s: ShortcutSetting| setting_binds(s, action)
}

/// The test "is for `action`" on entries.
pub open spec fn has_action(action: ShortcutAction) -> spec_fn(ShortcutEntry) -> bool {
    |e: ShortcutEntry| e.action == action
}

/// Among the first `k` saved bindings, the one that binds `action` with `n`
/// bindings of that action before it (there is at most one), if any.
pub open spec fn nth_setting(
    saved: Seq<ShortcutSetting>,
    k: int,
    action: ShortcutAction,
    n: nat,
) -> Option<ShortcutSetting>
    decreases k,
{
    if k <= 0 {
        None
    } else if setting_binds(saved[k - 1], action) && count_where(saved.take(k - 1), binds(action))
        == n {
        Some(saved[k - 1])
    } else {
        nth_setting(saved, k - 1, action, n)
    }
}

/// The modifiers that a saved binding restores.
pub open spec fn setting_modifiers(s: ShortcutSetting) -> Modifiers {
    Modifiers { alt: s.alt, ctrl: false, shift: s.shift, mac_cmd: false, command: s.ctrl }
}

/// An entry after the saved binding `s`, if any, was applied to it.
pub open spec fn entry_after(e: ShortcutEntry, s: Option<ShortcutSetting>) -> ShortcutEntry {
    match s {
        Some(s) => ShortcutEntry {
            action: e.action,
            key: key_for_label(OFFERED_KEYS@, s.key@)->0,
            modifiers: setting_modifiers(s),
        },
        None => e,
    }
}

/// How many entries before the `i`-th are for the same action.
pub open spec fn entry_rank(entries: Seq<ShortcutEntry>, i: int) -> nat {
    count_where(entries.take(i), has_action(entries[i].action))
}

/// The entries after the first `k` saved bindings were applied: the `n`-th
/// saved binding of an action sets the `n`-th entry of that action.
pub open spec fn bindings_after(
    entries: Seq<ShortcutEntry>,
    saved: Seq<ShortcutSetting>,
    k: int,
) -> Seq<ShortcutEntry> {
    Seq::new(
        entries.len(),
        |i: int| entry_after(entries[i], nth_setting(saved, k, entries[i].action, entry_rank(entries, i))),
    )
}

/// `s` is how the entry `e` is saved.
pub open spec fn setting_saves(s: ShortcutSetting, e: ShortcutEntry) -> bool {
    &&& s.action@ == action_key(e.action)@
    &&& s.key@ == key_label_of(e.key)@
    &&& s.alt == e.modifiers.alt
    &&& s.shift == e.modifiers.shift
    &&& s.ctrl == e.modifiers.command
}

/// The slot of an action among the fourteen.
pub open spec fn action_slot(a: ShortcutAction) -> int {
    match a {
        ShortcutAction::OpenFolder => 0,
        ShortcutAction::PrevImage => 1,
        ShortcutAction::NextImage => 2,
        ShortcutAction::DeleteImage => 3,
        ShortcutAction::ToggleDual => 4,
        ShortcutAction::CopyLeft => 5,
        ShortcutAction::CopyRight => 6,
        ShortcutAction::ToggleFit => 7,
        ShortcutAction::About => 8,
        ShortcutAction::ToggleFullscreen => 9,
        ShortcutAction::RotateCW => 10,
        ShortcutAction::RotateCCW => 11,
        ShortcutAction::ShowEXIF => 12,
        ShortcutAction::ToggleSlideshow => 13,
    }
}

fn slot_of(a: ShortcutAction) -> (r: usize)
    ensures
        r == action_slot(a),
        r < 14,
{
    match a {
        ShortcutAction::OpenFolder => 0,
        ShortcutAction::PrevImage => 1,
        ShortcutAction::NextImage => 2,
        ShortcutAction::DeleteImage => 3,
        ShortcutAction::ToggleDual => 4,
        ShortcutAction::CopyLeft => 5,
        ShortcutAction::CopyRight => 6,
        ShortcutAction::ToggleFit => 7,
        ShortcutAction::About => 8,
        ShortcutAction::ToggleFullscreen => 9,
        ShortcutAction::RotateCW => 10,
        ShortcutAction::RotateCCW => 11,
        ShortcutAction::ShowEXIF => 12,
        ShortcutAction::ToggleSlideshow => 13,
    }
}

/// The position of the entry for `action` with `n` entries of that action
/// before it, if there is one.
fn nth_entry_position(entries: &Vec<ShortcutEntry>, action: ShortcutAction, n: usize) -> (r: Option<
    usize,
>)
    ensures
        match r {
            Some(p) => {
                &&& p < entries@.len()
                &&& entries@[p as int].action == action
                &&& count_where(entries@.take(p as int), has_action(action)) == n
            },
            None => forall|p: int|
                0 <= p < entries@.len() && (#[trigger] entries@[p]).action == action
                    ==> count_where(entries@.take(p), has_action(action)) != n,
        },
{
    let mut seen: usize = 0;
    let mut i: usize = 0;
    while i < entries.len()
        invariant
            i <= entries@.len(),
            seen == count_where(entries@.take(i as int), has_action(action)),
            seen <= n,
            forall|p: int|
                0 <= p < i && (#[trigger] entries@[p]).action == action ==> count_where(
                    entries@.take(p),
                    has_action(action),
                ) < seen,
        decreases entries@.len() - i,
    {
        proof {
            lemma_count_step(entries@, has_action(action), i as int);
        }
        if entries[i].action == action {
            if seen == n {
                return Some(i);
            }
            seen += 1;
        }
        i += 1;
    }
    None
}

/// The action that a saved binding reads back as is the action it was saved from.
pub proof fn action_key_round_trip(a: ShortcutAction)
    ensures
        action_for_key(action_key(a)@) == Some(a),
{
    assert(action_key(a)@ == action_key(a)@);
    let c = choose|b: ShortcutAction| #[trigger] action_key(b)@ == action_key(a)@;
    crate::shortcuts::action_keys_distinct(a, c);
}

impl ShortcutConfig {
    /// Applies saved bindings: the `n`-th saved binding of an action (counting
    /// only those whose action and key can be read back) sets the key and
    /// modifiers of the `n`-th entry of that action; saved bindings that
    /// cannot be read back, or that have no such entry, change nothing.
    pub fn apply_settings(&mut self, saved: &Vec<ShortcutSetting>)
        ensures
            final(self).entries@ == bindings_after(old(self).entries@, saved@, saved@.len() as int),
    {
        let ghost orig = self.entries@;
        let mut counts: Vec<usize> = Vec::new();
        while counts.len() < 14
            invariant
                counts@.len() <= 14,
                forall|j: int| 0 <= j < counts@.len() ==> counts@[j] == 0,
            decreases 14 - counts@.len(),
        {
            counts.push(0);
        }
        let mut k: usize = 0;
        while k < saved.len()
            invariant
                k <= saved@.len(),
                counts@.len() == 14,
                forall|b: ShortcutAction|
                    counts@[#[trigger] action_slot(b)] == count_where(saved@.take(k as int), binds(b)),
                self.entries@.len() == orig.len(),
                forall|i: int|
                    0 <= i < orig.len() ==> #[trigger] self.entries@[i] == entry_after(
                        orig[i],
                        nth_setting(saved@, k as int, orig[i].action, entry_rank(orig, i)),
                    ),
            decreases saved@.len() - k,
        {
            let ghost before = self.entries@;
            proof {
                assert forall|b: ShortcutAction|
                    count_where(saved@.take(k as int + 1), #[trigger] binds(b)) == count_where(
                        saved@.take(k as int),
                        binds(b),
                    ) + if setting_binds(saved@[k as int], b) {
                        1nat
                    } else {
                        0nat
                    } by {
                    lemma_count_step(saved@, binds(b), k as int);
                }
                assert forall|i: int| 0 <= i < orig.len() implies #[trigger] before[i].action
                    == orig[i].action by {}
            }
            let s = &saved[k];
            let parsed_action = ShortcutAction::from_i18n_key(s.action.as_str());
            let parsed_key = key_from_label(s.key.as_str());
            match (parsed_action, parsed_key) {
                (Some(a), Some(key)) => {
                    let slot = slot_of(a);
                    let n = counts[slot];
                    proof {
                        assert(n == count_where(saved@.take(k as int), binds(a)));
                        assert forall|p: int| 0 <= p <= before.len() implies count_where(
                            #[trigger] before.take(p),
                            has_action(a),
                        ) == count_where(orig.take(p), has_action(a)) by {
                            lemma_count_agree(before, has_action(a), orig, has_action(a), p);
                        }
                    }
                    let pos = nth_entry_position(&self.entries, a, n);
                    match pos {
                        Some(p) => {
                            let m = Modifiers {
                                alt: s.alt,
                                ctrl: false,
                                shift: s.shift,
                                mac_cmd: false,
                                command: s.ctrl,
                            };
                            self.entries.set(p, ShortcutEntry { action: a, key, modifiers: m });
                            proof {
                                assert forall|i: int|
                                    0 <= i < orig.len() && orig[i].action == a && entry_rank(orig, i)
                                        == n implies i == p by {
                                    lemma_count_rank_unique(orig, has_action(a), i, p as int);
                                }
                            }
                        },
                        None => {},
                    }
                    proof {
                        assert(count_where(saved@.take(k as int), binds(a)) < usize::MAX) by {
                            count_bound(saved@.take(k as int), binds(a));
                        }
                    }
                    counts.set(slot, n + 1);
                },
                _ => {},
            }
            k += 1;
        }
        proof {
            assert(self.entries@ =~= bindings_after(orig, saved@, saved@.len() as int));
        }
    }

    /// The bindings as they are saved, entry by entry.
    pub fn to_settings(&self) -> (r: Vec<ShortcutSetting>)
        ensures
            r@.len() == self.entries@.len(),
            forall|i: int| 0 <= i < r@.len() ==> setting_saves(#[trigger] r@[i], self.entries@[i]),
    {
        let mut r: Vec<ShortcutSetting> = Vec::new();
        let mut i: usize = 0;
        while i < self.entries.len()
            invariant
                i <= self.entries@.len(),
                r@.len() == i,
                forall|j: int| 0 <= j < i ==> setting_saves(#[trigger] r@[j], self.entries@[j]),
            decreases self.entries@.len() - i,
        {
            let e = self.entries[i];
            r.push(
                ShortcutSetting {
                    action: e.action.i18n_key().to_string(),
                    key: key_label(e.key).to_string(),
                    alt: e.modifiers.alt,
                    shift: e.modifiers.shift,
                    ctrl: e.modifiers.command,
                },
            );
            i += 1;
        }
        r
    }
}

proof fn count_bound<T>(s: Seq<T>, p: spec_fn(T) -> bool)
    ensures
        count_where(s, p) <= s.len(),
    decreases s.len(),
{
    if s.len() > 0 {
        count_bound(s.drop_last(), p);
    }
}

proof fn lemma_nth_setting_found(
    saved: Seq<ShortcutSetting>,
    k: int,
    j: int,
    action: ShortcutAction,
    n: nat,
)
    requires
        0 <= j < k <= saved.len(),
        setting_binds(saved[j], action),
        count_where(saved.take(j), binds(action)) == n,
    ensures
        nth_setting(saved, k, action, n) == Some(saved[j]),
    decreases k,
{
    if k - 1 != j {
        if setting_binds(saved[k - 1], action) && count_where(saved.take(k - 1), binds(action))
            == n {
            lemma_count_rank_unique(saved, binds(action), j, k - 1);
        }
        lemma_nth_setting_found(saved, k - 1, j, action, n);
    }
}

/// Saving the bindings of `entries` and applying what was saved to bindings
/// `into` of the same actions, in the same order, gives the bindings of
/// `entries`, when every key is one that a shortcut can be set to and no
/// binding uses the control or Mac command flag apart from the command
/// modifier.
pub proof fn bindings_read_back_into(
    into: Seq<ShortcutEntry>,
    entries: Seq<ShortcutEntry>,
    saved: Seq<ShortcutSetting>,
)
    requires
        into.len() == entries.len(),
        forall|i: int| 0 <= i < entries.len() ==> #[trigger] into[i].action == entries[i].action,
        saved.len() == entries.len(),
        forall|i: int| 0 <= i < entries.len() ==> setting_saves(#[trigger] saved[i], entries[i]),
        forall|i: int|
            0 <= i < entries.len() ==> key_offered(#[trigger] entries[i].key)
                && !entries[i].modifiers.ctrl && !entries[i].modifiers.mac_cmd,
    ensures
        bindings_after(into, saved, saved.len() as int) == entries,
{
    assert forall|j: int| 0 <= j < entries.len() implies #[trigger] setting_binds(
        saved[j],
        entries[j].action,
    ) by {
        action_key_round_trip(entries[j].action);
        key_label_round_trip(entries[j].key);
    }
    assert forall|i: int| 0 <= i < entries.len() implies #[trigger] bindings_after(
        into,
        saved,
        saved.len() as int,
    )[i] == entries[i] by {
        let a = entries[i].action;
        assert(into[i].action == a);
        assert forall|j: int| 0 <= j < i implies binds(a)(#[trigger] saved[j]) == has_action(a)(
            entries[j],
        ) by {
            assert(setting_binds(saved[j], entries[j].action));
        }
        assert forall|j: int| 0 <= j < i implies has_action(a)(#[trigger] into[j]) == has_action(a)(
            entries[j],
        ) by {
            assert(into[j].action == entries[j].action);
        }
        lemma_count_agree(saved, binds(a), entries, has_action(a), i);
        lemma_count_agree(into, has_action(a), entries, has_action(a), i);
        assert(entry_rank(into, i) == entry_rank(entries, i));
        assert(setting_binds(saved[i], a));
        lemma_nth_setting_found(saved, saved.len() as int, i, a, entry_rank(entries, i));
        key_label_round_trip(entries[i].key);
    }
    assert(bindings_after(into, saved, saved.len() as int) =~= entries);
}

/// Saving the bindings and applying what was saved gives the same bindings,
/// when every key is one that a shortcut can be set to and no binding uses
/// the control or Mac command flag apart from the command modifier.
pub proof fn saved_bindings_read_back(entries: Seq<ShortcutEntry>, saved: Seq<ShortcutSetting>)
    requires
        saved.len() == entries.len(),
        forall|i: int| 0 <= i < entries.len() ==> setting_saves(#[trigger] saved[i], entries[i]),
        forall|i: int|
            0 <= i < entries.len() ==> key_offered(#[trigger] entries[i].key)
                && !entries[i].modifiers.ctrl && !entries[i].modifiers.mac_cmd,
    ensures
        bindings_after(entries, saved, saved.len() as int) == entries,
{
    bindings_read_back_into(entries, entries, saved);
}

/// The settings kept from one run to the next, but for the zoom step and the
/// slide show interval (floating point, kept by the window) and the last
/// folder.
pub struct SavedSettings {
    pub language: String,
    pub theme: String,
    pub show_thumbnails: bool,
    pub confirm_before_delete: bool,
    pub fit_to_window: bool,
    pub two_column: bool,
    pub fullscreen: bool,
    pub image_sort_mode: String,
    pub image_sort_reversed: bool,
    pub shortcuts: Vec<ShortcutSetting>,
}

/// `s` is how the settings of `v` are saved.
pub open spec fn settings_saved_from(v: JinnImageViewer, s: SavedSettings) -> bool {
    &&& s.language@ == language_name_of(v.i18n.lang)@
    &&& s.theme@ == theme_name_of(v.current_theme)@
    &&& s.show_thumbnails == v.show_thumbnails
    &&& s.confirm_before_delete == v.confirm_before_delete
    &&& s.fit_to_window == v.fit_to_window
    &&& s.two_column == v.two_column
    &&& s.fullscreen == v.fullscreen
    &&& s.image_sort_mode@ == sort_mode_name_of(v.image_sort_mode)@
    &&& s.image_sort_reversed == v.image_sort_reversed
    &&& s.shortcuts@.len() == v.shortcuts.entries@.len()
    &&& forall|i: int|
        0 <= i < s.shortcuts@.len() ==> setting_saves(
            #[trigger] s.shortcuts@[i],
            v.shortcuts.entries@[i],
        )
}

/// `after` is `before` with the saved settings `s` applied: the names read
/// back, the switches taken over and the bindings applied; the images, the
/// position, the status line and the windows stay.
pub open spec fn settings_applied(before: JinnImageViewer, s: SavedSettings, after: JinnImageViewer) -> bool {
    &&& after.i18n.lang == language_named(s.language@)
    &&& after.current_theme == theme_named(s.theme@)
    &&& after.show_thumbnails == s.show_thumbnails
    &&& after.confirm_before_delete == s.confirm_before_delete
    &&& after.fit_to_window == s.fit_to_window
    &&& after.two_column == s.two_column
    &&& after.fullscreen == s.fullscreen
    &&& after.image_sort_mode == sort_mode_named(s.image_sort_mode@)
    &&& after.image_sort_reversed == s.image_sort_reversed
    &&& after.shortcuts.entries@ == bindings_after(
        before.shortcuts.entries@,
        s.shortcuts@,
        s.shortcuts@.len() as int,
    )
    &&& after.images@ == before.images@
    &&& after.current_index == before.current_index
    &&& after.at_end_page == before.at_end_page
    &&& after.status_message@ == before.status_message@
    &&& after.status_timed == before.status_timed
    &&& after.show_about_window == before.show_about_window
    &&& after.show_delete_confirm_dialog == before.show_delete_confirm_dialog
    &&& after.show_image_info_window == before.show_image_info_window
    &&& after.slideshow_active == before.slideshow_active
}

impl JinnImageViewer {
    /// The settings as they are saved.
    pub fn saved_settings(&self) -> (r: SavedSettings)
        ensures
            settings_saved_from(*self, r),
    {
        SavedSettings {
            language: String::from_str(language_name(self.i18n.lang)),
            theme: String::from_str(theme_name(self.current_theme)),
            show_thumbnails: self.show_thumbnails,
            confirm_before_delete: self.confirm_before_delete,
            fit_to_window: self.fit_to_window,
            two_column: self.two_column,
            fullscreen: self.fullscreen,
            image_sort_mode: String::from_str(sort_mode_name(self.image_sort_mode)),
            image_sort_reversed: self.image_sort_reversed,
            shortcuts: self.shortcuts.to_settings(),
        }
    }

    /// Applies saved settings: names that cannot be read back give the
    /// defaults, and the bindings are applied as `apply_settings` says.
    pub fn apply_saved_settings(&mut self, s: &SavedSettings)
        ensures
            settings_applied(*old(self), *s, *final(self)),
    {
        self.i18n.lang = language_from_name(s.language.as_str());
        self.current_theme = theme_from_name(s.theme.as_str());
        self.show_thumbnails = s.show_thumbnails;
        self.confirm_before_delete = s.confirm_before_delete;
        self.fit_to_window = s.fit_to_window;
        self.two_column = s.two_column;
        self.fullscreen = s.fullscreen;
        self.image_sort_mode = sort_mode_from_name(s.image_sort_mode.as_str());
        self.image_sort_reversed = s.image_sort_reversed;
        self.shortcuts.apply_settings(&s.shortcuts);
    }
}

/// Settings saved from `a` and applied to a viewer `b` whose bindings are for
/// the same actions in the same order (a fresh viewer, say) give back the
/// settings of `a`: its language, theme, switches, sort order and bindings,
/// when every key of `a` is one that a shortcut can be set to and no binding
/// uses the control or Mac command flag apart from the command modifier.
pub proof fn settings_read_back(a: JinnImageViewer, s: SavedSettings, b: JinnImageViewer, c: JinnImageViewer)
    requires
        settings_saved_from(a, s),
        settings_applied(b, s, c),
        b.shortcuts.entries@.len() == a.shortcuts.entries@.len(),
        forall|i: int|
            0 <= i < a.shortcuts.entries@.len() ==> #[trigger] b.shortcuts.entries@[i].action
                == a.shortcuts.entries@[i].action,
        forall|i: int|
            0 <= i < a.shortcuts.entries@.len() ==> key_offered(
                #[trigger] a.shortcuts.entries@[i].key,
            ) && !a.shortcuts.entries@[i].modifiers.ctrl
                && !a.shortcuts.entries@[i].modifiers.mac_cmd,
    ensures
        c.i18n.lang == a.i18n.lang,
        c.current_theme == a.current_theme,
        c.show_thumbnails == a.show_thumbnails,
        c.confirm_before_delete == a.confirm_before_delete,
        c.fit_to_window == a.fit_to_window,
        c.two_column == a.two_column,
        c.fullscreen == a.fullscreen,
        c.image_sort_mode == a.image_sort_mode,
        c.image_sort_reversed == a.image_sort_reversed,
        c.shortcuts.entries@ == a.shortcuts.entries@,
{
    language_name_round_trip(a.i18n.lang);
    theme_name_round_trip(a.current_theme);
    sort_mode_name_round_trip(a.image_sort_mode);
    bindings_read_back_into(b.shortcuts.entries@, a.shortcuts.entries@, s.shortcuts@);
}

} // verus!
