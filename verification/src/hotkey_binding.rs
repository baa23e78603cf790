//! The two hotkeys that the user can bind: their shape, which ones are
//! accepted, how they are shown, and what they are registered as.

use vstd::prelude::*;

use crate::order::{insert_ranked, is_ranking, rank, stable_sort, Ranked};
use crate::order::{stable_sort_in_rank_order, stable_sort_keeps_items};
use crate::text::{chars_of, decimal, decimal_digits, decimal_round_trip, decimal_text, digit};
use crate::text::{digit_char, only_blank_text_trims_to_nothing, splitting_undoes_joining};
use crate::text::{join, joined, parse_decimal, same_text, strip_prefix, trim, trimmed, uppercase};
use crate::text::{pieces, views, white_space};

verus! {

/// The fewest modifiers of a dictation binding without a key: a single common
/// modifier would start dictation by accident.
pub const MIN_DICTATION_MODIFIERS: usize = 2;

/// A modifier key.
#[derive(Debug, Clone, Copy, PartialEq, Eq, Structural)]
pub enum HotkeyModifier {
    Control,
    Option,
    Command,
    Shift,
    Fn,
}

/// Event flag of the Shift key.
pub const CG_FLAG_SHIFT: u64 = 0x0002_0000;

/// Event flag of the Control key.
pub const CG_FLAG_CONTROL: u64 = 0x0004_0000;

/// Event flag of the Option key.
pub const CG_FLAG_ALTERNATE: u64 = 0x0008_0000;

/// Event flag of the Command key.
pub const CG_FLAG_COMMAND: u64 = 0x0010_0000;

/// Event flag of the Fn key.
pub const CG_FLAG_SECONDARY_FN: u64 = 0x0080_0000;

impl HotkeyModifier {
    /// The bit of this modifier among the flags of a keyboard event.
    pub open spec fn cg_flag(self) -> u64 {
        match self {
            HotkeyModifier::Control => CG_FLAG_CONTROL,
            HotkeyModifier::Option => CG_FLAG_ALTERNATE,
            HotkeyModifier::Command => CG_FLAG_COMMAND,
            HotkeyModifier::Shift => CG_FLAG_SHIFT,
            HotkeyModifier::Fn => CG_FLAG_SECONDARY_FN,
        }
    }

    /// The bit of this modifier among the flags of a keyboard event.
    pub fn to_cg_flag(self) -> (flag: u64)
        ensures
            flag == self.cg_flag(),
    {
        match self {
            HotkeyModifier::Control => CG_FLAG_CONTROL,
            HotkeyModifier::Option => CG_FLAG_ALTERNATE,
            HotkeyModifier::Command => CG_FLAG_COMMAND,
            HotkeyModifier::Shift => CG_FLAG_SHIFT,
            HotkeyModifier::Fn => CG_FLAG_SECONDARY_FN,
        }
    }

    /// The glyph that is shown for this modifier.
    pub open spec fn symbol(self) -> Seq<char> {
        match self {
            HotkeyModifier::Control => "⌃"@,
            HotkeyModifier::Option => "⌥"@,
            HotkeyModifier::Command => "⌘"@,
            HotkeyModifier::Shift => "⇧"@,
            HotkeyModifier::Fn => "fn"@,
        }
    }

    /// The glyph that is shown for this modifier.
    pub fn to_symbol(self) -> (symbol: &'static str)
        ensures
            symbol@ == self.symbol(),
    {
        match self {
            HotkeyModifier::Control => "⌃",
            HotkeyModifier::Option => "⌥",
            HotkeyModifier::Command => "⌘",
            HotkeyModifier::Shift => "⇧",
            HotkeyModifier::Fn => "fn",
        }
    }

    /// The name of this modifier in an accelerator.
    pub open spec fn token(self) -> Seq<char> {
        match self {
            HotkeyModifier::Control => "Control"@,
            HotkeyModifier::Option => "Option"@,
            HotkeyModifier::Command => "Command"@,
            HotkeyModifier::Shift => "Shift"@,
            HotkeyModifier::Fn => "Fn"@,
        }
    }

    /// The name of this modifier in an accelerator. No shortcut parser knows
    /// `Fn`, so a shortcut with it fails to register and binds nothing else.
    pub fn to_accelerator_token(self) -> (token: &'static str)
        ensures
            token@ == self.token(),
    {
        match self {
            HotkeyModifier::Control => "Control",
            HotkeyModifier::Option => "Option",
            HotkeyModifier::Command => "Command",
            HotkeyModifier::Shift => "Shift",
            HotkeyModifier::Fn => "Fn",
        }
    }

    /// The place of this modifier in a shortcut as it is written: fn, Control,
    /// Option, Shift, Command.
    pub open spec fn place(self) -> int {
        match self {
            HotkeyModifier::Fn => 0,
            HotkeyModifier::Control => 1,
            HotkeyModifier::Option => 2,
            HotkeyModifier::Shift => 3,
            HotkeyModifier::Command => 4,
        }
    }

    /// The place of this modifier in a shortcut as it is written.
    pub fn order_rank(self) -> (place: u8)
        ensures
            place == self.place(),
    {
        match self {
            HotkeyModifier::Fn => 0,
            HotkeyModifier::Control => 1,
            HotkeyModifier::Option => 2,
            HotkeyModifier::Shift => 3,
            HotkeyModifier::Command => 4,
        }
    }
}

impl Ranked for HotkeyModifier {
    open spec fn outranks(self, other: Self) -> bool {
        self.place() < other.place()
    }

    fn goes_before(&self, other: &Self) -> (result: bool) {
        self.order_rank() < other.order_rank()
    }
}

/// The modifiers in the order in which they are written.
pub open spec fn canonical(mods: Seq<HotkeyModifier>) -> Seq<HotkeyModifier> {
    stable_sort(mods, rank::<HotkeyModifier>())
}

/// The modifiers in the order in which they are written.
pub fn ordered_mods(mods: &Vec<HotkeyModifier>) -> (ordered: Vec<HotkeyModifier>)
    ensures
        ordered@ == canonical(mods@),
{
    let mut ordered: Vec<HotkeyModifier> = Vec::new();
    let mut i: usize = 0;
    while i < mods.len()
        invariant
            0 <= i <= mods@.len(),
            ordered@ == canonical(mods@.take(i as int)),
        decreases mods@.len() - i,
    {
        proof {
            assert(mods@.take(i + 1).drop_last() =~= mods@.take(i as int));
        }
        insert_ranked(&mut ordered, mods[i]);
        i += 1;
    }
    proof {
        assert(mods@.take(i as int) =~= mods@);
    }
    ordered
}

/// The order in which the modifiers were pressed does not matter to how they
/// are written.
pub proof fn canonical_ignores_press_order(a: Seq<HotkeyModifier>, b: Seq<HotkeyModifier>)
    requires
        a.to_multiset() == b.to_multiset(),
    ensures
        canonical(a) == canonical(b),
{
    let outranks = rank::<HotkeyModifier>();
    let leq = |x: HotkeyModifier, y: HotkeyModifier| x.place() <= y.place();
    assert(is_ranking(outranks));
    stable_sort_keeps_items(a, outranks);
    stable_sort_keeps_items(b, outranks);
    stable_sort_in_rank_order(a, outranks);
    stable_sort_in_rank_order(b, outranks);
    assert(vstd::relations::sorted_by(canonical(a), leq)) by {
        assert forall|i: int, j: int| 0 <= i < j < canonical(a).len() implies #[trigger] leq(
            canonical(a)[i],
            canonical(a)[j],
        ) by {
            assert(!outranks(canonical(a)[j], canonical(a)[i]));
        }
    }
    assert(vstd::relations::sorted_by(canonical(b), leq)) by {
        assert forall|i: int, j: int| 0 <= i < j < canonical(b).len() implies #[trigger] leq(
            canonical(b)[i],
            canonical(b)[j],
        ) by {
            assert(!outranks(canonical(b)[j], canonical(b)[i]));
        }
    }
    vstd::seq_lib::lemma_sorted_unique(canonical(a), canonical(b), leq);
}

/// The accelerator of a shortcut: the names of the modifiers and then the key,
/// joined by `+`.
pub open spec fn accelerator_text(mods: Seq<HotkeyModifier>, key: Seq<char>) -> Seq<char> {
    joined(canonical(mods).map_values(|m: HotkeyModifier| m.token()).push(key), "+"@)
}

/// The accelerator of a shortcut.
pub fn accelerator_of(mods: &Vec<HotkeyModifier>, key: &str) -> (accelerator: String)
    ensures
        accelerator@ == accelerator_text(mods@, key@),
{
    let ordered = ordered_mods(mods);
    let ghost tokens = ordered@.map_values(|m: HotkeyModifier| m.token());
    let mut parts: Vec<String> = Vec::new();
    let mut i: usize = 0;
    proof {
        assert(views(parts@) =~= tokens.take(0));
    }
    while i < ordered.len()
        invariant
            0 <= i <= ordered@.len(),
            tokens == ordered@.map_values(|m: HotkeyModifier| m.token()),
            views(parts@) == tokens.take(i as int),
        decreases ordered@.len() - i,
    {
        let ghost before = parts@;
        let token = ordered[i].to_accelerator_token().to_owned();
        parts.push(token);
        proof {
            assert(views(parts@) =~= views(before).push(token@));
            assert(tokens.take(i + 1) =~= tokens.take(i as int).push(token@));
        }
        i += 1;
    }
    let ghost before = parts@;
    let last = key.to_owned();
    parts.push(last);
    proof {
        assert(tokens.take(i as int) =~= tokens);
        assert(views(parts@) =~= views(before).push(last@));
    }
    join(&parts, "+")
}

/// The glyphs of the modifiers, one after another.
pub open spec fn glyphs(mods: Seq<HotkeyModifier>) -> Seq<char>
    decreases mods.len(),
{
    if mods.len() == 0 {
        Seq::empty()
    } else {
        glyphs(mods.drop_last()) + mods.last().symbol()
    }
}

/// The glyphs of the modifiers, in the order in which they are written.
pub fn symbols(mods: &Vec<HotkeyModifier>) -> (text: String)
    ensures
        text@ == glyphs(canonical(mods@)),
{
    let ordered = ordered_mods(mods);
    let mut text = String::new();
    let mut i: usize = 0;
    while i < ordered.len()
        invariant
            0 <= i <= ordered@.len(),
            text@ == glyphs(ordered@.take(i as int)),
        decreases ordered@.len() - i,
    {
        proof {
            assert(ordered@.take(i + 1).drop_last() =~= ordered@.take(i as int));
        }
        text.append(ordered[i].to_symbol());
        i += 1;
    }
    proof {
        assert(ordered@.take(i as int) =~= ordered@);
    }
    text
}

/// What is shown for a key: the letter or digit of a letter or digit key, and
/// the code itself for any other.
pub open spec fn key_glyph(code: Seq<char>) -> Seq<char> {
    if "Key"@.is_prefix_of(code) {
        code.skip("Key"@.len() as int)
    } else if "Digit"@.is_prefix_of(code) {
        code.skip("Digit"@.len() as int)
    } else {
        code
    }
}

/// What is shown for a key.
pub fn key_symbol(code: &str) -> (symbol: String)
    ensures
        symbol@ == key_glyph(code@),
{
    if let Some(rest) = strip_prefix(code, "Key") {
        return rest;
    }
    if let Some(rest) = strip_prefix(code, "Digit") {
        return rest;
    }
    code.to_owned()
}

/// What is shown for the key of a binding. The character that the key typed
/// when it was recorded goes before the glyph of its code, which is that of
/// another keyboard layout. A blank one shows nothing and is passed over.
pub open spec fn key_label(code: Seq<char>, display_key: Option<Seq<char>>) -> Seq<char> {
    match display_key {
        Some(typed) => if trimmed(typed).len() == 0 {
            key_glyph(code)
        } else if typed.len() == 1 {
            uppercase(typed)
        } else {
            typed
        },
        None => key_glyph(code),
    }
}

/// The view of an optional string.
pub open spec fn option_view(text: Option<String>) -> Option<Seq<char>> {
    match text {
        Some(text) => Some(text@),
        None => None,
    }
}

/// What is shown for the key of a binding.
pub fn display_key_symbol(code: &str, display_key: &Option<String>) -> (symbol: String)
    ensures
        symbol@ == key_label(code@, option_view(*display_key)),
{
    match display_key {
        Some(typed) => {
            if trim(typed.as_str()).as_str().is_empty() {
                key_symbol(code)
            } else if typed.as_str().unicode_len() == 1 {
                typed.as_str().to_uppercase()
            } else {
                typed.clone()
            }
        },
        None => key_symbol(code),
    }
}

/// The keys besides letters, digits and function keys that can anchor a
/// shortcut.
pub open spec fn other_anchor_key(code: Seq<char>) -> bool {
    ||| code == "ArrowUp"@
    ||| code == "ArrowDown"@
    ||| code == "ArrowLeft"@
    ||| code == "ArrowRight"@
    ||| code == "Home"@
    ||| code == "End"@
    ||| code == "PageUp"@
    ||| code == "PageDown"@
    ||| code == "Insert"@
    ||| code == "Delete"@
    ||| code == "Backquote"@
    ||| code == "Minus"@
    ||| code == "Equal"@
    ||| code == "BracketLeft"@
    ||| code == "BracketRight"@
    ||| code == "Backslash"@
    ||| code == "Semicolon"@
    ||| code == "Quote"@
    ||| code == "Comma"@
    ||| code == "Period"@
    ||| code == "Slash"@
    ||| code == "IntlBackslash"@
    ||| code == "Space"@
    ||| code == "Tab"@
    ||| code == "Enter"@
}

/// Whether a key is one of the function keys up to 24.
pub open spec fn function_key(code: Seq<char>) -> bool {
    exists|n: nat| 1 <= n <= 24 && code == "F"@ + #[trigger] decimal_digits(n)
}

/// Whether a key can anchor a shortcut: a letter, a digit, one of the function
/// keys up to 24, or one of a list of others. Lock, media and composition keys
/// cannot.
pub open spec fn anchor_key(code: Seq<char>) -> bool {
    if "Key"@.is_prefix_of(code) {
        let rest = code.skip("Key"@.len() as int);
        rest.len() == 1 && 'A' <= rest[0] <= 'Z'
    } else if "Digit"@.is_prefix_of(code) {
        let rest = code.skip("Digit"@.len() as int);
        rest.len() == 1 && digit(rest[0])
    } else if "F"@.is_prefix_of(code) {
        function_key(code)
    } else {
        other_anchor_key(code)
    }
}

proof fn function_key_number(code: Seq<char>)
    ensures
        function_key(code) ==> {
            let rest = code.skip("F"@.len() as int);
            &&& decimal(rest) matches Some(n)
            &&& 1 <= n <= 24
            &&& rest == decimal_digits(n)
        },
{
    if function_key(code) {
        let n = choose|n: nat| 1 <= n <= 24 && code == "F"@ + #[trigger] decimal_digits(n);
        assert(code.skip("F"@.len() as int) =~= decimal_digits(n));
        decimal_round_trip(n);
    }
}

/// Whether a key can anchor a shortcut.
pub fn is_allowed_anchor_key(code: &str) -> (allowed: bool)
    ensures
        allowed == anchor_key(code@),
{
    if let Some(rest) = strip_prefix(code, "Key") {
        let chars = chars_of(rest.as_str());
        return chars.len() == 1 && 'A' <= chars[0] && chars[0] <= 'Z';
    }
    if let Some(rest) = strip_prefix(code, "Digit") {
        let chars = chars_of(rest.as_str());
        return chars.len() == 1 && '0' <= chars[0] && chars[0] <= '9';
    }
    if let Some(rest) = strip_prefix(code, "F") {
        proof {
            function_key_number(code@);
            assert(code@ =~= "F"@ + rest@);
        }
        return match parse_decimal(rest.as_str(), 24) {
            Some(n) => 1 <= n && same_text(rest.as_str(), decimal_text(n).as_str()),
            None => false,
        };
    }
    same_text(code, "ArrowUp") || same_text(code, "ArrowDown") || same_text(code, "ArrowLeft")
        || same_text(code, "ArrowRight") || same_text(code, "Home") || same_text(code, "End")
        || same_text(code, "PageUp") || same_text(code, "PageDown") || same_text(code, "Insert")
        || same_text(code, "Delete") || same_text(code, "Backquote") || same_text(code, "Minus")
        || same_text(code, "Equal") || same_text(code, "BracketLeft")
        || same_text(code, "BracketRight") || same_text(code, "Backslash")
        || same_text(code, "Semicolon") || same_text(code, "Quote") || same_text(code, "Comma")
        || same_text(code, "Period") || same_text(code, "Slash")
        || same_text(code, "IntlBackslash") || same_text(code, "Space") || same_text(code, "Tab")
        || same_text(code, "Enter")
}

/// Why a binding is not accepted.
#[derive(Debug, Clone, Copy, PartialEq, Eq, Structural)]
pub enum BindingError {
    /// A dictation binding without a key and with fewer than two modifiers.
    TooFewModifiers,
    /// A re-paste binding without a key.
    MissingKey,
    /// A key without a modifier.
    MissingModifier,
    /// Both bindings are the same.
    Conflict,
    /// A combination that the app itself types to paste.
    ReservedForPaste,
    /// A key whose only modifier is one that typing uses.
    WeakModifier,
    /// A re-paste binding that would start dictation whenever it is pressed.
    SupersetTripsDictation,
    /// A key that cannot anchor a shortcut.
    InvalidAnchorKey,
}

impl BindingError {
    /// What the user is told.
    pub open spec fn message(self) -> Seq<char> {
        match self {
            BindingError::TooFewModifiers => "Use two modifiers, or a modifier and a key."@,
            BindingError::MissingKey => "Add a key to complete the shortcut."@,
            BindingError::MissingModifier => "Use at least one modifier key."@,
            BindingError::Conflict =>
                "The dictation and re-paste shortcuts can't use the same keys."@,
            BindingError::ReservedForPaste => "Muni uses this to paste."@,
            BindingError::WeakModifier => "Add Control, Command, or Fn, or a second modifier."@,
            BindingError::SupersetTripsDictation =>
                "These modifiers would always trigger dictation. Use a different combo."@,
            BindingError::InvalidAnchorKey => "That key can't be used."@,
        }
    }

    /// What the user is told.
    pub fn to_string(&self) -> (text: String)
        ensures
            text@ == self.message(),
    {
        let text = match self {
            BindingError::TooFewModifiers => "Use two modifiers, or a modifier and a key.",
            BindingError::MissingKey => "Add a key to complete the shortcut.",
            BindingError::MissingModifier => "Use at least one modifier key.",
            BindingError::Conflict =>
                "The dictation and re-paste shortcuts can't use the same keys.",
            BindingError::ReservedForPaste => "Muni uses this to paste.",
            BindingError::WeakModifier => "Add Control, Command, or Fn, or a second modifier.",
            BindingError::SupersetTripsDictation =>
                "These modifiers would always trigger dictation. Use a different combo.",
            BindingError::InvalidAnchorKey => "That key can't be used.",
        };
        text.to_owned()
    }
}

/// Whether every modifier of `sub` is one of `sup`.
pub fn modifiers_is_subset(sub: &Vec<HotkeyModifier>, sup: &Vec<HotkeyModifier>) -> (result: bool)
    ensures
        result == sub@.to_set().subset_of(sup@.to_set()),
{
    let mut i: usize = 0;
    while i < sub.len()
        invariant
            0 <= i <= sub@.len(),
            forall|k: int| 0 <= k < i ==> sup@.contains(#[trigger] sub@[k]),
        decreases sub@.len() - i,
    {
        if !contains_modifier(sup, sub[i]) {
            proof {
                assert(sub@.to_set().contains(sub@[i as int]));
                assert(!sup@.to_set().contains(sub@[i as int]));
            }
            return false;
        }
        i += 1;
    }
    true
}

/// Whether `m` is one of the modifiers.
fn contains_modifier(mods: &Vec<HotkeyModifier>, m: HotkeyModifier) -> (result: bool)
    ensures
        result == mods@.contains(m),
{
    let mut i: usize = 0;
    while i < mods.len()
        invariant
            0 <= i <= mods@.len(),
            forall|k: int| 0 <= k < i ==> mods@[k] != m,
        decreases mods@.len() - i,
    {
        if mods[i] == m {
            return true;
        }
        i += 1;
    }
    false
}

/// Whether the two lists hold the same modifiers.
pub fn modifiers_set_eq(a: &Vec<HotkeyModifier>, b: &Vec<HotkeyModifier>) -> (result: bool)
    ensures
        result == (a@.to_set() == b@.to_set()),
{
    let result = modifiers_is_subset(a, b) && modifiers_is_subset(b, a);
    assert(result ==> a@.to_set() =~= b@.to_set());
    result
}

/// The number of different modifiers. A stored list may name one twice.
pub fn distinct_mod_count(mods: &Vec<HotkeyModifier>) -> (count: usize)
    ensures
        count == mods@.to_set().len(),
{
    let mut seen: Vec<HotkeyModifier> = Vec::new();
    let mut i: usize = 0;
    proof {
        assert(mods@.take(0).to_set() =~= seen@.to_set());
    }
    while i < mods.len()
        invariant
            0 <= i <= mods@.len(),
            seen@.no_duplicates(),
            seen@.to_set() == mods@.take(i as int).to_set(),
        decreases mods@.len() - i,
    {
        let ghost before = seen@;
        let ghost shorter = mods@.take(i as int);
        let ghost longer = mods@.take(i + 1);
        let m = mods[i];
        proof {
            assert(longer =~= shorter.push(m));
            assert(longer.to_set() =~= shorter.to_set().insert(m)) by {
                assert forall|x: HotkeyModifier| #[trigger] longer.to_set().contains(x)
                    <==> shorter.to_set().insert(m).contains(x) by {
                    if shorter.to_set().contains(x) {
                        let k = choose|k: int| 0 <= k < shorter.len() && shorter[k] == x;
                        assert(longer[k] == x);
                    }
                    if x == m {
                        assert(longer[i as int] == x);
                    }
                }
            }
        }
        if !contains_modifier(&seen, m) {
            seen.push(m);
            proof {
                assert(seen@.to_set() =~= before.to_set().insert(m)) by {
                    assert forall|x: HotkeyModifier| #[trigger] seen@.to_set().contains(x)
                        <==> before.to_set().insert(m).contains(x) by {
                        if before.to_set().contains(x) {
                            let k = choose|k: int| 0 <= k < before.len() && before[k] == x;
                            assert(seen@[k] == x);
                        }
                        if x == m {
                            assert(seen@[before.len() as int] == x);
                        }
                    }
                }
            }
        } else {
            proof {
                assert(shorter.to_set().contains(m)) by {
                    assert(seen@.to_set().contains(m));
                }
                assert(longer.to_set() =~= shorter.to_set());
            }
        }
        i += 1;
    }
    proof {
        assert(mods@.take(i as int) =~= mods@);
        seen@.unique_seq_to_set();
    }
    seen.len()
}

/// The combinations that the app types itself: Command+V, and Command+Shift+V.
pub open spec fn reserved_for_paste(mods: Set<HotkeyModifier>, key: Seq<char>) -> bool {
    key == "KeyV"@ && (mods == set![HotkeyModifier::Command] || mods
        == set![HotkeyModifier::Command, HotkeyModifier::Shift])
}

/// Whether the app types this combination itself.
pub fn is_reserved_paste_combo(mods: &Vec<HotkeyModifier>, key: &str) -> (result: bool)
    ensures
        result == reserved_for_paste(mods@.to_set(), key@),
{
    if !same_text(key, "KeyV") {
        return false;
    }
    let mut paste: Vec<HotkeyModifier> = Vec::new();
    paste.push(HotkeyModifier::Command);
    proof {
        assert(paste@.to_set() =~= set![HotkeyModifier::Command]) by {
            assert(paste@[0] == HotkeyModifier::Command);
        }
    }
    if modifiers_set_eq(mods, &paste) {
        return true;
    }
    paste.push(HotkeyModifier::Shift);
    proof {
        assert(paste@.to_set() =~= set![HotkeyModifier::Command, HotkeyModifier::Shift]) by {
            assert(paste@[0] == HotkeyModifier::Command);
            assert(paste@[1] == HotkeyModifier::Shift);
        }
    }
    modifiers_set_eq(mods, &paste)
}

/// Whether the modifiers of a shortcut with a key leave ordinary typing alone:
/// one of Control, Command and Fn, or any two.
pub open spec fn strong_enough(mods: Set<HotkeyModifier>) -> bool {
    ||| mods.contains(HotkeyModifier::Control)
    ||| mods.contains(HotkeyModifier::Command)
    ||| mods.contains(HotkeyModifier::Fn)
    ||| mods.len() >= MIN_DICTATION_MODIFIERS
}

/// Whether the modifiers of a shortcut with a key leave ordinary typing alone.
pub fn keyed_modifier_floor_ok(mods: &Vec<HotkeyModifier>) -> (result: bool)
    ensures
        result == strong_enough(mods@.to_set()),
{
    contains_modifier(mods, HotkeyModifier::Control) || contains_modifier(
        mods,
        HotkeyModifier::Command,
    ) || contains_modifier(mods, HotkeyModifier::Fn) || distinct_mod_count(mods)
        >= MIN_DICTATION_MODIFIERS
}

/// What speaks against a shortcut with this key, if anything.
pub open spec fn keyed_error(mods: Set<HotkeyModifier>, key: Seq<char>) -> Option<BindingError> {
    if !anchor_key(key) {
        Some(BindingError::InvalidAnchorKey)
    } else if reserved_for_paste(mods, key) {
        Some(BindingError::ReservedForPaste)
    } else if !strong_enough(mods) {
        Some(BindingError::WeakModifier)
    } else {
        None
    }
}

/// What speaks against a dictation binding, if anything.
pub open spec fn dictation_error(
    mods: Set<HotkeyModifier>,
    key: Option<Seq<char>>,
) -> Option<BindingError> {
    match key {
        Some(key) => if mods.is_empty() {
            Some(BindingError::MissingModifier)
        } else {
            keyed_error(mods, key)
        },
        None => if mods.len() < MIN_DICTATION_MODIFIERS {
            Some(BindingError::TooFewModifiers)
        } else {
            None
        },
    }
}

/// What speaks against a re-paste binding, if anything.
pub open spec fn repaste_error(mods: Set<HotkeyModifier>, key: Seq<char>) -> Option<BindingError> {
    if mods.is_empty() {
        Some(BindingError::MissingModifier)
    } else if trimmed(key).len() == 0 {
        Some(BindingError::MissingKey)
    } else {
        keyed_error(mods, key)
    }
}

/// The result that stands for `error`.
pub open spec fn outcome(error: Option<BindingError>) -> Result<(), BindingError> {
    match error {
        Some(error) => Err(error),
        None => Ok(()),
    }
}

fn validate_key(mods: &Vec<HotkeyModifier>, key: &str) -> (result: Result<(), BindingError>)
    ensures
        result == outcome(keyed_error(mods@.to_set(), key@)),
{
    if !is_allowed_anchor_key(key) {
        return Err(BindingError::InvalidAnchorKey);
    }
    if is_reserved_paste_combo(mods, key) {
        return Err(BindingError::ReservedForPaste);
    }
    if !keyed_modifier_floor_ok(mods) {
        return Err(BindingError::WeakModifier);
    }
    Ok(())
}

proof fn empty_list_empty_set(mods: Seq<HotkeyModifier>)
    ensures
        mods.len() == 0 <==> mods.to_set().is_empty(),
{
    if mods.len() > 0 {
        assert(mods.to_set().contains(mods[0]));
    }
}

/// The bits of all the modifiers.
pub open spec fn flags_mask(mods: Seq<HotkeyModifier>) -> u64
    decreases mods.len(),
{
    if mods.len() == 0 {
        0
    } else {
        flags_mask(mods.drop_last()) | mods.last().cg_flag()
    }
}

/// The dictation binding: modifiers alone, which are watched for as they go
/// down and up, or modifiers with a key, which is registered as a shortcut.
#[derive(Debug, Clone, PartialEq, Eq)]
pub enum DictationBinding {
    Modifiers {
        mods: Vec<HotkeyModifier>,
        /// Code of the key, such as `KeyR`.
        key: Option<String>,
        /// What the key typed when it was recorded, for display alone.
        display_key: Option<String>,
    },
}

impl DictationBinding {
    /// The modifiers.
    pub open spec fn modifiers(self) -> Seq<HotkeyModifier> {
        match self {
            DictationBinding::Modifiers { mods, .. } => mods@,
        }
    }

    /// The code of the key.
    pub open spec fn key_code(self) -> Option<Seq<char>> {
        match self {
            DictationBinding::Modifiers { key, .. } => option_view(key),
        }
    }

    /// What the key typed when it was recorded.
    pub open spec fn typed_key(self) -> Option<Seq<char>> {
        match self {
            DictationBinding::Modifiers { display_key, .. } => option_view(display_key),
        }
    }

    /// The binding that the app ships with: Control+Option.
    pub fn default_dictation() -> (binding: Self)
        ensures
            binding.modifiers() == seq![HotkeyModifier::Control, HotkeyModifier::Option],
            binding.key_code() is None,
            binding.typed_key() is None,
    {
        let mods = vec![HotkeyModifier::Control, HotkeyModifier::Option];
        DictationBinding::Modifiers { mods, key: None, display_key: None }
    }

    /// The code of the key, if the binding has one.
    pub fn key(&self) -> (code: Option<&str>)
        ensures
            code is Some <==> self.key_code() is Some,
            code matches Some(code) ==> code@ == self.key_code()->0,
    {
        match self {
            DictationBinding::Modifiers { key, .. } => match key {
                Some(code) => Some(code.as_str()),
                None => None,
            },
        }
    }

    /// The accelerator of the binding, if it has a key.
    pub open spec fn accelerator_code(self) -> Option<Seq<char>> {
        match self.key_code() {
            Some(code) => Some(accelerator_text(self.modifiers(), code)),
            None => None,
        }
    }

    /// The accelerator of the binding, if it has a key.
    pub fn accelerator(&self) -> (accelerator: Option<String>)
        ensures
            option_view(accelerator) == self.accelerator_code(),
    {
        match self {
            DictationBinding::Modifiers { mods, key, .. } => match key {
                Some(code) => Some(accelerator_of(mods, code.as_str())),
                None => None,
            },
        }
    }

    /// Whether the binding can be used, or what speaks against it.
    pub fn validate(&self) -> (result: Result<(), BindingError>)
        ensures
            result == outcome(dictation_error(self.modifiers().to_set(), self.key_code())),
    {
        match self {
            DictationBinding::Modifiers { mods, key, .. } => {
                proof {
                    empty_list_empty_set(mods@);
                }
                match key {
                    Some(code) => {
                        if mods.len() == 0 {
                            Err(BindingError::MissingModifier)
                        } else {
                            validate_key(mods, code.as_str())
                        }
                    },
                    None => {
                        if distinct_mod_count(mods) < MIN_DICTATION_MODIFIERS {
                            Err(BindingError::TooFewModifiers)
                        } else {
                            Ok(())
                        }
                    },
                }
            },
        }
    }

    /// The bits of all the modifiers: the binding is held down while all of
    /// them are set, whatever other bits are.
    pub fn required_flags_mask(&self) -> (mask: u64)
        ensures
            mask == flags_mask(self.modifiers()),
    {
        match self {
            DictationBinding::Modifiers { mods, .. } => mask_of(mods),
        }
    }

    /// What is shown for the binding.
    pub fn label(&self) -> (text: String)
        ensures
            text@ == glyphs(canonical(self.modifiers())) + match self.key_code() {
                Some(code) => key_label(code, self.typed_key()),
                None => Seq::empty(),
            },
    {
        match self {
            DictationBinding::Modifiers { mods, key, display_key } => {
                let mut text = symbols(mods);
                if let Some(code) = key {
                    text.append(display_key_symbol(code.as_str(), display_key).as_str());
                }
                text
            },
        }
    }
}

fn mask_of(mods: &Vec<HotkeyModifier>) -> (mask: u64)
    ensures
        mask == flags_mask(mods@),
{
    let mut mask: u64 = 0;
    let mut i: usize = 0;
    while i < mods.len()
        invariant
            0 <= i <= mods@.len(),
            mask == flags_mask(mods@.take(i as int)),
        decreases mods@.len() - i,
    {
        proof {
            assert(mods@.take(i + 1).drop_last() =~= mods@.take(i as int));
        }
        mask = mask | mods[i].to_cg_flag();
        i += 1;
    }
    proof {
        assert(mods@.take(i as int) =~= mods@);
    }
    mask
}

/// The re-paste binding: modifiers with a key, registered as a shortcut.
#[derive(Debug, Clone, PartialEq, Eq)]
pub struct RepasteBinding {
    pub mods: Vec<HotkeyModifier>,
    /// Code of the key, such as `KeyV`.
    pub key: String,
    /// What the key typed when it was recorded, for display alone.
    pub display_key: Option<String>,
}

impl RepasteBinding {
    /// The binding that the app ships with: Control+Command+V.
    pub fn default_repaste() -> (binding: Self)
        ensures
            binding.mods@ == seq![HotkeyModifier::Control, HotkeyModifier::Command],
            binding.key@ == "KeyV"@,
            binding.display_key is None,
    {
        let mods = vec![HotkeyModifier::Control, HotkeyModifier::Command];
        RepasteBinding { mods, key: "KeyV".to_owned(), display_key: None }
    }

    /// Whether the binding can be used, or what speaks against it.
    pub fn validate(&self) -> (result: Result<(), BindingError>)
        ensures
            result == outcome(repaste_error(self.mods@.to_set(), self.key@)),
    {
        proof {
            empty_list_empty_set(self.mods@);
        }
        if self.mods.len() == 0 {
            return Err(BindingError::MissingModifier);
        }
        if trim(self.key.as_str()).as_str().is_empty() {
            return Err(BindingError::MissingKey);
        }
        validate_key(&self.mods, self.key.as_str())
    }

    /// The accelerator of the binding.
    pub fn accelerator(&self) -> (accelerator: String)
        ensures
            accelerator@ == accelerator_text(self.mods@, self.key@),
    {
        accelerator_of(&self.mods, self.key.as_str())
    }

    /// What is shown for the binding.
    pub fn label(&self) -> (text: String)
        ensures
            text@ == glyphs(canonical(self.mods@)) + key_label(
                self.key@,
                option_view(self.display_key),
            ),
    {
        let mut text = symbols(&self.mods);
        text.append(display_key_symbol(self.key.as_str(), &self.display_key).as_str());
        text
    }
}

/// What speaks against the two bindings side by side, when each on its own is
/// fine. Two shortcuts collide when they are the same. Dictation modifiers
/// alone collide with every shortcut that has all of them.
pub open spec fn collision(
    dictation: DictationBinding,
    repaste: RepasteBinding,
) -> Option<BindingError> {
    let chord = dictation.modifiers().to_set();
    match dictation.accelerator_code() {
        Some(accelerator) => if accelerator == accelerator_text(repaste.mods@, repaste.key@) {
            Some(BindingError::Conflict)
        } else {
            None
        },
        None => if chord == repaste.mods@.to_set() {
            Some(BindingError::Conflict)
        } else if chord.subset_of(repaste.mods@.to_set()) {
            Some(BindingError::SupersetTripsDictation)
        } else {
            None
        },
    }
}

/// What speaks against the two bindings, if anything.
pub open spec fn pair_error(
    dictation: DictationBinding,
    repaste: Option<&RepasteBinding>,
) -> Option<BindingError> {
    let first = dictation_error(dictation.modifiers().to_set(), dictation.key_code());
    match repaste {
        None => first,
        Some(repaste) => {
            let second = repaste_error(repaste.mods@.to_set(), repaste.key@);
            if first is Some {
                first
            } else if second is Some {
                second
            } else {
                collision(dictation, *repaste)
            }
        },
    }
}

/// Whether the two bindings can be used side by side, or what speaks against
/// it.
pub fn validate_pair(dictation: &DictationBinding, repaste: Option<&RepasteBinding>) -> (result:
    Result<(), BindingError>)
    ensures
        result == outcome(pair_error(*dictation, repaste)),
{
    if let Err(error) = dictation.validate() {
        return Err(error);
    }
    let repaste = match repaste {
        Some(repaste) => repaste,
        None => return Ok(()),
    };
    if let Err(error) = repaste.validate() {
        return Err(error);
    }
    match dictation.accelerator() {
        Some(accelerator) => {
            if same_text(accelerator.as_str(), repaste.accelerator().as_str()) {
                return Err(BindingError::Conflict);
            }
        },
        None => {
            let DictationBinding::Modifiers { mods, .. } = dictation;
            if modifiers_set_eq(mods, &repaste.mods) {
                return Err(BindingError::Conflict);
            }
            if modifiers_is_subset(mods, &repaste.mods) {
                return Err(BindingError::SupersetTripsDictation);
            }
        },
    }
    Ok(())
}

proof fn one_flag(flags: u64, mask: u64, flag: u64)
    by (bit_vector)
    ensures
        (flags & (mask | flag)) == (mask | flag) <==> (flags & mask) == mask && (flags & flag)
            == flag,
{
}

/// The mask is matched exactly when the bit of every modifier is set. Other
/// bits do not matter.
pub proof fn mask_matches_held_modifiers(mods: Seq<HotkeyModifier>, flags: u64)
    ensures
        (flags & flags_mask(mods)) == flags_mask(mods) <==> (forall|m: HotkeyModifier|
            mods.contains(m) ==> (flags & #[trigger] m.cg_flag()) == m.cg_flag()),
    decreases mods.len(),
{
    if mods.len() == 0 {
        assert((flags & 0) == 0) by (bit_vector);
    } else {
        let front = mods.drop_last();
        mask_matches_held_modifiers(front, flags);
        one_flag(flags, flags_mask(front), mods.last().cg_flag());
        assert(mods.contains(mods.last()));
        assert forall|m: HotkeyModifier| mods.contains(m) <==> front.contains(m) || m
            == mods.last() by {
            if mods.contains(m) {
                let k = choose|k: int| 0 <= k < mods.len() && mods[k] == m;
                if k < front.len() {
                    assert(front[k] == m);
                }
            }
            if front.contains(m) {
                let k = choose|k: int| 0 <= k < front.len() && front[k] == m;
                assert(mods[k] == m);
            }
        }
    }
}

proof fn flags_are_separate(a: HotkeyModifier, b: HotkeyModifier)
    ensures
        a != b ==> (a.cg_flag() & b.cg_flag()) == 0,
        (a.cg_flag() & a.cg_flag()) == a.cg_flag(),
        a.cg_flag() != 0,
{
    assert(forall|x: u64| #[trigger] (x & x) == x) by (bit_vector);
    assert((0x0002_0000u64 & 0x0004_0000u64) == 0 && (0x0002_0000u64 & 0x0008_0000u64) == 0 && (
    0x0002_0000u64 & 0x0010_0000u64) == 0 && (0x0002_0000u64 & 0x0080_0000u64) == 0 && (
    0x0004_0000u64 & 0x0002_0000u64) == 0 && (0x0004_0000u64 & 0x0008_0000u64) == 0 && (
    0x0004_0000u64 & 0x0010_0000u64) == 0 && (0x0004_0000u64 & 0x0080_0000u64) == 0 && (
    0x0008_0000u64 & 0x0002_0000u64) == 0 && (0x0008_0000u64 & 0x0004_0000u64) == 0 && (
    0x0008_0000u64 & 0x0010_0000u64) == 0 && (0x0008_0000u64 & 0x0080_0000u64) == 0 && (
    0x0010_0000u64 & 0x0002_0000u64) == 0 && (0x0010_0000u64 & 0x0004_0000u64) == 0 && (
    0x0010_0000u64 & 0x0008_0000u64) == 0 && (0x0010_0000u64 & 0x0080_0000u64) == 0 && (
    0x0080_0000u64 & 0x0002_0000u64) == 0 && (0x0080_0000u64 & 0x0004_0000u64) == 0 && (
    0x0080_0000u64 & 0x0008_0000u64) == 0 && (0x0080_0000u64 & 0x0010_0000u64) == 0)
        by (bit_vector);
}

/// The bit of a modifier is set in the mask of those modifiers that it is one
/// of, and in no other.
pub proof fn mask_holds_its_modifiers(mods: Seq<HotkeyModifier>, m: HotkeyModifier)
    ensures
        (flags_mask(mods) & m.cg_flag()) == m.cg_flag() <==> mods.contains(m),
        !mods.contains(m) ==> (flags_mask(mods) & m.cg_flag()) == 0,
    decreases mods.len(),
{
    let flag = m.cg_flag();
    flags_are_separate(m, m);
    if mods.len() == 0 {
        assert((0 & flag) == 0) by (bit_vector);
    } else {
        let front = mods.drop_last();
        let last = mods.last().cg_flag();
        let mask = flags_mask(front);
        mask_holds_its_modifiers(front, m);
        flags_are_separate(mods.last(), m);
        assert(((mask | last) & flag) == ((mask & flag) | (last & flag))) by (bit_vector);
        if mods.last() == m {
            assert(mods[mods.len() - 1] == m);
            assert(((mask & flag) | flag) == flag) by (bit_vector);
        } else {
            assert(((mask & flag) | 0) == (mask & flag)) by (bit_vector);
            assert(mods.contains(m) <==> front.contains(m)) by {
                if mods.contains(m) {
                    let k = choose|k: int| 0 <= k < mods.len() && mods[k] == m;
                    assert(front[k] == m);
                }
                if front.contains(m) {
                    let k = choose|k: int| 0 <= k < front.len() && front[k] == m;
                    assert(mods[k] == m);
                }
            }
        }
    }
}

/// Where the pair is accepted and dictation has no key, holding down the
/// modifiers of the re-paste shortcut does not start dictation.
pub proof fn accepted_repaste_leaves_dictation_alone(
    dictation: DictationBinding,
    repaste: RepasteBinding,
)
    requires
        pair_error(dictation, Some(&repaste)) is None,
        dictation.key_code() is None,
    ensures
        (flags_mask(repaste.mods@) & flags_mask(dictation.modifiers())) != flags_mask(
            dictation.modifiers(),
        ),
{
    let chord = dictation.modifiers();
    let m = choose|m: HotkeyModifier|
        chord.to_set().contains(m) && !repaste.mods@.to_set().contains(m);
    assert(exists|m: HotkeyModifier|
        chord.to_set().contains(m) && !repaste.mods@.to_set().contains(m));
    assert(chord.contains(m) && !repaste.mods@.contains(m));
    mask_holds_its_modifiers(repaste.mods@, m);
    flags_are_separate(m, m);
    mask_matches_held_modifiers(chord, flags_mask(repaste.mods@));
}

/// Two shortcuts that are accepted side by side are registered as different
/// accelerators.
pub proof fn accepted_shortcuts_differ(dictation: DictationBinding, repaste: RepasteBinding)
    requires
        pair_error(dictation, Some(&repaste)) is None,
    ensures
        dictation.accelerator_code() != Some(accelerator_text(repaste.mods@, repaste.key@)),
{
}

/// The order in which the modifiers of a shortcut were pressed changes neither
/// its accelerator nor its glyphs.
pub proof fn shortcut_ignores_press_order(
    a: Seq<HotkeyModifier>,
    b: Seq<HotkeyModifier>,
    key: Seq<char>,
)
    requires
        a.to_multiset() == b.to_multiset(),
    ensures
        accelerator_text(a, key) == accelerator_text(b, key),
        glyphs(canonical(a)) == glyphs(canonical(b)),
{
    canonical_ignores_press_order(a, b);
}

proof fn same_modifiers_same_mask(a: Seq<HotkeyModifier>, b: Seq<HotkeyModifier>)
    ensures
        flags_mask(a) == flags_mask(b) <==> a.to_set() == b.to_set(),
        (flags_mask(b) & flags_mask(a)) == flags_mask(a) <==> a.to_set().subset_of(b.to_set()),
{
    subset_matches_mask(a, b);
    subset_matches_mask(b, a);
    let (x, y) = (flags_mask(a), flags_mask(b));
    assert((y & x) == x && (x & y) == y ==> x == y) by (bit_vector);
    assert((x & x) == x) by (bit_vector);
    if a.to_set() == b.to_set() {
        assert(a.to_set().subset_of(b.to_set()) && b.to_set().subset_of(a.to_set()));
    }
    if x == y {
        assert(a.to_set() =~= b.to_set());
    }
}

proof fn subset_matches_mask(a: Seq<HotkeyModifier>, b: Seq<HotkeyModifier>)
    ensures
        (flags_mask(b) & flags_mask(a)) == flags_mask(a) <==> a.to_set().subset_of(b.to_set()),
{
    mask_matches_held_modifiers(a, flags_mask(b));
    if a.to_set().subset_of(b.to_set()) {
        assert forall|m: HotkeyModifier| a.contains(m) implies (flags_mask(b)
            & #[trigger] m.cg_flag()) == m.cg_flag() by {
            assert(a.to_set().contains(m));
            assert(b.to_set().contains(m));
            mask_holds_its_modifiers(b, m);
        }
    }
    if (flags_mask(b) & flags_mask(a)) == flags_mask(a) {
        assert forall|m: HotkeyModifier| a.to_set().contains(m) implies b.to_set().contains(m) by {
            assert(a.contains(m));
            assert((flags_mask(b) & m.cg_flag()) == m.cg_flag());
            mask_holds_its_modifiers(b, m);
        }
    }
}

/// Of two bindings that are each fine, with dictation on modifiers alone, the
/// pair is refused exactly if holding down the modifiers of the re-paste
/// shortcut starts dictation. If both have the same modifiers they are in
/// conflict; if re-paste has more, it trips dictation.
pub proof fn only_tripping_pairs_are_refused(dictation: DictationBinding, repaste: RepasteBinding)
    requires
        pair_error(dictation, None) is None,
        repaste_error(repaste.mods@.to_set(), repaste.key@) is None,
        dictation.key_code() is None,
    ensures
        ({
            let own = flags_mask(dictation.modifiers());
            let other = flags_mask(repaste.mods@);
            pair_error(dictation, Some(&repaste)) == if (other & own) != own {
                None
            } else if other == own {
                Some(BindingError::Conflict)
            } else {
                Some(BindingError::SupersetTripsDictation)
            }
        }),
{
    same_modifiers_same_mask(dictation.modifiers(), repaste.mods@);
}

/// The pair is refused for what speaks against dictation alone, else for what
/// speaks against re-paste alone; without a re-paste binding only the former
/// counts.
pub proof fn each_binding_is_looked_at_alone_first(
    dictation: DictationBinding,
    repaste: RepasteBinding,
)
    ensures
        pair_error(dictation, None) == dictation_error(
            dictation.modifiers().to_set(),
            dictation.key_code(),
        ),
        pair_error(dictation, None) is Some ==> pair_error(dictation, Some(&repaste))
            == pair_error(dictation, None),
        pair_error(dictation, None) is None && repaste_error(
            repaste.mods@.to_set(),
            repaste.key@,
        ) is Some ==> pair_error(dictation, Some(&repaste)) == repaste_error(
            repaste.mods@.to_set(),
            repaste.key@,
        ),
{
}

proof fn token_is_plain(m: HotkeyModifier)
    ensures
        !m.token().contains('+'),
        m.token().len() > 0,
{
    reveal_strlit("Control");
    reveal_strlit("Option");
    reveal_strlit("Command");
    reveal_strlit("Shift");
    reveal_strlit("Fn");
    if m.token().contains('+') {
        let k = choose|k: int| 0 <= k < m.token().len() && m.token()[k] == '+';
        assert(false);
    }
}

proof fn tokens_tell_modifiers_apart(a: HotkeyModifier, b: HotkeyModifier)
    ensures
        a.token() == b.token() ==> a == b,
{
    reveal_strlit("Control");
    reveal_strlit("Option");
    reveal_strlit("Command");
    reveal_strlit("Shift");
    reveal_strlit("Fn");
    if a.token() == b.token() && a != b {
        assert(a.token().len() == b.token().len());
        assert(a.token()[0] == b.token()[0]);
        assert(a.token()[2] == b.token()[2]);
    }
}

/// The accelerator tells shortcuts apart: two have the same one exactly if they
/// have the same key and the same modifiers, in whatever order.
pub proof fn accelerators_tell_shortcuts_apart(
    a: Seq<HotkeyModifier>,
    key_a: Seq<char>,
    b: Seq<HotkeyModifier>,
    key_b: Seq<char>,
)
    requires
        !key_a.contains('+'),
        !key_b.contains('+'),
    ensures
        accelerator_text(a, key_a) == accelerator_text(b, key_b) <==> key_a == key_b
            && a.to_multiset() == b.to_multiset(),
{
    if a.to_multiset() == b.to_multiset() {
        canonical_ignores_press_order(a, b);
    }
    if accelerator_text(a, key_a) == accelerator_text(b, key_b) {
        let (own, other) = (canonical(a), canonical(b));
        let token = |m: HotkeyModifier| m.token();
        let parts_a = own.map_values(token).push(key_a);
        let parts_b = other.map_values(token).push(key_b);
        reveal_strlit("+");
        assert("+"@ =~= seq!['+']);
        assert forall|i: int| 0 <= i < parts_a.len() implies !(#[trigger] parts_a[i]).contains(
            '+',
        ) by {
            if i < own.len() {
                token_is_plain(own[i]);
            }
        }
        assert forall|i: int| 0 <= i < parts_b.len() implies !(#[trigger] parts_b[i]).contains(
            '+',
        ) by {
            if i < other.len() {
                token_is_plain(other[i]);
            }
        }
        splitting_undoes_joining(key_a, parts_a, '+');
        splitting_undoes_joining(key_b, parts_b, '+');
        assert(parts_a == parts_b);
        assert(parts_a.last() == key_a && parts_b.last() == key_b);
        assert(own =~= other) by {
            assert(own.len() == other.len());
            assert forall|i: int| 0 <= i < own.len() implies own[i] == other[i] by {
                assert(parts_a[i] == own[i].token());
                assert(parts_b[i] == other[i].token());
                tokens_tell_modifiers_apart(own[i], other[i]);
            }
        }
        stable_sort_keeps_items(a, rank::<HotkeyModifier>());
        stable_sort_keeps_items(b, rank::<HotkeyModifier>());
    }
}

/// Of two bindings that are each fine, with dictation on a key, the pair is
/// refused exactly if both are the same shortcut.
pub proof fn only_equal_shortcuts_are_refused(dictation: DictationBinding, repaste: RepasteBinding)
    requires
        pair_error(dictation, None) is None,
        repaste_error(repaste.mods@.to_set(), repaste.key@) is None,
        dictation.key_code() is Some,
    ensures
        pair_error(dictation, Some(&repaste)) == if dictation.key_code() == Some(repaste.key@)
            && dictation.modifiers().to_multiset() == repaste.mods@.to_multiset() {
            Some(BindingError::Conflict)
        } else {
            None
        },
{
    let key = dictation.key_code()->0;
    anchor_keys_are_plain(key);
    anchor_keys_are_plain(repaste.key@);
    accelerators_tell_shortcuts_apart(dictation.modifiers(), key, repaste.mods@, repaste.key@);
}

/// The keys besides letters, digits and function keys that can anchor a
/// shortcut, by name.
proof fn reveal_other_anchor_keys()
    ensures
        forall|code: Seq<char>| #[trigger]
            other_anchor_key(code) ==> !code.contains('+') && code.len() > 0 && code[0] != 'F'
                && code[0] != 'K' && (code[0] == 'D' ==> code[1] == 'e'),
{
    reveal_strlit("ArrowUp");
    reveal_strlit("ArrowDown");
    reveal_strlit("ArrowLeft");
    reveal_strlit("ArrowRight");
    reveal_strlit("Home");
    reveal_strlit("End");
    reveal_strlit("PageUp");
    reveal_strlit("PageDown");
    reveal_strlit("Insert");
    reveal_strlit("Delete");
    reveal_strlit("Backquote");
    reveal_strlit("Minus");
    reveal_strlit("Equal");
    reveal_strlit("BracketLeft");
    reveal_strlit("BracketRight");
    reveal_strlit("Backslash");
    reveal_strlit("Semicolon");
    reveal_strlit("Quote");
    reveal_strlit("Comma");
    reveal_strlit("Period");
    reveal_strlit("Slash");
    reveal_strlit("IntlBackslash");
    reveal_strlit("Space");
    reveal_strlit("Tab");
    reveal_strlit("Enter");
    assert forall|code: Seq<char>| #[trigger] other_anchor_key(code) implies !code.contains('+')
        && code.len() > 0 && code[0] != 'F' && code[0] != 'K' && (code[0] == 'D' ==> code[1]
        == 'e') by {
        if code.contains('+') {
            let k = choose|k: int| 0 <= k < code.len() && code[k] == '+';
            assert(false);
        }
    }
}

proof fn anchor_keys_are_plain(code: Seq<char>)
    requires
        anchor_key(code),
    ensures
        !code.contains('+'),
{
    reveal_strlit("Key");
    reveal_strlit("Digit");
    reveal_strlit("F");
    reveal_other_anchor_keys();
    if code.contains('+') {
        let k = choose|k: int| 0 <= k < code.len() && code[k] == '+';
        if "Key"@.is_prefix_of(code) {
            assert(code.take(3) =~= "Key"@);
            if k < 3 {
                assert(code.take(3)[k] == code[k]);
            } else {
                assert(code.skip(3)[k - 3] == code[k]);
            }
        } else if "Digit"@.is_prefix_of(code) {
            assert(code.take(5) =~= "Digit"@);
            if k < 5 {
                assert(code.take(5)[k] == code[k]);
            } else {
                assert(code.skip(5)[k - 5] == code[k]);
            }
        } else if "F"@.is_prefix_of(code) {
            let n = choose|n: nat| 1 <= n <= 24 && code == "F"@ + #[trigger] decimal_digits(n);
            function_key_digits(n);
            if k > 0 {
                assert(code[k] == decimal_digits(n)[k - 1]);
            }
        }
    }
}

proof fn function_key_digits(n: nat)
    requires
        n < 100,
    ensures
        n < 10 ==> decimal_digits(n) == seq![digit_char(n)],
        n >= 10 ==> decimal_digits(n) == seq![digit_char(n / 10), digit_char(n % 10)],
        !decimal_digits(n).contains('+'),
{
    reveal_with_fuel(decimal_digits, 2);
    if n >= 10 {
        assert(decimal_digits(n) =~= seq![digit_char(n / 10), digit_char(n % 10)]);
    }
    if decimal_digits(n).contains('+') {
        let k = choose|k: int| 0 <= k < decimal_digits(n).len() && decimal_digits(n)[k] == '+';
        assert(false);
    }
}

/// The keys that can anchor a shortcut are the 26 letters, the ten digits, the
/// function keys from 1 to 24, the arrows and the other keys that move about,
/// punctuation, Space, Tab and Enter.
pub proof fn anchor_keys_by_kind(code: Seq<char>)
    ensures
        anchor_key(code) <==> {
            ||| code.len() == 4 && code.take(3) == seq!['K', 'e', 'y'] && 'A' <= code[3] <= 'Z'
            ||| code.len() == 6 && code.take(5) == seq!['D', 'i', 'g', 'i', 't'] && '0' <= code[5]
                <= '9'
            ||| exists|n: nat| 1 <= n <= 24 && code == seq!['F'] + #[trigger] decimal_digits(n)
            ||| code == "ArrowUp"@
            ||| code == "ArrowDown"@
            ||| code == "ArrowLeft"@
            ||| code == "ArrowRight"@
            ||| code == "Home"@
            ||| code == "End"@
            ||| code == "PageUp"@
            ||| code == "PageDown"@
            ||| code == "Insert"@
            ||| code == "Delete"@
            ||| code == "Backquote"@
            ||| code == "Minus"@
            ||| code == "Equal"@
            ||| code == "BracketLeft"@
            ||| code == "BracketRight"@
            ||| code == "Backslash"@
            ||| code == "Semicolon"@
            ||| code == "Quote"@
            ||| code == "Comma"@
            ||| code == "Period"@
            ||| code == "Slash"@
            ||| code == "IntlBackslash"@
            ||| code == "Space"@
            ||| code == "Tab"@
            ||| code == "Enter"@
        },
{
    reveal_strlit("Key");
    reveal_strlit("Digit");
    reveal_strlit("F");
    reveal_other_anchor_keys();
    let (key, number, function) = (seq!['K', 'e', 'y'], seq!['D', 'i', 'g', 'i', 't'], seq!['F']);
    assert("Key"@ =~= key);
    assert("Digit"@ =~= number);
    assert("F"@ =~= function);
    if anchor_key(code) {
        if key.is_prefix_of(code) {
            assert(code.take(3) =~= key);
            assert(code.skip(3)[0] == code[3]);
        } else if number.is_prefix_of(code) {
            assert(code.take(5) =~= number);
            assert(code.skip(5)[0] == code[5]);
        }
    }
    if code.len() == 4 && code.take(3) == key && 'A' <= code[3] <= 'Z' {
        assert(key.is_prefix_of(code));
        assert(code.skip(3)[0] == code[3]);
    }
    if code.len() == 6 && code.take(5) == number && '0' <= code[5] <= '9' {
        assert(number.is_prefix_of(code));
        assert(code.take(5)[0] == 'D');
        assert(!key.is_prefix_of(code)) by {
            if key.is_prefix_of(code) {
                assert(code.take(3)[0] == 'K');
            }
        }
        assert(code.skip(5)[0] == code[5]);
    }
    if exists|n: nat| 1 <= n <= 24 && code == function + #[trigger] decimal_digits(n) {
        let n = choose|n: nat| 1 <= n <= 24 && code == function + #[trigger] decimal_digits(n);
        assert(code[0] == 'F');
        assert(code.take(1) =~= function);
        assert(function.is_prefix_of(code));
        assert(!key.is_prefix_of(code)) by {
            if key.is_prefix_of(code) {
                assert(code.take(3)[0] == 'K');
            }
        }
        assert(!number.is_prefix_of(code)) by {
            if number.is_prefix_of(code) {
                assert(code.take(5)[0] == 'D');
            }
        }
    }
    if other_anchor_key(code) {
        assert(!key.is_prefix_of(code)) by {
            if key.is_prefix_of(code) {
                assert(code.take(3)[0] == 'K');
            }
        }
        assert(!function.is_prefix_of(code)) by {
            if function.is_prefix_of(code) {
                assert(code.take(1)[0] == 'F');
            }
        }
        assert(!number.is_prefix_of(code)) by {
            if number.is_prefix_of(code) {
                assert(code.take(5)[0] == 'D');
                assert(code.take(5)[1] == 'i');
            }
        }
    }
}

/// Whether a list names two different modifiers.
pub open spec fn two_different(mods: Seq<HotkeyModifier>) -> bool {
    exists|i: int, j: int|
        0 <= i < mods.len() && 0 <= j < mods.len() && #[trigger] mods[i] != #[trigger] mods[j]
}

proof fn two_different_counts(mods: Seq<HotkeyModifier>)
    ensures
        two_different(mods) <==> mods.to_set().len() >= 2,
{
    let set = mods.to_set();
    if two_different(mods) {
        let (i, j) = choose|i: int, j: int|
            0 <= i < mods.len() && 0 <= j < mods.len() && #[trigger] mods[i] != #[trigger] mods[j];
        let pair = Set::<HotkeyModifier>::empty().insert(mods[i]).insert(mods[j]);
        assert(set.contains(mods[i]) && set.contains(mods[j]));
        vstd::set_lib::lemma_len_subset(pair, set);
        assert(pair.len() == 2);
    } else if mods.len() > 0 {
        let one = Set::<HotkeyModifier>::empty().insert(mods[0]);
        assert forall|m: HotkeyModifier| set.contains(m) implies one.contains(m) by {
            let k = choose|k: int| 0 <= k < mods.len() && mods[k] == m;
            assert(mods[k] == mods[0]);
        }
        vstd::set_lib::lemma_len_subset(set, one);
        assert(one.len() == 1);
    } else {
        assert(set =~= Set::<HotkeyModifier>::empty());
    }
}

/// What speaks against a shortcut with at least one modifier and a key: a key
/// that cannot anchor one; V with Command and nothing but Shift besides, which
/// the app types to paste; or Option or Shift as the only modifier.
pub open spec fn shortcut_fault(mods: Seq<HotkeyModifier>, key: Seq<char>) -> Option<BindingError> {
    if !anchor_key(key) {
        Some(BindingError::InvalidAnchorKey)
    } else if key == seq!['K', 'e', 'y', 'V'] && mods.contains(HotkeyModifier::Command) && (forall|
        i: int,
    |
        0 <= i < mods.len() ==> #[trigger] mods[i] == HotkeyModifier::Command || mods[i]
            == HotkeyModifier::Shift) {
        Some(BindingError::ReservedForPaste)
    } else if !two_different(mods) && (forall|i: int|
        0 <= i < mods.len() ==> #[trigger] mods[i] == HotkeyModifier::Option || mods[i]
            == HotkeyModifier::Shift) {
        Some(BindingError::WeakModifier)
    } else {
        None
    }
}

proof fn keyed_error_is_the_fault(mods: Seq<HotkeyModifier>, key: Seq<char>)
    requires
        mods.len() > 0,
    ensures
        keyed_error(mods.to_set(), key) == shortcut_fault(mods, key),
{
    let set = mods.to_set();
    two_different_counts(mods);
    reveal_strlit("KeyV");
    assert("KeyV"@ =~= seq!['K', 'e', 'y', 'V']);
    let only = mods.contains(HotkeyModifier::Command) && forall|i: int|
        0 <= i < mods.len() ==> #[trigger] mods[i] == HotkeyModifier::Command || mods[i]
            == HotkeyModifier::Shift;
    let paste = set![HotkeyModifier::Command];
    let plain = set![HotkeyModifier::Command, HotkeyModifier::Shift];
    assert(only <==> set == paste || set == plain) by {
        if only {
            assert(set.contains(HotkeyModifier::Command));
            assert forall|m: HotkeyModifier| set.contains(m) implies plain.contains(m) by {
                let k = choose|k: int| 0 <= k < mods.len() && mods[k] == m;
                assert(mods[k] == m);
            }
            if set.contains(HotkeyModifier::Shift) {
                assert(set =~= plain);
            } else {
                assert(set =~= paste);
            }
        }
        if set == paste || set == plain {
            assert(set.contains(HotkeyModifier::Command));
            assert forall|i: int| 0 <= i < mods.len() implies #[trigger] mods[i]
                == HotkeyModifier::Command || mods[i] == HotkeyModifier::Shift by {
                assert(set.contains(mods[i]));
            }
        }
    }
    let weak = forall|i: int|
        0 <= i < mods.len() ==> #[trigger] mods[i] == HotkeyModifier::Option || mods[i]
            == HotkeyModifier::Shift;
    assert(weak <==> !set.contains(HotkeyModifier::Control) && !set.contains(
        HotkeyModifier::Command,
    ) && !set.contains(HotkeyModifier::Fn)) by {
        if weak {
            assert forall|m: HotkeyModifier| #[trigger] set.contains(m) implies m
                == HotkeyModifier::Option || m == HotkeyModifier::Shift by {
                let k = choose|k: int| 0 <= k < mods.len() && mods[k] == m;
                assert(mods[k] == m);
            }
        } else {
            let i = choose|i: int|
                0 <= i < mods.len() && !(#[trigger] mods[i] == HotkeyModifier::Option || mods[i]
                    == HotkeyModifier::Shift);
            assert(set.contains(mods[i]));
        }
    }
}

/// A dictation binding without a key is fine exactly if it names two different
/// modifiers. One with a key needs a modifier, and nothing may speak against the
/// shortcut.
pub proof fn dictation_bindings_that_are_fine(mods: Seq<HotkeyModifier>, key: Seq<char>)
    ensures
        dictation_error(mods.to_set(), None) == if two_different(mods) {
            None
        } else {
            Some(BindingError::TooFewModifiers)
        },
        dictation_error(mods.to_set(), Some(key)) == if mods.len() == 0 {
            Some(BindingError::MissingModifier)
        } else {
            shortcut_fault(mods, key)
        },
{
    two_different_counts(mods);
    empty_list_empty_set(mods);
    if mods.len() > 0 {
        keyed_error_is_the_fault(mods, key);
    }
}

/// A re-paste binding needs a modifier and a key that is not blank, and nothing
/// may speak against the shortcut.
pub proof fn repaste_bindings_that_are_fine(mods: Seq<HotkeyModifier>, key: Seq<char>)
    ensures
        repaste_error(mods.to_set(), key) == if mods.len() == 0 {
            Some(BindingError::MissingModifier)
        } else if forall|k: int| 0 <= k < key.len() ==> white_space(#[trigger] key[k]) {
            Some(BindingError::MissingKey)
        } else {
            shortcut_fault(mods, key)
        },
{
    empty_list_empty_set(mods);
    only_blank_text_trims_to_nothing(key);
    if mods.len() > 0 {
        keyed_error_is_the_fault(mods, key);
    }
}

/// The modifiers are written in the order fn, Control, Option, Shift, Command,
/// and each as often as it was given.
pub proof fn modifiers_are_written_in_order(mods: Seq<HotkeyModifier>)
    ensures
        canonical(mods).to_multiset() == mods.to_multiset(),
        forall|i: int, j: int|
            0 <= i < j < canonical(mods).len() ==> {
                let (a, b) = (#[trigger] canonical(mods)[i], #[trigger] canonical(mods)[j]);
                &&& a == HotkeyModifier::Command ==> b == HotkeyModifier::Command
                &&& a == HotkeyModifier::Shift ==> b == HotkeyModifier::Shift || b
                    == HotkeyModifier::Command
                &&& b == HotkeyModifier::Fn ==> a == HotkeyModifier::Fn
                &&& b == HotkeyModifier::Control ==> a == HotkeyModifier::Fn || a
                    == HotkeyModifier::Control
            },
{
    let outranks = rank::<HotkeyModifier>();
    assert(is_ranking(outranks));
    stable_sort_keeps_items(mods, outranks);
    stable_sort_in_rank_order(mods, outranks);
    let all = canonical(mods);
    assert forall|i: int, j: int| 0 <= i < j < all.len() implies {
        let (a, b) = (#[trigger] all[i], #[trigger] all[j]);
        &&& a == HotkeyModifier::Command ==> b == HotkeyModifier::Command
        &&& a == HotkeyModifier::Shift ==> b == HotkeyModifier::Shift || b
            == HotkeyModifier::Command
        &&& b == HotkeyModifier::Fn ==> a == HotkeyModifier::Fn
        &&& b == HotkeyModifier::Control ==> a == HotkeyModifier::Fn || a
            == HotkeyModifier::Control
    } by {
        assert(!outranks(all[j], all[i]));
    }
}

/// The glyphs of a list are those of its parts, one after another; a single
/// modifier has a glyph of its own.
pub proof fn glyphs_follow_the_modifiers(a: Seq<HotkeyModifier>, b: Seq<HotkeyModifier>)
    ensures
        glyphs(a + b) == glyphs(a) + glyphs(b),
        glyphs(seq![HotkeyModifier::Control]) == seq!['⌃'],
        glyphs(seq![HotkeyModifier::Option]) == seq!['⌥'],
        glyphs(seq![HotkeyModifier::Command]) == seq!['⌘'],
        glyphs(seq![HotkeyModifier::Shift]) == seq!['⇧'],
        glyphs(seq![HotkeyModifier::Fn]) == seq!['f', 'n'],
        glyphs(Seq::empty()).len() == 0,
    decreases b.len(),
{
    reveal_strlit("⌃");
    reveal_strlit("⌥");
    reveal_strlit("⌘");
    reveal_strlit("⇧");
    reveal_strlit("fn");
    reveal_with_fuel(glyphs, 2);
    let none = Seq::<char>::empty();
    assert(glyphs(seq![HotkeyModifier::Control]) =~= none + "⌃"@);
    assert(none + "⌃"@ =~= seq!['⌃']);
    assert(glyphs(seq![HotkeyModifier::Option]) =~= none + "⌥"@);
    assert(none + "⌥"@ =~= seq!['⌥']);
    assert(glyphs(seq![HotkeyModifier::Command]) =~= none + "⌘"@);
    assert(none + "⌘"@ =~= seq!['⌘']);
    assert(glyphs(seq![HotkeyModifier::Shift]) =~= none + "⇧"@);
    assert(none + "⇧"@ =~= seq!['⇧']);
    assert(glyphs(seq![HotkeyModifier::Fn]) =~= none + "fn"@);
    assert(none + "fn"@ =~= seq!['f', 'n']);
    if b.len() == 0 {
        assert(a + b =~= a);
        assert(glyphs(a) + glyphs(b) =~= glyphs(a));
    } else {
        assert((a + b).drop_last() =~= a + b.drop_last());
        glyphs_follow_the_modifiers(a, b.drop_last());
        assert(glyphs(a + b) =~= glyphs(a) + glyphs(b));
    }
}

/// Each modifier has the bit that the system sets for it.
pub proof fn bits_of_the_modifiers()
    ensures
        flags_mask(seq![HotkeyModifier::Shift]) == 0x2_0000,
        flags_mask(seq![HotkeyModifier::Control]) == 0x4_0000,
        flags_mask(seq![HotkeyModifier::Option]) == 0x8_0000,
        flags_mask(seq![HotkeyModifier::Command]) == 0x10_0000,
        flags_mask(seq![HotkeyModifier::Fn]) == 0x80_0000,
{
    reveal_with_fuel(flags_mask, 2);
    assert(forall|x: u64| #[trigger] (0u64 | x) == x) by (bit_vector);
    assert(seq![HotkeyModifier::Shift].drop_last() =~= Seq::empty());
    assert(seq![HotkeyModifier::Control].drop_last() =~= Seq::empty());
    assert(seq![HotkeyModifier::Option].drop_last() =~= Seq::empty());
    assert(seq![HotkeyModifier::Command].drop_last() =~= Seq::empty());
    assert(seq![HotkeyModifier::Fn].drop_last() =~= Seq::empty());
}

/// A letter or digit key is shown by its letter or digit, another one by its
/// code. What the key typed when it was recorded is shown instead, a single
/// character in upper case, unless it is blank.
pub proof fn keys_are_shown(code: Seq<char>, typed: Seq<char>)
    ensures
        key_label(seq!['K', 'e', 'y'] + code, None) == code,
        key_label(seq!['D', 'i', 'g', 'i', 't'] + code, None) == code,
        code.len() > 0 && code[0] != 'K' && code[0] != 'D' ==> key_label(code, None) == code,
        (forall|k: int| 0 <= k < typed.len() ==> white_space(#[trigger] typed[k])) ==> key_label(
            code,
            Some(typed),
        ) == key_label(code, None),
        typed.len() == 1 && !white_space(typed[0]) ==> key_label(code, Some(typed)) == uppercase(
            typed,
        ),
        typed.len() > 1 && !(forall|k: int| 0 <= k < typed.len() ==> white_space(#[trigger] typed[k]))
            ==> key_label(code, Some(typed)) == typed,
{
    reveal_strlit("Key");
    reveal_strlit("Digit");
    only_blank_text_trims_to_nothing(typed);
    let (key, number) = (seq!['K', 'e', 'y'], seq!['D', 'i', 'g', 'i', 't']);
    assert("Key"@ =~= key);
    assert("Digit"@ =~= number);
    assert((key + code).take(3) =~= key);
    assert((key + code).skip(3) =~= code);
    assert((number + code).take(5) =~= number);
    assert((number + code).skip(5) =~= code);
    assert(!key.is_prefix_of(number + code)) by {
        if key.is_prefix_of(number + code) {
            assert((number + code).take(3)[0] == 'K');
        }
    }
    if code.len() > 0 && code[0] != 'K' && code[0] != 'D' {
        if key.is_prefix_of(code) {
            assert(code.take(3)[0] == 'K');
        }
        if number.is_prefix_of(code) {
            assert(code.take(5)[0] == 'D');
        }
    }
}

/// An accelerator spells out the modifiers in the order in which they are written,
/// by name, and then the key, with plus signs between them.
pub proof fn accelerators_are_spelled_out(mods: Seq<HotkeyModifier>, key: Seq<char>, i: int)
    requires
        !key.contains('+'),
        0 <= i < mods.len(),
    ensures
        ({
            let parts = pieces(accelerator_text(mods, key), '+');
            &&& canonical(mods).len() == mods.len()
            &&& parts.len() == mods.len() + 1
            &&& parts.last() == key
            &&& parts[i] == match canonical(mods)[i] {
                HotkeyModifier::Control => seq!['C', 'o', 'n', 't', 'r', 'o', 'l'],
                HotkeyModifier::Option => seq!['O', 'p', 't', 'i', 'o', 'n'],
                HotkeyModifier::Command => seq!['C', 'o', 'm', 'm', 'a', 'n', 'd'],
                HotkeyModifier::Shift => seq!['S', 'h', 'i', 'f', 't'],
                HotkeyModifier::Fn => seq!['F', 'n'],
            }
        }),
{
    let own = canonical(mods);
    stable_sort_keeps_items(mods, rank::<HotkeyModifier>());
    let token = |m: HotkeyModifier| m.token();
    let parts = own.map_values(token).push(key);
    reveal_strlit("+");
    assert("+"@ =~= seq!['+']);
    assert forall|k: int| 0 <= k < parts.len() implies !(#[trigger] parts[k]).contains('+') by {
        if k < own.len() {
            token_is_plain(own[k]);
        }
    }
    splitting_undoes_joining(key, parts, '+');
    reveal_strlit("Control");
    reveal_strlit("Option");
    reveal_strlit("Command");
    reveal_strlit("Shift");
    reveal_strlit("Fn");
    assert("Control"@ =~= seq!['C', 'o', 'n', 't', 'r', 'o', 'l']);
    assert("Option"@ =~= seq!['O', 'p', 't', 'i', 'o', 'n']);
    assert("Command"@ =~= seq!['C', 'o', 'm', 'm', 'a', 'n', 'd']);
    assert("Shift"@ =~= seq!['S', 'h', 'i', 'f', 't']);
    assert("Fn"@ =~= seq!['F', 'n']);
    assert(parts[i] == own[i].token());
}

/// A binding is accepted exactly if nothing speaks against it, and what is
/// reported is what does.
pub proof fn faults_are_reported(error: Option<BindingError>)
    ensures
        outcome(error) is Ok <==> error is None,
        error matches Some(error) ==> outcome(Some(error)) == Err::<(), BindingError>(error),
{
}

/// The view of an optional string is that of the string.
pub proof fn option_views(text: String)
    ensures
        option_view(Some(text)) == Some(text@),
        option_view(None) is None,
{
}

} // verus!
