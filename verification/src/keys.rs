//! Keyboard input: prefix sequences, forwarded Kitty chords, and custom aliases.
//!
//! A Kitty chord arrives as a private escape sequence, `ESC _ D <tag> ESC \`,
//! which no terminal sends of its own accord. A portable sequence is Ctrl-Space
//! followed by one to three keys, which may arrive in separate reads. Everything
//! else is for the focused pane.

use crate::bindings::{
    action_name, begins_chord, bound_action, bound_action_at, chord_action, chord_bytes, chord_of,
    description, description_of, find_chord, find_kitty_chord, has_chord, is_bound,
    is_chord_prefix, kitty_action, name_of, named_action, parse_action_name, Action, BOUND_ACTIONS,
};
use crate::bytes::{first_where, first_where_is, first_where_none, same_bytes, starts_with};
use crate::text::{is_before, padded, push_padded, same_text, text_before, text_before_total, text_before_transitive};
use vstd::prelude::*;
use vstd::slice::slice_subrange;
use vstd::utf8::encode_utf8;

verus! {

/// What Ctrl-Space sends.
pub const PORTABLE_PREFIX: u8 = 0;

/// Which kinds of key sequences are listened to.
#[derive(Debug, Clone, Copy, PartialEq, Eq, Structural)]
pub enum BindingMode {
    Portable,
    Kitty,
    Both,
    /// Neither: another tool's prefix is in use.
    Tmux,
}

impl Default for BindingMode {
    fn default() -> (r: Self)
        ensures
            r == BindingMode::Portable,
    {
        BindingMode::Portable
    }
}

impl BindingMode {
    pub open spec fn has_portable(self) -> bool {
        self == BindingMode::Portable || self == BindingMode::Both
    }

    pub open spec fn has_kitty(self) -> bool {
        self == BindingMode::Kitty || self == BindingMode::Both
    }

    pub fn portable_enabled(self) -> (r: bool)
        ensures
            r == self.has_portable(),
    {
        matches!(self, BindingMode::Portable | BindingMode::Both)
    }

    pub fn kitty_enabled(self) -> (r: bool)
        ensures
            r == self.has_kitty(),
    {
        matches!(self, BindingMode::Kitty | BindingMode::Both)
    }
}

/// What stands around a chord's tag: `ESC _ D` and `ESC \`.
pub open spec fn framed(tag: Seq<u8>) -> Seq<u8> {
    seq![0x1bu8, 0x5f, 0x44] + tag + seq![0x1bu8, 0x5c]
}

/// The tag that `bytes` frames.
pub open spec fn framed_tag(bytes: Seq<u8>) -> Option<Seq<u8>> {
    let n = bytes.len() as int;
    if n >= 5 && bytes == framed(bytes.subrange(3, n - 2)) {
        Some(bytes.subrange(3, n - 2))
    } else {
        None
    }
}

/// The action that `bytes` is the chord of.
pub open spec fn chord_meaning(bytes: Seq<u8>) -> Action {
    match framed_tag(bytes) {
        Some(tag) => match chord_action(tag) {
            Some(action) => action,
            None => Action::PassThrough,
        },
        None => Action::PassThrough,
    }
}

/// The action with this tag.
pub fn action_for_tag(tag: &[u8]) -> (r: Option<Action>)
    ensures
        r == chord_action(tag@),
{
    find_chord(tag)
}

/// Parse one input event, which holds a chord whole or not at all.
pub fn parse(bytes: &[u8]) -> (r: Action)
    ensures
        r == chord_meaning(bytes@),
{
    let n = bytes.len();
    if n < 5 || bytes[0] != 0x1b || bytes[1] != 0x5f || bytes[2] != 0x44 || bytes[n - 2] != 0x1b
        || bytes[n - 1] != 0x5c {
        proof {
            let tag = bytes@.subrange(3, n - 2);
            if n >= 5 && bytes@ == framed(tag) {
                assert(framed(tag)[0] == 0x1b && framed(tag)[1] == 0x5f && framed(tag)[2] == 0x44);
                assert(framed(tag)[n - 2] == 0x1b && framed(tag)[n - 1] == 0x5c);
            }
        }
        return Action::PassThrough;
    }
    let tag = slice_subrange(bytes, 3, n - 2);
    assert(bytes@ =~= framed(tag@));
    match action_for_tag(tag) {
        Some(action) => action,
        None => Action::PassThrough,
    }
}

/// Every bound action's chord is understood, and means that action.
pub proof fn chord_means_its_action(action: Action)
    requires
        is_bound(action),
    ensures
        chord_meaning(framed(chord_of(action))) == action,
{
    crate::bindings::chords_round_trip(action);
    let bytes = framed(chord_of(action));
    assert(bytes.subrange(3, bytes.len() - 2) =~= chord_of(action));
}

/// What Shift-Enter sends where the terminal is set up for it.
pub const SHIFT_ENTER_CHORD: [u8; 6] = [0x1b, 0x5f, 0x44, 0x73, 0x1b, 0x5c];

/// Whether `bytes` is Shift-Enter.
pub open spec fn is_shift_enter(bytes: Seq<u8>) -> bool {
    bytes == framed(seq![0x73u8])
}

/// Whether `bytes` is Shift-Enter.
pub fn shift_enter_pressed(bytes: &[u8]) -> (r: bool)
    ensures
        r == is_shift_enter(bytes@),
{
    let chord: [u8; 6] = SHIFT_ENTER_CHORD;
    assert(chord@ =~= framed(seq![0x73u8]));
    same_bytes(bytes, &chord)
}

/// Shift-Enter is no action's chord.
pub proof fn shift_enter_is_no_action()
    ensures
        chord_meaning(framed(seq![0x73u8])) == Action::PassThrough,
{
    let bytes = framed(seq![0x73u8]);
    assert(bytes.subrange(3, bytes.len() - 2) =~= seq![0x73u8]);
    let p = crate::bindings::has_chord(seq![0x73u8]);
    assert forall|j: int| 0 <= j < BOUND_ACTIONS implies !#[trigger] p(j) by {
        let chord = chord_of(bound_action_at(j));
        if chord == seq![0x73u8] {
            assert(chord.len() == 1 && chord[0] == 0x73);
        }
    }
    first_where_none(p, 0, BOUND_ACTIONS as int);
}

/// Text to text, in the order of the keys.
#[derive(Debug, PartialEq, Eq)]
pub struct AliasMap {
    pub entries: Vec<(String, String)>,
}

/// The entries as text.
pub open spec fn entry_views(entries: Seq<(String, String)>) -> Seq<(Seq<char>, Seq<char>)> {
    Seq::new(entries.len(), |i: int| (entries[i].0@, entries[i].1@))
}

/// Whether the keys stand in ascending order, so that none occurs twice.
pub open spec fn ascending(entries: Seq<(Seq<char>, Seq<char>)>) -> bool {
    forall|i: int, j: int|
        0 <= i < j < entries.len() ==> text_before(
            (#[trigger] entries[i]).0,
            (#[trigger] entries[j]).0,
        )
}

/// The map that a list of entries stands for.
pub open spec fn entry_map(entries: Seq<(Seq<char>, Seq<char>)>) -> Map<Seq<char>, Seq<char>> {
    Map::new(
        |key: Seq<char>| exists|i: int| 0 <= i < entries.len() && (#[trigger] entries[i]).0 == key,
        |key: Seq<char>|
            entries[choose|i: int| 0 <= i < entries.len() && (#[trigger] entries[i]).0 == key].1,
    )
}

/// Each entry of an ascending list is what the map holds for its key.
proof fn entry_map_holds(entries: Seq<(Seq<char>, Seq<char>)>, i: int)
    requires
        ascending(entries),
        0 <= i < entries.len(),
    ensures
        entry_map(entries).contains_key(entries[i].0),
        entry_map(entries)[entries[i].0] == entries[i].1,
{
    let key = entries[i].0;
    let j = choose|j: int| 0 <= j < entries.len() && (#[trigger] entries[j]).0 == key;
    assert(entries[j].0 == key);
    text_before_total(entries[i].0, entries[j].0);
}

impl AliasMap {
    pub open spec fn list(self) -> Seq<(Seq<char>, Seq<char>)> {
        entry_views(self.entries@)
    }

    pub open spec fn wf(self) -> bool {
        ascending(self.list())
    }

    pub open spec fn map(self) -> Map<Seq<char>, Seq<char>> {
        entry_map(self.list())
    }

    pub fn new() -> (r: Self)
        ensures
            r.wf(),
            r.list() == Seq::<(Seq<char>, Seq<char>)>::empty(),
            r.map() == Map::<Seq<char>, Seq<char>>::empty(),
    {
        let r = AliasMap { entries: Vec::new() };
        assert(r.list() =~= Seq::empty());
        assert(r.map() =~= Map::empty());
        r
    }

    /// Where `key` stands, or where it would have to be put.
    fn find(&self, key: &str) -> (r: (usize, bool))
        requires
            self.wf(),
        ensures
            r.0 <= self.list().len(),
            forall|j: int|
                0 <= j < r.0 ==> text_before((#[trigger] self.list()[j]).0, key@),
            r.1 ==> r.0 < self.list().len() && self.list()[r.0 as int].0 == key@,
            !r.1 ==> forall|j: int|
                r.0 <= j < self.list().len() ==> text_before(
                    key@,
                    (#[trigger] self.list()[j]).0,
                ),
    {
        let mut i: usize = 0;
        while i < self.entries.len() && is_before(self.entries[i].0.as_str(), key)
            invariant
                i <= self.entries@.len(),
                forall|j: int| 0 <= j < i ==> text_before((#[trigger] self.list()[j]).0, key@),
            decreases self.entries@.len() - i,
        {
            assert(self.list()[i as int].0 == self.entries@[i as int].0@);
            i += 1;
        }
        if i < self.entries.len() && same_text(self.entries[i].0.as_str(), key) {
            (i, true)
        } else {
            proof {
                if i < self.entries@.len() {
                    let at = self.list()[i as int].0;
                    text_before_total(at, key@);
                    assert forall|j: int| i <= j < self.list().len() implies text_before(
                        key@,
                        (#[trigger] self.list()[j]).0,
                    ) by {
                        if j > i {
                            text_before_transitive(key@, at, self.list()[j].0);
                        }
                    }
                }
            }
            (i, false)
        }
    }

    /// Let `key` stand for `value`.
    pub fn insert(&mut self, key: String, value: String)
        requires
            old(self).wf(),
        ensures
            final(self).wf(),
            final(self).map() == old(self).map().insert(key@, value@),
    {
        let ghost before = self.list();
        let (at, found) = self.find(key.as_str());
        let ghost k = key@;
        let ghost v = value@;
        if found {
            self.entries[at].1 = value;
            assert(self.list() =~= before.update(at as int, (k, v)));
        } else {
            self.entries.insert(at, (key, value));
            assert(self.list() =~= before.insert(at as int, (k, v)));
        }
        proof {
            let after = self.list();
            assert(after[at as int] == (k, v));
            assert(ascending(after)) by {
                assert forall|i: int, j: int| 0 <= i < j < after.len() implies text_before(
                    (#[trigger] after[i]).0,
                    (#[trigger] after[j]).0,
                ) by {
                    if found {
                        assert(after[i].0 == before[i].0 && after[j].0 == before[j].0);
                    } else {
                        if i < at {
                            assert(after[i] == before[i]);
                        } else if i > at {
                            assert(after[i] == before[i - 1]);
                        }
                        if j < at {
                            assert(after[j] == before[j]);
                        } else if j > at {
                            assert(after[j] == before[j - 1]);
                        }
                    }
                }
            }
            assert(entry_map(after) =~= entry_map(before).insert(k, v)) by {
                entry_map_holds(after, at as int);
                assert forall|key: Seq<char>| key != k implies #[trigger] entry_map(
                    after,
                ).dom().contains(key) == entry_map(before).dom().contains(key) && (entry_map(
                    after,
                ).dom().contains(key) ==> entry_map(after)[key] == entry_map(before)[key]) by {
                    if entry_map(after).contains_key(key) {
                        let i = choose|i: int| 0 <= i < after.len() && (#[trigger] after[i]).0 == key;
                        entry_map_holds(after, i);
                        let b = if found || i < at {
                            i
                        } else {
                            i - 1
                        };
                        assert(before[b] == after[i]);
                        entry_map_holds(before, b);
                    }
                    if entry_map(before).contains_key(key) {
                        let b = choose|b: int|
                            0 <= b < before.len() && (#[trigger] before[b]).0 == key;
                        let i = if found || b < at {
                            b
                        } else {
                            b + 1
                        };
                        assert(before[b] == after[i]);
                        entry_map_holds(after, i);
                    }
                }
            }
        }
    }

    /// Forget `key`.
    pub fn remove(&mut self, key: &str)
        requires
            old(self).wf(),
        ensures
            final(self).wf(),
            final(self).map() == old(self).map().remove(key@),
    {
        let ghost before = self.list();
        let (at, found) = self.find(key);
        if !found {
            proof {
                assert(!entry_map(before).contains_key(key@)) by {
                    if entry_map(before).contains_key(key@) {
                        let i = choose|i: int|
                            0 <= i < before.len() && (#[trigger] before[i]).0 == key@;
                        text_before_total(before[i].0, key@);
                    }
                }
                assert(entry_map(before).remove(key@) =~= entry_map(before));
            }
            return ;
        }
        let _ = self.entries.remove(at);
        proof {
            let after = self.list();
            assert(after =~= before.remove(at as int));
            assert(ascending(after)) by {
                assert forall|i: int, j: int| 0 <= i < j < after.len() implies text_before(
                    (#[trigger] after[i]).0,
                    (#[trigger] after[j]).0,
                ) by {
                    let bi = if i < at {
                        i
                    } else {
                        i + 1
                    };
                    let bj = if j < at {
                        j
                    } else {
                        j + 1
                    };
                    assert(before[bi] == after[i] && before[bj] == after[j]);
                }
            }
            assert(entry_map(after) =~= entry_map(before).remove(key@)) by {
                assert(!entry_map(after).contains_key(key@)) by {
                    if entry_map(after).contains_key(key@) {
                        let i = choose|i: int|
                            0 <= i < after.len() && (#[trigger] after[i]).0 == key@;
                        let b = if i < at {
                            i
                        } else {
                            i + 1
                        };
                        assert(before[b] == after[i]);
                        assert(before[at as int].0 == key@);
                        text_before_total(before[b].0, before[at as int].0);
                    }
                }
                assert forall|k: Seq<char>| k != key@ implies #[trigger] entry_map(
                    after,
                ).dom().contains(k) == entry_map(before).dom().contains(k) && (entry_map(
                    after,
                ).dom().contains(k) ==> entry_map(after)[k] == entry_map(before)[k]) by {
                    if entry_map(after).contains_key(k) {
                        let i = choose|i: int| 0 <= i < after.len() && (#[trigger] after[i]).0 == k;
                        let b = if i < at {
                            i
                        } else {
                            i + 1
                        };
                        assert(before[b] == after[i]);
                        entry_map_holds(before, b);
                        entry_map_holds(after, i);
                    }
                    if entry_map(before).contains_key(k) {
                        let b = choose|b: int|
                            0 <= b < before.len() && (#[trigger] before[b]).0 == k;
                        let i = if b < at {
                            b
                        } else {
                            b - 1
                        };
                        assert(before[b] == after[i]);
                        entry_map_holds(after, i);
                    }
                }
            }
        }
    }

    /// Forget everything.
    pub fn clear(&mut self)
        ensures
            final(self).wf(),
            final(self).list() == Seq::<(Seq<char>, Seq<char>)>::empty(),
            final(self).map() == Map::<Seq<char>, Seq<char>>::empty(),
    {
        self.entries.clear();
        assert(self.list() =~= Seq::empty());
        assert(self.map() =~= Map::empty());
    }
}

/// What the configuration file holds.
#[derive(Debug, PartialEq, Eq)]
pub struct KeybindingConfig {
    pub version: u8,
    pub mode: BindingMode,
    /// Custom portable sequences and the names of their actions.
    pub bindings: AliasMap,
    /// Custom Kitty chords and the names of their actions.
    pub kitty_bindings: AliasMap,
    /// Whether the first-run wizard has been shown.
    pub first_run_seen: bool,
}

impl KeybindingConfig {
    pub open spec fn wf(self) -> bool {
        self.bindings.wf() && self.kitty_bindings.wf()
    }
}

impl Default for KeybindingConfig {
    fn default() -> (r: Self)
        ensures
            r.wf(),
            r.version == 1,
            r.mode == BindingMode::Portable,
            r.bindings.list().len() == 0,
            r.kitty_bindings.list().len() == 0,
            !r.first_run_seen,
    {
        KeybindingConfig {
            version: 1,
            mode: BindingMode::Portable,
            bindings: AliasMap::new(),
            kitty_bindings: AliasMap::new(),
            first_run_seen: false,
        }
    }
}

/// The configured mode.
pub fn load_mode(config: &KeybindingConfig) -> (r: BindingMode)
    ensures
        r == config.mode,
{
    config.mode
}

/// The configuration with another mode.
pub open spec fn with_mode(config: KeybindingConfig, mode: BindingMode) -> KeybindingConfig {
    KeybindingConfig { mode, ..config }
}

/// Set the configured mode.
pub fn save_mode(config: &mut KeybindingConfig, mode: BindingMode)
    ensures
        *final(config) == with_mode(*old(config), mode),
{
    config.mode = mode;
}

/// The mode that was set is the mode that is read, and the custom bindings are
/// none of its business.
pub proof fn set_mode_is_read(config: KeybindingConfig, mode: BindingMode)
    ensures
        with_mode(config, mode).mode == mode,
        with_mode(config, mode).bindings == config.bindings,
        with_mode(config, mode).kitty_bindings == config.kitty_bindings,
        with_mode(config, mode).first_run_seen == config.first_run_seen,
        config.wf() ==> with_mode(config, mode).wf(),
{
}

/// The configuration with the first-run wizard marked as shown, and whether it
/// was due.
pub open spec fn first_run_consumed(config: KeybindingConfig) -> (KeybindingConfig, bool) {
    (KeybindingConfig { first_run_seen: true, ..config }, !config.first_run_seen)
}

/// Whether the first-run wizard is due. Asking marks it as shown.
pub fn consume_first_run(config: &mut KeybindingConfig) -> (r: bool)
    ensures
        (*final(config), r) == first_run_consumed(*old(config)),
{
    let available = !config.first_run_seen;
    config.first_run_seen = true;
    available
}

/// Whether the first-run wizard is shown, given whether it was due and whether the
/// mark could be saved. Where it could not, the wizard would be due at every
/// attach, so it is not shown at all.
pub fn shows_first_run(due: bool, saved: bool) -> (r: bool)
    ensures
        r == (due && saved),
{
    due && saved
}

/// The first-run wizard is due at most once, and in a fresh configuration it is.
pub proof fn first_run_is_due_once(config: KeybindingConfig)
    ensures
        !first_run_consumed(first_run_consumed(config).0).1,
        !config.first_run_seen ==> first_run_consumed(config).1,
{
}

/// Why a custom binding is refused.
#[derive(Debug, PartialEq, Eq)]
pub enum BindingError {
    UnknownAction { name: String },
    NothingGiven,
    BadSequence,
    SequenceTaken { sequence: String, by: Action },
    BadChord,
    ChordTaken { chord: String, by: Action },
}

/// Whether every byte of `s` is a visible ASCII character.
pub open spec fn is_printable(s: Seq<u8>) -> bool {
    forall|i: int| 0 <= i < s.len() ==> 0x21 <= #[trigger] s[i] <= 0x7e
}

/// Whether a custom portable sequence has a fit form: one to three visible ASCII
/// characters.
pub open spec fn is_sequence(s: Seq<u8>) -> bool {
    1 <= s.len() <= 3 && is_printable(s)
}

/// Whether a custom Kitty chord has a fit form: visible ASCII characters.
pub open spec fn is_chord(s: Seq<u8>) -> bool {
    s.len() > 0 && is_printable(s)
}

fn printable(s: &[u8]) -> (r: bool)
    ensures
        r == is_printable(s@),
{
    let mut i: usize = 0;
    while i < s.len()
        invariant
            i <= s@.len(),
            forall|j: int| 0 <= j < i ==> 0x21 <= #[trigger] s@[j] <= 0x7e,
        decreases s@.len() - i,
    {
        if s[i] < 0x21 || s[i] > 0x7e {
            return false;
        }
        i += 1;
    }
    true
}

/// What is wrong with a custom portable sequence for `action`, if anything.
pub open spec fn sequence_is_refused(sequence: Seq<char>, action: Action, e: BindingError) -> bool {
    let keys = encode_utf8(sequence);
    if !is_sequence(keys) {
        e == BindingError::BadSequence
    } else {
        e matches BindingError::SequenceTaken { sequence: s, by } && s@ == sequence && by != action
            && chord_action(keys) == Some(by)
    }
}

pub open spec fn sequence_is_free(sequence: Seq<char>, action: Action) -> bool {
    let keys = encode_utf8(sequence);
    is_sequence(keys) && (chord_action(keys) matches Some(by) ==> by == action)
}

fn check_sequence(sequence: &str, action: Action) -> (r: Result<(), BindingError>)
    ensures
        match r {
            Ok(()) => sequence_is_free(sequence@, action),
            Err(e) => !sequence_is_free(sequence@, action) && sequence_is_refused(
                sequence@,
                action,
                e,
            ),
        },
{
    let keys = sequence.as_bytes();
    if keys.len() == 0 || keys.len() > 3 || !printable(keys) {
        return Err(BindingError::BadSequence);
    }
    match find_chord(keys) {
        Some(by) => {
            if by != action {
                return Err(BindingError::SequenceTaken { sequence: sequence.to_owned(), by });
            }
            Ok(())
        },
        None => Ok(()),
    }
}

/// What is wrong with a custom Kitty chord for `action`, if anything.
pub open spec fn chord_is_refused(chord: Seq<char>, action: Action, e: BindingError) -> bool {
    if !is_chord(encode_utf8(chord)) {
        e == BindingError::BadChord
    } else {
        e matches BindingError::ChordTaken { chord: c, by } && c@ == chord && by != action
            && kitty_action(chord) == Some(by)
    }
}

pub open spec fn chord_is_free(chord: Seq<char>, action: Action) -> bool {
    is_chord(encode_utf8(chord)) && (kitty_action(chord) matches Some(by) ==> by == action)
}

fn check_chord(chord: &str, action: Action) -> (r: Result<(), BindingError>)
    ensures
        match r {
            Ok(()) => chord_is_free(chord@, action),
            Err(e) => !chord_is_free(chord@, action) && chord_is_refused(chord@, action, e),
        },
{
    let keys = chord.as_bytes();
    if keys.len() == 0 || !printable(keys) {
        return Err(BindingError::BadChord);
    }
    match find_kitty_chord(chord) {
        Some(by) => {
            if by != action {
                return Err(BindingError::ChordTaken { chord: chord.to_owned(), by });
            }
            Ok(())
        },
        None => Ok(()),
    }
}

/// What a text stands for after it was added, if it was given.
pub open spec fn with_alias(
    map: Map<Seq<char>, Seq<char>>,
    key: Option<&str>,
    value: Seq<char>,
) -> Map<Seq<char>, Seq<char>> {
    match key {
        Some(key) => map.insert(key@, value),
        None => map,
    }
}

/// Why adding a custom binding is refused, in the order in which it is found out.
pub open spec fn add_is_refused(
    name: Seq<char>,
    portable: Option<&str>,
    kitty: Option<&str>,
    e: BindingError,
) -> bool {
    match named_action(name) {
        None => e matches BindingError::UnknownAction { name: n } && n@ == name,
        Some(action) => if portable is None && kitty is None {
            e == BindingError::NothingGiven
        } else if portable matches Some(s) && !sequence_is_free(s@, action) {
            sequence_is_refused(portable->0@, action, e)
        } else {
            kitty is Some && !chord_is_free(kitty->0@, action) && chord_is_refused(
                kitty->0@,
                action,
                e,
            )
        },
    }
}

/// Whether a custom binding may be added.
pub open spec fn add_is_allowed(
    name: Seq<char>,
    portable: Option<&str>,
    kitty: Option<&str>,
) -> bool {
    match named_action(name) {
        None => false,
        Some(action) => {
            &&& portable is Some || kitty is Some
            &&& portable matches Some(s) ==> sequence_is_free(s@, action)
            &&& kitty matches Some(c) ==> chord_is_free(c@, action)
        },
    }
}

/// Add a custom portable sequence, a custom Kitty chord, or both, for the named
/// action. Keys that another action has from the table are refused, and a
/// refusal changes nothing.
pub fn add_custom_binding(
    config: &mut KeybindingConfig,
    action: &str,
    portable: Option<&str>,
    kitty: Option<&str>,
) -> (r: Result<(), BindingError>)
    requires
        old(config).wf(),
    ensures
        final(config).wf(),
        match r {
            Ok(()) => {
                &&& add_is_allowed(action@, portable, kitty)
                &&& final(config).bindings.map() == with_alias(
                    old(config).bindings.map(),
                    portable,
                    action@,
                )
                &&& final(config).kitty_bindings.map() == with_alias(
                    old(config).kitty_bindings.map(),
                    kitty,
                    action@,
                )
                &&& *final(config) == (KeybindingConfig {
                    bindings: final(config).bindings,
                    kitty_bindings: final(config).kitty_bindings,
                    ..*old(config)
                })
            },
            Err(e) => {
                &&& !add_is_allowed(action@, portable, kitty)
                &&& add_is_refused(action@, portable, kitty, e)
                &&& *final(config) == *old(config)
            },
        },
{
    let resolved = match parse_action_name(action) {
        Some(resolved) => resolved,
        None => {
            return Err(BindingError::UnknownAction { name: action.to_owned() });
        },
    };
    if portable.is_none() && kitty.is_none() {
        return Err(BindingError::NothingGiven);
    }
    match portable {
        Some(sequence) => match check_sequence(sequence, resolved) {
            Ok(()) => {},
            Err(e) => {
                return Err(e);
            },
        },
        None => {},
    }
    match kitty {
        Some(chord) => match check_chord(chord, resolved) {
            Ok(()) => {},
            Err(e) => {
                return Err(e);
            },
        },
        None => {},
    }
    match portable {
        Some(sequence) => {
            config.bindings.insert(sequence.to_owned(), action.to_owned());
        },
        None => {},
    }
    match kitty {
        Some(chord) => {
            config.kitty_bindings.insert(chord.to_owned(), action.to_owned());
        },
        None => {},
    }
    Ok(())
}

/// What a text stands for after it was forgotten, if it was given.
pub open spec fn without_alias(
    map: Map<Seq<char>, Seq<char>>,
    key: Option<&str>,
) -> Map<Seq<char>, Seq<char>> {
    match key {
        Some(key) => map.remove(key@),
        None => map,
    }
}

/// Remove a custom portable sequence, a custom Kitty chord, or both.
pub fn remove_custom_binding(
    config: &mut KeybindingConfig,
    portable: Option<&str>,
    kitty: Option<&str>,
) -> (r: Result<(), BindingError>)
    requires
        old(config).wf(),
    ensures
        final(config).wf(),
        match r {
            Ok(()) => {
                &&& portable is Some || kitty is Some
                &&& final(config).bindings.map() == without_alias(
                    old(config).bindings.map(),
                    portable,
                )
                &&& final(config).kitty_bindings.map() == without_alias(
                    old(config).kitty_bindings.map(),
                    kitty,
                )
                &&& *final(config) == (KeybindingConfig {
                    bindings: final(config).bindings,
                    kitty_bindings: final(config).kitty_bindings,
                    ..*old(config)
                })
            },
            Err(e) => {
                &&& portable is None && kitty is None
                &&& e == BindingError::NothingGiven
                &&& *final(config) == *old(config)
            },
        },
{
    if portable.is_none() && kitty.is_none() {
        return Err(BindingError::NothingGiven);
    }
    match portable {
        Some(sequence) => {
            config.bindings.remove(sequence);
        },
        None => {},
    }
    match kitty {
        Some(chord) => {
            config.kitty_bindings.remove(chord);
        },
        None => {},
    }
    Ok(())
}

/// Forget every custom binding.
pub fn reset_custom_bindings(config: &mut KeybindingConfig)
    ensures
        final(config).wf(),
        final(config).bindings.list().len() == 0,
        final(config).kitty_bindings.list().len() == 0,
        *final(config) == (KeybindingConfig {
            bindings: final(config).bindings,
            kitty_bindings: final(config).kitty_bindings,
            ..*old(config)
        }),
{
    config.bindings.clear();
    config.kitty_bindings.clear();
}

/// Removing what was just added leaves the aliases as they were before, if they
/// did not hold it already.
pub proof fn remove_undoes_add(
    map: Map<Seq<char>, Seq<char>>,
    key: Option<&str>,
    value: Seq<char>,
)
    requires
        key matches Some(k) ==> !map.contains_key(k@),
    ensures
        without_alias(with_alias(map, key, value), key) == map,
{
    match key {
        Some(k) => {
            assert(map.insert(k@, value).remove(k@) =~= map);
        },
        None => {},
    }
}

/// `text` in double quotes, with the escapes that Rust uses.
pub uninterp spec fn quoted_text(text: Seq<char>) -> Seq<char>;

/// `<str as std::fmt::Debug>::fmt`, through `format!`. The result depends on the
/// text alone and is given the name `quoted_text`.
#[verifier::external_body]
fn quote(text: &str) -> (r: String)
    ensures
        r@ == quoted_text(text@),
{
    format!("{text:?}")
}

impl BindingError {
    /// The text that the message quotes, if it quotes one.
    pub open spec fn subject(self) -> Seq<char> {
        match self {
            BindingError::UnknownAction { name } => name@,
            BindingError::SequenceTaken { sequence, .. } => sequence@,
            BindingError::ChordTaken { chord, .. } => chord@,
            _ => Seq::empty(),
        }
    }

    /// The message, with what it quotes already quoted.
    pub open spec fn wording(self, quoted: Seq<char>) -> Seq<char> {
        match self {
            BindingError::UnknownAction { .. } => "unknown action "@ + quoted
                + "; run `dimax keys list`"@,
            BindingError::NothingGiven => "provide --portable, --kitty, or both"@,
            BindingError::BadSequence => "portable sequence must be 1-3 printable ASCII bytes"@,
            BindingError::SequenceTaken { by, .. } => "portable sequence "@ + quoted
                + " is already bound to "@ + name_of(by),
            BindingError::BadChord =>
                "Kitty chord must be non-empty printable ASCII without spaces"@,
            BindingError::ChordTaken { by, .. } => "Kitty chord "@ + quoted
                + " is already bound to "@ + name_of(by),
        }
    }

    /// The message, with what it quotes already quoted.
    pub fn message_quoting(&self, quoted: &str) -> (r: String)
        ensures
            r@ == self.wording(quoted@),
    {
        let mut out = String::new();
        match self {
            BindingError::UnknownAction { .. } => {
                out.append("unknown action ");
                out.append(quoted);
                out.append("; run `dimax keys list`");
            },
            BindingError::NothingGiven => {
                out.append("provide --portable, --kitty, or both");
            },
            BindingError::BadSequence => {
                out.append("portable sequence must be 1-3 printable ASCII bytes");
            },
            BindingError::SequenceTaken { by, .. } => {
                out.append("portable sequence ");
                out.append(quoted);
                out.append(" is already bound to ");
                out.append(action_name(*by));
            },
            BindingError::BadChord => {
                out.append("Kitty chord must be non-empty printable ASCII without spaces");
            },
            BindingError::ChordTaken { by, .. } => {
                out.append("Kitty chord ");
                out.append(quoted);
                out.append(" is already bound to ");
                out.append(action_name(*by));
            },
        }
        assert(out@ =~= self.wording(quoted@));
        out
    }

    /// What to tell the user.
    pub fn message(&self) -> (r: String)
        ensures
            r@ == self.wording(quoted_text(self.subject())),
    {
        let quoted = match self {
            BindingError::UnknownAction { name } => quote(name.as_str()),
            BindingError::SequenceTaken { sequence, .. } => quote(sequence.as_str()),
            BindingError::ChordTaken { chord, .. } => quote(chord.as_str()),
            _ => quote(""),
        };
        proof {
            reveal_strlit("");
            assert(""@ =~= Seq::<char>::empty());
        }
        self.message_quoting(quoted.as_str())
    }
}

/// The custom Kitty chords whose action is known, with that action's tag.
pub open spec fn kitty_tags(list: Seq<(Seq<char>, Seq<char>)>) -> Seq<(Seq<char>, Seq<u8>)>
    decreases list.len(),
{
    if list.len() == 0 {
        seq![]
    } else {
        let before = kitty_tags(list.drop_last());
        match named_action(list.last().1) {
            Some(action) => before.push((list.last().0, chord_of(action))),
            None => before,
        }
    }
}

/// The custom Kitty chords whose action is known, with that action's tag.
pub fn custom_kitty_bindings(config: &KeybindingConfig) -> (r: Vec<(String, Vec<u8>)>)
    ensures
        Seq::new(r@.len(), |i: int| (r@[i].0@, r@[i].1@)) == kitty_tags(
            config.kitty_bindings.list(),
        ),
{
    let ghost list = config.kitty_bindings.list();
    let entries = &config.kitty_bindings.entries;
    let mut out: Vec<(String, Vec<u8>)> = Vec::new();
    let mut i: usize = 0;
    while i < entries.len()
        invariant
            i <= entries@.len(),
            list == entry_views(entries@),
            Seq::new(out@.len(), |i: int| (out@[i].0@, out@[i].1@)) =~= kitty_tags(
                list.take(i as int),
            ),
        decreases entries@.len() - i,
    {
        let ghost before = Seq::new(out@.len(), |i: int| (out@[i].0@, out@[i].1@));
        assert(list.take(i + 1).drop_last() =~= list.take(i as int));
        match parse_action_name(entries[i].1.as_str()) {
            Some(action) => {
                let tag = vstd::slice::slice_to_vec(chord_bytes(action));
                out.push((entries[i].0.clone(), tag));
                assert(Seq::new(out@.len(), |i: int| (out@[i].0@, out@[i].1@)) =~= before.push(
                    (list[i as int].0, chord_of(action)),
                ));
            },
            None => {},
        }
        i += 1;
    }
    assert(list.take(list.len() as int) =~= list);
    out
}

/// ASCII bytes as text.
pub open spec fn ascii_text(bytes: Seq<u8>) -> Seq<char> {
    Seq::new(bytes.len(), |i: int| bytes[i] as char)
}

fn to_text(bytes: &[u8]) -> (r: String)
    ensures
        r@ == ascii_text(bytes@),
{
    let mut out = String::new();
    let mut i: usize = 0;
    while i < bytes.len()
        invariant
            i <= bytes@.len(),
            out@ =~= ascii_text(bytes@.take(i as int)),
        decreases bytes@.len() - i,
    {
        out.push(bytes[i] as char);
        i += 1;
    }
    assert(bytes@.take(bytes@.len() as int) =~= bytes@);
    out
}

/// One line of the listing of portable sequences.
pub open spec fn portable_line(action: Action) -> Seq<char> {
    "Ctrl-Space, "@ + padded(ascii_text(chord_of(action)), 3) + "  "@ + padded(name_of(action), 18)
        + "  "@ + description_of(action) + "\n"@
}

/// The first `n` lines of the listing of portable sequences.
pub open spec fn portable_lines(n: int) -> Seq<char>
    decreases n,
{
    if n <= 0 {
        seq![]
    } else {
        portable_lines(n - 1) + portable_line(bound_action_at(n - 1))
    }
}

/// The listing of portable sequences.
pub fn render_portable_bindings() -> (r: String)
    ensures
        r@ == "Portable prefix: Ctrl-Space\n\n"@ + portable_lines(BOUND_ACTIONS as int)
            + "Ctrl-Space, Ctrl-Space  send a literal Ctrl-Space\n"@,
{
    let mut out = "Portable prefix: Ctrl-Space\n\n".to_owned();
    let ghost heading = out@;
    let mut i: usize = 0;
    assert(out@ =~= heading + portable_lines(0));
    while i < BOUND_ACTIONS
        invariant
            i <= BOUND_ACTIONS,
            out@ == heading + portable_lines(i as int),
        decreases BOUND_ACTIONS - i,
    {
        let ghost before = out@;
        let action = bound_action(i);
        let keys = to_text(chord_bytes(action));
        out.append("Ctrl-Space, ");
        push_padded(&mut out, keys.as_str(), 3);
        out.append("  ");
        push_padded(&mut out, action_name(action), 18);
        out.append("  ");
        out.append(description(action));
        out.append("\n");
        assert(out@ =~= before + portable_line(action));
        assert(out@ =~= heading + portable_lines(i + 1));
        i += 1;
    }
    out.append("Ctrl-Space, Ctrl-Space  send a literal Ctrl-Space\n");
    out
}

/// The lines of a listing of aliases: each key after `lead`, filled up to
/// `width`.
pub open spec fn alias_lines(
    lead: Seq<char>,
    width: int,
    list: Seq<(Seq<char>, Seq<char>)>,
) -> Seq<char>
    decreases list.len(),
{
    if list.len() == 0 {
        seq![]
    } else {
        alias_lines(lead, width, list.drop_last()) + (lead + padded(list.last().0, width) + "  "@
            + list.last().1 + "\n"@)
    }
}

/// A listing of aliases under a heading; nothing where there are none.
pub open spec fn alias_listing(
    heading: Seq<char>,
    lead: Seq<char>,
    width: int,
    list: Seq<(Seq<char>, Seq<char>)>,
) -> Seq<char> {
    if list.len() == 0 {
        seq![]
    } else {
        heading + alias_lines(lead, width, list)
    }
}

fn push_aliases(out: &mut String, heading: &str, lead: &str, width: usize, map: &AliasMap)
    ensures
        final(out)@ == old(out)@ + alias_listing(heading@, lead@, width as int, map.list()),
{
    if map.entries.len() == 0 {
        assert(out@ =~= old(out)@ + alias_listing(heading@, lead@, width as int, map.list()));
        return ;
    }
    out.append(heading);
    let ghost start = out@;
    let ghost list = map.list();
    let mut i: usize = 0;
    assert(out@ =~= start + alias_lines(lead@, width as int, list.take(0)));
    while i < map.entries.len()
        invariant
            i <= map.entries@.len(),
            list == map.list(),
            out@ == start + alias_lines(lead@, width as int, list.take(i as int)),
        decreases map.entries@.len() - i,
    {
        let ghost before = out@;
        out.append(lead);
        push_padded(out, map.entries[i].0.as_str(), width);
        out.append("  ");
        out.append(map.entries[i].1.as_str());
        out.append("\n");
        assert(list.take(i + 1).drop_last() =~= list.take(i as int));
        assert(out@ =~= before + (lead@ + padded(list[i as int].0, width as int) + "  "@
            + list[i as int].1 + "\n"@));
        assert(out@ =~= start + alias_lines(lead@, width as int, list.take(i + 1)));
        i += 1;
    }
    assert(list.take(list.len() as int) =~= list);
    assert(out@ =~= old(out)@ + alias_listing(heading@, lead@, width as int, list));
}

/// The listing of custom bindings.
pub fn render_custom_bindings(config: &KeybindingConfig) -> (r: String)
    ensures
        r@ == alias_listing(
            "\nCustom portable aliases:\n"@,
            "Ctrl-Space, "@,
            3,
            config.bindings.list(),
        ) + alias_listing(
            "\nCustom Kitty aliases:\n"@,
            ""@,
            20,
            config.kitty_bindings.list(),
        ),
{
    let mut out = String::new();
    push_aliases(&mut out, "\nCustom portable aliases:\n", "Ctrl-Space, ", 3, &config.bindings);
    push_aliases(&mut out, "\nCustom Kitty aliases:\n", "", 20, &config.kitty_bindings);
    assert(out@ =~= alias_listing(
        "\nCustom portable aliases:\n"@,
        "Ctrl-Space, "@,
        3,
        config.bindings.list(),
    ) + alias_listing("\nCustom Kitty aliases:\n"@, ""@, 20, config.kitty_bindings.list()));
    out
}

/// What keyboard input is.
#[derive(Debug, PartialEq, Eq)]
pub enum ParsedInput {
    Action(Action),
    /// For the focused pane.
    PassThrough(Vec<u8>),
    /// The start of a sequence; nothing to do yet.
    Pending,
}

/// What keyboard input is, with the bytes as a sequence.
pub enum KeyInput {
    Action(Action),
    PassThrough(Seq<u8>),
    Pending,
}

impl View for ParsedInput {
    type V = KeyInput;

    open spec fn view(&self) -> KeyInput {
        match self {
            ParsedInput::Action(action) => KeyInput::Action(*action),
            ParsedInput::PassThrough(bytes) => KeyInput::PassThrough(bytes@),
            ParsedInput::Pending => KeyInput::Pending,
        }
    }
}

/// The portable sequences that a parser knows besides the table's, with their
/// actions.
pub open spec fn custom_views(custom: Seq<(Vec<u8>, Action)>) -> Seq<(Seq<u8>, Action)> {
    Seq::new(custom.len(), |i: int| (custom[i].0@, custom[i].1))
}

/// The custom sequences whose action is known.
pub open spec fn known_aliases(list: Seq<(Seq<char>, Seq<char>)>) -> Seq<(Seq<u8>, Action)>
    decreases list.len(),
{
    if list.len() == 0 {
        seq![]
    } else {
        let before = known_aliases(list.drop_last());
        match named_action(list.last().1) {
            Some(action) => before.push((encode_utf8(list.last().0), action)),
            None => before,
        }
    }
}

/// Which custom sequences are `keys`.
pub open spec fn is_custom(custom: Seq<(Seq<u8>, Action)>, keys: Seq<u8>) -> spec_fn(int) -> bool {
    |i: int| custom[i].0 == keys
}

/// The action of a portable sequence: a custom one's, else the table's.
pub open spec fn sequence_action(custom: Seq<(Seq<u8>, Action)>, keys: Seq<u8>) -> Option<Action> {
    match first_where(is_custom(custom, keys), 0, custom.len() as int) {
        Some(i) => Some(custom[i].1),
        None => chord_action(keys),
    }
}

/// Whether some portable sequence begins with `keys`.
pub open spec fn begins_sequence(custom: Seq<(Seq<u8>, Action)>, keys: Seq<u8>) -> bool {
    begins_chord(keys) || exists|i: int|
        0 <= i < custom.len() && keys.is_prefix_of((#[trigger] custom[i]).0)
}

/// A parser's state between two reads: the keys since a prefix, and the custom
/// sequences.
pub struct KeyState {
    pub pending: Option<Seq<u8>>,
    pub custom: Seq<(Seq<u8>, Action)>,
}

/// What the keys `keys` since the prefix are, `raw` of which are new: an action,
/// the start of one, or nothing, in which case the new ones are for the pane.
pub open spec fn resolved(state: KeyState, keys: Seq<u8>, raw: Seq<u8>) -> (KeyState, KeyInput) {
    match sequence_action(state.custom, keys) {
        Some(action) => (KeyState { pending: None, ..state }, KeyInput::Action(action)),
        None => if begins_sequence(state.custom, keys) {
            (KeyState { pending: Some(keys), ..state }, KeyInput::Pending)
        } else {
            (KeyState { pending: None, ..state }, KeyInput::PassThrough(raw))
        },
    }
}

/// What `bytes` is to a parser in `state`, and its state afterwards.
pub open spec fn key_step(state: KeyState, bytes: Seq<u8>, mode: BindingMode) -> (
    KeyState,
    KeyInput,
) {
    if mode.has_kitty() && chord_meaning(bytes) != Action::PassThrough {
        (state, KeyInput::Action(chord_meaning(bytes)))
    } else if !mode.has_portable() {
        (state, KeyInput::PassThrough(bytes))
    } else {
        match state.pending {
            None => if bytes.len() > 0 && bytes[0] == PORTABLE_PREFIX {
                if bytes.len() == 1 {
                    (KeyState { pending: Some(seq![]), ..state }, KeyInput::Pending)
                } else {
                    resolved(state, bytes.skip(1), bytes.skip(1))
                }
            } else {
                (state, KeyInput::PassThrough(bytes))
            },
            Some(keys) => if keys.len() == 0 && bytes == seq![PORTABLE_PREFIX] {
                (KeyState { pending: None, ..state }, KeyInput::PassThrough(bytes))
            } else {
                resolved(state, keys + bytes, bytes)
            },
        }
    }
}

/// Parses keyboard input, in whatever pieces it arrives.
#[derive(Debug)]
pub struct PortableParser {
    pub pending: Option<Vec<u8>>,
    pub custom: Vec<(Vec<u8>, Action)>,
}

impl View for PortableParser {
    type V = KeyState;

    open spec fn view(&self) -> KeyState {
        KeyState {
            pending: match self.pending {
                Some(keys) => Some(keys@),
                None => None,
            },
            custom: custom_views(self.custom@),
        }
    }
}

impl Default for PortableParser {
    /// A parser without custom sequences.
    fn default() -> (r: Self)
        ensures
            r@.pending is None,
            r@.custom == Seq::<(Seq<u8>, Action)>::empty(),
    {
        let r = PortableParser { pending: None, custom: Vec::new() };
        assert(r@.custom =~= Seq::empty());
        r
    }
}

impl PortableParser {
    /// A parser that knows the configured custom sequences.
    pub fn from_config(config: &KeybindingConfig) -> (r: Self)
        ensures
            r@.pending is None,
            r@.custom == known_aliases(config.bindings.list()),
    {
        let ghost list = config.bindings.list();
        let entries = &config.bindings.entries;
        let mut custom: Vec<(Vec<u8>, Action)> = Vec::new();
        let mut i: usize = 0;
        while i < entries.len()
            invariant
                i <= entries@.len(),
                list == entry_views(entries@),
                custom_views(custom@) =~= known_aliases(list.take(i as int)),
            decreases entries@.len() - i,
        {
            let ghost before = custom_views(custom@);
            assert(list.take(i + 1).drop_last() =~= list.take(i as int));
            match parse_action_name(entries[i].1.as_str()) {
                Some(action) => {
                    let keys = entries[i].0.as_str().as_bytes_vec();
                    custom.push((keys, action));
                    assert(custom_views(custom@) =~= before.push(
                        (encode_utf8(list[i as int].0), action),
                    ));
                },
                None => {},
            }
            i += 1;
        }
        assert(list.take(list.len() as int) =~= list);
        PortableParser { pending: None, custom }
    }

    /// Parse the next piece of input.
    pub fn parse(&mut self, bytes: &[u8], mode: BindingMode) -> (r: ParsedInput)
        ensures
            (final(self)@, r@) == key_step(old(self)@, bytes@, mode),
    {
        let chord = parse(bytes);
        if mode.kitty_enabled() && chord != Action::PassThrough {
            return ParsedInput::Action(chord);
        }
        if !mode.portable_enabled() {
            return ParsedInput::PassThrough(vstd::slice::slice_to_vec(bytes));
        }
        match self.pending.take() {
            None => {
                if bytes.len() == 0 || bytes[0] != PORTABLE_PREFIX {
                    return ParsedInput::PassThrough(vstd::slice::slice_to_vec(bytes));
                }
                if bytes.len() == 1 {
                    let keys: Vec<u8> = Vec::new();
                    assert(keys@ =~= seq![]);
                    self.pending = Some(keys);
                    return ParsedInput::Pending;
                }
                let rest = slice_subrange(bytes, 1, bytes.len());
                assert(rest@ =~= bytes@.skip(1));
                self.resolve_after_prefix(rest)
            },
            Some(mut keys) => {
                let ghost before = keys@;
                if keys.len() == 0 && bytes.len() == 1 && bytes[0] == PORTABLE_PREFIX {
                    assert(bytes@ =~= seq![PORTABLE_PREFIX]);
                    return ParsedInput::PassThrough(vstd::slice::slice_to_vec(bytes));
                }
                keys.extend_from_slice(bytes);
                assert(keys@ =~= before + bytes@);
                self.resolve_sequence(keys, bytes)
            },
        }
    }

    /// What the first keys after a prefix are.
    fn resolve_after_prefix(&mut self, bytes: &[u8]) -> (r: ParsedInput)
        requires
            old(self)@.pending is None,
        ensures
            (final(self)@, r@) == resolved(old(self)@, bytes@, bytes@),
    {
        self.resolve_sequence(vstd::slice::slice_to_vec(bytes), bytes)
    }

    /// What the keys since the prefix are.
    fn resolve_sequence(&mut self, keys: Vec<u8>, raw: &[u8]) -> (r: ParsedInput)
        requires
            old(self)@.pending is None,
        ensures
            (final(self)@, r@) == resolved(old(self)@, keys@, raw@),
    {
        match self.action_for_portable(keys.as_slice()) {
            Some(action) => ParsedInput::Action(action),
            None => {
                if self.has_portable_prefix(keys.as_slice()) {
                    self.pending = Some(keys);
                    ParsedInput::Pending
                } else {
                    ParsedInput::PassThrough(vstd::slice::slice_to_vec(raw))
                }
            },
        }
    }

    /// The action of a portable sequence.
    fn action_for_portable(&self, keys: &[u8]) -> (r: Option<Action>)
        ensures
            r == sequence_action(self@.custom, keys@),
    {
        let ghost p = is_custom(self@.custom, keys@);
        let mut i: usize = 0;
        while i < self.custom.len()
            invariant
                i <= self.custom@.len(),
                p == is_custom(self@.custom, keys@),
                forall|j: int| 0 <= j < i ==> !#[trigger] p(j),
            decreases self.custom@.len() - i,
        {
            if same_bytes(self.custom[i].0.as_slice(), keys) {
                proof {
                    first_where_is(p, 0, self@.custom.len() as int, i as int);
                }
                return Some(self.custom[i].1);
            }
            i += 1;
        }
        proof {
            first_where_none(p, 0, self@.custom.len() as int);
        }
        action_for_portable(keys)
    }

    /// Whether some portable sequence begins with `keys`.
    fn has_portable_prefix(&self, keys: &[u8]) -> (r: bool)
        ensures
            r == begins_sequence(self@.custom, keys@),
    {
        if is_chord_prefix(keys) {
            return true;
        }
        let mut i: usize = 0;
        while i < self.custom.len()
            invariant
                i <= self.custom@.len(),
                forall|j: int|
                    0 <= j < i ==> !keys@.is_prefix_of((#[trigger] self@.custom[j]).0),
            decreases self.custom@.len() - i,
        {
            assert(self@.custom[i as int].0 == self.custom@[i as int].0@);
            if starts_with(self.custom[i].0.as_slice(), keys) {
                return true;
            }
            i += 1;
        }
        false
    }
}

/// The table's action for a portable sequence.
pub fn action_for_portable(keys: &[u8]) -> (r: Option<Action>)
    ensures
        r == chord_action(keys@),
{
    find_chord(keys)
}

/// Different texts have different bytes.
proof fn encoding_tells_apart(a: Seq<char>, b: Seq<char>)
    requires
        encode_utf8(a) == encode_utf8(b),
    ensures
        a == b,
{
    vstd::utf8::encode_utf8_decode_utf8(a);
    vstd::utf8::encode_utf8_decode_utf8(b);
}

/// The custom sequences that a parser knows are the configured ones with a known
/// action.
proof fn known_aliases_are(list: Seq<(Seq<char>, Seq<char>)>)
    ensures
        forall|j: int|
            0 <= j < known_aliases(list).len() ==> exists|i: int|
                #![trigger list[i]]
                0 <= i < list.len() && (#[trigger] known_aliases(list)[j]).0 == encode_utf8(
                    list[i].0,
                ) && named_action(list[i].1) == Some(known_aliases(list)[j].1),
        forall|i: int|
            0 <= i < list.len() && named_action((#[trigger] list[i]).1) is Some ==> known_aliases(
                list,
            ).contains((encode_utf8(list[i].0), named_action(list[i].1)->0)),
    decreases list.len(),
{
    if list.len() > 0 {
        let rest = list.drop_last();
        let before = known_aliases(rest);
        let after = known_aliases(list);
        known_aliases_are(rest);
        assert forall|j: int| 0 <= j < after.len() implies exists|i: int|
            #![trigger list[i]]
            0 <= i < list.len() && (#[trigger] after[j]).0 == encode_utf8(list[i].0)
                && named_action(list[i].1) == Some(after[j].1) by {
            if j < before.len() {
                assert(after[j] == before[j]);
                let i = choose|i: int|
                    #![trigger rest[i]]
                    0 <= i < rest.len() && before[j].0 == encode_utf8(rest[i].0) && named_action(
                        rest[i].1,
                    ) == Some(before[j].1);
                assert(list[i] == rest[i]);
            } else {
                assert(list[list.len() - 1] == list.last());
            }
        }
        assert forall|i: int|
            0 <= i < list.len() && named_action((#[trigger] list[i]).1) is Some implies after.contains(
            (encode_utf8(list[i].0), named_action(list[i].1)->0),
        ) by {
            let entry = (encode_utf8(list[i].0), named_action(list[i].1)->0);
            if i < rest.len() {
                assert(rest[i] == list[i]);
                assert(before.contains(entry));
                let j = choose|j: int| 0 <= j < before.len() && before[j] == entry;
                assert(after[j] == entry);
            } else {
                assert(after.last() == entry);
                assert(after[after.len() - 1] == entry);
            }
        }
    }
}

/// A configured alias is understood: Ctrl-Space and the alias mean its action,
/// also where the table has another for these keys.
pub proof fn configured_alias_is_understood(
    bindings: AliasMap,
    alias: Seq<char>,
    action: Action,
    state: KeyState,
    mode: BindingMode,
)
    requires
        bindings.wf(),
        bindings.map().contains_key(alias),
        named_action(bindings.map()[alias]) == Some(action),
        alias.len() > 0,
        state.pending is None,
        state.custom == known_aliases(bindings.list()),
        mode.has_portable(),
    ensures
        key_step(state, seq![PORTABLE_PREFIX] + encode_utf8(alias), mode) == (
            state,
            KeyInput::Action(action),
        ),
{
    let list = bindings.list();
    let custom = state.custom;
    let keys = encode_utf8(alias);
    let bytes = seq![PORTABLE_PREFIX] + keys;
    vstd::utf8::encode_utf8_decode_utf8(alias);
    if keys.len() == 0 {
        encoding_tells_apart(alias, Seq::empty());
    }
    assert(bytes.skip(1) =~= keys);
    assert(framed_tag(bytes) is None) by {
        assert(bytes[0] == 0);
        if bytes.len() >= 5 && bytes == framed(bytes.subrange(3, bytes.len() - 2)) {
            assert(framed(bytes.subrange(3, bytes.len() - 2))[0] == 0x1b);
        }
    }
    known_aliases_are(list);
    let i = choose|i: int| 0 <= i < list.len() && (#[trigger] list[i]).0 == alias;
    entry_map_holds(list, i);
    assert(custom.contains((keys, action)));
    let p = is_custom(custom, keys);
    let j = choose|j: int| 0 <= j < custom.len() && custom[j] == (keys, action);
    assert(p(j));
    crate::bytes::first_where_props(p, 0, custom.len() as int);
    let first = first_where(p, 0, custom.len() as int)->0;
    assert(p(first));
    let k = choose|k: int|
        #![trigger list[k]]
        0 <= k < list.len() && custom[first].0 == encode_utf8(list[k].0) && named_action(list[k].1)
            == Some(custom[first].1);
    encoding_tells_apart(list[k].0, alias);
    entry_map_holds(list, k);
}

/// A prefix and the keys after it may arrive in one read or in two: the outcome
/// is the same. Custom sequences, which are printable, never begin with the prefix;
/// one that did would be out of reach of a second prefix sent on its own.
pub proof fn prefix_may_arrive_alone(state: KeyState, keys: Seq<u8>, mode: BindingMode)
    requires
        state.pending is None,
        mode.has_portable(),
        keys.len() > 0,
        keys == seq![PORTABLE_PREFIX] ==> forall|i: int|
            0 <= i < state.custom.len() ==> !keys.is_prefix_of((#[trigger] state.custom[i]).0),
        !mode.has_kitty() || chord_meaning(keys) == Action::PassThrough,
    ensures
        ({
            let (waiting, first) = key_step(state, seq![PORTABLE_PREFIX], mode);
            &&& first == KeyInput::Pending
            &&& key_step(waiting, keys, mode) == key_step(state, seq![PORTABLE_PREFIX] + keys, mode)
        }),
{
    let prefix = seq![PORTABLE_PREFIX];
    assert(prefix.len() == 1);
    assert((prefix + keys).skip(1) =~= keys);
    assert(Seq::<u8>::empty() + keys =~= keys);
    assert(framed_tag(prefix + keys) is None) by {
        let b = prefix + keys;
        assert(b[0] == 0);
        if b.len() >= 5 && b == framed(b.subrange(3, b.len() - 2)) {
            assert(framed(b.subrange(3, b.len() - 2))[0] == 0x1b);
        }
    }
    if keys == prefix {
        let p = is_custom(state.custom, keys);
        assert forall|i: int| 0 <= i < state.custom.len() implies !#[trigger] p(i) by {
            assert(!keys.is_prefix_of(state.custom[i].0));
        }
        first_where_none(p, 0, state.custom.len() as int);
        no_chord_has_the_prefix();
    }
}

/// No action's keys begin with the prefix.
proof fn no_chord_has_the_prefix()
    ensures
        !begins_chord(seq![PORTABLE_PREFIX]),
        chord_action(seq![PORTABLE_PREFIX]) is None,
{
    let prefix = seq![PORTABLE_PREFIX];
    assert(prefix.len() == 1 && prefix[0] == PORTABLE_PREFIX);
    assert forall|i: int| 0 <= i < BOUND_ACTIONS implies !prefix.is_prefix_of(
        chord_of(#[trigger] bound_action_at(i)),
    ) by {
        let chord = chord_of(bound_action_at(i));
        if prefix.is_prefix_of(chord) {
            assert(chord[0] == prefix[0]);
        }
    }
    let p = has_chord(prefix);
    assert forall|i: int| 0 <= i < BOUND_ACTIONS implies !#[trigger] p(i) by {
        assert(!prefix.is_prefix_of(chord_of(bound_action_at(i))));
    }
    first_where_none(p, 0, BOUND_ACTIONS as int);
}

/// Keys that begin a longer sequence may arrive one after the other: once the
/// rest is there, it counts as if it had all come at once.
pub proof fn sequence_may_arrive_in_pieces(
    state: KeyState,
    keys: Seq<u8>,
    rest: Seq<u8>,
    mode: BindingMode,
)
    requires
        state.pending == Some(keys),
        mode.has_portable(),
        keys.len() > 0,
        !mode.has_kitty() || chord_meaning(rest) == Action::PassThrough,
        sequence_action(state.custom, keys + rest) is Some,
    ensures
        key_step(state, rest, mode).1 == KeyInput::Action(
            sequence_action(state.custom, keys + rest)->0,
        ),
        key_step(state, rest, mode).0.pending is None,
{
}

/// Ctrl-Space twice sends one Ctrl-Space to the pane.
pub proof fn double_prefix_is_literal(state: KeyState, mode: BindingMode)
    requires
        state.pending is None,
        mode.has_portable(),
    ensures
        ({
            let prefix = seq![PORTABLE_PREFIX];
            let (waiting, first) = key_step(state, prefix, mode);
            &&& first == KeyInput::Pending
            &&& key_step(waiting, prefix, mode) == (state, KeyInput::PassThrough(prefix))
        }),
{
    let prefix = seq![PORTABLE_PREFIX];
    assert(prefix.len() == 1 && prefix[0] == PORTABLE_PREFIX);
}

/// With neither kind of sequence listened to, every key is the pane's.
pub proof fn other_modes_pass_everything(state: KeyState, bytes: Seq<u8>, mode: BindingMode)
    requires
        !mode.has_portable(),
        !mode.has_kitty(),
    ensures
        key_step(state, bytes, mode) == (state, KeyInput::PassThrough(bytes)),
{
}

/// Keys that are no alias, or no longer one, do what the table says, and nothing where
/// it says nothing.
pub proof fn a_forgotten_alias_means_what_the_table_says(bindings: AliasMap, alias: Seq<char>)
    requires
        !bindings.map().contains_key(alias),
    ensures
        sequence_action(known_aliases(bindings.list()), encode_utf8(alias)) == chord_action(
            encode_utf8(alias),
        ),
{
    let list = bindings.list();
    let custom = known_aliases(list);
    let keys = encode_utf8(alias);
    known_aliases_are(list);
    let p = is_custom(custom, keys);
    assert forall|j: int| 0 <= j < custom.len() implies !#[trigger] p(j) by {
        if p(j) {
            let k = choose|k: int|
                #![trigger list[k]]
                0 <= k < list.len() && custom[j].0 == encode_utf8(list[k].0) && named_action(
                    list[k].1,
                ) == Some(custom[j].1);
            encoding_tells_apart(list[k].0, alias);
            assert(list[k].0 == alias);
        }
    }
    first_where_none(p, 0, custom.len() as int);
}

} // verus!
