//! What holds of the keys: that the tables agree, that every sequence does its
//! action, and that custom bindings stay out of the way of the table's.

use crate::bindings::{
    bound_action_at, chord_action, chord_of, chords_round_trip, description_of, has_chord,
    has_kitty_chord, index_of_bound, is_bound, kitty_action, kitty_chord_of, name_of, named_action,
    table_is_complete, Action, BOUND_ACTIONS,
};
use crate::bytes::{first_where_none, first_where_props};
use crate::keys::{
    chord_is_free, chord_meaning, framed, framed_tag, is_custom, key_step, kitty_tags,
    sequence_is_free, BindingMode, KeyInput, KeyState,
};
use vstd::prelude::*;
use vstd::utf8::encode_utf8;

verus! {

/// Input that begins with a prefix byte is no Kitty chord.
proof fn prefixed_input_is_no_chord(bytes: Seq<u8>)
    requires
        bytes.len() > 0,
        bytes[0] != 0x1b,
    ensures
        chord_meaning(bytes) == Action::PassThrough,
{
    if bytes.len() >= 5 && bytes == framed(bytes.subrange(3, bytes.len() - 2)) {
        assert(framed(bytes.subrange(3, bytes.len() - 2))[0] == 0x1b);
    }
}

/// Where portable sequences are listened to, Ctrl-Space and an action's keys do that
/// action, unless the keys are a custom sequence.
pub proof fn a_portable_sequence_does_its_action(state: KeyState, action: Action, mode: BindingMode)
    requires
        mode == BindingMode::Portable || mode == BindingMode::Both,
        is_bound(action),
        state.pending is None,
        forall|i: int|
            0 <= i < state.custom.len() ==> (#[trigger] state.custom[i]).0 != chord_of(action),
    ensures
        key_step(state, seq![0u8] + chord_of(action), mode) == (state, KeyInput::Action(action)),
{
    let keys = chord_of(action);
    let bytes = seq![0u8] + keys;
    assert(bytes[0] == 0);
    prefixed_input_is_no_chord(bytes);
    chords_round_trip(action);
    assert(keys.len() > 0);
    assert(bytes.skip(1) =~= keys);
    let p = is_custom(state.custom, keys);
    assert forall|i: int| 0 <= i < state.custom.len() implies !#[trigger] p(i) by {
        assert(state.custom[i].0 != keys);
    }
    first_where_none(p, 0, state.custom.len() as int);
}

/// Where Kitty chords are listened to, an action's chord does that action at once,
/// and leaves a sequence that has begun as it is.
pub proof fn a_kitty_chord_does_its_action(state: KeyState, action: Action, mode: BindingMode)
    requires
        mode == BindingMode::Kitty || mode == BindingMode::Both,
        is_bound(action),
    ensures
        key_step(state, seq![0x1bu8, '_' as u8, 'D' as u8] + chord_of(action) + seq![0x1bu8, 0x5c], mode)
            == (state, KeyInput::Action(action)),
{
    crate::keys::chord_means_its_action(action);
    assert(seq![0x1bu8, '_' as u8, 'D' as u8] + chord_of(action) + seq![0x1bu8, 0x5c] =~= framed(
        chord_of(action),
    ));
    assert(action != Action::PassThrough);
}

/// Whatever is no chord and does not begin with Ctrl-Space goes to the pane as it
/// is.
pub proof fn plain_keys_are_handed_on(state: KeyState, bytes: Seq<u8>, mode: BindingMode)
    requires
        state.pending is None,
        bytes.len() == 0 || bytes[0] != 0u8,
        forall|action: Action| is_bound(action) ==> bytes != #[trigger] framed(chord_of(action)),
    ensures
        key_step(state, bytes, mode) == (state, KeyInput::PassThrough(bytes)),
{
    if chord_meaning(bytes) != Action::PassThrough {
        let tag = framed_tag(bytes)->0;
        let p = has_chord(tag);
        first_where_props(p, 0, BOUND_ACTIONS as int);
        let i = crate::bytes::first_where(p, 0, BOUND_ACTIONS as int)->0;
        let action = bound_action_at(i);
        assert(chord_of(action) == tag);
        assert(is_bound(action));
        assert(bytes == framed(chord_of(action)));
    }
}

/// A layer that is switched off is not listened to: with Kitty chords only, a prefix
/// is handed on, and with portable sequences only, a chord is.
pub proof fn a_layer_that_is_off_is_not_listened_to(
    state: KeyState,
    action: Action,
    bytes: Seq<u8>,
)
    requires
        is_bound(action),
        state.pending is None,
        bytes.len() > 0,
        bytes[0] == 0u8,
    ensures
        key_step(state, bytes, BindingMode::Kitty) == (state, KeyInput::PassThrough(bytes)),
        key_step(state, framed(chord_of(action)), BindingMode::Portable) == (
            state,
            KeyInput::PassThrough(framed(chord_of(action))),
        ),
        key_step(state, bytes, BindingMode::Tmux) == (state, KeyInput::PassThrough(bytes)),
{
    prefixed_input_is_no_chord(bytes);
    assert(framed(chord_of(action))[0] == 0x1b);
}

/// Keys after Ctrl-Space that no sequence begins with go to the pane, without the
/// prefix; keys that one begins with are waited on.
pub proof fn unknown_keys_after_the_prefix_are_handed_on(
    state: KeyState,
    keys: Seq<u8>,
    mode: BindingMode,
)
    requires
        mode == BindingMode::Portable || mode == BindingMode::Both,
        state.pending is None,
        keys.len() > 0,
        forall|action: Action|
            is_bound(action) ==> !keys.is_prefix_of(#[trigger] chord_of(action)),
    ensures
        (forall|i: int| 0 <= i < state.custom.len() ==> !keys.is_prefix_of((#[trigger] state.custom[i]).0))
            ==> key_step(state, seq![0u8] + keys, mode) == (state, KeyInput::PassThrough(keys)),
        forall|i: int|
            0 <= i < state.custom.len() && keys.is_prefix_of((#[trigger] state.custom[i]).0) ==> {
                let (after, input) = key_step(state, seq![0u8] + keys, mode);
                ||| input is Action
                ||| input == KeyInput::Pending && after == (KeyState {
                    pending: Some(keys),
                    ..state
                })
            },
{
    let bytes = seq![0u8] + keys;
    assert(bytes[0] == 0);
    prefixed_input_is_no_chord(bytes);
    assert(bytes.skip(1) =~= keys);
    let p = has_chord(keys);
    assert forall|i: int| 0 <= i < BOUND_ACTIONS implies !#[trigger] p(i) && !keys.is_prefix_of(
        chord_of(bound_action_at(i)),
    ) by {
        let action = bound_action_at(i);
        assert(is_bound(action));
        assert(!keys.is_prefix_of(chord_of(action)));
        assert(keys.is_prefix_of(keys)) by {
            assert(keys.subrange(0, keys.len() as int) =~= keys);
        }
    }
    first_where_none(p, 0, BOUND_ACTIONS as int);
    assert forall|i: int| 0 <= i < BOUND_ACTIONS implies !keys.is_prefix_of(
        chord_of(#[trigger] bound_action_at(i)),
    ) by {
        assert(!p(i));
    }
    let q = is_custom(state.custom, keys);
    first_where_props(q, 0, state.custom.len() as int);
    if forall|i: int|
        0 <= i < state.custom.len() ==> !keys.is_prefix_of((#[trigger] state.custom[i]).0) {
        assert forall|i: int| 0 <= i < state.custom.len() implies !#[trigger] q(i) by {
            assert(!keys.is_prefix_of(state.custom[i].0));
            assert(keys.subrange(0, keys.len() as int) =~= keys);
        }
        first_where_none(q, 0, state.custom.len() as int);
    }
}

/// The digit `n` as a character.
pub open spec fn digit_of(n: u8) -> char {
    ('0' as u8 + n) as char
}

/// The keys for a workspace or a session are its digit, and all that is written of
/// them ends in it.
pub proof fn numbered_actions_have_their_digit(n: u8)
    requires
        1 <= n <= 9,
    ensures
        chord_of(Action::SwitchWorkspace(n)) == seq![digit_of(n) as u8],
        kitty_chord_of(Action::SwitchWorkspace(n)) == "cmd+"@.push(digit_of(n)),
        name_of(Action::SwitchWorkspace(n)) == "workspace-"@.push(digit_of(n)),
        description_of(Action::SwitchWorkspace(n)) == "switch to workspace "@.push(digit_of(n)),
        chord_of(Action::JumpSession(n)) == seq!['s' as u8, digit_of(n) as u8],
        kitty_chord_of(Action::JumpSession(n)) == "cmd+alt+"@.push(digit_of(n)),
        name_of(Action::JumpSession(n)) == "session-"@.push(digit_of(n)),
        description_of(Action::JumpSession(n)) == "bind session "@.push(digit_of(n)),
{
    reveal_strlit("cmd+");
    reveal_strlit("workspace-");
    reveal_strlit("switch to workspace ");
    reveal_strlit("cmd+alt+");
    reveal_strlit("session-");
    reveal_strlit("bind session ");
    if n == 1 {
        reveal_strlit("cmd+1");
        assert("cmd+1"@ =~= "cmd+"@.push(digit_of(n)));
        reveal_strlit("workspace-1");
        assert("workspace-1"@ =~= "workspace-"@.push(digit_of(n)));
        reveal_strlit("switch to workspace 1");
        assert("switch to workspace 1"@ =~= "switch to workspace "@.push(digit_of(n)));
        reveal_strlit("cmd+alt+1");
        assert("cmd+alt+1"@ =~= "cmd+alt+"@.push(digit_of(n)));
        reveal_strlit("session-1");
        assert("session-1"@ =~= "session-"@.push(digit_of(n)));
        reveal_strlit("bind session 1");
        assert("bind session 1"@ =~= "bind session "@.push(digit_of(n)));
    } else if n == 2 {
        reveal_strlit("cmd+2");
        assert("cmd+2"@ =~= "cmd+"@.push(digit_of(n)));
        reveal_strlit("workspace-2");
        assert("workspace-2"@ =~= "workspace-"@.push(digit_of(n)));
        reveal_strlit("switch to workspace 2");
        assert("switch to workspace 2"@ =~= "switch to workspace "@.push(digit_of(n)));
        reveal_strlit("cmd+alt+2");
        assert("cmd+alt+2"@ =~= "cmd+alt+"@.push(digit_of(n)));
        reveal_strlit("session-2");
        assert("session-2"@ =~= "session-"@.push(digit_of(n)));
        reveal_strlit("bind session 2");
        assert("bind session 2"@ =~= "bind session "@.push(digit_of(n)));
    } else if n == 3 {
        reveal_strlit("cmd+3");
        assert("cmd+3"@ =~= "cmd+"@.push(digit_of(n)));
        reveal_strlit("workspace-3");
        assert("workspace-3"@ =~= "workspace-"@.push(digit_of(n)));
        reveal_strlit("switch to workspace 3");
        assert("switch to workspace 3"@ =~= "switch to workspace "@.push(digit_of(n)));
        reveal_strlit("cmd+alt+3");
        assert("cmd+alt+3"@ =~= "cmd+alt+"@.push(digit_of(n)));
        reveal_strlit("session-3");
        assert("session-3"@ =~= "session-"@.push(digit_of(n)));
        reveal_strlit("bind session 3");
        assert("bind session 3"@ =~= "bind session "@.push(digit_of(n)));
    } else if n == 4 {
        reveal_strlit("cmd+4");
        assert("cmd+4"@ =~= "cmd+"@.push(digit_of(n)));
        reveal_strlit("workspace-4");
        assert("workspace-4"@ =~= "workspace-"@.push(digit_of(n)));
        reveal_strlit("switch to workspace 4");
        assert("switch to workspace 4"@ =~= "switch to workspace "@.push(digit_of(n)));
        reveal_strlit("cmd+alt+4");
        assert("cmd+alt+4"@ =~= "cmd+alt+"@.push(digit_of(n)));
        reveal_strlit("session-4");
        assert("session-4"@ =~= "session-"@.push(digit_of(n)));
        reveal_strlit("bind session 4");
        assert("bind session 4"@ =~= "bind session "@.push(digit_of(n)));
    } else if n == 5 {
        reveal_strlit("cmd+5");
        assert("cmd+5"@ =~= "cmd+"@.push(digit_of(n)));
        reveal_strlit("workspace-5");
        assert("workspace-5"@ =~= "workspace-"@.push(digit_of(n)));
        reveal_strlit("switch to workspace 5");
        assert("switch to workspace 5"@ =~= "switch to workspace "@.push(digit_of(n)));
        reveal_strlit("cmd+alt+5");
        assert("cmd+alt+5"@ =~= "cmd+alt+"@.push(digit_of(n)));
        reveal_strlit("session-5");
        assert("session-5"@ =~= "session-"@.push(digit_of(n)));
        reveal_strlit("bind session 5");
        assert("bind session 5"@ =~= "bind session "@.push(digit_of(n)));
    } else if n == 6 {
        reveal_strlit("cmd+6");
        assert("cmd+6"@ =~= "cmd+"@.push(digit_of(n)));
        reveal_strlit("workspace-6");
        assert("workspace-6"@ =~= "workspace-"@.push(digit_of(n)));
        reveal_strlit("switch to workspace 6");
        assert("switch to workspace 6"@ =~= "switch to workspace "@.push(digit_of(n)));
        reveal_strlit("cmd+alt+6");
        assert("cmd+alt+6"@ =~= "cmd+alt+"@.push(digit_of(n)));
        reveal_strlit("session-6");
        assert("session-6"@ =~= "session-"@.push(digit_of(n)));
        reveal_strlit("bind session 6");
        assert("bind session 6"@ =~= "bind session "@.push(digit_of(n)));
    } else if n == 7 {
        reveal_strlit("cmd+7");
        assert("cmd+7"@ =~= "cmd+"@.push(digit_of(n)));
        reveal_strlit("workspace-7");
        assert("workspace-7"@ =~= "workspace-"@.push(digit_of(n)));
        reveal_strlit("switch to workspace 7");
        assert("switch to workspace 7"@ =~= "switch to workspace "@.push(digit_of(n)));
        reveal_strlit("cmd+alt+7");
        assert("cmd+alt+7"@ =~= "cmd+alt+"@.push(digit_of(n)));
        reveal_strlit("session-7");
        assert("session-7"@ =~= "session-"@.push(digit_of(n)));
        reveal_strlit("bind session 7");
        assert("bind session 7"@ =~= "bind session "@.push(digit_of(n)));
    } else if n == 8 {
        reveal_strlit("cmd+8");
        assert("cmd+8"@ =~= "cmd+"@.push(digit_of(n)));
        reveal_strlit("workspace-8");
        assert("workspace-8"@ =~= "workspace-"@.push(digit_of(n)));
        reveal_strlit("switch to workspace 8");
        assert("switch to workspace 8"@ =~= "switch to workspace "@.push(digit_of(n)));
        reveal_strlit("cmd+alt+8");
        assert("cmd+alt+8"@ =~= "cmd+alt+"@.push(digit_of(n)));
        reveal_strlit("session-8");
        assert("session-8"@ =~= "session-"@.push(digit_of(n)));
        reveal_strlit("bind session 8");
        assert("bind session 8"@ =~= "bind session "@.push(digit_of(n)));
    } else if n == 9 {
        reveal_strlit("cmd+9");
        assert("cmd+9"@ =~= "cmd+"@.push(digit_of(n)));
        reveal_strlit("workspace-9");
        assert("workspace-9"@ =~= "workspace-"@.push(digit_of(n)));
        reveal_strlit("switch to workspace 9");
        assert("switch to workspace 9"@ =~= "switch to workspace "@.push(digit_of(n)));
        reveal_strlit("cmd+alt+9");
        assert("cmd+alt+9"@ =~= "cmd+alt+"@.push(digit_of(n)));
        reveal_strlit("session-9");
        assert("session-9"@ =~= "session-"@.push(digit_of(n)));
        reveal_strlit("bind session 9");
        assert("bind session 9"@ =~= "bind session "@.push(digit_of(n)));
    }
}

/// The letter in upper case as one in lower case; anything else as it is.
pub open spec fn lower(b: u8) -> u8 {
    if 'A' as u8 <= b <= 'Z' as u8 {
        (b + 32) as u8
    } else {
        b
    }
}

/// The Kitty chord of an action is the command key with the key that follows the
/// prefix, and with shift for one in upper case. The numbered ones have digits of
/// their own, and quitting takes shift so that it is not done by mistake.
pub proof fn kitty_chords_follow_the_portable_keys(action: Action)
    requires
        is_bound(action),
        !(action is SwitchWorkspace) && !(action is JumpSession),
        action != Action::Quit,
    ensures
        chord_of(action).len() == 1,
        kitty_chord_of(action) == if 'A' as u8 <= chord_of(action)[0] <= 'Z' as u8 {
            "cmd+shift+"@.push(lower(chord_of(action)[0]) as char)
        } else {
            "cmd+"@.push(chord_of(action)[0] as char)
        },
{
    reveal_strlit("cmd+");
    reveal_strlit("cmd+shift+");
    reveal_strlit("cmd+d");
    reveal_strlit("cmd+shift+d");
    reveal_strlit("cmd+w");
    reveal_strlit("cmd+shift+w");
    reveal_strlit("cmd+shift+z");
    reveal_strlit("cmd+h");
    reveal_strlit("cmd+j");
    reveal_strlit("cmd+k");
    reveal_strlit("cmd+l");
    reveal_strlit("cmd+t");
    reveal_strlit("cmd+]");
    reveal_strlit("cmd+[");
    let key = chord_of(action)[0];
    let shifted = "cmd+shift+"@.push(lower(key) as char);
    let plain = "cmd+"@.push(key as char);
    if 'A' as u8 <= key <= 'Z' as u8 {
        assert(kitty_chord_of(action) =~= shifted);
    } else {
        assert(kitty_chord_of(action) =~= plain);
    }
}

/// A custom sequence may be added for an action exactly if it is one to three
/// visible ASCII characters and is no other action's keys.
pub proof fn a_free_sequence_is_no_other_actions(sequence: Seq<char>, action: Action)
    ensures
        sequence_is_free(sequence, action) <==> {
            let keys = encode_utf8(sequence);
            &&& 1 <= keys.len() <= 3
            &&& forall|i: int| 0 <= i < keys.len() ==> 0x21 <= #[trigger] keys[i] <= 0x7e
            &&& forall|other: Action|
                is_bound(other) && other != action ==> #[trigger] chord_of(other) != keys
        },
{
    let keys = encode_utf8(sequence);
    let p = has_chord(keys);
    first_where_props(p, 0, BOUND_ACTIONS as int);
    match chord_action(keys) {
        Some(by) => {
            assert(is_bound(by));
            assert(chord_of(by) == keys);
            assert forall|other: Action|
                is_bound(other) && other != by implies #[trigger] chord_of(other) != keys by {
                if chord_of(other) == keys {
                    chords_round_trip(other);
                }
            }
        },
        None => {
            assert forall|other: Action| is_bound(other) implies #[trigger] chord_of(other)
                != keys by {
                if chord_of(other) == keys {
                    chords_round_trip(other);
                }
            }
        },
    }
}

proof fn kitty_chord_has_shape(action: Action)
    requires
        is_bound(action),
    ensures
        kitty_chord_of(action).len() == match action {
            Action::JumpSession(_) => 9int,
            Action::Quit => 11,
            Action::SwitchWorkspace(_) => 5,
            _ => if 'A' as u8 <= chord_of(action)[0] <= 'Z' as u8 {
                11
            } else {
                5
            },
        },
        kitty_chord_of(action).last() == match action {
            Action::JumpSession(n) => digit_of(n),
            Action::SwitchWorkspace(n) => digit_of(n),
            Action::Quit => 'q',
            _ => lower(chord_of(action)[0]) as char,
        },
{
    reveal_strlit("cmd+");
    reveal_strlit("cmd+alt+");
    reveal_strlit("cmd+shift+");
    reveal_strlit("cmd+shift+q");
    match action {
        Action::SwitchWorkspace(n) => {
            numbered_actions_have_their_digit(n);
        },
        Action::JumpSession(n) => {
            numbered_actions_have_their_digit(n);
        },
        Action::Quit => {},
        _ => {
            kitty_chords_follow_the_portable_keys(action);
        },
    }
}

/// No two actions have the same Kitty chord.
pub proof fn kitty_chords_differ(a: Action, b: Action)
    requires
        is_bound(a),
        is_bound(b),
        kitty_chord_of(a) == kitty_chord_of(b),
    ensures
        a == b,
{
    kitty_chord_has_shape(a);
    kitty_chord_has_shape(b);
}

/// A custom chord may be added for an action exactly if it is made of visible ASCII
/// characters and is no other action's chord.
pub proof fn a_free_chord_is_no_other_actions(chord: Seq<char>, action: Action)
    ensures
        chord_is_free(chord, action) <==> {
            let keys = encode_utf8(chord);
            &&& keys.len() > 0
            &&& forall|i: int| 0 <= i < keys.len() ==> 0x21 <= #[trigger] keys[i] <= 0x7e
            &&& forall|other: Action|
                is_bound(other) && other != action ==> #[trigger] kitty_chord_of(other) != chord
        },
{
    let p = has_kitty_chord(chord);
    first_where_props(p, 0, BOUND_ACTIONS as int);
    assert forall|other: Action| is_bound(other) && #[trigger] kitty_chord_of(other)
        == chord implies kitty_action(chord) == Some(other) by {
        table_is_complete(other);
        assert(p(index_of_bound(other)));
        let by = kitty_action(chord)->0;
        assert(kitty_chord_of(by) == chord && is_bound(by));
        kitty_chords_differ(by, other);
    }
    if let Some(by) = kitty_action(chord) {
        assert(kitty_chord_of(by) == chord && is_bound(by));
    }
}

/// The custom chords handed to the terminal are those whose action is known, each
/// with that action's keys as its tag.
pub proof fn custom_chords_carry_their_actions_tag(list: Seq<(Seq<char>, Seq<char>)>)
    ensures
        forall|i: int|
            0 <= i < list.len() && named_action((#[trigger] list[i]).1) is Some ==> kitty_tags(
                list,
            ).contains((list[i].0, chord_of(named_action(list[i].1)->0))),
        forall|k: int|
            0 <= k < kitty_tags(list).len() ==> exists|i: int|
                0 <= i < list.len() && (#[trigger] list[i]).0 == (#[trigger] kitty_tags(list)[k]).0
                    && named_action(list[i].1) is Some && kitty_tags(list)[k].1 == chord_of(
                    named_action(list[i].1)->0,
                ),
    decreases list.len(),
{
    if list.len() > 0 {
        let rest = list.drop_last();
        let before = kitty_tags(rest);
        let all = kitty_tags(list);
        custom_chords_carry_their_actions_tag(rest);
        assert forall|i: int|
            0 <= i < list.len() && named_action((#[trigger] list[i]).1) is Some implies all.contains(
            (list[i].0, chord_of(named_action(list[i].1)->0)),
        ) by {
            let pair = (list[i].0, chord_of(named_action(list[i].1)->0));
            if i < rest.len() {
                assert(rest[i] == list[i]);
                assert(before.contains(pair));
                let k = choose|k: int| 0 <= k < before.len() && before[k] == pair;
                assert(all[k] == pair);
            } else {
                assert(all[all.len() - 1] == pair);
            }
        }
        assert forall|k: int| 0 <= k < all.len() implies exists|i: int|
            0 <= i < list.len() && (#[trigger] list[i]).0 == (#[trigger] all[k]).0 && named_action(
                list[i].1,
            ) is Some && all[k].1 == chord_of(named_action(list[i].1)->0) by {
            if k < before.len() {
                assert(all[k] == before[k]);
                let i = choose|i: int|
                    0 <= i < rest.len() && (#[trigger] rest[i]).0 == before[k].0 && named_action(
                        rest[i].1,
                    ) is Some && before[k].1 == chord_of(named_action(rest[i].1)->0);
                assert(list[i] == rest[i]);
            } else {
                assert(list[list.len() - 1] == list.last());
            }
        }
    }
}

/// Where a sequence has begun and what follows is no part of any, only what follows
/// goes to the pane, and the beginning is forgotten.
pub proof fn a_sequence_that_leads_nowhere_is_forgotten(
    state: KeyState,
    begun: Seq<u8>,
    bytes: Seq<u8>,
    mode: BindingMode,
)
    requires
        mode == BindingMode::Portable,
        state.pending == Some(begun),
        begun.len() > 0,
        forall|action: Action|
            is_bound(action) ==> !(begun + bytes).is_prefix_of(#[trigger] chord_of(action)),
        forall|i: int|
            0 <= i < state.custom.len() ==> !(begun + bytes).is_prefix_of(
                (#[trigger] state.custom[i]).0,
            ),
    ensures
        key_step(state, bytes, mode) == (
            KeyState { pending: None, ..state },
            KeyInput::PassThrough(bytes),
        ),
{
    let keys = begun + bytes;
    assert(keys.subrange(0, keys.len() as int) =~= keys);
    let p = has_chord(keys);
    assert forall|i: int| 0 <= i < BOUND_ACTIONS implies !#[trigger] p(i) && !keys.is_prefix_of(
        chord_of(bound_action_at(i)),
    ) by {
        assert(is_bound(bound_action_at(i)));
        assert(!keys.is_prefix_of(chord_of(bound_action_at(i))));
    }
    first_where_none(p, 0, BOUND_ACTIONS as int);
    assert forall|i: int| 0 <= i < BOUND_ACTIONS implies !keys.is_prefix_of(
        chord_of(#[trigger] bound_action_at(i)),
    ) by {
        assert(!p(i));
    }
    let q = is_custom(state.custom, keys);
    assert forall|i: int| 0 <= i < state.custom.len() implies !#[trigger] q(i) by {
        assert(!keys.is_prefix_of(state.custom[i].0));
    }
    first_where_none(q, 0, state.custom.len() as int);
}

} // verus!
