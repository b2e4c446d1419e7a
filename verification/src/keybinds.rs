//! Key bindings: chords of Ctrl, Alt, Shift and a key, each bound to one of the
//! built-in actions, read from a text with one binding per line.

use vstd::prelude::*;
use crate::debug::DebugFeatures;
use crate::text::{chars_of, is_space, is_whitespace, part_equals, part_is, same_ignoring_case};
use vstd::string::StrSliceExecFns;

verus! {

/// A chord: a key code with the state of the three modifiers.
#[derive(Clone, Copy, Debug, PartialEq, Eq, Hash, Structural)]
pub struct KeyBind {
    pub key: u32,
    pub ctrl: bool,
    pub alt: bool,
    pub shift: bool,
}

/// The built-in actions that a chord can be bound to.
#[derive(Clone, Copy, Debug, PartialEq, Eq, Hash, Structural)]
pub enum Action {
    DumpDebugData,
    RestartBlish,
    ToggleRendering,
    ToggleProcessing,
    ToggleDebugOverlay,
}

/// The action that a name stands for, if it is the name of one.
pub open spec fn action_named(name: Seq<char>) -> Option<Action> {
    if name == "dump_debug_data"@ {
        Some(Action::DumpDebugData)
    } else if name == "restart_blish"@ {
        Some(Action::RestartBlish)
    } else if name == "toggle_rendering"@ {
        Some(Action::ToggleRendering)
    } else if name == "toggle_processing"@ {
        Some(Action::ToggleProcessing)
    } else if name == "toggle_debug_overlay"@ {
        Some(Action::ToggleDebugOverlay)
    } else {
        None
    }
}

/// Looks up the action named by the part of `text` from `from` up to `to`.
pub fn action_in(text: &Vec<char>, from: usize, to: usize) -> (action: Option<Action>)
    requires
        from <= to <= text@.len(),
    ensures
        action == action_named(text@.subrange(from as int, to as int)),
{
    if part_equals(text, from, to, "dump_debug_data") {
        Some(Action::DumpDebugData)
    } else if part_equals(text, from, to, "restart_blish") {
        Some(Action::RestartBlish)
    } else if part_equals(text, from, to, "toggle_rendering") {
        Some(Action::ToggleRendering)
    } else if part_equals(text, from, to, "toggle_processing") {
        Some(Action::ToggleProcessing)
    } else if part_equals(text, from, to, "toggle_debug_overlay") {
        Some(Action::ToggleDebugOverlay)
    } else {
        None
    }
}

/// Looks up a built-in action by its name. A name that is none of the five
/// built-in ones gives `None`.
pub fn find_action(name: &str) -> (action: Option<Action>)
    ensures
        action == action_named(name@),
{
    let text = chars_of(name);
    assert(text@.subrange(0, text@.len() as int) =~= name@);
    action_in(&text, 0, text.len())
}

/// The built-in action with the given name. The name has to be one of the five
/// built-in ones; `find_action` tells whether it is.
pub fn action_from_name(name: &str) -> (action: Action)
    requires
        action_named(name@) is Some,
    ensures
        action_named(name@) == Some(action),
{
    find_action(name).unwrap()
}

/// Whether a key state, as the system reports it, says that the key is down:
/// its highest bit is set.
pub open spec fn key_down(state: i16) -> bool {
    state < 0
}

/// The chord that is being pressed: the key of the message, with the modifiers
/// taken from the states of the Ctrl, Alt and Shift keys.
pub fn get_current_keybind(wparam: u32, ctrl_state: i16, alt_state: i16, shift_state: i16) -> (bind:
    KeyBind)
    ensures
        bind == (KeyBind {
            key: wparam,
            ctrl: key_down(ctrl_state),
            alt: key_down(alt_state),
            shift: key_down(shift_state),
        }),
{
    KeyBind { key: wparam, ctrl: ctrl_state < 0, alt: alt_state < 0, shift: shift_state < 0 }
}

/// Switches rendering on or off.
pub fn toggle_rendering_action(features: &mut DebugFeatures)
    ensures
        *final(features) == (DebugFeatures {
            rendering_enabled: !old(features).rendering_enabled,
            ..*old(features)
        }),
{
    features.rendering_enabled = !features.rendering_enabled;
}

/// Switches input processing on or off.
pub fn toggle_processing_action(features: &mut DebugFeatures)
    ensures
        *final(features) == (DebugFeatures {
            processing_enabled: !old(features).processing_enabled,
            ..*old(features)
        }),
{
    features.processing_enabled = !features.processing_enabled;
}

/// What has to happen to the pixels after the diagnostics overlay was toggled.
#[derive(Clone, Copy, Debug, PartialEq, Eq, Structural)]
pub enum OverlayToggle {
    /// The overlay was switched off: clear its pixels from the frame.
    Clear,
    /// The overlay was switched on: render its buffer anew.
    Refresh,
}

/// Switches the diagnostics overlay on or off, and tells what to do about its pixels.
pub fn toggle_debug_overlay(features: &mut DebugFeatures) -> (todo: OverlayToggle)
    ensures
        *final(features) == (DebugFeatures {
            debug_overlay_enabled: !old(features).debug_overlay_enabled,
            ..*old(features)
        }),
        todo == (if old(features).debug_overlay_enabled {
            OverlayToggle::Clear
        } else {
            OverlayToggle::Refresh
        }),
{
    let was_on = features.debug_overlay_enabled;
    features.debug_overlay_enabled = !was_on;
    if was_on {
        OverlayToggle::Clear
    } else {
        OverlayToggle::Refresh
    }
}

/// The bindings that a sequence of entries amounts to, a later entry replacing
/// an earlier one for the same chord.
pub open spec fn bindings(entries: Seq<(KeyBind, Action)>) -> Map<KeyBind, Action>
    decreases entries.len(),
{
    if entries.len() == 0 {
        Map::empty()
    } else {
        bindings(entries.drop_last()).insert(entries.last().0, entries.last().1)
    }
}

/// The table of key bindings.
#[derive(Debug)]
pub struct KeyBinds {
    /// The entries in the order in which they were bound.
    pub entries: Vec<(KeyBind, Action)>,
}

impl View for KeyBinds {
    type V = Map<KeyBind, Action>;

    open spec fn view(&self) -> Map<KeyBind, Action> {
        bindings(self.entries@)
    }
}

impl KeyBinds {
    /// The empty table.
    pub fn new() -> (table: KeyBinds)
        ensures
            table@ == Map::<KeyBind, Action>::empty(),
            table.entries@.len() == 0,
    {
        KeyBinds { entries: Vec::new() }
    }

    /// Binds a chord to an action, replacing what it was bound to.
    pub fn insert(&mut self, bind: KeyBind, action: Action)
        ensures
            final(self)@ == old(self)@.insert(bind, action),
            final(self).entries@ == old(self).entries@.push((bind, action)),
    {
        self.entries.push((bind, action));
        assert(self.entries@.drop_last() =~= old(self).entries@);
    }

    /// The action that a chord is bound to, if it is bound.
    pub fn get(&self, bind: &KeyBind) -> (action: Option<Action>)
        ensures
            action == (if self@.contains_key(*bind) {
                Some(self@[*bind])
            } else {
                None
            }),
    {
        let mut i: usize = self.entries.len();
        assert(self.entries@.take(i as int) =~= self.entries@);
        while i > 0
            invariant
                i <= self.entries@.len(),
                forall|k: int| i <= k < self.entries@.len() ==> (#[trigger] self.entries@[k]).0 != *bind,
                self@.contains_key(*bind) == bindings(self.entries@.take(i as int)).contains_key(
                    *bind,
                ),
                self@.contains_key(*bind) ==> self@[*bind] == bindings(
                    self.entries@.take(i as int),
                )[*bind],
            decreases i,
        {
            let entry = self.entries[i - 1];
            proof {
                let upto = self.entries@.take(i as int);
                assert(upto.drop_last() =~= self.entries@.take(i - 1));
                assert(upto.last() == entry);
            }
            if entry.0.key == bind.key && entry.0.ctrl == bind.ctrl && entry.0.alt == bind.alt
                && entry.0.shift == bind.shift {
                return Some(entry.1);
            }
            i = i - 1;
        }
        assert(self.entries@.take(0) =~= Seq::<(KeyBind, Action)>::empty());
        None
    }
}

/// Why a text of key bindings was refused.
#[derive(Debug)]
pub enum ConfigError {
    /// A binding names an action that is none of the built-in ones.
    UnknownAction(String),
}

/// Position of the first character at or after `from` that is no white space;
/// the text's length if there is none.
pub open spec fn skip_spaces(s: Seq<char>, from: int) -> int
    decreases s.len() - from,
{
    if 0 <= from < s.len() && is_space(s[from]) {
        skip_spaces(s, from + 1)
    } else {
        from
    }
}

/// Position of the first white space at or after `from`; the text's length if
/// there is none.
pub open spec fn skip_word(s: Seq<char>, from: int) -> int
    decreases s.len() - from,
{
    if 0 <= from < s.len() && !is_space(s[from]) {
        skip_word(s, from + 1)
    } else {
        from
    }
}

/// Position at which the last part of a chord begins: right after its last `+`,
/// or at 0 if it has none.
pub open spec fn last_part_start(chord: Seq<char>) -> int
    decreases chord.len(),
{
    if chord.len() == 0 {
        0
    } else if chord.last() == '+' {
        chord.len() as int
    } else {
        last_part_start(chord.drop_last())
    }
}

/// Whether the chord's characters from `i` up to `j` are one of its parts before
/// the last: a stretch without `+` that a `+` follows, beginning at the chord's
/// start or right after a `+`.
pub open spec fn is_modifier_part(chord: Seq<char>, i: int, j: int) -> bool {
    &&& 0 <= i <= j < chord.len()
    &&& chord[j] == '+'
    &&& i == 0 || chord[i - 1] == '+'
    &&& forall|k: int| i <= k < j ==> chord[k] != '+'
}

/// Whether one of the chord's parts before the last is `name`, up to the case of
/// the letters A to Z.
pub open spec fn has_modifier(chord: Seq<char>, name: Seq<char>) -> bool {
    exists|i: int, j: int| #[trigger]
        is_modifier_part(chord, i, j) && same_ignoring_case(chord.subrange(i, j), name)
}

/// The chord that a text such as `Ctrl+Alt+P` stands for. The key is the first
/// character of the last part; a chord whose last part is empty stands for
/// nothing. Parts before the last that name no modifier are ignored.
pub open spec fn chord_of(chord: Seq<char>) -> Option<KeyBind> {
    let start = last_part_start(chord);
    if start < chord.len() {
        Some(
            KeyBind {
                key: chord[start] as u32,
                ctrl: has_modifier(chord, "ctrl"@),
                alt: has_modifier(chord, "alt"@),
                shift: has_modifier(chord, "shift"@),
            },
        )
    } else {
        None
    }
}

/// What a line of the text of key bindings stands for: `Ok(None)` if it does not
/// hold two words or its chord names no key, the binding if its second word names
/// an action, and else that word as an error.
pub open spec fn binding_of(line: Seq<char>) -> Result<Option<(KeyBind, Action)>, Seq<char>> {
    let chord_from = skip_spaces(line, 0);
    let chord_to = skip_word(line, chord_from);
    let name_from = skip_spaces(line, chord_to);
    let name_to = skip_word(line, name_from);
    let name = line.subrange(name_from, name_to);
    if name_from >= line.len() {
        Ok(None)
    } else {
        match chord_of(line.subrange(chord_from, chord_to)) {
            None => Ok(None),
            Some(bind) => match action_named(name) {
                Some(action) => Ok(Some((bind, action))),
                None => Err(name),
            },
        }
    }
}

/// Whether a parsed line is what `expected` says.
pub open spec fn agrees(
    parsed: Result<Option<(KeyBind, Action)>, ConfigError>,
    expected: Result<Option<(KeyBind, Action)>, Seq<char>>,
) -> bool {
    match (parsed, expected) {
        (Ok(found), Ok(wanted)) => found == wanted,
        (Err(ConfigError::UnknownAction(name)), Err(wanted)) => name@ == wanted,
        _ => false,
    }
}

fn skip_spaces_from(text: &Vec<char>, from: usize) -> (at: usize)
    requires
        from <= text@.len(),
    ensures
        at == skip_spaces(text@, from as int),
        from <= at <= text@.len(),
{
    let mut at: usize = from;
    while at < text.len() && is_whitespace(text[at])
        invariant
            from <= at <= text@.len(),
            skip_spaces(text@, from as int) == skip_spaces(text@, at as int),
        decreases text@.len() - at,
    {
        at = at + 1;
    }
    at
}

fn skip_word_from(text: &Vec<char>, from: usize) -> (at: usize)
    requires
        from <= text@.len(),
    ensures
        at == skip_word(text@, from as int),
        from <= at <= text@.len(),
{
    let mut at: usize = from;
    while at < text.len() && !is_whitespace(text[at])
        invariant
            from <= at <= text@.len(),
            skip_word(text@, from as int) == skip_word(text@, at as int),
        decreases text@.len() - at,
    {
        at = at + 1;
    }
    at
}

proof fn lemma_last_part_start(chord: Seq<char>, start: int)
    requires
        0 <= start <= chord.len(),
        start == 0 || chord[start - 1] == '+',
        forall|k: int| start <= k < chord.len() ==> chord[k] != '+',
    ensures
        last_part_start(chord) == start,
    decreases chord.len(),
{
    if chord.len() > 0 && chord.last() != '+' {
        lemma_last_part_start(chord.drop_last(), start);
    }
}

/// Reads a chord from the part of `text` from `from` up to `to`.
fn chord_in(text: &Vec<char>, from: usize, to: usize) -> (bind: Option<KeyBind>)
    requires
        from <= to <= text@.len(),
    ensures
        bind == chord_of(text@.subrange(from as int, to as int)),
{
    let ghost chord = text@.subrange(from as int, to as int);
    let mut ctrl = false;
    let mut alt = false;
    let mut shift = false;
    let mut start: usize = from;
    let mut at: usize = from;
    while at < to
        invariant
            from <= start <= at <= to <= text@.len(),
            chord == text@.subrange(from as int, to as int),
            start == from || chord[start - from - 1] == '+',
            forall|k: int| start - from <= k < at - from ==> chord[k] != '+',
            ctrl == (exists|i: int, j: int| #[trigger]
                is_modifier_part(chord, i, j) && j < at - from && same_ignoring_case(
                    chord.subrange(i, j),
                    "ctrl"@,
                )),
            alt == (exists|i: int, j: int| #[trigger]
                is_modifier_part(chord, i, j) && j < at - from && same_ignoring_case(
                    chord.subrange(i, j),
                    "alt"@,
                )),
            shift == (exists|i: int, j: int| #[trigger]
                is_modifier_part(chord, i, j) && j < at - from && same_ignoring_case(
                    chord.subrange(i, j),
                    "shift"@,
                )),
        decreases to - at,
    {
        if text[at] == '+' {
            let is_ctrl = part_is(text, start, at, "ctrl");
            let is_alt = part_is(text, start, at, "alt");
            let is_shift = part_is(text, start, at, "shift");
            proof {
                let i0 = start - from;
                let j0 = at - from;
                assert(text@.subrange(start as int, at as int) =~= chord.subrange(i0, j0));
                assert(is_modifier_part(chord, i0, j0));
                assert forall|i: int, j: int| #[trigger]
                    is_modifier_part(chord, i, j) && j == j0 implies i == i0 by {
                    if i < i0 {
                        assert(chord[i0 - 1] == '+');
                    }
                    if i > i0 {
                        assert(chord[i - 1] == '+');
                    }
                }
            }
            ctrl = ctrl || is_ctrl;
            alt = alt || is_alt;
            shift = shift || is_shift;
            start = at + 1;
        } else {
            proof {
                assert forall|i: int, j: int| #[trigger]
                    is_modifier_part(chord, i, j) implies j != at - from by {}
            }
        }
        at = at + 1;
    }
    proof {
        lemma_last_part_start(chord, start - from);
    }
    if start < to {
        Some(KeyBind { key: text[start] as u32, ctrl, alt, shift })
    } else {
        None
    }
}

/// Parses a line given by its characters. An unknown action comes back as the
/// positions between which its name stands.
fn binding_in(line: &Vec<char>) -> (parsed: Result<Option<(KeyBind, Action)>, (usize, usize)>)
    ensures
        match parsed {
            Ok(found) => binding_of(line@) == Ok::<_, Seq<char>>(found),
            Err((from, to)) => from <= to <= line@.len() && binding_of(line@) == Err::<
                Option<(KeyBind, Action)>,
                _,
            >(line@.subrange(from as int, to as int)),
        },
{
    let chord_from = skip_spaces_from(line, 0);
    let chord_to = skip_word_from(line, chord_from);
    let name_from = skip_spaces_from(line, chord_to);
    let name_to = skip_word_from(line, name_from);
    if name_from >= line.len() {
        return Ok(None);
    }
    match chord_in(line, chord_from, chord_to) {
        None => Ok(None),
        Some(bind) => match action_in(line, name_from, name_to) {
            Some(action) => Ok(Some((bind, action))),
            None => Err((name_from, name_to)),
        },
    }
}

/// Tries to parse one line of the text of key bindings: a chord such as
/// `Ctrl+Alt+P`, white space, and the name of a built-in action; what follows
/// is ignored. A line without two words, or whose chord ends in `+`, binds
/// nothing. A line that binds a chord to an unknown name is an error.
pub fn try_parse_keybind_line(line: &str) -> (parsed: Result<
    Option<(KeyBind, Action)>,
    ConfigError,
>)
    ensures
        agrees(parsed, binding_of(line@)),
{
    let text = chars_of(line);
    match binding_in(&text) {
        Ok(found) => Ok(found),
        Err((from, to)) => {
            let name = line.substring_char(from, to).to_owned();
            Err(ConfigError::UnknownAction(name))
        },
    }
}

/// Parses one line of the text of key bindings, as `try_parse_keybind_line`
/// does. The line must not bind a chord to an unknown action;
/// `try_parse_keybind_line` tells whether it does.
pub fn parse_keybind_line(line: &str) -> (parsed: Option<(KeyBind, Action)>)
    requires
        binding_of(line@) is Ok,
    ensures
        binding_of(line@) == Ok::<Option<(KeyBind, Action)>, Seq<char>>(parsed),
{
    let text = chars_of(line);
    binding_in(&text).unwrap()
}

/// Position of the last line feed of a text, or -1 if it has none.
pub open spec fn last_newline(text: Seq<char>) -> int
    decreases text.len(),
{
    if text.len() == 0 {
        -1
    } else if text.last() == '\n' {
        text.len() - 1
    } else {
        last_newline(text.drop_last())
    }
}

/// The bindings that a text holds, line by line and in the order of the lines;
/// or the name of the first unknown action.
pub open spec fn bindings_in(text: Seq<char>) -> Result<Seq<(KeyBind, Action)>, Seq<char>>
    decreases text.len(),
{
    let cut = last_newline(text);
    let earlier = if 0 <= cut < text.len() {
        bindings_in(text.take(cut))
    } else {
        Ok(Seq::empty())
    };
    match earlier {
        Err(name) => Err(name),
        Ok(found) => match binding_of(text.skip(cut + 1)) {
            Err(name) => Err(name),
            Ok(None) => Ok(found),
            Ok(Some(entry)) => Ok(found.push(entry)),
        },
    }
}

/// Whether a table that was read is what `expected` says.
pub open spec fn table_agrees(
    read: Result<KeyBinds, ConfigError>,
    expected: Result<Seq<(KeyBind, Action)>, Seq<char>>,
) -> bool {
    match (read, expected) {
        (Ok(table), Ok(entries)) => table.entries@ == entries && table@ == bindings(entries),
        (Err(ConfigError::UnknownAction(name)), Err(wanted)) => name@ == wanted,
        _ => false,
    }
}

proof fn lemma_last_newline(text: Seq<char>, start: int)
    requires
        0 <= start <= text.len(),
        start == 0 || text[start - 1] == '\n',
        forall|k: int| start <= k < text.len() ==> text[k] != '\n',
    ensures
        last_newline(text) == start - 1,
    decreases text.len(),
{
    if text.len() > 0 && text.last() != '\n' {
        lemma_last_newline(text.drop_last(), start);
    }
}

/// The bindings found before the line that begins at `start`.
spec fn bindings_before(text: Seq<char>, start: int) -> Result<Seq<(KeyBind, Action)>, Seq<char>> {
    if start == 0 {
        Ok(Seq::empty())
    } else {
        bindings_in(text.take(start - 1))
    }
}

/// Reads a text of key bindings line by line. An unknown action comes back as
/// the positions between which its name stands in the text.
fn read_bindings(contents: &str) -> (read: Result<KeyBinds, (usize, usize)>)
    ensures
        match read {
            Ok(table) => bindings_in(contents@) == Ok::<_, Seq<char>>(table.entries@) && table@
                == bindings(table.entries@),
            Err((from, to)) => from <= to <= contents@.len() && bindings_in(contents@) == Err::<
                Seq<(KeyBind, Action)>,
                _,
            >(contents@.subrange(from as int, to as int)),
        },
{
    let text = chars_of(contents);
    let mut table = KeyBinds::new();
    let mut line: Vec<char> = Vec::new();
    let mut start: usize = 0;
    let mut at: usize = 0;
    assert(line@ =~= text@.subrange(0, 0));
    assert(table.entries@ =~= Seq::<(KeyBind, Action)>::empty());
    while at < text.len()
        invariant
            start <= at <= text@.len(),
            text@ == contents@,
            start == 0 || text@[start - 1] == '\n',
            forall|k: int| start <= k < at ==> text@[k] != '\n',
            line@ == text@.subrange(start as int, at as int),
            bindings_before(text@, start as int) == Ok::<_, Seq<char>>(table.entries@),
            table@ == bindings(table.entries@),
        decreases text@.len() - at,
    {
        if text[at] == '\n' {
            let ghost upto = text@.take(at as int);
            proof {
                lemma_last_newline(upto, start as int);
                assert(upto.skip(start as int) =~= line@);
                if start > 0 {
                    assert(upto.take(start - 1) =~= text@.take(start - 1));
                }
            }
            match binding_in(&line) {
                Ok(None) => {},
                Ok(Some(entry)) => {
                    table.insert(entry.0, entry.1);
                },
                Err((from, to)) => {
                    proof {
                        assert(line@.subrange(from as int, to as int) =~= text@.subrange(
                            start + from,
                            start + to,
                        ));
                        lemma_error_stays(text@, at as int);
                    }
                    return Err((start + from, start + to));
                },
            }
            line = Vec::new();
            start = at + 1;
            assert(text@.take(start - 1) =~= upto);
            assert(line@ =~= text@.subrange(start as int, at + 1));
        } else {
            line.push(text[at]);
            assert(line@ =~= text@.subrange(start as int, at + 1));
        }
        at = at + 1;
    }
    proof {
        lemma_last_newline(text@, start as int);
        assert(text@.skip(start as int) =~= line@);
    }
    match binding_in(&line) {
        Ok(None) => {},
        Ok(Some(entry)) => {
            table.insert(entry.0, entry.1);
        },
        Err((from, to)) => {
            proof {
                assert(line@.subrange(from as int, to as int) =~= text@.subrange(
                    start + from,
                    start + to,
                ));
            }
            return Err((start + from, start + to));
        },
    }
    Ok(table)
}

/// Tries to read a text of key bindings, one binding per line. The table holds
/// the bindings of all lines in their order, a later line replacing an earlier
/// one for the same chord. The first line that binds a chord to an unknown
/// action makes the whole text an error.
pub fn try_load_keybinds(contents: &str) -> (read: Result<KeyBinds, ConfigError>)
    ensures
        table_agrees(read, bindings_in(contents@)),
{
    match read_bindings(contents) {
        Ok(table) => Ok(table),
        Err((from, to)) => {
            let name = contents.substring_char(from, to).to_owned();
            Err(ConfigError::UnknownAction(name))
        },
    }
}

/// Reads a text of key bindings, as `try_load_keybinds` does. No line of the
/// text may bind a chord to an unknown action; `try_load_keybinds` tells
/// whether one does.
pub fn load_keybinds(contents: &str) -> (table: KeyBinds)
    requires
        bindings_in(contents@) is Ok,
    ensures
        bindings_in(contents@) == Ok::<Seq<(KeyBind, Action)>, Seq<char>>(table.entries@),
        table@ == bindings(table.entries@),
{
    read_bindings(contents).unwrap()
}

/// An unknown action in the lines up to a line's end is the error of the whole text.
proof fn lemma_error_stays(text: Seq<char>, end: int)
    requires
        0 <= end <= text.len(),
        end == text.len() || text[end] == '\n',
        bindings_in(text.take(end)) is Err,
    ensures
        bindings_in(text) == bindings_in(text.take(end)),
    decreases text.len(),
{
    if end < text.len() {
        let cut = last_newline(text);
        lemma_newline_range(text);
        assert(end <= cut) by {
            lemma_last_newline_is_last(text, end);
        }
        if end < cut {
            let shorter = text.take(cut);
            assert(shorter.take(end) =~= text.take(end));
            lemma_error_stays(shorter, end);
        } else {
            assert(text.take(cut) =~= text.take(end));
        }
    } else {
        assert(text.take(end) =~= text);
    }
}

proof fn lemma_newline_range(text: Seq<char>)
    ensures
        -1 <= last_newline(text) < text.len(),
        last_newline(text) >= 0 ==> text[last_newline(text)] == '\n',
    decreases text.len(),
{
    if text.len() > 0 && text.last() != '\n' {
        lemma_newline_range(text.drop_last());
    }
}

proof fn lemma_last_newline_is_last(text: Seq<char>, at: int)
    requires
        0 <= at < text.len(),
        text[at] == '\n',
    ensures
        at <= last_newline(text),
    decreases text.len(),
{
    if text.last() != '\n' {
        lemma_last_newline_is_last(text.drop_last(), at);
    }
}

/// The bindings that are written out where no text of key bindings exists yet.
pub const DEFAULT_KEYBINDS: &'static str =
    "Ctrl+Alt+P dump_debug_data\nCtrl+Alt+O restart_blish\nCtrl+Alt+B toggle_rendering\nCtrl+Alt+N toggle_processing\nCtrl+Alt+D toggle_debug_overlay\n";

/// The text from which the table of key bindings is set up: the text that was
/// found, or the default bindings where none was found.
pub open spec fn keybinds_text(existing: Option<&str>) -> Seq<char> {
    match existing {
        Some(text) => text@,
        None => DEFAULT_KEYBINDS@,
    }
}

/// Tries to set up the table of key bindings from the text that was found, or
/// from the default bindings where none was found.
pub fn try_init_keybinds(existing: Option<&str>) -> (read: Result<KeyBinds, ConfigError>)
    ensures
        table_agrees(read, bindings_in(keybinds_text(existing))),
{
    match existing {
        Some(text) => try_load_keybinds(text),
        None => try_load_keybinds(DEFAULT_KEYBINDS),
    }
}

/// Sets up the table of key bindings from the text that was found, or from the
/// default bindings where none was found. The text must not bind a chord to
/// an unknown action; `try_init_keybinds` tells whether it does.
pub fn init_keybinds(existing: Option<&str>) -> (table: KeyBinds)
    requires
        bindings_in(keybinds_text(existing)) is Ok,
    ensures
        bindings_in(keybinds_text(existing)) == Ok::<Seq<(KeyBind, Action)>, Seq<char>>(
            table.entries@,
        ),
        table@ == bindings(table.entries@),
{
    match existing {
        Some(text) => load_keybinds(text),
        None => load_keybinds(DEFAULT_KEYBINDS),
    }
}

} // verus!
