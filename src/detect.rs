//! Trigger detection: a state machine over key events that recognises a
//! configured prefix followed by a site name and a terminating key.
use std::sync::atomic::{AtomicBool, Ordering};
use std::sync::Arc;
use vstd::prelude::*;

use crate::password::GenerationMode;
use crate::text::{chars_range_to_string, string_chars};

verus! {

/// A physical key, as reported by the keyboard hook.
#[derive(Debug, Clone, Copy, PartialEq, Eq, Structural)]
pub enum Key {
    KeyA,
    KeyB,
    KeyC,
    KeyD,
    KeyE,
    KeyF,
    KeyG,
    KeyH,
    KeyI,
    KeyJ,
    KeyK,
    KeyL,
    KeyM,
    KeyN,
    KeyO,
    KeyP,
    KeyQ,
    KeyR,
    KeyS,
    KeyT,
    KeyU,
    KeyV,
    KeyW,
    KeyX,
    KeyY,
    KeyZ,
    Num0,
    Num1,
    Num2,
    Num3,
    Num4,
    Num5,
    Num6,
    Num7,
    Num8,
    Num9,
    Dot,
    Minus,
    SemiColon,
    Equal,
    Comma,
    Slash,
    BackSlash,
    LeftBracket,
    RightBracket,
    Quote,
    BackQuote,
    Backspace,
    Space,
    Return,
    Tab,
    ShiftLeft,
    ShiftRight,
    ControlLeft,
    ControlRight,
    Alt,
    MetaLeft,
    MetaRight,
    CapsLock,
    Escape,
    /// Any other key, by its platform code.
    Unknown(u32),
}

/// Whether a key was pressed or released.
#[derive(Debug, Clone, Copy, PartialEq, Eq, Structural)]
pub enum EventType {
    KeyPress(Key),
    KeyRelease(Key),
    /// Mouse and other non-key input.
    Other,
}

/// One raw input event, with the glyph the keyboard layout resolved for it,
/// if any.
#[derive(Debug, Clone)]
pub struct Event {
    pub name: Option<String>,
    pub event_type: EventType,
}

/// The layout-insensitive character of a key, used when an event carries no
/// glyph of its own.
pub open spec fn key_char(key: Key) -> Option<char> {
    match key {
        Key::KeyA => Some('a'),
        Key::KeyB => Some('b'),
        Key::KeyC => Some('c'),
        Key::KeyD => Some('d'),
        Key::KeyE => Some('e'),
        Key::KeyF => Some('f'),
        Key::KeyG => Some('g'),
        Key::KeyH => Some('h'),
        Key::KeyI => Some('i'),
        Key::KeyJ => Some('j'),
        Key::KeyK => Some('k'),
        Key::KeyL => Some('l'),
        Key::KeyM => Some('m'),
        Key::KeyN => Some('n'),
        Key::KeyO => Some('o'),
        Key::KeyP => Some('p'),
        Key::KeyQ => Some('q'),
        Key::KeyR => Some('r'),
        Key::KeyS => Some('s'),
        Key::KeyT => Some('t'),
        Key::KeyU => Some('u'),
        Key::KeyV => Some('v'),
        Key::KeyW => Some('w'),
        Key::KeyX => Some('x'),
        Key::KeyY => Some('y'),
        Key::KeyZ => Some('z'),
        Key::Num0 => Some('0'),
        Key::Num1 => Some('1'),
        Key::Num2 => Some('2'),
        Key::Num3 => Some('3'),
        Key::Num4 => Some('4'),
        Key::Num5 => Some('5'),
        Key::Num6 => Some('6'),
        Key::Num7 => Some('7'),
        Key::Num8 => Some('8'),
        Key::Num9 => Some('9'),
        Key::Dot => Some('.'),
        Key::Minus => Some('-'),
        Key::SemiColon => Some(';'),
        Key::Equal => Some('='),
        Key::Comma => Some(','),
        Key::Slash => Some('/'),
        Key::BackSlash => Some('\\'),
        Key::LeftBracket => Some('['),
        Key::RightBracket => Some(']'),
        Key::Quote => Some('\''),
        Key::BackQuote => Some('`'),
        _ => None,
    }
}

/// The layout-insensitive character of a key (US layout).
pub fn key_to_char(key: Key) -> (r: Option<char>)
    ensures
        r == key_char(key),
{
    match key {
        Key::KeyA => Some('a'),
        Key::KeyB => Some('b'),
        Key::KeyC => Some('c'),
        Key::KeyD => Some('d'),
        Key::KeyE => Some('e'),
        Key::KeyF => Some('f'),
        Key::KeyG => Some('g'),
        Key::KeyH => Some('h'),
        Key::KeyI => Some('i'),
        Key::KeyJ => Some('j'),
        Key::KeyK => Some('k'),
        Key::KeyL => Some('l'),
        Key::KeyM => Some('m'),
        Key::KeyN => Some('n'),
        Key::KeyO => Some('o'),
        Key::KeyP => Some('p'),
        Key::KeyQ => Some('q'),
        Key::KeyR => Some('r'),
        Key::KeyS => Some('s'),
        Key::KeyT => Some('t'),
        Key::KeyU => Some('u'),
        Key::KeyV => Some('v'),
        Key::KeyW => Some('w'),
        Key::KeyX => Some('x'),
        Key::KeyY => Some('y'),
        Key::KeyZ => Some('z'),
        Key::Num0 => Some('0'),
        Key::Num1 => Some('1'),
        Key::Num2 => Some('2'),
        Key::Num3 => Some('3'),
        Key::Num4 => Some('4'),
        Key::Num5 => Some('5'),
        Key::Num6 => Some('6'),
        Key::Num7 => Some('7'),
        Key::Num8 => Some('8'),
        Key::Num9 => Some('9'),
        Key::Dot => Some('.'),
        Key::Minus => Some('-'),
        Key::SemiColon => Some(';'),
        Key::Equal => Some('='),
        Key::Comma => Some(','),
        Key::Slash => Some('/'),
        Key::BackSlash => Some('\\'),
        Key::LeftBracket => Some('['),
        Key::RightBracket => Some(']'),
        Key::Quote => Some('\''),
        Key::BackQuote => Some('`'),
        _ => None,
    }
}

/// The key of a macOS virtual key code (ANSI layout), for the keys the
/// detector distinguishes.
pub open spec fn mac_keycode_key(keycode: u16) -> Option<Key> {
    match keycode {
        0 => Some(Key::KeyA),
        1 => Some(Key::KeyS),
        2 => Some(Key::KeyD),
        3 => Some(Key::KeyF),
        4 => Some(Key::KeyH),
        5 => Some(Key::KeyG),
        6 => Some(Key::KeyZ),
        7 => Some(Key::KeyX),
        8 => Some(Key::KeyC),
        9 => Some(Key::KeyV),
        11 => Some(Key::KeyB),
        12 => Some(Key::KeyQ),
        13 => Some(Key::KeyW),
        14 => Some(Key::KeyE),
        15 => Some(Key::KeyR),
        16 => Some(Key::KeyY),
        17 => Some(Key::KeyT),
        18 => Some(Key::Num1),
        19 => Some(Key::Num2),
        20 => Some(Key::Num3),
        21 => Some(Key::Num4),
        22 => Some(Key::Num6),
        23 => Some(Key::Num5),
        24 => Some(Key::Equal),
        25 => Some(Key::Num9),
        26 => Some(Key::Num7),
        27 => Some(Key::Minus),
        28 => Some(Key::Num8),
        29 => Some(Key::Num0),
        30 => Some(Key::RightBracket),
        31 => Some(Key::KeyO),
        32 => Some(Key::KeyU),
        33 => Some(Key::LeftBracket),
        34 => Some(Key::KeyI),
        35 => Some(Key::KeyP),
        36 => Some(Key::Return),
        37 => Some(Key::KeyL),
        38 => Some(Key::KeyJ),
        39 => Some(Key::Quote),
        40 => Some(Key::KeyK),
        41 => Some(Key::SemiColon),
        42 => Some(Key::BackSlash),
        43 => Some(Key::Comma),
        44 => Some(Key::Slash),
        45 => Some(Key::KeyN),
        46 => Some(Key::KeyM),
        47 => Some(Key::Dot),
        48 => Some(Key::Tab),
        49 => Some(Key::Space),
        50 => Some(Key::BackQuote),
        51 => Some(Key::Backspace),
        _ => None,
    }
}

/// The key of a macOS virtual key code (ANSI layout).
pub fn keycode_to_key(keycode: u16) -> (r: Option<Key>)
    ensures
        r == mac_keycode_key(keycode),
{
    match keycode {
        0 => Some(Key::KeyA),
        1 => Some(Key::KeyS),
        2 => Some(Key::KeyD),
        3 => Some(Key::KeyF),
        4 => Some(Key::KeyH),
        5 => Some(Key::KeyG),
        6 => Some(Key::KeyZ),
        7 => Some(Key::KeyX),
        8 => Some(Key::KeyC),
        9 => Some(Key::KeyV),
        11 => Some(Key::KeyB),
        12 => Some(Key::KeyQ),
        13 => Some(Key::KeyW),
        14 => Some(Key::KeyE),
        15 => Some(Key::KeyR),
        16 => Some(Key::KeyY),
        17 => Some(Key::KeyT),
        18 => Some(Key::Num1),
        19 => Some(Key::Num2),
        20 => Some(Key::Num3),
        21 => Some(Key::Num4),
        22 => Some(Key::Num6),
        23 => Some(Key::Num5),
        24 => Some(Key::Equal),
        25 => Some(Key::Num9),
        26 => Some(Key::Num7),
        27 => Some(Key::Minus),
        28 => Some(Key::Num8),
        29 => Some(Key::Num0),
        30 => Some(Key::RightBracket),
        31 => Some(Key::KeyO),
        32 => Some(Key::KeyU),
        33 => Some(Key::LeftBracket),
        34 => Some(Key::KeyI),
        35 => Some(Key::KeyP),
        36 => Some(Key::Return),
        37 => Some(Key::KeyL),
        38 => Some(Key::KeyJ),
        39 => Some(Key::Quote),
        40 => Some(Key::KeyK),
        41 => Some(Key::SemiColon),
        42 => Some(Key::BackSlash),
        43 => Some(Key::Comma),
        44 => Some(Key::Slash),
        45 => Some(Key::KeyN),
        46 => Some(Key::KeyM),
        47 => Some(Key::Dot),
        48 => Some(Key::Tab),
        49 => Some(Key::Space),
        50 => Some(Key::BackQuote),
        51 => Some(Key::Backspace),
        _ => None,
    }
}

/// Keys that end the collection of a site name.
pub open spec fn terminator_key(key: Key) -> bool {
    key == Key::Space || key == Key::Return || key == Key::Tab
}

/// Whether `key` ends the collection of a site name.
pub fn is_terminator(key: Key) -> (r: bool)
    ensures
        r == terminator_key(key),
{
    match key {
        Key::Space | Key::Return | Key::Tab => true,
        _ => false,
    }
}

/// Characters that a site name may hold: ASCII letters and digits, `.`, `-`,
/// `_`, `!` and `@`.
pub open spec fn site_char(c: char) -> bool {
    ('a' <= c && c <= 'z') || ('A' <= c && c <= 'Z') || ('0' <= c && c <= '9') || c == '.' || c
        == '-' || c == '_' || c == '!' || c == '@'
}

/// Whether `ch` may be part of a site name.
pub fn is_valid_site_char(ch: char) -> (r: bool)
    ensures
        r == site_char(ch),
{
    ('a' <= ch && ch <= 'z') || ('A' <= ch && ch <= 'Z') || ('0' <= ch && ch <= '9') || ch == '.'
        || ch == '-' || ch == '_' || ch == '!' || ch == '@'
}

/// A trigger recognised by the detector.
#[derive(Debug, Clone)]
pub struct TriggerEvent {
    /// The site name typed after the prefix.
    pub site: String,
    /// Characters typed for the trigger (prefix and site) plus one for the
    /// terminating key: the backspaces needed to erase it.
    pub trigger_len: usize,
    /// The mode of the matched prefix.
    pub mode: GenerationMode,
}

/// A trigger occurrence as a mathematical value.
pub struct Occurrence {
    pub site: Seq<char>,
    pub trigger_len: nat,
    pub mode: GenerationMode,
}

impl View for TriggerEvent {
    type V = Occurrence;

    open spec fn view(&self) -> Occurrence {
        Occurrence { site: self.site@, trigger_len: self.trigger_len as nat, mode: self.mode }
    }
}

/// The detector's state.
#[derive(Debug, Clone, Copy, PartialEq, Eq, Structural)]
pub enum DetectorState {
    Idle,
    ScanningPrefix,
    /// A prefix of the given mode and length (in characters) has been matched.
    CollectingSite(GenerationMode, usize),
}

/// Configured prefixes with their modes, as sequences of characters.
pub type Triggers = Seq<(Seq<char>, GenerationMode)>;

/// `a` is a prefix of `b`.
pub open spec fn is_prefix_of(a: Seq<char>, b: Seq<char>) -> bool {
    a.len() <= b.len() && b.take(a.len() as int) == a
}

/// `buf` begins some configured prefix.
pub open spec fn begins_some_prefix(ts: Triggers, buf: Seq<char>) -> bool {
    exists|i: int| 0 <= i < ts.len() && is_prefix_of(buf, #[trigger] ts[i].0)
}

/// The first configured prefix, from index `i` on, that equals `buf`: its mode
/// and length.
pub open spec fn first_exact_from(ts: Triggers, buf: Seq<char>, i: int) -> Option<
    (GenerationMode, nat),
>
    decreases ts.len() - i,
{
    if i < 0 || i >= ts.len() {
        None
    } else if ts[i].0 == buf {
        Some((ts[i].1, ts[i].0.len()))
    } else {
        first_exact_from(ts, buf, i + 1)
    }
}

proof fn lemma_first_exact_len(ts: Triggers, buf: Seq<char>, i: int)
    ensures
        first_exact_from(ts, buf, i) matches Some(m) ==> m.1 == buf.len(),
    decreases ts.len() - i,
{
    if 0 <= i < ts.len() && ts[i].0 != buf {
        lemma_first_exact_len(ts, buf, i + 1);
    }
}

/// The first configured prefix that equals `buf`, in declaration order.
pub open spec fn first_exact(ts: Triggers, buf: Seq<char>) -> Option<(GenerationMode, nat)> {
    first_exact_from(ts, buf, 0)
}

/// A printable character typed in state `st` with buffer `buf`. A buffer
/// that would reach the largest length the machine can count is abandoned.
pub open spec fn step_char(st: DetectorState, buf: Seq<char>, ts: Triggers, ch: char) -> (
    DetectorState,
    Seq<char>,
) {
    if st != DetectorState::Idle && buf.len() + 1 >= usize::MAX {
        (DetectorState::Idle, Seq::empty())
    } else {
        match st {
        DetectorState::Idle => if begins_some_prefix(ts, seq![ch]) {
            (DetectorState::ScanningPrefix, seq![ch])
        } else {
            (DetectorState::Idle, Seq::empty())
        },
        DetectorState::ScanningPrefix => {
            let b = buf.push(ch);
            match first_exact(ts, b) {
                Some(m) => (DetectorState::CollectingSite(m.0, m.1 as usize), b),
                None => if begins_some_prefix(ts, b) {
                    (DetectorState::ScanningPrefix, b)
                } else {
                    (DetectorState::Idle, Seq::empty())
                },
            }
        },
        DetectorState::CollectingSite(_, _) => if site_char(ch) {
            (st, buf.push(ch))
        } else {
            (DetectorState::Idle, Seq::empty())
        },
        }
    }
}

/// Backspace in state `st` with buffer `buf`.
pub open spec fn step_backspace(st: DetectorState, buf: Seq<char>, ts: Triggers) -> (
    DetectorState,
    Seq<char>,
) {
    if buf.len() > 0 && st != DetectorState::Idle {
        let b = buf.drop_last();
        if b.len() == 0 {
            (DetectorState::Idle, Seq::empty())
        } else {
            match st {
                DetectorState::CollectingSite(_, l) => if b.len() < l {
                    (DetectorState::Idle, Seq::empty())
                } else {
                    (st, b)
                },
                _ => if begins_some_prefix(ts, b) {
                    (st, b)
                } else {
                    (DetectorState::Idle, Seq::empty())
                },
            }
        }
    } else {
        (st, buf)
    }
}

/// A terminating key in state `st` with buffer `buf`: the detector returns
/// to idle, reporting the site when one was being collected.
pub open spec fn step_terminator(st: DetectorState, buf: Seq<char>) -> Option<Occurrence> {
    match st {
        DetectorState::CollectingSite(mode, l) => if buf.len() > l {
            Some(
                Occurrence {
                    site: buf.skip(l as int),
                    trigger_len: buf.len() + 1,
                    mode: mode,
                },
            )
        } else {
            None
        },
        _ => None,
    }
}

/// The character an event types: the first character of its glyph, or else
/// the key's own character.
pub open spec fn event_char(name: Option<String>, key: Key) -> Option<char> {
    match name {
        Some(n) if n@.len() > 0 => Some(n@[0]),
        _ => key_char(key),
    }
}

/// One event, with the guard clear: next state, next buffer, and the
/// occurrence reported, if any.
pub open spec fn step(st: DetectorState, buf: Seq<char>, ts: Triggers, ev: Event) -> (
    DetectorState,
    Seq<char>,
    Option<Occurrence>,
) {
    match ev.event_type {
        EventType::KeyPress(key) => if key == Key::Backspace {
            let n = step_backspace(st, buf, ts);
            (n.0, n.1, None)
        } else if terminator_key(key) {
            (DetectorState::Idle, Seq::empty(), step_terminator(st, buf))
        } else {
            match event_char(ev.name, key) {
                Some(ch) => {
                    let n = step_char(st, buf, ts, ch);
                    (n.0, n.1, None)
                },
                None => (st, buf, None),
            }
        },
        _ => (st, buf, None),
    }
}

/// One event, where a set guard makes the detector ignore it entirely.
pub open spec fn step_guarded(
    st: DetectorState,
    buf: Seq<char>,
    ts: Triggers,
    guard_set: bool,
    ev: Event,
) -> (DetectorState, Seq<char>, Option<Occurrence>) {
    if guard_set {
        (st, buf, None)
    } else {
        step(st, buf, ts, ev)
    }
}

/// The detector's internal invariant: the buffer is empty exactly when idle,
/// and holds at least the matched prefix while collecting a site.
pub open spec fn state_wf(st: DetectorState, buf: Seq<char>) -> bool {
    &&& (st == DetectorState::Idle) == (buf.len() == 0)
    &&& buf.len() < usize::MAX
    &&& match st {
        DetectorState::CollectingSite(_, l) => l <= buf.len(),
        _ => true,
    }
}

/// Converts the consumer's stream of key events into trigger occurrences.
pub struct TriggerDetector {
    state: DetectorState,
    buffer: Vec<char>,
    triggers: Vec<(Vec<char>, GenerationMode)>,
    injection_active: Arc<AtomicBool>,
}

impl TriggerDetector {
    /// The current state.
    pub closed spec fn state_view(&self) -> DetectorState {
        self.state
    }

    /// The characters observed since the last reset.
    pub closed spec fn buffer_view(&self) -> Seq<char> {
        self.buffer@
    }

    /// The configured prefixes and modes, in declaration order.
    pub closed spec fn triggers_view(&self) -> Triggers {
        self.triggers@.map_values(|t: (Vec<char>, GenerationMode)| (t.0@, t.1))
    }

    /// The detector's invariant holds.
    pub open spec fn wf(&self) -> bool {
        state_wf(self.state_view(), self.buffer_view())
    }

    /// A detector for the given prefixes, idle, sharing the injection guard.
    pub fn new(triggers: Vec<(String, GenerationMode)>, injection_active: Arc<AtomicBool>) -> (r:
        Self)
        ensures
            r.wf(),
            r.state_view() == DetectorState::Idle,
            r.buffer_view() == Seq::<char>::empty(),
            r.triggers_view() == triggers@.map_values(
                |t: (String, GenerationMode)| (t.0@, t.1),
            ),
    {
        let mut converted: Vec<(Vec<char>, GenerationMode)> = Vec::new();
        let mut i: usize = 0;
        while i < triggers.len()
            invariant
                i <= triggers@.len(),
                converted@.len() == i,
                forall|j: int|
                    0 <= j < i ==> (#[trigger] converted@[j]).0@ == triggers@[j].0@
                        && converted@[j].1 == triggers@[j].1,
            decreases triggers@.len() - i,
        {
            let chars = string_chars(triggers[i].0.as_str());
            converted.push((chars, triggers[i].1));
            i = i + 1;
        }
        let r = TriggerDetector {
            state: DetectorState::Idle,
            buffer: Vec::new(),
            triggers: converted,
            injection_active,
        };
        assert(r.triggers_view() =~= triggers@.map_values(
            |t: (String, GenerationMode)| (t.0@, t.1),
        ));
        r
    }
}

/// The occurrence an optional trigger event stands for.
pub open spec fn occurrence_of(r: Option<TriggerEvent>) -> Option<Occurrence> {
    match r {
        Some(t) => Some(t@),
        None => None,
    }
}

/// Whether `b` is a prefix of `p`.
fn starts_with(p: &Vec<char>, b: &Vec<char>) -> (r: bool)
    ensures
        r == is_prefix_of(b@, p@),
{
    if b.len() > p.len() {
        return false;
    }
    let mut i: usize = 0;
    while i < b.len()
        invariant
            b@.len() <= p@.len(),
            i <= b@.len(),
            forall|j: int| 0 <= j < i ==> p@[j] == b@[j],
        decreases b@.len() - i,
    {
        if p[i] != b[i] {
            assert(p@.take(b@.len() as int)[i as int] != b@[i as int]);
            return false;
        }
        i = i + 1;
    }
    assert(p@.take(b@.len() as int) =~= b@);
    true
}

/// Whether `a` and `b` hold the same characters.
fn chars_equal(a: &Vec<char>, b: &Vec<char>) -> (r: bool)
    ensures
        r == (a@ == b@),
{
    if a.len() != b.len() {
        return false;
    }
    let r = starts_with(a, b);
    proof {
        if r {
            assert(a@.take(b@.len() as int) =~= a@);
        }
        if a@ == b@ {
            assert(a@.take(b@.len() as int) =~= b@);
        }
    }
    r
}

impl TriggerDetector {
    fn check_prefixes(&self) -> (r: bool)
        ensures
            r == begins_some_prefix(self.triggers_view(), self.buffer@),
    {
        let ghost ts = self.triggers_view();
        let mut i: usize = 0;
        while i < self.triggers.len()
            invariant
                ts == self.triggers_view(),
                i <= self.triggers@.len(),
                forall|j: int| 0 <= j < i ==> !is_prefix_of(self.buffer@, #[trigger] ts[j].0),
            decreases self.triggers@.len() - i,
        {
            if starts_with(&self.triggers[i].0, &self.buffer) {
                assert(is_prefix_of(self.buffer@, ts[i as int].0));
                return true;
            }
            i = i + 1;
        }
        false
    }

    fn check_full_match(&self) -> (r: Option<(GenerationMode, usize)>)
        ensures
            match r {
                Some(m) => first_exact(self.triggers_view(), self.buffer@) == Some(
                    (m.0, m.1 as nat),
                ),
                None => first_exact(self.triggers_view(), self.buffer@) is None,
            },
    {
        let ghost ts = self.triggers_view();
        let mut i: usize = 0;
        while i < self.triggers.len()
            invariant
                ts == self.triggers_view(),
                i <= self.triggers@.len(),
                first_exact(ts, self.buffer@) == first_exact_from(ts, self.buffer@, i as int),
            decreases self.triggers@.len() - i,
        {
            if chars_equal(&self.triggers[i].0, &self.buffer) {
                return Some((self.triggers[i].1, self.triggers[i].0.len()));
            }
            i = i + 1;
        }
        None
    }

    fn reset(&mut self)
        ensures
            final(self).state == DetectorState::Idle,
            final(self).buffer@ == Seq::<char>::empty(),
            final(self).triggers == old(self).triggers,
            final(self).injection_active == old(self).injection_active,
    {
        self.state = DetectorState::Idle;
        self.buffer.clear();
    }

    fn handle_backspace(&mut self)
        requires
            old(self).wf(),
        ensures
            final(self).wf(),
            (final(self).state, final(self).buffer@) == step_backspace(
                old(self).state,
                old(self).buffer@,
                old(self).triggers_view(),
            ),
            final(self).triggers == old(self).triggers,
            final(self).injection_active == old(self).injection_active,
    {
        if self.buffer.len() > 0 && self.state != DetectorState::Idle {
            self.buffer.pop();
            if self.buffer.len() == 0 {
                self.reset();
                return;
            }
            match self.state {
                DetectorState::CollectingSite(_, prefix_len) => {
                    if self.buffer.len() < prefix_len {
                        self.reset();
                    }
                },
                _ => {
                    if !self.check_prefixes() {
                        self.reset();
                    }
                },
            }
        }
    }

    fn handle_terminator(&mut self) -> (r: Option<TriggerEvent>)
        requires
            old(self).wf(),
        ensures
            final(self).wf(),
            final(self).state == DetectorState::Idle,
            final(self).buffer@ == Seq::<char>::empty(),
            occurrence_of(r) == step_terminator(old(self).state, old(self).buffer@),
            final(self).triggers == old(self).triggers,
            final(self).injection_active == old(self).injection_active,
    {
        if let DetectorState::CollectingSite(mode, prefix_len) = self.state {
            if self.buffer.len() > prefix_len {
                let site = chars_range_to_string(&self.buffer, prefix_len);
                let trigger_len = self.buffer.len() + 1;
                self.reset();
                return Some(TriggerEvent { site, trigger_len, mode });
            }
        }
        self.reset();
        None
    }

    fn process_char(&mut self, ch: char)
        requires
            old(self).wf(),
        ensures
            final(self).wf(),
            (final(self).state, final(self).buffer@) == step_char(
                old(self).state,
                old(self).buffer@,
                old(self).triggers_view(),
                ch,
            ),
            final(self).triggers == old(self).triggers,
            final(self).injection_active == old(self).injection_active,
    {
        if self.state != DetectorState::Idle && self.buffer.len() >= usize::MAX - 1 {
            self.reset();
            return;
        }
        match self.state {
            DetectorState::Idle => {
                self.buffer.clear();
                self.buffer.push(ch);
                assert(self.buffer@ =~= seq![ch]);
                if self.check_prefixes() {
                    self.state = DetectorState::ScanningPrefix;
                } else {
                    self.buffer.clear();
                }
            },
            DetectorState::ScanningPrefix => {
                self.buffer.push(ch);
                if let Some((mode, len)) = self.check_full_match() {
                    proof {
                        lemma_first_exact_len(self.triggers_view(), self.buffer@, 0);
                    }
                    self.state = DetectorState::CollectingSite(mode, len);
                    return;
                }
                if !self.check_prefixes() {
                    self.reset();
                }
            },
            DetectorState::CollectingSite(_, _) => {
                if is_valid_site_char(ch) {
                    self.buffer.push(ch);
                } else {
                    self.reset();
                }
            },
        }
    }

    fn handle_key_press(&mut self, key: Key, event: &Event) -> (r: Option<TriggerEvent>)
        requires
            old(self).wf(),
            event.event_type == EventType::KeyPress(key),
        ensures
            final(self).wf(),
            (final(self).state, final(self).buffer@, occurrence_of(r)) == step(
                old(self).state,
                old(self).buffer@,
                old(self).triggers_view(),
                *event,
            ),
            final(self).triggers == old(self).triggers,
            final(self).injection_active == old(self).injection_active,
    {
        if key == Key::Backspace {
            self.handle_backspace();
            return None;
        }
        if is_terminator(key) {
            return self.handle_terminator();
        }
        let ch = match &event.name {
            Some(name) if name.as_str().unicode_len() > 0 => name.as_str().get_char(0),
            _ => match key_to_char(key) {
                Some(c) => c,
                None => {
                    return None;
                },
            },
        };
        self.process_char(ch);
        None
    }

    /// Feeds one event to the detector, given whether the injection guard is
    /// set: a set guard leaves the detector untouched and reports nothing.
    /// Otherwise presses are classified as backspace, terminator or printable
    /// character; releases and other input are ignored.
    pub fn process_event_with_guard(&mut self, event: &Event, guard_set: bool) -> (r: Option<
        TriggerEvent,
    >)
        requires
            old(self).wf(),
        ensures
            final(self).wf(),
            (final(self).state_view(), final(self).buffer_view(), occurrence_of(r))
                == step_guarded(
                old(self).state_view(),
                old(self).buffer_view(),
                old(self).triggers_view(),
                guard_set,
                *event,
            ),
            final(self).triggers_view() == old(self).triggers_view(),
    {
        if guard_set {
            return None;
        }
        match &event.event_type {
            EventType::KeyPress(key) => self.handle_key_press(*key, event),
            _ => None,
        }
    }

    /// Feeds one event to the detector, reading the shared injection guard
    /// first. The guard is written by another thread, so the caller learns
    /// only that the event was either ignored or processed.
    pub fn process_event(&mut self, event: &Event) -> (r: Option<TriggerEvent>)
        requires
            old(self).wf(),
        ensures
            final(self).wf(),
            (final(self).state_view(), final(self).buffer_view(), occurrence_of(r))
                == step_guarded(
                old(self).state_view(),
                old(self).buffer_view(),
                old(self).triggers_view(),
                true,
                *event,
            ) || (final(self).state_view(), final(self).buffer_view(), occurrence_of(r))
                == step_guarded(
                old(self).state_view(),
                old(self).buffer_view(),
                old(self).triggers_view(),
                false,
                *event,
            ),
            final(self).triggers_view() == old(self).triggers_view(),
    {
        let guard_set = self.injection_active.load(Ordering::SeqCst);
        self.process_event_with_guard(event, guard_set)
    }
}

/// A sequence of events fed one by one: final state, final buffer, and the
/// occurrences reported, in order.
pub open spec fn run_events(
    st: DetectorState,
    buf: Seq<char>,
    ts: Triggers,
    guard_set: bool,
    evs: Seq<Event>,
) -> (DetectorState, Seq<char>, Seq<Occurrence>)
    decreases evs.len(),
{
    if evs.len() == 0 {
        (st, buf, Seq::empty())
    } else {
        let n = step_guarded(st, buf, ts, guard_set, evs[0]);
        let rest = run_events(n.0, n.1, ts, guard_set, evs.drop_first());
        (
            rest.0,
            rest.1,
            match n.2 {
                Some(o) => seq![o] + rest.2,
                None => rest.2,
            },
        )
    }
}

/// While the injection guard is set, no sequence of events yields an
/// occurrence, and the detector's state and buffer stay as they were.
pub proof fn lemma_guard_suppresses(
    st: DetectorState,
    buf: Seq<char>,
    ts: Triggers,
    evs: Seq<Event>,
)
    ensures
        run_events(st, buf, ts, true, evs) == (st, buf, Seq::<Occurrence>::empty()),
    decreases evs.len(),
{
    if evs.len() > 0 {
        lemma_guard_suppresses(st, buf, ts, evs.drop_first());
    }
}

/// A key press that types a character allowed in a site name.
pub open spec fn site_char_press(e: Event) -> bool {
    match e.event_type {
        EventType::KeyPress(k) => k != Key::Backspace && !terminator_key(k) && match event_char(
            e.name,
            k,
        ) {
            Some(c) => site_char(c),
            None => false,
        },
        _ => false,
    }
}

/// A press of backspace.
pub open spec fn backspace_press(e: Event) -> bool {
    e.event_type == EventType::KeyPress(Key::Backspace)
}

proof fn lemma_run_append(
    st: DetectorState,
    buf: Seq<char>,
    ts: Triggers,
    g: bool,
    a: Seq<Event>,
    b: Seq<Event>,
)
    ensures
        run_events(st, buf, ts, g, a + b) == ({
            let r1 = run_events(st, buf, ts, g, a);
            let r2 = run_events(r1.0, r1.1, ts, g, b);
            (r2.0, r2.1, r1.2 + r2.2)
        }),
    decreases a.len(),
{
    if a.len() == 0 {
        assert(a + b =~= b);
        assert(Seq::<Occurrence>::empty() + run_events(st, buf, ts, g, b).2 =~= run_events(
            st,
            buf,
            ts,
            g,
            b,
        ).2);
    } else {
        let n = step_guarded(st, buf, ts, g, a[0]);
        assert((a + b).drop_first() =~= a.drop_first() + b);
        assert((a + b)[0] == a[0]);
        lemma_run_append(n.0, n.1, ts, g, a.drop_first(), b);
        let r1 = run_events(n.0, n.1, ts, g, a.drop_first());
        let r2 = run_events(r1.0, r1.1, ts, g, b);
        match n.2 {
            Some(o) => {
                assert(seq![o] + (r1.2 + r2.2) =~= (seq![o] + r1.2) + r2.2);
            },
            None => {},
        }
    }
}

/// While a site name is being collected, typing any site characters and then
/// erasing as many with backspace leaves the detector as it was and reports
/// nothing; so a site name corrected by backspacing yields the same occurrence
/// as one typed directly.
pub proof fn lemma_type_then_erase(
    st: DetectorState,
    buf: Seq<char>,
    ts: Triggers,
    typed: Seq<Event>,
    erased: Seq<Event>,
)
    requires
        state_wf(st, buf),
        st is CollectingSite,
        buf.len() + typed.len() + 1 < usize::MAX,
        typed.len() == erased.len(),
        forall|i: int| 0 <= i < typed.len() ==> site_char_press(#[trigger] typed[i]),
        forall|i: int| 0 <= i < erased.len() ==> backspace_press(#[trigger] erased[i]),
    ensures
        run_events(st, buf, ts, false, typed + erased) == (st, buf, Seq::<Occurrence>::empty()),
    decreases typed.len(),
{
    if typed.len() == 0 {
        assert(typed + erased =~= Seq::<Event>::empty());
    } else {
        let t0 = typed[0];
        let e_last = erased.last();
        assert(site_char_press(t0));
        assert(backspace_press(e_last));
        let n = step_guarded(st, buf, ts, false, t0);
        let c = match t0.event_type {
            EventType::KeyPress(k) => event_char(t0.name, k)->Some_0,
            _ => ' ',
        };
        assert(n == (st, buf.push(c), None::<Occurrence>));
        let mid_t = typed.drop_first();
        let mid_e = erased.drop_last();
        assert forall|i: int| 0 <= i < mid_t.len() implies site_char_press(#[trigger] mid_t[i]) by {
            assert(mid_t[i] == typed[i + 1]);
        }
        assert forall|i: int| 0 <= i < mid_e.len() implies backspace_press(#[trigger] mid_e[i]) by {
            assert(mid_e[i] == erased[i]);
        }
        lemma_type_then_erase(st, buf.push(c), ts, mid_t, mid_e);
        assert(typed + erased =~= seq![t0] + ((mid_t + mid_e) + seq![e_last]));
        lemma_run_append(st, buf, ts, false, seq![t0], (mid_t + mid_e) + seq![e_last]);
        assert(seq![t0].drop_first() =~= Seq::<Event>::empty());
        lemma_run_append(st, buf.push(c), ts, false, mid_t + mid_e, seq![e_last]);
        assert(seq![e_last].drop_first() =~= Seq::<Event>::empty());
        assert(buf.push(c).drop_last() =~= buf);
        assert(seq![t0][0] == t0);
        assert(seq![e_last][0] == e_last);
        assert(run_events(st, buf.push(c), ts, false, Seq::<Event>::empty()) == (
            st,
            buf.push(c),
            Seq::<Occurrence>::empty(),
        ));
        assert(run_events(st, buf, ts, false, Seq::<Event>::empty()) == (
            st,
            buf,
            Seq::<Occurrence>::empty(),
        ));
        assert(run_events(st, buf, ts, false, seq![t0]) == (
            st,
            buf.push(c),
            Seq::<Occurrence>::empty(),
        ));
        assert(step_guarded(st, buf.push(c), ts, false, e_last) == (
            st,
            buf,
            None::<Occurrence>,
        ));
        assert(run_events(st, buf.push(c), ts, false, seq![e_last]) == (
            st,
            buf,
            Seq::<Occurrence>::empty(),
        ));
        assert(Seq::<Occurrence>::empty() + Seq::<Occurrence>::empty() =~= Seq::<Occurrence>::empty());
    }
}

} // verus!
