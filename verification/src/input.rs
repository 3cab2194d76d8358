//! Portable logical and hardware input events, and their basic interpretation.
use vstd::prelude::*;

use crate::text::push_char;
use crate::types::{CandidateId, ContextSnapshot, ModeId, StateRevision};

verus! {

/// One platform-independent input operation.
#[derive(Clone, PartialEq, Eq)]
pub enum InputEvent {
    InsertText(String),
    Backspace,
    DeleteForward,
    MoveCompositionCursor { grapheme_delta: i32 },
    HardwareKey(HardwareKeyEvent),
    SelectCandidate { candidate_id: CandidateId, state_revision: StateRevision },
    MoveCandidateSelection { delta: i32 },
    NextCandidatePage,
    PreviousCandidatePage,
    Commit,
    Cancel,
    SwitchMode(ModeId),
    ContextChanged(ContextSnapshot),
    FocusChanged(FocusChange),
    Reset,
}

/// Adapter-local focus notification.
#[derive(Clone, Copy, Debug, PartialEq, Eq, Structural)]
pub struct FocusChange {
    pub focused: bool,
    pub context_epoch: u64,
}

/// A hardware event after platform key-code normalization.
#[derive(Clone, Copy, Debug, PartialEq, Eq, Structural)]
pub struct HardwareKeyEvent {
    pub physical_code: u32,
    pub logical_key: LogicalKey,
    pub modifiers: Modifiers,
    pub phase: KeyPhase,
    pub repeat_count: u16,
}

/// Portable logical meaning of a hardware key.
#[derive(Clone, Copy, Debug, PartialEq, Eq, Structural)]
pub enum LogicalKey {
    Character(char),
    Backspace,
    Delete,
    Enter,
    Escape,
    ArrowLeft,
    ArrowRight,
    Unknown,
}

/// Hardware-key transition.
#[derive(Clone, Copy, Debug, PartialEq, Eq, Structural)]
pub enum KeyPhase {
    Down,
    Up,
}

/// Portable modifier mask. Platform-specific modifier bits never enter Core.
#[derive(Clone, Copy, Debug, PartialEq, Eq, Structural)]
pub struct Modifiers(pub u8);

impl Default for Modifiers {
    fn default() -> (r: Self)
        ensures r.0 == 0,
    {
        Modifiers(0)
    }
}

impl Modifiers {
    /// The Shift modifier.
    pub fn shift() -> (r: Self)
        ensures r.0 == 1,
    {
        Modifiers(1)
    }

    /// The Control modifier.
    pub fn control() -> (r: Self)
        ensures r.0 == 2,
    {
        Modifiers(2)
    }

    /// The Alt modifier.
    pub fn alt() -> (r: Self)
        ensures r.0 == 4,
    {
        Modifiers(4)
    }

    /// The Meta modifier.
    pub fn meta() -> (r: Self)
        ensures r.0 == 8,
    {
        Modifiers(8)
    }

    /// An empty modifier set.
    pub fn empty() -> (r: Self)
        ensures r.0 == 0,
    {
        Modifiers(0)
    }

    /// Returns whether all bits in `other` are present.
    pub fn contains(self, other: Self) -> (r: bool)
        ensures r == (self.0 & other.0 == other.0),
    {
        self.0 & other.0 == other.0
    }

    /// Whether Control, Alt or Meta is held: such keys are shortcuts, not text.
    pub open spec fn spec_has_command_modifier(self) -> bool {
        self.0 & 2 == 2 || self.0 & 4 == 4 || self.0 & 8 == 8
    }

    /// Returns whether Control, Alt or Meta is held.
    pub fn has_command_modifier(self) -> (r: bool)
        ensures r == self.spec_has_command_modifier(),
    {
        self.contains(Modifiers(2)) || self.contains(Modifiers(4)) || self.contains(Modifiers(8))
    }

    /// The union of two modifier sets.
    pub fn union(self, rhs: Self) -> (r: Self)
        ensures r.0 == self.0 | rhs.0,
    {
        Modifiers(self.0 | rhs.0)
    }
}

impl core::ops::BitOr for Modifiers {
    type Output = Self;

    fn bitor(self, rhs: Self) -> Self::Output {
        Modifiers(self.0 | rhs.0)
    }
}

impl vstd::std_specs::ops::BitOrSpecImpl for Modifiers {
    open spec fn obeys_bitor_spec() -> bool {
        true
    }

    open spec fn bitor_req(self, rhs: Modifiers) -> bool {
        true
    }

    open spec fn bitor_spec(self, rhs: Modifiers) -> Modifiers {
        Modifiers(self.0 | rhs.0)
    }
}

impl core::ops::BitOrAssign for Modifiers {
    fn bitor_assign(&mut self, rhs: Self)
        ensures
            final(self).0 == old(self).0 | rhs.0,
    {
        self.0 = self.0 | rhs.0;
    }
}

/// A logical editing operation derived from an event.
#[derive(Clone, Debug, PartialEq, Eq)]
pub enum LogicalInput {
    InsertText(String),
    Backspace { count: u16 },
    DeleteForward { count: u16 },
    MoveCompositionCursor { grapheme_delta: i32 },
    Commit,
    Cancel,
}

/// Mathematical content of a [`LogicalInput`].
pub enum LogicalInputView {
    InsertText(Seq<char>),
    Backspace { count: u16 },
    DeleteForward { count: u16 },
    MoveCompositionCursor { grapheme_delta: i32 },
    Commit,
    Cancel,
}

impl View for LogicalInput {
    type V = LogicalInputView;

    open spec fn view(&self) -> LogicalInputView {
        match self {
            LogicalInput::InsertText(t) => LogicalInputView::InsertText(t@),
            LogicalInput::Backspace { count } => LogicalInputView::Backspace { count: *count },
            LogicalInput::DeleteForward { count } => LogicalInputView::DeleteForward {
                count: *count,
            },
            LogicalInput::MoveCompositionCursor { grapheme_delta } =>
                LogicalInputView::MoveCompositionCursor { grapheme_delta: *grapheme_delta },
            LogicalInput::Commit => LogicalInputView::Commit,
            LogicalInput::Cancel => LogicalInputView::Cancel,
        }
    }
}

/// The outcome of interpreting a hardware key.
#[derive(Clone, Debug, PartialEq, Eq)]
pub enum NormalizedHardwareEvent {
    Logical(LogicalInput),
    PassThrough,
}

/// Basic portable interpretation of hardware events.
#[derive(Clone, Copy, Debug, Default)]
pub struct InputNormalizer;

/// `n` copies of `c`.
pub open spec fn repeat_char(c: char, n: nat) -> Seq<char> {
    Seq::new(n, |i: int| c)
}

/// How a hardware key is interpreted: `None` means the host should handle it.
///
/// Only key-down events without Control, Alt or Meta are interpreted. Characters are
/// always inserted (repeated `max(repeat_count, 1)` times); editing keys act only while
/// composing.
pub open spec fn normalized_spec(event: HardwareKeyEvent, is_composing: bool) -> Option<
    LogicalInputView,
> {
    let n: u16 = if event.repeat_count == 0 {
        1
    } else {
        event.repeat_count
    };
    if event.phase != KeyPhase::Down || event.modifiers.spec_has_command_modifier() {
        None
    } else {
        match event.logical_key {
            LogicalKey::Character(c) => Some(LogicalInputView::InsertText(repeat_char(c, n as nat))),
            LogicalKey::Backspace => if is_composing {
                Some(LogicalInputView::Backspace { count: n })
            } else {
                None
            },
            LogicalKey::Delete => if is_composing {
                Some(LogicalInputView::DeleteForward { count: n })
            } else {
                None
            },
            LogicalKey::Enter => if is_composing {
                Some(LogicalInputView::Commit)
            } else {
                None
            },
            LogicalKey::Escape => if is_composing {
                Some(LogicalInputView::Cancel)
            } else {
                None
            },
            LogicalKey::ArrowLeft => if is_composing {
                Some(LogicalInputView::MoveCompositionCursor { grapheme_delta: (-(n as int)) as i32 })
            } else {
                None
            },
            LogicalKey::ArrowRight => if is_composing {
                Some(LogicalInputView::MoveCompositionCursor { grapheme_delta: n as i32 })
            } else {
                None
            },
            LogicalKey::Unknown => None,
        }
    }
}

impl InputNormalizer {
    /// Interprets one hardware key event.
    pub fn normalize(self, event: HardwareKeyEvent, is_composing: bool) -> (r:
        NormalizedHardwareEvent)
        ensures
            match normalized_spec(event, is_composing) {
                None => r is PassThrough,
                Some(v) => r matches NormalizedHardwareEvent::Logical(l) && l@ == v,
            },
    {
        if event.phase != KeyPhase::Down || event.modifiers.has_command_modifier() {
            return NormalizedHardwareEvent::PassThrough;
        }
        let repeat_count: u16 = if event.repeat_count == 0 {
            1
        } else {
            event.repeat_count
        };
        let logical = match event.logical_key {
            LogicalKey::Character(character) => {
                let mut text = String::new();
                let mut i: u16 = 0;
                while i < repeat_count
                    invariant
                        i <= repeat_count,
                        text@ == repeat_char(character, i as nat),
                    decreases repeat_count - i,
                {
                    push_char(&mut text, character);
                    i = i + 1;
                    assert(text@ =~= repeat_char(character, i as nat));
                }
                LogicalInput::InsertText(text)
            },
            LogicalKey::Backspace if is_composing => LogicalInput::Backspace { count: repeat_count },
            LogicalKey::Delete if is_composing => LogicalInput::DeleteForward {
                count: repeat_count,
            },
            LogicalKey::Enter if is_composing => LogicalInput::Commit,
            LogicalKey::Escape if is_composing => LogicalInput::Cancel,
            LogicalKey::ArrowLeft if is_composing => LogicalInput::MoveCompositionCursor {
                grapheme_delta: -(repeat_count as i32),
            },
            LogicalKey::ArrowRight if is_composing => LogicalInput::MoveCompositionCursor {
                grapheme_delta: repeat_count as i32,
            },
            _ => {
                return NormalizedHardwareEvent::PassThrough;
            },
        };
        NormalizedHardwareEvent::Logical(logical)
    }
}

} // verus!
