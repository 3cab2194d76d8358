//! Identifiers, hard limits, platform capabilities and the host context snapshot.
use vstd::prelude::*;

use crate::error::ImeError;
use crate::text::{byte_len, utf8_len};

verus! {

/// Strongly typed `EngineId` value.
#[derive(Clone, Copy, Debug, PartialEq, Eq, Structural, PartialOrd, Ord, Hash)]
pub struct EngineId(pub u64);

/// Strongly typed `SessionId` value.
#[derive(Clone, Copy, Debug, PartialEq, Eq, Structural, PartialOrd, Ord, Hash)]
pub struct SessionId(pub u64);

/// Strongly typed `ResourceGeneration` value.
#[derive(Clone, Copy, Debug, PartialEq, Eq, Structural, PartialOrd, Ord, Hash)]
pub struct ResourceGeneration(pub u64);

/// Strongly typed `StateRevision` value.
#[derive(Clone, Copy, Debug, PartialEq, Eq, Structural, PartialOrd, Ord, Hash)]
pub struct StateRevision(pub u64);

/// Strongly typed `ActionId` value.
#[derive(Clone, Copy, Debug, PartialEq, Eq, Structural, PartialOrd, Ord, Hash)]
pub struct ActionId(pub u64);

/// Strongly typed `DocumentIdentity` value.
#[derive(Clone, Copy, Debug, PartialEq, Eq, Structural, PartialOrd, Ord, Hash)]
pub struct DocumentIdentity(pub u64);

/// Stable dictionary identity, separate from revision-scoped candidate IDs.
#[derive(Clone, Copy, Debug, PartialEq, Eq, Structural, PartialOrd, Ord, Hash)]
pub struct LexemeId(pub u64);

/// Candidate identifier, valid only with the Session revision that produced it.
#[derive(Clone, Copy, Debug, PartialEq, Eq, Structural, PartialOrd, Ord, Hash)]
pub struct CandidateId(pub u32);

impl EngineId {
    /// Creates an identifier from its numeric representation.
    pub fn new(value: u64) -> (r: Self)
        ensures r.0 == value,
    {
        EngineId(value)
    }

    /// Returns the numeric representation.
    pub fn get(self) -> (r: u64)
        ensures r == self.0,
    {
        self.0
    }
}

impl SessionId {
    /// Creates an identifier from its numeric representation.
    pub fn new(value: u64) -> (r: Self)
        ensures r.0 == value,
    {
        SessionId(value)
    }

    /// Returns the numeric representation.
    pub fn get(self) -> (r: u64)
        ensures r == self.0,
    {
        self.0
    }
}

impl ResourceGeneration {
    /// Creates an identifier from its numeric representation.
    pub fn new(value: u64) -> (r: Self)
        ensures r.0 == value,
    {
        ResourceGeneration(value)
    }

    /// Returns the numeric representation.
    pub fn get(self) -> (r: u64)
        ensures r == self.0,
    {
        self.0
    }
}

impl StateRevision {
    /// Creates an identifier from its numeric representation.
    pub fn new(value: u64) -> (r: Self)
        ensures r.0 == value,
    {
        StateRevision(value)
    }

    /// Returns the numeric representation.
    pub fn get(self) -> (r: u64)
        ensures r == self.0,
    {
        self.0
    }
}

impl ActionId {
    /// Creates an identifier from its numeric representation.
    pub fn new(value: u64) -> (r: Self)
        ensures r.0 == value,
    {
        ActionId(value)
    }

    /// Returns the numeric representation.
    pub fn get(self) -> (r: u64)
        ensures r == self.0,
    {
        self.0
    }
}

impl DocumentIdentity {
    /// Creates an identifier from its numeric representation.
    pub fn new(value: u64) -> (r: Self)
        ensures r.0 == value,
    {
        DocumentIdentity(value)
    }

    /// Returns the numeric representation.
    pub fn get(self) -> (r: u64)
        ensures r == self.0,
    {
        self.0
    }
}

impl LexemeId {
    /// Creates an identifier from its numeric representation.
    pub fn new(value: u64) -> (r: Self)
        ensures r.0 == value,
    {
        LexemeId(value)
    }

    /// Returns the numeric representation.
    pub fn get(self) -> (r: u64)
        ensures r == self.0,
    {
        self.0
    }
}

impl CandidateId {
    /// Creates an identifier from its numeric representation.
    pub fn new(value: u32) -> (r: Self)
        ensures r.0 == value,
    {
        CandidateId(value)
    }

    /// Returns the numeric representation.
    pub fn get(self) -> (r: u32)
        ensures r == self.0,
    {
        self.0
    }
}

/// An opaque mode identifier. Mode zero is the only mode in use.
#[derive(Clone, Copy, Debug, PartialEq, Eq, Structural, PartialOrd, Ord, Hash)]
pub struct ModeId(pub u32);

impl ModeId {
    /// Creates a mode identifier.
    pub fn new(value: u32) -> (r: Self)
        ensures r.0 == value,
    {
        ModeId(value)
    }

    /// Returns the numeric representation.
    pub fn get(self) -> (r: u32)
        ensures r == self.0,
    {
        self.0
    }
}

impl Default for ModeId {
    fn default() -> (r: Self)
        ensures r.0 == 0,
    {
        ModeId(0)
    }
}

/// Hard safety limits enforced by the Core.
#[derive(Clone, Debug, PartialEq, Eq, Structural)]
pub struct CoreLimits {
    pub max_event_text_bytes: usize,
    pub max_composition_text_bytes: usize,
    pub max_context_text_bytes: usize,
    pub max_unknown_context_text_bytes: usize,
    pub max_outstanding_actions: usize,
    pub max_resolved_action_history: usize,
    pub max_generated_candidates: usize,
    pub max_visible_candidates: usize,
}

impl Default for CoreLimits {
    fn default() -> (r: Self)
        ensures
            r.max_event_text_bytes == 4096,
            r.max_composition_text_bytes == 16384,
            r.max_context_text_bytes == 1024,
            r.max_unknown_context_text_bytes == 0,
            r.max_outstanding_actions == 64,
            r.max_resolved_action_history == 128,
            r.max_generated_candidates == 256,
            r.max_visible_candidates == 64,
    {
        CoreLimits {
            max_event_text_bytes: 4096,
            max_composition_text_bytes: 16384,
            max_context_text_bytes: 1024,
            max_unknown_context_text_bytes: 0,
            max_outstanding_actions: 64,
            max_resolved_action_history: 128,
            max_generated_candidates: 256,
            max_visible_candidates: 64,
        }
    }
}

impl CoreLimits {
    /// The Core invariants every Engine configuration must satisfy.
    pub open spec fn valid(&self) -> bool {
        &&& self.max_event_text_bytes > 0
        &&& self.max_composition_text_bytes >= self.max_event_text_bytes
        &&& self.max_unknown_context_text_bytes <= self.max_context_text_bytes
        &&& self.max_outstanding_actions > 0
        &&& self.max_resolved_action_history > 0
    }

    /// The first violated rule, if any.
    pub open spec fn validate_error(&self) -> Option<ImeError> {
        if self.max_event_text_bytes == 0 {
            Some(ImeError::InvalidConfig("max_event_text_bytes must be greater than zero"))
        } else if self.max_composition_text_bytes < self.max_event_text_bytes {
            Some(ImeError::InvalidConfig("max_composition_text_bytes must cover one maximum-size event"))
        } else if self.max_unknown_context_text_bytes > self.max_context_text_bytes {
            Some(ImeError::InvalidConfig("unknown-context limit cannot exceed the normal context limit"))
        } else if self.max_outstanding_actions == 0 {
            Some(ImeError::InvalidConfig("max_outstanding_actions must be greater than zero"))
        } else if self.max_resolved_action_history == 0 {
            Some(ImeError::InvalidConfig("max_resolved_action_history must be greater than zero"))
        } else {
            None
        }
    }

    /// Checks the hard limits, reporting the first violated rule.
    pub fn validate(&self) -> (r: Result<(), ImeError>)
        ensures
            r is Ok <==> self.valid(),
            r matches Err(e) ==> self.validate_error() == Some(e),
            self.max_event_text_bytes == 0 ==> r == Err::<(), ImeError>(
                ImeError::InvalidConfig("max_event_text_bytes must be greater than zero"),
            ),
            self.max_event_text_bytes > 0 && self.max_composition_text_bytes
                < self.max_event_text_bytes ==> r == Err::<(), ImeError>(
                ImeError::InvalidConfig(
                    "max_composition_text_bytes must cover one maximum-size event",
                ),
            ),
            self.max_event_text_bytes > 0 && self.max_composition_text_bytes
                >= self.max_event_text_bytes && self.max_unknown_context_text_bytes
                > self.max_context_text_bytes ==> r == Err::<(), ImeError>(
                ImeError::InvalidConfig(
                    "unknown-context limit cannot exceed the normal context limit",
                ),
            ),
            self.max_event_text_bytes > 0 && self.max_composition_text_bytes
                >= self.max_event_text_bytes && self.max_unknown_context_text_bytes
                <= self.max_context_text_bytes && self.max_outstanding_actions == 0 ==> r
                == Err::<(), ImeError>(
                ImeError::InvalidConfig("max_outstanding_actions must be greater than zero"),
            ),
            self.max_event_text_bytes > 0 && self.max_composition_text_bytes
                >= self.max_event_text_bytes && self.max_unknown_context_text_bytes
                <= self.max_context_text_bytes && self.max_outstanding_actions > 0
                && self.max_resolved_action_history == 0 ==> r == Err::<(), ImeError>(
                ImeError::InvalidConfig("max_resolved_action_history must be greater than zero"),
            ),
    {
        if self.max_event_text_bytes == 0 {
            return Err(ImeError::InvalidConfig("max_event_text_bytes must be greater than zero"));
        }
        if self.max_composition_text_bytes < self.max_event_text_bytes {
            return Err(
                ImeError::InvalidConfig(
                    "max_composition_text_bytes must cover one maximum-size event",
                ),
            );
        }
        if self.max_unknown_context_text_bytes > self.max_context_text_bytes {
            return Err(
                ImeError::InvalidConfig(
                    "unknown-context limit cannot exceed the normal context limit",
                ),
            );
        }
        if self.max_outstanding_actions == 0 {
            return Err(
                ImeError::InvalidConfig("max_outstanding_actions must be greater than zero"),
            );
        }
        if self.max_resolved_action_history == 0 {
            return Err(
                ImeError::InvalidConfig("max_resolved_action_history must be greater than zero"),
            );
        }
        Ok(())
    }
}

/// Host support for marked composition text.
#[derive(Clone, Copy, Debug, PartialEq, Eq, Structural)]
pub enum MarkedTextSupport {
    /// The host cannot display marked composition text.
    Unsupported,
    Basic,
}

impl Default for MarkedTextSupport {
    fn default() -> (r: Self)
        ensures r == MarkedTextSupport::Unsupported,
    {
        MarkedTextSupport::Unsupported
    }
}

/// Host support for bounded surrounding text.
#[derive(Clone, Copy, Debug, PartialEq, Eq, Structural)]
pub enum SurroundingTextSupport {
    /// The host offers no surrounding text.
    Unsupported,
    BeforeCursor,
    Bidirectional,
}

impl Default for SurroundingTextSupport {
    fn default() -> (r: Self)
        ensures r == SurroundingTextSupport::Unsupported,
    {
        SurroundingTextSupport::Unsupported
    }
}

/// Capabilities that materially change portable Core behavior.
#[derive(Clone, Copy, Debug, PartialEq, Eq, Structural)]
pub struct PlatformCapabilities {
    pub marked_text_support: MarkedTextSupport,
    pub surrounding_text_support: SurroundingTextSupport,
    pub selected_text_read_support: bool,
    pub hardware_key_support: bool,
}

impl Default for PlatformCapabilities {
    fn default() -> (r: Self)
        ensures
            r.marked_text_support == MarkedTextSupport::Unsupported,
            r.surrounding_text_support == SurroundingTextSupport::Unsupported,
            !r.selected_text_read_support,
            !r.hardware_key_support,
    {
        PlatformCapabilities {
            marked_text_support: MarkedTextSupport::Unsupported,
            surrounding_text_support: SurroundingTextSupport::Unsupported,
            selected_text_read_support: false,
            hardware_key_support: false,
        }
    }
}

/// Privacy-relevant classification of the active host input field.
#[derive(Clone, Copy, Debug, PartialEq, Eq, Structural)]
pub enum InputScope {
    Normal,
    Search,
    Email,
    Url,
    Number,
    Phone,
    Password,
    Sensitive,
    Unknown,
}

impl Default for InputScope {
    fn default() -> (r: Self)
        ensures r == InputScope::Unknown,
    {
        InputScope::Unknown
    }
}

impl InputScope {
    /// The scopes in which the default policy forbids any use of private text.
    pub open spec fn is_restricted(self) -> bool {
        self == InputScope::Password || self == InputScope::Sensitive || self
            == InputScope::Unknown
    }

    /// Returns whether persistent learning is permitted by the default policy.
    pub fn permits_persistent_learning(self) -> (r: bool)
        ensures r == !self.is_restricted(),
    {
        !matches!(self, InputScope::Password | InputScope::Sensitive | InputScope::Unknown)
    }

    /// Returns whether private-history prediction is permitted by default.
    pub fn permits_private_history_prediction(self) -> (r: bool)
        ensures r == !self.is_restricted(),
    {
        !matches!(self, InputScope::Password | InputScope::Sensitive | InputScope::Unknown)
    }

    /// Returns whether the scope holds secrets whose context must never be retained.
    pub fn is_strictly_sensitive(self) -> (r: bool)
        ensures r == (self == InputScope::Password || self == InputScope::Sensitive),
    {
        matches!(self, InputScope::Password | InputScope::Sensitive)
    }
}

/// Mathematical content of a [`ContextSnapshot`].
pub struct ContextView {
    pub before_cursor: Seq<char>,
    pub selected_text: Seq<char>,
    pub after_cursor: Seq<char>,
    pub before_truncated: bool,
    pub after_truncated: bool,
    pub input_scope: InputScope,
    pub context_epoch: u64,
    pub document_identity: Option<DocumentIdentity>,
}

/// A bounded, adapter-local snapshot of context around the host cursor.
#[derive(Clone, PartialEq, Eq)]
pub struct ContextSnapshot {
    before_cursor_utf8: String,
    selected_text_utf8: String,
    after_cursor_utf8: String,
    before_truncated: bool,
    after_truncated: bool,
    input_scope: InputScope,
    context_epoch: u64,
    document_identity: Option<DocumentIdentity>,
}

impl View for ContextSnapshot {
    type V = ContextView;

    closed spec fn view(&self) -> ContextView {
        ContextView {
            before_cursor: self.before_cursor_utf8@,
            selected_text: self.selected_text_utf8@,
            after_cursor: self.after_cursor_utf8@,
            before_truncated: self.before_truncated,
            after_truncated: self.after_truncated,
            input_scope: self.input_scope,
            context_epoch: self.context_epoch,
            document_identity: self.document_identity,
        }
    }
}

/// The byte budget for each context field in a given scope.
pub open spec fn context_budget(scope: InputScope, limits: CoreLimits) -> nat {
    if scope == InputScope::Password || scope == InputScope::Sensitive {
        0
    } else if scope == InputScope::Unknown {
        limits.max_unknown_context_text_bytes as nat
    } else {
        limits.max_context_text_bytes as nat
    }
}

/// The snapshot that results from applying the privacy and capability policy to `c`
/// (before its sizes are checked).
pub open spec fn sanitized_view(
    c: ContextView,
    limits: CoreLimits,
    capabilities: PlatformCapabilities,
) -> ContextView {
    if context_budget(c.input_scope, limits) == 0 {
        ContextView {
            before_cursor: Seq::empty(),
            selected_text: Seq::empty(),
            after_cursor: Seq::empty(),
            ..c
        }
    } else {
        ContextView {
            before_cursor: if capabilities.surrounding_text_support
                == SurroundingTextSupport::Unsupported {
                Seq::empty()
            } else {
                c.before_cursor
            },
            selected_text: if capabilities.selected_text_read_support {
                c.selected_text
            } else {
                Seq::empty()
            },
            after_cursor: if capabilities.surrounding_text_support
                == SurroundingTextSupport::Bidirectional {
                c.after_cursor
            } else {
                Seq::empty()
            },
            ..c
        }
    }
}

/// The empty context that a Session starts with and returns to on reset.
pub open spec fn default_context_view() -> ContextView {
    ContextView {
        before_cursor: Seq::empty(),
        selected_text: Seq::empty(),
        after_cursor: Seq::empty(),
        before_truncated: false,
        after_truncated: false,
        input_scope: InputScope::Unknown,
        context_epoch: 0,
        document_identity: None,
    }
}

impl ContextSnapshot {
    /// Creates a snapshot. Text is sanitized when the Session accepts the event.
    pub fn new(
        before_cursor_utf8: &str,
        selected_text_utf8: &str,
        after_cursor_utf8: &str,
        input_scope: InputScope,
        context_epoch: u64,
    ) -> (r: Self)
        ensures
            r@ == (ContextView {
                before_cursor: before_cursor_utf8@,
                selected_text: selected_text_utf8@,
                after_cursor: after_cursor_utf8@,
                before_truncated: false,
                after_truncated: false,
                input_scope,
                context_epoch,
                document_identity: None,
            }),
    {
        ContextSnapshot {
            before_cursor_utf8: before_cursor_utf8.to_owned(),
            selected_text_utf8: selected_text_utf8.to_owned(),
            after_cursor_utf8: after_cursor_utf8.to_owned(),
            before_truncated: false,
            after_truncated: false,
            input_scope,
            context_epoch,
            document_identity: None,
        }
    }

    /// Records whether the adapter truncated the surrounding buffers.
    pub fn with_truncation(self, before: bool, after: bool) -> (r: Self)
        ensures
            r@ == (ContextView { before_truncated: before, after_truncated: after, ..self@ }),
    {
        let mut s = self;
        s.before_truncated = before;
        s.after_truncated = after;
        s
    }

    /// Attaches an adapter-local opaque document identity.
    pub fn with_document_identity(self, identity: DocumentIdentity) -> (r: Self)
        ensures
            r@ == (ContextView { document_identity: Some(identity), ..self@ }),
    {
        let mut s = self;
        s.document_identity = Some(identity);
        s
    }

    /// Creates an empty snapshot for a scope and adapter-local epoch.
    pub fn empty(input_scope: InputScope, context_epoch: u64) -> (r: Self)
        ensures
            r@ == (ContextView { input_scope, context_epoch, ..default_context_view() }),
    {
        proof {
            reveal_strlit("");
        }
        let r = ContextSnapshot::new("", "", "", input_scope, context_epoch);
        assert(r@.before_cursor =~= Seq::<char>::empty());
        r
    }

    /// Returns the bounded context before the cursor.
    pub fn before_cursor_utf8(&self) -> (r: &str)
        ensures r@ == self@.before_cursor,
    {
        self.before_cursor_utf8.as_str()
    }

    /// Returns the bounded selected text.
    pub fn selected_text_utf8(&self) -> (r: &str)
        ensures r@ == self@.selected_text,
    {
        self.selected_text_utf8.as_str()
    }

    /// Returns the bounded context after the cursor.
    pub fn after_cursor_utf8(&self) -> (r: &str)
        ensures r@ == self@.after_cursor,
    {
        self.after_cursor_utf8.as_str()
    }

    /// Returns whether the adapter truncated text before the cursor.
    pub fn before_truncated(&self) -> (r: bool)
        ensures r == self@.before_truncated,
    {
        self.before_truncated
    }

    /// Returns whether the adapter truncated text after the cursor.
    pub fn after_truncated(&self) -> (r: bool)
        ensures r == self@.after_truncated,
    {
        self.after_truncated
    }

    /// Returns the privacy scope.
    pub fn input_scope(&self) -> (r: InputScope)
        ensures r == self@.input_scope,
    {
        self.input_scope
    }

    /// Returns the adapter-local context generation.
    pub fn context_epoch(&self) -> (r: u64)
        ensures r == self@.context_epoch,
    {
        self.context_epoch
    }

    /// Returns the optional adapter-local document identity.
    pub fn document_identity(&self) -> (r: Option<DocumentIdentity>)
        ensures r == self@.document_identity,
    {
        self.document_identity
    }

    /// Returns whether two snapshots hold the same content.
    pub fn same_content(&self, other: &ContextSnapshot) -> (r: bool)
        ensures r == (self@ == other@),
    {
        let texts_equal = self.before_cursor_utf8 == other.before_cursor_utf8
            && self.selected_text_utf8 == other.selected_text_utf8
            && self.after_cursor_utf8 == other.after_cursor_utf8;
        let identity_equal = match (self.document_identity, other.document_identity) {
            (None, None) => true,
            (Some(a), Some(b)) => a.0 == b.0,
            _ => false,
        };
        texts_equal && identity_equal && self.before_truncated == other.before_truncated
            && self.after_truncated == other.after_truncated && self.input_scope
            == other.input_scope && self.context_epoch == other.context_epoch
    }

    /// Applies the privacy scope and host capabilities, then enforces the byte budget.
    ///
    /// Strictly sensitive scopes keep no text at all; unknown scopes use the conservative
    /// unknown-context budget; unsupported surrounding or selected text is dropped.
    pub fn sanitized(self, limits: &CoreLimits, capabilities: PlatformCapabilities) -> (r: Result<
        Self,
        ImeError,
    >)
        ensures
            ({
                let s = sanitized_view(self@, *limits, capabilities);
                let max = context_budget(self@.input_scope, *limits);
                match r {
                    Ok(c) => c@ == s && byte_len(s.before_cursor) <= max && byte_len(
                        s.selected_text,
                    ) <= max && byte_len(s.after_cursor) <= max,
                    Err(e) => {
                        if byte_len(s.before_cursor) > max {
                            e == ImeError::ContextTextTooLong {
                                field: "before_cursor_utf8",
                                actual: byte_len(s.before_cursor) as usize,
                                max: max as usize,
                            }
                        } else if byte_len(s.selected_text) > max {
                            e == ImeError::ContextTextTooLong {
                                field: "selected_text_utf8",
                                actual: byte_len(s.selected_text) as usize,
                                max: max as usize,
                            }
                        } else {
                            byte_len(s.after_cursor) > max && e
                                == ImeError::ContextTextTooLong {
                                field: "after_cursor_utf8",
                                actual: byte_len(s.after_cursor) as usize,
                                max: max as usize,
                            }
                        }
                    },
                }
            }),
    {
        let mut s = self;
        let max: usize = if s.input_scope.is_strictly_sensitive() {
            0
        } else if s.input_scope == InputScope::Unknown {
            limits.max_unknown_context_text_bytes
        } else {
            limits.max_context_text_bytes
        };
        if max == 0 {
            s.before_cursor_utf8 = String::new();
            s.selected_text_utf8 = String::new();
            s.after_cursor_utf8 = String::new();
            proof {
                crate::text::lemma_byte_len_empty();
            }
            return Ok(s);
        }
        match capabilities.surrounding_text_support {
            SurroundingTextSupport::Unsupported => {
                s.before_cursor_utf8 = String::new();
                s.after_cursor_utf8 = String::new();
            },
            SurroundingTextSupport::BeforeCursor => {
                s.after_cursor_utf8 = String::new();
            },
            SurroundingTextSupport::Bidirectional => {},
        }
        if !capabilities.selected_text_read_support {
            s.selected_text_utf8 = String::new();
        }
        validate_context_field("before_cursor_utf8", s.before_cursor_utf8.as_str(), max)?;
        validate_context_field("selected_text_utf8", s.selected_text_utf8.as_str(), max)?;
        validate_context_field("after_cursor_utf8", s.after_cursor_utf8.as_str(), max)?;
        Ok(s)
    }
}

impl Default for ContextSnapshot {
    fn default() -> (r: Self)
        ensures r@ == default_context_view(),
    {
        ContextSnapshot::empty(InputScope::Unknown, 0)
    }
}

/// Rejects a context field longer than `max` UTF-8 bytes.
pub fn validate_context_field(field: &'static str, value: &str, max: usize) -> (r: Result<
    (),
    ImeError,
>)
    ensures
        r is Ok <==> byte_len(value@) <= max,
        r is Err ==> r == Err::<(), ImeError>(
            ImeError::ContextTextTooLong { field, actual: byte_len(value@) as usize, max },
        ),
{
    let actual = utf8_len(value);
    if actual > max {
        return Err(ImeError::ContextTextTooLong { field, actual, max });
    }
    Ok(())
}

} // verus!
