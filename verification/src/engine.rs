//! Engine construction: validated configuration, the shared candidate pipeline and
//! Session identity allocation.
use vstd::prelude::*;

use std::collections::hash_map::RandomState;
use std::hash::BuildHasher;
use std::sync::atomic::{AtomicU64, Ordering};
use std::sync::Arc;

use crate::candidate::{CandidateEngine, CandidateProvider};
use crate::dictionary::{EntryView, InMemoryDictionary};
use crate::error::ImeError;
use crate::language::LanguageEngine;
use crate::ranking::RankingEngine;
use crate::session::ImeSession;
use crate::types::{CoreLimits, EngineId, PlatformCapabilities, ResourceGeneration, SessionId};

verus! {

/// Immutable configuration shared by Sessions created from one Engine.
#[derive(Clone, Debug, PartialEq, Eq, Structural)]
pub struct EngineConfig {
    pub limits: CoreLimits,
    pub capabilities: PlatformCapabilities,
}

impl Default for EngineConfig {
    fn default() -> (r: Self)
        ensures
            r.limits.max_event_text_bytes == 4096,
            r.limits.max_composition_text_bytes == 16384,
            r.limits.max_context_text_bytes == 1024,
            r.limits.max_unknown_context_text_bytes == 0,
            r.limits.max_outstanding_actions == 64,
            r.limits.max_resolved_action_history == 128,
            r.limits.max_generated_candidates == 256,
            r.limits.max_visible_candidates == 64,
            r.capabilities.marked_text_support == crate::types::MarkedTextSupport::Unsupported,
            r.capabilities.surrounding_text_support
                == crate::types::SurroundingTextSupport::Unsupported,
            !r.capabilities.selected_text_read_support,
            !r.capabilities.hardware_key_support,
    {
        EngineConfig { limits: CoreLimits::default(), capabilities: PlatformCapabilities::default() }
    }
}

/// State shared by an Engine and every Session created from it.
pub struct EngineInner {
    pub engine_id: EngineId,
    pub resource_generation: ResourceGeneration,
    pub config: EngineConfig,
    pub candidate_engine: CandidateEngine,
    next_session_id: AtomicU64,
}

/// Shared owner of immutable Core configuration and resource identity.
pub struct ImeEngine {
    inner: Arc<EngineInner>,
}

/// Another owner of the same shared value.
///
/// Calls `Arc::clone`, which hands out a pointer to the same allocation, so the contents
/// are equal.
#[verifier::external_body]
fn share<T>(shared: &Arc<T>) -> (r: Arc<T>)
    ensures
        r == *shared,
{
    Arc::clone(shared)
}

/// The next value of a monotonic counter, if it has one.
pub fn successor(current: u64) -> (r: Option<u64>)
    ensures
        r == (if current < u64::MAX {
            Some((current + 1) as u64)
        } else {
            None::<u64>
        }),
{
    if current < u64::MAX {
        Some(current + 1)
    } else {
        None
    }
}

/// Advances `counter` to its successor and returns the value it held, or `None`, leaving
/// the counter unchanged, once it holds `u64::MAX`.
///
/// Calls `AtomicU64::fetch_update`, which returns the previous value when the update
/// function accepted it. The contract claims only that such a value has a successor;
/// which value it is depends on the other callers sharing the counter.
#[verifier::external_body]
fn take_next(counter: &AtomicU64) -> (r: Option<u64>)
    ensures
        r matches Some(v) ==> v < u64::MAX,
{
    counter.fetch_update(Ordering::Relaxed, Ordering::Relaxed, |current| successor(current)).ok()
}

/// A fresh hasher seed source of this process.
///
/// Calls `RandomState::new`; nothing is claimed of the keys it draws.
#[verifier::external_body]
fn fresh_random_state() -> (r: RandomState) {
    RandomState::new()
}

/// A value drawn from a random hasher seed, used as an Engine identity.
///
/// Calls `BuildHasher::hash_one`; the result depends on the process's random keys, so
/// nothing is claimed of it.
#[verifier::external_body]
fn random_identity(state: &RandomState) -> (r: u64) {
    state.hash_one(0u8)
}

impl Clone for ImeEngine {
    fn clone(&self) -> (r: Self)
        ensures
            r == *self,
    {
        proof {
            use_type_invariant(self);
        }
        ImeEngine { inner: share(&self.inner) }
    }
}

impl ImeEngine {
    /// Every Engine was built from a valid configuration.
    #[verifier::type_invariant]
    spec fn valid_limits(self) -> bool {
        &&& self.inner.config.limits.valid()
        &&& self.inner.resource_generation.0 == 0
    }

    /// The Engine's identity.
    pub closed spec fn identity(&self) -> EngineId {
        self.inner.engine_id
    }

    /// The Engine's validated configuration.
    pub closed spec fn configuration(&self) -> EngineConfig {
        self.inner.config
    }

    /// The in-memory dictionary records of a reference pipeline.
    pub open spec fn reference_records(&self) -> Option<Seq<EntryView>> {
        self.pipeline().reference_records()
    }

    /// The candidate pipeline shared with the Engine's Sessions.
    pub closed spec fn pipeline(&self) -> &CandidateEngine {
        &self.inner.candidate_engine
    }

    /// Creates an Engine with an empty in-memory dictionary after validating all hard limits.
    pub fn new(config: EngineConfig) -> (r: Result<Self, ImeError>)
        ensures
            r is Ok <==> config.limits.valid(),
            r matches Err(e) ==> config.limits.validate_error() == Some(e),
            r matches Ok(engine) ==> {
                &&& engine.configuration() == config
                &&& engine.reference_records() == Some(Seq::<EntryView>::empty())
            },
    {
        Self::with_reference_dictionary(config, InMemoryDictionary::default())
    }

    /// Creates an Engine using the reference language and a read-only in-memory dictionary.
    pub fn with_reference_dictionary(config: EngineConfig, dictionary: InMemoryDictionary) -> (r:
        Result<Self, ImeError>)
        ensures
            r is Ok <==> config.limits.valid(),
            r matches Err(e) ==> config.limits.validate_error() == Some(e),
            r matches Ok(engine) ==> {
                &&& engine.configuration() == config
                &&& engine.reference_records() == Some(dictionary@)
            },
    {
        match config.limits.validate() {
            Ok(()) => {},
            Err(e) => {
                return Err(e);
            },
        }
        let candidate_engine = CandidateEngine::reference(dictionary);
        Ok(Self::assemble(config, candidate_engine))
    }

    /// Creates an Engine from explicit language and provider components.
    pub fn with_candidate_pipeline(
        config: EngineConfig,
        language: Arc<dyn LanguageEngine>,
        providers: Vec<Arc<dyn CandidateProvider>>,
        ranking: RankingEngine,
    ) -> (r: Result<Self, ImeError>)
        ensures
            r is Ok <==> config.limits.valid(),
            r matches Err(e) ==> config.limits.validate_error() == Some(e),
            r matches Ok(engine) ==> {
                &&& engine.configuration() == config
                &&& engine.pipeline().provider_count() == providers@.len()
                &&& engine.pipeline().language_engine() == Some(language)
                &&& engine.pipeline().dictionary_provider() is None
                &&& engine.pipeline().provider_list() == providers@
            },
    {
        match config.limits.validate() {
            Ok(()) => {},
            Err(e) => {
                return Err(e);
            },
        }
        let language = Some(language);
        let candidate_engine = CandidateEngine::new(language, providers, ranking);
        Ok(Self::assemble(config, candidate_engine))
    }

    fn assemble(config: EngineConfig, candidate_engine: CandidateEngine) -> (r: Self)
        requires
            config.limits.valid(),
        ensures
            r.configuration() == config,
            r.pipeline() == candidate_engine,
    {
        let seed = fresh_random_state();
        let engine_id = EngineId::new(random_identity(&seed));
        let inner = EngineInner {
            engine_id,
            resource_generation: ResourceGeneration::new(0),
            config,
            candidate_engine,
            next_session_id: AtomicU64::new(1),
        };
        ImeEngine { inner: Arc::new(inner) }
    }

    /// The shared candidate pipeline.
    pub fn candidate_engine(&self) -> (r: &CandidateEngine)
        ensures
            *r == self.pipeline(),
    {
        &self.inner.candidate_engine
    }

    /// Returns the Engine's process-local identity.
    pub fn id(&self) -> (r: EngineId)
        ensures
            r == self.identity(),
    {
        self.inner.engine_id
    }

    /// Returns the immutable resource generation.
    pub fn resource_generation(&self) -> (r: ResourceGeneration)
        ensures
            r.0 == 0,
    {
        proof {
            use_type_invariant(self);
        }
        self.inner.resource_generation
    }

    /// Returns the immutable Engine configuration.
    pub fn config(&self) -> (r: &EngineConfig)
        ensures
            *r == self.configuration(),
    {
        &self.inner.config
    }

    /// Creates an isolated Session that keeps the Engine internals alive.
    ///
    /// Fails with `CounterExhausted("session_id")` once the Engine's Session counter is used
    /// up; whether it is depends on the Sessions created before.
    pub fn new_session(&self) -> (r: Result<ImeSession, ImeError>)
        ensures
            r matches Err(e) ==> e == ImeError::CounterExhausted("session_id"),
            r matches Ok(s) ==> s.wf() && s.fresh() && s.engine() == *self,
    {
        proof {
            use_type_invariant(self);
        }
        match take_next(&self.inner.next_session_id) {
            Some(id) => {
                let engine = self.clone();
                Ok(ImeSession::new(engine, SessionId::new(id)))
            },
            None => Err(ImeError::CounterExhausted("session_id")),
        }
    }
}

} // verus!
