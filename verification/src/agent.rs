use vstd::prelude::*;
use vstd::string::StringExecFns;

use std::sync::Arc;

use crate::error::Error;
use crate::memory::{Memory, MemoryHandle};
use crate::numeric::{spec_udec, u64_to_string};
use crate::provider::{GenerationConfig, LLMProvider};
use crate::state::SharedState;
use crate::tool::{Function, RustFunction};

verus! {

/// The synthetic descriptor name of the native function registered at
/// position `k`: `function_<k>`.
pub open spec fn spec_function_name(k: nat) -> Seq<char> {
    "function_"@ + spec_udec(k)
}

/// The immutable configuration an agent is built with; validated only
/// for structural completeness at build time.
#[derive(Clone, Debug)]
pub struct AgentConfig {
    pub name: String,
    pub task: String,
    pub skills: Vec<String>,
    pub initial_prompt: String,
    pub system_prompt: Option<String>,
    pub generation_config: Option<GenerationConfig>,
}

impl AgentConfig {
    /// An empty configuration: every text blank, no skills, no explicit
    /// system prompt or generation configuration.
    pub fn new() -> (r: Self)
        ensures
            r.name@.len() == 0,
            r.task@.len() == 0,
            r.skills@.len() == 0,
            r.initial_prompt@.len() == 0,
            r.system_prompt is None,
            r.generation_config is None,
    {
        AgentConfig {
            name: String::new(),
            task: String::new(),
            skills: Vec::new(),
            initial_prompt: String::new(),
            system_prompt: None,
            generation_config: None,
        }
    }
}

/// The orchestrator: it composes a provider, a memory handle and the
/// registered native functions, and owns the dispatch policy. Its wiring
/// is fixed once built; the referenced memory and shared state stay
/// independently mutable through their own locks.
#[verifier::reject_recursive_types(M)]
pub struct Agent<P, M: Memory, F> {
    provider: P,
    memory: MemoryHandle<M>,
    functions: Vec<F>,
    config: AgentConfig,
    state: Option<Arc<SharedState>>,
}

impl<P, M: Memory, F: RustFunction + Copy> Agent<P, M, F> {
    /// The provider this agent dispatches through.
    pub closed spec fn spec_provider(&self) -> P {
        self.provider
    }

    /// The memory handle this agent was built with.
    pub closed spec fn spec_memory(&self) -> MemoryHandle<M> {
        self.memory
    }

    /// The native functions registered so far, in registration order.
    pub closed spec fn spec_functions(&self) -> Seq<F> {
        self.functions@
    }

    /// The configuration this agent was built with.
    pub closed spec fn spec_config(&self) -> AgentConfig {
        self.config
    }

    /// The optional shared-state handle.
    pub closed spec fn spec_state(&self) -> Option<Arc<SharedState>> {
        self.state
    }

    /// Creates an agent around a provider and a memory handle, with an
    /// empty configuration and no registered functions.
    pub fn new(provider: P, memory: MemoryHandle<M>) -> (r: Self)
        ensures
            r.spec_provider() == provider,
            r.spec_memory() == memory,
            r.spec_functions() == Seq::<F>::empty(),
            r.spec_state() is None,
    {
        let r = Agent {
            provider,
            memory,
            functions: Vec::new(),
            config: AgentConfig::new(),
            state: None,
        };
        proof {
            assert(r.spec_functions() =~= Seq::<F>::empty());
        }
        r
    }

    /// Registers one more native function, after all earlier ones.
    pub fn add_function(&mut self, function: F)
        ensures
            final(self).spec_functions() == old(self).spec_functions().push(function),
            final(self).spec_provider() == old(self).spec_provider(),
            final(self).spec_memory() == old(self).spec_memory(),
            final(self).spec_config() == old(self).spec_config(),
            final(self).spec_state() == old(self).spec_state(),
    {
        self.functions.push(function);
    }

    /// The descriptors for the registered native functions: exactly one
    /// per function, in registration order, named `function_0` through
    /// `function_{N-1}`, each carrying the generic description and
    /// wrapping the function registered at that position. Recomputed on
    /// every call.
    #[verifier::loop_isolation(false)]
    pub fn get_descriptors(&self) -> (r: Vec<Function<F>>)
        ensures
            r@.len() == self.spec_functions().len(),
            forall|k: int|
                0 <= k < r@.len() ==> (#[trigger] r@[k]).name@ == spec_function_name(k as nat)
                    && r@[k].description@ == "A mathematical function"@ && r@[k].function
                    == self.spec_functions()[k],
    {
        let mut descriptors: Vec<Function<F>> = Vec::new();
        let n = self.functions.len();
        let mut i: usize = 0;
        while i < n
            invariant
                i <= n,
                descriptors@.len() == i,
                forall|k: int|
                    0 <= k < i ==> (#[trigger] descriptors@[k]).name@ == spec_function_name(
                        k as nat,
                    ) && descriptors@[k].description@ == "A mathematical function"@
                        && descriptors@[k].function == self.spec_functions()[k],
            decreases n - i,
        {
            let mut name = String::new();
            name.append("function_");
            let index_text = u64_to_string(i as u64);
            name.append(index_text.as_str());
            proof {
                assert(name@ =~= spec_function_name(i as nat));
            }
            let descriptor = Function {
                name,
                description: "A mathematical function".to_owned(),
                function: self.functions[i],
            };
            descriptors.push(descriptor);
            i = i + 1;
        }
        descriptors
    }
}

impl<P: LLMProvider<F>, M: Memory, F: RustFunction + Copy> Agent<P, M, F> {
    /// Wraps the registered native functions into descriptors and
    /// delegates the prompt to the provider with no explicit generation
    /// configuration, returning its text or failure verbatim: any
    /// successful text is one the provider owns for this prompt and for
    /// exactly the descriptors of the currently registered functions, in
    /// registration order.
    pub fn generate_response(&self, prompt: &str) -> (r: Result<String, Error>)
        ensures
            r matches Ok(s) ==> exists|ds: Seq<Function<F>>|
                #![trigger self.spec_provider().spec_response_ok(prompt@, ds, s@)]
                ds.len() == self.spec_functions().len() && (forall|k: int|
                    0 <= k < ds.len() ==> (#[trigger] ds[k]).name@ == spec_function_name(k as nat)
                        && ds[k].description@ == "A mathematical function"@ && ds[k].function
                        == self.spec_functions()[k]) && self.spec_provider().spec_response_ok(
                    prompt@,
                    ds,
                    s@,
                ),
    {
        let descriptors = self.get_descriptors();
        let result = self.provider.generate_response(prompt, &None, &descriptors);
        proof {
            assert(result matches Ok(s) ==> self.spec_provider().spec_response_ok(
                prompt@,
                descriptors@,
                s@,
            ));
        }
        result
    }
}

/// Step-by-step construction of an agent. No builder completes without a
/// configuration, a provider and a memory handle: completing without one
/// of them is a build-time `Config` failure, before any network call
/// could be attempted. The shared-state handle is optional.
#[verifier::reject_recursive_types(M)]
pub struct AgentBuilder<P, M: Memory> {
    config: Option<AgentConfig>,
    provider: Option<P>,
    memory: Option<MemoryHandle<M>>,
    state: Option<Arc<SharedState>>,
}

impl<P, M: Memory> AgentBuilder<P, M> {
    /// The configuration given so far.
    pub closed spec fn spec_config(&self) -> Option<AgentConfig> {
        self.config
    }

    /// The provider given so far.
    pub closed spec fn spec_provider(&self) -> Option<P> {
        self.provider
    }

    /// The memory handle given so far.
    pub closed spec fn spec_memory(&self) -> Option<MemoryHandle<M>> {
        self.memory
    }

    /// The shared-state handle given so far.
    pub closed spec fn spec_state(&self) -> Option<Arc<SharedState>> {
        self.state
    }

    /// Starts with nothing supplied.
    pub fn new() -> (r: Self)
        ensures
            r.spec_config() is None,
            r.spec_provider() is None,
            r.spec_memory() is None,
            r.spec_state() is None,
    {
        AgentBuilder { config: None, provider: None, memory: None, state: None }
    }

    /// Supplies the configuration.
    pub fn config(self, config: AgentConfig) -> (r: Self)
        ensures
            r.spec_config() == Some(config),
            r.spec_provider() == self.spec_provider(),
            r.spec_memory() == self.spec_memory(),
            r.spec_state() == self.spec_state(),
    {
        AgentBuilder { config: Some(config), ..self }
    }

    /// Supplies the provider.
    pub fn provider(self, provider: P) -> (r: Self)
        ensures
            r.spec_provider() == Some(provider),
            r.spec_config() == self.spec_config(),
            r.spec_memory() == self.spec_memory(),
            r.spec_state() == self.spec_state(),
    {
        AgentBuilder { provider: Some(provider), ..self }
    }

    /// Supplies the memory handle.
    pub fn memory(self, memory: MemoryHandle<M>) -> (r: Self)
        ensures
            r.spec_memory() == Some(memory),
            r.spec_config() == self.spec_config(),
            r.spec_provider() == self.spec_provider(),
            r.spec_state() == self.spec_state(),
    {
        AgentBuilder { memory: Some(memory), ..self }
    }

    /// Supplies the optional shared-state handle.
    pub fn state(self, state: Arc<SharedState>) -> (r: Self)
        ensures
            r.spec_state() == Some(state),
            r.spec_config() == self.spec_config(),
            r.spec_provider() == self.spec_provider(),
            r.spec_memory() == self.spec_memory(),
    {
        AgentBuilder { state: Some(state), ..self }
    }

    /// Completes the agent. Succeeds exactly when a configuration, a
    /// provider and a memory handle were all supplied; fails with a
    /// `Config` error otherwise. A built agent starts with no registered
    /// native functions and keeps the supplied wiring unchanged.
    pub fn build<F: RustFunction + Copy>(self) -> (r: Result<Agent<P, M, F>, Error>)
        ensures
            r is Ok <==> (self.spec_config() is Some && self.spec_provider() is Some
                && self.spec_memory() is Some),
            r matches Err(e) ==> e matches Error::Config(_),
            r matches Ok(a) ==> Some(a.spec_config()) == self.spec_config() && Some(
                a.spec_provider(),
            ) == self.spec_provider() && Some(a.spec_memory()) == self.spec_memory()
                && a.spec_state() == self.spec_state() && a.spec_functions() == Seq::<F>::empty(),
    {
        match (self.config, self.provider, self.memory) {
            (Some(config), Some(provider), Some(memory)) => {
                let agent = Agent {
                    provider,
                    memory,
                    functions: Vec::<F>::new(),
                    config,
                    state: self.state,
                };
                proof {
                    assert(agent.spec_functions() =~= Seq::<F>::empty());
                }
                Ok(agent)
            },
            _ => Err(
                Error::Config(
                    "an agent requires a configuration, a provider and a memory handle".to_owned(),
                ),
            ),
        }
    }
}

} // verus!
