//! The shared context handed to every workload and feature call: the
//! resolved environment, the service definitions and the feature registry.

use vstd::prelude::*;

use crate::definition::Definitions;
use crate::env::Env;
use crate::errors::Error;
use crate::registry::{found_enabled_at, first_match_unavailable, reg_view, FeatureRegistry};
use crate::text;

verus! {

/// One instance per process: read-mostly state shared into every
/// concurrent task; only the feature registry's internal state mutates.
pub struct Context {
    pub envs: Env,
    pub definitions: Definitions,
    pub features: FeatureRegistry,
}

/// The URL a client name resolves to: the registered client's own
/// host and port when one is registered; otherwise the name qualified by
/// the coupled namespace and the coupled port.
pub open spec fn connection_url_spec(ctx: &Context, name: Seq<char>) -> Seq<char> {
    match text::assoc_index(ctx.definitions.clients@, name) {
        Some(j) => ctx.definitions.clients@[j].1.host@ + ":"@ + text::int_dec_str(
            ctx.definitions.clients@[j].1.port as int,
        ),
        None => name + "."@ + ctx.envs.coupled_namespace@ + ":"@ + ctx.envs.coupled_port@,
    }
}

impl Context {
    /// Builds the context from its parts.
    pub fn new(envs: Env, definitions: Definitions, features: FeatureRegistry) -> (r: Self)
        ensures
            r.envs == envs,
            r.definitions == definitions,
            r.features == features,
    {
        Context { envs, definitions, features }
    }

    /// The current service's name.
    pub fn service_name(&self) -> (r: String)
        ensures
            r@ == self.definitions.name@,
    {
        self.definitions.name.clone()
    }

    /// The current value of an environment variable defined in the service
    /// definitions.
    pub fn env(&self, name: &str) -> (r: Option<&String>)
        ensures
            match (r, text::assoc_index(self.envs.defined_envs@, name@)) {
                (Some(v), Some(j)) => v@ == self.envs.defined_envs@[j].1@,
                (None, None) => true,
                _ => false,
            },
    {
        self.envs.get_defined_env(name)
    }

    /// The URL connection string for linking to another service.
    pub fn client_connection_url(&self, client_name: &str) -> (r: String)
        ensures
            r@ == connection_url_spec(self, client_name@),
    {
        match self.definitions.client(client_name) {
            Some(c) => c.host.concat(":").concat(text::i32_dec(c.port).as_str()),
            None => String::from_str(client_name).concat(".").concat(
                self.envs.coupled_namespace.as_str(),
            ).concat(":").concat(self.envs.coupled_port.as_str()),
        }
    }

    /// Resolves a feature by name: the handle of the first feature under
    /// that name when it is enabled and was not gated off; the disabled
    /// error when it is unavailable; the not-found error when no feature
    /// carries the name.
    pub fn feature(&self, name: &str) -> (r: Result<usize, Error>)
        ensures
            match r {
                Ok(i) => found_enabled_at(reg_view(&self.features), name@, i as int),
                Err(e) => match e@ {
                    crate::errors::ErrorView::FeatureNotFound(n) => n == name@ && (forall|j: int|
                        0 <= j < reg_view(&self.features).len() ==> (#[trigger] reg_view(
                            &self.features,
                        )[j]).name != name@),
                    crate::errors::ErrorView::FeatureDisabled(n) => n == name@
                        && first_match_unavailable(reg_view(&self.features), name@),
                    _ => false,
                },
            },
    {
        self.features.feature(name)
    }
}

} // verus!
