//! The builder that assembles a service instance: one workload
//! registration per kind, the declared custom kinds, and the optional
//! features. Registering two workloads under one kind is a build-time
//! configuration error, answered with a result rather than an abort so the
//! top-level caller decides whether to stop or retry.

use vstd::prelude::*;

use crate::definition::{kind_name, KindView, ServiceKind};
use crate::errors::{Error, ErrorView};
use crate::plugin::ServiceExecutionMode;
use crate::registry::FeatureRegistry;
use crate::service::{Service, Workload, WorkloadView};

verus! {

/// The workloads registered so far, as their models.
pub open spec fn servers_view(b: &ServiceBuilder) -> Seq<WorkloadView> {
    b.servers@.map_values(|w: Workload| w@)
}

/// True when some registered workload already owns the kind name.
pub open spec fn kind_taken(servers: Seq<WorkloadView>, name: Seq<char>) -> bool {
    exists|j: int| 0 <= j < servers.len() && kind_name((#[trigger] servers[j]).kind) == name
}

/// The builder for a service instance. The workload implementations stay
/// with the embedding application, keyed by kind name; the builder records
/// which kinds are registered and how each executes.
pub struct ServiceBuilder {
    pub servers: Vec<Workload>,
    pub custom_service_types: Vec<String>,
    pub features: FeatureRegistry,
    pub without_health_endpoint: bool,
}

impl ServiceBuilder {
    /// An empty builder.
    pub fn new() -> (r: Self)
        ensures
            servers_view(&r).len() == 0,
            r.custom_service_types@.len() == 0,
            crate::registry::reg_view(&r.features).len() == 0,
            !r.without_health_endpoint,
    {
        ServiceBuilder {
            servers: Vec::new(),
            custom_service_types: Vec::new(),
            features: FeatureRegistry::new(),
            without_health_endpoint: false,
        }
    }

    /// Registers one workload under the given kind. A kind already
    /// registered is refused and the builder is left unchanged.
    pub fn register(&mut self, kind: ServiceKind, mode: ServiceExecutionMode) -> (r: Result<
        (),
        Error,
    >)
        ensures
            match r {
                Ok(()) => !kind_taken(servers_view(old(self)), kind_name(kind@)) && servers_view(
                    final(self),
                ) == servers_view(old(self)).push(WorkloadView { kind: kind@, mode }),
                Err(e) => kind_taken(servers_view(old(self)), kind_name(kind@)) && servers_view(
                    final(self),
                ) == servers_view(old(self)) && e@ == ErrorView::BuilderFailed(
                    "service kind already initialized"@,
                ),
            },
            final(self).custom_service_types@ == old(self).custom_service_types@,
            final(self).features == old(self).features,
            final(self).without_health_endpoint == old(self).without_health_endpoint,
    {
        let name = kind.to_str();
        let n = self.servers.len();
        let mut i: usize = 0;
        while i < n
            invariant
                i <= n,
                n == servers_view(self).len(),
                name@ == kind_name(kind@),
                forall|j: int| 0 <= j < i ==> kind_name((#[trigger] servers_view(self)[j]).kind) != name@,
            decreases n - i,
        {
            if crate::text::str_eq(self.servers[i].kind.to_str().as_str(), name.as_str()) {
                proof {
                    assert(kind_name(servers_view(self)[i as int].kind) == name@);
                }
                return Err(
                    Error::BuilderFailed(String::from_str("service kind already initialized")),
                );
            }
            i = i + 1;
        }
        let ghost before = servers_view(self);
        self.servers.push(Workload { kind, mode });
        proof {
            assert(servers_view(self) =~= before.push(servers_view(self).last()));
        }
        Ok(())
    }

    /// Registers the native workload: a long-running background worker
    /// that blocks until shut down.
    pub fn native(&mut self) -> (r: Result<(), Error>)
        ensures
            match r {
                Ok(()) => servers_view(final(self)) == servers_view(old(self)).push(
                    WorkloadView { kind: KindView::Native, mode: ServiceExecutionMode::Block },
                ),
                Err(e) => kind_taken(servers_view(old(self)), "native"@) && servers_view(
                    final(self),
                ) == servers_view(old(self)),
            },
            final(self).custom_service_types@ == old(self).custom_service_types@,
            final(self).features == old(self).features,
            final(self).without_health_endpoint == old(self).without_health_endpoint,
    {
        self.register(ServiceKind::Native, ServiceExecutionMode::Block)
    }

    /// Registers the script workload: one unit of work, run once.
    pub fn script(&mut self) -> (r: Result<(), Error>)
        ensures
            match r {
                Ok(()) => servers_view(final(self)) == servers_view(old(self)).push(
                    WorkloadView { kind: KindView::Script, mode: ServiceExecutionMode::NonBlock },
                ),
                Err(e) => kind_taken(servers_view(old(self)), "script"@) && servers_view(
                    final(self),
                ) == servers_view(old(self)),
            },
            final(self).custom_service_types@ == old(self).custom_service_types@,
            final(self).features == old(self).features,
            final(self).without_health_endpoint == old(self).without_health_endpoint,
    {
        self.register(ServiceKind::Script, ServiceExecutionMode::NonBlock)
    }

    /// Registers the RPC server workload.
    pub fn grpc(&mut self) -> (r: Result<(), Error>)
        ensures
            match r {
                Ok(()) => servers_view(final(self)) == servers_view(old(self)).push(
                    WorkloadView { kind: KindView::Grpc, mode: ServiceExecutionMode::Block },
                ),
                Err(e) => kind_taken(servers_view(old(self)), "grpc"@) && servers_view(final(self))
                    == servers_view(old(self)),
            },
            final(self).custom_service_types@ == old(self).custom_service_types@,
            final(self).features == old(self).features,
            final(self).without_health_endpoint == old(self).without_health_endpoint,
    {
        self.register(ServiceKind::Grpc, ServiceExecutionMode::Block)
    }

    /// Registers the request server workload.
    pub fn http(&mut self) -> (r: Result<(), Error>)
        ensures
            match r {
                Ok(()) => servers_view(final(self)) == servers_view(old(self)).push(
                    WorkloadView { kind: KindView::Http, mode: ServiceExecutionMode::Block },
                ),
                Err(e) => kind_taken(servers_view(old(self)), "http"@) && servers_view(final(self))
                    == servers_view(old(self)),
            },
            final(self).custom_service_types@ == old(self).custom_service_types@,
            final(self).features == old(self).features,
            final(self).without_health_endpoint == old(self).without_health_endpoint,
    {
        self.register(ServiceKind::Http, ServiceExecutionMode::Block)
    }

    /// Registers a custom workload kind and declares its name supported in
    /// the configuration.
    pub fn custom(&mut self, kind_name_str: &str, mode: ServiceExecutionMode) -> (r: Result<
        (),
        Error,
    >)
        ensures
            match r {
                Ok(()) => servers_view(final(self)) == servers_view(old(self)).push(
                    WorkloadView { kind: KindView::Custom(kind_name_str@), mode },
                ) && final(self).custom_service_types@.map_values(|t: String| t@) == old(
                    self).custom_service_types@.map_values(|t: String| t@).push(kind_name_str@),
                Err(e) => kind_taken(servers_view(old(self)), kind_name_str@) && servers_view(
                    final(self),
                ) == servers_view(old(self)) && final(self).custom_service_types@ == old(
                    self).custom_service_types@ && e@ == ErrorView::BuilderFailed(
                    "service kind already initialized"@,
                ),
            },
            final(self).features == old(self).features,
            final(self).without_health_endpoint == old(self).without_health_endpoint,
    {
        let kind = ServiceKind::Custom(String::from_str(kind_name_str));
        proof {
            assert(kind_name(kind@) == kind_name_str@);
        }
        match self.register(kind, mode) {
            Ok(()) => {
                let ghost before = self.custom_service_types@;
                self.custom_service_types.push(String::from_str(kind_name_str));
                proof {
                    assert(self.custom_service_types@.map_values(|t: String| t@)
                        =~= before.map_values(|t: String| t@).push(kind_name_str@));
                }
                Ok(())
            },
            Err(e) => Err(e),
        }
    }

    /// Hands optional features to the builder: they join the ones already
    /// held, after them and in the handed order. A name clash is refused
    /// — feature names must be unique — and the builder is left unchanged.
    pub fn with_features(&mut self, features: FeatureRegistry) -> (r: Result<(), Error>)
        ensures
            match r {
                Ok(()) => crate::registry::reg_view(&final(self).features)
                    == crate::registry::reg_view(&old(self).features) + crate::registry::reg_view(
                    &features,
                ),
                Err(e) => !crate::registry::appendable(
                    crate::registry::reg_view(&old(self).features),
                    crate::registry::reg_view(&features),
                ) && crate::registry::reg_view(&final(self).features) == crate::registry::reg_view(
                    &old(self).features,
                ) && e@ == ErrorView::BuilderFailed("duplicated feature name"@),
            },
            servers_view(final(self)) == servers_view(old(self)),
            final(self).custom_service_types@ == old(self).custom_service_types@,
            final(self).without_health_endpoint == old(self).without_health_endpoint,
    {
        self.features.append(features)
    }

    /// Disables the default health endpoint for request server workloads.
    pub fn without_health_endpoint(&mut self)
        ensures
            final(self).without_health_endpoint,
            servers_view(final(self)) == servers_view(old(self)),
            final(self).features == old(self).features,
            final(self).custom_service_types@ == old(self).custom_service_types@,
    {
        self.without_health_endpoint = true;
    }

    /// Builds the service instance from the builder, the loaded
    /// definitions and the resolved environment.
    pub fn build(
        self,
        definitions: crate::definition::Definitions,
        envs: crate::env::Env,
    ) -> (r: Service)
        ensures
            crate::service::service_servers(&r) == servers_view(&self),
            r.context.definitions == definitions,
            r.context.envs == envs,
            r.context.features == self.features,
            r.without_health_endpoint == self.without_health_endpoint,
    {
        Service {
            servers: self.servers,
            context: crate::context::Context::new(envs, definitions, self.features),
            without_health_endpoint: self.without_health_endpoint,
        }
    }
}

} // verus!
