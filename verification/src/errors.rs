//! The crate-level error taxonomy: startup and configuration failures that
//! abort the run before any task is spawned, and the recoverable lookup
//! errors a caller can act on.

use vstd::prelude::*;

use crate::definition::{kind_name, KindView, ServiceKind};

verus! {

/// Mathematical model of an [`Error`], with every text payload as a
/// character sequence.
pub enum ErrorView {
    InvalidDefinitions(Seq<char>),
    EnvironmentVariableFailure(Seq<char>),
    UnsupportedServiceType,
    EmptyServiceFound,
    FeatureNotFound(Seq<char>),
    InternalServiceError(Seq<char>),
    UnsupportedServicesCombination,
    ServiceKindUninitialized(KindView),
    NotFound(Seq<char>),
    DefinitionLoadingFailure(Seq<char>, Seq<char>),
    FeatureDisabled(Seq<char>),
    BuilderFailed(Seq<char>),
}

/// An error raised while building, validating or running a service.
#[derive(Debug)]
pub enum Error {
    InvalidDefinitions(String),
    EnvironmentVariableFailure(String),
    UnsupportedServiceType,
    EmptyServiceFound,
    FeatureNotFound(String),
    InternalServiceError(String),
    UnsupportedServicesCombination,
    ServiceKindUninitialized(ServiceKind),
    NotFound(String),
    DefinitionLoadingFailure(String, String),
    FeatureDisabled(String),
    BuilderFailed(String),
}

impl View for Error {
    type V = ErrorView;

    open spec fn view(&self) -> ErrorView {
        match self {
            Error::InvalidDefinitions(s) => ErrorView::InvalidDefinitions(s@),
            Error::EnvironmentVariableFailure(s) => ErrorView::EnvironmentVariableFailure(s@),
            Error::UnsupportedServiceType => ErrorView::UnsupportedServiceType,
            Error::EmptyServiceFound => ErrorView::EmptyServiceFound,
            Error::FeatureNotFound(s) => ErrorView::FeatureNotFound(s@),
            Error::InternalServiceError(s) => ErrorView::InternalServiceError(s@),
            Error::UnsupportedServicesCombination => ErrorView::UnsupportedServicesCombination,
            Error::ServiceKindUninitialized(k) => ErrorView::ServiceKindUninitialized(k@),
            Error::NotFound(s) => ErrorView::NotFound(s@),
            Error::DefinitionLoadingFailure(a, b) => ErrorView::DefinitionLoadingFailure(a@, b@),
            Error::FeatureDisabled(s) => ErrorView::FeatureDisabled(s@),
            Error::BuilderFailed(s) => ErrorView::BuilderFailed(s@),
        }
    }
}

/// The descriptive message of each error.
pub open spec fn error_description(e: ErrorView) -> Seq<char> {
    match e {
        ErrorView::InvalidDefinitions(s) => "invalid service definitions: "@ + s,
        ErrorView::EnvironmentVariableFailure(s) => "environment variable failure: "@ + s,
        ErrorView::UnsupportedServiceType => "unsupported service type"@,
        ErrorView::EmptyServiceFound => "cannot execute without a service implementation"@,
        ErrorView::FeatureNotFound(s) => "feature "@ + s + " not found"@,
        ErrorView::InternalServiceError(s) => "internal service error: "@ + s,
        ErrorView::UnsupportedServicesCombination => "unsupported services combination"@,
        ErrorView::ServiceKindUninitialized(k) => "service type uninitialized: "@ + kind_name(k),
        ErrorView::NotFound(s) => "not found: "@ + s,
        ErrorView::DefinitionLoadingFailure(a, b) => "definition loading from '"@ + a + "' failed: "@
            + b,
        ErrorView::FeatureDisabled(s) => "feature disabled: "@ + s,
        ErrorView::BuilderFailed(s) => "builder failed: "@ + s,
    }
}

impl Error {
    /// The descriptive message shown when the error reaches the process
    /// boundary.
    pub fn description(&self) -> (r: String)
        ensures
            r@ == error_description(self@),
    {
        match self {
            Error::InvalidDefinitions(s) => String::from_str("invalid service definitions: ")
                .concat(s.as_str()),
            Error::EnvironmentVariableFailure(s) => String::from_str(
                "environment variable failure: ",
            ).concat(s.as_str()),
            Error::UnsupportedServiceType => String::from_str("unsupported service type"),
            Error::EmptyServiceFound => String::from_str(
                "cannot execute without a service implementation",
            ),
            Error::FeatureNotFound(s) => String::from_str("feature ").concat(s.as_str()).concat(
                " not found",
            ),
            Error::InternalServiceError(s) => String::from_str("internal service error: ").concat(
                s.as_str(),
            ),
            Error::UnsupportedServicesCombination => String::from_str(
                "unsupported services combination",
            ),
            Error::ServiceKindUninitialized(k) => String::from_str(
                "service type uninitialized: ",
            ).concat(k.to_str().as_str()),
            Error::NotFound(s) => String::from_str("not found: ").concat(s.as_str()),
            Error::DefinitionLoadingFailure(a, b) => String::from_str("definition loading from '")
                .concat(a.as_str()).concat("' failed: ").concat(b.as_str()),
            Error::FeatureDisabled(s) => String::from_str("feature disabled: ").concat(s.as_str()),
            Error::BuilderFailed(s) => String::from_str("builder failed: ").concat(s.as_str()),
        }
    }
}

/// Mathematical model of a [`ServiceErrorKind`].
pub enum ServiceErrorKindView {
    Internal(Seq<char>),
    NotFound,
    InvalidArguments,
    PreconditionFailed(Seq<char>),
    Rpc(Seq<char>),
    Custom(Seq<char>),
    PermissionDenied,
}

/// The closed taxonomy of failures a service reports across a process or
/// service boundary.
pub enum ServiceErrorKind {
    Internal(String),
    NotFound,
    InvalidArguments,
    PreconditionFailed(String),
    Rpc(String),
    Custom(String),
    PermissionDenied,
}

impl View for ServiceErrorKind {
    type V = ServiceErrorKindView;

    open spec fn view(&self) -> ServiceErrorKindView {
        match self {
            ServiceErrorKind::Internal(s) => ServiceErrorKindView::Internal(s@),
            ServiceErrorKind::NotFound => ServiceErrorKindView::NotFound,
            ServiceErrorKind::InvalidArguments => ServiceErrorKindView::InvalidArguments,
            ServiceErrorKind::PreconditionFailed(s) => ServiceErrorKindView::PreconditionFailed(
                s@,
            ),
            ServiceErrorKind::Rpc(s) => ServiceErrorKindView::Rpc(s@),
            ServiceErrorKind::Custom(s) => ServiceErrorKindView::Custom(s@),
            ServiceErrorKind::PermissionDenied => ServiceErrorKindView::PermissionDenied,
        }
    }
}

/// The name under which each kind crosses the boundary.
pub open spec fn kind_label(k: ServiceErrorKindView) -> Seq<char> {
    match k {
        ServiceErrorKindView::Internal(_) => "InternalError"@,
        ServiceErrorKindView::NotFound => "NotFoundError"@,
        ServiceErrorKindView::InvalidArguments => "ValidationError"@,
        ServiceErrorKindView::PreconditionFailed(_) => "ConditionError"@,
        ServiceErrorKindView::Rpc(_) => "RPCError"@,
        ServiceErrorKindView::Custom(_) => "CustomError"@,
        ServiceErrorKindView::PermissionDenied => "PermissionError"@,
    }
}

/// The message each kind carries.
pub open spec fn kind_message(k: ServiceErrorKindView) -> Seq<char> {
    match k {
        ServiceErrorKindView::Internal(m) => m,
        ServiceErrorKindView::NotFound => "not found"@,
        ServiceErrorKindView::InvalidArguments => "invalid arguments"@,
        ServiceErrorKindView::PreconditionFailed(m) => m,
        ServiceErrorKindView::Rpc(m) => m,
        ServiceErrorKindView::Custom(m) => m,
        ServiceErrorKindView::PermissionDenied => "no permission to access the service"@,
    }
}

impl ServiceErrorKind {
    /// The message this kind carries.
    pub fn description(&self) -> (r: String)
        ensures
            r@ == kind_message(self@),
    {
        match self {
            ServiceErrorKind::Internal(m) => m.clone(),
            ServiceErrorKind::NotFound => String::from_str("not found"),
            ServiceErrorKind::InvalidArguments => String::from_str("invalid arguments"),
            ServiceErrorKind::PreconditionFailed(m) => m.clone(),
            ServiceErrorKind::Rpc(m) => m.clone(),
            ServiceErrorKind::Custom(m) => m.clone(),
            ServiceErrorKind::PermissionDenied => String::from_str(
                "no permission to access the service",
            ),
        }
    }

    /// The name under which this kind crosses the boundary.
    pub fn kind(&self) -> (r: String)
        ensures
            r@ == kind_label(self@),
    {
        match self {
            ServiceErrorKind::Internal(_) => String::from_str("InternalError"),
            ServiceErrorKind::NotFound => String::from_str("NotFoundError"),
            ServiceErrorKind::InvalidArguments => String::from_str("ValidationError"),
            ServiceErrorKind::PreconditionFailed(_) => String::from_str("ConditionError"),
            ServiceErrorKind::Rpc(_) => String::from_str("RPCError"),
            ServiceErrorKind::Custom(_) => String::from_str("CustomError"),
            ServiceErrorKind::PermissionDenied => String::from_str("PermissionError"),
        }
    }
}

/// Mathematical model of a [`ServiceError`].
pub struct ServiceErrorView {
    pub code: int,
    pub kind: Seq<char>,
    pub message: Option<Seq<char>>,
    pub service_name: Option<Seq<char>>,
    pub attributes: Option<Seq<(Seq<char>, Seq<char>)>>,
    pub destination: Option<Seq<char>>,
    pub display_errors: bool,
    pub concealable: Option<Seq<Seq<char>>>,
}

/// The error a service returns to another service across an RPC or HTTP
/// boundary: a caller-assignable code, a kind name, and four fields that
/// deployment policy may conceal. The concealable-field list and the
/// auto-log policy are captured once, at construction time. The
/// attributes are flat name-value string pairs; redaction treats them as
/// one unit and never reads inside them.
#[derive(Debug)]
pub struct ServiceError {
    pub code: i32,
    pub kind: String,
    pub message: Option<String>,
    pub service_name: Option<String>,
    pub attributes: Option<Vec<(String, String)>>,
    pub destination: Option<String>,
    pub display_errors: bool,
    pub concealable_attributes: Option<Vec<String>>,
}

impl View for ServiceError {
    type V = ServiceErrorView;

    open spec fn view(&self) -> ServiceErrorView {
        ServiceErrorView {
            code: self.code as int,
            kind: self.kind@,
            message: match self.message {
                Some(ref m) => Some(m@),
                None => None,
            },
            service_name: match self.service_name {
                Some(ref m) => Some(m@),
                None => None,
            },
            attributes: match self.attributes {
                Some(ref a) => Some(a@.map_values(|p: (String, String)| (p.0@, p.1@))),
                None => None,
            },
            destination: match self.destination {
                Some(ref m) => Some(m@),
                None => None,
            },
            display_errors: self.display_errors,
            concealable: match self.concealable_attributes {
                Some(ref c) => Some(c@.map_values(|f: String| f@)),
                None => None,
            },
        }
    }
}

/// Whether the configured logging policy displays errors: the configured
/// flag, or the default of showing them.
pub open spec fn display_policy(d: &crate::definition::Definitions) -> bool {
    match d.log {
        Some(ref l) => match l@.display_errors {
            Some(b) => b,
            None => true,
        },
        None => true,
    }
}

/// The concealable-field list the environment declares: the
/// hide-response-fields variable split at commas, when it is set.
pub open spec fn conceal_policy(e: &crate::env::Env) -> Option<Seq<Seq<char>>> {
    match e.hide_response_fields {
        Some(ref h) => Some(crate::text::split_seq(h@, ',')),
        None => None,
    }
}

/// A freshly constructed service error: code zero, the kind's label and
/// message, the producing service's name, and the deployment policy
/// captured from the context.
pub open spec fn new_service_error_view(
    service_name: Seq<char>,
    display_errors: bool,
    concealable: Option<Seq<Seq<char>>>,
    k: ServiceErrorKindView,
) -> ServiceErrorView {
    ServiceErrorView {
        code: 0,
        kind: kind_label(k),
        message: Some(kind_message(k)),
        service_name: Some(service_name),
        attributes: None,
        destination: None,
        display_errors,
        concealable,
    }
}

/// A freshly constructed service error, with everything taken from the
/// given context.
pub open spec fn error_from_context(
    ctx: &crate::context::Context,
    k: ServiceErrorKindView,
) -> ServiceErrorView {
    new_service_error_view(
        ctx.definitions.name@,
        display_policy(&ctx.definitions),
        conceal_policy(&ctx.envs),
        k,
    )
}

/// True when the concealable list names the field, compared
/// case-insensitively.
pub open spec fn contains_ci(fields: Seq<Seq<char>>, name: Seq<char>) -> bool {
    exists|i: int| 0 <= i < fields.len() && crate::text::lower(#[trigger] fields[i]) == name
}

/// The error after boundary redaction: each field named by the concealable
/// list — matched case-insensitively against message, service_name,
/// attributes and destination — is nulled; everything else is unchanged.
pub open spec fn conceal_spec(e: ServiceErrorView) -> ServiceErrorView {
    match e.concealable {
        None => e,
        Some(fields) => ServiceErrorView {
            message: if contains_ci(fields, "message"@) {
                None
            } else {
                e.message
            },
            service_name: if contains_ci(fields, "service_name"@) {
                None
            } else {
                e.service_name
            },
            attributes: if contains_ci(fields, "attributes"@) {
                None
            } else {
                e.attributes
            },
            destination: if contains_ci(fields, "destination"@) {
                None
            } else {
                e.destination
            },
            ..e
        },
    }
}

/// Redaction is idempotent: applying the boundary conversion to an already
/// redacted error changes nothing, so redaction cannot be deepened — nor
/// undone — by a second pass.
pub proof fn lemma_conceal_idempotent(e: ServiceErrorView)
    ensures
        conceal_spec(conceal_spec(e)) == conceal_spec(e),
{
}

/// Redaction never touches the code, the kind, the policy fields, nor a
/// field the policy does not name.
pub proof fn lemma_conceal_keeps_the_rest(e: ServiceErrorView)
    ensures
        conceal_spec(e).code == e.code,
        conceal_spec(e).kind == e.kind,
        conceal_spec(e).display_errors == e.display_errors,
        conceal_spec(e).concealable == e.concealable,
        e.concealable matches Some(fields) ==> !contains_ci(fields, "message"@) ==> conceal_spec(
            e,
        ).message == e.message,
        e.concealable matches Some(fields) ==> !contains_ci(fields, "service_name"@)
            ==> conceal_spec(e).service_name == e.service_name,
{
}

impl ServiceError {
    /// Builds an error of the given kind, capturing the producing
    /// service's name and the deployment policy from the context.
    fn new(ctx: &crate::context::Context, error: ServiceErrorKind) -> (r: Self)
        ensures
            r@ == error_from_context(ctx, error@),
    {
        let display_errors = match ctx.definitions.log().display_errors {
            Some(b) => b,
            None => true,
        };
        ServiceError {
            code: 0,
            kind: error.kind(),
            message: Some(error.description()),
            service_name: Some(ctx.service_name()),
            attributes: None,
            destination: None,
            display_errors,
            concealable_attributes: ctx.envs.response_fields(),
        }
    }

    /// An unexpected internal service fault.
    pub fn internal(ctx: &crate::context::Context, msg: &str) -> (r: Self)
        ensures
            r@ == error_from_context(ctx, ServiceErrorKindView::Internal(msg@)),
    {
        Self::new(ctx, ServiceErrorKind::Internal(String::from_str(msg)))
    }

    /// A requested entity was absent.
    pub fn not_found(ctx: &crate::context::Context) -> (r: Self)
        ensures
            r@ == error_from_context(ctx, ServiceErrorKindView::NotFound),
    {
        Self::new(ctx, ServiceErrorKind::NotFound)
    }

    /// Caller input failed validation. The details are the caller's
    /// business and are not carried in the error.
    pub fn invalid_arguments(ctx: &crate::context::Context, _details: Vec<(String, String)>) -> (r:
        Self)
        ensures
            r@ == error_from_context(ctx, ServiceErrorKindView::InvalidArguments),
    {
        Self::new(ctx, ServiceErrorKind::InvalidArguments)
    }

    /// A required internal condition was false.
    pub fn precondition_failed(ctx: &crate::context::Context, msg: &str) -> (r: Self)
        ensures
            r@ == error_from_context(ctx, ServiceErrorKindView::PreconditionFailed(msg@)),
    {
        Self::new(ctx, ServiceErrorKind::PreconditionFailed(String::from_str(msg)))
    }

    /// A downstream call failed; the destination names the callee.
    pub fn rpc(ctx: &crate::context::Context, destination: &str, msg: &str) -> (r: Self)
        ensures
            r@ == (ServiceErrorView {
                destination: Some(destination@),
                ..error_from_context(ctx, ServiceErrorKindView::Rpc(msg@))
            }),
    {
        let mut error = Self::new(ctx, ServiceErrorKind::Rpc(String::from_str(msg)));
        error.destination = Some(String::from_str(destination));
        error
    }

    /// A service-defined error category.
    pub fn custom(ctx: &crate::context::Context, msg: &str) -> (r: Self)
        ensures
            r@ == error_from_context(ctx, ServiceErrorKindView::Custom(msg@)),
    {
        Self::new(ctx, ServiceErrorKind::Custom(String::from_str(msg)))
    }

    /// The caller lacked authorization.
    pub fn permission_denied(ctx: &crate::context::Context) -> (r: Self)
        ensures
            r@ == error_from_context(ctx, ServiceErrorKindView::PermissionDenied),
    {
        Self::new(ctx, ServiceErrorKind::PermissionDenied)
    }

    /// Assigns a code so the client can map and identify the error.
    pub fn with_code(self, code: i32) -> (r: Self)
        ensures
            r@ == (ServiceErrorView { code: code as int, ..self@ }),
    {
        let mut e = self;
        e.code = code;
        e
    }

    /// Attaches structured attributes to be shown to the client if the
    /// policy allows.
    pub fn with_attributes(self, attributes: Vec<(String, String)>) -> (r: Self)
        ensures
            r@ == (ServiceErrorView {
                attributes: Some(attributes@.map_values(|p: (String, String)| (p.0@, p.1@))),
                ..self@
            }),
    {
        let mut e = self;
        e.attributes = Some(attributes);
        e
    }

    /// Adds one field name to the concealable list, so that the boundary
    /// conversion nulls it.
    pub fn hide_field(self, field: &str) -> (r: Self)
        ensures
            r@ == (ServiceErrorView {
                concealable: Some(
                    match self@.concealable {
                        Some(fields) => fields.push(field@),
                        None => seq![field@],
                    },
                ),
                ..self@
            }),
    {
        let mut e = self;
        let mut fields = match e.concealable_attributes {
            Some(fields) => fields,
            None => Vec::new(),
        };
        let ghost before = fields@;
        fields.push(String::from_str(field));
        proof {
            assert(fields@.map_values(|f: String| f@) =~= before.map_values(|f: String| f@).push(
                field@,
            ));
            if self@.concealable is None {
                assert(before.map_values(|f: String| f@).push(field@) =~= seq![field@]);
            }
        }
        e.concealable_attributes = Some(fields);
        e
    }

    /// Translates an internal error into a service error, using the
    /// context's policy.
    pub fn from_error(ctx: &crate::context::Context, error: ServiceErrorKind) -> (r: Self)
        ensures
            r@ == error_from_context(ctx, error@),
    {
        Self::new(ctx, error)
    }

    /// Applies the boundary redaction: every field the deployment policy
    /// names is nulled, exactly once, at the producing boundary. The
    /// conversion is one-way: what it removes, nothing restores.
    pub fn conceal(self) -> (r: Self)
        ensures
            r@ == conceal_spec(self@),
    {
        let mut e = self;
        match &e.concealable_attributes {
            None => e,
            Some(fields) => {
                let ghost fviews = fields@.map_values(|f: String| f@);
                let n = fields.len();
                let mut hide_message = false;
                let mut hide_service_name = false;
                let mut hide_attributes = false;
                let mut hide_destination = false;
                let mut i: usize = 0;
                while i < n
                    invariant
                        i <= n,
                        n == fviews.len(),
                        fviews == fields@.map_values(|f: String| f@),
                        hide_message == (exists|j: int|
                            0 <= j < i && crate::text::lower(#[trigger] fviews[j]) == "message"@),
                        hide_service_name == (exists|j: int|
                            0 <= j < i && crate::text::lower(#[trigger] fviews[j])
                                == "service_name"@),
                        hide_attributes == (exists|j: int|
                            0 <= j < i && crate::text::lower(#[trigger] fviews[j])
                                == "attributes"@),
                        hide_destination == (exists|j: int|
                            0 <= j < i && crate::text::lower(#[trigger] fviews[j])
                                == "destination"@),
                    decreases n - i,
                {
                    let lowered = crate::text::to_lower(fields[i].as_str());
                    proof {
                        assert(fviews[i as int] == fields@[i as int]@);
                        assert(lowered@ == crate::text::lower(fviews[i as int]));
                    }
                    if crate::text::str_eq(lowered.as_str(), "message") {
                        hide_message = true;
                    }
                    if crate::text::str_eq(lowered.as_str(), "service_name") {
                        hide_service_name = true;
                    }
                    if crate::text::str_eq(lowered.as_str(), "attributes") {
                        hide_attributes = true;
                    }
                    if crate::text::str_eq(lowered.as_str(), "destination") {
                        hide_destination = true;
                    }
                    i = i + 1;
                }
                if hide_message {
                    e.message = None;
                }
                if hide_service_name {
                    e.service_name = None;
                }
                if hide_attributes {
                    e.attributes = None;
                }
                if hide_destination {
                    e.destination = None;
                }
                e
            },
        }
    }

    /// The transport status the kind maps to on an HTTP boundary.
    pub fn http_status(&self) -> (r: u16)
        ensures
            r == status_of_kind(self@.kind),
    {
        if crate::text::str_eq(self.kind.as_str(), "NotFoundError") {
            404
        } else if crate::text::str_eq(self.kind.as_str(), "ValidationError") {
            400
        } else if crate::text::str_eq(self.kind.as_str(), "ConditionError") {
            412
        } else if crate::text::str_eq(self.kind.as_str(), "PermissionError") {
            403
        } else {
            500
        }
    }
}

/// The canonical transport-status mapping: absent kinds, RPC failures and
/// service-defined categories all answer as internal faults.
pub open spec fn status_of_kind(k: Seq<char>) -> u16 {
    if k == "NotFoundError"@ {
        404
    } else if k == "ValidationError"@ {
        400
    } else if k == "ConditionError"@ {
        412
    } else if k == "PermissionError"@ {
        403
    } else {
        500
    }
}

} // verus!
