//! Service definitions: the workload kinds a service may declare, the entries
//! of its configuration, and the validation rules the supervisor applies
//! before committing to run.

use vstd::prelude::*;

use crate::errors::{Error, ErrorView};
use crate::text::str_eq;

verus! {

/// Mathematical model of a workload kind: one of the built-in kinds or a
/// named custom kind.
pub enum KindView {
    Grpc,
    Http,
    Script,
    Native,
    Custom(Seq<char>),
}

/// The canonical name under which a kind appears in the configuration and
/// keys the workload registry.
pub open spec fn kind_name(k: KindView) -> Seq<char> {
    match k {
        KindView::Grpc => "grpc"@,
        KindView::Http => "http"@,
        KindView::Script => "script"@,
        KindView::Native => "native"@,
        KindView::Custom(s) => s,
    }
}

/// The kind a configuration name denotes: the built-in kinds own their four
/// names; every other name denotes a custom kind.
pub open spec fn kind_of_name(n: Seq<char>) -> KindView {
    if n == "grpc"@ {
        KindView::Grpc
    } else if n == "http"@ {
        KindView::Http
    } else if n == "script"@ {
        KindView::Script
    } else if n == "native"@ {
        KindView::Native
    } else {
        KindView::Custom(n)
    }
}

/// A workload kind: the registry key for one workload implementation.
#[derive(Debug)]
pub enum ServiceKind {
    Grpc,
    Http,
    Script,
    Native,
    Custom(String),
}

impl View for ServiceKind {
    type V = KindView;

    open spec fn view(&self) -> KindView {
        match self {
            ServiceKind::Grpc => KindView::Grpc,
            ServiceKind::Http => KindView::Http,
            ServiceKind::Script => KindView::Script,
            ServiceKind::Native => KindView::Native,
            ServiceKind::Custom(s) => KindView::Custom(s@),
        }
    }
}

impl ServiceKind {
    /// Parses a kind from its configuration name.
    pub fn from_str(s: &str) -> (r: Self)
        ensures
            r@ == kind_of_name(s@),
    {
        if str_eq(s, "grpc") {
            ServiceKind::Grpc
        } else if str_eq(s, "http") {
            ServiceKind::Http
        } else if str_eq(s, "script") {
            ServiceKind::Script
        } else if str_eq(s, "native") {
            ServiceKind::Native
        } else {
            ServiceKind::Custom(String::from_str(s))
        }
    }

    /// The configuration name of this kind.
    pub fn to_str(&self) -> (r: String)
        ensures
            r@ == kind_name(self@),
    {
        match self {
            ServiceKind::Grpc => String::from_str("grpc"),
            ServiceKind::Http => String::from_str("http"),
            ServiceKind::Script => String::from_str("script"),
            ServiceKind::Native => String::from_str("native"),
            ServiceKind::Custom(s) => s.clone(),
        }
    }
}

impl Clone for ServiceKind {
    fn clone(&self) -> (r: Self)
        ensures
            r@ == self@,
    {
        match self {
            ServiceKind::Grpc => ServiceKind::Grpc,
            ServiceKind::Http => ServiceKind::Http,
            ServiceKind::Script => ServiceKind::Script,
            ServiceKind::Native => ServiceKind::Native,
            ServiceKind::Custom(s) => ServiceKind::Custom(s.clone()),
        }
    }
}

impl PartialEq for ServiceKind {
    fn eq(&self, other: &Self) -> (r: bool) {
        match (self, other) {
            (ServiceKind::Grpc, ServiceKind::Grpc) => true,
            (ServiceKind::Http, ServiceKind::Http) => true,
            (ServiceKind::Script, ServiceKind::Script) => true,
            (ServiceKind::Native, ServiceKind::Native) => true,
            (ServiceKind::Custom(a), ServiceKind::Custom(b)) => *a == *b,
            _ => false,
        }
    }
}

impl vstd::std_specs::cmp::PartialEqSpecImpl for ServiceKind {
    open spec fn obeys_eq_spec() -> bool {
        true
    }

    open spec fn eq_spec(&self, other: &Self) -> bool {
        self@ == other@
    }
}

/// A name denotes the kind it came from: naming a kind and reading the name
/// back round-trips.
pub proof fn lemma_kind_name_round_trip(n: Seq<char>)
    ensures
        kind_name(kind_of_name(n)) == n,
{
}

/// One configured workload entry: its kind and an optional listen port.
pub struct Service(pub ServiceKind, pub Option<i32>);

/// What a configuration entry of the form `name` or `name:port` denotes:
/// the kind named before the first colon and, when a colon follows, the
/// port given after it; a malformed port denotes nothing.
pub open spec fn parse_entry_spec(s: Seq<char>) -> Option<(KindView, Option<i32>)> {
    let parts = crate::text::split_seq(s, ':');
    if parts.len() <= 1 {
        Some((kind_of_name(parts[0]), None::<i32>))
    } else {
        match crate::text::parse_i32_spec(parts[1]) {
            Some(p) => Some((kind_of_name(parts[0]), Some(p))),
            None => None,
        }
    }
}

impl Service {
    /// Parses a configuration entry of the form `name` or `name:port`.
    pub fn parse(s: &str) -> (r: Result<Service, Error>)
        ensures
            match r {
                Ok(svc) => parse_entry_spec(s@) == Some((svc.0@, svc.1)),
                Err(e) => parse_entry_spec(s@) is None && e@ == ErrorView::InvalidDefinitions(
                    "invalid port number"@,
                ),
            },
    {
        let parts = crate::text::split(s, ':');
        proof {
            crate::text::lemma_split_seq_len(s@, ':');
            assert(parts@.map_values(|p: String| p@)[0] == parts@[0]@);
        }
        let kind = ServiceKind::from_str(parts[0].as_str());
        if parts.len() <= 1 {
            Ok(Service(kind, None))
        } else {
            proof {
                assert(parts@.map_values(|p: String| p@)[1] == parts@[1]@);
            }
            match crate::text::parse_i32(parts[1].as_str()) {
                Some(p) => Ok(Service(kind, Some(p))),
                None => Err(Error::InvalidDefinitions(String::from_str("invalid port number"))),
            }
        }
    }
}

impl Clone for Service {
    fn clone(&self) -> (r: Self)
        ensures
            r.0@ == self.0@,
            r.1 == self.1,
    {
        Service(self.0.clone(), self.1)
    }
}

/// Mathematical model of the logging policy block.
pub struct LogView {
    pub level: Option<Seq<char>>,
    pub local_timestamp: Option<bool>,
    pub display_errors: Option<bool>,
}

/// The logging policy block of the configuration; absent fields fall back
/// to the defaults when the block is read.
pub struct Log {
    pub level: Option<String>,
    pub local_timestamp: Option<bool>,
    pub display_errors: Option<bool>,
}

impl View for Log {
    type V = LogView;

    open spec fn view(&self) -> LogView {
        LogView {
            level: match self.level {
                Some(ref s) => Some(s@),
                None => None,
            },
            local_timestamp: self.local_timestamp,
            display_errors: self.display_errors,
        }
    }
}

/// The default logging policy: info level, local timestamps, errors shown.
pub open spec fn default_log_view() -> LogView {
    LogView { level: Some("info"@), local_timestamp: Some(true), display_errors: Some(true) }
}

/// A policy block with the defaults filled into its absent fields.
pub open spec fn merged_log_view(a: LogView, b: LogView) -> LogView {
    LogView {
        level: if a.level is Some {
            a.level
        } else {
            b.level
        },
        local_timestamp: if a.local_timestamp is Some {
            a.local_timestamp
        } else {
            b.local_timestamp
        },
        display_errors: if a.display_errors is Some {
            a.display_errors
        } else {
            b.display_errors
        },
    }
}

impl Default for Log {
    /// The default logging policy.
    fn default() -> (r: Self)
        ensures
            r@ == default_log_view(),
    {
        Log {
            level: Some(String::from_str("info")),
            local_timestamp: Some(true),
            display_errors: Some(true),
        }
    }
}

impl Clone for Log {
    fn clone(&self) -> (r: Self)
        ensures
            r@ == self@,
    {
        Log {
            level: match &self.level {
                Some(s) => Some(s.clone()),
                None => None,
            },
            local_timestamp: self.local_timestamp,
            display_errors: self.display_errors,
        }
    }
}

impl Log {
    /// Fills each absent field of this block from the other block.
    pub fn merge(&mut self, other: Log)
        ensures
            final(self)@ == merged_log_view(old(self)@, other@),
    {
        if self.level.is_none() {
            self.level = other.level;
        }
        if self.local_timestamp.is_none() {
            self.local_timestamp = other.local_timestamp;
        }
        if self.display_errors.is_none() {
            self.display_errors = other.display_errors;
        }
    }
}

/// A linked client service: where the coupled service listens.
pub struct Client {
    pub host: String,
    pub port: i32,
}

impl Clone for Client {
    fn clone(&self) -> (r: Self)
        ensures
            r.host@ == self.host@,
            r.port == self.port,
    {
        Client { host: self.host.clone(), port: self.port }
    }
}

/// The custom workload kinds an application declares as supported, beyond
/// the built-in ones.
pub struct CustomServiceInfo {
    pub types: Option<Vec<String>>,
}

/// The custom kind names as character sequences.
pub open spec fn custom_types_view(c: &CustomServiceInfo) -> Option<Seq<Seq<char>>> {
    match c.types {
        Some(ref ts) => Some(ts@.map_values(|t: String| t@)),
        None => None,
    }
}

impl Default for CustomServiceInfo {
    /// No custom kinds declared.
    fn default() -> (r: Self)
        ensures
            custom_types_view(&r) is None,
    {
        CustomServiceInfo { types: None }
    }
}

/// True when a kind may appear in the configuration: the four built-in
/// kinds always may; a custom kind only when its name was declared.
pub open spec fn supported_kind(k: KindView, custom: Option<Seq<Seq<char>>>) -> bool {
    ||| kind_name(k) == "grpc"@
    ||| kind_name(k) == "http"@
    ||| kind_name(k) == "native"@
    ||| kind_name(k) == "script"@
    ||| (custom matches Some(ts) && ts.contains(kind_name(k)))
}

/// Checks one configured entry against the supported kinds.
pub fn validate_service_type(value: &Service, context: &CustomServiceInfo) -> (r: Result<
    (),
    Error,
>)
    ensures
        r is Ok <==> supported_kind(value.0@, custom_types_view(context)),
        r matches Err(e) ==> e@ == ErrorView::InvalidDefinitions("service type is not supported"@),
{
    let name = value.0.to_str();
    if str_eq(name.as_str(), "grpc") || str_eq(name.as_str(), "http") || str_eq(
        name.as_str(),
        "native",
    ) || str_eq(name.as_str(), "script") {
        return Ok(());
    }
    match &context.types {
        Some(ts) => {
            let n = ts.len();
            let mut i: usize = 0;
            while i < n
                invariant
                    i <= n,
                    n == ts@.len(),
                    name@ == kind_name(value.0@),
                    custom_types_view(context) == Some(ts@.map_values(|t: String| t@)),
                    forall|j: int| 0 <= j < i ==> (#[trigger] ts@[j])@ != name@,
                decreases n - i,
            {
                if str_eq(name.as_str(), ts[i].as_str()) {
                    proof {
                        assert(custom_types_view(context).unwrap()[i as int] == name@);
                    }
                    return Ok(());
                }
                i = i + 1;
            }
            proof {
                assert(forall|j: int|
                    0 <= j < n ==> custom_types_view(context).unwrap()[j] == (
                    #[trigger] ts@[j])@);
                assert(!custom_types_view(context).unwrap().contains(kind_name(value.0@)));
            }
            Err(Error::InvalidDefinitions(String::from_str("service type is not supported")))
        },
        None => Err(Error::InvalidDefinitions(String::from_str("service type is not supported"))),
    }
}

/// Checks that at least one entry is configured and every entry's kind is
/// supported.
pub fn validate_service_types(types: &Vec<Service>, context: &CustomServiceInfo) -> (r: Result<
    (),
    Error,
>)
    ensures
        r is Ok <==> types@.len() > 0 && forall|j: int|
            0 <= j < types@.len() ==> supported_kind((#[trigger] types@[j]).0@, custom_types_view(context)),
        r matches Err(e) ==> (e@ == ErrorView::InvalidDefinitions("no service types defined"@)
            && types@.len() == 0) || (e@ == ErrorView::InvalidDefinitions(
            "service type is not supported"@,
        ) && exists|j: int|
            0 <= j < types@.len() && !supported_kind(
                (#[trigger] types@[j]).0@,
                custom_types_view(context),
            )),
{
    if types.len() == 0 {
        return Err(Error::InvalidDefinitions(String::from_str("no service types defined")));
    }
    let n = types.len();
    let mut i: usize = 0;
    while i < n
        invariant
            i <= n,
            n == types@.len(),
            forall|j: int|
                0 <= j < i ==> supported_kind(
                    (#[trigger] types@[j]).0@,
                    custom_types_view(context),
                ),
        decreases n - i,
    {
        match validate_service_type(&types[i], context) {
            Ok(()) => {},
            Err(e) => {
                return Err(e);
            },
        }
        i = i + 1;
    }
    Ok(())
}

/// Checks the whole configuration's entries against the supported kinds.
pub fn validate_service_info(info: &Definitions, context: &CustomServiceInfo) -> (r: Result<
    (),
    Error,
>)
    ensures
        r is Ok <==> info.types@.len() > 0 && forall|j: int|
            0 <= j < info.types@.len() ==> supported_kind(
                (#[trigger] info.types@[j]).0@,
                custom_types_view(context),
            ),
{
    validate_service_types(&info.types, context)
}

/// The service definitions: what the configuration document declares about
/// the service, its workload entries, its linked clients and its logging
/// policy. Loading and decoding the document is the caller's business; the
/// definitions arrive here as plain values.
pub struct Definitions {
    pub name: String,
    pub version: String,
    pub language: String,
    pub product: String,
    pub envs: Option<Vec<String>>,
    pub log: Option<Log>,
    pub clients: Vec<(String, Client)>,
    pub types: Vec<Service>,
}

impl Definitions {
    /// The effective logging policy: the configured block with the defaults
    /// filled into absent fields, or the defaults outright.
    pub fn log(&self) -> (r: Log)
        ensures
            r@ == match self.log {
                Some(ref l) => merged_log_view(l@, default_log_view()),
                None => default_log_view(),
            },
    {
        match &self.log {
            None => Log::default(),
            Some(log) => {
                let mut log = log.clone();
                log.merge(Log::default());
                log
            },
        }
    }

    /// The first configured entry of the given kind.
    pub fn get_service_type(&self, kind: &ServiceKind) -> (r: Result<&Service, Error>)
        ensures
            match r {
                Ok(svc) => exists|j: int|
                    0 <= j < self.types@.len() && (#[trigger] self.types@[j]).0@ == kind@ && svc.0@
                        == kind@ && svc.1 == self.types@[j].1 && (forall|m: int|
                        0 <= m < j ==> (#[trigger] self.types@[m]).0@ != kind@),
                Err(e) => (forall|j: int|
                    0 <= j < self.types@.len() ==> (#[trigger] self.types@[j]).0@ != kind@) && e@
                    == ErrorView::NotFound(
                    "could not find service kind '"@ + kind_name(kind@) + "'"@,
                ),
            },
    {
        let n = self.types.len();
        let mut i: usize = 0;
        while i < n
            invariant
                i <= n,
                n == self.types@.len(),
                forall|j: int| 0 <= j < i ==> (#[trigger] self.types@[j]).0@ != kind@,
            decreases n - i,
        {
            if self.types[i].0 == *kind {
                return Ok(&self.types[i]);
            }
            i = i + 1;
        }
        Err(
            Error::NotFound(
                String::from_str("could not find service kind '").concat(
                    kind.to_str().as_str(),
                ).concat("'"),
            ),
        )
    }

    /// The port a workload of the given kind listens on: the port its
    /// first configured entry assigns, or the given default when the entry
    /// carries none; the not-found error when the kind is not configured.
    pub fn service_port(&self, kind: &ServiceKind, default_port: i32) -> (r: Result<i32, Error>)
        ensures
            match r {
                Ok(p) => exists|j: int|
                    0 <= j < self.types@.len() && (#[trigger] self.types@[j]).0@ == kind@ && p
                        == (match self.types@[j].1 {
                        Some(q) => q,
                        None => default_port,
                    }) && (forall|m: int| 0 <= m < j ==> (#[trigger] self.types@[m]).0@ != kind@),
                Err(e) => (forall|j: int|
                    0 <= j < self.types@.len() ==> (#[trigger] self.types@[j]).0@ != kind@) && e@
                    == ErrorView::NotFound(
                    "could not find service kind '"@ + kind_name(kind@) + "'"@,
                ),
            },
    {
        match self.get_service_type(kind) {
            Ok(svc) => Ok(
                match svc.1 {
                    Some(p) => p,
                    None => default_port,
                },
            ),
            Err(e) => Err(e),
        }
    }

    /// The linked client registered under the given name, if any.
    pub fn client(&self, name: &str) -> (r: Option<Client>)
        ensures
            match (r, crate::text::assoc_index(self.clients@, name@)) {
                (Some(c), Some(j)) => c.host@ == self.clients@[j].1.host@ && c.port
                    == self.clients@[j].1.port,
                (None, None) => true,
                _ => false,
            },
    {
        let n = self.clients.len();
        let mut i: usize = 0;
        while i < n
            invariant
                i <= n,
                n == self.clients@.len(),
                forall|j: int| 0 <= j < i ==> (#[trigger] self.clients@[j]).0@ != name@,
            decreases n - i,
        {
            if str_eq(self.clients[i].0.as_str(), name) {
                proof {
                    crate::text::lemma_assoc_index_found(self.clients@, name@, i as int);
                }
                return Some(self.clients[i].1.clone());
            }
            i = i + 1;
        }
        proof {
            crate::text::lemma_assoc_index_missing(self.clients@, name@);
        }
        None
    }
}

} // verus!
