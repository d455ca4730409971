//! The resolved environment of a running service: the framework's own
//! variables, the service-defined variables, and the suffix-override merge
//! that lets a per-service variable set override the base set.

use vstd::prelude::*;

use crate::text;

verus! {

/// The resolved environment values a service runs with. Reading the
/// process environment is the caller's business; the values arrive here as
/// plain strings.
pub struct Env {
    pub deployment_env: String,
    pub tracker_header_name: String,
    pub coupled_namespace: String,
    pub coupled_port: String,
    pub grpc_port: i32,
    pub http_port: i32,
    pub hide_response_fields: Option<String>,
    pub defined_envs: Vec<(String, String)>,
}

impl Default for Env {
    /// The environment with every variable at its documented default and
    /// no service-defined variables.
    fn default() -> (r: Self)
        ensures
            r.deployment_env@ == "local"@,
            r.tracker_header_name@ == "X-Request-ID"@,
            r.coupled_namespace@ == "localhost"@,
            r.coupled_port@ == "7070"@,
            r.grpc_port == 7070,
            r.http_port == 8080,
            r.hide_response_fields is None,
            r.defined_envs@.len() == 0,
    {
        Env {
            deployment_env: String::from_str("local"),
            tracker_header_name: String::from_str("X-Request-ID"),
            coupled_namespace: String::from_str("localhost"),
            coupled_port: String::from_str("7070"),
            grpc_port: 7070,
            http_port: 8080,
            hide_response_fields: None,
            defined_envs: Vec::new(),
        }
    }
}

impl Env {
    /// The value of a service-defined variable, cloned out.
    pub fn get(&self, name: &str) -> (r: Option<String>)
        ensures
            match (r, text::assoc_index(self.defined_envs@, name@)) {
                (Some(v), Some(j)) => v@ == self.defined_envs@[j].1@,
                (None, None) => true,
                _ => false,
            },
    {
        match self.get_defined_env(name) {
            Some(v) => Some(v.clone()),
            None => None,
        }
    }

    /// A reference to the value of a service-defined variable.
    pub fn get_defined_env(&self, name: &str) -> (r: Option<&String>)
        ensures
            match (r, text::assoc_index(self.defined_envs@, name@)) {
                (Some(v), Some(j)) => v@ == self.defined_envs@[j].1@,
                (None, None) => true,
                _ => false,
            },
    {
        let n = self.defined_envs.len();
        let mut i: usize = 0;
        while i < n
            invariant
                i <= n,
                n == self.defined_envs@.len(),
                forall|j: int| 0 <= j < i ==> (#[trigger] self.defined_envs@[j]).0@ != name@,
            decreases n - i,
        {
            if crate::text::str_eq(self.defined_envs[i].0.as_str(), name) {
                proof {
                    text::lemma_assoc_index_found(self.defined_envs@, name@, i as int);
                }
                return Some(&self.defined_envs[i].1);
            }
            i = i + 1;
        }
        proof {
            text::lemma_assoc_index_missing(self.defined_envs@, name@);
        }
        None
    }

    /// The field names that must not cross the process boundary, read from
    /// the hide-response-fields variable as a comma-separated list.
    pub fn response_fields(&self) -> (r: Option<Vec<String>>)
        ensures
            match (r, &self.hide_response_fields) {
                (Some(fields), Some(h)) => fields@.map_values(|p: String| p@) == text::split_seq(
                    h@,
                    ',',
                ),
                (None, None) => true,
                _ => false,
            },
    {
        match &self.hide_response_fields {
            Some(fields) => Some(text::split(fields.as_str(), ',')),
            None => None,
        }
    }

    /// Merges a suffixed variable set over this one: a non-default value in
    /// the other set overrides the base value, field by field.
    pub fn merge(self, other: Env) -> (r: Self)
        ensures
            r.deployment_env@ == string_other_spec(other.deployment_env@, self.deployment_env@),
            r.tracker_header_name@ == string_other_spec(
                other.tracker_header_name@,
                self.tracker_header_name@,
            ),
            r.coupled_namespace@ == string_other_spec(
                other.coupled_namespace@,
                self.coupled_namespace@,
            ),
            r.coupled_port@ == string_other_spec(other.coupled_port@, self.coupled_port@),
            r.grpc_port == i32_other_spec(other.grpc_port, self.grpc_port),
            r.http_port == i32_other_spec(other.http_port, self.http_port),
            match (&r.hide_response_fields, &other.hide_response_fields, &self
                .hide_response_fields) {
                (Some(v), Some(o), _) => v@ == o@,
                (Some(v), None, Some(s)) => v@ == s@,
                (None, None, None) => true,
                _ => false,
            },
            r.defined_envs@ == self.defined_envs@,
    {
        Env {
            deployment_env: Self::string_other(
                other.deployment_env.as_str(),
                self.deployment_env.as_str(),
            ),
            tracker_header_name: Self::string_other(
                other.tracker_header_name.as_str(),
                self.tracker_header_name.as_str(),
            ),
            coupled_namespace: Self::string_other(
                other.coupled_namespace.as_str(),
                self.coupled_namespace.as_str(),
            ),
            coupled_port: Self::string_other(
                other.coupled_port.as_str(),
                self.coupled_port.as_str(),
            ),
            grpc_port: Self::i32_other(other.grpc_port, self.grpc_port),
            http_port: Self::i32_other(other.http_port, self.http_port),
            hide_response_fields: match other.hide_response_fields {
                Some(o) => Some(o),
                None => self.hide_response_fields,
            },
            defined_envs: self.defined_envs,
        }
    }

    /// Picks the first string unless it is empty.
    pub fn string_other(a: &str, b: &str) -> (r: String)
        ensures
            r@ == string_other_spec(a@, b@),
    {
        if !a.is_empty() {
            String::from_str(a)
        } else {
            String::from_str(b)
        }
    }

    /// Picks the first value unless it is zero.
    pub fn i32_other(a: i32, b: i32) -> (r: i32)
        ensures
            r == i32_other_spec(a, b),
    {
        if a != 0 {
            a
        } else {
            b
        }
    }
}

/// The override rule for string variables: the suffixed value wins unless
/// it is empty.
pub open spec fn string_other_spec(a: Seq<char>, b: Seq<char>) -> Seq<char> {
    if a.len() != 0 {
        a
    } else {
        b
    }
}

/// The override rule for numeric variables: the suffixed value wins unless
/// it is zero.
pub open spec fn i32_other_spec(a: i32, b: i32) -> i32 {
    if a != 0 {
        a
    } else {
        b
    }
}

} // verus!
