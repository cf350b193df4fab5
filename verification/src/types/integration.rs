//! The policy of a session: what its requests carry, what is observed of them, which hosts it
//! may reach, and which secrets it gets. A policy names secrets; it never holds their values.
use crate::document::{
    decode_list, encode_list, member, pairs_value, read_json, text_value, texts_value, write_json,
    wrong_kind_text, Decode, Encode, Member, Value,
};
use crate::text::{clone_pairs, clone_texts, is_blank, same};
use crate::types::harness::HarnessEgress;
use crate::types::image::{NetworkDefault, NetworkPolicy, NetworkView, SecretMode};
use vstd::prelude::*;
use vstd::string::*;

verus! {

/// A secret that the session gets.
#[derive(Debug, PartialEq, Eq)]
pub struct IntegrationSecret {
    /// The name of the secret in the store.
    pub secret_ref: String,
    /// The variable that carries it.
    pub env_var: String,
    /// As itself, or as a placeholder that the proxy replaces.
    pub mode: SecretMode,
    /// The hosts to which the proxy sends it.
    pub allow_hosts: Vec<String>,
    pub allow_host_patterns: Vec<String>,
}

/// A header that the proxy adds to requests.
#[derive(Debug, PartialEq, Eq)]
pub struct IntegrationInject {
    pub hosts: Vec<String>,
    pub header_name: String,
    /// `{}` stands for the secret.
    pub header_template: String,
    /// The name of the secret in the store; empty, where the value is minted.
    pub secret_ref: String,
    /// The provider that mints the value; empty, where it is stored.
    pub mint_provider: String,
    /// The methods to which the header is added; all, where there are none.
    pub methods: Vec<String>,
    /// The paths to which the header is added; all, where there are none.
    pub path_globs: Vec<String>,
    /// The kind of GraphQL operation; empty for other requests.
    pub graphql_operation: String,
    /// The top-level field of the GraphQL operation; empty for other requests.
    pub graphql_field: String,
}

/// What is derived from the address of an observed thing.
#[derive(Debug, PartialEq, Eq)]
pub struct ObserveUrlFallback {
    pub pattern: String,
    /// The field, and a template over what the pattern captures.
    pub fields: Vec<(String, String)>,
}

/// What the proxy reports of requests and their responses.
#[derive(Debug, PartialEq, Eq)]
pub struct IntegrationObserve {
    pub hosts: Vec<String>,
    pub methods: Vec<String>,
    pub path_globs: Vec<String>,
    pub provider: String,
    pub asset_kind: String,
    pub surface: String,
    /// The class of status that counts as success; any, where this is absent.
    pub success_status_class: Option<String>,
    /// A response with GraphQL errors is no success.
    pub success_no_graphql_errors: bool,
    pub graphql_operation: String,
    pub graphql_field: String,
    /// The field, and where in the response its value stands.
    pub data: Vec<(String, String)>,
    /// Where in the response the address stands.
    pub fetchable: Option<String>,
    /// What the address tells, where the response does not.
    pub url_fallback: Option<ObserveUrlFallback>,
}

/// The policy of a session.
#[derive(Debug, Default, PartialEq, Eq)]
pub struct IntegrationPolicy {
    pub injects: Vec<IntegrationInject>,
    pub observes: Vec<IntegrationObserve>,
    /// Which hosts the session may reach.
    pub network: NetworkPolicy,
    pub secrets: Vec<IntegrationSecret>,
}

/// What a [`IntegrationSecret`] stands for.
#[verifier::ext_equal]
pub ghost struct SecretView {
    pub secret_ref: Seq<char>,
    pub env_var: Seq<char>,
    pub mode: SecretMode,
    pub allow_hosts: Seq<Seq<char>>,
    pub allow_host_patterns: Seq<Seq<char>>,
}

impl View for IntegrationSecret {
    type V = SecretView;

    open spec fn view(&self) -> SecretView {
        SecretView {
            secret_ref: self.secret_ref@,
            env_var: self.env_var@,
            mode: self.mode,
            allow_hosts: self.allow_hosts.deep_view(),
            allow_host_patterns: self.allow_host_patterns.deep_view(),
        }
    }
}

impl Clone for IntegrationSecret {
    fn clone(&self) -> (res: IntegrationSecret)
        ensures
            res@ == self@,
    {
        IntegrationSecret {
            secret_ref: self.secret_ref.clone(),
            env_var: self.env_var.clone(),
            mode: self.mode,
            allow_hosts: clone_texts(&self.allow_hosts),
            allow_host_patterns: clone_texts(&self.allow_host_patterns),
        }
    }
}

/// What a [`IntegrationInject`] stands for.
#[verifier::ext_equal]
pub ghost struct InjectView {
    pub hosts: Seq<Seq<char>>,
    pub header_name: Seq<char>,
    pub header_template: Seq<char>,
    pub secret_ref: Seq<char>,
    pub mint_provider: Seq<char>,
    pub methods: Seq<Seq<char>>,
    pub path_globs: Seq<Seq<char>>,
    pub graphql_operation: Seq<char>,
    pub graphql_field: Seq<char>,
}

impl View for IntegrationInject {
    type V = InjectView;

    open spec fn view(&self) -> InjectView {
        InjectView {
            hosts: self.hosts.deep_view(),
            header_name: self.header_name@,
            header_template: self.header_template@,
            secret_ref: self.secret_ref@,
            mint_provider: self.mint_provider@,
            methods: self.methods.deep_view(),
            path_globs: self.path_globs.deep_view(),
            graphql_operation: self.graphql_operation@,
            graphql_field: self.graphql_field@,
        }
    }
}

impl Clone for IntegrationInject {
    fn clone(&self) -> (res: IntegrationInject)
        ensures
            res@ == self@,
    {
        IntegrationInject {
            hosts: clone_texts(&self.hosts),
            header_name: self.header_name.clone(),
            header_template: self.header_template.clone(),
            secret_ref: self.secret_ref.clone(),
            mint_provider: self.mint_provider.clone(),
            methods: clone_texts(&self.methods),
            path_globs: clone_texts(&self.path_globs),
            graphql_operation: self.graphql_operation.clone(),
            graphql_field: self.graphql_field.clone(),
        }
    }
}

/// What a [`ObserveUrlFallback`] stands for.
#[verifier::ext_equal]
pub ghost struct FallbackView {
    pub pattern: Seq<char>,
    pub fields: Seq<(Seq<char>, Seq<char>)>,
}

impl View for ObserveUrlFallback {
    type V = FallbackView;

    open spec fn view(&self) -> FallbackView {
        FallbackView {
            pattern: self.pattern@,
            fields: self.fields.deep_view(),
        }
    }
}

impl Clone for ObserveUrlFallback {
    fn clone(&self) -> (res: ObserveUrlFallback)
        ensures
            res@ == self@,
    {
        ObserveUrlFallback {
            pattern: self.pattern.clone(),
            fields: clone_pairs(&self.fields),
        }
    }
}

/// What an optional fallback stands for.
pub open spec fn fallback_view(f: Option<ObserveUrlFallback>) -> Option<FallbackView> {
    match f {
        Some(u) => Some(u@),
        None => None,
    }
}

/// A copy of an optional fallback.
fn clone_fallback(f: &Option<ObserveUrlFallback>) -> (res: Option<ObserveUrlFallback>)
    ensures
        fallback_view(res) == fallback_view(*f),
{
    match f {
        Some(u) => Some(u.clone()),
        None => None,
    }
}

/// What a [`IntegrationObserve`] stands for.
#[verifier::ext_equal]
pub ghost struct ObserveView {
    pub hosts: Seq<Seq<char>>,
    pub methods: Seq<Seq<char>>,
    pub path_globs: Seq<Seq<char>>,
    pub provider: Seq<char>,
    pub asset_kind: Seq<char>,
    pub surface: Seq<char>,
    pub success_status_class: Option<Seq<char>>,
    pub success_no_graphql_errors: bool,
    pub graphql_operation: Seq<char>,
    pub graphql_field: Seq<char>,
    pub data: Seq<(Seq<char>, Seq<char>)>,
    pub fetchable: Option<Seq<char>>,
    pub url_fallback: Option<FallbackView>,
}

impl View for IntegrationObserve {
    type V = ObserveView;

    open spec fn view(&self) -> ObserveView {
        ObserveView {
            hosts: self.hosts.deep_view(),
            methods: self.methods.deep_view(),
            path_globs: self.path_globs.deep_view(),
            provider: self.provider@,
            asset_kind: self.asset_kind@,
            surface: self.surface@,
            success_status_class: self.success_status_class.deep_view(),
            success_no_graphql_errors: self.success_no_graphql_errors,
            graphql_operation: self.graphql_operation@,
            graphql_field: self.graphql_field@,
            data: self.data.deep_view(),
            fetchable: self.fetchable.deep_view(),
            url_fallback: fallback_view(self.url_fallback),
        }
    }
}

impl Clone for IntegrationObserve {
    fn clone(&self) -> (res: IntegrationObserve)
        ensures
            res@ == self@,
    {
        IntegrationObserve {
            hosts: clone_texts(&self.hosts),
            methods: clone_texts(&self.methods),
            path_globs: clone_texts(&self.path_globs),
            provider: self.provider.clone(),
            asset_kind: self.asset_kind.clone(),
            surface: self.surface.clone(),
            success_status_class: self.success_status_class.clone(),
            success_no_graphql_errors: self.success_no_graphql_errors,
            graphql_operation: self.graphql_operation.clone(),
            graphql_field: self.graphql_field.clone(),
            data: clone_pairs(&self.data),
            fetchable: self.fetchable.clone(),
            url_fallback: clone_fallback(&self.url_fallback),
        }
    }
}

/// What a [`IntegrationPolicy`] stands for.
#[verifier::ext_equal]
pub ghost struct PolicyView {
    pub injects: Seq<InjectView>,
    pub observes: Seq<ObserveView>,
    pub network: NetworkView,
    pub secrets: Seq<SecretView>,
}

impl View for IntegrationPolicy {
    type V = PolicyView;

    open spec fn view(&self) -> PolicyView {
        PolicyView {
            injects: crate::text::views(self.injects@),
            observes: crate::text::views(self.observes@),
            network: self.network@,
            secrets: crate::text::views(self.secrets@),
        }
    }
}

/// How a secret reaches the guest, as a document says it.
pub open spec fn decoded_mode(t: crate::document::Tree) -> Result<SecretMode, Seq<char>> {
    match t.member("mode"@) {
        None => Ok(SecretMode::Literal),
        Some(sub) => if sub.bare_name() == Some("literal"@) {
            Ok(SecretMode::Literal)
        } else if sub.bare_name() == Some("broker"@) {
            Ok(SecretMode::Broker)
        } else {
            Err(crate::document::wrong_kind("mode"@, "`literal` or `broker`"@))
        },
    }
}

/// Reads how a secret reaches the guest.
fn decode_mode(doc: &Value) -> (res: Result<SecretMode, String>)
    ensures
        res is Ok <==> decoded_mode(doc@) is Ok,
        res is Ok ==> decoded_mode(doc@)->Ok_0 == res->Ok_0,
        res is Err ==> decoded_mode(doc@)->Err_0 == res->Err_0@,
{
    proof {
        reveal_strlit("literal");
        reveal_strlit("broker");
        assert("literal"@.len() == 7 && "broker"@.len() == 6);
    }
    match doc.get("mode") {
        None => Ok(SecretMode::Literal),
        Some(sub) => match sub.bare_name() {
            Some(s) => if same(s, "literal") {
                Ok(SecretMode::Literal)
            } else if same(s, "broker") {
                Ok(SecretMode::Broker)
            } else {
                Err(wrong_kind_text("mode", "`literal` or `broker`"))
            },
            None => Err(wrong_kind_text("mode", "`literal` or `broker`")),
        },
    }
}

/// What holds for a host that no rule names, as a document says it.
pub open spec fn decoded_default(t: crate::document::Tree) -> Result<NetworkDefault, Seq<char>> {
    match t.member("default"@) {
        None => Ok(NetworkDefault::Deny),
        Some(sub) => if sub.bare_name() == Some("allow"@) {
            Ok(NetworkDefault::Allow)
        } else if sub.bare_name() == Some("deny"@) {
            Ok(NetworkDefault::Deny)
        } else {
            Err(crate::document::wrong_kind("default"@, "`allow` or `deny`"@))
        },
    }
}

/// Reads what holds for a host that no rule names.
fn decode_default(doc: &Value) -> (res: Result<NetworkDefault, String>)
    ensures
        res is Ok <==> decoded_default(doc@) is Ok,
        res is Ok ==> decoded_default(doc@)->Ok_0 == res->Ok_0,
        res is Err ==> decoded_default(doc@)->Err_0 == res->Err_0@,
{
    proof {
        reveal_strlit("allow");
        reveal_strlit("deny");
        assert("allow"@.len() == 5 && "deny"@.len() == 4);
    }
    match doc.get("default") {
        None => Ok(NetworkDefault::Deny),
        Some(sub) => match sub.bare_name() {
            Some(s) => if same(s, "allow") {
                Ok(NetworkDefault::Allow)
            } else if same(s, "deny") {
                Ok(NetworkDefault::Deny)
            } else {
                Err(wrong_kind_text("default", "`allow` or `deny`"))
            },
            None => Err(wrong_kind_text("default", "`allow` or `deny`")),
        },
    }
}

impl Decode for NetworkPolicy {
    open spec fn decoded(t: crate::document::Tree) -> Result<NetworkView, Seq<char>> {
        let t = t.in_order(seq!["default"@, "allow_hosts"@, "allow_host_patterns"@], 0);
        let shape = t.table_of(
            "network"@,
            seq!["default"@, "allow_hosts"@, "allow_host_patterns"@],
        );
        let default = decoded_default(t);
        let allow_hosts = t.text_list("allow_hosts"@);
        let allow_host_patterns = t.text_list("allow_host_patterns"@);
        match crate::document::earlier(
            crate::document::earlier(
                crate::document::earlier(
                    crate::document::error_of(shape),
                    crate::document::error_of(default),
                ),
                crate::document::error_of(allow_hosts),
            ),
            crate::document::error_of(allow_host_patterns),
        ) {
            Some(e) => Err(e),
            None => Ok(
                NetworkView {
                    default: default->Ok_0,
                    allow_hosts: allow_hosts->Ok_0,
                    allow_host_patterns: allow_host_patterns->Ok_0,
                },
            ),
        }
    }

    fn decode(doc: &Value) -> (res: Result<NetworkPolicy, String>) {
        let fields: [&str; 3] = ["default", "allow_hosts", "allow_host_patterns"];
        let names = fields.as_slice();
        assert(names.deep_view() =~= seq!["default"@, "allow_hosts"@, "allow_host_patterns"@]);
        let table = doc.in_order(names, 0);
        let doc = &table;
        if let Err(e) = doc.check_table("network", names) {
            return Err(e);
        }
        let default = match decode_default(doc) {
            Ok(v) => v,
            Err(e) => return Err(e),
        };
        let allow_hosts = match doc.text_list("allow_hosts") {
            Ok(v) => v,
            Err(e) => return Err(e),
        };
        let allow_host_patterns = match doc.text_list("allow_host_patterns") {
            Ok(v) => v,
            Err(e) => return Err(e),
        };
        Ok(NetworkPolicy { default, allow_hosts, allow_host_patterns })
    }
}

/// No host, and none by default.
pub open spec fn closed_network() -> NetworkView {
    NetworkView {
        default: NetworkDefault::Deny,
        allow_hosts: Seq::empty(),
        allow_host_patterns: Seq::empty(),
    }
}

/// No host, and none by default.
fn new_closed_network() -> (res: NetworkPolicy)
    ensures
        res@ == closed_network(),
{
    let res = NetworkPolicy {
        default: NetworkDefault::Deny,
        allow_hosts: Vec::new(),
        allow_host_patterns: Vec::new(),
    };
    assert(res@.allow_hosts =~= Seq::empty());
    assert(res@.allow_host_patterns =~= Seq::empty());
    res
}

/// The network of a policy, as a document says it.
pub open spec fn decoded_network(t: crate::document::Tree) -> Result<NetworkView, Seq<char>> {
    match t.member("network"@) {
        None => Ok(closed_network()),
        Some(sub) => NetworkPolicy::decoded(sub),
    }
}

/// Reads the network of a policy.
pub(crate) fn decode_network(doc: &Value) -> (res: Result<NetworkPolicy, String>)
    ensures
        res is Ok <==> decoded_network(doc@) is Ok,
        res is Ok ==> decoded_network(doc@)->Ok_0 == res->Ok_0@,
        res is Err ==> decoded_network(doc@)->Err_0 == res->Err_0@,
{
    match doc.get("network") {
        None => Ok(new_closed_network()),
        Some(sub) => NetworkPolicy::decode(sub),
    }
}

/// The fallback of an observation, as a document says it.
pub open spec fn decoded_fallback(t: crate::document::Tree) -> Result<
    Option<FallbackView>,
    Seq<char>,
> {
    match t.member("url_fallback"@) {
        None => Ok(None),
        Some(sub) => if sub is Null {
            Ok(None)
        } else {
            match ObserveUrlFallback::decoded(sub) {
                Ok(f) => Ok(Some(f)),
                Err(e) => Err(e),
            }
        },
    }
}

/// Reads the fallback of an observation.
fn decode_fallback(doc: &Value) -> (res: Result<Option<ObserveUrlFallback>, String>)
    ensures
        res is Ok <==> decoded_fallback(doc@) is Ok,
        res is Ok ==> decoded_fallback(doc@)->Ok_0 == fallback_view(res->Ok_0),
        res is Err ==> decoded_fallback(doc@)->Err_0 == res->Err_0@,
{
    match doc.get("url_fallback") {
        None => Ok(None),
        Some(Value::Null) => Ok(None),
        Some(sub) => match ObserveUrlFallback::decode(sub) {
            Ok(f) => Ok(Some(f)),
            Err(e) => Err(e),
        },
    }
}

impl Decode for IntegrationSecret {
    open spec fn decoded(t: crate::document::Tree) -> Result<SecretView, Seq<char>> {
        let t = t.in_order(
            seq![
                "secret_ref"@,
                "env_var"@,
                "mode"@,
                "allow_hosts"@,
                "allow_host_patterns"@,
            ],
            2,
        );
        let shape = t.table("secret"@);
        let secret_ref = t.need_text("secret_ref"@);
        let env_var = t.need_text("env_var"@);
        let mode = decoded_mode(t);
        let allow_hosts = t.text_list("allow_hosts"@);
        let allow_host_patterns = t.text_list("allow_host_patterns"@);
        match crate::document::earlier(
            crate::document::earlier(
                crate::document::earlier(
                    crate::document::earlier(
                        crate::document::earlier(
                            crate::document::error_of(shape),
                            crate::document::error_of(secret_ref),
                        ),
                        crate::document::error_of(env_var),
                    ),
                    crate::document::error_of(mode),
                ),
                crate::document::error_of(allow_hosts),
            ),
            crate::document::error_of(allow_host_patterns),
        ) {
            Some(e) => Err(e),
            None => Ok(
                SecretView {
                    secret_ref: secret_ref->Ok_0,
                    env_var: env_var->Ok_0,
                    mode: mode->Ok_0,
                    allow_hosts: allow_hosts->Ok_0,
                    allow_host_patterns: allow_host_patterns->Ok_0,
                },
            ),
        }
    }

    fn decode(doc: &Value) -> (res: Result<IntegrationSecret, String>) {
        let order: [&str; 5] = [
            "secret_ref",
            "env_var",
            "mode",
            "allow_hosts",
            "allow_host_patterns",
        ];
        let names = order.as_slice();
        assert(names.deep_view() =~= seq![
            "secret_ref"@,
            "env_var"@,
            "mode"@,
            "allow_hosts"@,
            "allow_host_patterns"@,
        ]);
        let table = doc.in_order(names, 2);
        let doc = &table;
        if let Err(e) = doc.check_kind("secret") {
            return Err(e);
        }
        let secret_ref = match doc.need_text("secret_ref") {
            Ok(v) => v,
            Err(e) => return Err(e),
        };
        let env_var = match doc.need_text("env_var") {
            Ok(v) => v,
            Err(e) => return Err(e),
        };
        let mode = match decode_mode(doc) {
            Ok(v) => v,
            Err(e) => return Err(e),
        };
        let allow_hosts = match doc.text_list("allow_hosts") {
            Ok(v) => v,
            Err(e) => return Err(e),
        };
        let allow_host_patterns = match doc.text_list("allow_host_patterns") {
            Ok(v) => v,
            Err(e) => return Err(e),
        };
        Ok(
            IntegrationSecret {
                secret_ref,
                env_var,
                mode,
                allow_hosts,
                allow_host_patterns,
            },
        )
    }
}

impl Decode for IntegrationInject {
    open spec fn decoded(t: crate::document::Tree) -> Result<InjectView, Seq<char>> {
        let t = t.in_order(
            seq![
                "hosts"@,
                "header_name"@,
                "header_template"@,
                "secret_ref"@,
                "mint_provider"@,
                "methods"@,
                "path_globs"@,
                "graphql_operation"@,
                "graphql_field"@,
            ],
            3,
        );
        let shape = t.table("inject"@);
        let hosts = t.need_text_list("hosts"@);
        let header_name = t.need_text("header_name"@);
        let header_template = t.need_text("header_template"@);
        let secret_ref = t.text_or_empty("secret_ref"@);
        let mint_provider = t.text_or_empty("mint_provider"@);
        let methods = t.text_list("methods"@);
        let path_globs = t.text_list("path_globs"@);
        let graphql_operation = t.text_or_empty("graphql_operation"@);
        let graphql_field = t.text_or_empty("graphql_field"@);
        match crate::document::earlier(
            crate::document::earlier(
                crate::document::earlier(
                    crate::document::earlier(
                        crate::document::earlier(
                            crate::document::earlier(
                                crate::document::earlier(
                                    crate::document::earlier(
                                        crate::document::earlier(
                                            crate::document::error_of(shape),
                                            crate::document::error_of(hosts),
                                        ),
                                        crate::document::error_of(header_name),
                                    ),
                                    crate::document::error_of(header_template),
                                ),
                                crate::document::error_of(secret_ref),
                            ),
                            crate::document::error_of(mint_provider),
                        ),
                        crate::document::error_of(methods),
                    ),
                    crate::document::error_of(path_globs),
                ),
                crate::document::error_of(graphql_operation),
            ),
            crate::document::error_of(graphql_field),
        ) {
            Some(e) => Err(e),
            None => Ok(
                InjectView {
                    hosts: hosts->Ok_0,
                    header_name: header_name->Ok_0,
                    header_template: header_template->Ok_0,
                    secret_ref: secret_ref->Ok_0,
                    mint_provider: mint_provider->Ok_0,
                    methods: methods->Ok_0,
                    path_globs: path_globs->Ok_0,
                    graphql_operation: graphql_operation->Ok_0,
                    graphql_field: graphql_field->Ok_0,
                },
            ),
        }
    }

    fn decode(doc: &Value) -> (res: Result<IntegrationInject, String>) {
        let order: [&str; 9] = [
            "hosts",
            "header_name",
            "header_template",
            "secret_ref",
            "mint_provider",
            "methods",
            "path_globs",
            "graphql_operation",
            "graphql_field",
        ];
        let names = order.as_slice();
        assert(names.deep_view() =~= seq![
            "hosts"@,
            "header_name"@,
            "header_template"@,
            "secret_ref"@,
            "mint_provider"@,
            "methods"@,
            "path_globs"@,
            "graphql_operation"@,
            "graphql_field"@,
        ]);
        let table = doc.in_order(names, 3);
        let doc = &table;
        if let Err(e) = doc.check_kind("inject") {
            return Err(e);
        }
        let hosts = match doc.need_text_list("hosts") {
            Ok(v) => v,
            Err(e) => return Err(e),
        };
        let header_name = match doc.need_text("header_name") {
            Ok(v) => v,
            Err(e) => return Err(e),
        };
        let header_template = match doc.need_text("header_template") {
            Ok(v) => v,
            Err(e) => return Err(e),
        };
        let secret_ref = match doc.text_or_empty("secret_ref") {
            Ok(v) => v,
            Err(e) => return Err(e),
        };
        let mint_provider = match doc.text_or_empty("mint_provider") {
            Ok(v) => v,
            Err(e) => return Err(e),
        };
        let methods = match doc.text_list("methods") {
            Ok(v) => v,
            Err(e) => return Err(e),
        };
        let path_globs = match doc.text_list("path_globs") {
            Ok(v) => v,
            Err(e) => return Err(e),
        };
        let graphql_operation = match doc.text_or_empty("graphql_operation") {
            Ok(v) => v,
            Err(e) => return Err(e),
        };
        let graphql_field = match doc.text_or_empty("graphql_field") {
            Ok(v) => v,
            Err(e) => return Err(e),
        };
        Ok(
            IntegrationInject {
                hosts,
                header_name,
                header_template,
                secret_ref,
                mint_provider,
                methods,
                path_globs,
                graphql_operation,
                graphql_field,
            },
        )
    }
}

impl Decode for ObserveUrlFallback {
    open spec fn decoded(t: crate::document::Tree) -> Result<FallbackView, Seq<char>> {
        let t = t.in_order(seq!["pattern"@, "fields"@], 2);
        let shape = t.table("url_fallback"@);
        let pattern = t.need_text("pattern"@);
        let fields = t.need_pair_list("fields"@);
        match crate::document::earlier(
            crate::document::earlier(
                crate::document::error_of(shape),
                crate::document::error_of(pattern),
            ),
            crate::document::error_of(fields),
        ) {
            Some(e) => Err(e),
            None => Ok(
                FallbackView {
                    pattern: pattern->Ok_0,
                    fields: fields->Ok_0,
                },
            ),
        }
    }

    fn decode(doc: &Value) -> (res: Result<ObserveUrlFallback, String>) {
        let order: [&str; 2] = ["pattern", "fields"];
        let names = order.as_slice();
        assert(names.deep_view() =~= seq!["pattern"@, "fields"@]);
        let table = doc.in_order(names, 2);
        let doc = &table;
        if let Err(e) = doc.check_kind("url_fallback") {
            return Err(e);
        }
        let pattern = match doc.need_text("pattern") {
            Ok(v) => v,
            Err(e) => return Err(e),
        };
        let fields = match doc.need_pair_list("fields") {
            Ok(v) => v,
            Err(e) => return Err(e),
        };
        Ok(
            ObserveUrlFallback {
                pattern,
                fields,
            },
        )
    }
}

impl Decode for IntegrationObserve {
    open spec fn decoded(t: crate::document::Tree) -> Result<ObserveView, Seq<char>> {
        let t = t.in_order(
            seq![
                "hosts"@,
                "methods"@,
                "path_globs"@,
                "provider"@,
                "asset_kind"@,
                "surface"@,
                "success_status_class"@,
                "success_no_graphql_errors"@,
                "graphql_operation"@,
                "graphql_field"@,
                "data"@,
                "fetchable"@,
                "url_fallback"@,
            ],
            6,
        );
        let shape = t.table("observe"@);
        let hosts = t.need_text_list("hosts"@);
        let methods = t.text_list("methods"@);
        let path_globs = t.text_list("path_globs"@);
        let provider = t.need_text("provider"@);
        let asset_kind = t.need_text("asset_kind"@);
        let surface = t.need_text("surface"@);
        let success_status_class = t.opt_text("success_status_class"@, true);
        let success_no_graphql_errors = t.flag("success_no_graphql_errors"@);
        let graphql_operation = t.text_or_empty("graphql_operation"@);
        let graphql_field = t.text_or_empty("graphql_field"@);
        let data = t.pair_list("data"@);
        let fetchable = t.opt_text("fetchable"@, true);
        let url_fallback = decoded_fallback(t);
        match crate::document::earlier(
            crate::document::earlier(
                crate::document::earlier(
                    crate::document::earlier(
                        crate::document::earlier(
                            crate::document::earlier(
                                crate::document::earlier(
                                    crate::document::earlier(
                                        crate::document::earlier(
                                            crate::document::earlier(
                                                crate::document::earlier(
                                                    crate::document::earlier(
                                                        crate::document::earlier(
                                                            crate::document::error_of(shape),
                                                            crate::document::error_of(hosts),
                                                        ),
                                                        crate::document::error_of(methods),
                                                    ),
                                                    crate::document::error_of(path_globs),
                                                ),
                                                crate::document::error_of(provider),
                                            ),
                                            crate::document::error_of(asset_kind),
                                        ),
                                        crate::document::error_of(surface),
                                    ),
                                    crate::document::error_of(success_status_class),
                                ),
                                crate::document::error_of(success_no_graphql_errors),
                            ),
                            crate::document::error_of(graphql_operation),
                        ),
                        crate::document::error_of(graphql_field),
                    ),
                    crate::document::error_of(data),
                ),
                crate::document::error_of(fetchable),
            ),
            crate::document::error_of(url_fallback),
        ) {
            Some(e) => Err(e),
            None => Ok(
                ObserveView {
                    hosts: hosts->Ok_0,
                    methods: methods->Ok_0,
                    path_globs: path_globs->Ok_0,
                    provider: provider->Ok_0,
                    asset_kind: asset_kind->Ok_0,
                    surface: surface->Ok_0,
                    success_status_class: success_status_class->Ok_0,
                    success_no_graphql_errors: success_no_graphql_errors->Ok_0,
                    graphql_operation: graphql_operation->Ok_0,
                    graphql_field: graphql_field->Ok_0,
                    data: data->Ok_0,
                    fetchable: fetchable->Ok_0,
                    url_fallback: url_fallback->Ok_0,
                },
            ),
        }
    }

    fn decode(doc: &Value) -> (res: Result<IntegrationObserve, String>) {
        let order: [&str; 13] = [
            "hosts",
            "methods",
            "path_globs",
            "provider",
            "asset_kind",
            "surface",
            "success_status_class",
            "success_no_graphql_errors",
            "graphql_operation",
            "graphql_field",
            "data",
            "fetchable",
            "url_fallback",
        ];
        let names = order.as_slice();
        assert(names.deep_view() =~= seq![
            "hosts"@,
            "methods"@,
            "path_globs"@,
            "provider"@,
            "asset_kind"@,
            "surface"@,
            "success_status_class"@,
            "success_no_graphql_errors"@,
            "graphql_operation"@,
            "graphql_field"@,
            "data"@,
            "fetchable"@,
            "url_fallback"@,
        ]);
        let table = doc.in_order(names, 6);
        let doc = &table;
        if let Err(e) = doc.check_kind("observe") {
            return Err(e);
        }
        let hosts = match doc.need_text_list("hosts") {
            Ok(v) => v,
            Err(e) => return Err(e),
        };
        let methods = match doc.text_list("methods") {
            Ok(v) => v,
            Err(e) => return Err(e),
        };
        let path_globs = match doc.text_list("path_globs") {
            Ok(v) => v,
            Err(e) => return Err(e),
        };
        let provider = match doc.need_text("provider") {
            Ok(v) => v,
            Err(e) => return Err(e),
        };
        let asset_kind = match doc.need_text("asset_kind") {
            Ok(v) => v,
            Err(e) => return Err(e),
        };
        let surface = match doc.need_text("surface") {
            Ok(v) => v,
            Err(e) => return Err(e),
        };
        let success_status_class = match doc.opt_text("success_status_class", true) {
            Ok(v) => v,
            Err(e) => return Err(e),
        };
        let success_no_graphql_errors = match doc.flag("success_no_graphql_errors") {
            Ok(v) => v,
            Err(e) => return Err(e),
        };
        let graphql_operation = match doc.text_or_empty("graphql_operation") {
            Ok(v) => v,
            Err(e) => return Err(e),
        };
        let graphql_field = match doc.text_or_empty("graphql_field") {
            Ok(v) => v,
            Err(e) => return Err(e),
        };
        let data = match doc.pair_list("data") {
            Ok(v) => v,
            Err(e) => return Err(e),
        };
        let fetchable = match doc.opt_text("fetchable", true) {
            Ok(v) => v,
            Err(e) => return Err(e),
        };
        let url_fallback = match decode_fallback(doc) {
            Ok(v) => v,
            Err(e) => return Err(e),
        };
        Ok(
            IntegrationObserve {
                hosts,
                methods,
                path_globs,
                provider,
                asset_kind,
                surface,
                success_status_class,
                success_no_graphql_errors,
                graphql_operation,
                graphql_field,
                data,
                fetchable,
                url_fallback,
            },
        )
    }
}

impl Decode for IntegrationPolicy {
    open spec fn decoded(t: crate::document::Tree) -> Result<PolicyView, Seq<char>> {
        let t = t.in_order(
            seq!["injects"@, "observes"@, "network"@, "secrets"@],
            0,
        );
        let shape = t.table("policy"@);
        let injects = crate::document::decoded_list::<IntegrationInject>(t, "injects"@);
        let observes = crate::document::decoded_list::<IntegrationObserve>(t, "observes"@);
        let network = decoded_network(t);
        let secrets = crate::document::decoded_list::<IntegrationSecret>(t, "secrets"@);
        match crate::document::earlier(
            crate::document::earlier(
                crate::document::earlier(
                    crate::document::earlier(
                        crate::document::error_of(shape),
                        crate::document::error_of(injects),
                    ),
                    crate::document::error_of(observes),
                ),
                crate::document::error_of(network),
            ),
            crate::document::error_of(secrets),
        ) {
            Some(e) => Err(e),
            None => Ok(
                PolicyView {
                    injects: injects->Ok_0,
                    observes: observes->Ok_0,
                    network: network->Ok_0,
                    secrets: secrets->Ok_0,
                },
            ),
        }
    }

    fn decode(doc: &Value) -> (res: Result<IntegrationPolicy, String>) {
        let order: [&str; 4] = ["injects", "observes", "network", "secrets"];
        let names = order.as_slice();
        assert(names.deep_view() =~= seq!["injects"@, "observes"@, "network"@, "secrets"@]);
        let table = doc.in_order(names, 0);
        let doc = &table;
        if let Err(e) = doc.check_kind("policy") {
            return Err(e);
        }
        let injects = match decode_list::<IntegrationInject>(doc, "injects") {
            Ok(v) => v,
            Err(e) => return Err(e),
        };
        let observes = match decode_list::<IntegrationObserve>(doc, "observes") {
            Ok(v) => v,
            Err(e) => return Err(e),
        };
        let network = match decode_network(doc) {
            Ok(v) => v,
            Err(e) => return Err(e),
        };
        let secrets = match decode_list::<IntegrationSecret>(doc, "secrets") {
            Ok(v) => v,
            Err(e) => return Err(e),
        };
        Ok(
            IntegrationPolicy {
                injects,
                observes,
                network,
                secrets,
            },
        )
    }
}

impl Encode for NetworkPolicy {
    open spec fn tree(v: NetworkView) -> crate::document::Tree {
        crate::document::Tree::Table(
            seq![
                crate::document::named(
                    "default"@,
                    crate::document::Tree::Text(v.default.name()),
                ),
                crate::document::named(
                    "allow_hosts"@,
                    crate::document::texts_tree(v.allow_hosts),
                ),
                crate::document::named(
                    "allow_host_patterns"@,
                    crate::document::texts_tree(v.allow_host_patterns),
                ),
            ],
        )
    }

    open spec fn depth() -> nat {
        3
    }

    fn encode(&self) -> (res: Value) {
        let mut members: Vec<Member> = Vec::new();
        members.push(member("default", Value::Text(self.default.as_str().to_owned())));
        members.push(member("allow_hosts", texts_value(&self.allow_hosts)));
        members.push(member("allow_host_patterns", texts_value(&self.allow_host_patterns)));
        assert(crate::document::table_view(members@) =~= NetworkPolicy::tree(self@)->Table_0);
        Value::Table(members)
    }

    proof fn is_read_back(v: NetworkView) {
        reveal_strlit("default");
        reveal_strlit("allow_hosts");
        reveal_strlit("allow_host_patterns");
        assert("default"@.len() == 7);
        assert("allow_hosts"@.len() == 11);
        assert("allow_host_patterns"@.len() == 19);
        let t = NetworkPolicy::tree(v);
        let members = t->Table_0;
        assert(crate::document::distinct_names(members));
        crate::document::distinct_member_is_found(members, 0);
        crate::document::distinct_member_is_found(members, 1);
        crate::document::distinct_member_is_found(members, 2);
        crate::document::texts_are_read_back(t, "allow_hosts"@, v.allow_hosts);
        crate::document::plain_within(crate::document::texts_tree(v.allow_hosts), 2, 2);
        crate::document::texts_are_read_back(t, "allow_host_patterns"@, v.allow_host_patterns);
        crate::document::plain_within(crate::document::texts_tree(v.allow_host_patterns), 2, 2);
        reveal_strlit("allow");
        reveal_strlit("deny");
        assert("allow"@.len() == 5);
        assert("deny"@.len() == 4);
        assert(crate::document::stranger(
            members,
            seq!["default"@, "allow_hosts"@, "allow_host_patterns"@],
            0,
        ) is None) by {
            let allowed = seq!["default"@, "allow_hosts"@, "allow_host_patterns"@];
            assert(allowed[0] == members[0].key && allowed[1] == members[1].key && allowed[2]
                == members[2].key);
            reveal_with_fuel(crate::document::stranger, 4);
        }
        assert forall|i: int| 0 <= i < members.len() implies crate::document::plain(
            (#[trigger] members[i]).value,
            2,
        ) by {
        }
    }
}

impl Encode for IntegrationSecret {
    open spec fn tree(v: SecretView) -> crate::document::Tree {
        crate::document::Tree::Table(
            seq![
                crate::document::named(
                    "secret_ref"@,
                    crate::document::Tree::Text(v.secret_ref),
                ),
                crate::document::named(
                    "env_var"@,
                    crate::document::Tree::Text(v.env_var),
                ),
                crate::document::named(
                    "mode"@,
                    crate::document::Tree::Text(v.mode.name()),
                ),
                crate::document::named(
                    "allow_hosts"@,
                    crate::document::texts_tree(v.allow_hosts),
                ),
                crate::document::named(
                    "allow_host_patterns"@,
                    crate::document::texts_tree(v.allow_host_patterns),
                ),
            ],
        )
    }

    open spec fn depth() -> nat {
        3
    }

    fn encode(&self) -> (res: Value) {
        let mut members: Vec<Member> = Vec::new();
        members.push(member("secret_ref", Value::Text(self.secret_ref.clone())));
        members.push(member("env_var", Value::Text(self.env_var.clone())));
        members.push(member("mode", Value::Text(self.mode.as_str().to_owned())));
        members.push(member("allow_hosts", texts_value(&self.allow_hosts)));
        members.push(member("allow_host_patterns", texts_value(&self.allow_host_patterns)));
        assert(crate::document::table_view(members@) =~= IntegrationSecret::tree(self@)->Table_0);
        Value::Table(members)
    }

    proof fn is_read_back(v: SecretView) {
        reveal_strlit("secret_ref");
        reveal_strlit("env_var");
        reveal_strlit("mode");
        reveal_strlit("allow_hosts");
        reveal_strlit("allow_host_patterns");
        assert("secret_ref"@.len() == 10);
        assert("env_var"@.len() == 7);
        assert("mode"@.len() == 4);
        assert("allow_hosts"@.len() == 11);
        assert("allow_host_patterns"@.len() == 19);
        let t = IntegrationSecret::tree(v);
        let members = t->Table_0;
        assert(crate::document::distinct_names(members));
        crate::document::distinct_member_is_found(members, 0);
        crate::document::distinct_member_is_found(members, 1);
        crate::document::distinct_member_is_found(members, 2);
        crate::document::distinct_member_is_found(members, 3);
        crate::document::distinct_member_is_found(members, 4);
        crate::document::texts_are_read_back(t, "allow_hosts"@, v.allow_hosts);
        crate::document::plain_within(crate::document::texts_tree(v.allow_hosts), 2, 2);
        crate::document::texts_are_read_back(t, "allow_host_patterns"@, v.allow_host_patterns);
        crate::document::plain_within(crate::document::texts_tree(v.allow_host_patterns), 2, 2);
        reveal_strlit("literal");
        reveal_strlit("broker");
        assert("literal"@.len() == 7);
        assert("broker"@.len() == 6);
        assert forall|i: int| 0 <= i < members.len() implies crate::document::plain(
            (#[trigger] members[i]).value,
            2,
        ) by {
        }
    }
}

impl Encode for IntegrationInject {
    open spec fn tree(v: InjectView) -> crate::document::Tree {
        crate::document::Tree::Table(
            seq![
                crate::document::named(
                    "hosts"@,
                    crate::document::texts_tree(v.hosts),
                ),
                crate::document::named(
                    "header_name"@,
                    crate::document::Tree::Text(v.header_name),
                ),
                crate::document::named(
                    "header_template"@,
                    crate::document::Tree::Text(v.header_template),
                ),
                crate::document::named(
                    "secret_ref"@,
                    crate::document::Tree::Text(v.secret_ref),
                ),
                crate::document::named(
                    "mint_provider"@,
                    crate::document::Tree::Text(v.mint_provider),
                ),
                crate::document::named(
                    "methods"@,
                    crate::document::texts_tree(v.methods),
                ),
                crate::document::named(
                    "path_globs"@,
                    crate::document::texts_tree(v.path_globs),
                ),
                crate::document::named(
                    "graphql_operation"@,
                    crate::document::Tree::Text(v.graphql_operation),
                ),
                crate::document::named(
                    "graphql_field"@,
                    crate::document::Tree::Text(v.graphql_field),
                ),
            ],
        )
    }

    open spec fn depth() -> nat {
        3
    }

    fn encode(&self) -> (res: Value) {
        let mut members: Vec<Member> = Vec::new();
        members.push(member("hosts", texts_value(&self.hosts)));
        members.push(member("header_name", Value::Text(self.header_name.clone())));
        members.push(member("header_template", Value::Text(self.header_template.clone())));
        members.push(member("secret_ref", Value::Text(self.secret_ref.clone())));
        members.push(member("mint_provider", Value::Text(self.mint_provider.clone())));
        members.push(member("methods", texts_value(&self.methods)));
        members.push(member("path_globs", texts_value(&self.path_globs)));
        members.push(member("graphql_operation", Value::Text(self.graphql_operation.clone())));
        members.push(member("graphql_field", Value::Text(self.graphql_field.clone())));
        assert(crate::document::table_view(members@) =~= IntegrationInject::tree(self@)->Table_0);
        Value::Table(members)
    }

    proof fn is_read_back(v: InjectView) {
        reveal_strlit("hosts");
        reveal_strlit("header_name");
        reveal_strlit("header_template");
        reveal_strlit("secret_ref");
        reveal_strlit("mint_provider");
        reveal_strlit("methods");
        reveal_strlit("path_globs");
        reveal_strlit("graphql_operation");
        reveal_strlit("graphql_field");
        assert("hosts"@.len() == 5);
        assert("header_name"@.len() == 11);
        assert("header_template"@.len() == 15);
        assert("secret_ref"@.len() == 10);
        assert("mint_provider"@.len() == 13);
        assert("methods"@.len() == 7);
        assert("path_globs"@.len() == 10);
        assert("graphql_operation"@.len() == 17);
        assert("graphql_field"@.len() == 13);
        assert("secret_ref"@[0] != "path_globs"@[0]);
        assert("mint_provider"@[0] != "graphql_field"@[0]);
        let t = IntegrationInject::tree(v);
        let members = t->Table_0;
        assert(crate::document::distinct_names(members));
        crate::document::distinct_member_is_found(members, 0);
        crate::document::distinct_member_is_found(members, 1);
        crate::document::distinct_member_is_found(members, 2);
        crate::document::distinct_member_is_found(members, 3);
        crate::document::distinct_member_is_found(members, 4);
        crate::document::distinct_member_is_found(members, 5);
        crate::document::distinct_member_is_found(members, 6);
        crate::document::distinct_member_is_found(members, 7);
        crate::document::distinct_member_is_found(members, 8);
        crate::document::texts_are_read_back(t, "hosts"@, v.hosts);
        crate::document::plain_within(crate::document::texts_tree(v.hosts), 2, 2);
        crate::document::texts_are_read_back(t, "methods"@, v.methods);
        crate::document::plain_within(crate::document::texts_tree(v.methods), 2, 2);
        crate::document::texts_are_read_back(t, "path_globs"@, v.path_globs);
        crate::document::plain_within(crate::document::texts_tree(v.path_globs), 2, 2);
        assert forall|i: int| 0 <= i < members.len() implies crate::document::plain(
            (#[trigger] members[i]).value,
            2,
        ) by {
        }
    }
}

impl Encode for ObserveUrlFallback {
    open spec fn tree(v: FallbackView) -> crate::document::Tree {
        crate::document::Tree::Table(
            seq![
                crate::document::named(
                    "pattern"@,
                    crate::document::Tree::Text(v.pattern),
                ),
                crate::document::named(
                    "fields"@,
                    crate::document::pairs_tree(v.fields),
                ),
            ],
        )
    }

    open spec fn depth() -> nat {
        4
    }

    fn encode(&self) -> (res: Value) {
        let mut members: Vec<Member> = Vec::new();
        members.push(member("pattern", Value::Text(self.pattern.clone())));
        members.push(member("fields", pairs_value(&self.fields)));
        assert(crate::document::table_view(members@) =~= ObserveUrlFallback::tree(self@)->Table_0);
        Value::Table(members)
    }

    proof fn is_read_back(v: FallbackView) {
        reveal_strlit("pattern");
        reveal_strlit("fields");
        assert("pattern"@.len() == 7);
        assert("fields"@.len() == 6);
        let t = ObserveUrlFallback::tree(v);
        let members = t->Table_0;
        assert(crate::document::distinct_names(members));
        crate::document::distinct_member_is_found(members, 0);
        crate::document::distinct_member_is_found(members, 1);
        crate::document::pairs_are_read_back(t, "fields"@, v.fields);
        crate::document::plain_within(crate::document::pairs_tree(v.fields), 3, 3);
        assert forall|i: int| 0 <= i < members.len() implies crate::document::plain(
            (#[trigger] members[i]).value,
            3,
        ) by {
        }
    }
}

impl Encode for IntegrationObserve {
    open spec fn tree(v: ObserveView) -> crate::document::Tree {
        crate::document::Tree::Table(
            seq![
                crate::document::named(
                    "hosts"@,
                    crate::document::texts_tree(v.hosts),
                ),
                crate::document::named(
                    "methods"@,
                    crate::document::texts_tree(v.methods),
                ),
                crate::document::named(
                    "path_globs"@,
                    crate::document::texts_tree(v.path_globs),
                ),
                crate::document::named(
                    "provider"@,
                    crate::document::Tree::Text(v.provider),
                ),
                crate::document::named(
                    "asset_kind"@,
                    crate::document::Tree::Text(v.asset_kind),
                ),
                crate::document::named(
                    "surface"@,
                    crate::document::Tree::Text(v.surface),
                ),
                crate::document::named(
                    "success_status_class"@,
                    crate::document::text_tree(v.success_status_class),
                ),
                crate::document::named(
                    "success_no_graphql_errors"@,
                    crate::document::Tree::Bool(v.success_no_graphql_errors),
                ),
                crate::document::named(
                    "graphql_operation"@,
                    crate::document::Tree::Text(v.graphql_operation),
                ),
                crate::document::named(
                    "graphql_field"@,
                    crate::document::Tree::Text(v.graphql_field),
                ),
                crate::document::named(
                    "data"@,
                    crate::document::pairs_tree(v.data),
                ),
                crate::document::named(
                    "fetchable"@,
                    crate::document::text_tree(v.fetchable),
                ),
                crate::document::named(
                    "url_fallback"@,
                    match v.url_fallback {
                        Some(x) => ObserveUrlFallback::tree(x),
                        None => crate::document::Tree::Null,
                    },
                ),
            ],
        )
    }

    open spec fn depth() -> nat {
        5
    }

    fn encode(&self) -> (res: Value) {
        let url_fallback = match &self.url_fallback {
            Some(x) => x.encode(),
            None => Value::Null,
        };
        let mut members: Vec<Member> = Vec::new();
        members.push(member("hosts", texts_value(&self.hosts)));
        members.push(member("methods", texts_value(&self.methods)));
        members.push(member("path_globs", texts_value(&self.path_globs)));
        members.push(member("provider", Value::Text(self.provider.clone())));
        members.push(member("asset_kind", Value::Text(self.asset_kind.clone())));
        members.push(member("surface", Value::Text(self.surface.clone())));
        members.push(member("success_status_class", text_value(&self.success_status_class)));
        members.push(member("success_no_graphql_errors", Value::Bool(self.success_no_graphql_errors)));
        members.push(member("graphql_operation", Value::Text(self.graphql_operation.clone())));
        members.push(member("graphql_field", Value::Text(self.graphql_field.clone())));
        members.push(member("data", pairs_value(&self.data)));
        members.push(member("fetchable", text_value(&self.fetchable)));
        members.push(member("url_fallback", url_fallback));
        assert(crate::document::table_view(members@) =~= IntegrationObserve::tree(self@)->Table_0);
        Value::Table(members)
    }

    proof fn is_read_back(v: ObserveView) {
        reveal_strlit("hosts");
        reveal_strlit("methods");
        reveal_strlit("path_globs");
        reveal_strlit("provider");
        reveal_strlit("asset_kind");
        reveal_strlit("surface");
        reveal_strlit("success_status_class");
        reveal_strlit("success_no_graphql_errors");
        reveal_strlit("graphql_operation");
        reveal_strlit("graphql_field");
        reveal_strlit("data");
        reveal_strlit("fetchable");
        reveal_strlit("url_fallback");
        assert("hosts"@.len() == 5);
        assert("methods"@.len() == 7);
        assert("path_globs"@.len() == 10);
        assert("provider"@.len() == 8);
        assert("asset_kind"@.len() == 10);
        assert("surface"@.len() == 7);
        assert("success_status_class"@.len() == 20);
        assert("success_no_graphql_errors"@.len() == 25);
        assert("graphql_operation"@.len() == 17);
        assert("graphql_field"@.len() == 13);
        assert("data"@.len() == 4);
        assert("fetchable"@.len() == 9);
        assert("url_fallback"@.len() == 12);
        assert("methods"@[0] != "surface"@[0]);
        assert("path_globs"@[0] != "asset_kind"@[0]);
        let t = IntegrationObserve::tree(v);
        let members = t->Table_0;
        assert(crate::document::distinct_names(members));
        crate::document::distinct_member_is_found(members, 0);
        crate::document::distinct_member_is_found(members, 1);
        crate::document::distinct_member_is_found(members, 2);
        crate::document::distinct_member_is_found(members, 3);
        crate::document::distinct_member_is_found(members, 4);
        crate::document::distinct_member_is_found(members, 5);
        crate::document::distinct_member_is_found(members, 6);
        crate::document::distinct_member_is_found(members, 7);
        crate::document::distinct_member_is_found(members, 8);
        crate::document::distinct_member_is_found(members, 9);
        crate::document::distinct_member_is_found(members, 10);
        crate::document::distinct_member_is_found(members, 11);
        crate::document::distinct_member_is_found(members, 12);
        crate::document::texts_are_read_back(t, "hosts"@, v.hosts);
        crate::document::plain_within(crate::document::texts_tree(v.hosts), 2, 4);
        crate::document::texts_are_read_back(t, "methods"@, v.methods);
        crate::document::plain_within(crate::document::texts_tree(v.methods), 2, 4);
        crate::document::texts_are_read_back(t, "path_globs"@, v.path_globs);
        crate::document::plain_within(crate::document::texts_tree(v.path_globs), 2, 4);
        crate::document::pairs_are_read_back(t, "data"@, v.data);
        crate::document::plain_within(crate::document::pairs_tree(v.data), 3, 4);
        if v.url_fallback is Some {
            ObserveUrlFallback::is_read_back(v.url_fallback->0);
            crate::document::plain_within(ObserveUrlFallback::tree(v.url_fallback->0), ObserveUrlFallback::depth(), 4);
        }
        assert forall|i: int| 0 <= i < members.len() implies crate::document::plain(
            (#[trigger] members[i]).value,
            4,
        ) by {
        }
    }
}

impl Encode for IntegrationPolicy {
    open spec fn tree(v: PolicyView) -> crate::document::Tree {
        crate::document::Tree::Table(
            seq![
                crate::document::named(
                    "injects"@,
                    crate::document::list_tree::<IntegrationInject>(v.injects),
                ),
                crate::document::named(
                    "observes"@,
                    crate::document::list_tree::<IntegrationObserve>(v.observes),
                ),
                crate::document::named(
                    "network"@,
                    NetworkPolicy::tree(v.network),
                ),
                crate::document::named(
                    "secrets"@,
                    crate::document::list_tree::<IntegrationSecret>(v.secrets),
                ),
            ],
        )
    }

    open spec fn depth() -> nat {
        7
    }

    fn encode(&self) -> (res: Value) {
        let mut members: Vec<Member> = Vec::new();
        members.push(member("injects", encode_list(&self.injects)));
        members.push(member("observes", encode_list(&self.observes)));
        members.push(member("network", self.network.encode()));
        members.push(member("secrets", encode_list(&self.secrets)));
        assert(crate::document::table_view(members@) =~= IntegrationPolicy::tree(self@)->Table_0);
        Value::Table(members)
    }

    proof fn is_read_back(v: PolicyView) {
        reveal_strlit("injects");
        reveal_strlit("observes");
        reveal_strlit("network");
        reveal_strlit("secrets");
        assert("injects"@.len() == 7);
        assert("observes"@.len() == 8);
        assert("network"@.len() == 7);
        assert("secrets"@.len() == 7);
        assert("injects"@[0] != "network"@[0]);
        assert("injects"@[0] != "secrets"@[0]);
        assert("network"@[0] != "secrets"@[0]);
        let t = IntegrationPolicy::tree(v);
        let members = t->Table_0;
        assert(crate::document::distinct_names(members));
        crate::document::distinct_member_is_found(members, 0);
        crate::document::distinct_member_is_found(members, 1);
        crate::document::distinct_member_is_found(members, 2);
        crate::document::distinct_member_is_found(members, 3);
        crate::document::list_is_read_back::<IntegrationInject>(t, "injects"@, v.injects);
        crate::document::plain_within(crate::document::list_tree::<IntegrationInject>(v.injects), IntegrationInject::depth() + 1, 6);
        crate::document::list_is_read_back::<IntegrationObserve>(t, "observes"@, v.observes);
        crate::document::plain_within(crate::document::list_tree::<IntegrationObserve>(v.observes), IntegrationObserve::depth() + 1, 6);
        NetworkPolicy::is_read_back(v.network);
        crate::document::plain_within(NetworkPolicy::tree(v.network), NetworkPolicy::depth(), 6);
        crate::document::list_is_read_back::<IntegrationSecret>(t, "secrets"@, v.secrets);
        crate::document::plain_within(crate::document::list_tree::<IntegrationSecret>(v.secrets), IntegrationSecret::depth() + 1, 6);
        assert forall|i: int| 0 <= i < members.len() implies crate::document::plain(
            (#[trigger] members[i]).value,
            6,
        ) by {
        }
    }
}

impl PolicyView {
    /// The policy that a text stands for: none for a blank one.
    pub open spec fn parsed(text: Seq<char>) -> Result<Option<PolicyView>, Seq<char>> {
        if crate::text::blank(text) {
            Ok(None)
        } else {
            match crate::document::json_read(text) {
                Err(e) => Err(e),
                Ok(t) => match IntegrationPolicy::decoded(t) {
                    Ok(p) => Ok(Some(p)),
                    Err(e) => Err(e),
                },
            }
        }
    }

    /// The policy of a session for which nothing was said.
    pub open spec fn nothing() -> PolicyView {
        PolicyView {
            injects: Seq::empty(),
            observes: Seq::empty(),
            network: closed_network(),
            secrets: Seq::empty(),
        }
    }
}

/// What an optional policy stands for.
pub open spec fn policy_view(p: Option<IntegrationPolicy>) -> Option<PolicyView> {
    match p {
        Some(p) => Some(p@),
        None => None,
    }
}

impl IntegrationPolicy {
    /// Reads a policy from JSON. A blank text is no policy. A name that is not known is skipped;
    /// of a name that is repeated, the last value counts.
    pub fn parse(json: &str) -> (res: Result<Option<IntegrationPolicy>, String>)
        ensures
            res is Ok <==> PolicyView::parsed(json@) is Ok,
            res is Ok ==> PolicyView::parsed(json@)->Ok_0 == policy_view(res->Ok_0),
            res is Err ==> PolicyView::parsed(json@)->Err_0 == res->Err_0@,
            forall|p: PolicyView|
                json@ == crate::document::json_written(#[trigger] IntegrationPolicy::tree(p))
                    ==> res is Ok && policy_view(res->Ok_0) == Some(p),
    {
        let read = read_json(json);
        proof {
            assert forall|p: PolicyView| json@ == crate::document::json_written(
                #[trigger] IntegrationPolicy::tree(p),
            ) implies !crate::text::blank(json@) && PolicyView::parsed(json@) == Ok::<
                Option<PolicyView>,
                Seq<char>,
            >(Some(p)) by {
                IntegrationPolicy::is_read_back(p);
                crate::document::plain_within(IntegrationPolicy::tree(p), 7, 100);
            }
        }
        if is_blank(json) {
            return Ok(None);
        }
        match read {
            Err(e) => Err(e),
            Ok(doc) => match IntegrationPolicy::decode(&doc) {
                Ok(p) => Ok(Some(p)),
                Err(e) => Err(e),
            },
        }
    }

    /// Writes the policy as JSON. What is written is read back by `parse`.
    pub fn to_json(&self) -> (res: String)
        ensures
            res@ == crate::document::json_written(IntegrationPolicy::tree(self@)),
    {
        let doc = self.encode();
        proof {
            IntegrationPolicy::is_read_back(self@);
            crate::document::plain_within(IntegrationPolicy::tree(self@), 7, 100);
        }
        write_json(&doc)
    }
}

/// `list` with those of `more` that it does not have, in their order.
pub open spec fn with_missing(list: Seq<Seq<char>>, more: Seq<Seq<char>>) -> Seq<Seq<char>>
    decreases more.len(),
{
    if more.len() == 0 {
        list
    } else {
        let most = with_missing(list, more.drop_last());
        if most.contains(more.last()) {
            most
        } else {
            most.push(more.last())
        }
    }
}

/// Appends those of `more` that `list` does not have.
fn add_missing(list: &mut Vec<String>, more: &Vec<String>)
    ensures
        final(list).deep_view() == with_missing(old(list).deep_view(), more.deep_view()),
{
    let ghost before = list.deep_view();
    let ghost all = more.deep_view();
    let mut i: usize = 0;
    assert(all.take(0) =~= Seq::empty());
    while i < more.len()
        invariant
            i <= more@.len(),
            all == more.deep_view(),
            list.deep_view() == with_missing(before, all.take(i as int)),
        decreases more.len() - i,
    {
        assert(all.take(i + 1).drop_last() =~= all.take(i as int));
        assert(all.take(i + 1).last() == more@[i as int]@);
        let ghost most = list.deep_view();
        let mut found = false;
        let mut j: usize = 0;
        while j < list.len()
            invariant
                j <= list@.len(),
                i < more@.len(),
                most == list.deep_view(),
                found == exists|k: int| 0 <= k < j && #[trigger] most[k] == more@[i as int]@,
            decreases list.len() - j,
        {
            assert(most[j as int] == list@[j as int]@);
            if same(list[j].as_str(), more[i].as_str()) {
                found = true;
            }
            j += 1;
        }
        assert(found == most.contains(more@[i as int]@));
        if !found {
            list.push(more[i].clone());
            assert(list.deep_view() =~= most.push(more@[i as int]@));
        }
        i += 1;
    }
    assert(all.take(i as int) =~= all);
}

/// The policy of a session whose harness needs these hosts.
pub open spec fn merged(
    policy: Option<PolicyView>,
    hosts: Seq<Seq<char>>,
    patterns: Seq<Seq<char>>,
) -> Option<PolicyView> {
    let base = match policy {
        Some(p) => p,
        None => PolicyView::nothing(),
    };
    if hosts.len() == 0 && patterns.len() == 0 {
        policy
    } else if base.network.default is Allow {
        Some(base)
    } else {
        Some(
            PolicyView {
                network: NetworkView {
                    allow_hosts: with_missing(base.network.allow_hosts, hosts),
                    allow_host_patterns: with_missing(
                        base.network.allow_host_patterns,
                        patterns,
                    ),
                    ..base.network
                },
                ..base
            },
        )
    }
}

/// Adds the hosts that the harness needs to the policy of a session. Nothing changes where the
/// harness needs none, or where every host may be reached; without a policy one is made that
/// allows just these hosts.
pub fn merge_harness_egress(policy: Option<IntegrationPolicy>, egress: &HarnessEgress) -> (res:
    Option<IntegrationPolicy>)
    ensures
        policy_view(res) == merged(
            policy_view(policy),
            egress@.allow_hosts,
            egress@.allow_host_patterns,
        ),
{
    if egress.is_empty() {
        return policy;
    }
    let mut policy = match policy {
        Some(p) => p,
        None => {
            let p = IntegrationPolicy {
                injects: Vec::new(),
                observes: Vec::new(),
                network: new_closed_network(),
                secrets: Vec::new(),
            };
            assert(p@.injects =~= Seq::empty());
            assert(p@.observes =~= Seq::empty());
            assert(p@.secrets =~= Seq::empty());
            p
        },
    };
    if matches!(policy.network.default, NetworkDefault::Allow) {
        return Some(policy);
    }
    add_missing(&mut policy.network.allow_hosts, &egress.allow_hosts);
    add_missing(&mut policy.network.allow_host_patterns, &egress.allow_host_patterns);
    Some(policy)
}

/// What [`with_missing`] holds: the list as it was, then further entries; everything that was
/// to be added; nothing else; and nothing twice that was not there twice.
pub proof fn with_missing_spec(list: Seq<Seq<char>>, more: Seq<Seq<char>>)
    ensures
        list.is_prefix_of(with_missing(list, more)),
        forall|x: Seq<char>|
            with_missing(list, more).contains(x) <==> list.contains(x) || more.contains(x),
        list.no_duplicates() ==> with_missing(list, more).no_duplicates(),
    decreases more.len(),
{
    let all = with_missing(list, more);
    if more.len() == 0 {
        assert(list.subrange(0, list.len() as int) =~= list);
    } else {
        let init = more.drop_last();
        let last = more.last();
        let most = with_missing(list, init);
        with_missing_spec(list, init);
        assert(most.subrange(0, list.len() as int) =~= list);
        assert(all.subrange(0, list.len() as int) =~= list);
        assert forall|x: Seq<char>| more.contains(x) <==> init.contains(x) || x == last by {
            if init.contains(x) {
                let i = choose|i: int| 0 <= i < init.len() && init[i] == x;
                assert(more[i] == x);
            }
            if x == last {
                assert(more[more.len() - 1] == x);
            }
            if more.contains(x) {
                let i = choose|i: int| 0 <= i < more.len() && more[i] == x;
                if i < init.len() {
                    assert(init[i] == x);
                }
            }
        }
        assert forall|x: Seq<char>| all.contains(x) <==> most.contains(x) || x == last by {
            if most.contains(x) {
                let i = choose|i: int| 0 <= i < most.len() && most[i] == x;
                assert(all[i] == x);
            }
            if x == last && !most.contains(last) {
                assert(all[most.len() as int] == x);
            }
            if all.contains(x) {
                let i = choose|i: int| 0 <= i < all.len() && all[i] == x;
                if i < most.len() {
                    assert(most[i] == x);
                }
            }
        }
        if list.no_duplicates() && !most.contains(last) {
            assert forall|i: int, j: int| 0 <= i < all.len() && 0 <= j < all.len() && i
                != j implies all[i] != all[j] by {
                if i < most.len() {
                    assert(most.contains(most[i]));
                }
                if j < most.len() {
                    assert(most.contains(most[j]));
                }
            }
        }
    }
}

/// Nothing is added that is there.
proof fn nothing_is_missing(list: Seq<Seq<char>>, more: Seq<Seq<char>>)
    requires
        forall|x: Seq<char>| more.contains(x) ==> list.contains(x),
    ensures
        with_missing(list, more) == list,
    decreases more.len(),
{
    if more.len() > 0 {
        let init = more.drop_last();
        assert forall|x: Seq<char>| init.contains(x) implies list.contains(x) by {
            let i = choose|i: int| 0 <= i < init.len() && init[i] == x;
            assert(more[i] == x);
        }
        nothing_is_missing(list, init);
        assert(more[more.len() - 1] == more.last());
    }
}

/// After the merge a session may reach every host that its harness needs: it is named, or every
/// host may be reached.
pub proof fn harness_hosts_are_allowed(
    policy: Option<PolicyView>,
    hosts: Seq<Seq<char>>,
    patterns: Seq<Seq<char>>,
    host: Seq<char>,
)
    requires
        hosts.contains(host) || patterns.contains(host),
    ensures
        ({
            let after = merged(policy, hosts, patterns);
            &&& after is Some
            &&& after->0.network.default is Allow || (hosts.contains(host)
                ==> after->0.network.allow_hosts.contains(host)) && (patterns.contains(host)
                ==> after->0.network.allow_host_patterns.contains(host))
        }),
{
    let base = match policy {
        Some(p) => p,
        None => PolicyView::nothing(),
    };
    with_missing_spec(base.network.allow_hosts, hosts);
    with_missing_spec(base.network.allow_host_patterns, patterns);
}

/// Merging changes nothing but the named hosts, and takes none away.
pub proof fn merging_only_adds_hosts(
    policy: PolicyView,
    hosts: Seq<Seq<char>>,
    patterns: Seq<Seq<char>>,
)
    ensures
        ({
            let after = merged(Some(policy), hosts, patterns);
            &&& after is Some
            &&& after->0.injects == policy.injects
            &&& after->0.observes == policy.observes
            &&& after->0.secrets == policy.secrets
            &&& after->0.network.default == policy.network.default
            &&& policy.network.allow_hosts.is_prefix_of(after->0.network.allow_hosts)
            &&& policy.network.allow_host_patterns.is_prefix_of(
                after->0.network.allow_host_patterns,
            )
        }),
{
    with_missing_spec(policy.network.allow_hosts, hosts);
    with_missing_spec(policy.network.allow_host_patterns, patterns);
    let h = policy.network.allow_hosts;
    let p = policy.network.allow_host_patterns;
    assert(h =~= h.subrange(0, h.len() as int));
    assert(p =~= p.subrange(0, p.len() as int));
}

/// Merging twice is merging once.
pub proof fn merging_is_idempotent(
    policy: Option<PolicyView>,
    hosts: Seq<Seq<char>>,
    patterns: Seq<Seq<char>>,
)
    ensures
        merged(merged(policy, hosts, patterns), hosts, patterns) == merged(policy, hosts, patterns),
{
    let base = match policy {
        Some(p) => p,
        None => PolicyView::nothing(),
    };
    with_missing_spec(base.network.allow_hosts, hosts);
    with_missing_spec(base.network.allow_host_patterns, patterns);
    nothing_is_missing(with_missing(base.network.allow_hosts, hosts), hosts);
    nothing_is_missing(with_missing(base.network.allow_host_patterns, patterns), patterns);
}

/// A network is what stands under its names, and has no others.
pub proof fn networks_are_read_by_name(t: crate::document::Tree, v: NetworkView)
    requires
        t is Table,
    ensures
        NetworkPolicy::decoded(t) == Ok::<NetworkView, Seq<char>>(v) <==> {
            &&& crate::document::names_only(
                t,
                seq!["default"@, "allow_hosts"@, "allow_host_patterns"@],
            )
            &&& crate::document::says_texts(t, "allow_hosts"@, v.allow_hosts)
            &&& crate::document::says_texts(t, "allow_host_patterns"@, v.allow_host_patterns)
            &&& (t.member("default"@) is None && v.default == NetworkDefault::Deny)
                || (t.member("default"@) is Some && t.member("default"@)->0.bare_name() == Some(
                    if v.default == NetworkDefault::Allow {
                        "allow"@
                    } else {
                        "deny"@
                    },
                ))
        },
{
    reveal_strlit("allow");
    reveal_strlit("deny");
    assert("allow"@.len() == 5 && "deny"@.len() == 4);
    crate::document::strangers_are_refused(
        t,
        "network"@,
        seq!["default"@, "allow_hosts"@, "allow_host_patterns"@],
    );
    crate::document::texts_are_read_in_place(t, "allow_hosts"@, v.allow_hosts);
    crate::document::texts_are_read_in_place(t, "allow_host_patterns"@, v.allow_host_patterns);
}

/// A secret is what stands under its names.
pub proof fn secrets_are_read_by_name(t: crate::document::Tree, v: SecretView)
    requires
        t is Table,
    ensures
        IntegrationSecret::decoded(t) == Ok::<SecretView, Seq<char>>(v) <==> {
            &&& t.member("secret_ref"@) == Some(crate::document::Tree::Text(v.secret_ref))
            &&& t.member("env_var"@) == Some(crate::document::Tree::Text(v.env_var))
            &&& crate::document::says_texts(t, "allow_hosts"@, v.allow_hosts)
            &&& crate::document::says_texts(t, "allow_host_patterns"@, v.allow_host_patterns)
            &&& (t.member("mode"@) is None && v.mode == SecretMode::Literal)
                || (t.member("mode"@) is Some && t.member("mode"@)->0.bare_name() == Some(
                    if v.mode == SecretMode::Literal {
                        "literal"@
                    } else {
                        "broker"@
                    },
                ))
        },
{
    reveal_strlit("literal");
    reveal_strlit("broker");
    assert("literal"@.len() == 7 && "broker"@.len() == 6);
    crate::document::texts_are_read_in_place(t, "allow_hosts"@, v.allow_hosts);
    crate::document::texts_are_read_in_place(t, "allow_host_patterns"@, v.allow_host_patterns);
}

/// A header to add is what stands under its names.
pub proof fn injects_are_read_by_name(t: crate::document::Tree, v: InjectView)
    requires
        t is Table,
    ensures
        IntegrationInject::decoded(t) == Ok::<InjectView, Seq<char>>(v) <==> {
            &&& crate::document::says_texts(t, "hosts"@, v.hosts) && t.member("hosts"@) is Some
            &&& t.member("header_name"@) == Some(crate::document::Tree::Text(v.header_name))
            &&& t.member("header_template"@) == Some(crate::document::Tree::Text(v.header_template))
            &&& crate::document::says_or_nothing(t, "secret_ref"@, v.secret_ref)
            &&& crate::document::says_or_nothing(t, "mint_provider"@, v.mint_provider)
            &&& crate::document::says_texts(t, "methods"@, v.methods)
            &&& crate::document::says_texts(t, "path_globs"@, v.path_globs)
            &&& crate::document::says_or_nothing(t, "graphql_operation"@, v.graphql_operation)
            &&& crate::document::says_or_nothing(t, "graphql_field"@, v.graphql_field)
        },
{
    crate::document::texts_are_read_in_place(t, "hosts"@, v.hosts);
    if v.secret_ref.len() == 0 {
        assert(v.secret_ref =~= Seq::empty());
    }
    if v.mint_provider.len() == 0 {
        assert(v.mint_provider =~= Seq::empty());
    }
    crate::document::texts_are_read_in_place(t, "methods"@, v.methods);
    crate::document::texts_are_read_in_place(t, "path_globs"@, v.path_globs);
    if v.graphql_operation.len() == 0 {
        assert(v.graphql_operation =~= Seq::empty());
    }
    if v.graphql_field.len() == 0 {
        assert(v.graphql_field =~= Seq::empty());
    }
}

/// A fallback is what stands under its names.
pub proof fn fallbacks_are_read_by_name(t: crate::document::Tree, v: FallbackView)
    requires
        t is Table,
    ensures
        ObserveUrlFallback::decoded(t) == Ok::<FallbackView, Seq<char>>(v) <==> {
            &&& t.member("pattern"@) == Some(crate::document::Tree::Text(v.pattern))
            &&& crate::document::says_pairs(t, "fields"@, v.fields) && t.member("fields"@) is Some
        },
{
    crate::document::pairs_are_read_in_place(t, "fields"@, v.fields);
}

/// What to report is what stands under its names.
#[verifier::rlimit(40)]
pub proof fn observes_are_read_by_name(t: crate::document::Tree, v: ObserveView)
    requires
        t is Table,
    ensures
        IntegrationObserve::decoded(t) == Ok::<ObserveView, Seq<char>>(v) <==> {
            &&& crate::document::says_texts(t, "hosts"@, v.hosts) && t.member("hosts"@) is Some
            &&& crate::document::says_texts(t, "methods"@, v.methods)
            &&& crate::document::says_texts(t, "path_globs"@, v.path_globs)
            &&& t.member("provider"@) == Some(crate::document::Tree::Text(v.provider))
            &&& t.member("asset_kind"@) == Some(crate::document::Tree::Text(v.asset_kind))
            &&& t.member("surface"@) == Some(crate::document::Tree::Text(v.surface))
            &&& crate::document::says(t, "success_status_class"@, v.success_status_class)
            &&& crate::document::says_flag(t, "success_no_graphql_errors"@, v.success_no_graphql_errors)
            &&& crate::document::says_or_nothing(t, "graphql_operation"@, v.graphql_operation)
            &&& crate::document::says_or_nothing(t, "graphql_field"@, v.graphql_field)
            &&& crate::document::says_pairs(t, "data"@, v.data)
            &&& crate::document::says(t, "fetchable"@, v.fetchable)
            &&& (v.url_fallback is None && (t.member("url_fallback"@) is None
                || t.member("url_fallback"@) == Some(crate::document::Tree::Null)))
                || (v.url_fallback is Some && t.member("url_fallback"@) is Some
                && !(t.member("url_fallback"@)->0 is Null)
                && ObserveUrlFallback::decoded(t.member("url_fallback"@)->0)
                == Ok::<FallbackView, Seq<char>>(v.url_fallback->0))
        },
{
    crate::document::texts_are_read_in_place(t, "hosts"@, v.hosts);
    crate::document::texts_are_read_in_place(t, "methods"@, v.methods);
    crate::document::texts_are_read_in_place(t, "path_globs"@, v.path_globs);
    if v.graphql_operation.len() == 0 {
        assert(v.graphql_operation =~= Seq::empty());
    }
    if v.graphql_field.len() == 0 {
        assert(v.graphql_field =~= Seq::empty());
    }
    crate::document::pairs_are_read_in_place(t, "data"@, v.data);
}

/// A policy is what stands under its names.
pub proof fn policies_are_read_by_name(t: crate::document::Tree, v: PolicyView)
    requires
        t is Table,
    ensures
        IntegrationPolicy::decoded(t) == Ok::<PolicyView, Seq<char>>(v) <==> {
            &&& crate::document::decoded_list::<IntegrationInject>(t, "injects"@)
                == Ok::<Seq<InjectView>, Seq<char>>(v.injects)
            &&& crate::document::decoded_list::<IntegrationObserve>(t, "observes"@)
                == Ok::<Seq<ObserveView>, Seq<char>>(v.observes)
            &&& crate::document::decoded_list::<IntegrationSecret>(t, "secrets"@)
                == Ok::<Seq<SecretView>, Seq<char>>(v.secrets)
            &&& (t.member("network"@) is None && v.network == closed_network())
                || (t.member("network"@) is Some && NetworkPolicy::decoded(t.member("network"@)->0)
                == Ok::<NetworkView, Seq<char>>(v.network))
        },
{
}

/// Merging adds nothing but what the harness needs; where every host may be reached, or the
/// harness needs none, it changes nothing.
pub proof fn merging_adds_no_more_than_needed(
    policy: PolicyView,
    hosts: Seq<Seq<char>>,
    patterns: Seq<Seq<char>>,
    x: Seq<char>,
)
    ensures
        ({
            let after = merged(Some(policy), hosts, patterns)->0;
            &&& after.network.allow_hosts.contains(x) ==> policy.network.allow_hosts.contains(x)
                || hosts.contains(x)
            &&& after.network.allow_host_patterns.contains(x)
                ==> policy.network.allow_host_patterns.contains(x) || patterns.contains(x)
            &&& policy.network.default == NetworkDefault::Allow ==> after == policy
            &&& hosts.len() == 0 && patterns.len() == 0 ==> after == policy
        }),
        merged(None, Seq::empty(), Seq::empty()) is None,
{
    with_missing_spec(policy.network.allow_hosts, hosts);
    with_missing_spec(policy.network.allow_host_patterns, patterns);
}

/// Without a policy the harness gets one of its own: every host is closed but those that it needs,
/// and there are no headers, no reports and no secrets.
pub proof fn a_policy_is_made_for_the_harness(hosts: Seq<Seq<char>>, patterns: Seq<Seq<char>>)
    requires
        hosts.len() > 0 || patterns.len() > 0,
    ensures
        ({
            let made = merged(None, hosts, patterns);
            &&& made is Some
            &&& made->0.network.default == NetworkDefault::Deny
            &&& made->0.injects.len() == 0
            &&& made->0.observes.len() == 0
            &&& made->0.secrets.len() == 0
            &&& forall|x: Seq<char>|
                made->0.network.allow_hosts.contains(x) <==> hosts.contains(x)
            &&& forall|x: Seq<char>|
                made->0.network.allow_host_patterns.contains(x) <==> patterns.contains(x)
            &&& made->0.network.allow_hosts.no_duplicates()
            &&& made->0.network.allow_host_patterns.no_duplicates()
        }),
{
    with_missing_spec(Seq::empty(), hosts);
    with_missing_spec(Seq::empty(), patterns);
}

/// What is new is appended in its order.
pub proof fn missing_entries_are_appended(list: Seq<Seq<char>>, more: Seq<Seq<char>>)
    requires
        more.no_duplicates(),
        forall|x: Seq<char>| more.contains(x) ==> !list.contains(x),
    ensures
        with_missing(list, more) == list + more,
    decreases more.len(),
{
    if more.len() == 0 {
        assert(list + more =~= list);
    } else {
        let init = more.drop_last();
        let last = more.last();
        assert forall|x: Seq<char>| init.contains(x) implies !list.contains(x) by {
            let i = choose|i: int| 0 <= i < init.len() && init[i] == x;
            assert(more[i] == x);
        }
        missing_entries_are_appended(list, init);
        assert(more[more.len() - 1] == last);
        let most = list + init;
        if most.contains(last) {
            let i = choose|i: int| 0 <= i < most.len() && most[i] == last;
            assert(more.contains(last));
            if i < list.len() {
                assert(list[i] == last);
                assert(list.contains(last));
            } else {
                assert(init[i - list.len()] == last);
                assert(more[i - list.len()] == last);
            }
            assert(false);
        }
        assert(with_missing(list, more) =~= list + more);
    }
}

/// A text that is blank is no policy; any other one is a policy where its document is one.
pub proof fn blank_texts_are_no_policy(text: Seq<char>)
    ensures
        crate::text::blank(text) ==> PolicyView::parsed(text)
            == Ok::<Option<PolicyView>, Seq<char>>(
            None,
        ),
        !crate::text::blank(text) && PolicyView::parsed(text) is Ok ==> {
            &&& PolicyView::parsed(text)->Ok_0 is Some
            &&& crate::document::json_read(text) is Ok
            &&& IntegrationPolicy::decoded(crate::document::json_read(text)->Ok_0) == Ok::<
                PolicyView,
                Seq<char>,
            >(PolicyView::parsed(text)->Ok_0->0)
        },
        !crate::text::blank(text) && crate::document::json_read(text) is Err ==> PolicyView::parsed(
            text,
        ) is Err,
        !crate::text::blank(text) && crate::document::json_read(text) is Ok
            && IntegrationPolicy::decoded(crate::document::json_read(text)->Ok_0) is Err
            ==> PolicyView::parsed(text) is Err,
{
}

} // verus!
