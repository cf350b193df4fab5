//! The configuration of an image: environment, resources, and the hook that warms it up.
use crate::document::{
    decode_list, encode_list, map_value, member, missing_text, number_value_32, number_value_64,
    present_members, read_json, read_toml, text_value, texts_value, write_json, write_toml,
    wrong_kind_text, Decode, Encode, Member, Value,
};
use crate::text::{clone_texts, is_blank, push_decimal, same, split_once};
use crate::text_map::TextMap;
use crate::time::Duration;
use vstd::prelude::*;
use vstd::string::*;

verus! {

/// The configuration of an image.
#[derive(Debug, Default, PartialEq, Eq)]
pub struct ImageConfig {
    pub name: String,
    pub description: Option<String>,
    /// Variables that every sandbox of the image gets.
    pub env: TextMap,
    /// The directory in which processes start.
    pub workdir: Option<String>,
    pub resources: ResourceHints,
    /// The hook that runs before the base snapshot is taken.
    pub warm: Option<WarmConfig>,
}

/// The hook that runs in the machine from which the base snapshot is taken. What it leaves
/// running is there in every session of the image.
#[derive(Debug, PartialEq, Eq)]
pub struct WarmConfig {
    pub command: Vec<String>,
    pub timeout_secs: Option<u64>,
    pub workdir: Option<String>,
    pub env: Vec<CaptureEnvEntry>,
    /// What the hook may reach; nothing, where this is absent.
    pub network: Option<NetworkPolicy>,
}

/// What the image itself declares: its variables and its directory.
#[derive(Clone, Debug, Default, PartialEq, Eq)]
pub struct OciRuntimeDefaults {
    pub env: TextMap,
    pub workdir: Option<String>,
}

/// A variable of the warm-up hook.
#[derive(Debug, PartialEq, Eq)]
pub struct CaptureEnvEntry {
    pub name: String,
    pub value: CaptureEnvValue,
}

/// The value of a variable of the warm-up hook.
#[derive(Debug, PartialEq, Eq)]
pub enum CaptureEnvValue {
    /// The value itself.
    Literal { value: String },
    /// The name of a secret that holds the value.
    SecretRef { secret_ref: String },
}

/// How secrets reach the guest.
#[derive(Clone, Copy, Debug, PartialEq, Eq, Structural)]
pub enum SecretMode {
    /// As plain variables; for development only.
    Literal,
    /// As placeholders that the egress proxy replaces.
    Broker,
}

impl SecretMode {
    /// The stable name.
    pub open spec fn name(self) -> Seq<char> {
        match self {
            SecretMode::Literal => "literal"@,
            SecretMode::Broker => "broker"@,
        }
    }

    /// The stable name.
    pub fn as_str(&self) -> (res: &'static str)
        ensures
            res@ == self.name(),
    {
        match self {
            SecretMode::Literal => "literal",
            SecretMode::Broker => "broker",
        }
    }

    /// The mode with the name `s`, if there is one.
    pub fn parse(s: &str) -> (res: Option<SecretMode>)
        ensures
            res is Some ==> res->0.name() == s@,
            res is None ==> forall|k: SecretMode| k.name() != s@,
    {
        if same(s, "literal") {
            Some(SecretMode::Literal)
        } else if same(s, "broker") {
            Some(SecretMode::Broker)
        } else {
            None
        }
    }
}

/// Different modes have different names.
pub proof fn secret_mode_names_differ(a: SecretMode, b: SecretMode)
    requires
        a.name() == b.name(),
    ensures
        a == b,
{
    reveal_strlit("literal");
    reveal_strlit("broker");
    assert("literal"@.len() == 7);
    assert("broker"@.len() == 6);
}

impl Default for SecretMode {
    fn default() -> (res: SecretMode)
        ensures
            res == SecretMode::Literal,
    {
        SecretMode::Literal
    }
}

/// A secret that an image needs.
#[derive(Clone, Debug, Default)]
pub struct SecretSchema {
    /// The hosts to which the secret may go.
    pub allow_hosts: Vec<String>,
    pub allow_host_patterns: Vec<String>,
    /// Whether a session cannot do without it.
    pub required: bool,
    pub description: Option<String>,
    /// Where the store finds it; its default place, where this is absent.
    pub secret_ref: Option<String>,
}

/// What holds for a host that no rule names.
#[derive(Clone, Copy, Debug, PartialEq, Eq, Structural)]
pub enum NetworkDefault {
    Allow,
    Deny,
}

impl NetworkDefault {
    /// The stable name.
    pub open spec fn name(self) -> Seq<char> {
        match self {
            NetworkDefault::Allow => "allow"@,
            NetworkDefault::Deny => "deny"@,
        }
    }

    /// The stable name.
    pub fn as_str(&self) -> (res: &'static str)
        ensures
            res@ == self.name(),
    {
        match self {
            NetworkDefault::Allow => "allow",
            NetworkDefault::Deny => "deny",
        }
    }

    /// The default with the name `s`, if there is one.
    pub fn parse(s: &str) -> (res: Option<NetworkDefault>)
        ensures
            res is Some ==> res->0.name() == s@,
            res is None ==> forall|k: NetworkDefault| k.name() != s@,
    {
        if same(s, "allow") {
            Some(NetworkDefault::Allow)
        } else if same(s, "deny") {
            Some(NetworkDefault::Deny)
        } else {
            None
        }
    }
}

/// Different defaults have different names.
pub proof fn network_default_names_differ(a: NetworkDefault, b: NetworkDefault)
    requires
        a.name() == b.name(),
    ensures
        a == b,
{
    reveal_strlit("allow");
    reveal_strlit("deny");
    assert("allow"@.len() == 5);
    assert("deny"@.len() == 4);
}

impl Default for NetworkDefault {
    fn default() -> (res: NetworkDefault)
        ensures
            res == NetworkDefault::Deny,
    {
        NetworkDefault::Deny
    }
}

/// Which hosts may be reached.
#[derive(Debug, Default, PartialEq, Eq)]
pub struct NetworkPolicy {
    pub default: NetworkDefault,
    pub allow_hosts: Vec<String>,
    pub allow_host_patterns: Vec<String>,
}

/// The resources that an image asks for.
#[derive(Clone, Copy, Debug, Default, PartialEq, Eq, Structural)]
pub struct ResourceHints {
    pub suggested_memory_mib: Option<u32>,
    pub suggested_vcpus: Option<u32>,
    pub suggested_disk_gib: Option<u32>,
    /// The size of the swap device; none, where this is absent or zero.
    pub suggested_swap_mib: Option<u32>,
}

/// What a [`NetworkPolicy`] stands for.
#[verifier::ext_equal]
pub ghost struct NetworkView {
    pub default: NetworkDefault,
    pub allow_hosts: Seq<Seq<char>>,
    pub allow_host_patterns: Seq<Seq<char>>,
}

impl View for NetworkPolicy {
    type V = NetworkView;

    open spec fn view(&self) -> NetworkView {
        NetworkView {
            default: self.default,
            allow_hosts: self.allow_hosts.deep_view(),
            allow_host_patterns: self.allow_host_patterns.deep_view(),
        }
    }
}

impl Clone for NetworkPolicy {
    fn clone(&self) -> (res: NetworkPolicy)
        ensures
            res@ == self@,
    {
        NetworkPolicy {
            default: self.default,
            allow_hosts: clone_texts(&self.allow_hosts),
            allow_host_patterns: clone_texts(&self.allow_host_patterns),
        }
    }
}

/// What a [`CaptureEnvEntry`] stands for: its name, its value or the name of its secret, and
/// which of the two.
#[verifier::ext_equal]
pub ghost struct CaptureEnvView {
    pub name: Seq<char>,
    pub value: Seq<char>,
    pub secret: bool,
}

impl View for CaptureEnvEntry {
    type V = CaptureEnvView;

    open spec fn view(&self) -> CaptureEnvView {
        match self.value {
            CaptureEnvValue::Literal { value } => CaptureEnvView {
                name: self.name@,
                value: value@,
                secret: false,
            },
            CaptureEnvValue::SecretRef { secret_ref } => CaptureEnvView {
                name: self.name@,
                value: secret_ref@,
                secret: true,
            },
        }
    }
}

impl Clone for CaptureEnvEntry {
    fn clone(&self) -> (res: CaptureEnvEntry)
        ensures
            res@ == self@,
    {
        let value = match &self.value {
            CaptureEnvValue::Literal { value } => CaptureEnvValue::Literal { value: value.clone() },
            CaptureEnvValue::SecretRef { secret_ref } => CaptureEnvValue::SecretRef {
                secret_ref: secret_ref.clone(),
            },
        };
        CaptureEnvEntry { name: self.name.clone(), value }
    }
}

/// What a [`WarmConfig`] stands for.
#[verifier::ext_equal]
pub ghost struct WarmView {
    pub command: Seq<Seq<char>>,
    pub timeout_secs: Option<u64>,
    pub workdir: Option<Seq<char>>,
    pub env: Seq<CaptureEnvView>,
    pub network: Option<NetworkView>,
}

impl View for WarmConfig {
    type V = WarmView;

    open spec fn view(&self) -> WarmView {
        WarmView {
            command: self.command.deep_view(),
            timeout_secs: self.timeout_secs,
            workdir: self.workdir.deep_view(),
            env: crate::text::views(self.env@),
            network: match self.network {
                Some(n) => Some(n@),
                None => None,
            },
        }
    }
}

impl Clone for WarmConfig {
    fn clone(&self) -> (res: WarmConfig)
        ensures
            res@ == self@,
    {
        let mut env: Vec<CaptureEnvEntry> = Vec::new();
        let mut i: usize = 0;
        while i < self.env.len()
            invariant
                i <= self.env@.len(),
                env@.len() == i,
                forall|j: int| 0 <= j < i ==> (#[trigger] env@[j])@ == self.env@[j]@,
            decreases self.env.len() - i,
        {
            env.push(self.env[i].clone());
            i += 1;
        }
        assert(crate::text::views(env@) =~= crate::text::views(self.env@));
        let network = match &self.network {
            Some(n) => Some(n.clone()),
            None => None,
        };
        WarmConfig {
            command: clone_texts(&self.command),
            timeout_secs: self.timeout_secs,
            workdir: self.workdir.clone(),
            env,
            network,
        }
    }
}

/// What an [`ImageConfig`] stands for.
#[verifier::ext_equal]
pub ghost struct ImageView {
    pub name: Seq<char>,
    pub description: Option<Seq<char>>,
    pub env: Map<Seq<char>, Seq<char>>,
    pub workdir: Option<Seq<char>>,
    pub resources: ResourceHints,
    pub warm: Option<WarmView>,
}

impl View for ImageConfig {
    type V = ImageView;

    open spec fn view(&self) -> ImageView {
        ImageView {
            name: self.name@,
            description: self.description.deep_view(),
            env: self.env@,
            workdir: self.workdir.deep_view(),
            resources: self.resources,
            warm: match self.warm {
                Some(w) => Some(w@),
                None => None,
            },
        }
    }
}

impl Clone for ImageConfig {
    fn clone(&self) -> (res: ImageConfig)
        ensures
            res@ == self@,
    {
        let warm = match &self.warm {
            Some(w) => Some(w.clone()),
            None => None,
        };
        ImageConfig {
            name: self.name.clone(),
            description: self.description.clone(),
            env: self.env.clone(),
            workdir: self.workdir.clone(),
            resources: self.resources,
            warm,
        }
    }
}

impl WarmView {
    /// What is wrong with the hook: a command needs a word that is not blank.
    pub open spec fn problem(self) -> Option<Seq<char>> {
        if forall|i: int|
            0 <= i < self.command.len() ==> crate::text::blank(#[trigger] self.command[i]) {
            Some("[warm] command must be a non-empty argv"@)
        } else {
            None
        }
    }
}

impl WarmConfig {
    /// How long the hook may run, in seconds, where nothing is said.
    pub const DEFAULT_TIMEOUT_SECS: u64 = 600;

    /// Tells what is wrong with the hook.
    pub fn validate(&self) -> (res: Result<(), String>)
        ensures
            res is Ok <==> self@.problem() is None,
            res is Err ==> self@.problem() == Some(res->Err_0@),
    {
        let mut i: usize = 0;
        while i < self.command.len()
            invariant
                i <= self.command@.len(),
                forall|j: int| 0 <= j < i ==> crate::text::blank(#[trigger] self@.command[j]),
            decreases self.command.len() - i,
        {
            assert(self@.command[i as int] == self.command@[i as int]@);
            if !is_blank(self.command[i].as_str()) {
                return Ok(());
            }
            i += 1;
        }
        Err(String::from_str("[warm] command must be a non-empty argv"))
    }

    /// How long the hook may run.
    pub fn timeout(&self) -> (res: Duration)
        ensures
            res == (Duration {
                secs: match self.timeout_secs {
                    Some(secs) => secs,
                    None => 600,
                },
                nanos: 0,
            }),
    {
        match self.timeout_secs {
            Some(secs) => Duration::from_secs(secs),
            None => Duration::from_secs(WarmConfig::DEFAULT_TIMEOUT_SECS),
        }
    }
}

/// The variables that `KEY=VALUE` texts set: the key ends at the first `=`; a text without one
/// sets nothing; a later text replaces an earlier one.
pub open spec fn env_of(texts: Seq<Seq<char>>) -> Map<Seq<char>, Seq<char>>
    decreases texts.len(),
{
    if texts.len() == 0 {
        Map::empty()
    } else {
        let rest = env_of(texts.drop_last());
        match crate::text::split_first(texts.last(), '=') {
            Some((k, v)) => rest.insert(k, v),
            None => rest,
        }
    }
}

impl OciRuntimeDefaults {
    /// What an image declares, from the `KEY=VALUE` texts and the directory of its
    /// configuration. An empty directory counts as none.
    pub fn from_docker_config(env: &[String], working_dir: Option<&str>) -> (res:
        OciRuntimeDefaults)
        ensures
            res.env@ == env_of(env.deep_view()),
            res.workdir.deep_view() == (match working_dir {
                Some(w) => if w@.len() == 0 {
                    None
                } else {
                    Some(w@)
                },
                None => None,
            }),
    {
        let ghost texts = env.deep_view();
        let mut map = TextMap::new();
        let mut i: usize = 0;
        assert(texts.take(0) =~= Seq::empty());
        while i < env.len()
            invariant
                i <= env@.len(),
                texts == env.deep_view(),
                map@ == env_of(texts.take(i as int)),
            decreases env.len() - i,
        {
            assert(texts[i as int] == env@[i as int]@);
            assert(texts.take(i + 1).drop_last() =~= texts.take(i as int));
            if let Some((k, v)) = split_once(env[i].as_str(), '=') {
                map.insert(k, v);
            }
            i += 1;
        }
        assert(texts.take(i as int) =~= texts);
        let workdir = match working_dir {
            Some(w) => if w.is_empty() {
                None
            } else {
                Some(w.to_owned())
            },
            None => None,
        };
        OciRuntimeDefaults { env: map, workdir }
    }
}

/// The processors of a guest, where nothing is said.
pub const DEFAULT_VCPUS: u32 = 2;

/// The memory of a guest in MiB, where nothing is said.
pub const DEFAULT_MEMORY_MIB: u32 = 4096;

impl ResourceHints {
    /// The memory in MiB.
    pub open spec fn memory_mib(self) -> u32 {
        match self.suggested_memory_mib {
            Some(n) => n,
            None => DEFAULT_MEMORY_MIB,
        }
    }

    /// The size of the swap device in MiB.
    pub open spec fn swap_mib(self) -> u32 {
        match self.suggested_swap_mib {
            Some(n) => n,
            None => 0,
        }
    }
}

impl ImageView {
    /// What is wrong with the configuration.
    pub open spec fn problem(self) -> Option<Seq<char>> {
        if crate::text::blank(self.name) {
            Some("config `name` must be non-empty"@)
        } else if self.resources.suggested_vcpus is None {
            Some(
                "config `[resources] suggested_vcpus` is required (ADR 0048: placement reserves it against the host CPU budget)"@,
            )
        } else if self.resources.swap_mib() > self.resources.memory_mib() {
            Some(
                "config `[resources] suggested_swap_mib` ("@ + crate::text::decimal(
                    self.resources.swap_mib() as nat,
                ) + ") exceeds the guest's memory ("@ + crate::text::decimal(
                    self.resources.memory_mib() as nat,
                ) + " MiB) — swap must fit back into RAM at capture (ADR 0112)"@,
            )
        } else if self.warm is Some {
            self.warm->0.problem()
        } else {
            None
        }
    }

    /// The configuration with what the image declares filled in below it.
    pub open spec fn merged(
        self,
        env: Map<Seq<char>, Seq<char>>,
        workdir: Option<Seq<char>>,
    ) -> ImageView {
        ImageView {
            env: env.union_prefer_right(self.env),
            workdir: if self.workdir is Some {
                self.workdir
            } else {
                workdir
            },
            ..self
        }
    }
}

impl ImageConfig {
    /// The memory of a guest in MiB.
    pub fn resolved_memory_mib(&self) -> (res: u32)
        ensures
            res == self.resources.memory_mib(),
    {
        match self.resources.suggested_memory_mib {
            Some(n) => n,
            None => DEFAULT_MEMORY_MIB,
        }
    }

    /// The processors of a guest.
    pub fn resolved_vcpus(&self) -> (res: u32)
        ensures
            res == (match self.resources.suggested_vcpus {
                Some(n) => n,
                None => 2,
            }),
    {
        match self.resources.suggested_vcpus {
            Some(n) => n,
            None => DEFAULT_VCPUS,
        }
    }

    /// The size of the swap device of a guest in MiB; zero for none.
    pub fn resolved_swap_mib(&self) -> (res: u32)
        ensures
            res == self.resources.swap_mib(),
    {
        match self.resources.suggested_swap_mib {
            Some(n) => n,
            None => 0,
        }
    }

    /// The configuration with what the image declares filled in below it: a variable that the
    /// configuration sets keeps its value, and so does its directory.
    pub fn merged_with(&self, defaults: &OciRuntimeDefaults) -> (res: ImageConfig)
        ensures
            res@ == self@.merged(defaults.env@, defaults.workdir.deep_view()),
    {
        let mut merged = self.clone();
        let n: usize = defaults.env.len();
        let mut i: usize = 0;
        let ghost keys = defaults.env.keys();
        let ghost values = defaults.env.values();
        assert forall|a: int, b: int| 0 <= a < b < n implies #[trigger] keys[a] != #[trigger] keys[b] by {
            crate::text_map::before_is_total(keys[a], keys[b]);
        }
        while i < n
            invariant
                i <= n == keys.len() == values.len(),
                keys == defaults.env.keys(),
                values == defaults.env.values(),
                merged@ == (ImageView { env: merged.env@, ..self@ }),
                forall|k: Seq<char>| #[trigger]
                    merged.env@.contains_key(k) <==> self.env@.contains_key(k) || keys.take(
                        i as int,
                    ).contains(k),
                forall|k: Seq<char>| #[trigger]
                    self.env@.contains_key(k) ==> merged.env@[k] == self.env@[k],
                forall|j: int|
                    0 <= j < i && !self.env@.contains_key(#[trigger] keys[j])
                        ==> merged.env@[keys[j]] == values[j],
                forall|a: int, b: int| 0 <= a < b < n ==> #[trigger] keys[a] != #[trigger] keys[b],
            decreases n - i,
        {
            let ghost before = merged.env@;
            let key = defaults.env.key_at(i);
            if merged.env.get(key).is_none() {
                let value = defaults.env.value_at(i);
                merged.env.insert(key.to_owned(), value.to_owned());
            }
            proof {
                let taken = keys.take(i + 1);
                assert forall|k: Seq<char>| taken.contains(k) <==> keys.take(i as int).contains(k)
                    || k == keys[i as int] by {
                    if keys.take(i as int).contains(k) {
                        let j = choose|j: int| 0 <= j < i && keys.take(i as int)[j] == k;
                        assert(taken[j] == k);
                    }
                    if k == keys[i as int] {
                        assert(taken[i as int] == k);
                    }
                    if taken.contains(k) {
                        let j = choose|j: int| 0 <= j < i + 1 && taken[j] == k;
                        if j < i {
                            assert(keys.take(i as int)[j] == k);
                        }
                    }
                }
                assert forall|j: int|
                    0 <= j < i + 1 && !self.env@.contains_key(
                        #[trigger] keys[j],
                    ) implies merged.env@[keys[j]] == values[j] by {
                    if j < i {
                        assert(keys[j] != keys[i as int]);
                    } else {
                        assert(!keys.take(i as int).contains(keys[j])) by {
                            if keys.take(i as int).contains(keys[j]) {
                                let m = choose|m: int|
                                    0 <= m < i && keys.take(i as int)[m] == keys[j];
                                assert(keys[m] != keys[j]);
                            }
                        }
                    }
                }
            }
            i += 1;
        }
        if merged.workdir.is_none() {
            merged.workdir = defaults.workdir.clone();
        }
        proof {
            assert(keys.take(n as int) =~= keys);
            crate::text_map::pairs_spec(keys, values);
            assert forall|k: Seq<char>|
                #![trigger defaults.env@.contains_key(k)]
                defaults.env@.contains_key(k) && !self.env@.contains_key(k) implies merged.env@[k]
                == defaults.env@[k] by {
                let j = choose|j: int| 0 <= j < keys.len() && keys[j] == k;
                assert(keys[j] == k);
            }
            assert(merged.env@ =~= defaults.env@.union_prefer_right(self.env@));
        }
        merged
    }

    /// Tells what is wrong with the configuration: a name that is not blank, a declared number
    /// of processors, a swap device that fits into memory, and a valid warm-up hook.
    pub fn validate(&self) -> (res: Result<(), String>)
        ensures
            res is Ok <==> self@.problem() is None,
            res is Err ==> self@.problem() == Some(res->Err_0@),
    {
        if is_blank(self.name.as_str()) {
            return Err(String::from_str("config `name` must be non-empty"));
        }
        if self.resources.suggested_vcpus.is_none() {
            return Err(
                String::from_str(
                    "config `[resources] suggested_vcpus` is required (ADR 0048: placement reserves it against the host CPU budget)",
                ),
            );
        }
        if self.resolved_swap_mib() > self.resolved_memory_mib() {
            let mut text = String::from_str("config `[resources] suggested_swap_mib` (");
            push_decimal(&mut text, self.resolved_swap_mib() as u64);
            text.append(") exceeds the guest's memory (");
            push_decimal(&mut text, self.resolved_memory_mib() as u64);
            text.append(" MiB) — swap must fit back into RAM at capture (ADR 0112)");
            return Err(text);
        }
        if let Some(warm) = &self.warm {
            return warm.validate();
        }
        Ok(())
    }
}

/// A quarter of the memory, and at least one and at most eight GiB.
pub open spec fn recommended_swap(memory_mib: int) -> int {
    if memory_mib / 4 < 1024 {
        1024
    } else if memory_mib / 4 > 8192 {
        8192
    } else {
        memory_mib / 4
    }
}

/// The recommended size of the swap device, in MiB, for this memory.
pub fn recommended_swap_mib(memory_mib: u32) -> (res: u32)
    ensures
        res == recommended_swap(memory_mib as int),
{
    let quarter: u32 = memory_mib / 4;
    if quarter < 1024 {
        1024
    } else if quarter > 8192 {
        8192
    } else {
        quarter
    }
}

/// In a merged configuration the configuration wins, and merging twice is merging once.
pub proof fn configuration_wins(
    config: ImageView,
    env: Map<Seq<char>, Seq<char>>,
    workdir: Option<Seq<char>>,
    key: Seq<char>,
)
    ensures
        config.env.contains_key(key) ==> config.merged(env, workdir).env[key] == config.env[key],
        !config.env.contains_key(key) && env.contains_key(key) ==> config.merged(env, workdir).env[key]
            == env[key],
        config.merged(env, workdir).env.contains_key(key) <==> config.env.contains_key(key)
            || env.contains_key(key),
        config.workdir is Some ==> config.merged(env, workdir).workdir == config.workdir,
        config.merged(env, workdir).merged(env, workdir) == config.merged(env, workdir),
{
    let once = config.merged(env, workdir);
    assert(env.union_prefer_right(once.env) =~= once.env);
}

/// What the image declares does not decide whether a configuration is valid.
pub proof fn merging_keeps_validity(
    config: ImageView,
    env: Map<Seq<char>, Seq<char>>,
    workdir: Option<Seq<char>>,
)
    ensures
        config.merged(env, workdir).problem() == config.problem(),
{
}

/// The recommended swap device of a guest with at least one GiB passes validation.
pub proof fn recommended_swap_is_accepted(memory_mib: int)
    requires
        memory_mib >= 1024,
    ensures
        1024 <= recommended_swap(memory_mib) <= 8192,
        recommended_swap(memory_mib) <= memory_mib,
{
}

impl View for ResourceHints {
    type V = ResourceHints;

    open spec fn view(&self) -> ResourceHints {
        *self
    }
}

impl Decode for ResourceHints {
    open spec fn decoded(t: crate::document::Tree) -> Result<ResourceHints, Seq<char>> {
        let t = t.in_order(
            seq![
                "suggested_memory_mib"@,
                "suggested_vcpus"@,
                "suggested_disk_gib"@,
                "suggested_swap_mib"@,
            ],
            4,
        );
        let shape = t.table_of("resources"@, seq!["suggested_memory_mib"@, "suggested_vcpus"@, "suggested_disk_gib"@, "suggested_swap_mib"@]);
        let suggested_memory_mib = t.opt_u32("suggested_memory_mib"@);
        let suggested_vcpus = t.opt_u32("suggested_vcpus"@);
        let suggested_disk_gib = t.opt_u32("suggested_disk_gib"@);
        let suggested_swap_mib = t.opt_u32("suggested_swap_mib"@);
        match crate::document::earlier(
            crate::document::earlier(
                crate::document::earlier(
                    crate::document::earlier(
                        crate::document::error_of(shape),
                        crate::document::error_of(suggested_memory_mib),
                    ),
                    crate::document::error_of(suggested_vcpus),
                ),
                crate::document::error_of(suggested_disk_gib),
            ),
            crate::document::error_of(suggested_swap_mib),
        ) {
            Some(e) => Err(e),
            None => Ok(
                ResourceHints {
                    suggested_memory_mib: suggested_memory_mib->Ok_0,
                    suggested_vcpus: suggested_vcpus->Ok_0,
                    suggested_disk_gib: suggested_disk_gib->Ok_0,
                    suggested_swap_mib: suggested_swap_mib->Ok_0,
                },
            ),
        }
    }

    fn decode(doc: &Value) -> (res: Result<ResourceHints, String>) {
        let fields: [&str; 4] = ["suggested_memory_mib", "suggested_vcpus", "suggested_disk_gib", "suggested_swap_mib"];
        let names = fields.as_slice();
        assert(names.deep_view() =~= seq!["suggested_memory_mib"@, "suggested_vcpus"@, "suggested_disk_gib"@, "suggested_swap_mib"@]);
        let table = doc.in_order(names, 4);
        let doc = &table;
        if let Err(e) = doc.check_table("resources", names) {
            return Err(e);
        }
        let suggested_memory_mib = match doc.opt_u32("suggested_memory_mib") {
            Ok(v) => v,
            Err(e) => return Err(e),
        };
        let suggested_vcpus = match doc.opt_u32("suggested_vcpus") {
            Ok(v) => v,
            Err(e) => return Err(e),
        };
        let suggested_disk_gib = match doc.opt_u32("suggested_disk_gib") {
            Ok(v) => v,
            Err(e) => return Err(e),
        };
        let suggested_swap_mib = match doc.opt_u32("suggested_swap_mib") {
            Ok(v) => v,
            Err(e) => return Err(e),
        };
        Ok(ResourceHints { suggested_memory_mib, suggested_vcpus, suggested_disk_gib, suggested_swap_mib })
    }
}

impl Encode for ResourceHints {
    open spec fn tree(v: ResourceHints) -> crate::document::Tree {
        crate::document::Tree::Table(
            seq![
                crate::document::named(
                    "suggested_memory_mib"@,
                    crate::document::number_tree_32(v.suggested_memory_mib),
                ),
                crate::document::named(
                    "suggested_vcpus"@,
                    crate::document::number_tree_32(v.suggested_vcpus),
                ),
                crate::document::named(
                    "suggested_disk_gib"@,
                    crate::document::number_tree_32(v.suggested_disk_gib),
                ),
                crate::document::named(
                    "suggested_swap_mib"@,
                    crate::document::number_tree_32(v.suggested_swap_mib),
                ),
            ],
        )
    }

    open spec fn depth() -> nat {
        2
    }

    fn encode(&self) -> (res: Value) {
        let mut members: Vec<Member> = Vec::new();
        members.push(member("suggested_memory_mib", number_value_32(self.suggested_memory_mib)));
        members.push(member("suggested_vcpus", number_value_32(self.suggested_vcpus)));
        members.push(member("suggested_disk_gib", number_value_32(self.suggested_disk_gib)));
        members.push(member("suggested_swap_mib", number_value_32(self.suggested_swap_mib)));
        assert(crate::document::table_view(members@) =~= ResourceHints::tree(self@)->Table_0);
        Value::Table(members)
    }

    proof fn is_read_back(v: ResourceHints) {
        reveal_strlit("suggested_memory_mib");
        reveal_strlit("suggested_vcpus");
        reveal_strlit("suggested_disk_gib");
        reveal_strlit("suggested_swap_mib");
        assert("suggested_memory_mib"@.len() == 20);
        assert("suggested_vcpus"@.len() == 15);
        assert("suggested_disk_gib"@.len() == 18);
        assert("suggested_swap_mib"@.len() == 18);
        assert("suggested_disk_gib"@[10] != "suggested_swap_mib"@[10]);
        let t = ResourceHints::tree(v);
        let members = t->Table_0;
        assert(crate::document::distinct_names(members));
        crate::document::distinct_member_is_found(members, 0);
        crate::document::distinct_member_is_found(members, 1);
        crate::document::distinct_member_is_found(members, 2);
        crate::document::distinct_member_is_found(members, 3);
        let allowed = seq!["suggested_memory_mib"@, "suggested_vcpus"@, "suggested_disk_gib"@, "suggested_swap_mib"@];
        assert forall|i: int| 0 <= i < members.len() implies allowed.contains(
            (#[trigger] members[i]).key,
        ) by {
            assert(allowed[i] == members[i].key);
        }
        crate::document::no_stranger(members, allowed, 0);
        assert forall|i: int| 0 <= i < members.len() implies crate::document::plain(
            (#[trigger] members[i]).value,
            1,
        ) by {
        }
    }
}

/// The value of a variable, as a document says it: the text, and whether it names a secret.
pub open spec fn decoded_env_value(t: crate::document::Tree) -> Result<(Seq<char>, bool), Seq<char>> {
    let t = if t.begins("secret_ref"@) {
        t.in_order(seq!["kind"@, "secret_ref"@], 2)
    } else {
        t.in_order(seq!["kind"@, "value"@], 2)
    };
    let kind = t.need_text("kind"@);
    match crate::document::earlier(
        crate::document::error_of(t.table("value"@)),
        crate::document::error_of(kind),
    ) {
        Some(e) => Err(e),
        None => if kind->Ok_0 == "literal"@ {
            match t.need_text("value"@) {
                Ok(s) => Ok((s, false)),
                Err(e) => Err(e),
            }
        } else if kind->Ok_0 == "secret_ref"@ {
            match t.need_text("secret_ref"@) {
                Ok(s) => Ok((s, true)),
                Err(e) => Err(e),
            }
        } else {
            Err(crate::document::wrong_kind("kind"@, "`literal` or `secret_ref`"@))
        },
    }
}

/// What the value of a variable stands for: the text, and whether it names a secret.
pub open spec fn env_value_view(v: CaptureEnvValue) -> (Seq<char>, bool) {
    match v {
        CaptureEnvValue::Literal { value } => (value@, false),
        CaptureEnvValue::SecretRef { secret_ref } => (secret_ref@, true),
    }
}

/// Reads the value of a variable.
fn decode_env_value(doc: &Value) -> (res: Result<CaptureEnvValue, String>)
    ensures
        res is Ok <==> decoded_env_value(doc@) is Ok,
        res is Ok ==> decoded_env_value(doc@)->Ok_0 == env_value_view(res->Ok_0),
        res is Err ==> decoded_env_value(doc@)->Err_0 == res->Err_0@,
{
    let secret: [&str; 2] = ["kind", "secret_ref"];
    let literal: [&str; 2] = ["kind", "value"];
    let secret = secret.as_slice();
    assert(secret.deep_view() =~= seq!["kind"@, "secret_ref"@]);
    let literal = literal.as_slice();
    assert(literal.deep_view() =~= seq!["kind"@, "value"@]);
    let table = if doc.begins("secret_ref") {
        doc.in_order(secret, 2)
    } else {
        doc.in_order(literal, 2)
    };
    let doc = &table;
    if let Err(e) = doc.check_kind("value") {
        return Err(e);
    }
    let kind = match doc.need_text("kind") {
        Ok(v) => v,
        Err(e) => return Err(e),
    };
    if same(kind.as_str(), "literal") {
        match doc.need_text("value") {
            Ok(value) => Ok(CaptureEnvValue::Literal { value }),
            Err(e) => Err(e),
        }
    } else if same(kind.as_str(), "secret_ref") {
        match doc.need_text("secret_ref") {
            Ok(secret_ref) => Ok(CaptureEnvValue::SecretRef { secret_ref }),
            Err(e) => Err(e),
        }
    } else {
        Err(wrong_kind_text("kind", "`literal` or `secret_ref`"))
    }
}

/// The value of a variable as a document.
pub open spec fn env_value_tree(value: Seq<char>, secret: bool) -> crate::document::Tree {
    crate::document::Tree::Table(
        if secret {
            seq![
                crate::document::named("kind"@, crate::document::Tree::Text("secret_ref"@)),
                crate::document::named("secret_ref"@, crate::document::Tree::Text(value)),
            ]
        } else {
            seq![
                crate::document::named("kind"@, crate::document::Tree::Text("literal"@)),
                crate::document::named("value"@, crate::document::Tree::Text(value)),
            ]
        },
    )
}

/// The value of a variable as a document.
fn env_value_document(v: &CaptureEnvValue) -> (res: Value)
    ensures
        res@ == env_value_tree(env_value_view(*v).0, env_value_view(*v).1),
{
    let mut members: Vec<Member> = Vec::new();
    match v {
        CaptureEnvValue::Literal { value } => {
            members.push(member("kind", Value::Text("literal".to_owned())));
            members.push(member("value", Value::Text(value.clone())));
        },
        CaptureEnvValue::SecretRef { secret_ref } => {
            members.push(member("kind", Value::Text("secret_ref".to_owned())));
            members.push(member("secret_ref", Value::Text(secret_ref.clone())));
        },
    }
    assert(crate::document::table_view(members@) =~= env_value_tree(
        env_value_view(*v).0,
        env_value_view(*v).1,
    )->Table_0);
    Value::Table(members)
}

/// The value of a variable is read back.
proof fn env_value_is_read_back(value: Seq<char>, secret: bool)
    ensures
        crate::document::plain(env_value_tree(value, secret), 2),
        decoded_env_value(env_value_tree(value, secret)) == Ok::<(Seq<char>, bool), Seq<char>>(
            (value, secret),
        ),
{
    reveal_strlit("kind");
    reveal_strlit("literal");
    reveal_strlit("value");
    reveal_strlit("secret_ref");
    assert("kind"@.len() == 4);
    assert("literal"@.len() == 7);
    assert("value"@.len() == 5);
    assert("secret_ref"@.len() == 10);
    let members = env_value_tree(value, secret)->Table_0;
    assert(crate::document::distinct_names(members));
    crate::document::distinct_member_is_found(members, 0);
    crate::document::distinct_member_is_found(members, 1);
    assert forall|i: int| 0 <= i < members.len() implies crate::document::plain(
        (#[trigger] members[i]).value,
        1,
    ) by {
    }
}

impl Decode for CaptureEnvEntry {
    open spec fn decoded(t: crate::document::Tree) -> Result<CaptureEnvView, Seq<char>> {
        let t = t.in_order(seq!["name"@, "value"@], 2);
        let shape = t.table_of("warm.env"@, seq!["name"@, "value"@]);
        let name = t.need_text("name"@);
        let value = match t.member("value"@) {
            None => Err(crate::document::missing("value"@)),
            Some(sub) => decoded_env_value(sub),
        };
        match crate::document::earlier(
            crate::document::earlier(
                crate::document::error_of(shape),
                crate::document::error_of(name),
            ),
            crate::document::error_of(value),
        ) {
            Some(e) => Err(e),
            None => Ok(
                CaptureEnvView {
                    name: name->Ok_0,
                    value: (value->Ok_0).0,
                    secret: (value->Ok_0).1,
                },
            ),
        }
    }

    fn decode(doc: &Value) -> (res: Result<CaptureEnvEntry, String>) {
        let fields: [&str; 2] = ["name", "value"];
        let names = fields.as_slice();
        assert(names.deep_view() =~= seq!["name"@, "value"@]);
        let table = doc.in_order(names, 2);
        let doc = &table;
        if let Err(e) = doc.check_table("warm.env", names) {
            return Err(e);
        }
        let name = match doc.need_text("name") {
            Ok(v) => v,
            Err(e) => return Err(e),
        };
        let value = match doc.get("value") {
            None => return Err(missing_text("value")),
            Some(sub) => match decode_env_value(sub) {
                Ok(v) => v,
                Err(e) => return Err(e),
            },
        };
        Ok(CaptureEnvEntry { name, value })
    }
}

impl Encode for CaptureEnvEntry {
    open spec fn tree(v: CaptureEnvView) -> crate::document::Tree {
        crate::document::Tree::Table(
            seq![
                crate::document::named("name"@, crate::document::Tree::Text(v.name)),
                crate::document::named("value"@, env_value_tree(v.value, v.secret)),
            ],
        )
    }

    open spec fn depth() -> nat {
        3
    }

    fn encode(&self) -> (res: Value) {
        let mut members: Vec<Member> = Vec::new();
        members.push(member("name", Value::Text(self.name.clone())));
        members.push(member("value", env_value_document(&self.value)));
        assert(crate::document::table_view(members@) =~= CaptureEnvEntry::tree(self@)->Table_0);
        Value::Table(members)
    }

    proof fn is_read_back(v: CaptureEnvView) {
        reveal_strlit("name");
        reveal_strlit("value");
        assert("name"@.len() == 4);
        assert("value"@.len() == 5);
        let t = CaptureEnvEntry::tree(v);
        let members = t->Table_0;
        assert(crate::document::distinct_names(members));
        crate::document::distinct_member_is_found(members, 0);
        crate::document::distinct_member_is_found(members, 1);
        env_value_is_read_back(v.value, v.secret);
        let allowed = seq!["name"@, "value"@];
        assert forall|i: int| 0 <= i < members.len() implies allowed.contains(
            (#[trigger] members[i]).key,
        ) by {
            assert(allowed[i] == members[i].key);
        }
        crate::document::no_stranger(members, allowed, 0);
        assert forall|i: int| 0 <= i < members.len() implies crate::document::plain(
            (#[trigger] members[i]).value,
            2,
        ) by {
        }
    }
}

/// An optional network, as a document says it.
pub open spec fn decoded_opt_network(t: crate::document::Tree) -> Result<
    Option<NetworkView>,
    Seq<char>,
> {
    match t.member("network"@) {
        None => Ok(None),
        Some(sub) => if sub is Null {
            Ok(None)
        } else {
            match NetworkPolicy::decoded(sub) {
                Ok(n) => Ok(Some(n)),
                Err(e) => Err(e),
            }
        },
    }
}

/// What an optional network stands for.
pub open spec fn network_view(n: Option<NetworkPolicy>) -> Option<NetworkView> {
    match n {
        Some(n) => Some(n@),
        None => None,
    }
}

/// Reads an optional network.
fn decode_opt_network(doc: &Value) -> (res: Result<Option<NetworkPolicy>, String>)
    ensures
        res is Ok <==> decoded_opt_network(doc@) is Ok,
        res is Ok ==> decoded_opt_network(doc@)->Ok_0 == network_view(res->Ok_0),
        res is Err ==> decoded_opt_network(doc@)->Err_0 == res->Err_0@,
{
    match doc.get("network") {
        None => Ok(None),
        Some(Value::Null) => Ok(None),
        Some(sub) => match NetworkPolicy::decode(sub) {
            Ok(n) => Ok(Some(n)),
            Err(e) => Err(e),
        },
    }
}

impl Decode for WarmConfig {
    open spec fn decoded(t: crate::document::Tree) -> Result<WarmView, Seq<char>> {
        let t = t.in_order(
            seq!["command"@, "timeout_secs"@, "workdir"@, "env"@, "network"@],
            1,
        );
        let shape = t.table_of("warm"@, seq!["command"@, "timeout_secs"@, "workdir"@, "env"@, "network"@]);
        let command = t.need_text_list("command"@);
        let timeout_secs = t.opt_u64("timeout_secs"@);
        let workdir = t.opt_text("workdir"@, true);
        let env = crate::document::decoded_list::<CaptureEnvEntry>(t, "env"@);
        let network = decoded_opt_network(t);
        match crate::document::earlier(
            crate::document::earlier(
                crate::document::earlier(
                    crate::document::earlier(
                        crate::document::earlier(
                            crate::document::error_of(shape),
                            crate::document::error_of(command),
                        ),
                        crate::document::error_of(timeout_secs),
                    ),
                    crate::document::error_of(workdir),
                ),
                crate::document::error_of(env),
            ),
            crate::document::error_of(network),
        ) {
            Some(e) => Err(e),
            None => Ok(
                WarmView {
                    command: command->Ok_0,
                    timeout_secs: timeout_secs->Ok_0,
                    workdir: workdir->Ok_0,
                    env: env->Ok_0,
                    network: network->Ok_0,
                },
            ),
        }
    }

    fn decode(doc: &Value) -> (res: Result<WarmConfig, String>) {
        let fields: [&str; 5] = ["command", "timeout_secs", "workdir", "env", "network"];
        let names = fields.as_slice();
        assert(names.deep_view() =~= seq!["command"@, "timeout_secs"@, "workdir"@, "env"@, "network"@]);
        let table = doc.in_order(names, 1);
        let doc = &table;
        if let Err(e) = doc.check_table("warm", names) {
            return Err(e);
        }
        let command = match doc.need_text_list("command") {
            Ok(v) => v,
            Err(e) => return Err(e),
        };
        let timeout_secs = match doc.opt_u64("timeout_secs") {
            Ok(v) => v,
            Err(e) => return Err(e),
        };
        let workdir = match doc.opt_text("workdir", true) {
            Ok(v) => v,
            Err(e) => return Err(e),
        };
        let env = match decode_list::<CaptureEnvEntry>(doc, "env") {
            Ok(v) => v,
            Err(e) => return Err(e),
        };
        let network = match decode_opt_network(doc) {
            Ok(v) => v,
            Err(e) => return Err(e),
        };
        Ok(WarmConfig { command, timeout_secs, workdir, env, network })
    }
}

impl Encode for WarmConfig {
    open spec fn tree(v: WarmView) -> crate::document::Tree {
        crate::document::Tree::Table(
            seq![
                crate::document::named(
                    "command"@,
                    crate::document::texts_tree(v.command),
                ),
                crate::document::named(
                    "timeout_secs"@,
                    crate::document::number_tree_64(v.timeout_secs),
                ),
                crate::document::named(
                    "workdir"@,
                    crate::document::text_tree(v.workdir),
                ),
                crate::document::named(
                    "env"@,
                    crate::document::list_tree::<CaptureEnvEntry>(v.env),
                ),
                crate::document::named(
                    "network"@,
                    match v.network {
                        Some(x) => NetworkPolicy::tree(x),
                        None => crate::document::Tree::Null,
                    },
                ),
            ],
        )
    }

    open spec fn depth() -> nat {
        5
    }

    fn encode(&self) -> (res: Value) {
        let network = match &self.network {
            Some(x) => x.encode(),
            None => Value::Null,
        };
        let mut members: Vec<Member> = Vec::new();
        members.push(member("command", texts_value(&self.command)));
        members.push(member("timeout_secs", number_value_64(self.timeout_secs)));
        members.push(member("workdir", text_value(&self.workdir)));
        members.push(member("env", encode_list(&self.env)));
        members.push(member("network", network));
        assert(crate::document::table_view(members@) =~= WarmConfig::tree(self@)->Table_0);
        Value::Table(members)
    }

    proof fn is_read_back(v: WarmView) {
        reveal_strlit("command");
        reveal_strlit("timeout_secs");
        reveal_strlit("workdir");
        reveal_strlit("env");
        reveal_strlit("network");
        assert("command"@.len() == 7);
        assert("timeout_secs"@.len() == 12);
        assert("workdir"@.len() == 7);
        assert("env"@.len() == 3);
        assert("network"@.len() == 7);
        assert("command"@[0] != "workdir"@[0]);
        assert("command"@[0] != "network"@[0]);
        assert("workdir"@[0] != "network"@[0]);
        let t = WarmConfig::tree(v);
        let members = t->Table_0;
        assert(crate::document::distinct_names(members));
        crate::document::distinct_member_is_found(members, 0);
        crate::document::distinct_member_is_found(members, 1);
        crate::document::distinct_member_is_found(members, 2);
        crate::document::distinct_member_is_found(members, 3);
        crate::document::distinct_member_is_found(members, 4);
        crate::document::texts_are_read_back(t, "command"@, v.command);
        crate::document::plain_within(crate::document::texts_tree(v.command), 2, 4);
        crate::document::list_is_read_back::<CaptureEnvEntry>(t, "env"@, v.env);
        crate::document::plain_within(crate::document::list_tree::<CaptureEnvEntry>(v.env), CaptureEnvEntry::depth() + 1, 4);
        if v.network is Some {
            NetworkPolicy::is_read_back(v.network->0);
            crate::document::plain_within(NetworkPolicy::tree(v.network->0), NetworkPolicy::depth(), 4);
        }
        let allowed = seq!["command"@, "timeout_secs"@, "workdir"@, "env"@, "network"@];
        assert forall|i: int| 0 <= i < members.len() implies allowed.contains(
            (#[trigger] members[i]).key,
        ) by {
            assert(allowed[i] == members[i].key);
        }
        crate::document::no_stranger(members, allowed, 0);
        assert forall|i: int| 0 <= i < members.len() implies crate::document::plain(
            (#[trigger] members[i]).value,
            4,
        ) by {
        }
    }
}

/// The resources of an image, as a document says it.
pub open spec fn decoded_resources(t: crate::document::Tree) -> Result<ResourceHints, Seq<char>> {
    match t.member("resources"@) {
        None => Ok(
            ResourceHints {
                suggested_memory_mib: None,
                suggested_vcpus: None,
                suggested_disk_gib: None,
                suggested_swap_mib: None,
            },
        ),
        Some(sub) => ResourceHints::decoded(sub),
    }
}

/// Reads the resources of an image.
fn decode_resources(doc: &Value) -> (res: Result<ResourceHints, String>)
    ensures
        res is Ok <==> decoded_resources(doc@) is Ok,
        res is Ok ==> decoded_resources(doc@)->Ok_0 == res->Ok_0,
        res is Err ==> decoded_resources(doc@)->Err_0 == res->Err_0@,
{
    match doc.get("resources") {
        None => Ok(
            ResourceHints {
                suggested_memory_mib: None,
                suggested_vcpus: None,
                suggested_disk_gib: None,
                suggested_swap_mib: None,
            },
        ),
        Some(sub) => ResourceHints::decode(sub),
    }
}

/// The hook of an image, as a document says it.
pub open spec fn decoded_warm(t: crate::document::Tree) -> Result<Option<WarmView>, Seq<char>> {
    match t.member("warm"@) {
        None => Ok(None),
        Some(sub) => if sub is Null {
            Ok(None)
        } else {
            match WarmConfig::decoded(sub) {
                Ok(w) => Ok(Some(w)),
                Err(e) => Err(e),
            }
        },
    }
}

/// What an optional hook stands for.
pub open spec fn warm_view(w: Option<WarmConfig>) -> Option<WarmView> {
    match w {
        Some(w) => Some(w@),
        None => None,
    }
}

/// Reads the hook of an image.
fn decode_warm(doc: &Value) -> (res: Result<Option<WarmConfig>, String>)
    ensures
        res is Ok <==> decoded_warm(doc@) is Ok,
        res is Ok ==> decoded_warm(doc@)->Ok_0 == warm_view(res->Ok_0),
        res is Err ==> decoded_warm(doc@)->Err_0 == res->Err_0@,
{
    match doc.get("warm") {
        None => Ok(None),
        Some(Value::Null) => Ok(None),
        Some(sub) => match WarmConfig::decode(sub) {
            Ok(w) => Ok(Some(w)),
            Err(e) => Err(e),
        },
    }
}

impl Decode for ImageConfig {
    open spec fn decoded(t: crate::document::Tree) -> Result<ImageView, Seq<char>> {
        let t = t.in_order(
            seq![
                "name"@,
                "description"@,
                "env"@,
                "workdir"@,
                "resources"@,
                "warm"@,
            ],
            1,
        );
        let shape = t.table_of("image config"@, seq!["name"@, "description"@, "env"@, "workdir"@, "resources"@, "warm"@]);
        let name = t.need_text("name"@);
        let description = t.opt_text("description"@, true);
        let env = t.text_table("env"@);
        let workdir = t.opt_text("workdir"@, true);
        let resources = decoded_resources(t);
        let warm = decoded_warm(t);
        match crate::document::earlier(
            crate::document::earlier(
                crate::document::earlier(
                    crate::document::earlier(
                        crate::document::earlier(
                            crate::document::earlier(
                                crate::document::error_of(shape),
                                crate::document::error_of(name),
                            ),
                            crate::document::error_of(description),
                        ),
                        crate::document::error_of(env),
                    ),
                    crate::document::error_of(workdir),
                ),
                crate::document::error_of(resources),
            ),
            crate::document::error_of(warm),
        ) {
            Some(e) => Err(e),
            None => Ok(
                ImageView {
                    name: name->Ok_0,
                    description: description->Ok_0,
                    env: env->Ok_0,
                    workdir: workdir->Ok_0,
                    resources: resources->Ok_0,
                    warm: warm->Ok_0,
                },
            ),
        }
    }

    fn decode(doc: &Value) -> (res: Result<ImageConfig, String>) {
        let fields: [&str; 6] = ["name", "description", "env", "workdir", "resources", "warm"];
        let names = fields.as_slice();
        assert(names.deep_view() =~= seq!["name"@, "description"@, "env"@, "workdir"@, "resources"@, "warm"@]);
        let table = doc.in_order(names, 1);
        let doc = &table;
        if let Err(e) = doc.check_table("image config", names) {
            return Err(e);
        }
        let name = match doc.need_text("name") {
            Ok(v) => v,
            Err(e) => return Err(e),
        };
        let description = match doc.opt_text("description", true) {
            Ok(v) => v,
            Err(e) => return Err(e),
        };
        let env = match doc.text_table("env") {
            Ok(v) => v,
            Err(e) => return Err(e),
        };
        let workdir = match doc.opt_text("workdir", true) {
            Ok(v) => v,
            Err(e) => return Err(e),
        };
        let resources = match decode_resources(doc) {
            Ok(v) => v,
            Err(e) => return Err(e),
        };
        let warm = match decode_warm(doc) {
            Ok(v) => v,
            Err(e) => return Err(e),
        };
        Ok(ImageConfig { name, description, env, workdir, resources, warm })
    }
}

/// The default of a network, as TOML may say it: also as a table that has but the name and says
/// nothing under it.
pub open spec fn default_of_toml(t: crate::document::Tree) -> crate::document::Tree {
    match t {
        crate::document::Tree::Table(members) => if members.len() == 1
            && members[0].value.says_nothing() {
            crate::document::Tree::Text(members[0].key)
        } else {
            t
        },
        _ => t,
    }
}

/// The default of a network, as TOML may say it.
fn read_toml_default(doc: &Value) -> (res: Value)
    ensures
        res@ == default_of_toml(doc@),
{
    if let Value::Table(members) = doc {
        if members.len() == 1 {
            assert(crate::document::table_view(members@)[0] == members@[0]@);
            if members[0].value.says_nothing() {
                return Value::Text(members[0].key.clone());
            }
        }
    }
    doc.clone()
}

/// A network, as TOML may say it: also as a list of its fields, of which a surplus is ignored.
pub open spec fn network_of_toml(t: crate::document::Tree) -> crate::document::Tree {
    let t = t.first_items(3).in_order(
        seq!["default"@, "allow_hosts"@, "allow_host_patterns"@],
        0,
    );
    match t.member("default"@) {
        Some(sub) => t.with_member("default"@, default_of_toml(sub)),
        None => t,
    }
}

/// A network, as TOML may say it.
fn read_toml_network(doc: &Value) -> (res: Value)
    ensures
        res@ == network_of_toml(doc@),
{
    let order: [&str; 3] = ["default", "allow_hosts", "allow_host_patterns"];
    let names = order.as_slice();
    assert(names.deep_view() =~= seq!["default"@, "allow_hosts"@, "allow_host_patterns"@]);
    let table = doc.first_items(3).in_order(names, 0);
    let default = match table.get("default") {
        Some(sub) => read_toml_default(sub),
        None => return table,
    };
    table.with_member("default", default)
}

/// The variables of a hook, as TOML may say them: a surplus in a list of fields is ignored.
pub open spec fn entries_of_toml(t: crate::document::Tree) -> crate::document::Tree {
    match t {
        crate::document::Tree::List(items) => crate::document::Tree::List(
            Seq::new(items.len(), |i: int| items[i].first_items(2)),
        ),
        _ => t,
    }
}

/// The variables of a hook, as TOML may say them.
fn read_toml_entries(doc: &Value) -> (res: Value)
    ensures
        res@ == entries_of_toml(doc@),
{
    match doc {
        Value::List(items) => {
            let mut out: Vec<Value> = Vec::new();
            let mut i: usize = 0;
            while i < items.len()
                invariant
                    i <= items.len(),
                    out@.len() == i,
                    forall|j: int|
                        0 <= j < i ==> (#[trigger] out@[j])@ == items@[j]@.first_items(2),
                decreases items.len() - i,
            {
                out.push(items[i].first_items(2));
                i += 1;
            }
            assert(crate::document::list_view(out@) =~= entries_of_toml(doc@)->List_0);
            Value::List(out)
        },
        _ => doc.clone(),
    }
}

/// A hook, as TOML may say it: also as a list of its fields, of which a surplus is ignored.
pub open spec fn warm_of_toml(t: crate::document::Tree) -> crate::document::Tree {
    let t = t.first_items(5).in_order(
        seq!["command"@, "timeout_secs"@, "workdir"@, "env"@, "network"@],
        1,
    );
    let t = match t.member("env"@) {
        Some(sub) => t.with_member("env"@, entries_of_toml(sub)),
        None => t,
    };
    match t.member("network"@) {
        Some(sub) => t.with_member("network"@, network_of_toml(sub)),
        None => t,
    }
}

/// A hook, as TOML may say it.
fn read_toml_warm(doc: &Value) -> (res: Value)
    ensures
        res@ == warm_of_toml(doc@),
{
    let order: [&str; 5] = ["command", "timeout_secs", "workdir", "env", "network"];
    let names = order.as_slice();
    assert(names.deep_view() =~= seq![
        "command"@,
        "timeout_secs"@,
        "workdir"@,
        "env"@,
        "network"@,
    ]);
    let table = doc.first_items(5).in_order(names, 1);
    let env = match table.get("env") {
        Some(sub) => Some(read_toml_entries(sub)),
        None => None,
    };
    let table = match env {
        Some(env) => table.with_member("env", env),
        None => table,
    };
    let network = match table.get("network") {
        Some(sub) => read_toml_network(sub),
        None => return table,
    };
    table.with_member("network", network)
}

/// A configuration, as TOML may say it: its parts also as lists of their fields, of which a
/// surplus is ignored.
pub open spec fn image_of_toml(t: crate::document::Tree) -> crate::document::Tree {
    let t = match t.member("resources"@) {
        Some(sub) => t.with_member("resources"@, sub.first_items(4)),
        None => t,
    };
    match t.member("warm"@) {
        Some(sub) => t.with_member("warm"@, warm_of_toml(sub)),
        None => t,
    }
}

/// A configuration, as TOML may say it.
fn read_toml_image(doc: Value) -> (res: Value)
    ensures
        res@ == image_of_toml(doc@),
{
    let resources = match doc.get("resources") {
        Some(sub) => Some(sub.first_items(4)),
        None => None,
    };
    let table = match resources {
        Some(sub) => doc.with_member("resources", sub),
        None => doc,
    };
    let warm = match table.get("warm") {
        Some(sub) => read_toml_warm(sub),
        None => return table,
    };
    table.with_member("warm", warm)
}

/// The hook as TOML has it: what is absent leaves no trace.
pub open spec fn warm_toml_tree(v: WarmView) -> crate::document::Tree {
    crate::document::Tree::Table(crate::document::present(WarmConfig::tree(v)->Table_0))
}

/// The members of a configuration in the order in which TOML has them: the tables come last.
pub open spec fn image_toml_members(c: ImageConfig) -> Seq<crate::document::MemberTree> {
    seq![
        crate::document::named("name"@, crate::document::Tree::Text(c.name@)),
        crate::document::named(
            "description"@,
            crate::document::text_tree(c.description.deep_view()),
        ),
        crate::document::named("workdir"@, crate::document::text_tree(c.workdir.deep_view())),
        crate::document::named("env"@, crate::document::map_tree(c.env.keys(), c.env.values())),
        crate::document::named(
            "resources"@,
            crate::document::Tree::Table(
                crate::document::present(ResourceHints::tree(c.resources)->Table_0),
            ),
        ),
        crate::document::named(
            "warm"@,
            match c.warm {
                Some(w) => warm_toml_tree(w@),
                None => crate::document::Tree::Null,
            },
        ),
    ]
}

/// The configuration as TOML has it: what is absent leaves no trace.
pub open spec fn image_toml_tree(c: ImageConfig) -> crate::document::Tree {
    crate::document::Tree::Table(crate::document::present(image_toml_members(c)))
}

/// The timeout of the hook, if there is one, is a number that TOML has.
pub open spec fn timeout_fits_toml(c: ImageConfig) -> bool {
    match c.warm {
        Some(w) => match w.timeout_secs {
            Some(n) => n <= i64::MAX,
            None => true,
        },
        None => true,
    }
}

/// The resources of an image are read back from what TOML has of them.
proof fn resources_toml_is_read_back(v: ResourceHints)
    ensures
        ({
            let t = crate::document::Tree::Table(
                crate::document::present(ResourceHints::tree(v)->Table_0),
            );
            &&& crate::document::plain(t, 2)
            &&& crate::document::fits_toml(t)
            &&& crate::document::blocks_last(t)
            &&& ResourceHints::decoded(t) == Ok::<ResourceHints, Seq<char>>(v)
        }),
{
    reveal_strlit("suggested_memory_mib");
    reveal_strlit("suggested_vcpus");
    reveal_strlit("suggested_disk_gib");
    reveal_strlit("suggested_swap_mib");
    assert("suggested_memory_mib"@.len() == 20);
    assert("suggested_vcpus"@.len() == 15);
    assert("suggested_disk_gib"@.len() == 18);
    assert("suggested_swap_mib"@.len() == 18);
    assert("suggested_disk_gib"@[10] != "suggested_swap_mib"@[10]);
    let members = ResourceHints::tree(v)->Table_0;
    assert(crate::document::distinct_names(members));
    crate::document::distinct_member_is_found(members, 0);
    crate::document::distinct_member_is_found(members, 1);
    crate::document::distinct_member_is_found(members, 2);
    crate::document::distinct_member_is_found(members, 3);
    let allowed = seq![
        "suggested_memory_mib"@,
        "suggested_vcpus"@,
        "suggested_disk_gib"@,
        "suggested_swap_mib"@,
    ];
    assert forall|i: int| 0 <= i < members.len() implies allowed.contains(
        (#[trigger] members[i]).key,
    ) by {
        assert(allowed[i] == members[i].key);
    }
    crate::document::present_has_no_stranger(members, allowed);
    assert forall|i: int| 0 <= i < members.len() implies crate::document::plain(
        (#[trigger] members[i]).value,
        1,
    ) && (members[i].value is Null || crate::document::fits_toml(members[i].value))
        && crate::document::blocks_last(members[i].value) && !crate::document::is_block(
        members[i].value,
    ) by {
    }
    crate::document::present_keeps(members, 1);
}

/// A network has what TOML has, and TOML says it as any document does.
proof fn network_toml_is_read_back(v: NetworkView)
    ensures
        crate::document::fits_toml(NetworkPolicy::tree(v)),
        crate::document::blocks_last(NetworkPolicy::tree(v)),
        network_of_toml(NetworkPolicy::tree(v)) == NetworkPolicy::tree(v),
{
    let t = NetworkPolicy::tree(v);
    let members = t->Table_0;
    reveal_strlit("default");
    reveal_strlit("allow_hosts");
    reveal_strlit("allow_host_patterns");
    assert("default"@.len() == 7);
    assert("allow_hosts"@.len() == 11);
    assert("allow_host_patterns"@.len() == 19);
    assert(crate::document::distinct_names(members));
    crate::document::distinct_member_is_found(members, 0);
    crate::document::texts_fit_toml(v.allow_hosts);
    crate::document::texts_fit_toml(v.allow_host_patterns);
    assert forall|i: int| 0 <= i < members.len() implies crate::document::fits_toml(
        (#[trigger] members[i]).value,
    ) && crate::document::blocks_last(members[i].value) && !crate::document::is_block(
        members[i].value,
    ) by {
    }
    crate::document::same_member_changes_nothing(t, "default"@, members[0].value);
}

/// The variables of a hook have what TOML has, and TOML says them as any document does.
proof fn entries_toml_are_read_back(v: Seq<CaptureEnvView>)
    ensures
        ({
            let t = crate::document::list_tree::<CaptureEnvEntry>(v);
            &&& crate::document::fits_toml(t)
            &&& crate::document::blocks_last(t)
            &&& entries_of_toml(t) == t
        }),
{
    let t = crate::document::list_tree::<CaptureEnvEntry>(v);
    let items = t->List_0;
    assert forall|i: int| 0 <= i < items.len() implies crate::document::fits_toml(
        #[trigger] items[i],
    ) && crate::document::blocks_last(items[i]) && items[i].first_items(2) == items[i] by {
        let value = env_value_tree(v[i].value, v[i].secret);
        let parts = value->Table_0;
        assert forall|j: int| 0 <= j < parts.len() implies crate::document::fits_toml(
            (#[trigger] parts[j]).value,
        ) && crate::document::blocks_last(parts[j].value) && !crate::document::is_block(
            parts[j].value,
        ) by {
        }
        assert(crate::document::fits_toml(value) && crate::document::blocks_last(value));
        let members = items[i]->Table_0;
        assert(members[0].value is Text && members[1].value == value);
        assert forall|j: int| 0 <= j < members.len() implies crate::document::fits_toml(
            (#[trigger] members[j]).value,
        ) && crate::document::blocks_last(members[j].value) by {
        }
    }
    assert(entries_of_toml(t)->List_0 =~= items);
}

/// A hook is read back from what TOML has of it.
proof fn warm_toml_is_read_back(v: WarmView)
    ensures
        crate::document::plain(warm_toml_tree(v), 5),
        crate::document::blocks_last(warm_toml_tree(v)),
        crate::document::fits_toml(warm_toml_tree(v)) <==> (v.timeout_secs is Some ==> v.timeout_secs->0
            <= i64::MAX),
        warm_of_toml(warm_toml_tree(v)) == warm_toml_tree(v),
        WarmConfig::decoded(warm_toml_tree(v)) == Ok::<WarmView, Seq<char>>(v),
{
    reveal_strlit("command");
    reveal_strlit("timeout_secs");
    reveal_strlit("workdir");
    reveal_strlit("env");
    reveal_strlit("network");
    assert("command"@.len() == 7);
    assert("timeout_secs"@.len() == 12);
    assert("workdir"@.len() == 7);
    assert("env"@.len() == 3);
    assert("network"@.len() == 7);
    assert("command"@[0] != "workdir"@[0]);
    assert("command"@[0] != "network"@[0]);
    assert("workdir"@[0] != "network"@[0]);
    let t = warm_toml_tree(v);
    let members = WarmConfig::tree(v)->Table_0;
    assert(crate::document::distinct_names(members));
    crate::document::distinct_member_is_found(members, 0);
    crate::document::distinct_member_is_found(members, 1);
    crate::document::distinct_member_is_found(members, 2);
    crate::document::distinct_member_is_found(members, 3);
    crate::document::distinct_member_is_found(members, 4);
    let allowed = seq!["command"@, "timeout_secs"@, "workdir"@, "env"@, "network"@];
    assert forall|i: int| 0 <= i < members.len() implies allowed.contains(
        (#[trigger] members[i]).key,
    ) by {
        assert(allowed[i] == members[i].key);
    }
    crate::document::present_has_no_stranger(members, allowed);
    WarmConfig::is_read_back(v);
    crate::document::texts_fit_toml(v.command);
    entries_toml_are_read_back(v.env);
    if v.network is Some {
        network_toml_is_read_back(v.network->0);
        NetworkPolicy::is_read_back(v.network->0);
    }
    assert forall|i: int| 0 <= i < members.len() implies crate::document::plain(
        (#[trigger] members[i]).value,
        4,
    ) && crate::document::blocks_last(members[i].value) by {
    }
    assert forall|i: int, j: int|
        0 <= i < j < members.len() && crate::document::is_block(
            (#[trigger] members[i]).value,
        ) implies crate::document::is_block((#[trigger] members[j]).value)
        || members[j].value is Null by {
    }
    let fits = v.timeout_secs is Some ==> v.timeout_secs->0 <= i64::MAX;
    if fits {
        assert forall|i: int|
            0 <= i < members.len() && !((#[trigger] members[i]).value is Null) implies crate::document::fits_toml(
            members[i].value,
        ) by {
        }
    }
    crate::document::present_keeps(members, 4);
    let kept = t->Table_0;
    if !fits {
        assert(t.member("timeout_secs"@) == Some(members[1].value));
        let k = choose|k: int| crate::document::names_first(kept, "timeout_secs"@, k);
        assert(kept[k].value == members[1].value);
        assert(!crate::document::fits_toml(kept[k].value));
    }
    assert(t.member("env"@) == Some(members[3].value));
    crate::document::same_member_changes_nothing(t, "env"@, members[3].value);
    if v.network is Some {
        assert(t.member("network"@) == Some(members[4].value));
        crate::document::same_member_changes_nothing(t, "network"@, members[4].value);
    }
    crate::document::texts_are_read_back(t, "command"@, v.command);
    crate::document::list_is_read_back::<CaptureEnvEntry>(t, "env"@, v.env);
}

/// A configuration is read back from what TOML has of it. It has what TOML has exactly where the
/// timeout of its hook is a number that TOML has.
pub proof fn image_toml_is_read_back(c: ImageConfig)
    requires
        env_keys_differ(c),
    ensures
        crate::document::plain(image_toml_tree(c), 32),
        crate::document::blocks_last(image_toml_tree(c)),
        crate::document::fits_toml(image_toml_tree(c)) <==> timeout_fits_toml(c),
        ImageConfig::decoded(image_of_toml(image_toml_tree(c))) == Ok::<ImageView, Seq<char>>(c@),
{
    reveal_strlit("name");
    reveal_strlit("description");
    reveal_strlit("env");
    reveal_strlit("workdir");
    reveal_strlit("resources");
    reveal_strlit("warm");
    assert("name"@.len() == 4);
    assert("description"@.len() == 11);
    assert("env"@.len() == 3);
    assert("workdir"@.len() == 7);
    assert("resources"@.len() == 9);
    assert("warm"@.len() == 4);
    assert("name"@[0] != "warm"@[0]);
    let t = image_toml_tree(c);
    let members = image_toml_members(c);
    assert(crate::document::distinct_names(members));
    crate::document::distinct_member_is_found(members, 0);
    crate::document::distinct_member_is_found(members, 1);
    crate::document::distinct_member_is_found(members, 2);
    crate::document::distinct_member_is_found(members, 3);
    crate::document::distinct_member_is_found(members, 4);
    crate::document::distinct_member_is_found(members, 5);
    let allowed = seq!["name"@, "description"@, "env"@, "workdir"@, "resources"@, "warm"@];
    assert forall|i: int| 0 <= i < members.len() implies allowed.contains(
        (#[trigger] members[i]).key,
    ) by {
        assert(allowed[0] == members[0].key);
        assert(allowed[1] == members[1].key);
        assert(allowed[3] == members[2].key);
        assert(allowed[2] == members[3].key);
        assert(allowed[4] == members[4].key);
        assert(allowed[5] == members[5].key);
    }
    crate::document::present_has_no_stranger(members, allowed);
    let env = crate::document::map_tree(c.env.keys(), c.env.values());
    crate::document::map_fits_toml(c.env.keys(), c.env.values());
    resources_toml_is_read_back(c.resources);
    crate::document::plain_within(members[4].value, 2, 31);
    if c.warm is Some {
        let w = c.warm->0;
        warm_toml_is_read_back(w@);
        crate::document::plain_within(warm_toml_tree(w@), 5, 31);
    }
    assert(crate::document::Tree::Table(members).member("env"@) == Some(env));
    crate::document::map_is_read_back(
        crate::document::Tree::Table(members),
        "env"@,
        c.env.keys(),
        c.env.values(),
    );
    crate::document::plain_within(env, 2, 31);
    assert forall|i: int| 0 <= i < members.len() implies crate::document::plain(
        (#[trigger] members[i]).value,
        31,
    ) && crate::document::blocks_last(members[i].value) by {
    }
    assert forall|i: int, j: int|
        0 <= i < j < members.len() && crate::document::is_block(
            (#[trigger] members[i]).value,
        ) implies crate::document::is_block((#[trigger] members[j]).value)
        || members[j].value is Null by {
    }
    if timeout_fits_toml(c) {
        assert forall|i: int|
            0 <= i < members.len() && !((#[trigger] members[i]).value is Null) implies crate::document::fits_toml(
            members[i].value,
        ) by {
        }
    }
    crate::document::present_keeps(members, 31);
    if !timeout_fits_toml(c) {
        let kept = t->Table_0;
        assert(t.member("warm"@) == Some(members[5].value));
        let k = choose|k: int| crate::document::names_first(kept, "warm"@, k);
        assert(kept[k].value == members[5].value);
        assert(!crate::document::fits_toml(kept[k].value));
    }
    assert(t.member("resources"@) == Some(members[4].value));
    crate::document::same_member_changes_nothing(t, "resources"@, members[4].value);
    if c.warm is Some {
        assert(t.member("warm"@) == Some(members[5].value));
        crate::document::same_member_changes_nothing(t, "warm"@, members[5].value);
    }
    assert(image_of_toml(t) == t);
    crate::document::map_is_read_back(t, "env"@, c.env.keys(), c.env.values());
}

/// What has what TOML has holds no `Null`.
proof fn toml_holds_no_null(t: crate::document::Tree)
    requires
        crate::document::fits_toml(t),
    ensures
        !t.holds_null(),
    decreases t,
{
    match t {
        crate::document::Tree::List(items) => {
            assert forall|i: int| 0 <= i < items.len() implies !(#[trigger] items[i]).holds_null() by {
                toml_holds_no_null(items[i]);
            }
        },
        crate::document::Tree::Table(members) => {
            assert forall|i: int| 0 <= i < members.len() implies !(
            #[trigger] members[i]).value.holds_null() by {
                toml_holds_no_null(members[i].value);
            }
        },
        _ => {},
    }
}

/// The configuration as a document. A hook that is absent leaves no trace.
pub open spec fn image_tree(c: ImageConfig) -> crate::document::Tree {
    let members = seq![
        crate::document::named("name"@, crate::document::Tree::Text(c.name@)),
        crate::document::named(
            "description"@,
            crate::document::text_tree(c.description.deep_view()),
        ),
        crate::document::named("env"@, crate::document::map_tree(c.env.keys(), c.env.values())),
        crate::document::named("workdir"@, crate::document::text_tree(c.workdir.deep_view())),
        crate::document::named("resources"@, ResourceHints::tree(c.resources)),
    ];
    crate::document::Tree::Table(
        match c.warm {
            Some(w) => members.push(crate::document::named("warm"@, WarmConfig::tree(w@))),
            None => members,
        },
    )
}

/// The keys of a configuration's environment are those of a map: none occurs twice.
pub open spec fn env_keys_differ(c: ImageConfig) -> bool {
    &&& c.env.keys().len() == c.env.values().len()
    &&& forall|i: int, j: int|
        0 <= i < j < c.env.keys().len() ==> #[trigger] c.env.keys()[i] != #[trigger] c.env.keys()[j]
}

/// A configuration is read back from its document.
pub proof fn image_is_read_back(c: ImageConfig)
    requires
        env_keys_differ(c),
    ensures
        crate::document::plain(image_tree(c), 100),
        ImageConfig::decoded(image_tree(c)) == Ok::<ImageView, Seq<char>>(c@),
{
    reveal_strlit("name");
    reveal_strlit("description");
    reveal_strlit("env");
    reveal_strlit("workdir");
    reveal_strlit("resources");
    reveal_strlit("warm");
    assert("name"@.len() == 4);
    assert("description"@.len() == 11);
    assert("env"@.len() == 3);
    assert("workdir"@.len() == 7);
    assert("resources"@.len() == 9);
    assert("warm"@.len() == 4);
    assert("name"@[0] != "warm"@[0]);
    let t = image_tree(c);
    let members = t->Table_0;
    assert(crate::document::distinct_names(members));
    crate::document::distinct_member_is_found(members, 0);
    crate::document::distinct_member_is_found(members, 1);
    crate::document::distinct_member_is_found(members, 2);
    crate::document::distinct_member_is_found(members, 3);
    crate::document::distinct_member_is_found(members, 4);
    crate::document::map_is_read_back(t, "env"@, c.env.keys(), c.env.values());
    crate::document::plain_within(
        crate::document::map_tree(c.env.keys(), c.env.values()),
        2,
        99,
    );
    ResourceHints::is_read_back(c.resources);
    crate::document::plain_within(ResourceHints::tree(c.resources), 2, 99);
    if c.warm is Some {
        let w = c.warm->0;
        crate::document::distinct_member_is_found(members, 5);
        WarmConfig::is_read_back(w@);
        crate::document::plain_within(WarmConfig::tree(w@), 5, 99);
    } else {
        assert forall|i: int| 0 <= i < members.len() implies (#[trigger] members[i]).key
            != "warm"@ by {
        }
        assert(t.member("warm"@) is None);
    }
    let allowed = seq!["name"@, "description"@, "env"@, "workdir"@, "resources"@, "warm"@];
    assert forall|i: int| 0 <= i < members.len() implies allowed.contains(
        (#[trigger] members[i]).key,
    ) by {
        assert(allowed[i] == members[i].key);
    }
    crate::document::no_stranger(members, allowed, 0);
    assert forall|i: int| 0 <= i < members.len() implies crate::document::plain(
        (#[trigger] members[i]).value,
        99,
    ) by {
    }
}

impl ImageView {
    /// The configuration that a JSON text stands for, or the reason why it stands for none.
    pub open spec fn from_json(text: Seq<char>) -> Result<ImageView, Seq<char>> {
        match crate::document::json_read(text) {
            Ok(t) => ImageConfig::decoded(t),
            Err(e) => Err(e),
        }
    }

    /// The configuration that a TOML text stands for, or the reason why it stands for none. A
    /// number that is none, or not finite, is read as `Null`, and stands for nothing here.
    pub open spec fn from_toml(text: Seq<char>) -> Result<ImageView, Seq<char>> {
        match crate::document::toml_read(text) {
            Ok(t) => if t.holds_null() {
                Err("image config: a number must be finite"@)
            } else {
                ImageConfig::decoded(image_of_toml(t))
            },
            Err(e) => Err(e),
        }
    }
}

impl ImageConfig {
    /// Reads a configuration from TOML. A name that is not known is an error.
    pub fn from_toml(text: &str) -> (res: Result<ImageConfig, String>)
        ensures
            res is Ok <==> ImageView::from_toml(text@) is Ok,
            res is Ok ==> ImageView::from_toml(text@)->Ok_0 == res->Ok_0@,
            res is Err ==> ImageView::from_toml(text@)->Err_0 == res->Err_0@,
            forall|c: ImageConfig|
                env_keys_differ(c) && timeout_fits_toml(c) && crate::document::calm_texts(
                    #[trigger] image_toml_tree(c),
                ) && crate::document::toml_written(image_toml_tree(c)) == Ok::<
                    Seq<char>,
                    Seq<char>,
                >(text@) ==> res is Ok && res->Ok_0@ == c@,
    {
        let read = read_toml(text);
        proof {
            assert forall|c: ImageConfig|
                env_keys_differ(c) && timeout_fits_toml(c) && crate::document::calm_texts(
                    #[trigger] image_toml_tree(c),
                ) && crate::document::toml_written(image_toml_tree(c)) == Ok::<
                    Seq<char>,
                    Seq<char>,
                >(text@) implies ImageView::from_toml(text@) == Ok::<ImageView, Seq<char>>(c@) by {
                image_toml_is_read_back(c);
                toml_holds_no_null(image_toml_tree(c));
                assert(crate::document::can_be_tried(image_toml_tree(c)));
            }
        }
        match read {
            Ok(doc) => if doc.holds_null() {
                Err("image config: a number must be finite".to_owned())
            } else {
                ImageConfig::decode(&read_toml_image(doc))
            },
            Err(e) => Err(e),
        }
    }

    /// Reads a configuration from JSON. A name that is not known is an error; of a name that is
    /// repeated, the last value counts. What was written is read back.
    pub fn from_json(text: &str) -> (res: Result<ImageConfig, String>)
        ensures
            res is Ok <==> ImageView::from_json(text@) is Ok,
            res is Ok ==> ImageView::from_json(text@)->Ok_0 == res->Ok_0@,
            res is Err ==> ImageView::from_json(text@)->Err_0 == res->Err_0@,
            forall|c: ImageConfig|
                env_keys_differ(c) && text@ == crate::document::json_written(
                    #[trigger] image_tree(c),
                ) ==> res is Ok && res->Ok_0@ == c@,
    {
        let read = read_json(text);
        proof {
            assert forall|c: ImageConfig|
                env_keys_differ(c) && text@ == crate::document::json_written(
                    #[trigger] image_tree(c),
                ) implies ImageView::from_json(text@) == Ok::<ImageView, Seq<char>>(c@) by {
                image_is_read_back(c);
            }
        }
        match read {
            Ok(doc) => ImageConfig::decode(&doc),
            Err(e) => Err(e),
        }
    }

    /// Writes the configuration as TOML, without what is absent. What is written is read back; a
    /// timeout that TOML has no number for is refused. Texts with a quotation mark 256 times in a
    /// row are left out: on them `toml` overflows a counter.
    pub fn to_toml(&self) -> (res: Result<String, String>)
        requires
            crate::document::calm_texts(image_toml_tree(*self)),
        ensures
            res is Ok <==> timeout_fits_toml(*self),
            res is Ok ==> crate::document::toml_written(image_toml_tree(*self)) == Ok::<
                Seq<char>,
                Seq<char>,
            >(res->Ok_0@),
            res is Err ==> crate::document::toml_written(image_toml_tree(*self)) == Err::<
                Seq<char>,
                Seq<char>,
            >(res->Err_0@),
            env_keys_differ(*self),
    {
        let resources = match self.resources.encode() {
            Value::Table(members) => Value::Table(present_members(&members)),
            other => other,
        };
        let warm = match &self.warm {
            Some(w) => match w.encode() {
                Value::Table(members) => Value::Table(present_members(&members)),
                other => other,
            },
            None => Value::Null,
        };
        let mut members: Vec<Member> = Vec::new();
        members.push(member("name", Value::Text(self.name.clone())));
        members.push(member("description", text_value(&self.description)));
        members.push(member("workdir", text_value(&self.workdir)));
        members.push(member("env", map_value(&self.env)));
        members.push(member("resources", resources));
        members.push(member("warm", warm));
        assert(crate::document::table_view(members@) =~= image_toml_members(*self));
        let doc = Value::Table(present_members(&members));
        let n: usize = self.env.len();
        proof {
            assert forall|i: int, j: int|
                0 <= i < j < self.env.keys().len() implies #[trigger] self.env.keys()[i]
                != #[trigger] self.env.keys()[j] by {
                crate::text_map::before_is_total(self.env.keys()[i], self.env.keys()[j]);
            }
            image_toml_is_read_back(*self);
        }
        write_toml(&doc)
    }

    /// Writes the configuration as JSON.
    pub fn to_json(&self) -> (res: String)
        ensures
            res@ == crate::document::json_written(image_tree(*self)),
            env_keys_differ(*self),
    {
        let mut members: Vec<Member> = Vec::new();
        members.push(member("name", Value::Text(self.name.clone())));
        members.push(member("description", text_value(&self.description)));
        members.push(member("env", map_value(&self.env)));
        members.push(member("workdir", text_value(&self.workdir)));
        members.push(member("resources", self.resources.encode()));
        if let Some(w) = &self.warm {
            members.push(member("warm", w.encode()));
        }
        assert(crate::document::table_view(members@) =~= image_tree(*self)->Table_0);
        let doc = Value::Table(members);
        let n: usize = self.env.len();
        proof {
            assert forall|i: int, j: int|
                0 <= i < j < self.env.keys().len() implies #[trigger] self.env.keys()[i]
                != #[trigger] self.env.keys()[j] by {
                crate::text_map::before_is_total(self.env.keys()[i], self.env.keys()[j]);
            }
            image_is_read_back(*self);
        }
        write_json(&doc)
    }
}

/// A text sets the variable `k` exactly if it begins with `k=` and `k` has no `=`.
pub open spec fn sets(text: Seq<char>, k: Seq<char>) -> bool {
    !k.contains('=') && (k + seq!['=']).is_prefix_of(text)
}

/// Where a text sets a variable, its key ends at the first `=`, and its value is all that follows.
proof fn setting_is_split(text: Seq<char>, k: Seq<char>)
    ensures
        sets(text, k) ==> crate::text::split_first(text, '=') == Some(
            (k, text.subrange(k.len() as int + 1, text.len() as int)),
        ),
        crate::text::split_first(text, '=') is Some ==> sets(
            text,
            (crate::text::split_first(text, '=')->0).0,
        ),
{
    crate::text::first_index_spec(text, '=');
    if sets(text, k) {
        let head = k + seq!['='];
        assert(text.subrange(0, head.len() as int) == head);
        assert forall|j: int| 0 <= j < k.len() implies text[j] != '=' by {
            assert(text[j] == head[j]);
            assert(k.contains(k[j]));
        }
        assert(text[k.len() as int] == head[k.len() as int]);
        crate::text::first_index_unique(text, '=', k.len() as int);
        assert(text.subrange(0, k.len() as int) =~= k);
    }
    if crate::text::split_first(text, '=') is Some {
        let i = crate::text::first_index(text, '=');
        let key = text.subrange(0, i);
        assert forall|c: char| key.contains(c) implies c != '=' by {
            let j = choose|j: int| 0 <= j < key.len() && key[j] == c;
            assert(text[j] == c);
        }
        assert(text.subrange(0, i + 1) =~= key + seq!['=']);
    }
}

/// A variable has the value of the last text that sets it: `k=` and the value make up that text,
/// whatever the value holds.
pub proof fn variables_have_their_last_value(texts: Seq<Seq<char>>, k: Seq<char>, i: int)
    requires
        0 <= i < texts.len(),
        sets(texts[i], k),
        forall|j: int| i < j < texts.len() ==> !sets(#[trigger] texts[j], k),
    ensures
        env_of(texts).contains_key(k),
        k + seq!['='] + env_of(texts)[k] == texts[i],
    decreases texts.len(),
{
    let init = texts.drop_last();
    let last = texts.last();
    setting_is_split(last, k);
    if i == texts.len() - 1 {
        let head = k + seq!['='];
        assert(last.subrange(0, head.len() as int) == head);
        assert(head + last.subrange(k.len() as int + 1, last.len() as int) =~= last);
    } else {
        assert(init[i] == texts[i]);
        assert forall|j: int| i < j < init.len() implies !sets(#[trigger] init[j], k) by {
            assert(init[j] == texts[j]);
        }
        variables_have_their_last_value(init, k, i);
        assert(!sets(texts[texts.len() - 1], k));
    }
}

/// A variable that no text sets is not set.
pub proof fn nothing_else_is_set(texts: Seq<Seq<char>>, k: Seq<char>)
    requires
        forall|j: int| 0 <= j < texts.len() ==> !sets(#[trigger] texts[j], k),
    ensures
        !env_of(texts).contains_key(k),
    decreases texts.len(),
{
    if texts.len() > 0 {
        let init = texts.drop_last();
        setting_is_split(texts.last(), k);
        assert forall|j: int| 0 <= j < init.len() implies !sets(#[trigger] init[j], k) by {
            assert(init[j] == texts[j]);
        }
        nothing_else_is_set(init, k);
        assert(!sets(texts[texts.len() - 1], k));
    }
}

/// One text `k=v` sets `k` to `v`, whatever `v` holds.
pub proof fn one_text_sets_one_variable(k: Seq<char>, v: Seq<char>)
    requires
        !k.contains('='),
    ensures
        env_of(seq![k + seq!['='] + v]) == map![k => v],
{
    let text = k + seq!['='] + v;
    let texts = seq![text];
    assert(text.subrange(0, k.len() as int + 1) =~= k + seq!['=']);
    setting_is_split(text, k);
    assert(text.subrange(k.len() as int + 1, text.len() as int) =~= v);
    assert(texts.drop_last() =~= Seq::<Seq<char>>::empty());
    reveal_with_fuel(env_of, 2);
    assert(texts.last() == text);
    assert(env_of(texts) =~= map![k => v]);
}

/// Merging fills in the image's variables and its directory and touches nothing else.
pub proof fn merging_keeps_the_rest(
    config: ImageView,
    env: Map<Seq<char>, Seq<char>>,
    workdir: Option<Seq<char>>,
)
    ensures
        ({
            let merged = config.merged(env, workdir);
            &&& merged.name == config.name
            &&& merged.description == config.description
            &&& merged.resources == config.resources
            &&& merged.warm == config.warm
            &&& config.workdir is None ==> merged.workdir == workdir
            &&& config.workdir is Some ==> merged.workdir == config.workdir
        }),
{
}

/// Some character of the text is no white space.
pub open spec fn has_content(s: Seq<char>) -> bool {
    exists|i: int| 0 <= i < s.len() && !crate::text::white_space(#[trigger] s[i])
}

/// A configuration is valid exactly if its name has content, it says how many processors it
/// needs, its swap device (none, where nothing is said) is no larger than its memory (4096 MiB,
/// where nothing is said), and its hook, if it has one, has a command with content.
pub proof fn valid_configurations(c: ImageView)
    ensures
        c.problem() is None <==> {
            &&& has_content(c.name)
            &&& c.resources.suggested_vcpus is Some
            &&& (match c.resources.suggested_swap_mib {
                Some(n) => n as int,
                None => 0,
            }) <= (match c.resources.suggested_memory_mib {
                Some(n) => n as int,
                None => 4096,
            })
            &&& c.warm is Some ==> exists|i: int|
                0 <= i < c.warm->0.command.len() && has_content(#[trigger] c.warm->0.command[i])
        },
{
    if c.warm is Some {
        let command = c.warm->0.command;
        if exists|i: int| 0 <= i < command.len() && has_content(#[trigger] command[i]) {
            let i = choose|i: int| 0 <= i < command.len() && has_content(#[trigger] command[i]);
            assert(!crate::text::blank(command[i]));
        }
        if exists|i: int| 0 <= i < command.len() && !crate::text::blank(#[trigger] command[i]) {
            let i = choose|i: int|
                0 <= i < command.len() && !crate::text::blank(#[trigger] command[i]);
            assert(has_content(command[i]));
        }
    }
}

/// The recommended swap is a quarter of the memory in whole MiB, brought into the range from one
/// to eight GiB; more memory never asks for less swap.
pub proof fn recommended_swap_is_a_quarter(memory_mib: int, more: int)
    requires
        0 <= memory_mib <= more,
    ensures
        4 * 1024 <= memory_mib <= 4 * 8192 ==> 4 * recommended_swap(memory_mib) <= memory_mib < 4
            * recommended_swap(memory_mib) + 4,
        memory_mib < 4 * 1024 ==> recommended_swap(memory_mib) == 1024,
        memory_mib > 4 * 8192 ==> recommended_swap(memory_mib) == 8192,
        recommended_swap(memory_mib) <= recommended_swap(more),
{
}

/// Resources are what stands under their names, and have no others.
pub proof fn resources_are_read_by_name(t: crate::document::Tree, v: ResourceHints)
    requires
        t is Table,
    ensures
        ResourceHints::decoded(t) == Ok::<ResourceHints, Seq<char>>(v) <==> {
            &&& crate::document::names_only(
                t,
                seq!["suggested_memory_mib"@, "suggested_vcpus"@, "suggested_disk_gib"@,
                    "suggested_swap_mib"@],
            )
            &&& crate::document::says_number(
                t,
                "suggested_memory_mib"@,
                match v.suggested_memory_mib {
                    Some(n) => Some(n as int),
                    None => None,
                },
            )
            &&& crate::document::says_number(
                t,
                "suggested_vcpus"@,
                match v.suggested_vcpus {
                    Some(n) => Some(n as int),
                    None => None,
                },
            )
            &&& crate::document::says_number(
                t,
                "suggested_disk_gib"@,
                match v.suggested_disk_gib {
                    Some(n) => Some(n as int),
                    None => None,
                },
            )
            &&& crate::document::says_number(
                t,
                "suggested_swap_mib"@,
                match v.suggested_swap_mib {
                    Some(n) => Some(n as int),
                    None => None,
                },
            )
        },
{
    crate::document::strangers_are_refused(
        t,
        "resources"@,
        seq!["suggested_memory_mib"@, "suggested_vcpus"@, "suggested_disk_gib"@,
            "suggested_swap_mib"@],
    );
}

/// A variable of a hook is what stands under its names, and has no others: a text, or the name of
/// a secret, as its kind says.
pub proof fn variables_are_read_by_name(t: crate::document::Tree, v: CaptureEnvView)
    requires
        t is Table,
    ensures
        CaptureEnvEntry::decoded(t) == Ok::<CaptureEnvView, Seq<char>>(v) <==> {
            &&& crate::document::names_only(
                t,
                seq!["name"@, "value"@],
            )
            &&& t.member("name"@) == Some(crate::document::Tree::Text(v.name))
            &&& t.member("value"@) is Some && decoded_env_value(t.member("value"@)->0)
                == Ok::<(Seq<char>, bool), Seq<char>>((v.value, v.secret))
        },
{
    crate::document::strangers_are_refused(
        t,
        "warm.env"@,
        seq!["name"@, "value"@],
    );
}

/// A hook is what stands under its names, and has no others.
pub proof fn hooks_are_read_by_name(t: crate::document::Tree, v: WarmView)
    requires
        t is Table,
    ensures
        WarmConfig::decoded(t) == Ok::<WarmView, Seq<char>>(v) <==> {
            &&& crate::document::names_only(
                t,
                seq!["command"@, "timeout_secs"@, "workdir"@, "env"@, "network"@],
            )
            &&& crate::document::says_texts(t, "command"@, v.command)
                && t.member("command"@) is Some
            &&& crate::document::says_number(
                t,
                "timeout_secs"@,
                match v.timeout_secs {
                    Some(n) => Some(n as int),
                    None => None,
                },
            )
            &&& crate::document::says(t, "workdir"@, v.workdir)
            &&& crate::document::decoded_list::<CaptureEnvEntry>(t, "env"@)
                == Ok::<Seq<CaptureEnvView>, Seq<char>>(v.env)
            &&& (v.network is None && (t.member("network"@) is None || t.member("network"@)
                == Some(crate::document::Tree::Null))) || (v.network is Some
                && t.member("network"@) is Some && !(t.member("network"@)->0 is Null)
                && NetworkPolicy::decoded(t.member("network"@)->0)
                == Ok::<NetworkView, Seq<char>>(v.network->0))
        },
{
    crate::document::strangers_are_refused(
        t,
        "warm"@,
        seq!["command"@, "timeout_secs"@, "workdir"@, "env"@, "network"@],
    );
    crate::document::texts_are_read_in_place(t, "command"@, v.command);
}

/// A configuration is what stands under its names, and has no others.
pub proof fn configurations_are_read_by_name(t: crate::document::Tree, v: ImageView)
    requires
        t is Table,
    ensures
        ImageConfig::decoded(t) == Ok::<ImageView, Seq<char>>(v) <==> {
            &&& crate::document::names_only(
                t,
                seq!["name"@, "description"@, "env"@, "workdir"@, "resources"@, "warm"@],
            )
            &&& t.member("name"@) == Some(crate::document::Tree::Text(v.name))
            &&& crate::document::says(t, "description"@, v.description)
            &&& t.text_table("env"@) == Ok::<Map<Seq<char>, Seq<char>>, Seq<char>>(v.env)
            &&& crate::document::says(t, "workdir"@, v.workdir)
            &&& (t.member("resources"@) is None && v.resources
                == (ResourceHints { suggested_memory_mib: None, suggested_vcpus: None,
                suggested_disk_gib: None, suggested_swap_mib: None }))
                || (t.member("resources"@) is Some
                && ResourceHints::decoded(t.member("resources"@)->0) == Ok::<ResourceHints,
                Seq<char>>(v.resources))
            &&& (v.warm is None && (t.member("warm"@) is None || t.member("warm"@)
                == Some(crate::document::Tree::Null))) || (v.warm is Some
                && t.member("warm"@) is Some && !(t.member("warm"@)->0 is Null)
                && WarmConfig::decoded(t.member("warm"@)->0)
                == Ok::<WarmView, Seq<char>>(v.warm->0))
        },
{
    crate::document::strangers_are_refused(
        t,
        "image config"@,
        seq!["name"@, "description"@, "env"@, "workdir"@, "resources"@, "warm"@],
    );
}

/// The value of a variable is a text under `value`, or the name of a secret under `secret_ref`, as
/// its kind says.
pub proof fn values_are_read_by_kind(t: crate::document::Tree, s: Seq<char>, secret: bool)
    requires
        t is Table,
    ensures
        decoded_env_value(t) == Ok::<(Seq<char>, bool), Seq<char>>((s, secret)) <==> {
            ||| !secret && t.member("kind"@) == Some(crate::document::Tree::Text("literal"@))
                && t.member("value"@) == Some(crate::document::Tree::Text(s))
            ||| secret && t.member("kind"@) == Some(crate::document::Tree::Text("secret_ref"@))
                && t.member("secret_ref"@) == Some(crate::document::Tree::Text(s))
        },
{
    reveal_strlit("literal");
    reveal_strlit("secret_ref");
    assert("literal"@.len() == 7 && "secret_ref"@.len() == 10);
}

/// The memory and the swap device are those that are asked for; where nothing is said, the memory
/// is 4096 MiB, and there is no swap device.
pub proof fn resources_have_defaults(r: ResourceHints)
    ensures
        r.suggested_memory_mib is Some ==> r.memory_mib() == r.suggested_memory_mib->0,
        r.suggested_memory_mib is None ==> r.memory_mib() == 4096,
        r.suggested_swap_mib is Some ==> r.swap_mib() == r.suggested_swap_mib->0,
        r.suggested_swap_mib is None ==> r.swap_mib() == 0,
{
}

/// In TOML a surplus in a list of fields is ignored, for a network as for the variables of a hook:
/// what is read of a longer list is what is read of its beginning.
pub proof fn a_surplus_is_ignored(items: Seq<crate::document::Tree>, more: Seq<crate::document::Tree>)
    ensures
        items.len() == 3 ==> network_of_toml(crate::document::Tree::List(items + more))
            == network_of_toml(crate::document::Tree::List(items)),
        items.len() == 5 ==> warm_of_toml(crate::document::Tree::List(items + more))
            == warm_of_toml(crate::document::Tree::List(items)),
        items.len() == 2 ==> entries_of_toml(
            crate::document::Tree::List(seq![crate::document::Tree::List(items + more)]),
        ) == entries_of_toml(
            crate::document::Tree::List(seq![crate::document::Tree::List(items)]),
        ),
{
    assert((items + more).take(items.len() as int) =~= items);
    assert(items.take(items.len() as int) =~= items);
    if items.len() == 2 {
        let long = crate::document::Tree::List(items + more);
        let short = crate::document::Tree::List(items);
        assert(long.first_items(2) == short);
        assert(short.first_items(2) == short);
        assert(entries_of_toml(crate::document::Tree::List(seq![long]))->List_0 =~= entries_of_toml(
            crate::document::Tree::List(seq![short]),
        )->List_0);
    }
}

/// In TOML a name may stand alone, or be the one name of a table with nothing under it.
pub proof fn toml_names_may_stand_in_tables(name: Seq<char>, t: crate::document::Tree)
    ensures
        default_of_toml(crate::document::Tree::Text(name)) == crate::document::Tree::Text(name),
        default_of_toml(
            crate::document::Tree::Table(
                seq![
                    crate::document::MemberTree {
                        key: name,
                        value: crate::document::Tree::Table(Seq::empty()),
                    },
                ],
            ),
        ) == crate::document::Tree::Text(name),
        t is Table && t->Table_0.len() != 1 ==> default_of_toml(t) == t,
{
}

/// The stable names are the ones that are stored and sent: each is that of one value and of no
/// other.
pub proof fn secret_mode_names_are_stable(k: SecretMode)
    ensures
        k.name() == "literal"@ <==> k == SecretMode::Literal,
        k.name() == "broker"@ <==> k == SecretMode::Broker,
{
    if k.name() == "literal"@ {
        secret_mode_names_differ(k, SecretMode::Literal);
    }
    if k.name() == "broker"@ {
        secret_mode_names_differ(k, SecretMode::Broker);
    }
}

/// The stable names are the ones that are stored and sent: each is that of one value and of no
/// other.
pub proof fn network_default_names_are_stable(k: NetworkDefault)
    ensures
        k.name() == "allow"@ <==> k == NetworkDefault::Allow,
        k.name() == "deny"@ <==> k == NetworkDefault::Deny,
{
    if k.name() == "allow"@ {
        network_default_names_differ(k, NetworkDefault::Allow);
    }
    if k.name() == "deny"@ {
        network_default_names_differ(k, NetworkDefault::Deny);
    }
}

/// Of several things that are wrong with a configuration the first is told: its name, then its
/// processors, then its swap device, then its hook.
pub proof fn the_first_fault_is_told(c: ImageView)
    ensures
        !has_content(c.name) ==> c.problem() == Some("config `name` must be non-empty"@),
        has_content(c.name) && c.resources.suggested_vcpus is None ==> c.problem() == Some(
            "config `[resources] suggested_vcpus` is required (ADR 0048: placement reserves it against the host CPU budget)"@,
        ),
        has_content(c.name) && c.resources.suggested_vcpus is Some && c.resources.swap_mib()
            > c.resources.memory_mib() ==> c.problem() == Some(
            "config `[resources] suggested_swap_mib` ("@ + crate::text::decimal(
                c.resources.swap_mib() as nat,
            ) + ") exceeds the guest's memory ("@ + crate::text::decimal(
                c.resources.memory_mib() as nat,
            ) + " MiB) — swap must fit back into RAM at capture (ADR 0112)"@,
        ),
        has_content(c.name) && c.resources.suggested_vcpus is Some && c.resources.swap_mib()
            <= c.resources.memory_mib() && c.problem() is Some ==> c.problem() == Some(
            "[warm] command must be a non-empty argv"@,
        ),
{
}

/// A value that is only named is marked as a secret; one that stands there is not.
pub proof fn named_values_are_secrets(v: CaptureEnvValue)
    ensures
        v matches CaptureEnvValue::Literal { value } ==> env_value_view(v) == (value@, false),
        v matches CaptureEnvValue::SecretRef { secret_ref } ==> env_value_view(v) == (
            secret_ref@,
            true,
        ),
{
}

} // verus!
