//! The harness descriptor (`harness.toml`): what a harness needs in order to run.
//!
//! A descriptor names the environment variables that carry credentials, the models and effort
//! levels with the variables that select them, the session modes, and the hosts that the harness
//! itself must reach.
use crate::document::{decode_list, missing_text, read_toml, wrong_kind_text, Decode, Value};
use crate::text::{
    chars_of, contains_part, is_blank, is_lower, is_numeral, is_upper, push_decimal, quote_debug,
    same, starts_with,
};
use crate::text_map::TextMap;
use vstd::prelude::*;
use vstd::string::*;

verus! {

/// The hosts that the harness itself must reach.
#[derive(Clone, Debug, Default, PartialEq, Eq)]
pub struct HarnessEgress {
    pub allow_hosts: Vec<String>,
    pub allow_host_patterns: Vec<String>,
}

/// How an OAuth credential reaches the harness.
#[derive(Clone, Copy, Debug, PartialEq, Eq, Structural)]
pub enum OAuthDelivery {
    OpaqueBundle,
}

/// The OAuth connection that the harness uses for people.
#[derive(Clone, Debug, PartialEq, Eq)]
pub struct HarnessOAuth {
    /// The driver that serves the connection.
    pub provider: String,
    pub delivery: OAuthDelivery,
}

/// The credentials of a harness. People use a variable or an OAuth connection, not both.
#[derive(Clone, Debug, Default, PartialEq, Eq)]
pub struct HarnessAuth {
    /// The variable for the credential of the organisation.
    pub org_env: Option<String>,
    /// The variable for the credential of a person.
    pub user_env: Option<String>,
    pub user_oauth: Option<HarnessOAuth>,
    /// How to obtain the credential of the organisation.
    pub org_env_hint: Option<String>,
    /// How to obtain the credential of a person.
    pub user_env_hint: Option<String>,
}

/// A model or an effort level, with the variables that select it.
#[derive(Clone, Debug, Default, PartialEq, Eq)]
pub struct HarnessOption {
    pub id: String,
    pub label: Option<String>,
    pub default: bool,
    pub env: TextMap,
}

/// A session mode.
#[derive(Clone, Debug, Default, PartialEq, Eq)]
pub struct HarnessMode {
    pub id: String,
    pub label: Option<String>,
    pub default: bool,
}

/// A parsed `harness.toml`.
#[derive(Clone, Debug, Default, PartialEq, Eq)]
pub struct HarnessDescriptor {
    pub name: String,
    pub label: Option<String>,
    pub description: Option<String>,
    /// The entry path within the tree of the harness.
    pub entry: Option<String>,
    /// What follows the standard arguments at the launch.
    pub args: Vec<String>,
    pub auth: HarnessAuth,
    pub models: Vec<HarnessOption>,
    pub effort: Vec<HarnessOption>,
    pub modes: Vec<HarnessMode>,
    pub egress: HarnessEgress,
}

/// What a [`HarnessEgress`] stands for.
#[verifier::ext_equal]
pub ghost struct EgressView {
    pub allow_hosts: Seq<Seq<char>>,
    pub allow_host_patterns: Seq<Seq<char>>,
}

/// What a [`HarnessOAuth`] stands for.
#[verifier::ext_equal]
pub ghost struct OAuthView {
    pub provider: Seq<char>,
    pub delivery: OAuthDelivery,
}

/// What a [`HarnessAuth`] stands for.
#[verifier::ext_equal]
pub ghost struct AuthView {
    pub org_env: Option<Seq<char>>,
    pub user_env: Option<Seq<char>>,
    pub user_oauth: Option<OAuthView>,
    pub org_env_hint: Option<Seq<char>>,
    pub user_env_hint: Option<Seq<char>>,
}

/// What a [`HarnessOption`] stands for.
#[verifier::ext_equal]
pub ghost struct OptionView {
    pub id: Seq<char>,
    pub label: Option<Seq<char>>,
    pub default: bool,
    pub env: Map<Seq<char>, Seq<char>>,
}

/// What a [`HarnessMode`] stands for.
#[verifier::ext_equal]
pub ghost struct ModeView {
    pub id: Seq<char>,
    pub label: Option<Seq<char>>,
    pub default: bool,
}

/// What a [`HarnessDescriptor`] stands for.
#[verifier::ext_equal]
pub ghost struct DescriptorView {
    pub name: Seq<char>,
    pub label: Option<Seq<char>>,
    pub description: Option<Seq<char>>,
    pub entry: Option<Seq<char>>,
    pub args: Seq<Seq<char>>,
    pub auth: AuthView,
    pub models: Seq<OptionView>,
    pub effort: Seq<OptionView>,
    pub modes: Seq<ModeView>,
    pub egress: EgressView,
}

impl View for HarnessEgress {
    type V = EgressView;

    open spec fn view(&self) -> EgressView {
        EgressView {
            allow_hosts: self.allow_hosts.deep_view(),
            allow_host_patterns: self.allow_host_patterns.deep_view(),
        }
    }
}

impl View for HarnessOAuth {
    type V = OAuthView;

    open spec fn view(&self) -> OAuthView {
        OAuthView { provider: self.provider@, delivery: self.delivery }
    }
}

impl View for HarnessAuth {
    type V = AuthView;

    open spec fn view(&self) -> AuthView {
        AuthView {
            org_env: self.org_env.deep_view(),
            user_env: self.user_env.deep_view(),
            user_oauth: match self.user_oauth {
                Some(o) => Some(o@),
                None => None,
            },
            org_env_hint: self.org_env_hint.deep_view(),
            user_env_hint: self.user_env_hint.deep_view(),
        }
    }
}

impl View for HarnessOption {
    type V = OptionView;

    open spec fn view(&self) -> OptionView {
        OptionView {
            id: self.id@,
            label: self.label.deep_view(),
            default: self.default,
            env: self.env@,
        }
    }
}

impl View for HarnessMode {
    type V = ModeView;

    open spec fn view(&self) -> ModeView {
        ModeView { id: self.id@, label: self.label.deep_view(), default: self.default }
    }
}

impl View for HarnessDescriptor {
    type V = DescriptorView;

    open spec fn view(&self) -> DescriptorView {
        DescriptorView {
            name: self.name@,
            label: self.label.deep_view(),
            description: self.description.deep_view(),
            entry: self.entry.deep_view(),
            args: self.args.deep_view(),
            auth: self.auth@,
            models: crate::text::views(self.models@),
            effort: crate::text::views(self.effort@),
            modes: crate::text::views(self.modes@),
            egress: self.egress@,
        }
    }
}

/// A letter, a digit or an underscore.
pub open spec fn env_char(c: char) -> bool {
    crate::text::lower(c) || crate::text::upper(c) || crate::text::numeral(c) || c == '_'
}

/// What is wrong with the name of an environment variable: it begins with a letter or an
/// underscore, and letters, digits and underscores follow.
pub open spec fn env_name_problem(name: Seq<char>) -> Option<Seq<char>> {
    if name.len() == 0 || !(crate::text::lower(name[0]) || crate::text::upper(name[0]) || name[0]
        == '_') {
        Some(
            "invalid env var name "@ + crate::text::debug_quoted(name)
                + " (must start with a letter or underscore)"@,
        )
    } else if exists|i: int| 0 <= i < name.len() && !env_char(#[trigger] name[i]) {
        Some(
            "invalid env var name "@ + crate::text::debug_quoted(name)
                + " (only [A-Za-z0-9_] allowed)"@,
        )
    } else {
        None
    }
}

/// A lower-case letter, a digit or a hyphen.
pub open spec fn stable_char(c: char) -> bool {
    crate::text::lower(c) || crate::text::numeral(c) || c == '-'
}

/// What is wrong with a stable id: it begins with a lower-case letter, and lower-case letters,
/// digits and hyphens follow.
pub open spec fn stable_id_problem(id: Seq<char>) -> Option<Seq<char>> {
    if id.len() > 0 && crate::text::lower(id[0]) && forall|i: int|
        0 <= i < id.len() ==> stable_char(#[trigger] id[i]) {
        None
    } else {
        Some(
            "invalid stable id "@ + crate::text::debug_quoted(id)
                + " (expected [a-z][a-z0-9-]*)"@,
        )
    }
}

/// `k` is the first key, in the order of texts, that is no name of a variable.
pub open spec fn is_first_bad_key(env: Map<Seq<char>, Seq<char>>, k: Seq<char>) -> bool {
    &&& env.contains_key(k)
    &&& env_name_problem(k) is Some
    &&& forall|other: Seq<char>| #[trigger]
        env.contains_key(other) && env_name_problem(other) is Some && other != k
            ==> crate::text_map::before(k, other)
}

/// What is wrong with the keys of `env`.
pub open spec fn env_problem(env: Map<Seq<char>, Seq<char>>) -> Option<Seq<char>> {
    if exists|k: Seq<char>| is_first_bad_key(env, k) {
        env_name_problem(choose|k: Seq<char>| is_first_bad_key(env, k))
    } else {
        None
    }
}

/// There is one first bad key.
proof fn first_bad_key_is_one(env: Map<Seq<char>, Seq<char>>, a: Seq<char>, b: Seq<char>)
    requires
        is_first_bad_key(env, a),
        is_first_bad_key(env, b),
    ensures
        a == b,
{
    crate::text_map::before_is_total(a, b);
}

/// What is wrong with option `i` of the list `field`.
pub open spec fn option_problem(field: Seq<char>, options: Seq<OptionView>, i: int) -> Option<
    Seq<char>,
> {
    let id = options[i].id;
    if crate::text::blank(id) {
        Some("harness.toml [["@ + field + "]]: id must not be empty"@)
    } else if exists|j: int| 0 <= j < i && (#[trigger] options[j]).id == id {
        Some("harness.toml [["@ + field + "]]: duplicate id "@ + crate::text::debug_quoted(id))
    } else {
        match env_problem(options[i].env) {
            Some(e) => Some(
                "harness.toml [["@ + field + "]] "@ + crate::text::debug_quoted(id) + " env: "@
                    + e,
            ),
            None => None,
        }
    }
}

/// What is wrong with the list of options `field`: each id is there and stands once, each key
/// names a variable, and at most one option is the default.
pub open spec fn options_problem(field: Seq<char>, options: Seq<OptionView>) -> Option<Seq<char>> {
    match crate::text::first_problem(
        options.len() as int,
        0,
        |i: int| option_problem(field, options, i),
    ) {
        Some(e) => Some(e),
        None => {
            let defaults = options.filter(|o: OptionView| o.default).len();
            if defaults > 1 {
                Some(
                    "harness.toml [["@ + field + "]]: at most one option may be default ("@
                        + crate::text::decimal(defaults) + " found)"@,
                )
            } else {
                None
            }
        },
    }
}

/// What is wrong with mode `i`.
pub open spec fn mode_problem(modes: Seq<ModeView>, i: int) -> Option<Seq<char>> {
    let id = modes[i].id;
    if crate::text::blank(id) {
        Some("harness.toml [[modes]]: id must not be empty"@)
    } else if exists|j: int| 0 <= j < i && (#[trigger] modes[j]).id == id {
        Some("harness.toml [[modes]]: duplicate id "@ + crate::text::debug_quoted(id))
    } else {
        None
    }
}

/// What is wrong with the list of modes.
pub open spec fn modes_problem(modes: Seq<ModeView>) -> Option<Seq<char>> {
    match crate::text::first_problem(modes.len() as int, 0, |i: int| mode_problem(modes, i)) {
        Some(e) => Some(e),
        None => {
            let defaults = modes.filter(|m: ModeView| m.default).len();
            if defaults > 1 {
                Some(
                    "harness.toml [[modes]]: at most one mode may be default ("@
                        + crate::text::decimal(defaults) + " found)"@,
                )
            } else {
                None
            }
        },
    }
}

/// A non-empty path that is not absolute and has no part `..`: joined to a directory, it stays
/// in that directory's tree.
pub open spec fn stays_within(path: Seq<char>) -> bool {
    &&& path.len() > 0
    &&& path[0] != '/'
    &&& !crate::text::has_part(path, '/', ".."@)
}

/// What is wrong with the credentials.
pub open spec fn auth_problem(auth: AuthView) -> Option<Seq<char>> {
    if auth.org_env is Some && env_name_problem(auth.org_env->0) is Some {
        Some("harness.toml [auth] org_env: "@ + env_name_problem(auth.org_env->0)->0)
    } else if auth.user_env is Some && env_name_problem(auth.user_env->0) is Some {
        Some("harness.toml [auth] user_env: "@ + env_name_problem(auth.user_env->0)->0)
    } else if auth.user_env is Some && auth.user_oauth is Some {
        Some("harness.toml [auth]: user_env and user_oauth are mutually exclusive"@)
    } else if auth.user_oauth is Some && stable_id_problem(auth.user_oauth->0.provider) is Some {
        Some(
            "harness.toml [auth.user_oauth] provider: "@ + stable_id_problem(
                auth.user_oauth->0.provider,
            )->0,
        )
    } else {
        None
    }
}

impl DescriptorView {
    /// The first rule that the descriptor breaks, in words.
    pub open spec fn problem(self) -> Option<Seq<char>> {
        if crate::text::blank(self.name) {
            Some("harness.toml: name must not be empty"@)
        } else if self.entry is Some && !stays_within(self.entry->0) {
            Some(
                "harness.toml: exec must be a non-empty relative path within the harness tree, got "@
                    + crate::text::debug_quoted(self.entry->0),
            )
        } else if auth_problem(self.auth) is Some {
            auth_problem(self.auth)
        } else if options_problem("models"@, self.models) is Some {
            options_problem("models"@, self.models)
        } else if options_problem("effort"@, self.effort) is Some {
            options_problem("effort"@, self.effort)
        } else {
            modes_problem(self.modes)
        }
    }
}

/// `first`, if it is there, else `second`.
fn or_else<'a>(first: &'a Option<String>, second: &'a str) -> (res: &'a str)
    ensures
        res@ == (match first.deep_view() {
            Some(t) => t,
            None => second@,
        }),
{
    match first {
        Some(t) => t.as_str(),
        None => second,
    }
}

impl HarnessEgress {
    /// Whether no host is named.
    pub fn is_empty(&self) -> (res: bool)
        ensures
            res == (self@.allow_hosts.len() == 0 && self@.allow_host_patterns.len() == 0),
    {
        self.allow_hosts.len() == 0 && self.allow_host_patterns.len() == 0
    }
}

impl HarnessMode {
    /// The label, else the id.
    pub fn display_label(&self) -> (res: &str)
        ensures
            res@ == (match self@.label {
                Some(t) => t,
                None => self@.id,
            }),
    {
        or_else(&self.label, self.id.as_str())
    }
}

impl HarnessOption {
    /// The label, else the id.
    pub fn display_label(&self) -> (res: &str)
        ensures
            res@ == (match self@.label {
                Some(t) => t,
                None => self@.id,
            }),
    {
        or_else(&self.label, self.id.as_str())
    }
}

/// Tells what is wrong with the name of an environment variable.
fn validate_env_name(name: &str) -> (res: Result<(), String>)
    ensures
        res is Ok <==> env_name_problem(name@) is None,
        res is Err ==> env_name_problem(name@) == Some(res->Err_0@),
{
    let chars = chars_of(name);
    if chars.len() == 0 || !(is_lower(chars[0]) || is_upper(chars[0]) || chars[0] == '_') {
        let mut text = String::from_str("invalid env var name ");
        text.append(quote_debug(name).as_str());
        text.append(" (must start with a letter or underscore)");
        return Err(text);
    }
    let mut i: usize = 0;
    while i < chars.len()
        invariant
            chars@ == name@,
            i <= chars@.len(),
            chars@.len() > 0,
            crate::text::lower(chars@[0]) || crate::text::upper(chars@[0]) || chars@[0] == '_',
            forall|j: int| 0 <= j < i ==> env_char(#[trigger] chars@[j]),
        decreases chars.len() - i,
    {
        let c: char = chars[i];
        if !(is_lower(c) || is_upper(c) || is_numeral(c) || c == '_') {
            assert(!env_char(name@[i as int]));
            let mut text = String::from_str("invalid env var name ");
            text.append(quote_debug(name).as_str());
            text.append(" (only [A-Za-z0-9_] allowed)");
            return Err(text);
        }
        i += 1;
    }
    Ok(())
}

/// Tells what is wrong with a stable id.
fn validate_stable_id(value: &str) -> (res: Result<(), String>)
    ensures
        res is Ok <==> stable_id_problem(value@) is None,
        res is Err ==> stable_id_problem(value@) == Some(res->Err_0@),
{
    let chars = chars_of(value);
    let mut good = chars.len() > 0 && is_lower(chars[0]);
    let mut i: usize = 0;
    while i < chars.len()
        invariant
            chars@ == value@,
            i <= chars@.len(),
            good == (chars@.len() > 0 && crate::text::lower(chars@[0]) && forall|j: int|
                0 <= j < i ==> stable_char(#[trigger] chars@[j])),
        decreases chars.len() - i,
    {
        let c: char = chars[i];
        if !(is_lower(c) || is_numeral(c) || c == '-') {
            assert(!stable_char(chars@[i as int]));
            good = false;
        }
        i += 1;
    }
    if good {
        Ok(())
    } else {
        let mut text = String::from_str("invalid stable id ");
        text.append(quote_debug(value).as_str());
        text.append(" (expected [a-z][a-z0-9-]*)");
        Err(text)
    }
}

/// Tells what is wrong with the keys of `env`.
fn validate_env(env: &TextMap) -> (res: Result<(), String>)
    ensures
        res is Ok <==> env_problem(env@) is None,
        res is Err ==> env_problem(env@) == Some(res->Err_0@),
{
    let n: usize = env.len();
    let mut i: usize = 0;
    while i < n
        invariant
            n == env.keys().len(),
            i <= n,
            forall|a: int, b: int|
                0 <= a < b < n ==> crate::text_map::before(
                    #[trigger] env.keys()[a],
                    #[trigger] env.keys()[b],
                ),
            forall|k: Seq<char>| #[trigger] env@.contains_key(k) <==> env.keys().contains(k),
            forall|j: int| 0 <= j < i ==> env_name_problem(#[trigger] env.keys()[j]) is None,
        decreases n - i,
    {
        match validate_env_name(env.key_at(i)) {
            Ok(_) => {},
            Err(e) => {
                proof {
                    let k = env.keys()[i as int];
                    assert(env@.contains_key(k));
                    assert forall|other: Seq<char>| #[trigger]
                        env@.contains_key(other) && env_name_problem(other) is Some && other
                            != k implies crate::text_map::before(k, other) by {
                        let j = choose|j: int| 0 <= j < env.keys().len() && env.keys()[j] == other;
                        assert(j > i);
                    }
                    assert(is_first_bad_key(env@, k));
                    let f = choose|f: Seq<char>| is_first_bad_key(env@, f);
                    first_bad_key_is_one(env@, k, f);
                }
                return Err(e);
            },
        }
        i += 1;
    }
    proof {
        if exists|k: Seq<char>| is_first_bad_key(env@, k) {
            let k = choose|k: Seq<char>| is_first_bad_key(env@, k);
            let j = choose|j: int| 0 <= j < env.keys().len() && env.keys()[j] == k;
            assert(env_name_problem(env.keys()[j]) is None);
        }
    }
    Ok(())
}

/// Tells what is wrong with a list of options.
fn validate_options(field: &str, options: &Vec<HarnessOption>) -> (res: Result<(), String>)
    ensures
        res is Ok <==> options_problem(field@, crate::text::views(options@)) is None,
        res is Err ==> options_problem(field@, crate::text::views(options@)) == Some(
            res->Err_0@,
        ),
{
    let ghost all = crate::text::views(options@);
    let ghost f = |i: int| option_problem(field@, all, i);
    let ghost p = |o: OptionView| o.default;
    let mut defaults: u64 = 0;
    let mut i: usize = 0;
    proof {
        reveal(Seq::filter);
        assert(all.take(0) =~= Seq::empty());
    }
    while i < options.len()
        invariant
            i <= options@.len(),
            all == crate::text::views(options@),
            f == (|i: int| option_problem(field@, all, i)),
            p == (|o: OptionView| o.default),
            crate::text::first_problem(all.len() as int, 0, f) == crate::text::first_problem(
                all.len() as int,
                i as int,
                f,
            ),
            defaults == all.take(i as int).filter(p).len(),
            defaults <= i,
        decreases options.len() - i,
    {
        assert(all[i as int] == options@[i as int]@);
        proof {
            reveal(Seq::filter);
            assert(all.take(i + 1).drop_last() =~= all.take(i as int));
        }
        let id = options[i].id.as_str();
        if is_blank(id) {
            let mut text = String::from_str("harness.toml [[");
            text.append(field);
            text.append("]]: id must not be empty");
            return Err(text);
        }
        let mut j: usize = 0;
        while j < i
            invariant
                j <= i < options@.len(),
                all == crate::text::views(options@),
                id@ == all[i as int].id,
                f == (|i: int| option_problem(field@, all, i)),
                !crate::text::blank(id@),
                crate::text::first_problem(all.len() as int, 0, f) == crate::text::first_problem(
                    all.len() as int,
                    i as int,
                    f,
                ),
                forall|k: int| 0 <= k < j ==> (#[trigger] all[k]).id != id@,
            decreases i - j,
        {
            assert(all[j as int] == options@[j as int]@);
            if same(options[j].id.as_str(), id) {
                assert(all[j as int].id == id@);
                let mut text = String::from_str("harness.toml [[");
                text.append(field);
                text.append("]]: duplicate id ");
                text.append(quote_debug(id).as_str());
                return Err(text);
            }
            j += 1;
        }
        if options[i].default {
            defaults = defaults + 1;
        }
        match validate_env(&options[i].env) {
            Ok(_) => {},
            Err(e) => {
                let mut text = String::from_str("harness.toml [[");
                text.append(field);
                text.append("]] ");
                text.append(quote_debug(id).as_str());
                text.append(" env: ");
                text.append(e.as_str());
                return Err(text);
            },
        }
        i += 1;
    }
    assert(all.take(i as int) =~= all);
    if defaults > 1 {
        let mut text = String::from_str("harness.toml [[");
        text.append(field);
        text.append("]]: at most one option may be default (");
        push_decimal(&mut text, defaults);
        text.append(" found)");
        return Err(text);
    }
    Ok(())
}

/// Tells what is wrong with the list of modes.
fn validate_modes(modes: &Vec<HarnessMode>) -> (res: Result<(), String>)
    ensures
        res is Ok <==> modes_problem(crate::text::views(modes@)) is None,
        res is Err ==> modes_problem(crate::text::views(modes@)) == Some(res->Err_0@),
{
    let ghost all = crate::text::views(modes@);
    let ghost f = |i: int| mode_problem(all, i);
    let ghost p = |m: ModeView| m.default;
    let mut defaults: u64 = 0;
    let mut i: usize = 0;
    proof {
        reveal(Seq::filter);
        assert(all.take(0) =~= Seq::empty());
    }
    while i < modes.len()
        invariant
            i <= modes@.len(),
            all == crate::text::views(modes@),
            f == (|i: int| mode_problem(all, i)),
            p == (|m: ModeView| m.default),
            crate::text::first_problem(all.len() as int, 0, f) == crate::text::first_problem(
                all.len() as int,
                i as int,
                f,
            ),
            defaults == all.take(i as int).filter(p).len(),
            defaults <= i,
        decreases modes.len() - i,
    {
        assert(all[i as int] == modes@[i as int]@);
        proof {
            reveal(Seq::filter);
            assert(all.take(i + 1).drop_last() =~= all.take(i as int));
        }
        let id = modes[i].id.as_str();
        if is_blank(id) {
            return Err(String::from_str("harness.toml [[modes]]: id must not be empty"));
        }
        let mut j: usize = 0;
        while j < i
            invariant
                j <= i < modes@.len(),
                all == crate::text::views(modes@),
                id@ == all[i as int].id,
                f == (|i: int| mode_problem(all, i)),
                !crate::text::blank(id@),
                crate::text::first_problem(all.len() as int, 0, f) == crate::text::first_problem(
                    all.len() as int,
                    i as int,
                    f,
                ),
                forall|k: int| 0 <= k < j ==> (#[trigger] all[k]).id != id@,
            decreases i - j,
        {
            assert(all[j as int] == modes@[j as int]@);
            if same(modes[j].id.as_str(), id) {
                assert(all[j as int].id == id@);
                let mut text = String::from_str("harness.toml [[modes]]: duplicate id ");
                text.append(quote_debug(id).as_str());
                return Err(text);
            }
            j += 1;
        }
        if modes[i].default {
            defaults = defaults + 1;
        }
        i += 1;
    }
    assert(all.take(i as int) =~= all);
    if defaults > 1 {
        let mut text = String::from_str(
            "harness.toml [[modes]]: at most one mode may be default (",
        );
        push_decimal(&mut text, defaults);
        text.append(" found)");
        return Err(text);
    }
    Ok(())
}

/// Tells what is wrong with the credentials.
fn validate_auth(auth: &HarnessAuth) -> (res: Result<(), String>)
    ensures
        res is Ok <==> auth_problem(auth@) is None,
        res is Err ==> auth_problem(auth@) == Some(res->Err_0@),
{
    if let Some(v) = &auth.org_env {
        if let Err(e) = validate_env_name(v.as_str()) {
            let mut text = String::from_str("harness.toml [auth] org_env: ");
            text.append(e.as_str());
            return Err(text);
        }
    }
    if let Some(v) = &auth.user_env {
        if let Err(e) = validate_env_name(v.as_str()) {
            let mut text = String::from_str("harness.toml [auth] user_env: ");
            text.append(e.as_str());
            return Err(text);
        }
    }
    if auth.user_env.is_some() && auth.user_oauth.is_some() {
        return Err(
            String::from_str("harness.toml [auth]: user_env and user_oauth are mutually exclusive"),
        );
    }
    if let Some(oauth) = &auth.user_oauth {
        if let Err(e) = validate_stable_id(oauth.provider.as_str()) {
            let mut text = String::from_str("harness.toml [auth.user_oauth] provider: ");
            text.append(e.as_str());
            return Err(text);
        }
    }
    Ok(())
}

impl HarnessDescriptor {
    /// Tells which rule the descriptor breaks: a name that is not blank; an `exec` that stays
    /// within the tree; well-formed names of variables; one credential for people; unique ids
    /// and at most one default in each list.
    pub fn validate(&self) -> (res: Result<(), String>)
        ensures
            res is Ok <==> self@.problem() is None,
            res is Err ==> self@.problem() == Some(res->Err_0@),
    {
        if is_blank(self.name.as_str()) {
            return Err(String::from_str("harness.toml: name must not be empty"));
        }
        if let Some(entry) = &self.entry {
            proof {
                reveal_strlit("/");
                if entry@.len() > 0 {
                    assert("/"@.is_prefix_of(entry@) <==> entry@[0] == '/') by {
                        if entry@[0] == '/' {
                            assert("/"@ =~= entry@.subrange(0, 1));
                        }
                        if "/"@.is_prefix_of(entry@) {
                            assert(entry@.subrange(0, 1)[0] == entry@[0]);
                        }
                    }
                }
            }
            if entry.as_str().is_empty() || starts_with(entry.as_str(), "/") || contains_part(
                entry.as_str(),
                '/',
                "..",
            ) {
                let mut text = String::from_str(
                    "harness.toml: exec must be a non-empty relative path within the harness tree, got ",
                );
                text.append(quote_debug(entry.as_str()).as_str());
                return Err(text);
            }
        }
        if let Err(e) = validate_auth(&self.auth) {
            return Err(e);
        }
        if let Err(e) = validate_options("models", &self.models) {
            return Err(e);
        }
        if let Err(e) = validate_options("effort", &self.effort) {
            return Err(e);
        }
        validate_modes(&self.modes)
    }
}

/// The ids of a list of options.
pub open spec fn ids(options: Seq<OptionView>) -> Seq<Seq<char>> {
    Seq::new(options.len(), |i: int| options[i].id)
}

/// The ids of a list of modes.
pub open spec fn mode_ids(modes: Seq<ModeView>) -> Seq<Seq<char>> {
    Seq::new(modes.len(), |i: int| modes[i].id)
}

/// `i` is the first place at which `ids` has `id`.
pub open spec fn is_first_id(ids: Seq<Seq<char>>, id: Seq<char>, i: int) -> bool {
    &&& 0 <= i < ids.len()
    &&& ids[i] == id
    &&& forall|j: int| 0 <= j < i ==> #[trigger] ids[j] != id
}

/// `i` is the place of the default: the first that is flagged; the first of all, if none is.
pub open spec fn is_default_place(flags: Seq<bool>, i: int) -> bool {
    &&& 0 <= i < flags.len()
    &&& if flags[i] {
        forall|j: int| 0 <= j < i ==> !#[trigger] flags[j]
    } else {
        i == 0 && forall|j: int| 0 <= j < flags.len() ==> !#[trigger] flags[j]
    }
}

/// Which of a list of options are flagged as the default.
pub open spec fn flags(options: Seq<OptionView>) -> Seq<bool> {
    Seq::new(options.len(), |i: int| options[i].default)
}

/// Which of a list of modes are flagged as the default.
pub open spec fn mode_flags(modes: Seq<ModeView>) -> Seq<bool> {
    Seq::new(modes.len(), |i: int| modes[i].default)
}

/// The option with this id.
fn find_option<'a>(options: &'a Vec<HarnessOption>, id: &str) -> (res: Option<&'a HarnessOption>)
    ensures
        res is Some ==> exists|i: int|
            is_first_id(ids(crate::text::views(options@)), id@, i) && *res->0
                == #[trigger] options@[i],
        res is None ==> !ids(crate::text::views(options@)).contains(id@),
{
    let ghost names = ids(crate::text::views(options@));
    let mut i: usize = 0;
    while i < options.len()
        invariant
            names == ids(crate::text::views(options@)),
            i <= options@.len(),
            forall|j: int| 0 <= j < i ==> #[trigger] names[j] != id@,
        decreases options.len() - i,
    {
        assert(names[i as int] == options@[i as int].id@);
        if same(options[i].id.as_str(), id) {
            assert(is_first_id(names, id@, i as int));
            return Some(&options[i]);
        }
        i += 1;
    }
    None
}

/// The default option.
fn default_option(options: &Vec<HarnessOption>) -> (res: Option<&HarnessOption>)
    ensures
        res is Some <==> options@.len() > 0,
        res is Some ==> exists|i: int|
            is_default_place(flags(crate::text::views(options@)), i) && *res->0
                == #[trigger] options@[i],
{
    let ghost all = flags(crate::text::views(options@));
    let mut i: usize = 0;
    while i < options.len()
        invariant
            all == flags(crate::text::views(options@)),
            i <= options@.len(),
            forall|j: int| 0 <= j < i ==> !#[trigger] all[j],
        decreases options.len() - i,
    {
        assert(all[i as int] == options@[i as int].default);
        if options[i].default {
            assert(is_default_place(all, i as int));
            return Some(&options[i]);
        }
        i += 1;
    }
    if options.len() > 0 {
        assert(is_default_place(all, 0));
        Some(&options[0])
    } else {
        None
    }
}

impl HarnessDescriptor {
    /// The model with this id.
    pub fn model(&self, id: &str) -> (res: Option<&HarnessOption>)
        ensures
            res is Some ==> exists|i: int|
                is_first_id(ids(crate::text::views(self.models@)), id@, i) && *res->0
                    == #[trigger] self.models@[i],
            res is None ==> !ids(crate::text::views(self.models@)).contains(id@),
    {
        find_option(&self.models, id)
    }

    /// The effort level with this id.
    pub fn effort(&self, id: &str) -> (res: Option<&HarnessOption>)
        ensures
            res is Some ==> exists|i: int|
                is_first_id(ids(crate::text::views(self.effort@)), id@, i) && *res->0
                    == #[trigger] self.effort@[i],
            res is None ==> !ids(crate::text::views(self.effort@)).contains(id@),
    {
        find_option(&self.effort, id)
    }

    /// The mode with this id.
    pub fn mode(&self, id: &str) -> (res: Option<&HarnessMode>)
        ensures
            res is Some ==> exists|i: int|
                is_first_id(mode_ids(crate::text::views(self.modes@)), id@, i) && *res->0
                    == #[trigger] self.modes@[i],
            res is None ==> !mode_ids(crate::text::views(self.modes@)).contains(id@),
    {
        let ghost names = mode_ids(crate::text::views(self.modes@));
        let mut i: usize = 0;
        while i < self.modes.len()
            invariant
                names == mode_ids(crate::text::views(self.modes@)),
                i <= self.modes@.len(),
                forall|j: int| 0 <= j < i ==> #[trigger] names[j] != id@,
            decreases self.modes.len() - i,
        {
            assert(names[i as int] == self.modes@[i as int].id@);
            if same(self.modes[i].id.as_str(), id) {
                assert(is_first_id(names, id@, i as int));
                return Some(&self.modes[i]);
            }
            i += 1;
        }
        None
    }

    /// The mode in which a session starts: the first that is flagged as the default, else the
    /// first.
    pub fn default_mode(&self) -> (res: Option<&HarnessMode>)
        ensures
            res is Some <==> self.modes@.len() > 0,
            res is Some ==> exists|i: int|
                is_default_place(mode_flags(crate::text::views(self.modes@)), i) && *res->0
                    == #[trigger] self.modes@[i],
    {
        let ghost all = mode_flags(crate::text::views(self.modes@));
        let mut i: usize = 0;
        while i < self.modes.len()
            invariant
                all == mode_flags(crate::text::views(self.modes@)),
                i <= self.modes@.len(),
                forall|j: int| 0 <= j < i ==> !#[trigger] all[j],
            decreases self.modes.len() - i,
        {
            assert(all[i as int] == self.modes@[i as int].default);
            if self.modes[i].default {
                assert(is_default_place(all, i as int));
                return Some(&self.modes[i]);
            }
            i += 1;
        }
        if self.modes.len() > 0 {
            assert(is_default_place(all, 0));
            Some(&self.modes[0])
        } else {
            None
        }
    }

    /// The model that is used where none is selected: the first that is flagged as the default,
    /// else the first.
    pub fn default_model(&self) -> (res: Option<&HarnessOption>)
        ensures
            res is Some <==> self.models@.len() > 0,
            res is Some ==> exists|i: int|
                is_default_place(flags(crate::text::views(self.models@)), i) && *res->0
                    == #[trigger] self.models@[i],
    {
        default_option(&self.models)
    }

    /// The effort level that is used where none is selected: the first that is flagged as the
    /// default, else the first.
    pub fn default_effort(&self) -> (res: Option<&HarnessOption>)
        ensures
            res is Some <==> self.effort@.len() > 0,
            res is Some ==> exists|i: int|
                is_default_place(flags(crate::text::views(self.effort@)), i) && *res->0
                    == #[trigger] self.effort@[i],
    {
        default_option(&self.effort)
    }

    /// The label, else the name.
    pub fn display_label(&self) -> (res: &str)
        ensures
            res@ == (match self@.label {
                Some(t) => t,
                None => self@.name,
            }),
    {
        or_else(&self.label, self.name.as_str())
    }

    /// The entry path within the tree of the harness; `harness`, where none is given.
    pub fn exec_path(&self) -> (res: &str)
        ensures
            res@ == self@.entry_path(),
    {
        or_else(&self.entry, "harness")
    }
}

impl DescriptorView {
    /// The entry path within the tree of the harness.
    pub open spec fn entry_path(self) -> Seq<char> {
        match self.entry {
            Some(t) => t,
            None => "harness"@,
        }
    }
}

/// The entry path of a valid descriptor stays within the tree of the harness.
pub proof fn valid_entry_stays_within(d: DescriptorView)
    requires
        d.problem() is None,
    ensures
        stays_within(d.entry_path()),
{
    if d.entry is None {
        reveal_strlit("harness");
        reveal_strlit("..");
        assert("harness"@.len() == 7 && ".."@.len() == 2);
        crate::text::first_index_unique("harness"@, '/', 7);
    }
}

/// In a valid descriptor no two options of a list share an id, so that an option is found by its
/// id, and at most one is the default.
pub proof fn valid_options_are_told_apart(field: Seq<char>, options: Seq<OptionView>, i: int, j: int)
    requires
        options_problem(field, options) is None,
        0 <= i < j < options.len(),
    ensures
        options[i].id != options[j].id,
        !(options[i].default && options[j].default),
{
    let f = |k: int| option_problem(field, options, k);
    crate::text::first_problem_spec(options.len() as int, 0, f);
    assert(f(j) is None);
    assert(options[i].id != options[j].id);
    if options[i].default && options[j].default {
        two_are_counted(options, |o: OptionView| o.default, i, j);
    }
}

/// In a valid descriptor no two modes share an id, and at most one is the default.
pub proof fn valid_modes_are_told_apart(modes: Seq<ModeView>, i: int, j: int)
    requires
        modes_problem(modes) is None,
        0 <= i < j < modes.len(),
    ensures
        modes[i].id != modes[j].id,
        !(modes[i].default && modes[j].default),
{
    let f = |k: int| mode_problem(modes, k);
    crate::text::first_problem_spec(modes.len() as int, 0, f);
    assert(f(j) is None);
    assert(modes[i].id != modes[j].id);
    if modes[i].default && modes[j].default {
        two_are_counted(modes, |m: ModeView| m.default, i, j);
    }
}

/// A filter keeps at least as many elements as are known to pass.
proof fn two_are_counted<T>(s: Seq<T>, p: spec_fn(T) -> bool, i: int, j: int)
    requires
        0 <= i < j < s.len(),
        p(s[i]),
        p(s[j]),
    ensures
        s.filter(p).len() >= 2,
    decreases s.len(),
{
    reveal(Seq::filter);
    let init = s.drop_last();
    if j < init.len() {
        two_are_counted(init, p, i, j);
    } else {
        crate::text::filter_keeps(init, p, s[i]);
        assert(init[i] == s[i]);
        assert(init.contains(s[i]));
    }
}

impl EgressView {
    /// The hosts that a document names.
    pub open spec fn decoded(t: crate::document::Tree) -> Result<EgressView, Seq<char>> {
        let t = t.first_items(2).in_order(seq!["allow_hosts"@, "allow_host_patterns"@], 0);
        match t.table_of("egress"@, seq!["allow_hosts"@, "allow_host_patterns"@]) {
            Err(e) => Err(e),
            Ok(_) => match t.text_list("allow_hosts"@) {
                Err(e) => Err(e),
                Ok(allow_hosts) => match t.text_list("allow_host_patterns"@) {
                    Err(e) => Err(e),
                    Ok(allow_host_patterns) => Ok(EgressView { allow_hosts, allow_host_patterns }),
                },
            },
        }
    }
}

/// How a credential is handed over, as a document says it: the name, or a table that has but that
/// name and says nothing under it.
pub open spec fn decoded_delivery(t: crate::document::Tree) -> Result<OAuthDelivery, Seq<char>> {
    let named = match t.member("delivery"@) {
        None => Err(crate::document::missing("delivery"@)),
        Some(crate::document::Tree::Text(s)) => Ok(s == "opaque_bundle"@),
        Some(crate::document::Tree::Table(members)) => Ok(
            members.len() == 1 && members[0].key == "opaque_bundle"@
                && members[0].value.says_nothing(),
        ),
        Some(_) => Ok(false),
    };
    match named {
        Err(e) => Err(e),
        Ok(is_bundle) => if is_bundle {
            Ok(OAuthDelivery::OpaqueBundle)
        } else {
            Err(crate::document::wrong_kind("delivery"@, "`opaque_bundle`"@))
        },
    }
}

impl OAuthView {
    /// The connection that a document names.
    pub open spec fn decoded(t: crate::document::Tree) -> Result<OAuthView, Seq<char>> {
        let t = t.first_items(2).in_order(seq!["provider"@, "delivery"@], 2);
        match t.table_of("user_oauth"@, seq!["provider"@, "delivery"@]) {
            Err(e) => Err(e),
            Ok(_) => match t.need_text("provider"@) {
                Err(e) => Err(e),
                Ok(provider) => match decoded_delivery(t) {
                    Err(e) => Err(e),
                    Ok(delivery) => Ok(OAuthView { provider, delivery }),
                },
            },
        }
    }
}

impl AuthView {
    /// The credentials that a document names.
    pub open spec fn decoded(t: crate::document::Tree) -> Result<AuthView, Seq<char>> {
        let t = t.first_items(5).in_order(
            seq!["org_env"@, "user_env"@, "user_oauth"@, "org_env_hint"@, "user_env_hint"@],
            0,
        );
        match t.table_of(
            "auth"@,
            seq!["org_env"@, "user_env"@, "user_oauth"@, "org_env_hint"@, "user_env_hint"@],
        ) {
            Err(e) => Err(e),
            Ok(_) => match t.opt_text("org_env"@, false) {
                Err(e) => Err(e),
                Ok(org_env) => match t.opt_text("user_env"@, false) {
                    Err(e) => Err(e),
                    Ok(user_env) => match AuthView::decoded_oauth(t) {
                        Err(e) => Err(e),
                        Ok(user_oauth) => match t.opt_text("org_env_hint"@, false) {
                            Err(e) => Err(e),
                            Ok(org_env_hint) => match t.opt_text("user_env_hint"@, false) {
                                Err(e) => Err(e),
                                Ok(user_env_hint) => Ok(
                                    AuthView {
                                        org_env,
                                        user_env,
                                        user_oauth,
                                        org_env_hint,
                                        user_env_hint,
                                    },
                                ),
                            },
                        },
                    },
                },
            },
        }
    }

    /// The connection under `user_oauth`.
    pub open spec fn decoded_oauth(t: crate::document::Tree) -> Result<
        Option<OAuthView>,
        Seq<char>,
    > {
        match t.member("user_oauth"@) {
            None => Ok(None),
            Some(sub) => match OAuthView::decoded(sub) {
                Ok(o) => Ok(Some(o)),
                Err(e) => Err(e),
            },
        }
    }

    /// No credentials.
    pub open spec fn none() -> AuthView {
        AuthView {
            org_env: None,
            user_env: None,
            user_oauth: None,
            org_env_hint: None,
            user_env_hint: None,
        }
    }
}

impl OptionView {
    /// The option that a document names.
    pub open spec fn decoded(t: crate::document::Tree) -> Result<OptionView, Seq<char>> {
        let t = t.first_items(4).in_order(seq!["id"@, "label"@, "default"@, "env"@], 1);
        match t.table_of("option"@, seq!["id"@, "label"@, "default"@, "env"@]) {
            Err(e) => Err(e),
            Ok(_) => match t.need_text("id"@) {
                Err(e) => Err(e),
                Ok(id) => match t.opt_text("label"@, false) {
                    Err(e) => Err(e),
                    Ok(label) => match t.flag("default"@) {
                        Err(e) => Err(e),
                        Ok(default) => match t.text_table("env"@) {
                            Err(e) => Err(e),
                            Ok(env) => Ok(OptionView { id, label, default, env }),
                        },
                    },
                },
            },
        }
    }
}

impl ModeView {
    /// The mode that a document names.
    pub open spec fn decoded(t: crate::document::Tree) -> Result<ModeView, Seq<char>> {
        let t = t.first_items(3).in_order(seq!["id"@, "label"@, "default"@], 1);
        match t.table_of("mode"@, seq!["id"@, "label"@, "default"@]) {
            Err(e) => Err(e),
            Ok(_) => match t.need_text("id"@) {
                Err(e) => Err(e),
                Ok(id) => match t.opt_text("label"@, false) {
                    Err(e) => Err(e),
                    Ok(label) => match t.flag("default"@) {
                        Err(e) => Err(e),
                        Ok(default) => Ok(ModeView { id, label, default }),
                    },
                },
            },
        }
    }
}

/// The names that a descriptor may have at its top.
pub open spec fn descriptor_fields() -> Seq<Seq<char>> {
    seq![
        "name"@,
        "label"@,
        "description"@,
        "exec"@,
        "args"@,
        "auth"@,
        "models"@,
        "effort"@,
        "modes"@,
        "egress"@,
    ]
}

impl DescriptorView {
    /// The texts at the top of a document.
    pub open spec fn decoded_head(t: crate::document::Tree) -> Result<
        (
            Seq<char>,
            Option<Seq<char>>,
            Option<Seq<char>>,
            Option<Seq<char>>,
            Seq<Seq<char>>,
        ),
        Seq<char>,
    > {
        match t.table_of("harness.toml"@, descriptor_fields()) {
            Err(e) => Err(e),
            Ok(_) => match t.need_text("name"@) {
                Err(e) => Err(e),
                Ok(name) => match t.opt_text("label"@, false) {
                    Err(e) => Err(e),
                    Ok(label) => match t.opt_text("description"@, false) {
                        Err(e) => Err(e),
                        Ok(description) => match t.opt_text("exec"@, false) {
                            Err(e) => Err(e),
                            Ok(entry) => match t.text_list("args"@) {
                                Err(e) => Err(e),
                                Ok(args) => Ok((name, label, description, entry, args)),
                            },
                        },
                    },
                },
            },
        }
    }

    /// The credentials of a document.
    pub open spec fn decoded_auth(t: crate::document::Tree) -> Result<AuthView, Seq<char>> {
        match t.member("auth"@) {
            None => Ok(AuthView::none()),
            Some(sub) => AuthView::decoded(sub),
        }
    }

    /// The hosts of a document.
    pub open spec fn decoded_egress(t: crate::document::Tree) -> Result<EgressView, Seq<char>> {
        match t.member("egress"@) {
            None => Ok(EgressView { allow_hosts: Seq::empty(), allow_host_patterns: Seq::empty() }),
            Some(sub) => EgressView::decoded(sub),
        }
    }

    /// The descriptor that a document names, or the first reason why it names none.
    pub open spec fn decoded(t: crate::document::Tree) -> Result<DescriptorView, Seq<char>> {
        match DescriptorView::decoded_head(t) {
            Err(e) => Err(e),
            Ok((name, label, description, entry, args)) => match DescriptorView::decoded_auth(t) {
                Err(e) => Err(e),
                Ok(auth) => match crate::document::decoded_list::<HarnessOption>(t, "models"@) {
                    Err(e) => Err(e),
                    Ok(models) => match crate::document::decoded_list::<HarnessOption>(t, "effort"@) {
                        Err(e) => Err(e),
                        Ok(effort) => match crate::document::decoded_list::<HarnessMode>(t, "modes"@) {
                            Err(e) => Err(e),
                            Ok(modes) => match DescriptorView::decoded_egress(t) {
                                Err(e) => Err(e),
                                Ok(egress) => Ok(
                                    DescriptorView {
                                        name,
                                        label,
                                        description,
                                        entry,
                                        args,
                                        auth,
                                        models,
                                        effort,
                                        modes,
                                        egress,
                                    },
                                ),
                            },
                        },
                    },
                },
            },
        }
    }

    /// The valid descriptor that a document names, or the first reason why it names none.
    pub open spec fn accepted(t: crate::document::Tree) -> Result<DescriptorView, Seq<char>> {
        match DescriptorView::decoded(t) {
            Err(e) => Err(e),
            Ok(d) => match d.problem() {
                Some(e) => Err(e),
                None => Ok(d),
            },
        }
    }

    /// The valid descriptor that a TOML text stands for, or the reason why it stands for none.
    pub open spec fn parsed(text: Seq<char>) -> Result<DescriptorView, Seq<char>> {
        match crate::document::toml_read(text) {
            Err(e) => Err(e),
            Ok(t) => DescriptorView::accepted(t),
        }
    }
}

impl Decode for HarnessEgress {
    open spec fn decoded(t: crate::document::Tree) -> Result<EgressView, Seq<char>> {
        EgressView::decoded(t)
    }

    fn decode(doc: &Value) -> (res: Result<HarnessEgress, String>) {
        let fields: [&str; 2] = ["allow_hosts", "allow_host_patterns"];
        let names = fields.as_slice();
        assert(names.deep_view() =~= seq!["allow_hosts"@, "allow_host_patterns"@]);
        let table = doc.first_items(2).in_order(names, 0);
        let doc = &table;
        if let Err(e) = doc.check_table("egress", names) {
            return Err(e);
        }
        let allow_hosts = match doc.text_list("allow_hosts") {
            Ok(v) => v,
            Err(e) => return Err(e),
        };
        let allow_host_patterns = match doc.text_list("allow_host_patterns") {
            Ok(v) => v,
            Err(e) => return Err(e),
        };
        Ok(HarnessEgress { allow_hosts, allow_host_patterns })
    }
}

/// Reads how a credential is handed over.
fn decode_delivery(doc: &Value) -> (res: Result<OAuthDelivery, String>)
    ensures
        res is Ok <==> decoded_delivery(doc@) is Ok,
        res is Ok ==> decoded_delivery(doc@)->Ok_0 == res->Ok_0,
        res is Err ==> decoded_delivery(doc@)->Err_0 == res->Err_0@,
{
    let is_bundle = match doc.get("delivery") {
        None => return Err(missing_text("delivery")),
        Some(Value::Text(s)) => same(s.as_str(), "opaque_bundle"),
        Some(Value::Table(members)) => {
            if members.len() == 1 {
                assert(crate::document::table_view(members@)[0] == members@[0]@);
                members[0].value.says_nothing() && same(members[0].key.as_str(), "opaque_bundle")
            } else {
                false
            }
        },
        Some(_) => false,
    };
    if is_bundle {
        Ok(OAuthDelivery::OpaqueBundle)
    } else {
        Err(wrong_kind_text("delivery", "`opaque_bundle`"))
    }
}

impl Decode for HarnessOAuth {
    open spec fn decoded(t: crate::document::Tree) -> Result<OAuthView, Seq<char>> {
        OAuthView::decoded(t)
    }

    fn decode(doc: &Value) -> (res: Result<HarnessOAuth, String>) {
        let fields: [&str; 2] = ["provider", "delivery"];
        let names = fields.as_slice();
        assert(names.deep_view() =~= seq!["provider"@, "delivery"@]);
        let table = doc.first_items(2).in_order(names, 2);
        let doc = &table;
        if let Err(e) = doc.check_table("user_oauth", names) {
            return Err(e);
        }
        let provider = match doc.need_text("provider") {
            Ok(v) => v,
            Err(e) => return Err(e),
        };
        let delivery = match decode_delivery(doc) {
            Ok(v) => v,
            Err(e) => return Err(e),
        };
        Ok(HarnessOAuth { provider, delivery })
    }
}

impl Decode for HarnessAuth {
    open spec fn decoded(t: crate::document::Tree) -> Result<AuthView, Seq<char>> {
        AuthView::decoded(t)
    }

    fn decode(doc: &Value) -> (res: Result<HarnessAuth, String>) {
        let fields: [&str; 5] = ["org_env", "user_env", "user_oauth", "org_env_hint", "user_env_hint"];
        let names = fields.as_slice();
        assert(names.deep_view() =~= seq!["org_env"@, "user_env"@, "user_oauth"@, "org_env_hint"@, "user_env_hint"@]);
        let table = doc.first_items(5).in_order(names, 0);
        let doc = &table;
        if let Err(e) = doc.check_table("auth", names) {
            return Err(e);
        }
        let org_env = match doc.opt_text("org_env", false) {
            Ok(v) => v,
            Err(e) => return Err(e),
        };
        let user_env = match doc.opt_text("user_env", false) {
            Ok(v) => v,
            Err(e) => return Err(e),
        };
        let user_oauth = match doc.get("user_oauth") {
            None => None,
            Some(sub) => match HarnessOAuth::decode(sub) {
                Ok(o) => Some(o),
                Err(e) => return Err(e),
            },
        };
        let org_env_hint = match doc.opt_text("org_env_hint", false) {
            Ok(v) => v,
            Err(e) => return Err(e),
        };
        let user_env_hint = match doc.opt_text("user_env_hint", false) {
            Ok(v) => v,
            Err(e) => return Err(e),
        };
        Ok(HarnessAuth { org_env, user_env, user_oauth, org_env_hint, user_env_hint })
    }
}

impl Decode for HarnessOption {
    open spec fn decoded(t: crate::document::Tree) -> Result<OptionView, Seq<char>> {
        OptionView::decoded(t)
    }

    fn decode(doc: &Value) -> (res: Result<HarnessOption, String>) {
        let fields: [&str; 4] = ["id", "label", "default", "env"];
        let names = fields.as_slice();
        assert(names.deep_view() =~= seq!["id"@, "label"@, "default"@, "env"@]);
        let table = doc.first_items(4).in_order(names, 1);
        let doc = &table;
        if let Err(e) = doc.check_table("option", names) {
            return Err(e);
        }
        let id = match doc.need_text("id") {
            Ok(v) => v,
            Err(e) => return Err(e),
        };
        let label = match doc.opt_text("label", false) {
            Ok(v) => v,
            Err(e) => return Err(e),
        };
        let default = match doc.flag("default") {
            Ok(v) => v,
            Err(e) => return Err(e),
        };
        let env = match doc.text_table("env") {
            Ok(v) => v,
            Err(e) => return Err(e),
        };
        Ok(HarnessOption { id, label, default, env })
    }
}

impl Decode for HarnessMode {
    open spec fn decoded(t: crate::document::Tree) -> Result<ModeView, Seq<char>> {
        ModeView::decoded(t)
    }

    fn decode(doc: &Value) -> (res: Result<HarnessMode, String>) {
        let fields: [&str; 3] = ["id", "label", "default"];
        let names = fields.as_slice();
        assert(names.deep_view() =~= seq!["id"@, "label"@, "default"@]);
        let table = doc.first_items(3).in_order(names, 1);
        let doc = &table;
        if let Err(e) = doc.check_table("mode", names) {
            return Err(e);
        }
        let id = match doc.need_text("id") {
            Ok(v) => v,
            Err(e) => return Err(e),
        };
        let label = match doc.opt_text("label", false) {
            Ok(v) => v,
            Err(e) => return Err(e),
        };
        let default = match doc.flag("default") {
            Ok(v) => v,
            Err(e) => return Err(e),
        };
        Ok(HarnessMode { id, label, default })
    }
}

impl HarnessDescriptor {
    /// Reads a descriptor from a document and validates it.
    pub fn from_document(doc: &Value) -> (res: Result<HarnessDescriptor, String>)
        ensures
            res is Ok <==> DescriptorView::accepted(doc@) is Ok,
            res is Ok ==> DescriptorView::accepted(doc@)->Ok_0 == res->Ok_0@,
            res is Err ==> DescriptorView::accepted(doc@)->Err_0 == res->Err_0@,
    {
        let fields: [&str; 10] = [
            "name",
            "label",
            "description",
            "exec",
            "args",
            "auth",
            "models",
            "effort",
            "modes",
            "egress",
        ];
        let names = fields.as_slice();
        assert(names.deep_view() =~= descriptor_fields());
        if let Err(e) = doc.check_table("harness.toml", names) {
            return Err(e);
        }
        let name = match doc.need_text("name") {
            Ok(v) => v,
            Err(e) => return Err(e),
        };
        let label = match doc.opt_text("label", false) {
            Ok(v) => v,
            Err(e) => return Err(e),
        };
        let description = match doc.opt_text("description", false) {
            Ok(v) => v,
            Err(e) => return Err(e),
        };
        let entry = match doc.opt_text("exec", false) {
            Ok(v) => v,
            Err(e) => return Err(e),
        };
        let args = match doc.text_list("args") {
            Ok(v) => v,
            Err(e) => return Err(e),
        };
        let auth = match doc.get("auth") {
            None => HarnessAuth {
                org_env: None,
                user_env: None,
                user_oauth: None,
                org_env_hint: None,
                user_env_hint: None,
            },
            Some(sub) => match HarnessAuth::decode(sub) {
                Ok(v) => v,
                Err(e) => return Err(e),
            },
        };
        let models = match decode_list::<HarnessOption>(doc, "models") {
            Ok(v) => v,
            Err(e) => return Err(e),
        };
        let effort = match decode_list::<HarnessOption>(doc, "effort") {
            Ok(v) => v,
            Err(e) => return Err(e),
        };
        let modes = match decode_list::<HarnessMode>(doc, "modes") {
            Ok(v) => v,
            Err(e) => return Err(e),
        };
        let egress = match doc.get("egress") {
            None => {
                let none = HarnessEgress {
                    allow_hosts: Vec::new(),
                    allow_host_patterns: Vec::new(),
                };
                assert(none@.allow_hosts =~= Seq::empty());
                assert(none@.allow_host_patterns =~= Seq::empty());
                none
            },
            Some(sub) => match HarnessEgress::decode(sub) {
                Ok(v) => v,
                Err(e) => return Err(e),
            },
        };
        let descriptor = HarnessDescriptor {
            name,
            label,
            description,
            entry,
            args,
            auth,
            models,
            effort,
            modes,
            egress,
        };
        match descriptor.validate() {
            Ok(_) => Ok(descriptor),
            Err(e) => Err(e),
        }
    }

    /// Reads a descriptor from the text of a `harness.toml` and validates it. What
    /// was written is read back.
    pub fn parse(toml_src: &str) -> (res: Result<HarnessDescriptor, String>)
        ensures
            res is Ok <==> DescriptorView::parsed(toml_src@) is Ok,
            res is Ok ==> DescriptorView::parsed(toml_src@)->Ok_0 == res->Ok_0@,
            res is Err ==> DescriptorView::parsed(toml_src@)->Err_0 == res->Err_0@,
            forall|d: HarnessDescriptor|
                crate::wire::harness::option_keys_differ(d) && d@.problem() is None
                    && crate::document::calm_texts(
                    #[trigger] crate::wire::harness::descriptor_tree(d),
                ) && crate::document::toml_written(crate::wire::harness::descriptor_tree(d)) == Ok::<
                    Seq<char>,
                    Seq<char>,
                >(toml_src@) ==> res is Ok && res->Ok_0@ == d@,
    {
        proof {
            assert forall|d: HarnessDescriptor|
                crate::wire::harness::option_keys_differ(d) && crate::document::calm_texts(
                    #[trigger] crate::wire::harness::descriptor_tree(d),
                ) implies crate::document::can_be_tried(crate::wire::harness::descriptor_tree(d))
                && crate::document::blocks_last(crate::wire::harness::descriptor_tree(d))
                && DescriptorView::decoded(crate::wire::harness::descriptor_tree(d)) == Ok::<
                DescriptorView,
                Seq<char>,
            >(d@) by {
                crate::wire::harness::descriptor_values(d);
                crate::wire::harness::descriptor_is_read_back(d);
            }
        }
        match read_toml(toml_src) {
            Ok(doc) => HarnessDescriptor::from_document(&doc),
            Err(e) => Err(e),
        }
    }
}

/// The hosts of a harness are what stands under their names, and have no others.
pub proof fn hosts_are_read_by_name(t: crate::document::Tree, v: EgressView)
    requires
        t is Table,
    ensures
        EgressView::decoded(t) == Ok::<EgressView, Seq<char>>(v) <==> {
            &&& crate::document::names_only(
                t,
                seq!["allow_hosts"@, "allow_host_patterns"@],
            )
            &&& crate::document::says_texts(t, "allow_hosts"@, v.allow_hosts)
            &&& crate::document::says_texts(t, "allow_host_patterns"@, v.allow_host_patterns)
        },
{
    crate::document::strangers_are_refused(
        t,
        "egress"@,
        seq!["allow_hosts"@, "allow_host_patterns"@],
    );
    crate::document::texts_are_read_in_place(t, "allow_hosts"@, v.allow_hosts);
    crate::document::texts_are_read_in_place(t, "allow_host_patterns"@, v.allow_host_patterns);
}

/// A connection is what stands under its names, and has no others.
pub proof fn connections_are_read_by_name(t: crate::document::Tree, v: OAuthView)
    requires
        t is Table,
    ensures
        OAuthView::decoded(t) == Ok::<OAuthView, Seq<char>>(v) <==> {
            &&& crate::document::names_only(
                t,
                seq!["provider"@, "delivery"@],
            )
            &&& t.member("provider"@) == Some(crate::document::Tree::Text(v.provider))
            &&& decoded_delivery(t) == Ok::<OAuthDelivery, Seq<char>>(v.delivery)
        },
{
    crate::document::strangers_are_refused(
        t,
        "user_oauth"@,
        seq!["provider"@, "delivery"@],
    );
}

/// The credentials of a harness are what stands under their names, and have no others.
pub proof fn credentials_are_read_by_name(t: crate::document::Tree, v: AuthView)
    requires
        t is Table,
    ensures
        AuthView::decoded(t) == Ok::<AuthView, Seq<char>>(v) <==> {
            &&& crate::document::names_only(
                t,
                seq!["org_env"@, "user_env"@, "user_oauth"@, "org_env_hint"@, "user_env_hint"@],
            )
            &&& (t.member("org_env"@) is None && v.org_env is None) || (v.org_env is Some
                && t.member("org_env"@) == Some(crate::document::Tree::Text(v.org_env->0)))
            &&& (t.member("user_env"@) is None && v.user_env is None) || (v.user_env is Some
                && t.member("user_env"@) == Some(crate::document::Tree::Text(v.user_env->0)))
            &&& (t.member("org_env_hint"@) is None && v.org_env_hint is None)
                || (v.org_env_hint is Some && t.member("org_env_hint"@)
                == Some(crate::document::Tree::Text(v.org_env_hint->0)))
            &&& (t.member("user_env_hint"@) is None && v.user_env_hint is None)
                || (v.user_env_hint is Some && t.member("user_env_hint"@)
                == Some(crate::document::Tree::Text(v.user_env_hint->0)))
            &&& (t.member("user_oauth"@) is None && v.user_oauth is None)
                || (t.member("user_oauth"@) is Some && v.user_oauth is Some
                && OAuthView::decoded(t.member("user_oauth"@)->0)
                == Ok::<OAuthView, Seq<char>>(v.user_oauth->0))
        },
{
    crate::document::strangers_are_refused(
        t,
        "auth"@,
        seq!["org_env"@, "user_env"@, "user_oauth"@, "org_env_hint"@, "user_env_hint"@],
    );
}

/// An option is what stands under its names, and has no others.
pub proof fn options_are_read_by_name(t: crate::document::Tree, v: OptionView)
    requires
        t is Table,
    ensures
        OptionView::decoded(t) == Ok::<OptionView, Seq<char>>(v) <==> {
            &&& crate::document::names_only(
                t,
                seq!["id"@, "label"@, "default"@, "env"@],
            )
            &&& t.member("id"@) == Some(crate::document::Tree::Text(v.id))
            &&& (t.member("label"@) is None && v.label is None) || (v.label is Some
                && t.member("label"@) == Some(crate::document::Tree::Text(v.label->0)))
            &&& crate::document::says_flag(t, "default"@, v.default)
            &&& t.text_table("env"@) == Ok::<Map<Seq<char>, Seq<char>>, Seq<char>>(v.env)
        },
{
    crate::document::strangers_are_refused(
        t,
        "option"@,
        seq!["id"@, "label"@, "default"@, "env"@],
    );
}

/// A mode is what stands under its names, and has no others.
pub proof fn modes_are_read_by_name(t: crate::document::Tree, v: ModeView)
    requires
        t is Table,
    ensures
        ModeView::decoded(t) == Ok::<ModeView, Seq<char>>(v) <==> {
            &&& crate::document::names_only(
                t,
                seq!["id"@, "label"@, "default"@],
            )
            &&& t.member("id"@) == Some(crate::document::Tree::Text(v.id))
            &&& (t.member("label"@) is None && v.label is None) || (v.label is Some
                && t.member("label"@) == Some(crate::document::Tree::Text(v.label->0)))
            &&& crate::document::says_flag(t, "default"@, v.default)
        },
{
    crate::document::strangers_are_refused(
        t,
        "mode"@,
        seq!["id"@, "label"@, "default"@],
    );
}

/// The character with this number is a digit of ASCII (`0` is 0x30).
pub open spec fn ascii_digit(n: u32) -> bool {
    0x30 <= n <= 0x39
}

/// The character with this number is a letter of ASCII, capital (`A` is 0x41) or small (`a` is
/// 0x61).
pub open spec fn ascii_letter(n: u32) -> bool {
    0x41 <= n <= 0x5A || 0x61 <= n <= 0x7A
}

/// The name of a variable: it has content, does not begin with a digit, and has only letters,
/// digits and underscores.
pub open spec fn names_a_variable(s: Seq<char>) -> bool {
    &&& s.len() > 0
    &&& !ascii_digit(s[0] as u32)
    &&& forall|i: int|
        0 <= i < s.len() ==> ascii_letter(#[trigger] s[i] as u32) || ascii_digit(s[i] as u32)
            || s[i] == '_'
}

/// A stable id: it begins with a small letter, and has only small letters, digits and hyphens.
pub open spec fn is_stable_id(s: Seq<char>) -> bool {
    &&& s.len() > 0
    &&& ascii_letter(s[0] as u32)
    &&& forall|i: int|
        0 <= i < s.len() ==> (ascii_letter(#[trigger] s[i] as u32) && s[i] as u32 >= 0x61)
            || ascii_digit(s[i] as u32) || s[i] == '-'
}

/// A name is accepted exactly if it names a variable, and an id exactly if it is a stable one.
pub proof fn names_and_ids_are_checked(s: Seq<char>)
    ensures
        env_name_problem(s) is None <==> names_a_variable(s),
        stable_id_problem(s) is None <==> is_stable_id(s),
{
    if s.len() > 0 {
        assert forall|i: int| 0 <= i < s.len() implies (env_char(#[trigger] s[i]) <==> ascii_letter(
            s[i] as u32,
        ) || ascii_digit(s[i] as u32) || s[i] == '_') by {
        }
        assert forall|i: int| 0 <= i < s.len() implies (stable_char(#[trigger] s[i]) <==> (
        ascii_letter(s[i] as u32) && s[i] as u32 >= 0x61) || ascii_digit(s[i] as u32) || s[i]
            == '-') by {
        }
        assert('_' as u32 == 95 && '-' as u32 == 45);
    }
}

/// Variables are accepted exactly if each of their names is.
pub proof fn variables_are_checked(env: Map<Seq<char>, Seq<char>>)
    requires
        env.dom().finite(),
    ensures
        env_problem(env) is None <==> forall|k: Seq<char>| #[trigger]
            env.contains_key(k) ==> names_a_variable(k),
{
    assert forall|k: Seq<char>| #[trigger] env.contains_key(k) implies (env_name_problem(k) is None
        <==> names_a_variable(k)) by {
        names_and_ids_are_checked(k);
    }
    if exists|k: Seq<char>| #[trigger] env.contains_key(k) && !names_a_variable(k) {
        let bad = env.dom().filter(|k: Seq<char>| env_name_problem(k) is Some);
        let k = choose|k: Seq<char>| #[trigger] env.contains_key(k) && !names_a_variable(k);
        assert(bad.contains(k));
        let first = first_of(bad);
        assert(is_first_bad_key(env, first)) by {
            assert(env.dom().contains(first));
            assert forall|other: Seq<char>| #[trigger]
                env.contains_key(other) && env_name_problem(other) is Some && other
                    != first implies crate::text_map::before(first, other) by {
                assert(bad.contains(other));
            }
        }
        let chosen = choose|k: Seq<char>| is_first_bad_key(env, k);
        assert(is_first_bad_key(env, chosen));
    }
}

/// A set of texts that is not empty has a first one.
proof fn first_of(texts: Set<Seq<char>>) -> (first: Seq<char>)
    requires
        texts.finite(),
        texts.len() > 0 || exists|k: Seq<char>| texts.contains(k),
    ensures
        texts.contains(first),
        forall|k: Seq<char>| #[trigger]
            texts.contains(k) && k != first ==> crate::text_map::before(first, k),
    decreases texts.len(),
{
    if texts.len() == 0 {
        let k = choose|k: Seq<char>| texts.contains(k);
        texts.lemma_len0_is_empty();
    }
    let some = texts.choose();
    let rest = texts.remove(some);
    if rest.len() == 0 {
        rest.lemma_len0_is_empty();
        assert forall|k: Seq<char>| #[trigger] texts.contains(k) && k
            != some implies crate::text_map::before(some, k) by {
            assert(rest.contains(k));
        }
        some
    } else {
        let least = first_of(rest);
        crate::text_map::before_is_total(some, least);
        if crate::text_map::before(some, least) {
            assert forall|k: Seq<char>| #[trigger] texts.contains(k) && k
                != some implies crate::text_map::before(some, k) by {
                assert(rest.contains(k));
                if k != least {
                    crate::text_map::before_is_transitive(some, least, k);
                }
            }
            some
        } else {
            assert forall|k: Seq<char>| #[trigger] texts.contains(k) && k
                != least implies crate::text_map::before(least, k) by {
                if k != some {
                    assert(rest.contains(k));
                }
            }
            least
        }
    }
}

/// The credentials are accepted exactly if their variables have names, people have one way and not
/// two, and the connection has a stable id.
pub proof fn credentials_are_checked(auth: AuthView)
    ensures
        auth_problem(auth) is None <==> {
            &&& auth.org_env is Some ==> names_a_variable(auth.org_env->0)
            &&& auth.user_env is Some ==> names_a_variable(auth.user_env->0)
            &&& auth.user_env is None || auth.user_oauth is None
            &&& auth.user_oauth is Some ==> is_stable_id(auth.user_oauth->0.provider)
        },
{
    if auth.org_env is Some {
        names_and_ids_are_checked(auth.org_env->0);
    }
    if auth.user_env is Some {
        names_and_ids_are_checked(auth.user_env->0);
    }
    if auth.user_oauth is Some {
        names_and_ids_are_checked(auth.user_oauth->0.provider);
    }
}

/// An entry path stays within the tree exactly if it is not empty, does not begin with a slash,
/// and has no `..` between slashes or its ends.
pub proof fn paths_within_the_tree(path: Seq<char>)
    ensures
        stays_within(path) <==> {
            &&& path.len() > 0
            &&& path[0] != '/'
            &&& !exists|i: int, j: int| #[trigger]
                crate::text::is_part(path, '/', i, j) && path.subrange(i, j) == seq!['.', '.']
        },
{
    reveal_strlit("..");
    assert(".."@ =~= seq!['.', '.']);
    crate::text::parts_stand_between_separators(path, '/', ".."@);
}

/// A list of options is accepted exactly if every id has content and stands once, every variable
/// has a name, and no two options are the default.
pub proof fn options_are_checked(field: Seq<char>, options: Seq<OptionView>)
    requires
        forall|i: int| 0 <= i < options.len() ==> (#[trigger] options[i]).env.dom().finite(),
    ensures
        options_problem(field, options) is None <==> {
            &&& forall|i: int|
                0 <= i < options.len() ==> !crate::text::blank((#[trigger] options[i]).id)
            &&& forall|i: int, j: int|
                0 <= i < j < options.len() ==> (#[trigger] options[i]).id != (
                #[trigger] options[j]).id
            &&& forall|i: int, k: Seq<char>|
                #![trigger options[i].env.contains_key(k)]
                0 <= i < options.len() && options[i].env.contains_key(k) ==> names_a_variable(k)
            &&& forall|i: int, j: int|
                0 <= i < j < options.len() ==> !((#[trigger] options[i]).default && (
                #[trigger] options[j]).default)
        },
{
    let f = |k: int| option_problem(field, options, k);
    crate::text::first_problem_spec(options.len() as int, 0, f);
    assert forall|i: int| 0 <= i < options.len() implies (env_problem((#[trigger] options[i]).env)
        is None <==> forall|k: Seq<char>| #[trigger]
        options[i].env.contains_key(k) ==> names_a_variable(k)) by {
        variables_are_checked(options[i].env);
    }
    let p = |o: OptionView| o.default;
    if options_problem(field, options) is None {
        assert forall|i: int| 0 <= i < options.len() implies f(i) is None && !crate::text::blank(
            (#[trigger] options[i]).id,
        ) by {
            assert(f(i) is None);
        }
        assert forall|i: int, j: int| 0 <= i < j < options.len() implies (#[trigger] options[i]).id
            != (#[trigger] options[j]).id && !(options[i].default && options[j].default) by {
            valid_options_are_told_apart(field, options, i, j);
        }
        assert forall|i: int, k: Seq<char>|
            #![trigger options[i].env.contains_key(k)]
            0 <= i < options.len()
                && options[i].env.contains_key(k) implies names_a_variable(k) by {
            assert(f(i) is None);
            assert(env_problem(options[i].env) is None);
        }
    }
    if (forall|i: int| 0 <= i < options.len() ==> !crate::text::blank((#[trigger] options[i]).id))
        && (forall|i: int, j: int|
        0 <= i < j < options.len() ==> (#[trigger] options[i]).id != (#[trigger] options[j]).id)
            && (
    forall|i: int, k: Seq<char>|
        #![trigger options[i].env.contains_key(k)]
        0 <= i < options.len() && options[i].env.contains_key(k) ==> names_a_variable(k))
            && (forall|
        i: int,
        j: int,
    |
        0 <= i < j < options.len() ==> !((#[trigger] options[i]).default && (
        #[trigger] options[j]).default)) {
        assert forall|i: int| 0 <= i < options.len() implies #[trigger] f(i) is None by {
            assert(!crate::text::blank(options[i].id));
            assert(env_problem(options[i].env) is None);
        }
        one_is_counted(options, p);
    }
}

/// A filter keeps at most one element where no two pass.
proof fn one_is_counted<T>(s: Seq<T>, p: spec_fn(T) -> bool)
    requires
        forall|i: int, j: int|
            0 <= i < j < s.len() ==> !(p(#[trigger] s[i]) && p(#[trigger] s[j])),
    ensures
        s.filter(p).len() <= 1,
    decreases s.len(),
{
    reveal(Seq::filter);
    if s.len() > 0 {
        let init = s.drop_last();
        assert forall|i: int, j: int| 0 <= i < j < init.len() implies !(p(#[trigger] init[i]) && p(
            #[trigger] init[j],
        )) by {
            assert(init[i] == s[i] && init[j] == s[j]);
        }
        one_is_counted(init, p);
        if p(s.last()) && init.filter(p).len() > 0 {
            let x = init.filter(p)[0];
            assert(init.filter(p).contains(x));
            crate::text::filter_keeps(init, p, x);
            let i = choose|i: int| 0 <= i < init.len() && init[i] == x;
            assert(s[i] == x && s[s.len() - 1] == s.last());
        }
    }
}

/// A list of modes is accepted exactly if every id has content and stands once, and no two modes
/// are the default.
pub proof fn modes_are_checked(modes: Seq<ModeView>)
    ensures
        modes_problem(modes) is None <==> {
            &&& forall|i: int| 0 <= i < modes.len()
                ==> !crate::text::blank((#[trigger] modes[i]).id)
            &&& forall|i: int, j: int|
                0 <= i < j < modes.len() ==> (#[trigger] modes[i]).id != (#[trigger] modes[j]).id
            &&& forall|i: int, j: int|
                0 <= i < j < modes.len() ==> !((#[trigger] modes[i]).default && (
                #[trigger] modes[j]).default)
        },
{
    let f = |k: int| mode_problem(modes, k);
    crate::text::first_problem_spec(modes.len() as int, 0, f);
    if modes_problem(modes) is None {
        assert forall|i: int| 0 <= i < modes.len() implies !crate::text::blank(
            (#[trigger] modes[i]).id,
        ) by {
            assert(f(i) is None);
        }
        assert forall|i: int, j: int| 0 <= i < j < modes.len() implies (#[trigger] modes[i]).id != (
        #[trigger] modes[j]).id && !(modes[i].default && modes[j].default) by {
            valid_modes_are_told_apart(modes, i, j);
        }
    }
    if (forall|i: int| 0 <= i < modes.len() ==> !crate::text::blank((#[trigger] modes[i]).id)) && (
    forall|i: int, j: int|
        0 <= i < j < modes.len() ==> (#[trigger] modes[i]).id != (#[trigger] modes[j]).id) && (
    forall|i: int, j: int|
        0 <= i < j < modes.len() ==> !((#[trigger] modes[i]).default && (
        #[trigger] modes[j]).default)) {
        assert forall|i: int| 0 <= i < modes.len() implies #[trigger] f(i) is None by {
            assert(!crate::text::blank(modes[i].id));
        }
        one_is_counted(modes, |m: ModeView| m.default);
    }
}

/// A descriptor is valid exactly if its name has content, its entry path, if it has one, stays
/// within the tree, and its credentials, models, effort levels and modes are all accepted.
pub proof fn valid_descriptors(d: DescriptorView)
    ensures
        d.problem() is None <==> {
            &&& exists|i: int|
                0 <= i < d.name.len() && !crate::text::white_space(#[trigger] d.name[i])
            &&& d.entry is Some ==> stays_within(d.entry->0)
            &&& auth_problem(d.auth) is None
            &&& options_problem("models"@, d.models) is None
            &&& options_problem("effort"@, d.effort) is None
            &&& modes_problem(d.modes) is None
        },
{
}

/// The entry path is the one that is given; where none is, it is `harness`.
pub proof fn the_entry_path_is_given_or_usual(d: DescriptorView)
    ensures
        d.entry is Some ==> d.entry_path() == d.entry->0,
        d.entry is None ==> d.entry_path() == "harness"@,
{
}

/// The default is the first that is flagged; where none is flagged, the first of all. There is
/// exactly one, unless there is nothing to choose from.
pub proof fn there_is_one_default(flags: Seq<bool>, i: int, k: int)
    requires
        0 <= k < flags.len(),
        is_default_place(flags, i),
    ensures
        flags[k] ==> flags[i] && i <= k,
        !flags[i] ==> i == 0 && !flags[k],
        is_default_place(flags, k) ==> k == i,
{
}

/// An option is found by its id at the first place where that id stands.
pub proof fn ids_are_found_at_their_first_place(ids: Seq<Seq<char>>, id: Seq<char>, i: int, k: int)
    requires
        0 <= k < ids.len(),
        is_first_id(ids, id, i),
    ensures
        ids[i] == id,
        ids[k] == id ==> i <= k,
{
}

/// A credential is handed over as a bundle where the document says so: by the name, or by a table
/// of that one name with nothing under it.
pub proof fn delivery_is_named(t: crate::document::Tree)
    ensures
        decoded_delivery(t) is Ok <==> t.member("delivery"@) is Some && ({
            let sub = t.member("delivery"@)->0;
            ||| sub == crate::document::Tree::Text("opaque_bundle"@)
            ||| sub is Table && sub->Table_0.len() == 1 && sub->Table_0[0].key == "opaque_bundle"@
                && (sub->Table_0[0].value == crate::document::Tree::List(Seq::empty())
                || sub->Table_0[0].value == crate::document::Tree::Table(Seq::empty()))
        }),
{
    if t.member("delivery"@) is Some && t.member("delivery"@)->0 is Table
        && t.member("delivery"@)->0->Table_0.len() == 1 {
        let value = t.member("delivery"@)->0->Table_0[0].value;
        match value {
            crate::document::Tree::List(items) => {
                if items.len() == 0 {
                    assert(items =~= Seq::empty());
                }
            },
            crate::document::Tree::Table(members) => {
                if members.len() == 0 {
                    assert(members =~= Seq::empty());
                }
            },
            _ => {},
        }
    }
}

/// A descriptor is what stands under its names; what it does not speak of is absent or empty.
pub proof fn descriptors_are_read_by_name(t: crate::document::Tree)
    requires
        DescriptorView::accepted(t) is Ok,
    ensures
        ({
            let d = DescriptorView::accepted(t)->Ok_0;
            &&& d.problem() is None
            &&& crate::document::names_only(t, descriptor_fields())
            &&& t.member("name"@) == Some(crate::document::Tree::Text(d.name))
            &&& t.opt_text("label"@, false) == Ok::<Option<Seq<char>>, Seq<char>>(d.label)
            &&& t.opt_text("description"@, false) == Ok::<Option<Seq<char>>, Seq<char>>(
                d.description,
            )
            &&& t.opt_text("exec"@, false) == Ok::<Option<Seq<char>>, Seq<char>>(d.entry)
            &&& crate::document::says_texts(t, "args"@, d.args)
            &&& t.member("auth"@) is None ==> d.auth.org_env is None && d.auth.user_env is None
                && d.auth.user_oauth is None && d.auth.org_env_hint is None
                && d.auth.user_env_hint is None
            &&& t.member("auth"@) is Some ==> AuthView::decoded(t.member("auth"@)->0) == Ok::<
                AuthView,
                Seq<char>,
            >(d.auth)
            &&& crate::document::decoded_list::<HarnessOption>(t, "models"@) == Ok::<
                Seq<OptionView>,
                Seq<char>,
            >(d.models)
            &&& crate::document::decoded_list::<HarnessOption>(t, "effort"@) == Ok::<
                Seq<OptionView>,
                Seq<char>,
            >(d.effort)
            &&& crate::document::decoded_list::<HarnessMode>(t, "modes"@) == Ok::<
                Seq<ModeView>,
                Seq<char>,
            >(d.modes)
            &&& t.member("egress"@) is None ==> d.egress.allow_hosts.len() == 0
                && d.egress.allow_host_patterns.len() == 0
            &&& t.member("egress"@) is Some ==> EgressView::decoded(t.member("egress"@)->0) == Ok::<
                EgressView,
                Seq<char>,
            >(d.egress)
        }),
{
    let d = DescriptorView::accepted(t)->Ok_0;
    crate::document::strangers_are_refused(t, "harness.toml"@, descriptor_fields());
    crate::document::texts_are_read_in_place(t, "args"@, d.args);
}

/// The ids and the flags of a list stand in the order of its entries.
pub proof fn ids_and_flags_keep_the_order(
    options: Seq<OptionView>,
    modes: Seq<ModeView>,
    i: int,
    j: int,
)
    requires
        0 <= i < options.len(),
        0 <= j < modes.len(),
    ensures
        ids(options).len() == options.len() && flags(options).len() == options.len(),
        ids(options)[i] == options[i].id && flags(options)[i] == options[i].default,
        mode_ids(modes).len() == modes.len() && mode_flags(modes).len() == modes.len(),
        mode_ids(modes)[j] == modes[j].id && mode_flags(modes)[j] == modes[j].default,
{
}

/// Of several rules that a descriptor breaks the first is told: its name, its entry path, its
/// credentials, its models, its effort levels, its modes.
pub proof fn the_first_broken_rule_is_told(d: DescriptorView)
    ensures
        crate::text::blank(d.name) ==> d.problem() == Some("harness.toml: name must not be empty"@),
        !crate::text::blank(d.name) && d.entry is Some && !stays_within(d.entry->0) ==> d.problem()
            == Some(
            "harness.toml: exec must be a non-empty relative path within the harness tree, got "@
                + crate::text::debug_quoted(d.entry->0),
        ),
        !crate::text::blank(d.name) && (d.entry is None || stays_within(d.entry->0)) ==> {
            &&& auth_problem(d.auth) is Some ==> d.problem() == auth_problem(d.auth)
            &&& auth_problem(d.auth) is None && options_problem("models"@, d.models) is Some
                ==> d.problem() == options_problem("models"@, d.models)
            &&& auth_problem(d.auth) is None && options_problem("models"@, d.models) is None
                && options_problem("effort"@, d.effort) is Some ==> d.problem() == options_problem(
                "effort"@,
                d.effort,
            )
            &&& auth_problem(d.auth) is None && options_problem("models"@, d.models) is None
                && options_problem("effort"@, d.effort) is None ==> d.problem() == modes_problem(
                d.modes,
            )
        },
{
}

/// Of several faults of the credentials the first is told: the organisation's variable, a person's
/// variable, two ways for people, the connection.
pub proof fn the_first_fault_of_credentials_is_told(auth: AuthView)
    ensures
        ({
            let org = auth.org_env is Some && !names_a_variable(auth.org_env->0);
            let user = auth.user_env is Some && !names_a_variable(auth.user_env->0);
            let both = auth.user_env is Some && auth.user_oauth is Some;
            let told = auth_problem(auth);
            &&& org ==> told is Some && "harness.toml [auth] org_env: "@.is_prefix_of(told->0)
            &&& !org && user ==> told is Some && "harness.toml [auth] user_env: "@.is_prefix_of(
                told->0,
            )
            &&& !org && !user && both ==> told == Some(
                "harness.toml [auth]: user_env and user_oauth are mutually exclusive"@,
            )
            &&& !org && !user && !both && told is Some ==> auth.user_oauth is Some
                && "harness.toml [auth.user_oauth] provider: "@.is_prefix_of(told->0)
        }),
{
    if auth.org_env is Some {
        names_and_ids_are_checked(auth.org_env->0);
    }
    if auth.user_env is Some {
        names_and_ids_are_checked(auth.user_env->0);
    }
    let told = auth_problem(auth);
    if told is Some {
        let a = "harness.toml [auth] org_env: "@;
        let b = "harness.toml [auth] user_env: "@;
        let c = "harness.toml [auth.user_oauth] provider: "@;
        if auth.org_env is Some && env_name_problem(auth.org_env->0) is Some {
            assert(told->0.subrange(0, a.len() as int) =~= a);
        } else if auth.user_env is Some && env_name_problem(auth.user_env->0) is Some {
            assert(told->0.subrange(0, b.len() as int) =~= b);
        } else if auth.user_env is None || auth.user_oauth is None {
            assert(told->0.subrange(0, c.len() as int) =~= c);
        }
    }
}

/// Of a list of options the first that has a fault is told of: an id without content, then one
/// that stood before, then a variable without a name.
pub proof fn the_first_faulty_option_is_told(field: Seq<char>, options: Seq<OptionView>, i: int)
    requires
        0 <= i < options.len(),
        forall|k: int| 0 <= k < i ==> option_problem(field, options, k) is None,
    ensures
        option_problem(field, options, i) is Some ==> options_problem(field, options)
            == option_problem(field, options, i),
        crate::text::blank(options[i].id) ==> option_problem(field, options, i) == Some(
            "harness.toml [["@ + field + "]]: id must not be empty"@,
        ),
        !crate::text::blank(options[i].id) && (exists|j: int|
            0 <= j < i && (#[trigger] options[j]).id == options[i].id) ==> option_problem(
            field,
            options,
            i,
        ) == Some(
            "harness.toml [["@ + field + "]]: duplicate id "@ + crate::text::debug_quoted(
                options[i].id,
            ),
        ),
{
    let f = |k: int| option_problem(field, options, k);
    if option_problem(field, options, i) is Some {
        assert forall|k: int| 0 <= k < i implies #[trigger] f(k) is None by {
            assert(option_problem(field, options, k) is None);
        }
        crate::text::first_problem_is_the_first(options.len() as int, 0, i, f);
    }
}

/// Of a list of modes the first that has a fault is told of: an id without content, then one that
/// stood before.
pub proof fn the_first_faulty_mode_is_told(modes: Seq<ModeView>, i: int)
    requires
        0 <= i < modes.len(),
        forall|k: int| 0 <= k < i ==> mode_problem(modes, k) is None,
    ensures
        mode_problem(modes, i) is Some ==> modes_problem(modes) == mode_problem(modes, i),
        crate::text::blank(modes[i].id) ==> mode_problem(modes, i) == Some(
            "harness.toml [[modes]]: id must not be empty"@,
        ),
        !crate::text::blank(modes[i].id) && (exists|j: int|
            0 <= j < i && (#[trigger] modes[j]).id == modes[i].id) ==> mode_problem(modes, i)
            == Some(
            "harness.toml [[modes]]: duplicate id "@ + crate::text::debug_quoted(modes[i].id),
        ),
{
    let f = |k: int| mode_problem(modes, k);
    if mode_problem(modes, i) is Some {
        assert forall|k: int| 0 <= k < i implies #[trigger] f(k) is None by {
            assert(mode_problem(modes, k) is None);
        }
        crate::text::first_problem_is_the_first(modes.len() as int, 0, i, f);
    }
}

/// An id that stands in a list has a first place there.
pub proof fn ids_have_a_first_place(ids: Seq<Seq<char>>, id: Seq<char>)
    ensures
        ids.contains(id) <==> exists|i: int| is_first_id(ids, id, i),
    decreases ids.len(),
{
    if ids.contains(id) {
        let k = choose|k: int| 0 <= k < ids.len() && ids[k] == id;
        let earlier = ids.take(k);
        if earlier.contains(id) {
            ids_have_a_first_place(earlier, id);
            let i = choose|i: int| is_first_id(earlier, id, i);
            assert forall|j: int| 0 <= j < i implies #[trigger] ids[j] != id by {
                assert(earlier[j] == ids[j]);
            }
            assert(is_first_id(ids, id, i));
        } else {
            assert forall|j: int| 0 <= j < k implies #[trigger] ids[j] != id by {
                assert(earlier[j] == ids[j]);
                assert(earlier.contains(earlier[j]));
            }
            assert(is_first_id(ids, id, k));
        }
    }
}

/// A descriptor is accepted where each of its parts can be read, it has no member of another name,
/// and it breaks no rule.
pub proof fn descriptors_are_accepted(t: crate::document::Tree, d: DescriptorView)
    requires
        t is Table,
        crate::document::names_only(t, descriptor_fields()),
        t.member("name"@) == Some(crate::document::Tree::Text(d.name)),
        t.opt_text("label"@, false) == Ok::<Option<Seq<char>>, Seq<char>>(d.label),
        t.opt_text("description"@, false) == Ok::<Option<Seq<char>>, Seq<char>>(d.description),
        t.opt_text("exec"@, false) == Ok::<Option<Seq<char>>, Seq<char>>(d.entry),
        crate::document::says_texts(t, "args"@, d.args),
        t.member("auth"@) is None ==> d.auth == AuthView::none(),
        t.member("auth"@) is Some ==> AuthView::decoded(t.member("auth"@)->0) == Ok::<
            AuthView,
            Seq<char>,
        >(d.auth),
        crate::document::decoded_list::<HarnessOption>(t, "models"@) == Ok::<
            Seq<OptionView>,
            Seq<char>,
        >(d.models),
        crate::document::decoded_list::<HarnessOption>(t, "effort"@) == Ok::<
            Seq<OptionView>,
            Seq<char>,
        >(d.effort),
        crate::document::decoded_list::<HarnessMode>(t, "modes"@) == Ok::<
            Seq<ModeView>,
            Seq<char>,
        >(d.modes),
        t.member("egress"@) is None ==> d.egress.allow_hosts == Seq::<Seq<char>>::empty()
            && d.egress.allow_host_patterns == Seq::<Seq<char>>::empty(),
        t.member("egress"@) is Some ==> EgressView::decoded(t.member("egress"@)->0) == Ok::<
            EgressView,
            Seq<char>,
        >(d.egress),
    ensures
        DescriptorView::accepted(t) is Ok <==> d.problem() is None,
        d.problem() is None ==> DescriptorView::accepted(t) == Ok::<DescriptorView, Seq<char>>(d),
{
    crate::document::strangers_are_refused(t, "harness.toml"@, descriptor_fields());
    crate::document::texts_are_read_in_place(t, "args"@, d.args);
}

} // verus!
