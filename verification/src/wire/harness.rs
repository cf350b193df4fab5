//! The document of a harness descriptor.
use crate::document::{
    map_value, member, present_members, text_value, texts_value, write_toml, Member, Value,
};
use crate::types::harness::{
    AuthView, DescriptorView, EgressView, HarnessAuth, HarnessDescriptor, HarnessEgress,
    HarnessMode, HarnessOAuth, HarnessOption, ModeView, OAuthDelivery, OAuthView, OptionView,
};
use vstd::prelude::*;
use vstd::string::*;

verus! {

/// A flag that is set, or nothing.
pub open spec fn flag_tree(b: bool) -> crate::document::Tree {
    if b {
        crate::document::Tree::Bool(true)
    } else {
        crate::document::Tree::Null
    }
}

/// A flag that is set, or nothing.
fn flag_value(b: bool) -> (res: Value)
    ensures
        res@ == flag_tree(b),
{
    if b {
        Value::Bool(true)
    } else {
        Value::Null
    }
}

/// Texts, or nothing where there are none.
pub open spec fn some_texts_tree(s: Seq<Seq<char>>) -> crate::document::Tree {
    if s.len() == 0 {
        crate::document::Tree::Null
    } else {
        crate::document::texts_tree(s)
    }
}

/// Texts, or nothing where there are none.
fn some_texts_value(v: &Vec<String>) -> (res: Value)
    ensures
        res@ == some_texts_tree(v.deep_view()),
{
    if v.len() == 0 {
        Value::Null
    } else {
        texts_value(v)
    }
}

/// A list of texts that was left out where it is empty is read back.
proof fn some_texts_are_read_back(t: crate::document::Tree, key: Seq<char>, s: Seq<Seq<char>>)
    requires
        s.len() == 0 ==> t.member(key) is None,
        s.len() > 0 ==> t.member(key) == Some(crate::document::texts_tree(s)),
    ensures
        t.text_list(key) == Ok::<Seq<Seq<char>>, Seq<char>>(s),
{
    if s.len() > 0 {
        crate::document::texts_are_read_back(t, key, s);
    } else {
        assert(s =~= Seq::empty());
    }
}

/// Texts can be written and have what TOML has.
proof fn some_texts_fit(s: Seq<Seq<char>>)
    ensures
        crate::document::plain(some_texts_tree(s), 2),
        crate::document::blocks_last(some_texts_tree(s)),
        !crate::document::is_block(some_texts_tree(s)),
        s.len() > 0 ==> crate::document::fits_toml(some_texts_tree(s)),
{
    crate::document::texts_fit_toml(s);
    let items = crate::document::texts_tree(s)->List_0;
    assert forall|i: int| 0 <= i < items.len() implies crate::document::plain(
        #[trigger] items[i],
        1,
    ) by {
    }
}

/// The members of an option.
pub open spec fn option_members(o: HarnessOption) -> Seq<crate::document::MemberTree> {
    seq![
        crate::document::named("id"@, crate::document::Tree::Text(o.id@)),
        crate::document::named("label"@, crate::document::text_tree(o.label.deep_view())),
        crate::document::named("default"@, flag_tree(o.default)),
        crate::document::named(
            "env"@,
            if o.env.keys().len() == 0 {
                crate::document::Tree::Null
            } else {
                crate::document::map_tree(o.env.keys(), o.env.values())
            },
        ),
    ]
}

/// The document of an option, without what is absent.
pub open spec fn option_tree(o: HarnessOption) -> crate::document::Tree {
    crate::document::Tree::Table(crate::document::present(option_members(o)))
}

/// The keys of an option's variables are those of a map: none occurs twice.
pub open spec fn keys_differ(o: HarnessOption) -> bool {
    &&& o.env.keys().len() == o.env.values().len()
    &&& forall|i: int, j: int|
        0 <= i < j < o.env.keys().len() ==> #[trigger] o.env.keys()[i] != #[trigger] o.env.keys()[j]
}

/// The document of an option.
fn option_value(o: &HarnessOption) -> (res: Value)
    ensures
        res@ == option_tree(*o),
        keys_differ(*o),
{
    let n: usize = o.env.len();
    proof {
        assert forall|i: int, j: int| 0 <= i < j < o.env.keys().len() implies #[trigger] o.env.keys()[i]
            != #[trigger] o.env.keys()[j] by {
            crate::text_map::before_is_total(o.env.keys()[i], o.env.keys()[j]);
        }
    }
    let env = if n == 0 {
        Value::Null
    } else {
        map_value(&o.env)
    };
    let mut members: Vec<Member> = Vec::new();
    members.push(member("id", Value::Text(o.id.clone())));
    members.push(member("label", text_value(&o.label)));
    members.push(member("default", flag_value(o.default)));
    members.push(member("env", env));
    assert(crate::document::table_view(members@) =~= option_members(*o));
    Value::Table(present_members(&members))
}

/// An option is read back from its document.
proof fn option_is_read_back(o: HarnessOption)
    requires
        keys_differ(o),
    ensures
        crate::document::plain(option_tree(o), 3),
        crate::document::fits_toml(option_tree(o)),
        crate::document::blocks_last(option_tree(o)),
        OptionView::decoded(option_tree(o)) == Ok::<OptionView, Seq<char>>(o@),
{
    reveal_strlit("id");
    reveal_strlit("label");
    reveal_strlit("default");
    reveal_strlit("env");
    assert("id"@.len() == 2);
    assert("label"@.len() == 5);
    assert("default"@.len() == 7);
    assert("env"@.len() == 3);
    let t = option_tree(o);
    let members = option_members(o);
    assert(crate::document::distinct_names(members));
    crate::document::distinct_member_is_found(members, 0);
    crate::document::distinct_member_is_found(members, 1);
    crate::document::distinct_member_is_found(members, 2);
    crate::document::distinct_member_is_found(members, 3);
    let allowed = seq!["id"@, "label"@, "default"@, "env"@];
    assert forall|i: int| 0 <= i < members.len() implies allowed.contains(
        (#[trigger] members[i]).key,
    ) by {
        assert(allowed[i] == members[i].key);
    }
    crate::document::present_has_no_stranger(members, allowed);
    if o.env.keys().len() > 0 {
        crate::document::map_is_read_back(
            crate::document::Tree::Table(members),
            "env"@,
            o.env.keys(),
            o.env.values(),
        );
        crate::document::map_fits_toml(o.env.keys(), o.env.values());
    }
    assert forall|i: int| 0 <= i < members.len() implies crate::document::plain(
        (#[trigger] members[i]).value,
        2,
    ) && (members[i].value is Null || crate::document::fits_toml(members[i].value))
        && crate::document::blocks_last(members[i].value) && (i < 3 ==> !crate::document::is_block(
        members[i].value,
    )) by {
    }
    crate::document::present_keeps(members, 2);
    if o.env.keys().len() > 0 {
        crate::document::map_is_read_back(t, "env"@, o.env.keys(), o.env.values());
    }
}

/// The members of a mode.
pub open spec fn mode_members(m: HarnessMode) -> Seq<crate::document::MemberTree> {
    seq![
        crate::document::named("id"@, crate::document::Tree::Text(m.id@)),
        crate::document::named("label"@, crate::document::text_tree(m.label.deep_view())),
        crate::document::named("default"@, flag_tree(m.default)),
    ]
}

/// The document of a mode, without what is absent.
pub open spec fn mode_tree(m: HarnessMode) -> crate::document::Tree {
    crate::document::Tree::Table(crate::document::present(mode_members(m)))
}

/// The document of a mode.
fn mode_value(m: &HarnessMode) -> (res: Value)
    ensures
        res@ == mode_tree(*m),
{
    let mut members: Vec<Member> = Vec::new();
    members.push(member("id", Value::Text(m.id.clone())));
    members.push(member("label", text_value(&m.label)));
    members.push(member("default", flag_value(m.default)));
    assert(crate::document::table_view(members@) =~= mode_members(*m));
    Value::Table(present_members(&members))
}

/// A mode is read back from its document.
proof fn mode_is_read_back(m: HarnessMode)
    ensures
        crate::document::plain(mode_tree(m), 3),
        crate::document::fits_toml(mode_tree(m)),
        crate::document::blocks_last(mode_tree(m)),
        ModeView::decoded(mode_tree(m)) == Ok::<ModeView, Seq<char>>(m@),
{
    reveal_strlit("id");
    reveal_strlit("label");
    reveal_strlit("default");
    assert("id"@.len() == 2);
    assert("label"@.len() == 5);
    assert("default"@.len() == 7);
    let members = mode_members(m);
    assert(crate::document::distinct_names(members));
    crate::document::distinct_member_is_found(members, 0);
    crate::document::distinct_member_is_found(members, 1);
    crate::document::distinct_member_is_found(members, 2);
    let allowed = seq!["id"@, "label"@, "default"@];
    assert forall|i: int| 0 <= i < members.len() implies allowed.contains(
        (#[trigger] members[i]).key,
    ) by {
        assert(allowed[i] == members[i].key);
    }
    crate::document::present_has_no_stranger(members, allowed);
    assert forall|i: int| 0 <= i < members.len() implies crate::document::plain(
        (#[trigger] members[i]).value,
        2,
    ) && (members[i].value is Null || crate::document::fits_toml(members[i].value))
        && crate::document::blocks_last(members[i].value) && !crate::document::is_block(
        members[i].value,
    ) by {
    }
    crate::document::present_keeps(members, 2);
}

/// The document of an OAuth connection.
pub open spec fn oauth_tree(o: HarnessOAuth) -> crate::document::Tree {
    crate::document::Tree::Table(
        seq![
            crate::document::named("provider"@, crate::document::Tree::Text(o.provider@)),
            crate::document::named("delivery"@, crate::document::Tree::Text("opaque_bundle"@)),
        ],
    )
}

/// The document of an OAuth connection.
fn oauth_value(o: &HarnessOAuth) -> (res: Value)
    ensures
        res@ == oauth_tree(*o),
{
    let delivery = match o.delivery {
        OAuthDelivery::OpaqueBundle => "opaque_bundle",
    };
    let mut members: Vec<Member> = Vec::new();
    members.push(member("provider", Value::Text(o.provider.clone())));
    members.push(member("delivery", Value::Text(delivery.to_owned())));
    assert(crate::document::table_view(members@) =~= oauth_tree(*o)->Table_0);
    Value::Table(members)
}

/// An OAuth connection is read back from its document.
proof fn oauth_is_read_back(o: HarnessOAuth)
    ensures
        crate::document::plain(oauth_tree(o), 2),
        crate::document::fits_toml(oauth_tree(o)),
        crate::document::blocks_last(oauth_tree(o)),
        OAuthView::decoded(oauth_tree(o)) == Ok::<OAuthView, Seq<char>>(o@),
{
    reveal_strlit("provider");
    reveal_strlit("delivery");
    assert("provider"@.len() == 8);
    assert("delivery"@.len() == 8);
    assert("provider"@[0] != "delivery"@[0]);
    let members = oauth_tree(o)->Table_0;
    assert(crate::document::distinct_names(members));
    crate::document::distinct_member_is_found(members, 0);
    crate::document::distinct_member_is_found(members, 1);
    let allowed = seq!["provider"@, "delivery"@];
    assert forall|i: int| 0 <= i < members.len() implies allowed.contains(
        (#[trigger] members[i]).key,
    ) && crate::document::plain(members[i].value, 1) && crate::document::fits_toml(members[i].value)
        && crate::document::blocks_last(members[i].value) && !crate::document::is_block(
        members[i].value,
    ) by {
        assert(allowed[i] == members[i].key);
    }
    crate::document::no_stranger(members, allowed, 0);
}

/// The members of credentials, the OAuth connection last.
pub open spec fn auth_members(a: HarnessAuth) -> Seq<crate::document::MemberTree> {
    seq![
        crate::document::named("org_env"@, crate::document::text_tree(a.org_env.deep_view())),
        crate::document::named("user_env"@, crate::document::text_tree(a.user_env.deep_view())),
        crate::document::named(
            "org_env_hint"@,
            crate::document::text_tree(a.org_env_hint.deep_view()),
        ),
        crate::document::named(
            "user_env_hint"@,
            crate::document::text_tree(a.user_env_hint.deep_view()),
        ),
        crate::document::named(
            "user_oauth"@,
            match a.user_oauth {
                Some(o) => oauth_tree(o),
                None => crate::document::Tree::Null,
            },
        ),
    ]
}

/// The document of credentials, without what is absent.
pub open spec fn auth_tree(a: HarnessAuth) -> crate::document::Tree {
    crate::document::Tree::Table(crate::document::present(auth_members(a)))
}

/// The document of credentials.
fn auth_value(a: &HarnessAuth) -> (res: Value)
    ensures
        res@ == auth_tree(*a),
{
    let user_oauth = match &a.user_oauth {
        Some(o) => oauth_value(o),
        None => Value::Null,
    };
    let mut members: Vec<Member> = Vec::new();
    members.push(member("org_env", text_value(&a.org_env)));
    members.push(member("user_env", text_value(&a.user_env)));
    members.push(member("org_env_hint", text_value(&a.org_env_hint)));
    members.push(member("user_env_hint", text_value(&a.user_env_hint)));
    members.push(member("user_oauth", user_oauth));
    assert(crate::document::table_view(members@) =~= auth_members(*a));
    Value::Table(present_members(&members))
}

/// Credentials are read back from their document.
proof fn auth_is_read_back(a: HarnessAuth)
    ensures
        crate::document::plain(auth_tree(a), 3),
        crate::document::fits_toml(auth_tree(a)),
        crate::document::blocks_last(auth_tree(a)),
        AuthView::decoded(auth_tree(a)) == Ok::<AuthView, Seq<char>>(a@),
{
    reveal_strlit("org_env");
    reveal_strlit("user_env");
    reveal_strlit("user_oauth");
    reveal_strlit("org_env_hint");
    reveal_strlit("user_env_hint");
    assert("org_env"@.len() == 7);
    assert("user_env"@.len() == 8);
    assert("user_oauth"@.len() == 10);
    assert("org_env_hint"@.len() == 12);
    assert("user_env_hint"@.len() == 13);
    let members = auth_members(a);
    assert(crate::document::distinct_names(members));
    crate::document::distinct_member_is_found(members, 0);
    crate::document::distinct_member_is_found(members, 1);
    crate::document::distinct_member_is_found(members, 2);
    crate::document::distinct_member_is_found(members, 3);
    crate::document::distinct_member_is_found(members, 4);
    let allowed = seq![
        "org_env"@,
        "user_env"@,
        "user_oauth"@,
        "org_env_hint"@,
        "user_env_hint"@,
    ];
    assert forall|i: int| 0 <= i < members.len() implies allowed.contains(
        (#[trigger] members[i]).key,
    ) by {
        assert(allowed[0] == members[0].key);
        assert(allowed[1] == members[1].key);
        assert(allowed[2] == members[4].key);
        assert(allowed[3] == members[2].key);
        assert(allowed[4] == members[3].key);
    }
    crate::document::present_has_no_stranger(members, allowed);
    if a.user_oauth is Some {
        oauth_is_read_back(a.user_oauth->0);
    }
    assert forall|i: int| 0 <= i < members.len() implies crate::document::plain(
        (#[trigger] members[i]).value,
        2,
    ) && (members[i].value is Null || crate::document::fits_toml(members[i].value))
        && crate::document::blocks_last(members[i].value) && (i < 4 ==> !crate::document::is_block(
        members[i].value,
    )) by {
    }
    crate::document::present_keeps(members, 2);
}

/// The members of the hosts that a harness reaches.
pub open spec fn egress_members(e: HarnessEgress) -> Seq<crate::document::MemberTree> {
    seq![
        crate::document::named("allow_hosts"@, some_texts_tree(e.allow_hosts.deep_view())),
        crate::document::named(
            "allow_host_patterns"@,
            some_texts_tree(e.allow_host_patterns.deep_view()),
        ),
    ]
}

/// The document of the hosts that a harness reaches, or nothing where there are none.
pub open spec fn egress_tree(e: HarnessEgress) -> crate::document::Tree {
    if e.allow_hosts@.len() == 0 && e.allow_host_patterns@.len() == 0 {
        crate::document::Tree::Null
    } else {
        crate::document::Tree::Table(crate::document::present(egress_members(e)))
    }
}

/// The document of the hosts that a harness reaches.
fn egress_value(e: &HarnessEgress) -> (res: Value)
    ensures
        res@ == egress_tree(*e),
{
    if e.allow_hosts.len() == 0 && e.allow_host_patterns.len() == 0 {
        return Value::Null;
    }
    let mut members: Vec<Member> = Vec::new();
    members.push(member("allow_hosts", some_texts_value(&e.allow_hosts)));
    members.push(member("allow_host_patterns", some_texts_value(&e.allow_host_patterns)));
    assert(crate::document::table_view(members@) =~= egress_members(*e));
    Value::Table(present_members(&members))
}

/// The hosts that a harness reaches are read back from their document.
proof fn egress_is_read_back(e: HarnessEgress)
    requires
        !(egress_tree(e) is Null),
    ensures
        crate::document::plain(egress_tree(e), 3),
        crate::document::fits_toml(egress_tree(e)),
        crate::document::blocks_last(egress_tree(e)),
        EgressView::decoded(egress_tree(e)) == Ok::<EgressView, Seq<char>>(e@),
{
    reveal_strlit("allow_hosts");
    reveal_strlit("allow_host_patterns");
    assert("allow_hosts"@.len() == 11);
    assert("allow_host_patterns"@.len() == 19);
    let t = egress_tree(e);
    let members = egress_members(e);
    assert(crate::document::distinct_names(members));
    crate::document::distinct_member_is_found(members, 0);
    crate::document::distinct_member_is_found(members, 1);
    let allowed = seq!["allow_hosts"@, "allow_host_patterns"@];
    assert forall|i: int| 0 <= i < members.len() implies allowed.contains(
        (#[trigger] members[i]).key,
    ) by {
        assert(allowed[i] == members[i].key);
    }
    crate::document::present_has_no_stranger(members, allowed);
    some_texts_fit(e.allow_hosts.deep_view());
    some_texts_fit(e.allow_host_patterns.deep_view());
    assert forall|i: int| 0 <= i < members.len() implies crate::document::plain(
        (#[trigger] members[i]).value,
        2,
    ) && (members[i].value is Null || crate::document::fits_toml(members[i].value))
        && crate::document::blocks_last(members[i].value) && !crate::document::is_block(
        members[i].value,
    ) by {
    }
    crate::document::present_keeps(members, 2);
    some_texts_are_read_back(t, "allow_hosts"@, e.allow_hosts.deep_view());
    some_texts_are_read_back(t, "allow_host_patterns"@, e.allow_host_patterns.deep_view());
}

/// The documents of options, or nothing where there are none.
pub open spec fn options_tree(v: Seq<HarnessOption>) -> crate::document::Tree {
    if v.len() == 0 {
        crate::document::Tree::Null
    } else {
        crate::document::Tree::List(Seq::new(v.len(), |i: int| option_tree(v[i])))
    }
}

/// The documents of options.
fn options_value(v: &Vec<HarnessOption>) -> (res: Value)
    ensures
        res@ == options_tree(v@),
        forall|i: int| 0 <= i < v@.len() ==> keys_differ(#[trigger] v@[i]),
{
    let mut items: Vec<Value> = Vec::new();
    let mut i: usize = 0;
    while i < v.len()
        invariant
            i <= v.len(),
            items@.len() == i,
            forall|j: int| 0 <= j < i ==> (#[trigger] items@[j])@ == option_tree(v@[j]),
            forall|j: int| 0 <= j < i ==> keys_differ(#[trigger] v@[j]),
        decreases v.len() - i,
    {
        items.push(option_value(&v[i]));
        i += 1;
    }
    if v.len() == 0 {
        return Value::Null;
    }
    assert(crate::document::list_view(items@) =~= options_tree(v@)->List_0);
    Value::List(items)
}

/// Options can be written and have what TOML has.
proof fn options_fit(v: Seq<HarnessOption>)
    requires
        forall|i: int| 0 <= i < v.len() ==> keys_differ(#[trigger] v[i]),
    ensures
        crate::document::plain(options_tree(v), 4),
        crate::document::blocks_last(options_tree(v)),
        v.len() > 0 ==> crate::document::fits_toml(options_tree(v)) && crate::document::is_block(
            options_tree(v),
        ),
{
    if v.len() > 0 {
        let items = options_tree(v)->List_0;
        assert forall|i: int| 0 <= i < items.len() implies crate::document::plain(
            #[trigger] items[i],
            3,
        ) && crate::document::fits_toml(items[i]) && crate::document::blocks_last(items[i]) by {
            assert(keys_differ(v[i]));
            option_is_read_back(v[i]);
        }
    }
}

/// Options are read back from their documents.
proof fn options_are_read_back(t: crate::document::Tree, key: Seq<char>, v: Seq<HarnessOption>)
    requires
        forall|i: int| 0 <= i < v.len() ==> keys_differ(#[trigger] v[i]),
        v.len() == 0 ==> t.member(key) is None,
        v.len() > 0 ==> t.member(key) == Some(options_tree(v)),
    ensures
        crate::document::decoded_list::<HarnessOption>(t, key) == Ok::<
            Seq<OptionView>,
            Seq<char>,
        >(crate::text::views(v)),
{
    let all: Seq<OptionView> = crate::text::views(v);
    if v.len() > 0 {
        let items = options_tree(v)->List_0;
        assert forall|i: int| 0 <= i < items.len() implies
            <HarnessOption as crate::document::Decode>::decoded(#[trigger] items[i]) == Ok::<
            OptionView,
            Seq<char>,
        >(all[i]) by {
            assert(keys_differ(v[i]));
            option_is_read_back(v[i]);
        }
        crate::document::items_are_read_back::<HarnessOption>(t, key, items, all);
    } else {
        none_are_read_back::<HarnessOption>(t, key);
        assert(all =~= Seq::<OptionView>::empty());
    }
}

/// A list that is not there has no items.
proof fn none_are_read_back<T: crate::document::Decode>(t: crate::document::Tree, key: Seq<char>)
    requires
        t.member(key) is None,
    ensures
        crate::document::decoded_list::<T>(t, key) == Ok::<Seq<T::V>, Seq<char>>(Seq::empty()),
{
    let items = Seq::<crate::document::Tree>::empty();
    let f = |i: int| T::decoded(items[i]);
    assert(Seq::new(0, |i: int| f(i)->Ok_0) =~= Seq::<T::V>::empty());
}

/// The documents of modes, or nothing where there are none.
pub open spec fn modes_tree(v: Seq<HarnessMode>) -> crate::document::Tree {
    if v.len() == 0 {
        crate::document::Tree::Null
    } else {
        crate::document::Tree::List(Seq::new(v.len(), |i: int| mode_tree(v[i])))
    }
}

/// The documents of modes.
fn modes_value(v: &Vec<HarnessMode>) -> (res: Value)
    ensures
        res@ == modes_tree(v@),
{
    if v.len() == 0 {
        return Value::Null;
    }
    let mut items: Vec<Value> = Vec::new();
    let mut i: usize = 0;
    while i < v.len()
        invariant
            i <= v.len(),
            items@.len() == i,
            forall|j: int| 0 <= j < i ==> (#[trigger] items@[j])@ == mode_tree(v@[j]),
        decreases v.len() - i,
    {
        items.push(mode_value(&v[i]));
        i += 1;
    }
    assert(crate::document::list_view(items@) =~= modes_tree(v@)->List_0);
    Value::List(items)
}

/// Modes can be written and have what TOML has.
proof fn modes_fit(v: Seq<HarnessMode>)
    ensures
        crate::document::plain(modes_tree(v), 4),
        crate::document::blocks_last(modes_tree(v)),
        v.len() > 0 ==> crate::document::fits_toml(modes_tree(v)) && crate::document::is_block(
            modes_tree(v),
        ),
{
    if v.len() > 0 {
        let items = modes_tree(v)->List_0;
        assert forall|i: int| 0 <= i < items.len() implies crate::document::plain(
            #[trigger] items[i],
            3,
        ) && crate::document::fits_toml(items[i]) && crate::document::blocks_last(items[i]) by {
            mode_is_read_back(v[i]);
        }
    }
}

/// Modes are read back from their documents.
proof fn modes_are_read_back(t: crate::document::Tree, key: Seq<char>, v: Seq<HarnessMode>)
    requires
        v.len() == 0 ==> t.member(key) is None,
        v.len() > 0 ==> t.member(key) == Some(modes_tree(v)),
    ensures
        crate::document::decoded_list::<HarnessMode>(t, key) == Ok::<Seq<ModeView>, Seq<char>>(
            crate::text::views(v),
        ),
{
    let all: Seq<ModeView> = crate::text::views(v);
    if v.len() > 0 {
        let items = modes_tree(v)->List_0;
        assert forall|i: int| 0 <= i < items.len() implies
            <HarnessMode as crate::document::Decode>::decoded(#[trigger] items[i]) == Ok::<
            ModeView,
            Seq<char>,
        >(all[i]) by {
            mode_is_read_back(v[i]);
        }
        crate::document::items_are_read_back::<HarnessMode>(t, key, items, all);
    } else {
        none_are_read_back::<HarnessMode>(t, key);
        assert(all =~= Seq::<ModeView>::empty());
    }
}

/// The members of a descriptor.
pub open spec fn descriptor_members(d: HarnessDescriptor) -> Seq<crate::document::MemberTree> {
    seq![
        crate::document::named("name"@, crate::document::Tree::Text(d.name@)),
        crate::document::named("label"@, crate::document::text_tree(d.label.deep_view())),
        crate::document::named(
            "description"@,
            crate::document::text_tree(d.description.deep_view()),
        ),
        crate::document::named("exec"@, crate::document::text_tree(d.entry.deep_view())),
        crate::document::named("args"@, some_texts_tree(d.args.deep_view())),
        crate::document::named("auth"@, auth_tree(d.auth)),
        crate::document::named("models"@, options_tree(d.models@)),
        crate::document::named("effort"@, options_tree(d.effort@)),
        crate::document::named("modes"@, modes_tree(d.modes@)),
        crate::document::named("egress"@, egress_tree(d.egress)),
    ]
}

/// The document of a descriptor. Apart from the credentials, what is absent or empty leaves no
/// trace.
pub open spec fn descriptor_tree(d: HarnessDescriptor) -> crate::document::Tree {
    crate::document::Tree::Table(crate::document::present(descriptor_members(d)))
}

/// The variables of every option are those of a map: no key occurs twice.
pub open spec fn option_keys_differ(d: HarnessDescriptor) -> bool {
    &&& forall|i: int| 0 <= i < d.models@.len() ==> keys_differ(#[trigger] d.models@[i])
    &&& forall|i: int| 0 <= i < d.effort@.len() ==> keys_differ(#[trigger] d.effort@[i])
}

/// The members of a descriptor's document, by their names.
pub(crate) proof fn descriptor_values(d: HarnessDescriptor)
    requires
        option_keys_differ(d),
    ensures
        crate::document::plain(descriptor_tree(d), 32),
        crate::document::fits_toml(descriptor_tree(d)),
        crate::document::blocks_last(descriptor_tree(d)),
        descriptor_tree(d).table_of(
            "harness.toml"@,
            crate::types::harness::descriptor_fields(),
        ) is Ok,
        forall|i: int|
            0 <= i < 10 ==> descriptor_tree(d).member((#[trigger] descriptor_members(d)[i]).key) == (
            if descriptor_members(d)[i].value is Null {
                None
            } else {
                Some(descriptor_members(d)[i].value)
            }),
{
    reveal_strlit("name");
    reveal_strlit("label");
    reveal_strlit("description");
    reveal_strlit("exec");
    reveal_strlit("args");
    reveal_strlit("auth");
    reveal_strlit("models");
    reveal_strlit("effort");
    reveal_strlit("modes");
    reveal_strlit("egress");
    assert("name"@.len() == 4);
    assert("label"@.len() == 5);
    assert("description"@.len() == 11);
    assert("exec"@.len() == 4);
    assert("args"@.len() == 4);
    assert("auth"@.len() == 4);
    assert("models"@.len() == 6);
    assert("effort"@.len() == 6);
    assert("modes"@.len() == 5);
    assert("egress"@.len() == 6);
    assert("name"@[0] != "exec"@[0] && "name"@[0] != "args"@[0] && "name"@[0] != "auth"@[0]);
    assert("exec"@[0] != "args"@[0] && "exec"@[0] != "auth"@[0] && "args"@[1] != "auth"@[1]);
    assert("models"@[0] != "effort"@[0] && "models"@[0] != "egress"@[0]);
    assert("effort"@[1] != "egress"@[1] && "label"@[0] != "modes"@[0]);
    let members = descriptor_members(d);
    assert(crate::document::distinct_names(members));
    let allowed = crate::types::harness::descriptor_fields();
    assert forall|i: int| 0 <= i < members.len() implies allowed.contains(
        (#[trigger] members[i]).key,
    ) by {
        assert(allowed[i] == members[i].key);
    }
    crate::document::present_has_no_stranger(members, allowed);
    some_texts_fit(d.args.deep_view());
    crate::document::plain_within(members[4].value, 2, 31);
    auth_is_read_back(d.auth);
    crate::document::plain_within(members[5].value, 3, 31);
    options_fit(d.models@);
    crate::document::plain_within(members[6].value, 4, 31);
    options_fit(d.effort@);
    crate::document::plain_within(members[7].value, 4, 31);
    modes_fit(d.modes@);
    crate::document::plain_within(members[8].value, 4, 31);
    if !(members[9].value is Null) {
        egress_is_read_back(d.egress);
        crate::document::plain_within(members[9].value, 3, 31);
    }
    assert forall|i: int| 0 <= i < members.len() implies crate::document::plain(
        (#[trigger] members[i]).value,
        31,
    ) && (members[i].value is Null || crate::document::fits_toml(members[i].value))
        && crate::document::blocks_last(members[i].value) && (i < 5 ==> !crate::document::is_block(
        members[i].value,
    )) && (i >= 5 ==> members[i].value is Null || crate::document::is_block(members[i].value)) by {
    }
    crate::document::present_keeps(members, 31);
    assert forall|i: int| 0 <= i < 10 implies descriptor_tree(d).member(
        (#[trigger] members[i]).key,
    ) == (if members[i].value is Null {
        None
    } else {
        Some(members[i].value)
    }) by {
        crate::document::distinct_member_is_found(members, i);
    }
}

/// A descriptor is read back from its document, and a valid one is accepted.
pub proof fn descriptor_is_read_back(d: HarnessDescriptor)
    requires
        option_keys_differ(d),
    ensures
        DescriptorView::decoded(descriptor_tree(d)) == Ok::<DescriptorView, Seq<char>>(d@),
        d@.problem() is None ==> DescriptorView::accepted(descriptor_tree(d)) == Ok::<
            DescriptorView,
            Seq<char>,
        >(d@),
{
    let t = descriptor_tree(d);
    let members = descriptor_members(d);
    descriptor_values(d);
    assert(t.member(members[0].key) == Some(members[0].value));
    assert(members[1].key == "label"@ && members[2].key == "description"@ && members[3].key
        == "exec"@);
    assert(members[4].key == "args"@ && members[5].key == "auth"@ && members[6].key == "models"@);
    assert(members[7].key == "effort"@ && members[8].key == "modes"@ && members[9].key == "egress"@);
    some_texts_are_read_back(t, "args"@, d.args.deep_view());
    auth_is_read_back(d.auth);
    options_are_read_back(t, "models"@, d.models@);
    options_are_read_back(t, "effort"@, d.effort@);
    modes_are_read_back(t, "modes"@, d.modes@);
    if !(members[9].value is Null) {
        egress_is_read_back(d.egress);
    } else {
        assert(d.egress@.allow_hosts =~= Seq::empty());
        assert(d.egress@.allow_host_patterns =~= Seq::empty());
    }
}

impl HarnessDescriptor {
    /// The descriptor as a document.
    pub fn document(&self) -> (res: Value)
        ensures
            res@ == descriptor_tree(*self),
            option_keys_differ(*self),
    {
        let mut members: Vec<Member> = Vec::new();
        members.push(member("name", Value::Text(self.name.clone())));
        members.push(member("label", text_value(&self.label)));
        members.push(member("description", text_value(&self.description)));
        members.push(member("exec", text_value(&self.entry)));
        members.push(member("args", some_texts_value(&self.args)));
        members.push(member("auth", auth_value(&self.auth)));
        members.push(member("models", options_value(&self.models)));
        members.push(member("effort", options_value(&self.effort)));
        members.push(member("modes", modes_value(&self.modes)));
        members.push(member("egress", egress_value(&self.egress)));
        assert(crate::document::table_view(members@) =~= descriptor_members(*self));
        Value::Table(present_members(&members))
    }

    /// Writes the descriptor as the text of a `harness.toml`. What is written is read back. Texts
    /// with a quotation mark 256 times in a row are left out: on them `toml` overflows a counter.
    pub fn to_toml(&self) -> (res: String)
        requires
            crate::document::calm_texts(descriptor_tree(*self)),
        ensures
            crate::document::toml_written(descriptor_tree(*self)) == Ok::<Seq<char>, Seq<char>>(
                res@,
            ),
            option_keys_differ(*self),
    {
        let doc = self.document();
        proof {
            descriptor_values(*self);
        }
        write_toml(&doc).unwrap()
    }
}

} // verus!
