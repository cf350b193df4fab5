//! Capabilities that a profile grants: `provider:action[@resource]`.
//!
//! The set that is bound to a session decides what its guest may ask for: every request is
//! clamped to it.
use crate::text::{same, split_once, strip_prefix, strip_suffix};
use vstd::prelude::*;
use vstd::string::*;

verus! {

/// A grant of an action of a provider. `action` may contain colons; `resource` narrows the grant
/// to a resource, or to those that a pattern covers.
#[derive(Debug, PartialEq, Eq, Hash)]
pub struct Capability {
    pub provider: String,
    pub action: String,
    pub resource: Option<String>,
}

/// A text that is no capability, with the reason.
#[derive(Clone, Debug, PartialEq, Eq)]
pub struct CapabilityError(pub String);

/// What a [`Capability`] stands for.
#[verifier::ext_equal]
pub ghost struct Grant {
    pub provider: Seq<char>,
    pub action: Seq<char>,
    pub resource: Option<Seq<char>>,
}

impl View for Capability {
    type V = Grant;

    open spec fn view(&self) -> Grant {
        Grant {
            provider: self.provider@,
            action: self.action@,
            resource: match self.resource {
                Some(r) => Some(r@),
                None => None,
            },
        }
    }
}

impl Clone for Capability {
    fn clone(&self) -> (res: Capability)
        ensures
            res@ == self@,
    {
        Capability {
            provider: self.provider.clone(),
            action: self.action.clone(),
            resource: self.resource.clone(),
        }
    }
}

/// `value` is the resource `prefix` or lies below it.
pub open spec fn at_or_below(prefix: Seq<char>, value: Seq<char>) -> bool {
    value == prefix || (prefix + "/"@).is_prefix_of(value)
}

/// The resource `value` matches `pattern`: `*` matches all, `p/*` matches `p` and what lies
/// below it, any other pattern matches itself.
pub open spec fn resource_matched(pattern: Seq<char>, value: Seq<char>) -> bool {
    if pattern == "*"@ {
        true
    } else if "/*"@.is_suffix_of(pattern) {
        at_or_below(pattern.subrange(0, pattern.len() - 2), value)
    } else {
        pattern == value
    }
}

impl Grant {
    /// The text of the grant.
    pub open spec fn wire(self) -> Seq<char> {
        match self.resource {
            Some(r) => self.provider + ":"@ + self.action + "@"@ + r,
            None => self.provider + ":"@ + self.action,
        }
    }

    /// The parts can be told apart in the text: the provider has no `:`, neither it nor the
    /// action has an `@`, and no part is empty.
    pub open spec fn wf(self) -> bool {
        &&& self.provider.len() > 0
        &&& self.action.len() > 0
        &&& !self.provider.contains(':')
        &&& !self.provider.contains('@')
        &&& !self.action.contains('@')
        &&& self.resource is Some ==> self.resource->0.len() > 0
    }

    /// The grant that a text stands for, or the reason why it stands for none.
    pub open spec fn parsed(s: Seq<char>) -> Result<Grant, Seq<char>> {
        let (head, resource) = match crate::text::split_first(s, '@') {
            Some((h, r)) => (h, Some(r)),
            None => (s, None),
        };
        if resource is Some && resource->0.len() == 0 {
            Err("capability `"@ + s + "` has an empty resource after `@`"@)
        } else {
            match crate::text::split_first(head, ':') {
                None => Err("capability `"@ + s + "` must be `provider:action[@resource]`"@),
                Some((provider, action)) => if provider.len() == 0 || action.len() == 0 {
                    Err("capability `"@ + s + "` has an empty provider or action"@)
                } else {
                    Ok(Grant { provider, action, resource })
                },
            }
        }
    }

    /// The bound grant `self` allows what `req` asks for.
    pub open spec fn covering(self, req: Grant) -> bool {
        &&& self.provider == req.provider
        &&& self.action == req.action
        &&& self.resource is Some ==> req.resource is Some && resource_matched(
            self.resource->0,
            req.resource->0,
        )
    }

    /// Some grant of `bound` allows what `self` asks for.
    pub open spec fn covered_by(self, bound: Seq<Grant>) -> bool {
        exists|i: int| 0 <= i < bound.len() && (#[trigger] bound[i]).covering(self)
    }
}

impl Capability {
    /// Reads `provider:action[@resource]`. The resource follows the first `@`; the provider
    /// ends at the first `:` before it.
    pub fn parse(s: &str) -> (res: Result<Capability, CapabilityError>)
        ensures
            match res {
                Ok(c) => Grant::parsed(s@) == Ok::<Grant, Seq<char>>(c@),
                Err(e) => Grant::parsed(s@) == Err::<Grant, Seq<char>>(e.0@),
            },
    {
        let (head, resource) = match split_once(s, '@') {
            Some((h, r)) => (h, Some(r)),
            None => (s.to_owned(), None),
        };
        if let Some(r) = &resource {
            if r.as_str().is_empty() {
                let mut text = String::from_str("capability `");
                text.append(s);
                text.append("` has an empty resource after `@`");
                return Err(CapabilityError(text));
            }
        }
        match split_once(head.as_str(), ':') {
            None => {
                let mut text = String::from_str("capability `");
                text.append(s);
                text.append("` must be `provider:action[@resource]`");
                Err(CapabilityError(text))
            },
            Some((provider, action)) => {
                if provider.as_str().is_empty() || action.as_str().is_empty() {
                    let mut text = String::from_str("capability `");
                    text.append(s);
                    text.append("` has an empty provider or action");
                    Err(CapabilityError(text))
                } else {
                    Ok(Capability { provider, action, resource })
                }
            },
        }
    }

    /// The text `provider:action[@resource]`.
    pub fn to_wire(&self) -> (res: String)
        ensures
            res@ == self@.wire(),
    {
        let mut text = self.provider.clone();
        text.append(":");
        text.append(self.action.as_str());
        if let Some(r) = &self.resource {
            text.append("@");
            text.append(r.as_str());
        }
        text
    }

    /// Whether the bound capability `self` allows what `req` asks for: the same provider and
    /// action, and a resource that the bound one encompasses. Without a resource `self` allows
    /// any; with one it does not allow a request without.
    pub fn covers(&self, req: &Capability) -> (res: bool)
        ensures
            res == self@.covering(req@),
    {
        if self.provider != req.provider || self.action != req.action {
            return false;
        }
        match (&self.resource, &req.resource) {
            (None, _) => true,
            (Some(pattern), Some(value)) => resource_matches(pattern.as_str(), value.as_str()),
            (Some(_), None) => false,
        }
    }

    /// The requests that some bound capability allows, in their order.
    pub fn clamp(requested: &[Capability], bound: &[Capability]) -> (res: Vec<Capability>)
        ensures
            crate::text::views(res@) == crate::text::views(requested@).filter(
                |r: Grant| r.covered_by(crate::text::views(bound@)),
            ),
    {
        let ghost all = crate::text::views(requested@);
        let ghost p = |r: Grant| r.covered_by(crate::text::views(bound@));
        let mut out: Vec<Capability> = Vec::new();
        let mut i: usize = 0;
        proof {
            reveal(Seq::filter);
            assert(all.take(0) =~= Seq::empty());
            assert(crate::text::views(out@) =~= Seq::empty());
        }
        while i < requested.len()
            invariant
                i <= requested@.len(),
                all == crate::text::views(requested@),
                p == (|r: Grant| r.covered_by(crate::text::views(bound@))),
                crate::text::views(out@) == all.take(i as int).filter(p),
            decreases requested.len() - i,
        {
            proof {
                reveal(Seq::filter);
                assert(all.take(i + 1).drop_last() =~= all.take(i as int));
                assert(all.take(i + 1).last() == requested@[i as int]@);
            }
            if Capability::is_covered(&requested[i], bound) {
                let ghost before = crate::text::views(out@);
                out.push(requested[i].clone());
                assert(crate::text::views(out@) =~= before.push(requested@[i as int]@));
            }
            i += 1;
        }
        assert(all.take(i as int) =~= all);
        out
    }

    /// Whether some capability of `bound` allows what `req` asks for.
    fn is_covered(req: &Capability, bound: &[Capability]) -> (res: bool)
        ensures
            res == req@.covered_by(crate::text::views(bound@)),
    {
        let mut i: usize = 0;
        while i < bound.len()
            invariant
                i <= bound@.len(),
                forall|j: int|
                    0 <= j < i ==> !(#[trigger] crate::text::views(bound@)[j]).covering(req@),
            decreases bound.len() - i,
        {
            assert(crate::text::views(bound@)[i as int] == bound@[i as int]@);
            if bound[i].covers(req) {
                return true;
            }
            i += 1;
        }
        false
    }
}

/// Whether the resource `value` matches `pattern`.
fn resource_matches(pattern: &str, value: &str) -> (res: bool)
    ensures
        res == resource_matched(pattern@, value@),
{
    proof {
        reveal_strlit("*");
        reveal_strlit("/*");
        reveal_strlit("/");
    }
    if same(pattern, "*") {
        return true;
    }
    if let Some(prefix) = strip_suffix(pattern, "/*") {
        if same(value, prefix.as_str()) {
            return true;
        }
        let mut below = prefix.clone();
        below.append("/");
        return strip_prefix(value, below.as_str()).is_some();
    }
    same(pattern, value)
}

/// Reading gives back the grant that was written.
pub proof fn parse_inverts_wire(g: Grant)
    requires
        g.wf(),
    ensures
        Grant::parsed(g.wire()) == Ok::<Grant, Seq<char>>(g),
{
    reveal_strlit(":");
    reveal_strlit("@");
    let head = g.provider + ":"@ + g.action;
    let s = g.wire();
    let n = head.len() as int;
    assert forall|i: int| 0 <= i < n implies head[i] != '@' by {
        if i < g.provider.len() {
            assert(head[i] == g.provider[i]);
            assert(g.provider.contains(g.provider[i]));
        } else if i > g.provider.len() {
            assert(head[i] == g.action[i - g.provider.len() - 1]);
            assert(g.action.contains(g.action[i - g.provider.len() - 1]));
        }
    }
    assert forall|i: int| 0 <= i < n implies s[i] == head[i] by {
    }
    crate::text::first_index_unique(s, '@', n);
    assert(s.subrange(0, n) =~= head);
    if g.resource is Some {
        assert(s.subrange(n + 1, s.len() as int) =~= g.resource->0);
    }
    assert forall|i: int| 0 <= i < g.provider.len() implies head[i] != ':' by {
        assert(head[i] == g.provider[i]);
        assert(g.provider.contains(g.provider[i]));
    }
    crate::text::first_index_unique(head, ':', g.provider.len() as int);
    assert(head.subrange(0, g.provider.len() as int) =~= g.provider);
    assert(head.subrange(g.provider.len() as int + 1, n) =~= g.action);
}

/// Writing gives back the text that was read, and what was read is well formed.
pub proof fn wire_inverts_parse(s: Seq<char>)
    requires
        Grant::parsed(s) is Ok,
    ensures
        Grant::parsed(s)->Ok_0.wire() == s,
        Grant::parsed(s)->Ok_0.wf(),
{
    reveal_strlit(":");
    reveal_strlit("@");
    crate::text::first_index_spec(s, '@');
    let at = crate::text::first_index(s, '@');
    let head = if at < s.len() {
        s.subrange(0, at)
    } else {
        s
    };
    crate::text::first_index_spec(head, ':');
    let colon = crate::text::first_index(head, ':');
    let g = Grant::parsed(s)->Ok_0;
    assert(g.provider + ":"@ + g.action =~= head);
    if at < s.len() {
        assert(head + "@"@ + g.resource->0 =~= s);
    }
    assert forall|c: char| g.provider.contains(c) implies c != ':' && c != '@' by {
        let i = choose|i: int| 0 <= i < g.provider.len() && g.provider[i] == c;
        assert(head[i] == c && s[i] == c);
    }
    assert forall|c: char| g.action.contains(c) implies c != '@' by {
        let i = choose|i: int| 0 <= i < g.action.len() && g.action[i] == c;
        assert(head[colon + 1 + i] == c && s[colon + 1 + i] == c);
    }
}

/// Every grant allows what it names itself.
pub proof fn grant_covers_itself(g: Grant)
    ensures
        g.covering(g),
{
    if g.resource is Some {
        let r = g.resource->0;
        reveal_strlit("/*");
        reveal_strlit("/");
        if "/*"@.is_suffix_of(r) {
            let prefix = r.subrange(0, r.len() - 2);
            assert(r.subrange(r.len() - 2, r.len() as int)[0] == '/');
            assert(r[r.len() - 2] == '/');
            assert(prefix + "/"@ =~= r.subrange(0, r.len() - 1));
        }
    }
}

/// Clamping never adds: each grant that is kept was asked for and is allowed by the bound set.
pub proof fn clamp_keeps_within_bound(requested: Seq<Grant>, bound: Seq<Grant>, g: Grant)
    requires
        requested.filter(|r: Grant| r.covered_by(bound)).contains(g),
    ensures
        requested.contains(g),
        g.covered_by(bound),
{
    crate::text::filter_keeps(requested, |r: Grant| r.covered_by(bound), g);
}

/// What the bound set allows is kept; clamping twice is clamping once.
pub proof fn clamp_is_idempotent(requested: Seq<Grant>, bound: Seq<Grant>)
    ensures
        requested.filter(|r: Grant| r.covered_by(bound)).filter(|r: Grant| r.covered_by(bound))
            == requested.filter(|r: Grant| r.covered_by(bound)),
        forall|g: Grant|
            requested.contains(g) && #[trigger] g.covered_by(bound) ==> requested.filter(
                |r: Grant| r.covered_by(bound),
            ).contains(g),
{
    let p = |r: Grant| r.covered_by(bound);
    let kept = requested.filter(p);
    assert forall|i: int| 0 <= i < kept.len() implies p(#[trigger] kept[i]) by {
        crate::text::filter_keeps(requested, p, kept[i]);
    }
    crate::text::filter_keeps_all(kept, p);
    assert forall|g: Grant| requested.contains(g) && #[trigger] g.covered_by(
        bound,
    ) implies kept.contains(g) by {
        crate::text::filter_keeps(requested, p, g);
    }
}

/// The pattern `p/*` covers `p` and what lies below `p/`, and nothing else: a resource whose name
/// merely begins with `p` is another resource.
pub proof fn glob_covers_what_lies_below(p: Seq<char>, v: Seq<char>)
    ensures
        resource_matched(p + seq!['/', '*'], v) <==> v == p || (v.len() > p.len() && v.take(
            p.len() as int,
        ) == p && v[p.len() as int] == '/'),
{
    reveal_strlit("*");
    reveal_strlit("/*");
    reveal_strlit("/");
    let pattern = p + seq!['/', '*'];
    assert(pattern.len() >= 2 && "*"@.len() == 1);
    assert(pattern.subrange(pattern.len() - 2, pattern.len() as int) =~= "/*"@);
    assert(pattern.subrange(0, pattern.len() - 2) =~= p);
    let below = p + "/"@;
    if below.is_prefix_of(v) {
        assert(v.subrange(0, below.len() as int) == below);
        assert(v.take(p.len() as int) =~= below.take(p.len() as int));
        assert(below.take(p.len() as int) =~= p);
        assert(v[p.len() as int] == below[p.len() as int]);
    }
    if v.len() > p.len() && v.take(p.len() as int) == p && v[p.len() as int] == '/' {
        assert forall|i: int| 0 <= i < below.len() implies v[i] == below[i] by {
            if i < p.len() {
                assert(v.take(p.len() as int)[i] == v[i]);
            }
        }
        assert(v.subrange(0, below.len() as int) =~= below);
    }
}

/// The pattern `*` covers every resource; a pattern that is neither `*` nor ends in `/*` covers
/// the resource of its own name alone.
pub proof fn other_patterns_cover_themselves(pattern: Seq<char>, v: Seq<char>)
    ensures
        resource_matched(seq!['*'], v),
        pattern != seq!['*'] && !(pattern.len() >= 2 && pattern[pattern.len() - 2] == '/'
            && pattern[pattern.len() - 1] == '*') ==> (resource_matched(pattern, v) <==> v
            == pattern),
{
    reveal_strlit("*");
    reveal_strlit("/*");
    assert("*"@ =~= seq!['*']);
    if "/*"@.is_suffix_of(pattern) {
        let tail = pattern.subrange(pattern.len() - 2, pattern.len() as int);
        assert(tail == "/*"@);
        assert(tail[0] == pattern[pattern.len() - 2]);
        assert(tail[1] == pattern[pattern.len() - 1]);
    }
}

/// A bound grant allows nothing of another provider and nothing but its own action. Without a
/// resource it allows its action on all; with one it allows only requests that name a resource
/// which its own covers.
pub proof fn covering_stays_with_provider_and_action(bound: Grant, req: Grant)
    ensures
        bound.provider != req.provider ==> !bound.covering(req),
        bound.action != req.action ==> !bound.covering(req),
        bound.provider == req.provider && bound.action == req.action && bound.resource is None
            ==> bound.covering(req),
        bound.resource is Some && req.resource is None ==> !bound.covering(req),
        bound.provider == req.provider && bound.action == req.action && bound.resource is Some
            && req.resource is Some ==> (bound.covering(req) <==> resource_matched(
            bound.resource->0,
            req.resource->0,
        )),
{
}

/// A request is allowed exactly if one bound grant allows it by itself: nothing is allowed by an
/// empty set, and a larger set allows what each of its parts allows and no more.
pub proof fn bound_sets_add_up(req: Grant, bound: Seq<Grant>, more: Seq<Grant>, b: Grant)
    ensures
        !req.covered_by(Seq::empty()),
        req.covered_by(seq![b]) <==> b.covering(req),
        req.covered_by(bound + more) <==> req.covered_by(bound) || req.covered_by(more),
{
    assert(seq![b][0] == b);
    let all = bound + more;
    if req.covered_by(bound) {
        let i = choose|i: int| 0 <= i < bound.len() && (#[trigger] bound[i]).covering(req);
        assert(all[i].covering(req));
    }
    if req.covered_by(more) {
        let i = choose|i: int| 0 <= i < more.len() && (#[trigger] more[i]).covering(req);
        assert(all[bound.len() + i].covering(req));
    }
    if req.covered_by(all) {
        let i = choose|i: int| 0 <= i < all.len() && (#[trigger] all[i]).covering(req);
        if i < bound.len() {
            assert(bound[i].covering(req));
        } else {
            assert(more[i - bound.len()].covering(req));
        }
    }
}

/// A text is a capability exactly if it is the text of a grant whose parts can be told apart.
pub proof fn capabilities_are_texts_of_grants(s: Seq<char>)
    ensures
        Grant::parsed(s) is Ok <==> exists|g: Grant|
            {
                &&& #[trigger] g.wire() == s
                &&& g.provider.len() > 0 && g.action.len() > 0
                &&& !g.provider.contains(':') && !g.provider.contains('@')
                &&& !g.action.contains('@')
                &&& g.resource is Some ==> g.resource->0.len() > 0
            },
{
    if Grant::parsed(s) is Ok {
        wire_inverts_parse(s);
        let g = Grant::parsed(s)->Ok_0;
        assert(g.wire() == s);
    }
    if exists|g: Grant|
        {
            &&& #[trigger] g.wire() == s
            &&& g.provider.len() > 0 && g.action.len() > 0
            &&& !g.provider.contains(':') && !g.provider.contains('@')
            &&& !g.action.contains('@')
            &&& g.resource is Some ==> g.resource->0.len() > 0
        } {
        let g = choose|g: Grant|
            {
                &&& #[trigger] g.wire() == s
                &&& g.provider.len() > 0 && g.action.len() > 0
                &&& !g.provider.contains(':') && !g.provider.contains('@')
                &&& !g.action.contains('@')
                &&& g.resource is Some ==> g.resource->0.len() > 0
            };
        parse_inverts_wire(g);
    }
}

/// The text of a grant: the provider up to the first colon, the action behind it, and behind an
/// `@` the resource, where there is one.
pub proof fn wire_has_its_parts_in_order(g: Grant)
    ensures
        g.resource is None ==> g.wire() == g.provider + seq![':'] + g.action,
        g.resource is Some ==> g.wire() == g.provider + seq![':'] + g.action + seq!['@']
            + g.resource->0,
{
    reveal_strlit(":");
    reveal_strlit("@");
    assert(":"@ =~= seq![':']);
    assert("@"@ =~= seq!['@']);
}

/// What is said of a text that is no capability quotes it, and tells the first thing that is
/// wrong: nothing behind the `@`, no colon before it, or an empty side of that colon.
pub proof fn malformed_texts_are_told_why(
    head: Seq<char>,
    provider: Seq<char>,
    action: Seq<char>,
    rest: Option<Seq<char>>,
)
    requires
        !head.contains('@'),
        rest is Some ==> rest->0.len() > 0,
        !provider.contains('@'),
        !provider.contains(':'),
        !action.contains('@'),
    ensures
        ({
            let s = head + seq!['@'];
            Grant::parsed(s) == Err::<Grant, Seq<char>>(
                "capability `"@ + s + "` has an empty resource after `@`"@,
            )
        }),
        !head.contains(':') ==> ({
            let s = match rest {
                Some(r) => head + seq!['@'] + r,
                None => head,
            };
            Grant::parsed(s) == Err::<Grant, Seq<char>>(
                "capability `"@ + s + "` must be `provider:action[@resource]`"@,
            )
        }),
        provider.len() == 0 || action.len() == 0 ==> ({
            let s = match rest {
                Some(r) => provider + seq![':'] + action + seq!['@'] + r,
                None => provider + seq![':'] + action,
            };
            Grant::parsed(s) == Err::<Grant, Seq<char>>(
                "capability `"@ + s + "` has an empty provider or action"@,
            )
        }),
{
    let bare = head + seq!['@'];
    cut_at(head, '@', Seq::empty());
    assert(bare + Seq::<char>::empty() =~= bare);
    if !head.contains(':') {
        no_cut(head, ':');
        match rest {
            Some(r) => {
                cut_at(head, '@', r);
            },
            None => {
                no_cut(head, '@');
            },
        }
    }
    let both = provider + seq![':'] + action;
    cut_at(provider, ':', action);
    if both.contains('@') {
        let i = choose|i: int| 0 <= i < both.len() && both[i] == '@';
        if i < provider.len() {
            assert(provider.contains(provider[i]));
        } else if i > provider.len() {
            assert(action.contains(action[i - provider.len() - 1]));
        }
    }
    match rest {
        Some(r) => {
            cut_at(both, '@', r);
        },
        None => {
            no_cut(both, '@');
        },
    }
}

/// A text without `c` before it is cut at `c`.
proof fn cut_at(a: Seq<char>, c: char, b: Seq<char>)
    requires
        !a.contains(c),
    ensures
        crate::text::split_first(a + seq![c] + b, c) == Some((a, b)),
{
    let s = a + seq![c] + b;
    assert forall|j: int| 0 <= j < a.len() implies s[j] != c by {
        assert(s[j] == a[j]);
        assert(a.contains(a[j]));
    }
    crate::text::first_index_unique(s, c, a.len() as int);
    assert(s.subrange(0, a.len() as int) =~= a);
    assert(s.subrange(a.len() as int + 1, s.len() as int) =~= b);
}

/// A text without `c` is not cut.
proof fn no_cut(s: Seq<char>, c: char)
    requires
        !s.contains(c),
    ensures
        crate::text::split_first(s, c) is None,
{
    crate::text::cutting_loses_nothing(s, c);
}

} // verus!
