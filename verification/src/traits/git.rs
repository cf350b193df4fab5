//! Git forges: repositories, credentials and change requests.
use crate::document::{read_json, Decode, Value};
use crate::error::GitForgeError;
use crate::text::{find_char, same, split_once};
use crate::time::Timestamp;
use vstd::prelude::*;

verus! {

/// The kind of forge.
#[derive(Clone, Copy, Debug, PartialEq, Eq, Structural)]
pub enum ForgeKind {
    GitHub,
    GitLab,
    Gitea,
}

impl ForgeKind {
    /// The stable name.
    pub open spec fn name(self) -> Seq<char> {
        match self {
            ForgeKind::GitHub => "github"@,
            ForgeKind::GitLab => "gitlab"@,
            ForgeKind::Gitea => "gitea"@,
        }
    }

    /// The stable name.
    pub fn as_str(&self) -> (res: &'static str)
        ensures
            res@ == self.name(),
    {
        match self {
            ForgeKind::GitHub => "github",
            ForgeKind::GitLab => "gitlab",
            ForgeKind::Gitea => "gitea",
        }
    }

    /// The kind with the name `s`, if there is one.
    pub fn parse(s: &str) -> (res: Option<ForgeKind>)
        ensures
            res is Some ==> res->0.name() == s@,
            res is None ==> forall|k: ForgeKind| k.name() != s@,
    {
        if same(s, "github") {
            Some(ForgeKind::GitHub)
        } else if same(s, "gitlab") {
            Some(ForgeKind::GitLab)
        } else if same(s, "gitea") {
            Some(ForgeKind::Gitea)
        } else {
            None
        }
    }
}

/// Different kinds of forge have different names.
pub proof fn forge_kind_names_differ(a: ForgeKind, b: ForgeKind)
    requires
        a.name() == b.name(),
    ensures
        a == b,
{
    reveal_strlit("github");
    reveal_strlit("gitlab");
    reveal_strlit("gitea");
    assert("github"@.len() == 6);
    assert("gitlab"@.len() == 6);
    assert("gitea"@.len() == 5);
    assert("github"@[3] != "gitlab"@[3]);
}

/// A repository, by its owner and name.
#[derive(Clone, Debug, PartialEq, Eq)]
pub struct RepoRef {
    pub owner: String,
    pub name: String,
}

/// The two segments of `owner/name`, where both have content and there is no third.
pub open spec fn repo_parts(slug: Seq<char>) -> Option<(Seq<char>, Seq<char>)> {
    match crate::text::split_first(slug, '/') {
        Some(parts) if parts.0.len() > 0 && parts.1.len() > 0 && !parts.1.contains('/') => Some(
            parts,
        ),
        _ => None,
    }
}

/// What is said of a text that names no repository.
pub open spec fn repo_problem(slug: Seq<char>) -> Seq<char> {
    "repo must be `owner/name`, got `"@ + slug + "`"@
}

impl RepoRef {
    /// Reads `owner/name`.
    pub fn parse(slug: &str) -> (res: Result<RepoRef, GitForgeError>)
        ensures
            match res {
                Ok(r) => repo_parts(slug@) == Some((r.owner@, r.name@)),
                Err(GitForgeError::InvalidSpec(m)) => repo_parts(slug@) is None && m@
                    == repo_problem(slug@),
            },
    {
        if let Some((owner, name)) = split_once(slug, '/') {
            let chars = crate::text::chars_of(name.as_str());
            let i: usize = find_char(&chars, '/');
            proof {
                crate::text::first_index_spec(name@, '/');
            }
            if chars.len() > 0 && i == chars.len() && owner.as_str().unicode_len() > 0 {
                return Ok(RepoRef { owner, name });
            }
        }
        let mut text = String::from_str("repo must be `owner/name`, got `");
        text.append(slug);
        text.append("`");
        Err(GitForgeError::InvalidSpec(text))
    }

    /// `owner/name`.
    pub fn to_string(&self) -> (res: String)
        ensures
            res@ == self.owner@ + "/"@ + self.name@,
    {
        let mut text = self.owner.clone();
        text.append("/");
        text.append(self.name.as_str());
        text
    }
}

/// The text of a repository reads as that repository.
pub proof fn repo_text_is_read_back(owner: Seq<char>, name: Seq<char>)
    requires
        owner.len() > 0,
        name.len() > 0,
        !owner.contains('/'),
        !name.contains('/'),
    ensures
        repo_parts(owner + "/"@ + name) == Some((owner, name)),
{
    reveal_strlit("/");
    let s = owner + "/"@ + name;
    assert(s[owner.len() as int] == '/');
    assert forall|j: int| 0 <= j < owner.len() implies s[j] != '/' by {
        assert(s[j] == owner[j]);
    }
    crate::text::first_index_unique(s, '/', owner.len() as int);
    assert(s.subrange(0, owner.len() as int) =~= owner);
    assert(s.subrange(owner.len() as int + 1, s.len() as int) =~= name);
}

/// What reads as a repository is the text of that repository.
pub proof fn repo_is_written_back(slug: Seq<char>)
    requires
        repo_parts(slug) is Some,
    ensures
        (repo_parts(slug)->0).0 + "/"@ + (repo_parts(slug)->0).1 == slug,
{
    reveal_strlit("/");
    crate::text::first_index_spec(slug, '/');
    let parts = repo_parts(slug)->0;
    assert(parts.0 + "/"@ + parts.1 =~= slug);
}

/// A credential for git that soon expires.
#[derive(Clone, Debug)]
pub struct ScopedToken {
    pub username: String,
    pub password: String,
    pub expires_at: Timestamp,
}

/// A change request to open.
#[derive(Clone, Debug, PartialEq, Eq)]
pub struct PullRequestSpec {
    /// The branch that carries the changes.
    pub head_branch: String,
    /// The branch to merge into.
    pub base_branch: String,
    pub title: String,
    pub body: String,
    pub draft: bool,
}

/// What a change request asks for.
#[verifier::ext_equal]
pub ghost struct PullRequestView {
    pub head_branch: Seq<char>,
    pub base_branch: Seq<char>,
    pub title: Seq<char>,
    pub body: Seq<char>,
    pub draft: bool,
}

impl View for PullRequestSpec {
    type V = PullRequestView;

    open spec fn view(&self) -> PullRequestView {
        PullRequestView {
            head_branch: self.head_branch@,
            base_branch: self.base_branch@,
            title: self.title@,
            body: self.body@,
            draft: self.draft,
        }
    }
}

impl Decode for PullRequestSpec {
    open spec fn decoded(t: crate::document::Tree) -> Result<PullRequestView, Seq<char>> {
        let t = t.in_order(
            seq!["head_branch"@, "base_branch"@, "title"@, "body"@, "draft"@],
            3,
        );
        let shape = t.table("pull request"@);
        let head_branch = t.need_text("head_branch"@);
        let base_branch = t.need_text("base_branch"@);
        let title = t.need_text("title"@);
        let body = t.text_or_empty("body"@);
        let draft = t.flag("draft"@);
        match crate::document::earlier(
            crate::document::earlier(
                crate::document::earlier(
                    crate::document::earlier(
                        crate::document::earlier(
                            crate::document::error_of(shape),
                            crate::document::error_of(head_branch),
                        ),
                        crate::document::error_of(base_branch),
                    ),
                    crate::document::error_of(title),
                ),
                crate::document::error_of(body),
            ),
            crate::document::error_of(draft),
        ) {
            Some(e) => Err(e),
            None => Ok(
                PullRequestView {
                    head_branch: head_branch->Ok_0,
                    base_branch: base_branch->Ok_0,
                    title: title->Ok_0,
                    body: body->Ok_0,
                    draft: draft->Ok_0,
                },
            ),
        }
    }

    fn decode(doc: &Value) -> (res: Result<PullRequestSpec, String>) {
        let order: [&str; 5] = ["head_branch", "base_branch", "title", "body", "draft"];
        let names = order.as_slice();
        assert(names.deep_view() =~= seq!["head_branch"@, "base_branch"@, "title"@, "body"@, "draft"@]);
        let table = doc.in_order(names, 3);
        let doc = &table;
        if let Err(e) = doc.check_kind("pull request") {
            return Err(e);
        }
        let head_branch = match doc.need_text("head_branch") {
            Ok(v) => v,
            Err(e) => return Err(e),
        };
        let base_branch = match doc.need_text("base_branch") {
            Ok(v) => v,
            Err(e) => return Err(e),
        };
        let title = match doc.need_text("title") {
            Ok(v) => v,
            Err(e) => return Err(e),
        };
        let body = match doc.text_or_empty("body") {
            Ok(v) => v,
            Err(e) => return Err(e),
        };
        let draft = match doc.flag("draft") {
            Ok(v) => v,
            Err(e) => return Err(e),
        };
        Ok(PullRequestSpec { head_branch, base_branch, title, body, draft })
    }
}

impl PullRequestSpec {
    /// What a JSON text asks for.
    pub open spec fn read(text: Seq<char>) -> Result<PullRequestView, Seq<char>> {
        match crate::document::json_read(text) {
            Ok(t) => PullRequestSpec::decoded(t),
            Err(e) => Err(e),
        }
    }

    /// Reads a change request from JSON. Names that are not known are skipped; of a name that is
    /// repeated, the last value counts.
    pub fn from_json(text: &str) -> (res: Result<PullRequestSpec, String>)
        ensures
            res is Ok <==> PullRequestSpec::read(text@) is Ok,
            res is Ok ==> PullRequestSpec::read(text@)->Ok_0 == res->Ok_0@,
            res is Err ==> PullRequestSpec::read(text@)->Err_0 == res->Err_0@,
    {
        match read_json(text) {
            Ok(doc) => PullRequestSpec::decode(&doc),
            Err(e) => Err(e),
        }
    }
}

/// A change request that was opened.
#[derive(Clone, Debug, PartialEq, Eq)]
pub struct PullRequest {
    /// The page for people.
    pub url: String,
    pub id: u64,
    pub state: String,
}

/// The owner and the name of a repository have content and no slash; a text is one of a repository
/// exactly if it is made of two such parts.
pub proof fn repositories_have_two_parts(slug: Seq<char>)
    ensures
        repo_parts(slug) is Some ==> (repo_parts(slug)->0).0.len() > 0 && (repo_parts(
            slug,
        )->0).1.len() > 0 && !(repo_parts(slug)->0).0.contains('/') && !(repo_parts(
            slug,
        )->0).1.contains('/'),
        repo_parts(slug) is Some <==> exists|owner: Seq<char>, name: Seq<char>|
            {
                &&& #[trigger] (owner + "/"@ + name) == slug
                &&& owner.len() > 0 && name.len() > 0
                &&& !owner.contains('/') && !name.contains('/')
            },
{
    crate::text::cutting_loses_nothing(slug, '/');
    if repo_parts(slug) is Some {
        repo_is_written_back(slug);
        let p = repo_parts(slug)->0;
        assert(p.0 + "/"@ + p.1 == slug);
    }
    if exists|owner: Seq<char>, name: Seq<char>|
        {
            &&& #[trigger] (owner + "/"@ + name) == slug
            &&& owner.len() > 0 && name.len() > 0
            &&& !owner.contains('/') && !name.contains('/')
        } {
        let (owner, name) = choose|owner: Seq<char>, name: Seq<char>|
            {
                &&& #[trigger] (owner + "/"@ + name) == slug
                &&& owner.len() > 0 && name.len() > 0
                &&& !owner.contains('/') && !name.contains('/')
            };
        repo_text_is_read_back(owner, name);
    }
}

/// What is asked for is what stands under the names: three texts that must be there, a body that
/// is empty and a draft that is not one where nothing is said.
pub proof fn change_requests_are_read_by_name(t: crate::document::Tree)
    requires
        t is Table,
    ensures
        PullRequestSpec::decoded(t) is Ok <==> {
            &&& t.member("head_branch"@) is Some && t.member("head_branch"@)->0 is Text
            &&& t.member("base_branch"@) is Some && t.member("base_branch"@)->0 is Text
            &&& t.member("title"@) is Some && t.member("title"@)->0 is Text
            &&& t.member("body"@) is Some ==> t.member("body"@)->0 is Text
            &&& t.member("draft"@) is Some ==> t.member("draft"@)->0 is Bool
        },
        PullRequestSpec::decoded(t) is Ok ==> ({
            let r = PullRequestSpec::decoded(t)->Ok_0;
            &&& t.member("head_branch"@) == Some(crate::document::Tree::Text(r.head_branch))
            &&& t.member("base_branch"@) == Some(crate::document::Tree::Text(r.base_branch))
            &&& t.member("title"@) == Some(crate::document::Tree::Text(r.title))
            &&& t.member("body"@) is None ==> r.body == Seq::<char>::empty()
            &&& t.member("body"@) is Some ==> t.member("body"@) == Some(
                crate::document::Tree::Text(r.body),
            )
            &&& t.member("draft"@) is None ==> !r.draft
            &&& t.member("draft"@) is Some ==> t.member("draft"@) == Some(
                crate::document::Tree::Bool(r.draft),
            )
        }),
{
}

/// The stable names are the ones that are stored and sent: each is that of one value and of no
/// other.
pub proof fn forge_kind_names_are_stable(k: ForgeKind)
    ensures
        k.name() == "github"@ <==> k == ForgeKind::GitHub,
        k.name() == "gitlab"@ <==> k == ForgeKind::GitLab,
        k.name() == "gitea"@ <==> k == ForgeKind::Gitea,
{
    if k.name() == "github"@ {
        forge_kind_names_differ(k, ForgeKind::GitHub);
    }
    if k.name() == "gitlab"@ {
        forge_kind_names_differ(k, ForgeKind::GitLab);
    }
    if k.name() == "gitea"@ {
        forge_kind_names_differ(k, ForgeKind::Gitea);
    }
}

} // verus!
