//! Projects hosted on GitHub, read through its API.
use vstd::prelude::*;
use crate::config::{Config, GithubConfig};
use crate::project::{Project, ProjectRelease, ProjectTypes, TProject};
use crate::text::{occurs_at_pos, occurs_in, replace_all, replace_all_str, lemma_replace_all_absent, lemma_replace_all_at_start, lemma_replace_all_skips};
use crate::utils::{extract_next_link, next_link};

verus! {

/// The commit that a tag points at.
pub struct GithubCommit {
    pub sha: String,
    pub url: String,
}

/// A tag of a repository, as the API lists it.
pub struct GithubTag {
    pub name: String,
    pub zipball_url: String,
    pub tarball_url: String,
    pub commit: GithubCommit,
}

/// A repository, as the API describes it.
pub struct GithubProject {
    pub name: String,
}

/// A repository that a user has starred.
pub struct GithubStarred {
    pub html_url: String,
}

/// A project on GitHub: its page, and what the API told about it.
pub struct Github {
    pub tags: Option<Vec<GithubTag>>,
    pub url: String,
    pub project: Option<GithubProject>,
    pub api_url: Option<String>,
    pub config: Config,
}

/// A call of the GitHub API: the address, the `User-Agent` header and the
/// credentials of basic authorization.
pub struct GithubRequest {
    pub url: String,
    pub user_agent: String,
    pub username: String,
    pub password: Option<String>,
}

/// The API address of a repository page: its host name replaced.
pub open spec fn api_url_of(url: Seq<char>) -> Seq<char> {
    replace_all(url, "github.com"@, "api.github.com/repos"@)
}

/// Whether `r` calls `url` with `user_agent`, authorized as the configured
/// user with the configured token.
pub open spec fn is_request(r: GithubRequest, url: Seq<char>, user_agent: Seq<char>, config: GithubConfig) -> bool {
    &&& r.url@ == url
    &&& r.user_agent@ == user_agent
    &&& r.username@ == config.username@
    &&& r.password matches Some(p)
    &&& p@ == config.token@
}

/// The address of the first page of the repositories that `username` has
/// starred.
pub open spec fn starred_url(username: Seq<char>) -> Seq<char> {
    "https://api.github.com/users/"@ + username + "/starred"@
}

/// A call of the API authorized with the configured account.
fn authorized_request(url: String, user_agent: String, config: &GithubConfig) -> (r: GithubRequest)
    ensures
        is_request(r, url@, user_agent@, *config),
{
    GithubRequest {
        url: url,
        user_agent: user_agent,
        username: config.username.clone(),
        password: Some(config.token.clone()),
    }
}

/// The API address of the repository whose page is `url`.
pub fn api_url_for(url: &str) -> (r: String)
    ensures
        r@ == api_url_of(url@),
{
    proof {
        reveal_strlit("github.com");
    }
    replace_all_str(url, "github.com", "api.github.com/repos")
}

impl Github {
    /// The project on GitHub whose page is `url`, with what the API gave for
    /// it: `project` from the repository's address, `tags` from its tags.
    pub fn new(url: String, config: Config, project: GithubProject, tags: Vec<GithubTag>) -> (github: Github)
        ensures
            github.url == url,
            github.config == config,
            github.api_url matches Some(a) && a@ == api_url_of(url@),
            github.project == Some(project),
            github.tags == Some(tags),
    {
        let mut github = Github { url: url, tags: None, project: None, api_url: None, config: config };
        github.init(project, tags);
        return github;
    }

    /// Records the API address and what the API gave.
    pub fn init(&mut self, project: GithubProject, tags: Vec<GithubTag>)
        ensures
            final(self).url == old(self).url,
            final(self).config == old(self).config,
            final(self).api_url matches Some(a) && a@ == api_url_of(old(self).url@),
            final(self).project == Some(project),
            final(self).tags == Some(tags),
    {
        self.api_url = Some(self.to_api_url());
        self.project = Some(project);
        self.tags = Some(tags);
    }

    /// The API address of the repository.
    pub fn to_api_url(&self) -> (r: String)
        ensures
            r@ == api_url_of(self.url@),
    {
        api_url_for(self.url.as_str())
    }

    /// The call that describes the repository whose page is `url`.
    pub fn project_request(url: &str, config: &Config) -> (r: GithubRequest)
        ensures
            is_request(r, api_url_of(url@), config.github.username@, config.github),
    {
        authorized_request(api_url_for(url), config.github.username.clone(), &config.github)
    }

    /// The call that lists the tags of the repository whose page is `url`.
    pub fn tags_request(url: &str, config: &Config) -> (r: GithubRequest)
        ensures
            is_request(r, api_url_of(url@) + "/tags"@, config.github.username@, config.github),
    {
        let mut address = api_url_for(url);
        address.append("/tags");
        authorized_request(address, config.github.username.clone(), &config.github)
    }

    /// The releases of the project: one for each tag, in the API's order,
    /// named after it and without a date.
    pub fn get_releases(&self) -> (r: Vec<ProjectRelease>)
        requires
            self.tags is Some,
        ensures
            r@.len() == self.tags->0@.len(),
            forall|i: int|
                0 <= i < r@.len() ==> (#[trigger] r@[i]).version == self.tags->0@[i].name
                    && r@[i].date is None,
    {
        let mut ret: Vec<ProjectRelease> = Vec::new();
        match &self.tags {
            Some(tags) => {
                let n = tags.len();
                let mut i: usize = 0;
                while i < n
                    invariant
                        n == tags@.len(),
                        i <= n,
                        ret@.len() == i,
                        forall|j: int|
                            0 <= j < i ==> (#[trigger] ret@[j]).version == tags@[j].name
                                && ret@[j].date is None,
                    decreases n - i,
                {
                    ret.push(ProjectRelease::new(tags[i].name.clone(), None));
                    i = i + 1;
                }
            },
            None => {},
        }
        return ret;
    }

    /// The repository's name.
    pub fn get_name(&self) -> (r: String)
        requires
            self.project is Some,
        ensures
            r == self.project->0.name,
    {
        match &self.project {
            Some(project) => project.name.clone(),
            None => String::new(),
        }
    }

    /// The call for one page of the repositories that `username` has
    /// starred: the first page, or the one at `next_url`.
    pub fn starred_request(username: &str, config: &Config, next_url: Option<String>) -> (r: GithubRequest)
        ensures
            is_request(
                r,
                match next_url {
                    Some(u) => u@,
                    None => starred_url(username@),
                },
                username@,
                config.github,
            ),
    {
        let mut url = String::new();
        match next_url {
            Some(u) => {
                url = u;
            },
            None => {
                url.append("https://api.github.com/users/");
                url.append(username);
                url.append("/starred");
            },
        }
        authorized_request(url, String::from_str(username), &config.github)
    }
}

impl TProject for Github {
    open spec fn is_complete(&self) -> bool {
        self.tags is Some && self.project is Some
    }

    open spec fn gives(&self, p: Project) -> bool {
        &&& p.name == self.project->0.name
        &&& p.url == self.url
        &&& p.object_id is None
        &&& p.project_type == ProjectTypes::GITHUB
        &&& p.releases@.len() == self.tags->0@.len()
        &&& forall|i: int|
            0 <= i < p.releases@.len() ==> (#[trigger] p.releases@[i]).version
                == self.tags->0@[i].name && p.releases@[i].date is None
    }

    /// The project made from what the API gave.
    fn to_project(&self) -> (p: Project) {
        Project {
            releases: self.get_releases(),
            name: self.get_name(),
            url: self.url.clone(),
            object_id: None,
            project_type: ProjectTypes::GITHUB,
        }
    }
}

/// Where a walk through the pages of a user's starred repositories stands:
/// the repositories of the pages read so far, and whether there was one.
pub struct StarredPages {
    pub collected: Vec<GithubStarred>,
    pub any_page: bool,
}

/// What to do after a page has been fetched.
pub enum StarredStep {
    /// Read the page's repositories, then fetch the page at this address.
    ReadPage(String),
    /// Stop: the page is the last one, and it is not read. The result holds
    /// the repositories of the pages before it, or nothing when it was the
    /// first.
    Finished(Option<Vec<GithubStarred>>),
}

impl StarredPages {
    /// Before the first page.
    pub fn new() -> (s: StarredPages)
        ensures
            s.collected@.len() == 0,
            !s.any_page,
    {
        StarredPages { collected: Vec::new(), any_page: false }
    }

    /// Decides from the `Link` header of a fetched page whether there is a
    /// next page.
    pub fn on_link_header(&mut self, link: String) -> (step: StarredStep)
        requires
            next_link(link@) is Some,
        ensures
            match next_link(link@)->0 {
                Some(n) => step matches StarredStep::ReadPage(u) && u@ == n && *final(self)
                    == *old(self),
                None => step matches StarredStep::Finished(r) && (if old(self).any_page {
                    r matches Some(v) && v@ == old(self).collected@ && final(self).collected@.len() == 0
                } else {
                    r is None && final(self).collected@ == old(self).collected@
                }) && final(self).any_page == old(self).any_page,
            },
    {
        match extract_next_link(link) {
            Some(next_url) => StarredStep::ReadPage(next_url),
            None => {
                if self.any_page {
                    let mut result: Vec<GithubStarred> = Vec::new();
                    std::mem::swap(&mut result, &mut self.collected);
                    StarredStep::Finished(Some(result))
                } else {
                    StarredStep::Finished(None)
                }
            },
        }
    }

    /// Adds the repositories of a page that has a next one.
    pub fn on_page(&mut self, page: Vec<GithubStarred>)
        ensures
            final(self).collected@ == old(self).collected@ + page@,
            final(self).any_page,
    {
        let mut page = page;
        self.collected.append(&mut page);
        self.any_page = true;
    }
}

/// A walk through the pages of starred repositories: from its start, the
/// pages read one after the other, each with a next page behind it, give the
/// repositories of all of them in order, so that the walk finishes with
/// nothing when the first page is the last one, and otherwise with every
/// page but the last.
pub proof fn lemma_walk_collects_pages(states: Seq<StarredPages>, pages: Seq<Seq<GithubStarred>>)
    requires
        states.len() == pages.len() + 1,
        states[0].collected@.len() == 0,
        !states[0].any_page,
        forall|i: int|
            0 <= i < pages.len() ==> (#[trigger] states[i + 1]).collected@ == states[i].collected@
                + pages[i] && states[i + 1].any_page,
    ensures
        states.last().collected@ == pages.flatten(),
        states.last().any_page == (pages.len() > 0),
    decreases pages.len(),
{
    if pages.len() == 0 {
        assert(states.last() == states[0]);
        assert(states[0].collected@ =~= Seq::<GithubStarred>::empty());
    } else {
        let k = pages.len() - 1;
        assert(states.drop_last().len() == pages.drop_last().len() + 1);
        assert forall|i: int| 0 <= i < pages.drop_last().len() implies (#[trigger] states.drop_last()[i
            + 1]).collected@ == states.drop_last()[i].collected@ + pages.drop_last()[i]
            && states.drop_last()[i + 1].any_page by {
            assert(states[i + 1].collected@ == states[i].collected@ + pages[i]);
        }
        lemma_walk_collects_pages(states.drop_last(), pages.drop_last());
        assert(states[k + 1].collected@ == states[k].collected@ + pages[k]);
        pages.drop_last().lemma_flatten_push(pages.last());
        assert(pages.drop_last().push(pages.last()) =~= pages);
    }
}

/// The API address of a repository page keeps the page's path: for a path
/// in which `github.com` does not occur, `https://github.com/<path>` becomes
/// `https://api.github.com/repos/<path>`.
pub proof fn lemma_api_url_keeps_path(path: Seq<char>)
    requires
        !occurs_in(path, "github.com"@),
    ensures
        api_url_of("https://github.com/"@ + path) == "https://api.github.com/repos/"@ + path,
{
    reveal_strlit("https://github.com/");
    reveal_strlit("https://api.github.com/repos/");
    reveal_strlit("github.com");
    reveal_strlit("api.github.com/repos");
    let from = "github.com"@;
    let to = "api.github.com/repos"@;
    let s = "https://github.com/"@ + path;
    assert(from.len() == 10);
    assert forall|i: int| 0 <= i < 8 implies !occurs_at_pos(s, from, i) by {
        if occurs_at_pos(s, from, i) {
            assert(s.subrange(i, i + 10)[0] == from[0]);
            assert(s[i] == 'g');
        }
    }
    lemma_replace_all_skips(s, from, to, 8);
    let r = s.skip(8);
    assert(r.subrange(0, 10) =~= from);
    lemma_replace_all_at_start(r, from, to);
    let q = r.skip(10);
    assert(q[0] == '/');
    assert(!occurs_at_pos(q, from, 0)) by {
        if occurs_at_pos(q, from, 0) {
            assert(q.subrange(0, 10)[0] == from[0]);
        }
    }
    lemma_replace_all_skips(q, from, to, 1);
    assert(q.skip(1) =~= path);
    lemma_replace_all_absent(path, from, to);
    assert(s.take(8) + (to + (q.take(1) + path)) =~= "https://api.github.com/repos/"@ + path);
}

} // verus!
