use release_monitor::commands::{argument_is_missing, match_project, parse_command, Command};
use release_monitor::config::{Config, GithubConfig, MongoConfig};
use release_monitor::github::{
    api_url_for, Github, GithubCommit, GithubProject, GithubStarred, GithubTag, StarredPages, StarredStep,
};
use release_monitor::project::{ProjectTypes, TProject};

fn config() -> Config {
    Config {
        mongo: MongoConfig { database: "d".to_string(), uri: "u".to_string(), port: 1 },
        github: GithubConfig { username: "me".to_string(), token: "SECRET-REDACTED".to_string() },
    }
}

fn tag(name: &str) -> GithubTag {
    GithubTag {
        name: name.to_string(),
        zipball_url: String::new(),
        tarball_url: String::new(),
        commit: GithubCommit { sha: String::new(), url: String::new() },
    }
}

#[test]
fn api_addresses() {
    assert_eq!(api_url_for("https://github.com/rust-lang/regex"), "https://api.github.com/repos/rust-lang/regex");
    let r = Github::tags_request("https://github.com/a/b", &config());
    assert_eq!(r.url, "https://api.github.com/repos/a/b/tags");
    assert_eq!(r.user_agent, "me");
    assert_eq!(r.username, "me");
    assert_eq!(r.password, Some("SECRET-REDACTED".to_string()));
    assert_eq!(Github::project_request("https://github.com/a/b", &config()).url, "https://api.github.com/repos/a/b");
}

#[test]
fn project_from_tags() {
    let g = Github::new(
        "https://github.com/a/b".to_string(),
        config(),
        GithubProject { name: "b".to_string() },
        vec![tag("v2"), tag("v1")],
    );
    assert_eq!(g.api_url, Some("https://api.github.com/repos/a/b".to_string()));
    assert_eq!(g.to_api_url(), "https://api.github.com/repos/a/b");
    assert_eq!(g.get_name(), "b");
    let p = g.to_project();
    assert_eq!(p.name, "b");
    assert_eq!(p.url, "https://github.com/a/b");
    assert!(p.object_id.is_none());
    assert_eq!(p.project_type, ProjectTypes::GITHUB);
    let versions: Vec<&str> = p.releases.iter().map(|r| r.version.as_str()).collect();
    assert_eq!(versions, vec!["v2", "v1"]);
    assert_eq!(g.get_releases().len(), 2);
}

#[test]
fn starred_pages_drop_the_last_page() {
    let r = Github::starred_request("octocat", &config(), None);
    assert_eq!(r.url, "https://api.github.com/users/octocat/starred");
    assert_eq!(r.user_agent, "octocat");
    assert_eq!(r.username, "me");
    assert_eq!(Github::starred_request("octocat", &config(), Some("https://x/?page=2".to_string())).url, "https://x/?page=2");

    let star = |u: &str| GithubStarred { html_url: u.to_string() };
    let mut pages = StarredPages::new();
    match pages.on_link_header("<https://x/?page=2>; rel=\"next\"".to_string()) {
        StarredStep::ReadPage(next) => assert_eq!(next, "https://x/?page=2"),
        StarredStep::Finished(_) => panic!("there is a next page"),
    }
    pages.on_page(vec![star("a"), star("b")]);
    match pages.on_link_header("<https://x/?page=3>; rel=\"next\"".to_string()) {
        StarredStep::ReadPage(_) => pages.on_page(vec![star("c")]),
        StarredStep::Finished(_) => panic!("there is a next page"),
    }
    match pages.on_link_header("<https://x/?page=1>; rel=\"first\"".to_string()) {
        StarredStep::Finished(Some(all)) => {
            let urls: Vec<&str> = all.iter().map(|s| s.html_url.as_str()).collect();
            assert_eq!(urls, vec!["a", "b", "c"]);
        },
        _ => panic!("the walk ends with what was read"),
    }

    let mut single = StarredPages::new();
    assert!(matches!(single.on_link_header("<https://x/?page=1>; rel=\"first\"".to_string()), StarredStep::Finished(None)));
}

#[test]
fn command_line() {
    let args = |a: &[&str]| a.iter().map(|s| s.to_string()).collect::<Vec<String>>();
    assert_eq!(parse_command(&args(&["rm"])), Command::Help);
    assert_eq!(parse_command(&args(&["rm", "watch"])), Command::Watch);
    assert_eq!(parse_command(&args(&["rm", "what"])), Command::Help);
    assert_eq!(parse_command(&args(&["rm", "add-project", "https://github.com/a/b"])), Command::AddProject("https://github.com/a/b".to_string()));
    assert_eq!(parse_command(&args(&["rm", "github-import", "octocat", "x"])), Command::GithubImport("octocat".to_string()));
    assert!(argument_is_missing(&args(&["rm", "add-project"])));
    assert!(!argument_is_missing(&args(&["rm", "watch"])));
}

#[test]
fn github_urls_are_recognised() {
    assert_eq!(match_project("https://github.com/a/b"), Ok(Some(ProjectTypes::GITHUB)));
    assert_eq!(match_project("https://gitlab.com/a/b"), Ok(None));
    // the pattern is a regex: its dot matches any character
    assert_eq!(match_project("githubXcom"), Ok(Some(ProjectTypes::GITHUB)));
}
