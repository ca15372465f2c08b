use release_monitor::config::{Config, ConfigProblem, EnvVar, Environment};

fn var(name: &str, value: &str) -> EnvVar {
    EnvVar { name: name.to_string(), value: Some(value.to_string()) }
}

fn full() -> Vec<EnvVar> {
    vec![
        var("MONGO_DATABASE", "releases"),
        var("MONGO_URI", "localhost"),
        var("MONGO_PORT", "27017"),
        var("GITHUB_USERNAME", "octocat"),
        var("GITHUB_TOKEN", "SECRET-REDACTED"),
    ]
}

#[test]
fn settings_are_read() {
    let env = Environment { vars: full() };
    assert_eq!(Config::find_problem(&env), None);
    let c = Config::new(&env);
    assert_eq!(c.mongo.database, "releases");
    assert_eq!(c.mongo.uri, "localhost");
    assert_eq!(c.mongo.port, 27017);
    assert_eq!(c.github.username, "octocat");
    assert_eq!(c.github.token, "SECRET-REDACTED");
}

#[test]
fn first_problem_is_reported() {
    let mut vars = full();
    vars.remove(1);
    assert_eq!(
        Config::find_problem(&Environment { vars }),
        Some(ConfigProblem::MissingVariable("MONGO_URI".to_string()))
    );

    let mut vars = full();
    vars[2] = var("MONGO_PORT", "70000");
    vars.remove(4);
    assert_eq!(Config::find_problem(&Environment { vars }), Some(ConfigProblem::InvalidPort));

    let mut vars = full();
    vars[3] = EnvVar { name: "GITHUB_USERNAME".to_string(), value: None };
    assert_eq!(
        Config::find_problem(&Environment { vars }),
        Some(ConfigProblem::NotUnicode("GITHUB_USERNAME".to_string()))
    );

    let mut vars = full();
    vars.remove(4);
    assert_eq!(
        Config::find_problem(&Environment { vars }),
        Some(ConfigProblem::MissingVariable("GITHUB_TOKEN".to_string()))
    );
}

#[test]
fn first_variable_of_a_name_counts() {
    let mut vars = full();
    vars.insert(0, var("MONGO_PORT", "+80"));
    let env = Environment { vars };
    let m = release_monitor::config::MongoConfig::read_from_env(&env);
    assert_eq!(m.port, 80);
    let g = release_monitor::config::GithubConfig::read_from_env(&env);
    assert_eq!(g.username, "octocat");
}
