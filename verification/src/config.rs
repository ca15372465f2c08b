//! Settings, read from the environment.
use vstd::prelude::*;
use crate::text::{parse_u16, parse_u16_str, str_equals};

verus! {

/// Where the projects are stored.
#[derive(Clone)]
pub struct MongoConfig {
    pub database: String,
    pub uri: String,
    pub port: u16,
}

/// Whose account the GitHub API is called with.
#[derive(Clone)]
pub struct GithubConfig {
    pub username: String,
    pub token: String,
}

#[derive(Clone)]
pub struct Config {
    pub mongo: MongoConfig,
    pub github: GithubConfig,
}

/// One variable of a process environment; its value is `None` when it is
/// not valid Unicode.
pub struct EnvVar {
    pub name: String,
    pub value: Option<String>,
}

/// The variables of a process environment.
pub struct Environment {
    pub vars: Vec<EnvVar>,
}

/// Why the settings cannot be read.
#[derive(PartialEq, Eq, Debug, Clone)]
pub enum ConfigProblem {
    /// The variable is not set.
    MissingVariable(String),
    /// The variable's value is not valid Unicode.
    NotUnicode(String),
    /// `MONGO_PORT` is not a number below 65536.
    InvalidPort,
}

/// The value of the first variable named `name`: `None` when there is none,
/// `Some(None)` when its value is not valid Unicode.
pub open spec fn env_value(vars: Seq<EnvVar>, name: Seq<char>) -> Option<Option<Seq<char>>>
    decreases vars.len(),
{
    if vars.len() == 0 {
        None
    } else if vars[0].name@ == name {
        Some(
            match vars[0].value {
                Some(v) => Some(v@),
                None => None,
            },
        )
    } else {
        env_value(vars.drop_first(), name)
    }
}

/// Whether the variable `name` holds Unicode text.
pub open spec fn has_text(env: Environment, name: Seq<char>) -> bool {
    env_value(env.vars@, name) matches Some(Some(_))
}

/// The text of the variable `name`.
pub open spec fn text(env: Environment, name: Seq<char>) -> Seq<char> {
    match env_value(env.vars@, name) {
        Some(Some(v)) => v,
        _ => Seq::empty(),
    }
}

/// The problem, if any, with one variable.
pub open spec fn variable_problem(env: Environment, name: Seq<char>) -> Option<
    ConfigProblemKind,
> {
    match env_value(env.vars@, name) {
        None => Some(ConfigProblemKind::Missing),
        Some(None) => Some(ConfigProblemKind::NotUnicode),
        Some(Some(_)) => None,
    }
}

/// The kinds of problem, without the variable's name.
pub enum ConfigProblemKind {
    Missing,
    NotUnicode,
    InvalidPort,
}

/// The kind of a problem.
pub open spec fn kind_of(p: ConfigProblem) -> ConfigProblemKind {
    match p {
        ConfigProblem::MissingVariable(_) => ConfigProblemKind::Missing,
        ConfigProblem::NotUnicode(_) => ConfigProblemKind::NotUnicode,
        ConfigProblem::InvalidPort => ConfigProblemKind::InvalidPort,
    }
}

/// The variable that a problem is about.
pub open spec fn variable_of(p: ConfigProblem) -> Seq<char> {
    match p {
        ConfigProblem::MissingVariable(n) => n@,
        ConfigProblem::NotUnicode(n) => n@,
        ConfigProblem::InvalidPort => "MONGO_PORT"@,
    }
}

/// The first problem with the store's settings, in the order in which they
/// are read: database, uri, port.
pub open spec fn mongo_problem(env: Environment) -> Option<(Seq<char>, ConfigProblemKind)> {
    if variable_problem(env, "MONGO_DATABASE"@) is Some {
        Some(("MONGO_DATABASE"@, variable_problem(env, "MONGO_DATABASE"@).unwrap()))
    } else if variable_problem(env, "MONGO_URI"@) is Some {
        Some(("MONGO_URI"@, variable_problem(env, "MONGO_URI"@).unwrap()))
    } else if variable_problem(env, "MONGO_PORT"@) is Some {
        Some(("MONGO_PORT"@, variable_problem(env, "MONGO_PORT"@).unwrap()))
    } else if parse_u16(text(env, "MONGO_PORT"@)) is None {
        Some(("MONGO_PORT"@, ConfigProblemKind::InvalidPort))
    } else {
        None
    }
}

/// The first problem with the GitHub settings: username, then token.
pub open spec fn github_problem(env: Environment) -> Option<(Seq<char>, ConfigProblemKind)> {
    if variable_problem(env, "GITHUB_USERNAME"@) is Some {
        Some(("GITHUB_USERNAME"@, variable_problem(env, "GITHUB_USERNAME"@).unwrap()))
    } else if variable_problem(env, "GITHUB_TOKEN"@) is Some {
        Some(("GITHUB_TOKEN"@, variable_problem(env, "GITHUB_TOKEN"@).unwrap()))
    } else {
        None
    }
}

/// The first problem with all settings: the store's, then GitHub's.
pub open spec fn config_problem(env: Environment) -> Option<(Seq<char>, ConfigProblemKind)> {
    if mongo_problem(env) is Some {
        mongo_problem(env)
    } else {
        github_problem(env)
    }
}

impl Environment {
    /// The value of the first variable named `name`.
    pub fn lookup(&self, name: &str) -> (r: Option<&EnvVar>)
        ensures
            r is None <==> env_value(self.vars@, name@) is None,
            r matches Some(v) ==> env_value(self.vars@, name@) == Some(
                match v.value {
                    Some(t) => Some(t@),
                    None => None,
                },
            ),
    {
        let n = self.vars.len();
        let mut i: usize = 0;
        assert(self.vars@.skip(0) =~= self.vars@);
        while i < n
            invariant
                n == self.vars@.len(),
                i <= n,
                env_value(self.vars@, name@) == env_value(self.vars@.skip(i as int), name@),
            decreases n - i,
        {
            assert(self.vars@.skip(i as int)[0] == self.vars@[i as int]);
            assert(self.vars@.skip(i as int).drop_first() =~= self.vars@.skip(i + 1));
            if str_equals(self.vars[i].name.as_str(), name) {
                return Some(&self.vars[i]);
            }
            i = i + 1;
        }
        assert(self.vars@.skip(n as int) =~= Seq::<EnvVar>::empty());
        None
    }

    /// The problem, if any, with the variable `name`.
    fn check_variable(&self, name: &str) -> (r: Option<ConfigProblem>)
        ensures
            match variable_problem(*self, name@) {
                None => r is None,
                Some(k) => r matches Some(p) && kind_of(p) == k && variable_of(p) == name@,
            },
    {
        match self.lookup(name) {
            None => Some(ConfigProblem::MissingVariable(String::from_str(name))),
            Some(v) => match &v.value {
                Some(_) => None,
                None => Some(ConfigProblem::NotUnicode(String::from_str(name))),
            },
        }
    }
}

impl Config {
    /// The first problem that reading the settings from `env` meets, or
    /// `None` when they can be read.
    pub fn find_problem(env: &Environment) -> (r: Option<ConfigProblem>)
        ensures
            match config_problem(*env) {
                None => r is None,
                Some((name, k)) => r matches Some(p) && kind_of(p) == k && variable_of(p) == name,
            },
    {
        let p = env.check_variable("MONGO_DATABASE");
        if p.is_some() {
            return p;
        }
        let p = env.check_variable("MONGO_URI");
        if p.is_some() {
            return p;
        }
        let p = env.check_variable("MONGO_PORT");
        if p.is_some() {
            return p;
        }
        if parse_u16_str(Config::get_env(env, "MONGO_PORT").as_str()).is_none() {
            return Some(ConfigProblem::InvalidPort);
        }
        let p = env.check_variable("GITHUB_USERNAME");
        if p.is_some() {
            return p;
        }
        env.check_variable("GITHUB_TOKEN")
    }

    /// Reads all settings.
    pub fn new(env: &Environment) -> (c: Config)
        requires
            config_problem(*env) is None,
        ensures
            c.mongo.database@ == text(*env, "MONGO_DATABASE"@),
            c.mongo.uri@ == text(*env, "MONGO_URI"@),
            Some(c.mongo.port) == parse_u16(text(*env, "MONGO_PORT"@)),
            c.github.username@ == text(*env, "GITHUB_USERNAME"@),
            c.github.token@ == text(*env, "GITHUB_TOKEN"@),
    {
        Config { mongo: MongoConfig::read_from_env(env), github: GithubConfig::read_from_env(env) }
    }

    /// The text of the variable `name`.
    fn get_env(env: &Environment, name: &str) -> (v: String)
        requires
            has_text(*env, name@),
        ensures
            v@ == text(*env, name@),
    {
        match env.lookup(name) {
            Some(var) => match &var.value {
                Some(t) => t.clone(),
                None => String::new(),
            },
            None => String::new(),
        }
    }
}

impl MongoConfig {
    /// Reads the store's settings.
    pub fn read_from_env(env: &Environment) -> (c: MongoConfig)
        requires
            mongo_problem(*env) is None,
        ensures
            c.database@ == text(*env, "MONGO_DATABASE"@),
            c.uri@ == text(*env, "MONGO_URI"@),
            Some(c.port) == parse_u16(text(*env, "MONGO_PORT"@)),
    {
        let database = Config::get_env(env, "MONGO_DATABASE");
        let uri = Config::get_env(env, "MONGO_URI");
        let port = match parse_u16_str(Config::get_env(env, "MONGO_PORT").as_str()) {
            Some(port) => port,
            None => 0,
        };
        MongoConfig { database: database, uri: uri, port: port }
    }
}

impl GithubConfig {
    /// Reads the GitHub settings.
    pub fn read_from_env(env: &Environment) -> (c: GithubConfig)
        requires
            github_problem(*env) is None,
        ensures
            c.username@ == text(*env, "GITHUB_USERNAME"@),
            c.token@ == text(*env, "GITHUB_TOKEN"@),
    {
        let username = Config::get_env(env, "GITHUB_USERNAME");
        let token = Config::get_env(env, "GITHUB_TOKEN");
        GithubConfig { username: username, token: token }
    }
}

} // verus!
