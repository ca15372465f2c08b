# release-monitor

Tracks the releases of GitHub projects: `add-project <url>` starts tracking a
repository, `github-import <username>` tracks every repository a user has
starred, and `watch` fetches each tracked project again and reports those
whose latest tag is a newer version than the stored one. Projects are kept in
a MongoDB collection named `projects`; the settings come from the variables
`MONGO_DATABASE`, `MONGO_URI`, `MONGO_PORT`, `GITHUB_USERNAME` and
`GITHUB_TOKEN`.

Layout:

- `src/` is the library, verified with Verus: the command line, the
  settings, version numbers and how they compare, projects and their stored
  documents, the GitHub API calls and the walk through paginated answers, the
  `Link` header, and the text functions these are built on.
  `src/patterns.rs` holds the trusted calls into the `regex` crate.
- `app/` is the program around it: reading the environment, HTTP with
  `hyper`, JSON with `rustc-serialize`, and the MongoDB collection.
- `tests/` runs the library on concrete values.
