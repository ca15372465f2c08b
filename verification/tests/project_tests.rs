use bson::oid::ObjectId;
use release_monitor::document::{BsonValue, Document};
use release_monitor::project::{DocumentProblem, Project, ProjectRelease, ProjectTypes, SaveOperation};

fn project(name: &str, versions: &[&str]) -> Project {
    Project {
        object_id: None,
        releases: versions.iter().map(|v| ProjectRelease::new(v.to_string(), None)).collect(),
        name: name.to_string(),
        url: format!("https://github.com/someone/{}", name),
        project_type: ProjectTypes::GITHUB,
    }
}

fn text(d: &Document, key: &str) -> Option<String> {
    match d.get(key) {
        Some(BsonValue::String(s)) => Some(s.clone()),
        _ => None,
    }
}

#[test]
fn document_holds_name_url_type_and_versions() {
    let p = project("tool", &["v2.0", "v1.0"]);
    let d = p.get_document();
    let keys: Vec<&str> = d.entries.iter().map(|(k, _)| k.as_str()).collect();
    assert_eq!(keys, vec!["name", "url", "type", "releases"]);
    assert_eq!(text(&d, "name"), Some("tool".to_string()));
    assert_eq!(text(&d, "url"), Some("https://github.com/someone/tool".to_string()));
    assert_eq!(text(&d, "type"), Some("Github".to_string()));
    match d.get("releases") {
        Some(BsonValue::Array(items)) => {
            assert_eq!(items.len(), 2);
            match &items[1] {
                BsonValue::Document(r) => assert_eq!(text(r, "version"), Some("v1.0".to_string())),
                _ => panic!("release is not a document"),
            }
        },
        _ => panic!("no releases"),
    }
}

#[test]
fn saved_document_reads_back() {
    let p = project("tool", &["v2.0", "v1.0"]);
    let mut d = p.get_document();
    let id = ObjectId::new();
    d.insert("_id".to_string(), BsonValue::ObjectId(id));
    let q = Project::read_document(d).ok().unwrap();
    assert_eq!(q.object_id, Some(id));
    assert_eq!(q.name, "tool");
    assert_eq!(q.url, p.url);
    assert_eq!(q.project_type, ProjectTypes::GITHUB);
    let versions: Vec<&str> = q.releases.iter().map(|r| r.version.as_str()).collect();
    assert_eq!(versions, vec!["v2.0", "v1.0"]);
    assert!(q.releases.iter().all(|r| r.date.is_none()));
}

#[test]
fn document_problems_come_in_reading_order() {
    let p = project("tool", &["1.0"]);
    let d = p.get_document();
    assert_eq!(Project::find_document_problem(&d), Some(DocumentProblem::MissingId));

    let mut d = Document::new();
    d.insert("_id".to_string(), BsonValue::ObjectId(ObjectId::new()));
    assert_eq!(Project::find_document_problem(&d), Some(DocumentProblem::MissingName));
    d.insert("name".to_string(), BsonValue::String("n".to_string()));
    assert_eq!(Project::find_document_problem(&d), Some(DocumentProblem::MissingUrl));
    d.insert("url".to_string(), BsonValue::Other);
    assert_eq!(Project::find_document_problem(&d), Some(DocumentProblem::MissingUrl));
    d.insert("url".to_string(), BsonValue::String("u".to_string()));
    assert_eq!(Project::find_document_problem(&d), Some(DocumentProblem::MissingType));
    d.insert("type".to_string(), BsonValue::String("Gitlab".to_string()));
    assert_eq!(Project::find_document_problem(&d), Some(DocumentProblem::MissingReleases));
    d.insert("releases".to_string(), BsonValue::Array(vec![BsonValue::Other]));
    assert_eq!(Project::find_document_problem(&d), Some(DocumentProblem::MissingRelease));
    d.insert("releases".to_string(), BsonValue::Array(vec![BsonValue::Document(Document::new())]));
    assert_eq!(Project::find_document_problem(&d), Some(DocumentProblem::MissingReleaseVersion));
    d.insert("releases".to_string(), BsonValue::Array(vec![]));
    assert_eq!(Project::find_document_problem(&d), Some(DocumentProblem::UnknownType));
    d.insert("type".to_string(), BsonValue::String("Github".to_string()));
    assert_eq!(Project::find_document_problem(&d), None);
    assert!(matches!(Project::read_document(d), Ok(p) if p.releases.is_empty()));
}

#[test]
fn insert_replaces_in_place() {
    let mut d = Document::new();
    d.insert("a".to_string(), BsonValue::String("1".to_string()));
    d.insert("b".to_string(), BsonValue::String("2".to_string()));
    d.insert("a".to_string(), BsonValue::String("3".to_string()));
    assert_eq!(d.entries.len(), 2);
    assert_eq!(d.entries[0].0, "a");
    assert_eq!(text(&d, "a"), Some("3".to_string()));
    assert_eq!(text(&d, "b"), Some("2".to_string()));
    assert!(d.get("c").is_none());
}

#[test]
fn saving_replaces_or_inserts() {
    let mut p = project("tool", &["1.0"]);
    assert!(matches!(p.save_operation(), SaveOperation::Insert(_)));
    let id = ObjectId::new();
    p.set_object_id(id);
    match p.save_operation() {
        SaveOperation::Replace { filter, document } => {
            assert_eq!(filter.entries.len(), 1);
            assert!(matches!(filter.get("_id"), Some(BsonValue::ObjectId(o)) if *o == id));
            assert_eq!(text(&document, "name"), Some("tool".to_string()));
        },
        SaveOperation::Insert(_) => panic!("a project with an identifier is replaced"),
    }
    let f = p.exists_filter();
    assert_eq!(f.entries.len(), 2);
    assert_eq!(text(&f, "name"), Some("tool".to_string()));
    assert_eq!(text(&f, "url"), Some(p.url.clone()));
}

#[test]
fn new_version_is_detected_on_the_first_release() {
    let old = project("tool", &["v1.2", "v1.1"]);
    let newer = project("tool", &["v1.10", "v1.2"]);
    let none = project("tool", &[]);
    assert!(Project::has_new_version(&old, &newer));
    assert!(!Project::has_new_version(&newer, &old));
    assert!(!Project::has_new_version(&old, &old));
    assert!(Project::has_new_version(&none, &old));
    assert!(!Project::has_new_version(&old, &none));
    assert!(!Project::has_new_version(&none, &none));
    assert_eq!(Project::check_new_version(&old, &newer), Some(true));
    assert_eq!(old.get_last_release().map(|r| r.version.clone()), Some("v1.2".to_string()));
    assert!(none.get_last_release().is_none());
}
