//! Tracked projects, their releases, and how they are stored.
use vstd::prelude::*;
use bson::oid::ObjectId;
use crate::document::{BsonValue, Document, lookup, text_of, lemma_with_absent_field};
use crate::patterns::{regex_is_valid, replace_first_match};
use crate::text::str_equals;
pub use crate::version::Version;
use crate::version::{version_of_name, VERSION_PREFIX};

verus! {

/// Where a project's releases come from.
#[derive(PartialEq, Eq, Structural, Debug, Clone, Copy)]
pub enum ProjectTypes {
    GITHUB,
}

/// A tracked project: its releases, newest first.
pub struct Project {
    pub object_id: Option<ObjectId>,
    pub releases: Vec<ProjectRelease>,
    pub name: String,
    pub url: String,
    pub project_type: ProjectTypes,
}

/// How a release compares with an earlier one.
#[derive(PartialEq, Eq, Structural, Debug, Clone, Copy)]
pub enum ReleaseType {
    SAME,
    NEWER,
    OLDER,
}

/// One release of a project.
pub struct ProjectRelease {
    pub version: String,
    pub date: Option<String>,
}

impl ProjectRelease {
    pub fn new(version: String, date: Option<String>) -> (r: ProjectRelease)
        ensures
            r.version == version,
            r.date == date,
    {
        ProjectRelease { version: version, date: date }
    }
}

/// A source of releases that can be turned into a project.
pub trait TProject {
    /// Whether everything that the project is made from has been read.
    spec fn is_complete(&self) -> bool;

    /// Whether `p` is the project made from this source.
    spec fn gives(&self, p: Project) -> bool;

    fn to_project(&self) -> (p: Project)
        requires
            self.is_complete(),
        ensures
            self.gives(p),
    ;
}

/// The name that the store gives a project type.
pub open spec fn stored_type_label(t: ProjectTypes) -> Seq<char> {
    match t {
        ProjectTypes::GITHUB => "Github"@,
    }
}

/// Whether `entry` is the text field `name` holding `text`.
pub open spec fn is_text_field(entry: (String, BsonValue), name: Seq<char>, text: Seq<char>) -> bool {
    &&& entry.0@ == name
    &&& entry.1 matches BsonValue::String(s)
    &&& s@ == text
}

/// Whether `v` is the stored form of release `r`: a document with its
/// version and nothing else.
pub open spec fn is_release_document(v: BsonValue, r: ProjectRelease) -> bool {
    &&& v matches BsonValue::Document(d)
    &&& d.entries@.len() == 1
    &&& is_text_field(d.entries@[0], "version"@, r.version@)
}

/// Whether `d` is the stored form of project `p`: its name, url, type and
/// the versions of its releases, in this order.
pub open spec fn is_project_document(d: Document, p: Project) -> bool {
    &&& d.entries@.len() == 4
    &&& is_text_field(d.entries@[0], "name"@, p.name@)
    &&& is_text_field(d.entries@[1], "url"@, p.url@)
    &&& is_text_field(d.entries@[2], "type"@, stored_type_label(p.project_type))
    &&& d.entries@[3].0@ == "releases"@
    &&& d.entries@[3].1 matches BsonValue::Array(items)
    &&& items@.len() == p.releases@.len()
    &&& forall|i: int|
        0 <= i < items@.len() ==> #[trigger] is_release_document(items@[i], p.releases@[i])
}

/// Why a stored document cannot be read as a project.
#[derive(PartialEq, Eq, Structural, Debug, Clone, Copy)]
pub enum DocumentProblem {
    /// No `_id` identifier.
    MissingId,
    /// No `name` text.
    MissingName,
    /// No `url` text.
    MissingUrl,
    /// No `type` text.
    MissingType,
    /// No `releases` array.
    MissingReleases,
    /// A release that is not a document.
    MissingRelease,
    /// A release without `version` text.
    MissingReleaseVersion,
    /// A `type` other than `Github`.
    UnknownType,
}

/// The version text of a stored release.
pub open spec fn release_version(v: BsonValue) -> Option<Seq<char>> {
    match v {
        BsonValue::Document(d) => text_of(lookup(d.entries@, "version"@)),
        _ => None,
    }
}

/// The first problem among stored releases.
pub open spec fn release_problem(items: Seq<BsonValue>) -> Option<DocumentProblem>
    decreases items.len(),
{
    if items.len() == 0 {
        None
    } else {
        match items[0] {
            BsonValue::Document(d) => if text_of(lookup(d.entries@, "version"@)) is None {
                Some(DocumentProblem::MissingReleaseVersion)
            } else {
                release_problem(items.drop_first())
            },
            _ => Some(DocumentProblem::MissingRelease),
        }
    }
}

/// The stored releases of a document.
pub open spec fn releases_of(d: Document) -> Seq<BsonValue> {
    match lookup(d.entries@, "releases"@) {
        Some(BsonValue::Array(items)) => items@,
        _ => Seq::empty(),
    }
}

/// The identifier of a document.
pub open spec fn id_of(d: Document) -> Option<ObjectId> {
    match lookup(d.entries@, "_id"@) {
        Some(BsonValue::ObjectId(o)) => Some(o),
        _ => None,
    }
}

/// The first problem that reading `d` as a project meets, in the order in
/// which the fields are read.
pub open spec fn document_problem(d: Document) -> Option<DocumentProblem> {
    let e = d.entries@;
    if id_of(d) is None {
        Some(DocumentProblem::MissingId)
    } else if text_of(lookup(e, "name"@)) is None {
        Some(DocumentProblem::MissingName)
    } else if text_of(lookup(e, "url"@)) is None {
        Some(DocumentProblem::MissingUrl)
    } else if text_of(lookup(e, "type"@)) is None {
        Some(DocumentProblem::MissingType)
    } else if !(lookup(e, "releases"@) matches Some(BsonValue::Array(_))) {
        Some(DocumentProblem::MissingReleases)
    } else if release_problem(releases_of(d)) is Some {
        release_problem(releases_of(d))
    } else if text_of(lookup(e, "type"@)) != Some("Github"@) {
        Some(DocumentProblem::UnknownType)
    } else {
        None
    }
}

/// Whether `p` is what reading `d` gives: its identifier, texts and release
/// versions, the releases without dates.
pub open spec fn is_read_from(p: Project, d: Document) -> bool {
    &&& p.object_id == id_of(d)
    &&& Some(p.name@) == text_of(lookup(d.entries@, "name"@))
    &&& Some(p.url@) == text_of(lookup(d.entries@, "url"@))
    &&& p.project_type == ProjectTypes::GITHUB
    &&& p.releases@.len() == releases_of(d).len()
    &&& forall|i: int|
        0 <= i < p.releases@.len() ==> Some(#[trigger] p.releases@[i].version@) == release_version(
            releases_of(d)[i],
        ) && p.releases@[i].date is None
}

proof fn lemma_release_problem(items: Seq<BsonValue>, i: int)
    requires
        release_problem(items) is None,
        0 <= i < items.len(),
    ensures
        release_version(items[i]) is Some,
    decreases items.len(),
{
    if i > 0 {
        lemma_release_problem(items.drop_first(), i - 1);
    }
}

} // verus!

verus! {

/// How a number of a new version compares with that of an old one: a
/// number that appears is newer, one that disappears older.
pub open spec fn compare_number(vo: Option<u16>, vn: Option<u16>) -> ReleaseType {
    match (vo, vn) {
        (None, Some(_)) => ReleaseType::NEWER,
        (Some(_), None) => ReleaseType::OLDER,
        (Some(a), Some(b)) => if a < b {
            ReleaseType::NEWER
        } else if a == b {
            ReleaseType::SAME
        } else {
            ReleaseType::OLDER
        },
        (None, None) => ReleaseType::SAME,
    }
}

/// How a new version compares with an old one: by the first of major,
/// minor, patch and revision that differs.
pub open spec fn compare_versions(vo: Version, vn: Version) -> ReleaseType {
    let major = compare_number(vo.major, vn.major);
    let minor = compare_number(vo.minor, vn.minor);
    let patch = compare_number(vo.patch, vn.patch);
    let rev = compare_number(vo.revision, vn.revision);
    if major != ReleaseType::SAME {
        major
    } else if minor != ReleaseType::SAME {
        minor
    } else if patch != ReleaseType::SAME {
        patch
    } else {
        rev
    }
}

/// Whether the latest release of `project_new` is newer than that of
/// `project_old`; a first release counts as new.
pub open spec fn has_newer_release(project_old: Project, project_new: Project) -> bool {
    if project_old.releases@.len() == 0 {
        project_new.releases@.len() > 0
    } else if project_new.releases@.len() == 0 {
        false
    } else {
        compare_versions(
            version_of_name(project_old.releases@[0].version@),
            version_of_name(project_new.releases@[0].version@),
        ) == ReleaseType::NEWER
    }
}

/// The opposite comparison.
pub open spec fn reversed(r: ReleaseType) -> ReleaseType {
    match r {
        ReleaseType::SAME => ReleaseType::SAME,
        ReleaseType::NEWER => ReleaseType::OLDER,
        ReleaseType::OLDER => ReleaseType::NEWER,
    }
}

/// What a store is asked to do to save a project.
pub enum SaveOperation {
    /// Add the document as a new one.
    Insert(Document),
    /// Replace the document that `filter` selects.
    Replace { filter: Document, document: Document },
}

impl Project {
    /// The stored form of the project.
    pub fn get_document(&self) -> (doc: Document)
        ensures
            is_project_document(doc, *self),
    {
        let mut doc = Document::new();
        proof {
            reveal_strlit("name");
            reveal_strlit("url");
            reveal_strlit("type");
            reveal_strlit("releases");
        }
        let ghost e0 = doc.entries@;
        let name_key = String::from_str("name");
        let name_value = BsonValue::String(self.name.clone());
        proof {
            lemma_with_absent_field(e0, name_key, name_value);
        }
        doc.insert(name_key, name_value);
        let ghost e1 = doc.entries@;
        let url_key = String::from_str("url");
        let url_value = BsonValue::String(self.url.clone());
        proof {
            assert(e1[0].0 == name_key);
            assert(name_key@ == "name"@);
            assert("name"@.len() == 4);
            assert(url_key@.len() == 3);
            assert(e1[0].0@ != url_key@);
            lemma_with_absent_field(e1, url_key, url_value);
        }
        doc.insert(url_key, url_value);
        let ghost e2 = doc.entries@;
        let type_key = String::from_str("type");
        let type_value = BsonValue::String(self.get_project_type_str());
        proof {
            assert(e2[0].0@[0] != type_key@[0]);
            assert(e2[1].0@ != type_key@);
            lemma_with_absent_field(e2, type_key, type_value);
        }
        doc.insert(type_key, type_value);
        let ghost e3 = doc.entries@;
        let mut releases: Vec<BsonValue> = Vec::new();
        let n = self.releases.len();
        let mut i: usize = 0;
        while i < n
            invariant
                n == self.releases@.len(),
                i <= n,
                releases@.len() == i,
                forall|j: int|
                    0 <= j < i ==> #[trigger] is_release_document(releases@[j], self.releases@[j]),
            decreases n - i,
        {
            let mut release_doc = Document::new();
            release_doc.insert(
                String::from_str("version"),
                BsonValue::String(self.releases[i].version.clone()),
            );
            releases.push(BsonValue::Document(release_doc));
            i = i + 1;
        }
        let releases_key = String::from_str("releases");
        let releases_value = BsonValue::Array(releases);
        proof {
            assert(e3[0].0@ != releases_key@);
            assert(e3[1].0@ != releases_key@);
            assert(e3[2].0@ != releases_key@);
            lemma_with_absent_field(e3, releases_key, releases_value);
        }
        doc.insert(releases_key, releases_value);
        doc
    }
}

impl Project {
    /// The name under which the project's type is stored.
    fn get_project_type_str(&self) -> (s: String)
        ensures
            s@ == stored_type_label(self.project_type),
    {
        match self.project_type {
            ProjectTypes::GITHUB => String::from_str("Github"),
        }
    }

    /// The project type stored under `project_type`.
    fn get_project_type_enum(project_type: &str) -> (t: ProjectTypes)
        requires
            project_type@ == "Github"@,
        ensures
            stored_type_label(t) == project_type@,
    {
        ProjectTypes::GITHUB
    }

    /// The first problem that reading `doc` as a project meets, or `None`
    /// when it can be read.
    #[verifier::loop_isolation(false)]
    pub fn find_document_problem(doc: &Document) -> (r: Option<DocumentProblem>)
        ensures
            r == document_problem(*doc),
    {
        match doc.get("_id") {
            Some(BsonValue::ObjectId(_)) => {},
            _ => {
                return Some(DocumentProblem::MissingId);
            },
        }
        match doc.get("name") {
            Some(BsonValue::String(_)) => {},
            _ => {
                return Some(DocumentProblem::MissingName);
            },
        }
        match doc.get("url") {
            Some(BsonValue::String(_)) => {},
            _ => {
                return Some(DocumentProblem::MissingUrl);
            },
        }
        let project_type: &String = match doc.get("type") {
            Some(BsonValue::String(t)) => t,
            _ => {
                return Some(DocumentProblem::MissingType);
            },
        };
        let items: &Vec<BsonValue> = match doc.get("releases") {
            Some(BsonValue::Array(items)) => items,
            _ => {
                return Some(DocumentProblem::MissingReleases);
            },
        };
        let n = items.len();
        let mut i: usize = 0;
        assert(items@.skip(0) =~= items@);
        while i < n
            invariant
                n == items@.len(),
                i <= n,
                release_problem(items@) == release_problem(items@.skip(i as int)),
            decreases n - i,
        {
            assert(items@.skip(i as int).drop_first() =~= items@.skip(i + 1));
            match &items[i] {
                BsonValue::Document(rd) => {
                    match rd.get("version") {
                        Some(BsonValue::String(_)) => {},
                        _ => {
                            return Some(DocumentProblem::MissingReleaseVersion);
                        },
                    }
                },
                _ => {
                    assert(items@.skip(i as int)[0] == items@[i as int]);
                    return Some(DocumentProblem::MissingRelease);
                },
            }
            i = i + 1;
        }
        assert(items@.skip(n as int) =~= Seq::<BsonValue>::empty());
        if !str_equals(project_type.as_str(), "Github") {
            return Some(DocumentProblem::UnknownType);
        }
        None
    }

    /// Reads a stored document back as a project.
    #[verifier::loop_isolation(false)]
    fn from_document(doc: Document) -> (r: Option<Project>)
        requires
            document_problem(doc) is None,
        ensures
            r matches Some(p) && is_read_from(p, doc),
    {
        let object_id = match doc.get("_id") {
            Some(BsonValue::ObjectId(o)) => Some(*o),
            _ => None,
        };
        let name = match doc.get("name") {
            Some(BsonValue::String(s)) => s.clone(),
            _ => String::new(),
        };
        let url = match doc.get("url") {
            Some(BsonValue::String(s)) => s.clone(),
            _ => String::new(),
        };
        let mut releases: Vec<ProjectRelease> = Vec::new();
        let mut project_type = ProjectTypes::GITHUB;
        match doc.get("type") {
            Some(BsonValue::String(t)) => {
                project_type = Project::get_project_type_enum(t.as_str());
            },
            _ => {},
        }
        match doc.get("releases") {
            Some(BsonValue::Array(items)) => {
                let n = items.len();
                let mut i: usize = 0;
                while i < n
                    invariant
                        n == items@.len(),
                        items@ == releases_of(doc),
                        release_problem(items@) is None,
                        i <= n,
                        releases@.len() == i,
                        forall|j: int|
                            0 <= j < i ==> Some(#[trigger] releases@[j].version@)
                                == release_version(items@[j]) && releases@[j].date is None,
                    decreases n - i,
                {
                    proof {
                        lemma_release_problem(items@, i as int);
                    }
                    let version = match &items[i] {
                        BsonValue::Document(rd) => match rd.get("version") {
                            Some(BsonValue::String(v)) => v.clone(),
                            _ => String::new(),
                        },
                        _ => String::new(),
                    };
                    releases.push(ProjectRelease::new(version, None));
                    i = i + 1;
                }
            },
            _ => {},
        }
        let project = Project {
            object_id: object_id,
            url: url,
            name: name,
            releases: releases,
            project_type: project_type,
        };
        assert(project.object_id == id_of(doc));
        assert(Some(project.name@) == text_of(lookup(doc.entries@, "name"@)));
        assert(Some(project.url@) == text_of(lookup(doc.entries@, "url"@)));
        assert(project.project_type == ProjectTypes::GITHUB);
        assert(project.releases@.len() == releases_of(doc).len());
        assert(is_read_from(project, doc));
        Some(project)
    }

    /// Reads a stored document back as a project, or tells what keeps it
    /// from being read.
    pub fn read_document(doc: Document) -> (r: Result<Project, DocumentProblem>)
        ensures
            r matches Ok(p) ==> document_problem(doc) is None && is_read_from(p, doc),
            r matches Err(e) ==> document_problem(doc) == Some(e),
    {
        match Project::find_document_problem(&doc) {
            Some(e) => Err(e),
            None => match Project::from_document(doc) {
                Some(p) => Ok(p),
                None => Err(DocumentProblem::MissingId),
            },
        }
    }

    /// The latest release, which comes first.
    pub fn get_last_release(&self) -> (r: Option<&ProjectRelease>)
        ensures
            r is Some <==> self.releases@.len() > 0,
            r matches Some(rel) ==> *rel == self.releases@[0],
    {
        if self.releases.len() > 0 {
            Some(&self.releases[0])
        } else {
            None
        }
    }

    /// How a number of a new version compares with that of an old one.
    pub fn match_version_number(vo: Option<u16>, vn: Option<u16>) -> (r: ReleaseType)
        ensures
            r == compare_number(vo, vn),
    {
        if !vo.is_some() && vn.is_some() {
            return ReleaseType::NEWER;
        } else if vo.is_some() && !vn.is_some() {
            return ReleaseType::OLDER;
        } else if vo.is_some() && vn.is_some() {
            let von = vo.unwrap();
            let vnn = vn.unwrap();
            if von < vnn {
                return ReleaseType::NEWER;
            } else if von == vnn {
                return ReleaseType::SAME;
            } else if von > vnn {
                return ReleaseType::OLDER;
            }
        }
        return ReleaseType::SAME;
    }

    /// How a new version compares with an old one.
    pub fn match_version(vo: Version, vn: Version) -> (r: ReleaseType)
        ensures
            r == compare_versions(vo, vn),
    {
        let major = Project::match_version_number(vo.major, vn.major);
        if major != ReleaseType::SAME {
            return major;
        }
        let minor = Project::match_version_number(vo.minor, vn.minor);
        if minor != ReleaseType::SAME {
            return minor;
        }
        let patch = Project::match_version_number(vo.patch, vn.patch);
        if patch != ReleaseType::SAME {
            return patch;
        }
        let rev = Project::match_version_number(vo.revision, vn.revision);
        if rev != ReleaseType::SAME {
            return rev;
        }
        return ReleaseType::SAME;
    }

    /// Whether `project_new` has a newer latest release than `project_old`.
    pub fn has_new_version(project_old: &Project, project_new: &Project) -> (r: bool)
        requires
            regex_is_valid(VERSION_PREFIX@),
        ensures
            r == has_newer_release(*project_old, *project_new),
    {
        let version_old = project_old.get_last_release();
        let version_new = project_new.get_last_release();
        if version_old.is_none() {
            if version_new.is_some() {
                return true;
            } else {
                return false;
            }
        } else if version_new.is_none() {
            return false;
        } else {
            let v_old = Version::new(&version_old.unwrap().version);
            let v_new = Version::new(&version_new.unwrap().version);
            match Project::match_version(v_old, v_new) {
                ReleaseType::SAME => false,
                ReleaseType::NEWER => true,
                ReleaseType::OLDER => false,
            }
        }
    }

    /// Whether `project_new` has a newer latest release than `project_old`,
    /// or `None` when the regex that reads versions cannot be built.
    pub fn check_new_version(project_old: &Project, project_new: &Project) -> (r: Option<bool>)
        ensures
            r is Some <==> regex_is_valid(VERSION_PREFIX@),
            r matches Some(b) ==> b == has_newer_release(*project_old, *project_new),
    {
        match replace_first_match(VERSION_PREFIX, "", "") {
            Some(_) => Some(Project::has_new_version(project_old, project_new)),
            None => None,
        }
    }

    pub fn set_object_id(&mut self, object_id: ObjectId)
        ensures
            final(self).object_id == Some(object_id),
            final(self).releases == old(self).releases,
            final(self).name == old(self).name,
            final(self).url == old(self).url,
            final(self).project_type == old(self).project_type,
    {
        self.object_id = Some(object_id);
    }

    /// What the store is asked to do to save the project: replace the
    /// document with the project's identifier, or add a new one when it has
    /// none yet.
    pub fn save_operation(&self) -> (op: SaveOperation)
        ensures
            match self.object_id {
                Some(o) => op matches SaveOperation::Replace { filter, document } && filter.entries@.len()
                    == 1 && filter.entries@[0].0@ == "_id"@ && filter.entries@[0].1 == BsonValue::ObjectId(o)
                    && is_project_document(document, *self),
                None => op matches SaveOperation::Insert(document) && is_project_document(
                    document,
                    *self,
                ),
            },
    {
        let doc = self.get_document();
        match self.object_id {
            Some(object_id) => {
                let mut filter = Document::new();
                filter.insert(String::from_str("_id"), BsonValue::ObjectId(object_id));
                SaveOperation::Replace { filter: filter, document: doc }
            },
            None => SaveOperation::Insert(doc),
        }
    }

    /// The filter that finds a stored project with this name and url.
    pub fn exists_filter(&self) -> (filter: Document)
        ensures
            filter.entries@.len() == 2,
            is_text_field(filter.entries@[0], "name"@, self.name@),
            is_text_field(filter.entries@[1], "url"@, self.url@),
    {
        let mut find = Document::new();
        proof {
            reveal_strlit("name");
            reveal_strlit("url");
        }
        let ghost e0 = find.entries@;
        let name_key = String::from_str("name");
        let name_value = BsonValue::String(self.name.clone());
        proof {
            lemma_with_absent_field(e0, name_key, name_value);
        }
        find.insert(name_key, name_value);
        let ghost e1 = find.entries@;
        let url_key = String::from_str("url");
        let url_value = BsonValue::String(self.url.clone());
        proof {
            assert(e1[0].0 == name_key);
            assert(name_key@.len() == 4);
            assert(url_key@.len() == 3);
            lemma_with_absent_field(e1, url_key, url_value);
        }
        find.insert(url_key, url_value);
        find
    }
}

} // verus!

verus! {

/// Comparing a number with itself gives `SAME`, and only then.
proof fn lemma_compare_number_same(a: Option<u16>, b: Option<u16>)
    ensures
        (compare_number(a, b) == ReleaseType::SAME) <==> a == b,
        compare_number(b, a) == reversed(compare_number(a, b)),
{
}

/// Swapping the two versions swaps `NEWER` and `OLDER` and keeps `SAME`.
pub proof fn lemma_compare_versions_reversed(a: Version, b: Version)
    ensures
        compare_versions(b, a) == reversed(compare_versions(a, b)),
{
    lemma_compare_number_same(a.major, b.major);
    lemma_compare_number_same(a.minor, b.minor);
    lemma_compare_number_same(a.patch, b.patch);
    lemma_compare_number_same(a.revision, b.revision);
}

/// Two versions compare as `SAME` exactly when all their numbers agree.
pub proof fn lemma_compare_versions_same(a: Version, b: Version)
    ensures
        (compare_versions(a, b) == ReleaseType::SAME) <==> a == b,
{
    lemma_compare_number_same(a.major, b.major);
    lemma_compare_number_same(a.minor, b.minor);
    lemma_compare_number_same(a.patch, b.patch);
    lemma_compare_number_same(a.revision, b.revision);
}

/// Being newer is transitive.
pub proof fn lemma_compare_versions_transitive(a: Version, b: Version, c: Version)
    requires
        compare_versions(a, b) == ReleaseType::NEWER,
        compare_versions(b, c) == ReleaseType::NEWER,
    ensures
        compare_versions(a, c) == ReleaseType::NEWER,
{
    lemma_compare_number_same(a.major, b.major);
    lemma_compare_number_same(b.major, c.major);
    lemma_compare_number_same(a.minor, b.minor);
    lemma_compare_number_same(b.minor, c.minor);
    lemma_compare_number_same(a.patch, b.patch);
    lemma_compare_number_same(b.patch, c.patch);
    lemma_compare_number_same(a.revision, b.revision);
    lemma_compare_number_same(b.revision, c.revision);
}

/// No project has a newer release than itself.
pub proof fn lemma_not_newer_than_itself(p: Project)
    ensures
        !has_newer_release(p, p),
{
    if p.releases@.len() > 0 {
        let v = version_of_name(p.releases@[0].version@);
        lemma_compare_versions_same(v, v);
    }
}

/// Of two projects, at most one has a newer release than the other.
pub proof fn lemma_newer_release_asymmetric(a: Project, b: Project)
    ensures
        !(has_newer_release(a, b) && has_newer_release(b, a)),
{
    if a.releases@.len() > 0 && b.releases@.len() > 0 {
        lemma_compare_versions_reversed(
            version_of_name(a.releases@[0].version@),
            version_of_name(b.releases@[0].version@),
        );
    }
}

/// Reading back what was stored: a stored project, once the store has
/// given it an identifier (and whatever else it adds to the document),
/// reads back with that identifier, its name, url and type, and its release
/// versions in order, the dates left out.
pub proof fn lemma_stored_project_reads_back(p: Project, stored: Document, read: Document, id: ObjectId)
    requires
        is_project_document(stored, p),
        lookup(read.entries@, "_id"@) == Some(BsonValue::ObjectId(id)),
        lookup(read.entries@, "name"@) == lookup(stored.entries@, "name"@),
        lookup(read.entries@, "url"@) == lookup(stored.entries@, "url"@),
        lookup(read.entries@, "type"@) == lookup(stored.entries@, "type"@),
        lookup(read.entries@, "releases"@) == lookup(stored.entries@, "releases"@),
    ensures
        document_problem(read) is None,
        id_of(read) == Some(id),
        text_of(lookup(read.entries@, "name"@)) == Some(p.name@),
        text_of(lookup(read.entries@, "url"@)) == Some(p.url@),
        p.project_type == ProjectTypes::GITHUB,
        releases_of(read).len() == p.releases@.len(),
        forall|i: int|
            0 <= i < p.releases@.len() ==> release_version(#[trigger] releases_of(read)[i]) == Some(
                p.releases@[i].version@,
            ),
{
    reveal_strlit("name");
    reveal_strlit("url");
    reveal_strlit("type");
    reveal_strlit("releases");
    let e = stored.entries@;
    assert("name"@.len() == 4);
    assert("url"@.len() == 3);
    assert("type"@.len() == 4);
    assert("releases"@.len() == 8);
    let e1 = e.drop_first();
    let e2 = e1.drop_first();
    let e3 = e2.drop_first();
    assert(e1[0] == e[1]);
    assert(e2[0] == e[2]);
    assert(e3[0] == e[3]);
    assert(lookup(e, "name"@) == Some(e[0].1));
    assert(e[0].0@ != "url"@);
    assert(lookup(e1, "url"@) == Some(e[1].1));
    assert(lookup(e, "url"@) == Some(e[1].1));
    assert(e[0].0@[0] != "type"@[0]);
    assert(e[1].0@ != "type"@);
    assert(lookup(e2, "type"@) == Some(e[2].1));
    assert(lookup(e1, "type"@) == Some(e[2].1));
    assert(lookup(e, "type"@) == Some(e[2].1));
    assert(e[0].0@ != "releases"@);
    assert(e[1].0@ != "releases"@);
    assert(e[2].0@ != "releases"@);
    assert(lookup(e3, "releases"@) == Some(e[3].1));
    assert(lookup(e2, "releases"@) == Some(e[3].1));
    assert(lookup(e1, "releases"@) == Some(e[3].1));
    assert(lookup(e, "releases"@) == Some(e[3].1));
    let items = releases_of(read);
    assert forall|i: int| 0 <= i < p.releases@.len() implies release_version(
        #[trigger] items[i],
    ) == Some(p.releases@[i].version@) by {
        assert(is_release_document(items[i], p.releases@[i]));
    }
    lemma_no_release_problem(items);
}

proof fn lemma_no_release_problem(items: Seq<BsonValue>)
    requires
        forall|i: int| 0 <= i < items.len() ==> (#[trigger] release_version(items[i])) is Some,
    ensures
        release_problem(items) is None,
    decreases items.len(),
{
    if items.len() > 0 {
        assert(release_version(items[0]) is Some);
        assert forall|i: int| 0 <= i < items.drop_first().len() implies (#[trigger] release_version(
            items.drop_first()[i],
        )) is Some by {
            assert(release_version(items[i + 1]) is Some);
        }
        lemma_no_release_problem(items.drop_first());
    }
}

/// What reading gives back of a write: a project read from the document
/// that the store holds for a saved project (with its identifier added) has
/// that identifier and the saved project's name, url, type and release
/// versions, the dates left out.
pub proof fn lemma_read_gives_back_saved(
    p: Project,
    stored: Document,
    read: Document,
    id: ObjectId,
    q: Project,
)
    requires
        is_project_document(stored, p),
        lookup(read.entries@, "_id"@) == Some(BsonValue::ObjectId(id)),
        lookup(read.entries@, "name"@) == lookup(stored.entries@, "name"@),
        lookup(read.entries@, "url"@) == lookup(stored.entries@, "url"@),
        lookup(read.entries@, "type"@) == lookup(stored.entries@, "type"@),
        lookup(read.entries@, "releases"@) == lookup(stored.entries@, "releases"@),
        is_read_from(q, read),
    ensures
        q.object_id == Some(id),
        q.name@ == p.name@,
        q.url@ == p.url@,
        q.project_type == p.project_type,
        q.releases@.len() == p.releases@.len(),
        forall|i: int|
            0 <= i < q.releases@.len() ==> (#[trigger] q.releases@[i]).version@
                == p.releases@[i].version@ && q.releases@[i].date is None,
{
    lemma_stored_project_reads_back(p, stored, read, id);
    assert forall|i: int| 0 <= i < q.releases@.len() implies (#[trigger] q.releases@[i]).version@
        == p.releases@[i].version@ && q.releases@[i].date is None by {
        assert(Some(q.releases@[i].version@) == release_version(releases_of(read)[i]));
    }
}

/// Whether number `x` of an old version is below number `y` of a new one:
/// both there and `x < y`, or only `y` there.
pub open spec fn number_below(x: Option<u16>, y: Option<u16>) -> bool {
    match (x, y) {
        (None, Some(_)) => true,
        (Some(a), Some(b)) => a < b,
        _ => false,
    }
}

/// Whether `n` comes after `o` in the order of major, then minor, then
/// patch, then revision number.
pub open spec fn lexicographically_after(o: Version, n: Version) -> bool {
    ||| number_below(o.major, n.major)
    ||| o.major == n.major && number_below(o.minor, n.minor)
    ||| o.major == n.major && o.minor == n.minor && number_below(o.patch, n.patch)
    ||| o.major == n.major && o.minor == n.minor && o.patch == n.patch && number_below(
        o.revision,
        n.revision,
    )
}

/// A new version is `NEWER` exactly when it comes after the old one in the
/// order of its numbers (major first, an absent number below any present
/// one), and `OLDER` exactly when the old one comes after it.
pub proof fn lemma_newer_is_lexicographic(o: Version, n: Version)
    ensures
        (compare_versions(o, n) == ReleaseType::NEWER) <==> lexicographically_after(o, n),
        (compare_versions(o, n) == ReleaseType::OLDER) <==> lexicographically_after(n, o),
{
}

/// A fetched project has a newer release than the stored one exactly when
/// it has releases and the stored one has none, or the version that
/// `Version::new` reads from its latest release name (the letter prefix taken
/// off) comes after the one read from the stored latest release name.
pub proof fn lemma_newer_release_by_latest_names(project_old: Project, project_new: Project)
    ensures
        has_newer_release(project_old, project_new) == ((project_old.releases@.len() == 0
            && project_new.releases@.len() > 0) || (project_old.releases@.len() > 0
            && project_new.releases@.len() > 0 && lexicographically_after(
            version_of_name(project_old.releases@[0].version@),
            version_of_name(project_new.releases@[0].version@),
        ))),
{
    if project_old.releases@.len() > 0 && project_new.releases@.len() > 0 {
        lemma_newer_is_lexicographic(
            version_of_name(project_old.releases@[0].version@),
            version_of_name(project_new.releases@[0].version@),
        );
    }
}

} // verus!
