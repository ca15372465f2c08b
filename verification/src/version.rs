//! Version numbers read out of release names.
use vstd::prelude::*;
use crate::patterns::{regex_is_valid, regex_replace, replace_first_match};
use crate::text::{join_with, parse_u16, parse_u16_str, split_on, split_on_char, splitn_on, splitn_on_char, views, lemma_split_on_join, lemma_split_on_nonempty};

verus! {

/// The prefix that is taken off a release name before its numbers are read:
/// letters, then at most one `-` (as in `v1.2` or `release-3.0`).
pub const VERSION_PREFIX: &'static str = "^[A-Za-z]*-?";

/// A release's version numbers.
#[derive(PartialEq, Eq, Structural, Debug, Clone, Copy)]
pub struct Version {
    pub major: Option<u16>,
    pub minor: Option<u16>,
    pub patch: Option<u16>,
    pub revision: Option<u16>,
}

/// The number in `pieces[i]`, when there is such a piece and it parses.
pub open spec fn number_at(pieces: Seq<Seq<char>>, i: int) -> Option<u16> {
    if 0 <= i < pieces.len() {
        parse_u16(pieces[i])
    } else {
        None
    }
}

/// The version that the dot-separated numbers of `t` give: the major number
/// is 0 when the first piece does not parse, the others are absent then; the
/// revision is read after a `-` in the first of at most one `-`-separated
/// piece of the last number, so that it is never there.
pub open spec fn version_from(t: Seq<char>) -> Version {
    let numbers = split_on(t, '.');
    let revs = splitn_on(numbers.last(), '-', 1);
    Version {
        major: Some(
            match parse_u16(numbers[0]) {
                Some(y) => y,
                None => 0,
            },
        ),
        minor: number_at(numbers, 1),
        patch: number_at(numbers, 2),
        revision: number_at(revs, 1),
    }
}

/// The version of a release name: its prefix taken off by the regex, then
/// its numbers read.
pub open spec fn version_of_name(name: Seq<char>) -> Version {
    version_from(regex_replace(VERSION_PREFIX@, name, ""@))
}

impl Version {
    /// Reads the version numbers of a release name whose prefix has been
    /// taken off already.
    pub fn from_unprefixed(t: &str) -> (v: Version)
        ensures
            v == version_from(t@),
            v.major is Some,
            v.revision is None,
    {
        let numbers = split_on_char(t, '.');
        proof {
            lemma_split_on_nonempty(t@, '.');
        }
        assert(views(numbers@)[0] == numbers@[0]@);
        let major = match parse_u16_str(numbers[0].as_str()) {
            Some(y) => Some(y),
            None => Some(0),
        };
        let minor = if numbers.len() > 1 {
            assert(views(numbers@)[1] == numbers@[1]@);
            parse_u16_str(numbers[1].as_str())
        } else {
            None
        };
        let patch = if numbers.len() > 2 {
            assert(views(numbers@)[2] == numbers@[2]@);
            parse_u16_str(numbers[2].as_str())
        } else {
            None
        };
        let last = numbers.len() - 1;
        assert(views(numbers@)[last as int] == numbers@[last as int]@);
        let revs = splitn_on_char(numbers[last].as_str(), '-', 1);
        let revision = if revs.len() > 1 {
            assert(views(revs@)[1] == revs@[1]@);
            parse_u16_str(revs[1].as_str())
        } else {
            None
        };
        Version { major, minor, patch, revision }
    }

    /// Reads the version of a release name.
    pub fn new(version: &String) -> (v: Version)
        requires
            regex_is_valid(VERSION_PREFIX@),
        ensures
            v == version_of_name(version@),
    {
        match replace_first_match(VERSION_PREFIX, version.as_str(), "") {
            Some(t) => Version::from_unprefixed(t.as_str()),
            None => {
                proof {
                    assert(false);
                }
                Version { major: None, minor: None, patch: None, revision: None }
            },
        }
    }

    /// Reads the version of a release name, or gives `None` when the regex
    /// of the prefix cannot be built.
    pub fn try_new(version: &String) -> (r: Option<Version>)
        ensures
            r is Some <==> regex_is_valid(VERSION_PREFIX@),
            r matches Some(v) ==> v == version_of_name(version@),
    {
        match replace_first_match(VERSION_PREFIX, "", "") {
            Some(_) => Some(Version::new(version)),
            None => None,
        }
    }
}

/// Whatever the release name, its version has a major number and no
/// revision.
pub proof fn lemma_major_always_revision_never(t: Seq<char>)
    ensures
        version_from(t).major is Some,
        version_from(t).revision is None,
{
    let numbers = split_on(t, '.');
    lemma_split_on_nonempty(t, '.');
    assert(splitn_on(numbers.last(), '-', 1) =~= seq![numbers.last()]);
}

/// The numbers are read from the dot-separated pieces in order: the major
/// number from the first piece (0 when it is not a number), the minor number
/// from the second and the patch number from the third, whatever pieces
/// follow them; a missing piece gives no number.
pub proof fn lemma_version_reads_pieces_in_order(ps: Seq<Seq<char>>)
    requires
        ps.len() >= 1,
        forall|i: int| 0 <= i < ps.len() ==> !(#[trigger] ps[i]).contains('.'),
    ensures
        version_from(join_with(ps, '.')).major == Some(
            match parse_u16(ps[0]) {
                Some(y) => y,
                None => 0u16,
            },
        ),
        version_from(join_with(ps, '.')).minor == if ps.len() > 1 {
            parse_u16(ps[1])
        } else {
            None
        },
        version_from(join_with(ps, '.')).patch == if ps.len() > 2 {
            parse_u16(ps[2])
        } else {
            None
        },
        version_from(join_with(ps, '.')).revision is None,
{
    lemma_split_on_join(ps, '.');
    lemma_major_always_revision_never(join_with(ps, '.'));
}

} // verus!
