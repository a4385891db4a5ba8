//! The identifier of a package: its name, its version and where it comes from.

use vstd::prelude::*;
use vstd::string::{StrSliceExecFns, StringExecFns};

use crate::json::{Json, JsonView};
use crate::message::fields::DecodeError;
use crate::text::{chars_of, find_from, first_index, lemma_first_index};

verus! {

/// `semver::Version`, a parsed version. It is carried as it is.
#[verifier::external_type_specification]
#[verifier::external_body]
pub struct ExVersion(semver::Version);

/// `semver::Error`, the reason why a text is no version.
#[verifier::external_type_specification]
#[verifier::external_body]
pub struct ExVersionError(semver::Error);

/// Whether a text is a semantic version: whether `semver::Version::parse`
/// takes it.
pub uninterp spec fn is_version(text: Seq<char>) -> bool;

/// The text that a version is written as.
pub uninterp spec fn version_text(v: semver::Version) -> Seq<char>;

/// `semver::Version::parse`: reads `MAJOR.MINOR.PATCH`, then `-` and a
/// pre-release where there is one, then `+` and build metadata where there
/// is some, and nothing after that. It takes a number only in decimal
/// digits without a leading zero, and keeps the identifiers letter for
/// letter; `Display` writes the numbers in that same way and the identifiers
/// as they are kept. So a version that was parsed is written as the text it
/// was parsed from.
#[verifier::external_body]
fn parse_version(text: &str) -> (r: Result<semver::Version, semver::Error>)
    ensures
        match r {
            Ok(v) => is_version(text@) && version_text(v) == text@,
            Err(_) => !is_version(text@),
        },
{
    semver::Version::parse(text)
}

/// `semver::Version`'s `Clone`: the copy is the same version.
pub assume_specification[ <semver::Version as Clone>::clone ](v: &semver::Version) -> (r:
    semver::Version)
    ensures
        r == *v,
;

/// `semver::Version`'s `Display`, through `to_string`.
#[verifier::external_body]
fn write_version(v: &semver::Version) -> (s: String)
    ensures
        s@ == version_text(*v),
{
    v.to_string()
}

/// A package, as `name version (source_id)` names it.
#[derive(Debug, PartialEq, Eq, Hash)]
pub struct PackageId {
    pub name: String,
    pub version: semver::Version,
    pub source_id: String,
}

/// What is wrong with a text that is no package id.
#[derive(Debug, Clone, Copy, PartialEq, Eq, Structural)]
pub enum PackageIdError {
    /// The text is empty or starts with a space.
    MissingName,
    /// Nothing follows the name.
    MissingVersion,
    /// What follows the name is no semantic version.
    BadVersion,
    /// Nothing follows the version.
    MissingSourceId,
    /// What follows the version does not start with `(` and end with `)`.
    UnenclosedSourceId,
}

impl Clone for PackageId {
    /// A copy with the same name, version and source.
    fn clone(&self) -> (copy: Self)
        ensures
            copy == *self,
    {
        PackageId {
            name: self.name.clone(),
            version: self.version.clone(),
            source_id: self.source_id.clone(),
        }
    }
}

impl PackageId {
    /// What follows the first space of `s`; empty where `s` has no space.
    pub open spec fn after_name(s: Seq<char>) -> Seq<char> {
        s.skip(first_index(s, ' ') + 1)
    }

    /// The name that `s` starts with: all that stands before the first space.
    pub open spec fn name_part(s: Seq<char>) -> Seq<char> {
        s.take(first_index(s, ' '))
    }

    /// The version of `s`: what stands between the first and the second space.
    pub open spec fn version_part(s: Seq<char>) -> Seq<char> {
        Self::name_part(Self::after_name(s))
    }

    /// The source of `s` with its parentheses: what follows the second space.
    pub open spec fn source_part(s: Seq<char>) -> Seq<char> {
        Self::after_name(Self::after_name(s))
    }

    /// The first fault of `s`, in the order name, version, source; `None`
    /// where `s` is a package id.
    pub open spec fn fault(s: Seq<char>) -> Option<PackageIdError> {
        let rest = Self::after_name(s);
        let source = Self::source_part(s);
        if first_index(s, ' ') == 0 {
            Some(PackageIdError::MissingName)
        } else if first_index(s, ' ') == s.len() {
            Some(PackageIdError::MissingVersion)
        } else if !is_version(Self::version_part(s)) {
            Some(PackageIdError::BadVersion)
        } else if first_index(rest, ' ') == rest.len() {
            Some(PackageIdError::MissingSourceId)
        } else if !(source.len() >= 2 && source.first() == '(' && source.last() == ')') {
            Some(PackageIdError::UnenclosedSourceId)
        } else {
            None
        }
    }

    /// Whether this package id is what the text `s` is read as.
    pub open spec fn parsed_from(self, s: Seq<char>) -> bool {
        let source = Self::source_part(s);
        &&& Self::fault(s) is None
        &&& self.name@ == Self::name_part(s)
        &&& version_text(self.version) == Self::version_part(s)
        &&& self.source_id@ == source.subrange(1, source.len() - 1)
    }

    /// The text that this package id is written as.
    pub open spec fn text(self) -> Seq<char> {
        self.name@ + " "@ + version_text(self.version) + " ("@ + self.source_id@ + ")"@
    }

    /// Whether this package id is what the document `j` decodes to.
    pub open spec fn decoded_from(self, j: JsonView) -> bool {
        j matches JsonView::Text(s) && self.parsed_from(s)
    }

    /// Reads a package id from `name version (source_id)`. The name ends at
    /// the first space and the version at the second; the source is all that
    /// follows, without the parentheses around it.
    pub fn parse(text: &str) -> (r: Result<Self, PackageIdError>)
        ensures
            match r {
                Ok(id) => id.parsed_from(text@),
                Err(e) => Self::fault(text@) == Some(e),
            },
    {
        let v = chars_of(text);
        let a = find_from(&v, 0, ' ');
        proof {
            assert(v@.skip(0) =~= v@);
            lemma_first_index(v@, ' ');
        }
        if a == 0 {
            return Err(PackageIdError::MissingName);
        }
        if a == v.len() {
            return Err(PackageIdError::MissingVersion);
        }
        let b = find_from(&v, a + 1, ' ');
        let ghost rest = Self::after_name(v@);
        proof {
            lemma_first_index(rest, ' ');
            assert(Self::version_part(v@) =~= v@.subrange(a + 1, b as int));
        }
        let version = match parse_version(text.substring_char(a + 1, b)) {
            Ok(version) => version,
            Err(_) => {
                return Err(PackageIdError::BadVersion);
            },
        };
        if b == v.len() {
            return Err(PackageIdError::MissingSourceId);
        }
        proof {
            assert(Self::source_part(v@) =~= v@.skip(b + 1));
        }
        let n = v.len();
        if !(n - (b + 1) >= 2 && v[b + 1] == '(' && v[n - 1] == ')') {
            return Err(PackageIdError::UnenclosedSourceId);
        }
        let name = text.substring_char(0, a).to_owned();
        let source_id = text.substring_char(b + 2, n - 1).to_owned();
        proof {
            assert(name@ =~= Self::name_part(v@));
            assert(source_id@ =~= Self::source_part(v@).subrange(
                1,
                Self::source_part(v@).len() - 1,
            ));
        }
        Ok(PackageId { name, version, source_id })
    }

    /// Writes this package id as `name version (source_id)`.
    pub fn to_text(&self) -> (s: String)
        ensures
            s@ == self.text(),
    {
        let mut s = self.name.clone();
        s.append(" ");
        s.append(write_version(&self.version).as_str());
        s.append(" (");
        s.append(self.source_id.as_str());
        s.append(")");
        s
    }

    /// Decodes a package id from a text of the form `name version
    /// (source_id)`.
    pub fn deserialize(j: &Json) -> (r: Result<Self, DecodeError>)
        ensures
            match r {
                Ok(id) => id.decoded_from(j@),
                Err(e) => e == DecodeError::Schema && forall|id: Self| !id.decoded_from(j@),
            },
    {
        match j {
            Json::Text(s) => match Self::parse(s.as_str()) {
                Ok(id) => Ok(id),
                Err(_) => Err(DecodeError::Schema),
            },
            _ => Err(DecodeError::Schema),
        }
    }

    /// Encodes this package id as the text `name version (source_id)`.
    pub fn serialize(&self) -> (j: Json)
        ensures
            j@ == JsonView::Text(self.text()),
    {
        Json::Text(self.to_text())
    }
}

/// A text that is read as a package id is the text that this package id is
/// written as: reading and then writing gives the text back, letter for
/// letter.
pub proof fn lemma_package_id_round_trip(id: PackageId, s: Seq<char>)
    requires
        id.parsed_from(s),
    ensures
        id.text() == s,
{
    reveal_strlit(" ");
    reveal_strlit(" (");
    reveal_strlit(")");
    lemma_first_index(s, ' ');
    lemma_first_index(PackageId::after_name(s), ' ');
    assert(id.text() =~= s);
}

} // verus!
