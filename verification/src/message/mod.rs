//! The records that a compiler driver writes, one per line.

use vstd::prelude::*;

use crate::json::{json_text, lemma_view_of_array, views_of, Json, JsonView};
use crate::message::fields::{
    as_bool, as_opt_u32, as_text, as_texts, bool_at, opt_u32_at, text_at, texts_at,
};
use crate::text::str_eq;

pub mod compiler_message;
pub mod fields;
pub mod package_id;
pub mod target;

pub use self::compiler_message::CompilerMessage;
pub use self::fields::DecodeError;
pub use self::package_id::PackageId;
pub use self::target::{Edition, Target};

verus! {

/// One record of the stream, told apart by its `reason`.
#[derive(Debug)]
pub enum Message {
    /// `compiler-message`: a diagnostic.
    FromCompiler(FromCompiler),
    /// `compiler-artifact`: something was built.
    Artifact(Artifact),
    /// `build-script-executed`: a build script ran.
    BuildScript(BuildScript),
    /// A record with any other reason.
    Other,
}

/// A diagnostic with the package and target it was reported for.
#[derive(Debug)]
pub struct FromCompiler {
    pub package_id: PackageId,
    pub target: Target,
    pub message: CompilerMessage,
}

/// The files that building a target produced.
#[derive(Debug, Clone)]
pub struct Artifact {
    pub package_id: PackageId,
    pub target: Target,
    pub profile: ArtifactProfile,
    pub features: Vec<String>,
    pub filenames: Vec<String>,
    pub fresh: bool,
}

/// The settings an artifact was built with.
#[derive(Debug, Clone)]
pub struct ArtifactProfile {
    pub opt_level: String,
    pub debuginfo: Option<u32>,
    pub debug_assertions: bool,
    pub overflow_checks: bool,
    pub test: bool,
}

/// What a build script asked of the build.
#[derive(Debug, Clone)]
pub struct BuildScript {
    pub package_id: PackageId,
    pub linked_libs: Vec<String>,
    pub linked_paths: Vec<String>,
    pub cfgs: Vec<String>,
    pub env: Vec<(String, String)>,
}

/// Whether every item is a list of exactly two texts.
pub open spec fn all_pairs(items: Seq<JsonView>) -> bool {
    forall|i: int| 0 <= i < items.len() ==> is_pair(#[trigger] items[i])
}

/// The pairs of texts that the items hold.
pub open spec fn pairs_of(items: Seq<JsonView>) -> Seq<(Seq<char>, Seq<char>)> {
    Seq::new(items.len(), |i: int| (items[i]->Array_0[0]->Text_0, items[i]->Array_0[1]->Text_0))
}

/// A required list of pairs of texts.
pub open spec fn as_pairs(v: Option<JsonView>) -> Option<Seq<(Seq<char>, Seq<char>)>> {
    match v {
        Some(JsonView::Array(items)) => if all_pairs(items) {
            Some(pairs_of(items))
        } else {
            None
        },
        _ => None,
    }
}

/// Whether the item is a list of exactly two texts.
pub open spec fn is_pair(item: JsonView) -> bool {
    &&& item matches JsonView::Array(pair)
    &&& pair.len() == 2
    &&& pair[0] is Text
    &&& pair[1] is Text
}

/// Copies the pairs out of a list of items, if all of them are pairs of texts.
fn pairs_in(items: &Vec<Json>) -> (r: Option<Vec<(String, String)>>)
    ensures
        match r {
            Some(v) => all_pairs(views_of(items@)) && v.deep_view() == pairs_of(views_of(items@)),
            None => !all_pairs(views_of(items@)),
        },
{
    let mut out: Vec<(String, String)> = Vec::new();
    let mut i: usize = 0;
    while i < items.len()
        invariant
            i <= items@.len(),
            out@.len() == i,
            forall|k: int| 0 <= k < i ==> is_pair(#[trigger] views_of(items@)[k]),
            forall|k: int|
                0 <= k < i ==> (#[trigger] out@[k]).deep_view() == pairs_of(views_of(items@))[k],
        decreases items@.len() - i,
    {
        assert(views_of(items@)[i as int] == items@[i as int]@);
        match &items[i] {
            Json::Array(pair) => {
                proof {
                    lemma_view_of_array(*pair);
                }
                if pair.len() != 2 {
                    return None;
                }
                assert(views_of(pair@)[0] == pair@[0]@);
                assert(views_of(pair@)[1] == pair@[1]@);
                match (&pair[0], &pair[1]) {
                    (Json::Text(a), Json::Text(b)) => out.push((a.clone(), b.clone())),
                    _ => {
                        return None;
                    },
                }
            },
            _ => {
                return None;
            },
        }
        i += 1;
    }
    assert(out.deep_view() =~= pairs_of(views_of(items@)));
    Some(out)
}

/// Reads the member `key` as a list of pairs of texts.
fn pairs_at(j: &Json, key: &str) -> (r: Result<Vec<(String, String)>, DecodeError>)
    ensures
        match r {
            Ok(v) => as_pairs(j@.member(key@)) == Some(v.deep_view()),
            Err(e) => e == DecodeError::Schema && as_pairs(j@.member(key@)) is None,
        },
{
    match j.get(key) {
        Some(Json::Array(items)) => {
            proof {
                lemma_view_of_array(*items);
            }
            match pairs_in(items) {
                Some(v) => Ok(v),
                None => Err(DecodeError::Schema),
            }
        },
        _ => Err(DecodeError::Schema),
    }
}

impl ArtifactProfile {
    /// Whether this profile is what the document `j` decodes to.
    pub open spec fn decoded_from(self, j: JsonView) -> bool {
        &&& as_text(j.member("opt_level"@)) == Some(self.opt_level@)
        &&& as_opt_u32(j.member("debuginfo"@)) == Some(self.debuginfo)
        &&& as_bool(j.member("debug_assertions"@)) == Some(self.debug_assertions)
        &&& as_bool(j.member("overflow_checks"@)) == Some(self.overflow_checks)
        &&& as_bool(j.member("test"@)) == Some(self.test)
    }

    /// Decodes a profile from an object. All members but `debuginfo` are
    /// required.
    pub fn deserialize(j: &Json) -> (r: Result<Self, DecodeError>)
        ensures
            match r {
                Ok(profile) => profile.decoded_from(j@),
                Err(e) => e == DecodeError::Schema && forall|p: Self| !p.decoded_from(j@),
            },
    {
        let opt_level = text_at(j, "opt_level")?;
        let debuginfo = opt_u32_at(j, "debuginfo")?;
        let debug_assertions = bool_at(j, "debug_assertions")?;
        let overflow_checks = bool_at(j, "overflow_checks")?;
        let test = bool_at(j, "test")?;
        Ok(ArtifactProfile { opt_level, debuginfo, debug_assertions, overflow_checks, test })
    }
}

impl FromCompiler {
    /// Whether this record is what the document `j` decodes to.
    pub open spec fn decoded_from(self, j: JsonView) -> bool {
        &&& j.member("package_id"@) matches Some(p) && self.package_id.decoded_from(p)
        &&& j.member("target"@) matches Some(t) && self.target.decoded_from(t)
        &&& j.member("message"@) matches Some(m) && self.message.decoded_from(m)
    }

    /// Decodes a diagnostic record from an object with the members
    /// `package_id`, `target` and `message`.
    pub fn deserialize(j: &Json) -> (r: Result<Self, DecodeError>)
        ensures
            match r {
                Ok(record) => record.decoded_from(j@),
                Err(e) => e == DecodeError::Schema && forall|f: Self| !f.decoded_from(j@),
            },
    {
        let package_id = match j.get("package_id") {
            Some(p) => PackageId::deserialize(p)?,
            None => {
                return Err(DecodeError::Schema);
            },
        };
        let target = match j.get("target") {
            Some(t) => Target::deserialize(t)?,
            None => {
                return Err(DecodeError::Schema);
            },
        };
        let message = match j.get("message") {
            Some(m) => CompilerMessage::deserialize(m)?,
            None => {
                return Err(DecodeError::Schema);
            },
        };
        Ok(FromCompiler { package_id, target, message })
    }
}

impl Artifact {
    /// Whether this record is what the document `j` decodes to.
    pub open spec fn decoded_from(self, j: JsonView) -> bool {
        &&& j.member("package_id"@) matches Some(p) && self.package_id.decoded_from(p)
        &&& j.member("target"@) matches Some(t) && self.target.decoded_from(t)
        &&& j.member("profile"@) matches Some(p) && self.profile.decoded_from(p)
        &&& as_texts(j.member("features"@)) == Some(self.features.deep_view())
        &&& as_texts(j.member("filenames"@)) == Some(self.filenames.deep_view())
        &&& as_bool(j.member("fresh"@)) == Some(self.fresh)
    }

    /// Decodes an artifact record from an object; all six members are
    /// required.
    pub fn deserialize(j: &Json) -> (r: Result<Self, DecodeError>)
        ensures
            match r {
                Ok(record) => record.decoded_from(j@),
                Err(e) => e == DecodeError::Schema && forall|a: Self| !a.decoded_from(j@),
            },
    {
        let package_id = match j.get("package_id") {
            Some(p) => PackageId::deserialize(p)?,
            None => {
                return Err(DecodeError::Schema);
            },
        };
        let target = match j.get("target") {
            Some(t) => Target::deserialize(t)?,
            None => {
                return Err(DecodeError::Schema);
            },
        };
        let profile = match j.get("profile") {
            Some(p) => ArtifactProfile::deserialize(p)?,
            None => {
                return Err(DecodeError::Schema);
            },
        };
        let features = texts_at(j, "features")?;
        let filenames = texts_at(j, "filenames")?;
        let fresh = bool_at(j, "fresh")?;
        Ok(Artifact { package_id, target, profile, features, filenames, fresh })
    }
}

impl BuildScript {
    /// Whether this record is what the document `j` decodes to.
    pub open spec fn decoded_from(self, j: JsonView) -> bool {
        &&& j.member("package_id"@) matches Some(p) && self.package_id.decoded_from(p)
        &&& as_texts(j.member("linked_libs"@)) == Some(self.linked_libs.deep_view())
        &&& as_texts(j.member("linked_paths"@)) == Some(self.linked_paths.deep_view())
        &&& as_texts(j.member("cfgs"@)) == Some(self.cfgs.deep_view())
        &&& as_pairs(j.member("env"@)) == Some(self.env.deep_view())
    }

    /// Decodes a build-script record from an object; all five members are
    /// required.
    pub fn deserialize(j: &Json) -> (r: Result<Self, DecodeError>)
        ensures
            match r {
                Ok(record) => record.decoded_from(j@),
                Err(e) => e == DecodeError::Schema && forall|b: Self| !b.decoded_from(j@),
            },
    {
        let package_id = match j.get("package_id") {
            Some(p) => PackageId::deserialize(p)?,
            None => {
                return Err(DecodeError::Schema);
            },
        };
        let linked_libs = texts_at(j, "linked_libs")?;
        let linked_paths = texts_at(j, "linked_paths")?;
        let cfgs = texts_at(j, "cfgs")?;
        let env = pairs_at(j, "env")?;
        Ok(BuildScript { package_id, linked_libs, linked_paths, cfgs, env })
    }
}

impl Message {
    /// Whether this record is what the document `j` decodes to. The text
    /// member `reason` selects the kind; a reason that is none of the three
    /// known ones gives `Other`, whatever else the object holds.
    pub open spec fn decoded_from(self, j: JsonView) -> bool {
        match as_text(j.member("reason"@)) {
            Some(reason) => if reason == "compiler-message"@ {
                self matches Message::FromCompiler(record) && record.decoded_from(j)
            } else if reason == "compiler-artifact"@ {
                self matches Message::Artifact(record) && record.decoded_from(j)
            } else if reason == "build-script-executed"@ {
                self matches Message::BuildScript(record) && record.decoded_from(j)
            } else {
                self is Other
            },
            None => false,
        }
    }

    /// Whether the document `j` decodes to some record.
    pub open spec fn decodable(j: JsonView) -> bool {
        exists|m: Message| m.decoded_from(j)
    }

    /// A record that the document `j` decodes to, where there is one.
    pub open spec fn decoding(j: JsonView) -> Message {
        choose|m: Message| m.decoded_from(j)
    }

    /// What is wrong with a line that should be a record: `Syntax` where it
    /// is no JSON document, `Schema` where the document decodes to no record,
    /// and nothing where it is a record.
    pub open spec fn line_fault(line: Seq<char>) -> Option<DecodeError> {
        match json_text(line) {
            None => Some(DecodeError::Syntax),
            Some(j) => if Self::decodable(j) {
                None
            } else {
                Some(DecodeError::Schema)
            },
        }
    }

    /// Decodes one line of text: parses it as JSON and decodes the document.
    pub fn parse(line: &str) -> (r: Result<Self, DecodeError>)
        ensures
            match r {
                Ok(record) => Self::line_fault(line@) is None && record.decoded_from(
                    json_text(line@)->0,
                ),
                Err(e) => Self::line_fault(line@) == Some(e),
            },
    {
        match Json::parse(line) {
            Some(tree) => Self::deserialize(&tree),
            None => Err(DecodeError::Syntax),
        }
    }

    /// Decodes a record from an object whose member `reason` is a text.
    pub fn deserialize(j: &Json) -> (r: Result<Self, DecodeError>)
        ensures
            match r {
                Ok(record) => record.decoded_from(j@),
                Err(e) => e == DecodeError::Schema && !Self::decodable(j@),
            },
    {
        let reason = match j.get("reason") {
            Some(Json::Text(reason)) => reason,
            _ => {
                return Err(DecodeError::Schema);
            },
        };
        if str_eq(reason.as_str(), "compiler-message") {
            Ok(Message::FromCompiler(FromCompiler::deserialize(j)?))
        } else if str_eq(reason.as_str(), "compiler-artifact") {
            Ok(Message::Artifact(Artifact::deserialize(j)?))
        } else if str_eq(reason.as_str(), "build-script-executed") {
            Ok(Message::BuildScript(BuildScript::deserialize(j)?))
        } else {
            Ok(Message::Other)
        }
    }
}

} // verus!
