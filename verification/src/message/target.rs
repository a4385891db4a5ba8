//! The build target that a record is about.

use vstd::prelude::*;

use crate::json::{Json, JsonView};
use crate::message::fields::{
    as_opt_texts, as_text, as_texts, opt_texts_at, text_at, texts_at, DecodeError,
};
use crate::text::str_eq;

verus! {

/// A library, binary, test or other target of a package.
#[derive(Debug, Clone)]
pub struct Target {
    pub kind: Vec<String>,
    pub name: String,
    pub src_path: String,
    pub crate_types: Vec<String>,
    pub edition: Edition,
    pub required_features: Option<Vec<String>>,
}

/// The language edition of a target.
#[derive(Debug, Clone, PartialEq, Eq)]
pub enum Edition {
    Edition2015,
    Edition2018,
    /// An edition that this library has no name for, kept as it was written.
    Other(String),
}

impl Edition {
    /// The name under which this edition is written.
    pub open spec fn label(self) -> Seq<char> {
        match self {
            Edition::Edition2015 => "2015"@,
            Edition::Edition2018 => "2018"@,
            Edition::Other(name) => name@,
        }
    }

    /// Whether `name` is one of the two names with a variant of their own.
    pub open spec fn is_known(name: Seq<char>) -> bool {
        name == "2015"@ || name == "2018"@
    }

    /// Whether this edition is the one that `name` is read as: its own
    /// variant for a known name, `Other` with the name unchanged for any other.
    pub open spec fn named(self, name: Seq<char>) -> bool {
        if name == "2015"@ {
            self is Edition2015
        } else if name == "2018"@ {
            self is Edition2018
        } else {
            self matches Edition::Other(kept) && kept@ == name
        }
    }

    /// Whether this edition is what the document `j` decodes to.
    pub open spec fn decoded_from(self, j: JsonView) -> bool {
        j matches JsonView::Text(name) && self.named(name)
    }

    /// Reads an edition from its name. No name is refused.
    pub fn from_name(name: &str) -> (edition: Self)
        ensures
            edition.named(name@),
    {
        if str_eq(name, "2015") {
            Edition::Edition2015
        } else if str_eq(name, "2018") {
            Edition::Edition2018
        } else {
            Edition::Other(name.to_owned())
        }
    }

    /// The name under which this edition is written.
    pub fn name(&self) -> (name: &str)
        ensures
            name@ == self.label(),
    {
        match self {
            Edition::Edition2015 => "2015",
            Edition::Edition2018 => "2018",
            Edition::Other(name) => name.as_str(),
        }
    }

    /// Decodes an edition: any text is one, nothing else is.
    pub fn deserialize(j: &Json) -> (r: Result<Self, DecodeError>)
        ensures
            match r {
                Ok(edition) => edition.decoded_from(j@),
                Err(e) => e == DecodeError::Schema && !(j@ is Text),
            },
    {
        match j {
            Json::Text(name) => Ok(Self::from_name(name.as_str())),
            _ => Err(DecodeError::Schema),
        }
    }

    /// Encodes this edition as the text of its name.
    pub fn serialize(&self) -> (j: Json)
        ensures
            j@ == JsonView::Text(self.label()),
    {
        Json::Text(self.name().to_owned())
    }
}

impl Target {
    /// Whether this target is what the document `j` decodes to.
    pub open spec fn decoded_from(self, j: JsonView) -> bool {
        &&& as_texts(j.member("kind"@)) == Some(self.kind.deep_view())
        &&& as_text(j.member("name"@)) == Some(self.name@)
        &&& as_text(j.member("src_path"@)) == Some(self.src_path@)
        &&& as_texts(j.member("crate_types"@)) == Some(self.crate_types.deep_view())
        &&& j.member("edition"@) matches Some(e) && self.edition.decoded_from(e)
        &&& as_opt_texts(j.member("required-features"@)) == Some(
            self.required_features.deep_view(),
        )
    }

    /// Decodes a target from an object. All members but `required-features`
    /// are required.
    pub fn deserialize(j: &Json) -> (r: Result<Self, DecodeError>)
        ensures
            match r {
                Ok(target) => target.decoded_from(j@),
                Err(e) => e == DecodeError::Schema && forall|t: Self| !t.decoded_from(j@),
            },
    {
        let kind = texts_at(j, "kind")?;
        let name = text_at(j, "name")?;
        let src_path = text_at(j, "src_path")?;
        let crate_types = texts_at(j, "crate_types")?;
        let edition = match j.get("edition") {
            Some(e) => Edition::deserialize(e)?,
            None => {
                return Err(DecodeError::Schema);
            },
        };
        let required_features = opt_texts_at(j, "required-features")?;
        Ok(Target { kind, name, src_path, crate_types, edition, required_features })
    }
}

/// Every name is read as an edition that is written as that same name.
pub proof fn lemma_edition_name_round_trip(edition: Edition, name: Seq<char>)
    requires
        edition.named(name),
    ensures
        edition.label() == name,
        !Edition::is_known(name) ==> edition is Other,
{
}

} // verus!
