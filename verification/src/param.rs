//! Catalog of known model identifiers and their API path segments.

use vstd::prelude::*;

verus! {

/// A model identifier: a closed set of known models, plus an escape hatch
/// for arbitrary caller-supplied names.
#[derive(Clone, Debug)]
pub enum LanguageModel {
    Gemini1_0Pro,
    Gemini1_5Pro,
    Gemini1_5Flash,
    Gemini2_0FlashExp,
    Custom(String),
}

/// The canonical API path segment of a model identifier.
pub open spec fn spec_model_path(m: LanguageModel) -> Seq<char> {
    match m {
        LanguageModel::Gemini1_0Pro => "models/gemini-1.0-pro"@,
        LanguageModel::Gemini1_5Pro => "models/gemini-1.5-pro"@,
        LanguageModel::Gemini1_5Flash => "models/gemini-1.5-flash"@,
        LanguageModel::Gemini2_0FlashExp => "models/gemini-2.0-flash-exp"@,
        LanguageModel::Custom(s) => s@,
    }
}

/// The identifier a path string maps back to: one of the known models on an
/// exact match, `Custom` carrying the string unchanged otherwise.
pub open spec fn spec_model_of_path(s: String) -> LanguageModel {
    if s@ == "models/gemini-1.0-pro"@ {
        LanguageModel::Gemini1_0Pro
    } else if s@ == "models/gemini-1.5-pro"@ {
        LanguageModel::Gemini1_5Pro
    } else if s@ == "models/gemini-1.5-flash"@ {
        LanguageModel::Gemini1_5Flash
    } else if s@ == "models/gemini-2.0-flash-exp"@ {
        LanguageModel::Gemini2_0FlashExp
    } else {
        LanguageModel::Custom(s)
    }
}

impl LanguageModel {
    /// Renders the identifier to its canonical API path segment.
    pub fn to_path(&self) -> (r: String)
        ensures
            r@ == spec_model_path(*self),
    {
        match self {
            LanguageModel::Gemini1_0Pro => "models/gemini-1.0-pro".to_owned(),
            LanguageModel::Gemini1_5Pro => "models/gemini-1.5-pro".to_owned(),
            LanguageModel::Gemini1_5Flash => "models/gemini-1.5-flash".to_owned(),
            LanguageModel::Gemini2_0FlashExp => "models/gemini-2.0-flash-exp".to_owned(),
            LanguageModel::Custom(s) => s.clone(),
        }
    }
}

impl From<String> for LanguageModel {
    fn from(val: String) -> (r: Self)
        ensures
            r == spec_model_of_path(val),
    {
        if val == "models/gemini-1.0-pro".to_owned() {
            LanguageModel::Gemini1_0Pro
        } else if val == "models/gemini-1.5-pro".to_owned() {
            LanguageModel::Gemini1_5Pro
        } else if val == "models/gemini-1.5-flash".to_owned() {
            LanguageModel::Gemini1_5Flash
        } else if val == "models/gemini-2.0-flash-exp".to_owned() {
            LanguageModel::Gemini2_0FlashExp
        } else {
            LanguageModel::Custom(val)
        }
    }
}

impl vstd::std_specs::convert::FromSpecImpl<String> for LanguageModel {
    open spec fn obeys_from_spec() -> bool {
        true
    }

    open spec fn from_spec(val: String) -> Self {
        spec_model_of_path(val)
    }
}

impl Default for LanguageModel {
    /// The default model identifier.
    fn default() -> (r: Self)
        ensures
            r is Gemini2_0FlashExp,
    {
        LanguageModel::Gemini2_0FlashExp
    }
}

} // verus!
