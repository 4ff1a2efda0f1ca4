//! Display languages.

use vstd::prelude::*;

verus! {

/// The languages the interface can be shown in.
#[derive(Debug, Clone, Copy, PartialEq, Eq, Structural)]
pub enum Language {
    English,
    Italian,
    German,
}

impl Language {
    /// The locale key the language selects.
    pub fn key(&self) -> (k: &str)
        ensures
            self is English ==> k@ == "en"@,
            self is Italian ==> k@ == "it"@,
            self is German ==> k@ == "de"@,
    {
        match self {
            Language::English => "en",
            Language::Italian => "it",
            Language::German => "de",
        }
    }

    /// The language's own name, as shown in the language picker.
    pub fn name(&self) -> (n: &str)
        ensures
            self is English ==> n@ == "English"@,
            self is Italian ==> n@ == "Italian"@,
            self is German ==> n@ == "German"@,
    {
        match self {
            Language::English => "English",
            Language::Italian => "Italian",
            Language::German => "German",
        }
    }
}

} // verus!
