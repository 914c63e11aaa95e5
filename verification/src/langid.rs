//! Language identifiers, held as their canonical text and language subtag.
use unic_langid::LanguageIdentifier;
use vstd::prelude::*;

verus! {

/// What parsing `s` as a BCP 47 language identifier gives: its canonical
/// text and its language subtag, or nothing when `s` is not one.
pub uninterp spec fn parsed_language_identifier(s: Seq<char>) -> Option<(Seq<char>, Seq<char>)>;

/// Calls `LanguageIdentifier::from_str` on `s`; on success hands back the
/// identifier's `Display` text and the text of its language subtag. The
/// contract claims only that the outcome is the one named by
/// `parsed_language_identifier` for these characters.
#[verifier::external_body]
fn parse_language_identifier(s: &str) -> (res: Option<(String, String)>)
    ensures
        match res {
            Some(p) => parsed_language_identifier(s@) == Some((p.0@, p.1@)),
            None => parsed_language_identifier(s@) is None,
        },
{
    match s.parse::<LanguageIdentifier>() {
        Ok(id) => Some((id.to_string(), id.language.as_str().to_string())),
        Err(_) => None,
    }
}

/// A language identifier such as `en-US`.
///
/// It is kept as its canonical text together with its language subtag. Two
/// identifiers are the same exactly when their canonical texts are: the
/// text lists language, script, region and variants in a fixed order with
/// fixed casing, so it determines all of them.
pub struct LangId {
    tag: String,
    language: String,
}

impl View for LangId {
    type V = (Seq<char>, Seq<char>);

    closed spec fn view(&self) -> (Seq<char>, Seq<char>) {
        (self.tag@, self.language@)
    }
}

impl Clone for LangId {
    fn clone(&self) -> (res: Self)
        ensures
            res@ == self@,
    {
        LangId { tag: self.tag.clone(), language: self.language.clone() }
    }
}

impl LangId {
    /// The canonical text, such as `en-US`.
    pub open spec fn tag(&self) -> Seq<char> {
        self@.0
    }

    /// The language subtag, such as `en`.
    pub open spec fn language(&self) -> Seq<char> {
        self@.1
    }

    /// Parses a language identifier.
    pub fn parse(s: &str) -> (res: Option<LangId>)
        ensures
            match res {
                Some(id) => parsed_language_identifier(s@) == Some(id@),
                None => parsed_language_identifier(s@) is None,
            },
    {
        match parse_language_identifier(s) {
            Some((tag, language)) => Some(LangId { tag, language }),
            None => None,
        }
    }

    /// The identifier made of this one's language subtag alone, with no
    /// script, region or variants.
    pub fn language_only(&self) -> (res: LangId)
        ensures
            res.tag() == self.language(),
            res.language() == self.language(),
    {
        LangId { tag: self.language.clone(), language: self.language.clone() }
    }

    /// The canonical text.
    pub fn to_text(&self) -> (res: String)
        ensures
            res@ == self.tag(),
    {
        self.tag.clone()
    }

    /// The canonical text, borrowed.
    pub fn tag_str(&self) -> (res: &String)
        ensures
            res@ == self.tag(),
    {
        &self.tag
    }

    /// Whether the two identifiers are equal: same canonical text and same
    /// language subtag.
    pub fn equals(&self, other: &LangId) -> (res: bool)
        ensures
            res == (self@ == other@),
    {
        self.tag == other.tag && self.language == other.language
    }

    /// Whether both stand for the same identifier.
    pub fn same_as(&self, other: &LangId) -> (res: bool)
        ensures
            res == (self.tag() == other.tag()),
    {
        self.tag == other.tag
    }
}

} // verus!
