//! Translations kept in shared state: a list of languages, a fallback
//! language, and lookups that fill in `{name}` parameters.
use crate::chars::{split_dots, split_path, views};
use crate::i18n::{apply_params, fill_params, opt_view, query_spec, Text};
use crate::langid::LangId;
use vstd::prelude::*;

verus! {

/// A language: its identifier and its texts.
pub struct Language {
    pub id: LangId,
    pub texts: Text,
}

/// The text that `path` names in `lang`, or the empty string, with the
/// parameters filled in.
pub open spec fn text_with_params(
    lang: Language,
    path: Seq<char>,
    params: Seq<(String, String)>,
) -> Seq<char> {
    let found = match query_spec(lang.texts, split_dots(path)).0 {
        Some(t) => t,
        None => Seq::empty(),
    };
    apply_params(found, params)
}

impl Language {
    /// Gets the text that the dotted `path` names (the empty string when
    /// there is none) with each parameter's first `{name}` replaced by its
    /// value.
    pub fn get_text(&self, path: &str, params: &Vec<(String, String)>) -> (res: Option<String>)
        ensures
            res matches Some(t) && t@ == text_with_params(*self, path@, params@),
    {
        let steps = split_path(path);
        assert(views(steps@).skip(0) =~= views(steps@));
        let (found, _) = self.texts.query(&steps, 0);
        let text = match found {
            Some(t) => t,
            None => String::new(),
        };
        Some(fill_params(text, params))
    }
}

/// The position of the first language of `langs` whose identifier's text is
/// `tag`.
pub open spec fn first_with(langs: Seq<Language>, tag: Seq<char>) -> Option<int>
    decreases langs.len(),
{
    if langs.len() == 0 {
        None
    } else if langs[0].id.tag() == tag {
        Some(0)
    } else {
        match first_with(langs.drop_first(), tag) {
            Some(i) => Some(i + 1),
            None => None,
        }
    }
}

proof fn lemma_first_with(langs: Seq<Language>, tag: Seq<char>, k: int)
    requires
        0 <= k <= langs.len(),
        forall|j: int| 0 <= j < k ==> (#[trigger] langs[j]).id.tag() != tag,
    ensures
        k < langs.len() && langs[k].id.tag() == tag ==> first_with(langs, tag) == Some(k),
        k == langs.len() ==> first_with(langs, tag) is None,
    decreases k,
{
    if k > 0 {
        let t = langs.drop_first();
        assert forall|j: int| 0 <= j < k - 1 implies (#[trigger] t[j]).id.tag() != tag by {
            assert(t[j] == langs[j + 1]);
        }
        assert(langs[0].id.tag() != tag);
        lemma_first_with(t, tag, k - 1);
        if k < langs.len() {
            assert(t[k - 1] == langs[k]);
        }
    }
}

/// The languages and the fallback language.
pub struct UseInitI18Data {
    pub fallback_language: LangId,
    pub languages: Vec<Language>,
}

/// The translation of `id` with parameters: from the first language whose
/// identifier is the selected one (empty when it has no such text); else
/// from the first whose identifier is the fallback; else `id` itself.
pub open spec fn shared_translation(
    data: UseInitI18Data,
    selected: LangId,
    id: Seq<char>,
    params: Seq<(String, String)>,
) -> Seq<char> {
    match first_with(data.languages@, selected.tag()) {
        Some(i) => text_with_params(data.languages@[i], id, params),
        None => match first_with(data.languages@, data.fallback_language.tag()) {
            Some(i) => text_with_params(data.languages@[i], id, params),
            None => id,
        },
    }
}

impl UseInitI18Data {
    /// The position of the first language whose identifier is `tag`.
    fn position_of(&self, tag: &LangId) -> (res: Option<usize>)
        ensures
            match res {
                Some(i) => first_with(self.languages@, tag.tag()) == Some(i as int) && i
                    < self.languages@.len(),
                None => first_with(self.languages@, tag.tag()) is None,
            },
    {
        let n = self.languages.len();
        let mut k: usize = 0;
        while k < n
            invariant
                n == self.languages@.len(),
                k <= n,
                forall|j: int| 0 <= j < k ==> (#[trigger] self.languages@[j]).id.tag() != tag.tag(),
            decreases n - k,
        {
            if self.languages[k].id.same_as(tag) {
                proof {
                    lemma_first_with(self.languages@, tag.tag(), k as int);
                }
                return Some(k);
            }
            k = k + 1;
        }
        proof {
            lemma_first_with(self.languages@, tag.tag(), k as int);
        }
        None
    }

    /// Translates `id` for the selected language with parameters.
    pub fn t_p(&self, selected_language: &LangId, id: &str, params: &Vec<(String, String)>) -> (res:
        String)
        ensures
            res@ == shared_translation(*self, *selected_language, id@, params@),
    {
        if let Some(i) = self.position_of(selected_language) {
            return match self.languages[i].get_text(id, params) {
                Some(t) => t,
                None => String::new(),
            };
        }
        if let Some(i) = self.position_of(&self.fallback_language) {
            return match self.languages[i].get_text(id, params) {
                Some(t) => t,
                None => String::new(),
            };
        }
        String::from_str(id)
    }

    /// Translates `id` for the selected language, with no parameters.
    pub fn t(&self, selected_language: &LangId, id: &str) -> (res: String)
        ensures
            res@ == shared_translation(*self, *selected_language, id@, Seq::empty()),
    {
        let params: Vec<(String, String)> = Vec::new();
        assert(params@ =~= Seq::<(String, String)>::empty());
        self.t_p(selected_language, id, &params)
    }
}

} // verus!
