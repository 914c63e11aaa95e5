//! Translations: nested text tables per language, looked up by dotted ids,
//! with a fallback language or a map of fallback lists per language.
use crate::chars::{
    join_dots, join_path_from, replace_first, replace_first_spec, split_dots, split_path, views,
};
use crate::keymap::{
    find_key, first_key_index, keys_of, lemma_first_key_index, keys_unique, lemma_entries_map_at, lemma_entries_map_dom,
    KeyMap,
};
use crate::langid::{parsed_language_identifier, LangId};
use vstd::prelude::*;

verus! {

/// A text value, or a table of nested texts keyed by id step.
pub enum Text {
    Value(String),
    Texts(Vec<(String, Text)>),
}

/// Optional strings as character sequences.
pub open spec fn opt_view(o: Option<String>) -> Option<Seq<char>> {
    match o {
        Some(s) => Some(s@),
        None => None,
    }
}

/// Looking up the remaining id `steps` in `t`: the text found, and the steps
/// left unconsumed afterwards.
///
/// A table takes the first step as a key and looks the rest up in the entry
/// found there; when that finds nothing, it looks up what is left of the
/// steps in the entry whose key is the whole remaining path joined with dots.
pub open spec fn query_spec(t: Text, steps: Seq<Seq<char>>) -> (
    Option<Seq<char>>,
    Seq<Seq<char>>,
)
    decreases t,
{
    match t {
        Text::Value(v) => (Some(v@), steps),
        Text::Texts(m) => {
            if steps.len() == 0 {
                (None, steps)
            } else {
                let rest = steps.drop_first();
                match first_key_index(m@, steps[0]) {
                    Some(i) => {
                        if 0 <= i < m@.len() {
                            proof {
                                assert(decreases_to!(t => m@[i].1));
                            }
                            let (res, after) = query_spec(m@[i].1, rest);
                            if res is None {
                                match first_key_index(m@, join_dots(steps)) {
                                    Some(j) => {
                                        if 0 <= j < m@.len() {
                                            proof {
                                                assert(decreases_to!(t => m@[j].1));
                                            }
                                            query_spec(m@[j].1, after)
                                        } else {
                                            (None, after)
                                        }
                                    },
                                    None => (None, after),
                                }
                            } else {
                                (res, after)
                            }
                        } else {
                            (None, rest)
                        }
                    },
                    None => (None, rest),
                }
            }
        },
    }
}

/// Every table in `t`, at every depth, has distinct keys.
pub open spec fn text_well_formed(t: Text) -> bool
    decreases t,
{
    match t {
        Text::Value(_) => true,
        Text::Texts(m) => keys_unique(m@) && forall|i: int|
            0 <= i < m@.len() ==> text_well_formed(#[trigger] m@[i].1),
    }
}

/// Index arithmetic on the suffixes of a step list.
proof fn lemma_skip_step(steps: Seq<Seq<char>>, pos: int)
    requires
        0 <= pos < steps.len(),
    ensures
        steps.skip(pos).len() > 0,
        steps.skip(pos)[0] == steps[pos],
        steps.skip(pos).drop_first() == steps.skip(pos + 1),
{
    assert(steps.skip(pos).drop_first() =~= steps.skip(pos + 1));
}

impl Text {
    /// Whether every table in this text, at every depth, has distinct keys.
    #[verifier::loop_isolation(false)]
    pub fn is_well_formed(&self) -> (res: bool)
        ensures
            res == text_well_formed(*self),
        decreases self,
    {
        match self {
            Text::Value(_) => true,
            Text::Texts(m) => {
                let n = m.len();
                let mut i: usize = 0;
                while i < n
                    invariant
                        i <= n,
                        forall|a: int, b: int|
                            0 <= a < i && 0 <= b < n && a != b ==> m@[a].0@ != m@[b].0@,
                    decreases n - i,
                {
                    let mut j: usize = 0;
                    while j < n
                        invariant
                            i < n,
                            j <= n,
                            forall|a: int, b: int|
                                0 <= a < i && 0 <= b < n && a != b ==> m@[a].0@ != m@[b].0@,
                            forall|b: int| 0 <= b < j && b != i ==> m@[i as int].0@ != m@[b].0@,
                        decreases n - j,
                    {
                        if j != i && m[i].0 == m[j].0 {
                            assert(!keys_unique(m@));
                            return false;
                        }
                        j = j + 1;
                    }
                    i = i + 1;
                }
                assert(keys_unique(m@));
                let mut k: usize = 0;
                while k < n
                    invariant
                        k <= n,
                        keys_unique(m@),
                        forall|c: int| 0 <= c < k ==> text_well_formed(#[trigger] m@[c].1),
                    decreases n - k,
                {
                    proof {
                        assert(decreases_to!(*self => m@[k as int].1));
                    }
                    if !m[k].1.is_well_formed() {
                        return false;
                    }
                    k = k + 1;
                }
                true
            },
        }
    }

    #[verifier::rlimit(100)]
    /// Looks up `steps[pos..]` in this text; gives back the text found and
    /// the position of the first step left unconsumed.
    pub fn query(&self, steps: &Vec<String>, pos: usize) -> (res: (Option<String>, usize))
        requires
            pos <= steps@.len(),
        ensures
            pos <= res.1 <= steps@.len(),
            query_spec(*self, views(steps@).skip(pos as int)) == (opt_view(res.0), views(
                steps@,
            ).skip(res.1 as int)),
        decreases self,
    {
        let ghost vs = views(steps@);
        match self {
            Text::Value(v) => (Some(v.clone()), pos),
            Text::Texts(m) => {
                let ghost s = vs.skip(pos as int);
                if pos == steps.len() {
                    assert(s.len() == 0);
                    return (None, pos);
                }
                proof {
                    lemma_skip_step(vs, pos as int);
                    assert(vs[pos as int] == steps@[pos as int]@);
                }
                let current_path = join_path_from(steps, pos);
                match find_key(m, &steps[pos]) {
                    None => {
                        assert(query_spec(*self, s) == (None::<Seq<char>>, vs.skip(pos + 1)));
                        (None, pos + 1)
                    },
                    Some(i) => {
                        proof {
                            assert(decreases_to!(*self => m@[i as int].1));
                        }
                        let (res, after) = m[i].1.query(steps, pos + 1);
                        if res.is_none() {
                            match find_key(m, &current_path) {
                                Some(j) => {
                                    proof {
                                        assert(decreases_to!(*self => m@[j as int].1));
                                    }
                                    let r = m[j].1.query(steps, after);
                                    assert(query_spec(*self, s) == query_spec(
                                        m@[j as int].1,
                                        vs.skip(after as int),
                                    ));
                                    r
                                },
                                None => {
                                    assert(query_spec(*self, s) == (
                                        None::<Seq<char>>,
                                        vs.skip(after as int),
                                    ));
                                    (None, after)
                                },
                            }
                        } else {
                            assert(query_spec(*self, s) == (opt_view(res), vs.skip(after as int)));
                            (res, after)
                        }
                    },
                }
            },
        }
    }
}

/// `t` holds the value `v` under the keys `keys` at successive levels: each
/// key names, in the table it is looked up in, the first entry carrying it,
/// the entries on the way are tables, and the last one is the value `v`.
pub open spec fn holds_at(t: Text, keys: Seq<Seq<char>>, v: Seq<char>) -> bool
    decreases keys.len(),
{
    match t {
        Text::Value(x) => keys.len() == 0 && x@ == v,
        Text::Texts(m) => keys.len() > 0 && exists|i: int|
            0 <= i < m@.len() && #[trigger] m@[i].0@ == keys[0] && (forall|j: int|
                0 <= j < i ==> m@[j].0@ != keys[0]) && holds_at(m@[i].1, keys.drop_first(), v),
    }
}

/// A value nested under keys at any depth is found by looking those keys up
/// one after the other, and every key is used up.
pub proof fn lemma_query_finds_nested(t: Text, keys: Seq<Seq<char>>, v: Seq<char>)
    requires
        holds_at(t, keys, v),
    ensures
        query_spec(t, keys) == (Some(v), Seq::<Seq<char>>::empty()),
    decreases keys.len(),
{
    match t {
        Text::Value(x) => {
            assert(keys =~= Seq::<Seq<char>>::empty());
        },
        Text::Texts(m) => {
            let i = choose|i: int|
                0 <= i < m@.len() && #[trigger] m@[i].0@ == keys[0] && (forall|j: int|
                    0 <= j < i ==> m@[j].0@ != keys[0]) && holds_at(
                    m@[i].1,
                    keys.drop_first(),
                    v,
                );
            lemma_first_key_index(m@, keys[0], i);
            lemma_query_finds_nested(m@[i].1, keys.drop_first(), v);
        },
    }
}

/// A language's text for a dotted path is the value that its tables hold
/// under the path's pieces, however deep.
pub proof fn lemma_get_text_nested(lang: Language, path: Seq<char>, v: Seq<char>)
    requires
        holds_at(lang.texts, split_dots(path), v),
    ensures
        text_of(lang, path) == Some(v),
{
    lemma_query_finds_nested(lang.texts, split_dots(path), v);
}

/// A language: its identifier, optional display name and image, and texts.
pub struct Language {
    pub id: LangId,
    pub name: Option<String>,
    pub img: Option<String>,
    pub texts: Text,
}

/// The text that `path` names in `lang`: the path is split at its dots and
/// looked up in the language's texts.
pub open spec fn text_of(lang: Language, path: Seq<char>) -> Option<Seq<char>> {
    query_spec(lang.texts, split_dots(path)).0
}

impl Language {
    /// Gets the text that the dotted `path` names.
    pub fn get_text(&self, path: &str) -> (res: Option<String>)
        ensures
            opt_view(res) == text_of(*self, path@),
    {
        let steps = split_path(path);
        assert(views(steps@).skip(0) =~= views(steps@));
        let (res, _) = self.texts.query(&steps, 0);
        res
    }
}

/// Fallback lists per language, and the language to fall back to last.
///
/// A list is found under the selected language's full identifier, or else
/// under its language subtag alone (so `en` covers `en-US` and `en-GB`).
pub struct FallbackLanguageMap {
    pub default: LangId,
    pub map: KeyMap<Vec<LangId>>,
}

impl FallbackLanguageMap {
    /// Creates a fallback map.
    pub fn new(default: LangId, map: KeyMap<Vec<LangId>>) -> (res: Self)
        ensures
            res.default == default,
            res.map == map,
    {
        FallbackLanguageMap { default, map }
    }
}

/// Which languages to try when the selected one has no text for an id.
pub enum FallbackLanguage {
    Single(LangId),
    Mapping(FallbackLanguageMap),
}

/// The languages known by identifier, with the fallback rule.
pub struct I18Data {
    pub fallback_language: FallbackLanguage,
    pub languages: KeyMap<Language>,
}

/// The languages of `list` keyed by identifier; a later language replaces an
/// earlier one with the same identifier.
pub open spec fn languages_map(list: Seq<Language>) -> Map<Seq<char>, Language>
    decreases list.len(),
{
    if list.len() == 0 {
        Map::empty()
    } else {
        languages_map(list.drop_last()).insert(list.last().id.tag(), list.last())
    }
}

/// The text for `path` in the language known as `tag`, if there is one.
pub open spec fn text_in(langs: Map<Seq<char>, Language>, tag: Seq<char>, path: Seq<char>) -> Option<
    Seq<char>,
> {
    if langs.contains_key(tag) {
        text_of(langs[tag], path)
    } else {
        None
    }
}

/// The text for `path` in the first language of `list` that has one.
pub open spec fn first_text_in(
    langs: Map<Seq<char>, Language>,
    list: Seq<LangId>,
    path: Seq<char>,
) -> Option<Seq<char>>
    decreases list.len(),
{
    if list.len() == 0 {
        None
    } else {
        match text_in(langs, list[0].tag(), path) {
            Some(t) => Some(t),
            None => first_text_in(langs, list.drop_first(), path),
        }
    }
}

/// The fallback list for `selected`: the one under its full identifier,
/// else the one under its language subtag.
pub open spec fn fallback_list(m: FallbackLanguageMap, selected: LangId) -> Option<Seq<LangId>> {
    if m.map@.contains_key(selected.tag()) {
        Some(m.map@[selected.tag()]@)
    } else if m.map@.contains_key(selected.language()) {
        Some(m.map@[selected.language()]@)
    } else {
        None
    }
}

/// The translation of `id` for `selected`: its text in the selected
/// language; else in the fallback language (for a map: in the languages of
/// the selected one's fallback list in order, then in the default); else
/// `id` itself.
pub open spec fn translation(data: I18Data, id: Seq<char>, selected: LangId) -> Seq<char> {
    let langs = data.languages@;
    match text_in(langs, selected.tag(), id) {
        Some(t) => t,
        None => match data.fallback_language {
            FallbackLanguage::Single(l) => match text_in(langs, l.tag(), id) {
                Some(t) => t,
                None => id,
            },
            FallbackLanguage::Mapping(m) => {
                let from_list = match fallback_list(m, selected) {
                    Some(list) => first_text_in(langs, list, id),
                    None => None,
                };
                match from_list {
                    Some(t) => t,
                    None => match text_in(langs, m.default.tag(), id) {
                        Some(t) => t,
                        None => id,
                    },
                }
            },
        },
    }
}

/// The text that occurs first in a list is what `first_text_in` finds.
proof fn lemma_first_text_in(
    langs: Map<Seq<char>, Language>,
    list: Seq<LangId>,
    path: Seq<char>,
    k: int,
)
    requires
        0 <= k <= list.len(),
        forall|j: int| 0 <= j < k ==> text_in(langs, #[trigger] list[j].tag(), path) is None,
    ensures
        k < list.len() && text_in(langs, list[k].tag(), path) is Some ==> first_text_in(
            langs,
            list,
            path,
        ) == text_in(langs, list[k].tag(), path),
        k == list.len() ==> first_text_in(langs, list, path) is None,
    decreases k,
{
    if k > 0 {
        let t = list.drop_first();
        assert forall|j: int| 0 <= j < k - 1 implies text_in(langs, #[trigger] t[j].tag(), path)
            is None by {
            assert(t[j] == list[j + 1]);
        }
        assert(text_in(langs, list[0].tag(), path) is None);
        lemma_first_text_in(langs, t, path, k - 1);
        if k < list.len() {
            assert(t[k - 1] == list[k]);
        }
    }
}

/// The string `{name}`.
pub open spec fn placeholder(name: Seq<char>) -> Seq<char> {
    seq!['{'] + name + seq!['}']
}

/// `text` after each parameter in turn has replaced the first `{name}` in it
/// by its value.
pub open spec fn apply_params(text: Seq<char>, params: Seq<(String, String)>) -> Seq<char>
    decreases params.len(),
{
    if params.len() == 0 {
        text
    } else {
        apply_params(
            replace_first_spec(text, placeholder(params[0].0@), params[0].1@),
            params.drop_first(),
        )
    }
}

/// Replaces, for each parameter in order, the first `{name}` in `text` by the
/// parameter's value.
pub fn fill_params(text: String, params: &Vec<(String, String)>) -> (res: String)
    ensures
        res@ == apply_params(text@, params@),
{
    let ghost original = text@;
    let mut text = text;
    let mut k: usize = 0;
    assert(params@.skip(0) =~= params@);
    while k < params.len()
        invariant
            k <= params@.len(),
            apply_params(original, params@) == apply_params(text@, params@.skip(k as int)),
        decreases params.len() - k,
    {
        let mut pattern = String::from_str("{");
        pattern.append(params[k].0.as_str());
        pattern.append("}");
        proof {
            reveal_strlit("{");
            reveal_strlit("}");
            assert(pattern@ =~= placeholder(params@[k as int].0@));
            assert(params@.skip(k as int).drop_first() =~= params@.skip(k + 1));
            assert(params@.skip(k as int)[0] == params@[k as int]);
        }
        text = replace_first(text.as_str(), pattern.as_str(), params[k].1.as_str());
        k = k + 1;
    }
    assert(params@.skip(k as int) =~= Seq::<(String, String)>::empty());
    text
}

impl I18Data {
    /// Creates the data from the fallback rule and the languages; a later
    /// language replaces an earlier one with the same identifier.
    pub fn new(fallback_language: FallbackLanguage, languages: Vec<Language>) -> (res: Self)
        ensures
            res.fallback_language == fallback_language,
            res.languages@ == languages_map(languages@),
    {
        let ghost orig = languages@;
        let mut rest = languages;
        let mut map: KeyMap<Language> = KeyMap::new();
        let n = rest.len();
        let mut c: usize = 0;
        assert(orig.take(0) =~= Seq::<Language>::empty());
        assert(orig.skip(0) =~= orig);
        while c < n
            invariant
                n == orig.len(),
                c <= n,
                rest@ == orig.skip(c as int),
                map@ == languages_map(orig.take(c as int)),
            decreases n - c,
        {
            let lang = rest.remove(0);
            let key = lang.id.to_text();
            map.insert(key, lang);
            proof {
                assert(orig.take(c + 1).drop_last() =~= orig.take(c as int));
                assert(orig.take(c + 1).last() == orig[c as int]);
                assert(rest@ =~= orig.skip(c + 1));
            }
            c = c + 1;
        }
        assert(orig.take(n as int) =~= orig);
        I18Data { fallback_language, languages: map }
    }

    /// The text for `id` in the language known as `tag`.
    fn text_from(&self, tag: &String, id: &str) -> (res: Option<String>)
        ensures
            opt_view(res) == text_in(self.languages@, tag@, id@),
    {
        match self.languages.get(tag) {
            Some(language) => language.get_text(id),
            None => None,
        }
    }

    /// Gets the text for `id`, preferably from the selected language; if it
    /// has none, from the fallback languages; otherwise gives back `id`.
    pub fn translate(&self, id: &str, selected_language: &LangId) -> (res: String)
        ensures
            res@ == translation(*self, id@, *selected_language),
    {
        if let Some(text) = self.text_from(selected_language.tag_str(), id) {
            return text;
        }
        match &self.fallback_language {
            FallbackLanguage::Single(lang) => {
                if let Some(text) = self.text_from(lang.tag_str(), id) {
                    return text;
                }
            },
            FallbackLanguage::Mapping(fallback) => {
                let partial = selected_language.language_only();
                let list = match fallback.map.get(selected_language.tag_str()) {
                    Some(l) => Some(l),
                    None => fallback.map.get(partial.tag_str()),
                };
                assert(list matches Some(l) ==> fallback_list(*fallback, *selected_language) == Some(l@));
                assert(list is None ==> fallback_list(*fallback, *selected_language) is None);
                if let Some(list) = list {
                    let mut k: usize = 0;
                    #[verifier::loop_isolation(false)]
                    while k < list.len()
                        invariant
                            k <= list@.len(),
                            forall|j: int|
                                0 <= j < k ==> text_in(
                                    self.languages@,
                                    #[trigger] list@[j].tag(),
                                    id@,
                                ) is None,
                        decreases list.len() - k,
                    {
                        if let Some(text) = self.text_from(list[k].tag_str(), id) {
                            proof {
                                lemma_first_text_in(self.languages@, list@, id@, k as int);
                            }
                            return text;
                        }
                        k = k + 1;
                    }
                    proof {
                        lemma_first_text_in(self.languages@, list@, id@, k as int);
                    }
                }
                if let Some(text) = self.text_from(fallback.default.tag_str(), id) {
                    return text;
                }
            },
        }
        String::from_str(id)
    }
}

/// A text the selected language has for an id is its translation.
pub proof fn lemma_translation_prefers_selected(data: I18Data, id: Seq<char>, selected: LangId)
    requires
        text_in(data.languages@, selected.tag(), id) is Some,
    ensures
        translation(data, id, selected) == text_in(data.languages@, selected.tag(), id)->0,
{
}

/// With a fallback table, when the selected language has no text for an id,
/// the list stored under the selected identifier's full text is the one
/// tried, in order: the first of its languages with a text gives the
/// translation.
pub proof fn lemma_translation_uses_full_list(
    data: I18Data,
    id: Seq<char>,
    selected: LangId,
    m: FallbackLanguageMap,
    k: int,
)
    requires
        data.fallback_language == FallbackLanguage::Mapping(m),
        text_in(data.languages@, selected.tag(), id) is None,
        m.map@.contains_key(selected.tag()),
        0 <= k < m.map@[selected.tag()]@.len(),
        text_in(data.languages@, m.map@[selected.tag()]@[k].tag(), id) is Some,
        forall|j: int|
            0 <= j < k ==> text_in(
                data.languages@,
                #[trigger] m.map@[selected.tag()]@[j].tag(),
                id,
            ) is None,
    ensures
        translation(data, id, selected) == text_in(
            data.languages@,
            m.map@[selected.tag()]@[k].tag(),
            id,
        )->0,
{
    lemma_first_text_in(data.languages@, m.map@[selected.tag()]@, id, k);
}

/// With a fallback table that has no list under the selected identifier's
/// full text, the list under its language subtag is the one tried, in
/// order, so `en` covers `en-US` and `en-GB`.
pub proof fn lemma_translation_uses_subtag_list(
    data: I18Data,
    id: Seq<char>,
    selected: LangId,
    m: FallbackLanguageMap,
    k: int,
)
    requires
        data.fallback_language == FallbackLanguage::Mapping(m),
        text_in(data.languages@, selected.tag(), id) is None,
        !m.map@.contains_key(selected.tag()),
        m.map@.contains_key(selected.language()),
        0 <= k < m.map@[selected.language()]@.len(),
        text_in(data.languages@, m.map@[selected.language()]@[k].tag(), id) is Some,
        forall|j: int|
            0 <= j < k ==> text_in(
                data.languages@,
                #[trigger] m.map@[selected.language()]@[j].tag(),
                id,
            ) is None,
    ensures
        translation(data, id, selected) == text_in(
            data.languages@,
            m.map@[selected.language()]@[k].tag(),
            id,
        )->0,
{
    lemma_first_text_in(data.languages@, m.map@[selected.language()]@, id, k);
}

/// With a single fallback language, when the selected language has no text
/// for an id, the fallback's text is the translation.
pub proof fn lemma_translation_uses_single_fallback(
    data: I18Data,
    id: Seq<char>,
    selected: LangId,
    fallback: LangId,
)
    requires
        data.fallback_language == FallbackLanguage::Single(fallback),
        text_in(data.languages@, selected.tag(), id) is None,
        text_in(data.languages@, fallback.tag(), id) is Some,
    ensures
        translation(data, id, selected) == text_in(data.languages@, fallback.tag(), id)->0,
{
}

/// When neither the selected language nor any fallback language has a text
/// for an id, the translation is the id itself.
pub proof fn lemma_translation_defaults_to_id(data: I18Data, id: Seq<char>, selected: LangId)
    requires
        text_in(data.languages@, selected.tag(), id) is None,
        match data.fallback_language {
            FallbackLanguage::Single(l) => text_in(data.languages@, l.tag(), id) is None,
            FallbackLanguage::Mapping(m) => text_in(data.languages@, m.default.tag(), id) is None
                && match fallback_list(m, selected) {
                Some(list) => forall|j: int|
                    0 <= j < list.len() ==> text_in(data.languages@, #[trigger] list[j].tag(), id)
                        is None,
                None => true,
            },
        },
    ensures
        translation(data, id, selected) == id,
{
    match data.fallback_language {
        FallbackLanguage::Single(_) => {},
        FallbackLanguage::Mapping(m) => {
            match fallback_list(m, selected) {
                Some(list) => {
                    lemma_first_text_in(data.languages@, list, id, list.len() as int);
                },
                None => {},
            }
        },
    }
}

/// One parameter replaces the first `{name}` in the text by its value.
pub proof fn lemma_apply_one_param(text: Seq<char>, p: (String, String))
    ensures
        apply_params(text, seq![p]) == replace_first_spec(text, placeholder(p.0@), p.1@),
{
    let r = replace_first_spec(text, placeholder(p.0@), p.1@);
    assert(seq![p].drop_first() =~= Seq::<(String, String)>::empty());
    assert(apply_params(r, Seq::<(String, String)>::empty()) == r);
}

/// Parameters are applied one after the other, each to the text the ones
/// before it produced: filling `a` then `b` is filling `a + b`.
pub proof fn lemma_apply_params_append(
    text: Seq<char>,
    a: Seq<(String, String)>,
    b: Seq<(String, String)>,
)
    ensures
        apply_params(text, a + b) == apply_params(apply_params(text, a), b),
    decreases a.len(),
{
    if a.len() == 0 {
        assert(a + b =~= b);
    } else {
        assert((a + b)[0] == a[0]);
        assert((a + b).drop_first() =~= a.drop_first() + b);
        lemma_apply_params_append(
            replace_first_spec(text, placeholder(a[0].0@), a[0].1@),
            a.drop_first(),
            b,
        );
    }
}

/// Translating with an empty parameter list gives the plain translation.
pub proof fn lemma_no_params(data: I18Data, id: Seq<char>, selected: LangId)
    ensures
        apply_params(translation(data, id, selected), Seq::empty()) == translation(
            data,
            id,
            selected,
        ),
{
}

/// The name a language is listed under: its display name, or else its
/// identifier's text.
pub open spec fn listed_name(lang: Language) -> Seq<char> {
    match lang.name {
        Some(n) => n@,
        None => lang.id.tag(),
    }
}

/// The image a language is listed with, or the empty string.
pub open spec fn listed_image(lang: Language) -> Seq<char> {
    match lang.img {
        Some(m) => m@,
        None => Seq::empty(),
    }
}

/// An item of the language list shows `lang`: its identifier, its listed
/// name and its listed image.
pub open spec fn listed_as(item: (LangId, String, String), lang: Language) -> bool {
    &&& item.0@ == lang.id@
    &&& item.1@ == listed_name(lang)
    &&& item.2@ == listed_image(lang)
}

/// `item` shows one of the languages stored in `langs`.
pub open spec fn shows_stored(langs: Map<Seq<char>, Language>, item: (LangId, String, String)) -> bool {
    exists|k: Seq<char>| langs.contains_key(k) && #[trigger] listed_as(item, langs[k])
}

impl I18Data {
    /// Lists every stored language once, as its identifier, name and image,
    /// in the order in which the languages were first stored.
    pub fn language_list(&self) -> (res: Vec<(LangId, String, String)>)
        ensures
            res@.len() == self.languages@.len(),
            forall|i: int|
                0 <= i < res@.len() ==> shows_stored(self.languages@, #[trigger] res@[i]),
            forall|k: Seq<char>|
                #![trigger self.languages@[k]]
                self.languages@.contains_key(k) ==> exists|i: int|
                    0 <= i < res@.len() && listed_as(#[trigger] res@[i], self.languages@[k]),
            res@.len() == self.languages.entries().len(),
            forall|i: int|
                0 <= i < res@.len() ==> {
                    let lang = #[trigger] self.languages.entries()[i].1;
                    &&& res@[i].0@ == lang.id@
                    &&& res@[i].1@ == listed_name(lang)
                    &&& res@[i].2@ == listed_image(lang)
                },
    {
        let mut res: Vec<(LangId, String, String)> = Vec::new();
        let n = self.languages.len();
        let mut i: usize = 0;
        while i < n
            invariant
                n == self.languages.entries().len(),
                i <= n,
                res@.len() == i,
                forall|j: int|
                    0 <= j < i ==> {
                        let lang = #[trigger] self.languages.entries()[j].1;
                        &&& res@[j].0@ == lang.id@
                        &&& res@[j].1@ == listed_name(lang)
                        &&& res@[j].2@ == listed_image(lang)
                    },
            decreases n - i,
        {
            let lang = &self.languages.entry_at(i).1;
            let name = match &lang.name {
                Some(n) => n.clone(),
                None => lang.id.to_text(),
            };
            let img = match &lang.img {
                Some(m) => m.clone(),
                None => String::new(),
            };
            res.push((lang.id.clone(), name, img));
            i = i + 1;
        }
        proof {
            let e = self.languages.entries();
            let m = self.languages@;
            assert forall|i: int| 0 <= i < res@.len() implies shows_stored(m, #[trigger] res@[i]) by {
                lemma_entries_map_at(e, i);
                let k = e[i].0@;
                assert(m.contains_key(k) && listed_as(res@[i], m[k]));
            }
            assert forall|k: Seq<char>| #[trigger] m.contains_key(k) implies exists|i: int|
                0 <= i < res@.len() && listed_as(#[trigger] res@[i], m[k]) by {
                lemma_entries_map_dom(e);
                assert(keys_of(e).to_set().contains(k));
                assert(keys_of(e).contains(k));
                let i = choose|i: int| 0 <= i < keys_of(e).len() && keys_of(e)[i] == k;
                assert(e[i].0@ == k);
                lemma_entries_map_at(e, i);
                assert(listed_as(res@[i], m[k]));
            }
        }
        res
    }

    /// Translates `id` for the selected language, then replaces each
    /// parameter's `{name}` placeholder by its value.
    pub fn translate_with_params(
        &self,
        id: &str,
        selected_language: &LangId,
        params: &Vec<(String, String)>,
    ) -> (res: String)
        ensures
            res@ == apply_params(translation(*self, id@, *selected_language), params@),
    {
        let text = self.translate(id, selected_language);
        fill_params(text, params)
    }

    /// Whether `lang` is the selected language.
    pub fn is_selected(selected_language: &LangId, lang: &LangId) -> (res: bool)
        ensures
            res == (selected_language@ == lang@),
    {
        selected_language.equals(lang)
    }
}

/// The selected language of a translation handle.
pub struct LanguageSelection {
    pub selected: LangId,
}

impl LanguageSelection {
    /// A selection of `selected`.
    pub fn new(selected: LangId) -> (res: Self)
        ensures
            res.selected == selected,
    {
        LanguageSelection { selected }
    }

    /// Changes the selected language to `id`.
    pub fn set_language(&mut self, id: LangId)
        ensures
            final(self).selected == id,
    {
        self.selected = id;
    }

    /// Whether `lang` is the selected language.
    pub fn is_selected(&self, lang: &LangId) -> (res: bool)
        ensures
            res == (self.selected@ == lang@),
    {
        I18Data::is_selected(&self.selected, lang)
    }

    /// Translates `id` into the selected language.
    pub fn translate(&self, data: &I18Data, id: &str) -> (res: String)
        ensures
            res@ == translation(*data, id@, self.selected),
    {
        data.translate(id, &self.selected)
    }

    /// Translates `id` into the selected language with parameters.
    pub fn translate_with_params(
        &self,
        data: &I18Data,
        id: &str,
        params: &Vec<(String, String)>,
    ) -> (res: String)
        ensures
            res@ == apply_params(translation(*data, id@, self.selected), params@),
    {
        data.translate_with_params(id, &self.selected, params)
    }
}

/// After the selected language is set to `id`, a language is selected
/// exactly when it equals `id`, and every text translates as it does for
/// `id`; the translations themselves are unchanged.
pub proof fn lemma_selection_after_set(
    after: LanguageSelection,
    id: LangId,
    data: I18Data,
    lang: LangId,
    text_id: Seq<char>,
)
    requires
        after.selected == id,
    ensures
        (after.selected@ == lang@) == (id@ == lang@),
        translation(data, text_id, after.selected) == translation(data, text_id, id),
{
}

/// What parsing each string of `strs` gives, or nothing when one fails.
pub open spec fn all_parsed(strs: Seq<String>) -> Option<Seq<(Seq<char>, Seq<char>)>>
    decreases strs.len(),
{
    if strs.len() == 0 {
        Some(Seq::empty())
    } else {
        match (all_parsed(strs.drop_last()), parsed_language_identifier(strs.last()@)) {
            (Some(r), Some(x)) => Some(r.push(x)),
            _ => None,
        }
    }
}

/// The identifiers' views.
pub open spec fn id_views(ids: Seq<LangId>) -> Seq<(Seq<char>, Seq<char>)> {
    ids.map_values(|x: LangId| x@)
}

/// Once a prefix fails to parse, every longer one does.
proof fn lemma_all_parsed_fails(strs: Seq<String>, k: int, j: int)
    requires
        0 <= k <= j <= strs.len(),
        all_parsed(strs.take(k)) is None,
    ensures
        all_parsed(strs.take(j)) is None,
    decreases j - k,
{
    if j > k {
        lemma_all_parsed_fails(strs, k, j - 1);
        assert(strs.take(j).drop_last() =~= strs.take(j - 1));
    }
}

/// Parses every string as a language identifier.
pub fn parse_ids(strs: &Vec<String>) -> (res: Option<Vec<LangId>>)
    ensures
        match res {
            Some(v) => all_parsed(strs@) == Some(id_views(v@)),
            None => all_parsed(strs@) is None,
        },
{
    let mut out: Vec<LangId> = Vec::new();
    let n = strs.len();
    let mut k: usize = 0;
    assert(strs@.take(0) =~= Seq::<String>::empty());
    assert(id_views(out@) =~= Seq::empty());
    while k < n
        invariant
            n == strs@.len(),
            k <= n,
            all_parsed(strs@.take(k as int)) == Some(id_views(out@)),
        decreases n - k,
    {
        assert(strs@.take(k + 1).drop_last() =~= strs@.take(k as int));
        assert(strs@.take(k + 1).last() == strs@[k as int]);
        match LangId::parse(strs[k].as_str()) {
            Some(id) => {
                let ghost before = out@;
                out.push(id);
                assert(id_views(out@) =~= id_views(before).push(id@));
            },
            None => {
                proof {
                    lemma_all_parsed_fails(strs@, k + 1, n as int);
                    assert(strs@.take(n as int) =~= strs@);
                }
                return None;
            },
        }
        k = k + 1;
    }
    assert(strs@.take(n as int) =~= strs@);
    Some(out)
}

/// The fallback lists that `entries` give once parsed, keyed by the parsed
/// key's text (a later entry replaces an earlier one with the same key), or
/// nothing when a key or a listed identifier fails to parse.
pub open spec fn parsed_fallback_map(entries: Seq<(String, Vec<String>)>) -> Option<
    Map<Seq<char>, Seq<(Seq<char>, Seq<char>)>>,
>
    decreases entries.len(),
{
    if entries.len() == 0 {
        Some(Map::empty())
    } else {
        match (
            parsed_fallback_map(entries.drop_last()),
            parsed_language_identifier(entries.last().0@),
            all_parsed(entries.last().1@),
        ) {
            (Some(m), Some(k), Some(v)) => Some(m.insert(k.0, v)),
            _ => None,
        }
    }
}

/// The lists of a fallback table as identifier views.
pub open spec fn fallback_views(m: Map<Seq<char>, Vec<LangId>>) -> Map<
    Seq<char>,
    Seq<(Seq<char>, Seq<char>)>,
> {
    m.map_values(|v: Vec<LangId>| id_views(v@))
}

proof fn lemma_fallback_map_fails(entries: Seq<(String, Vec<String>)>, k: int, j: int)
    requires
        0 <= k <= j <= entries.len(),
        parsed_fallback_map(entries.take(k)) is None,
    ensures
        parsed_fallback_map(entries.take(j)) is None,
    decreases j - k,
{
    if j > k {
        lemma_fallback_map_fails(entries, k, j - 1);
        assert(entries.take(j).drop_last() =~= entries.take(j - 1));
    }
}

impl FallbackLanguage {
    /// Falls back to the one language `id`.
    pub fn from_id(id: LangId) -> (res: Self)
        ensures
            res == FallbackLanguage::Single(id),
    {
        FallbackLanguage::Single(id)
    }

    /// Falls back to the one language that `s` names; `s` must parse as a
    /// language identifier.
    pub fn from_text(s: &str) -> (res: Self)
        requires
            parsed_language_identifier(s@) is Some,
        ensures
            res matches FallbackLanguage::Single(id) && parsed_language_identifier(s@) == Some(
                id@,
            ),
    {
        match LangId::parse(s) {
            Some(id) => FallbackLanguage::Single(id),
            None => unreached(),
        }
    }

    /// Falls back to the one language that `s` names, if `s` parses;
    /// nothing otherwise.
    pub fn parse(s: &str) -> (res: Option<Self>)
        ensures
            match res {
                Some(f) => f matches FallbackLanguage::Single(id) && parsed_language_identifier(s@)
                    == Some(id@),
                None => parsed_language_identifier(s@) is None,
            },
    {
        match LangId::parse(s) {
            Some(_) => Some(Self::from_text(s)),
            None => None,
        }
    }

    /// Falls back by the table `map`, then to `default`.
    pub fn from_map(default: LangId, map: KeyMap<Vec<LangId>>) -> (res: Self)
        ensures
            res == FallbackLanguage::Mapping(FallbackLanguageMap { default, map }),
    {
        FallbackLanguage::Mapping(FallbackLanguageMap::new(default, map))
    }

    /// Falls back by a table of fallback lists written as text, then to
    /// `default`; the default and every key and listed identifier must
    /// parse.
    pub fn from_text_map(default: &str, entries: &Vec<(String, Vec<String>)>) -> (res: Self)
        requires
            parsed_language_identifier(default@) is Some,
            parsed_fallback_map(entries@) is Some,
        ensures
            res matches FallbackLanguage::Mapping(m) && parsed_language_identifier(default@) == Some(
                m.default@,
            ) && parsed_fallback_map(entries@) == Some(fallback_views(m.map@)),
    {
        match Self::build_map(default, entries) {
            Some(f) => f,
            None => unreached(),
        }
    }

    /// Parses a default language and a table of fallback lists written as
    /// text; nothing when any of them fails to parse.
    pub fn parse_map(default: &str, entries: &Vec<(String, Vec<String>)>) -> (res: Option<Self>)
        ensures
            match res {
                Some(f) => f matches FallbackLanguage::Mapping(m)
                    && parsed_language_identifier(default@) == Some(m.default@) && parsed_fallback_map(
                    entries@,
                ) == Some(fallback_views(m.map@)),
                None => parsed_language_identifier(default@) is None || parsed_fallback_map(
                    entries@,
                ) is None,
            },
    {
        match Self::build_map(default, entries) {
            Some(_) => Some(Self::from_text_map(default, entries)),
            None => None,
        }
    }

    /// Parses a default language and a table of fallback lists written as
    /// text; nothing when any of them fails to parse.
    fn build_map(default: &str, entries: &Vec<(String, Vec<String>)>) -> (res: Option<Self>)
        ensures
            match res {
                Some(f) => f matches FallbackLanguage::Mapping(m)
                    && parsed_language_identifier(default@) == Some(m.default@) && parsed_fallback_map(
                    entries@,
                ) == Some(fallback_views(m.map@)),
                None => parsed_language_identifier(default@) is None || parsed_fallback_map(
                    entries@,
                ) is None,
            },
    {
        let default_id = match LangId::parse(default) {
            Some(id) => id,
            None => return None,
        };
        let mut map: KeyMap<Vec<LangId>> = KeyMap::new();
        let n = entries.len();
        let mut k: usize = 0;
        assert(entries@.take(0) =~= Seq::<(String, Vec<String>)>::empty());
        assert(fallback_views(map@) =~= Map::empty());
        while k < n
            invariant
                n == entries@.len(),
                k <= n,
                parsed_fallback_map(entries@.take(k as int)) == Some(fallback_views(map@)),
            decreases n - k,
        {
            assert(entries@.take(k + 1).drop_last() =~= entries@.take(k as int));
            assert(entries@.take(k + 1).last() == entries@[k as int]);
            let key = match LangId::parse(entries[k].0.as_str()) {
                Some(id) => id,
                None => {
                    proof {
                        lemma_fallback_map_fails(entries@, k + 1, n as int);
                        assert(entries@.take(n as int) =~= entries@);
                    }
                    return None;
                },
            };
            let list = match parse_ids(&entries[k].1) {
                Some(l) => l,
                None => {
                    proof {
                        lemma_fallback_map_fails(entries@, k + 1, n as int);
                        assert(entries@.take(n as int) =~= entries@);
                    }
                    return None;
                },
            };
            let ghost before = map@;
            let ghost lv = list@;
            map.insert(key.to_text(), list);
            assert(fallback_views(map@) =~= fallback_views(before).insert(key.tag(), id_views(lv)));
            k = k + 1;
        }
        assert(entries@.take(n as int) =~= entries@);
        Some(FallbackLanguage::Mapping(FallbackLanguageMap::new(default_id, map)))
    }
}

} // verus!
