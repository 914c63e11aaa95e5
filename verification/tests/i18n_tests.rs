use dioxus_sdk::chars::{join_path_from, replace_first, split_path};
use dioxus_sdk::i18n::{fill_params, FallbackLanguage, I18Data, Language, LanguageSelection, Text};
use dioxus_sdk::keymap::KeyMap;
use dioxus_sdk::langid::LangId;
use dioxus_sdk::shared_i18n;

fn id(s: &str) -> LangId {
    LangId::parse(s).unwrap()
}

fn texts(entries: Vec<(&str, Text)>) -> Text {
    Text::Texts(entries.into_iter().map(|(k, v)| (k.to_string(), v)).collect())
}

fn value(s: &str) -> Text {
    Text::Value(s.to_string())
}

fn language(tag: &str, name: Option<&str>, body: Text) -> Language {
    Language { id: id(tag), name: name.map(|s| s.to_string()), img: None, texts: body }
}

fn en_us() -> Language {
    language(
        "en-US",
        Some("English"),
        texts(vec![
            ("messages", texts(vec![("hello", value("Hello, {name}!"))])),
            ("messages.nested", value("whole-path match")),
            ("only", texts(vec![("en", value("english only"))])),
            ("top.level", value("never reached")),
        ]),
    )
}

fn es_es() -> Language {
    language(
        "es-ES",
        None,
        texts(vec![("messages", texts(vec![("hello", value("Hola, {name}!"))]))]),
    )
}

fn it_it() -> Language {
    language("it-IT", Some("Italiano"), texts(vec![("only", texts(vec![("it", value("solo"))]))]))
}

fn strings(v: &[&str]) -> Vec<String> {
    v.iter().map(|s| s.to_string()).collect()
}

#[test]
fn split_path_splits_at_dots() {
    assert_eq!(split_path("a.b.c"), strings(&["a", "b", "c"]));
    assert_eq!(split_path(""), strings(&[""]));
    assert_eq!(split_path("a."), strings(&["a", ""]));
    assert_eq!(split_path(".a"), strings(&["", "a"]));
}

#[test]
fn join_path_joins_with_dots() {
    let parts = strings(&["a", "b", "c"]);
    assert_eq!(join_path_from(&parts, 0), "a.b.c");
    assert_eq!(join_path_from(&parts, 2), "c");
    assert_eq!(join_path_from(&parts, 3), "");
}

#[test]
fn replace_first_replaces_leftmost_only() {
    assert_eq!(replace_first("a {x} b {x}", "{x}", "1"), "a 1 b {x}");
    assert_eq!(replace_first("nothing", "{x}", "1"), "nothing");
    assert_eq!(replace_first("abc", "", "X"), "Xabc");
    assert_eq!(replace_first("héllo wörld", "wö", "WO"), "héllo WOrld");
}

#[test]
fn language_parse_is_canonical() {
    let a = id("en-us");
    assert_eq!(a.to_text(), "en-US");
    assert!(a.same_as(&id("en-US")));
    assert!(!a.same_as(&id("en-GB")));
    assert_eq!(a.language_only().to_text(), "en");
    assert!(LangId::parse("not a language id!").is_none());
}

#[test]
fn get_text_follows_nested_ids() {
    let en = en_us();
    assert_eq!(en.get_text("messages.hello"), Some("Hello, {name}!".to_string()));
    assert_eq!(en.get_text("messages.nested"), Some("whole-path match".to_string()));
    assert_eq!(en.get_text("only.en"), Some("english only".to_string()));
    assert_eq!(en.get_text("messages.missing"), None);
    assert_eq!(en.get_text("missing"), None);
    // A whole-path key is tried only once the first step has been found.
    assert_eq!(en.get_text("top.level"), None);
    assert_eq!(en.get_text("messages"), None);
}

fn data_single() -> I18Data {
    I18Data::new(FallbackLanguage::parse("en-US").unwrap(), vec![en_us(), es_es(), it_it()])
}

#[test]
fn translate_prefers_selected_then_fallback_then_id() {
    let data = data_single();
    assert_eq!(data.translate("messages.hello", &id("es-ES")), "Hola, {name}!");
    assert_eq!(data.translate("only.en", &id("es-ES")), "english only");
    assert_eq!(data.translate("does.not.exist", &id("es-ES")), "does.not.exist");
    assert_eq!(data.translate("messages.hello", &id("fr-FR")), "Hello, {name}!");
}

#[test]
fn translate_with_fallback_map() {
    let mut map = KeyMap::new();
    map.insert("es".to_string(), vec![id("it-IT")]);
    let fallback = FallbackLanguage::from_map(id("en-US"), map);
    let data = I18Data::new(fallback, vec![en_us(), es_es(), it_it()]);
    // "es" covers "es-ES" through its language subtag.
    assert_eq!(data.translate("only.it", &id("es-ES")), "solo");
    // Not in the list: the default is used.
    assert_eq!(data.translate("only.en", &id("es-ES")), "english only");
    // Neither: the id itself.
    assert_eq!(data.translate("x.y", &id("es-ES")), "x.y");
    // A language without a list still reaches the default.
    assert_eq!(data.translate("only.en", &id("it-IT")), "english only");
}

#[test]
fn fallback_map_parses_keys_and_lists() {
    let entries = vec![("es".to_string(), strings(&["it-IT"]))];
    let parsed = FallbackLanguage::parse_map("en-US", &entries).unwrap();
    let data = I18Data::new(parsed, vec![en_us(), es_es(), it_it()]);
    assert_eq!(data.translate("only.it", &id("es-ES")), "solo");
    let bad = vec![("es".to_string(), strings(&["not valid!"]))];
    assert!(FallbackLanguage::parse_map("en-US", &bad).is_none());
    assert!(FallbackLanguage::parse_map("not valid!", &entries).is_none());
    assert!(FallbackLanguage::parse("not valid!").is_none());
}

#[test]
fn fallback_from_text_builds_single_and_map() {
    match FallbackLanguage::from_text("en-us") {
        FallbackLanguage::Single(l) => assert_eq!(l.to_text(), "en-US"),
        _ => panic!("expected a single fallback"),
    }
    let entries = vec![("es".to_string(), strings(&["it-IT", "fr-FR"]))];
    match FallbackLanguage::from_text_map("en-US", &entries) {
        FallbackLanguage::Mapping(m) => {
            assert_eq!(m.default.to_text(), "en-US");
            let list = m.map.get(&"es".to_string()).unwrap();
            assert_eq!(list.len(), 2);
            assert_eq!(list[0].to_text(), "it-IT");
            assert_eq!(list[1].to_text(), "fr-FR");
        }
        _ => panic!("expected a fallback map"),
    }
}

#[test]
fn language_list_shows_each_stored_language_once() {
    let data = I18Data::new(
        FallbackLanguage::from_text("en-US"),
        vec![
            Language { id: id("en-US"), name: Some("English".to_string()), img: Some("en.png".to_string()), texts: texts(vec![]) },
            Language { id: id("es-ES"), name: None, img: None, texts: texts(vec![]) },
        ],
    );
    let list = data.language_list();
    assert_eq!(list.len(), 2);
    assert!(list.iter().any(|(l, n, i)| l.to_text() == "en-US" && n == "English" && i == "en.png"));
    assert!(list.iter().any(|(l, n, i)| l.to_text() == "es-ES" && n == "es-ES" && i.is_empty()));
}

#[test]
fn translate_with_params_fills_placeholders() {
    let data = data_single();
    let params = vec![("name".to_string(), "Dioxus".to_string())];
    assert_eq!(
        data.translate_with_params("messages.hello", &id("en-US"), &params),
        "Hello, Dioxus!"
    );
    assert_eq!(fill_params("{a}{a}".to_string(), &vec![("a".to_string(), "1".to_string())]), "1{a}");
}

#[test]
fn later_language_replaces_earlier_with_same_id() {
    let replacement = language("en-US", None, texts(vec![("only", texts(vec![("en", value("replaced"))]))]));
    let data = I18Data::new(FallbackLanguage::parse("en-US").unwrap(), vec![en_us(), replacement]);
    assert_eq!(data.translate("only.en", &id("en-US")), "replaced");
    assert_eq!(data.language_list().len(), 1);
}

#[test]
fn language_list_uses_name_or_id() {
    let data = data_single();
    let list = data.language_list();
    assert_eq!(list.len(), 3);
    assert_eq!(list[0].0.to_text(), "en-US");
    assert_eq!(list[0].1, "English");
    assert_eq!(list[1].1, "es-ES");
    assert_eq!(list[2].1, "Italiano");
    assert_eq!(list[2].2, "");
}

#[test]
fn is_selected_compares_identifiers() {
    assert!(I18Data::is_selected(&id("en-US"), &id("en-us")));
    assert!(!I18Data::is_selected(&id("en-US"), &id("es-ES")));
}

#[test]
fn shared_translation_uses_selected_then_fallback() {
    let data = shared_i18n::UseInitI18Data {
        fallback_language: id("en-US"),
        languages: vec![
            shared_i18n::Language { id: id("en-US"), texts: en_us().texts },
            shared_i18n::Language { id: id("es-ES"), texts: es_es().texts },
        ],
    };
    let params = vec![("name".to_string(), "Dioxus".to_string())];
    assert_eq!(data.t_p(&id("es-ES"), "messages.hello", &params), "Hola, Dioxus!");
    // The selected language is there but lacks the text: empty, no fallback.
    assert_eq!(data.t_p(&id("es-ES"), "only.en", &params), "");
    assert_eq!(data.t(&id("fr-FR"), "only.en"), "english only");
    let empty = shared_i18n::UseInitI18Data { fallback_language: id("en-US"), languages: vec![] };
    assert_eq!(empty.t(&id("fr-FR"), "only.en"), "only.en");
}

#[test]
fn selection_follows_the_latest_language_set() {
    let data = data_single();
    let mut sel = LanguageSelection::new(id("en-US"));
    assert!(sel.is_selected(&id("en-US")));
    sel.set_language(id("es-ES"));
    assert!(sel.is_selected(&id("es-ES")));
    assert!(!sel.is_selected(&id("en-US")));
    assert_eq!(sel.translate(&data, "only.en"), data.translate("only.en", &id("es-ES")));
}

#[test]
fn text_well_formed_means_distinct_keys() {
    assert!(texts(vec![("a", value("1")), ("b", texts(vec![("c", value("2"))]))]).is_well_formed());
    assert!(!texts(vec![("a", value("1")), ("a", value("2"))]).is_well_formed());
    assert!(!texts(vec![("b", texts(vec![("c", value("2")), ("c", value("3"))]))]).is_well_formed());
    assert!(value("x").is_well_formed());
}
