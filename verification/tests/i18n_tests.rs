use gem_finder::i18n::{
    choose_lang, detect_lang, genre_filter_label, genre_label, lang_from_code, sort_label, Lang,
};

#[test]
fn tags_and_codes() {
    assert_eq!(Lang::Pt.html_tag(), "pt-BR");
    assert_eq!(Lang::En.html_tag(), "en");
    assert_eq!(Lang::Pt.code(), "pt");
    assert_eq!(lang_from_code(Lang::Pt.code()), Some(Lang::Pt));
    assert_eq!(lang_from_code(Lang::En.code()), Some(Lang::En));
    assert_eq!(lang_from_code("fr"), None);
}

#[test]
fn first_visit_language() {
    let langs = |v: &[&str]| v.iter().map(|s| s.to_string()).collect::<Vec<_>>();
    assert_eq!(detect_lang(Some("en"), &langs(&["pt-BR"]), None), Lang::En);
    assert_eq!(detect_lang(Some("xx"), &langs(&["de", "PT-br"]), None), Lang::Pt);
    assert_eq!(detect_lang(None, &langs(&["de", "en-US", "pt"]), None), Lang::Pt);
    assert_eq!(detect_lang(None, &langs(&["en-US", "pt-BR"]), None), Lang::Pt);
    assert_eq!(detect_lang(None, &langs(&["en-US", "de"]), Some("pt-BR")), Lang::Pt);
    assert_eq!(detect_lang(None, &langs(&["en-US", "de"]), None), Lang::En);
    assert_eq!(detect_lang(None, &langs(&["de"]), Some("pt-PT")), Lang::Pt);
    assert_eq!(detect_lang(None, &langs(&[]), Some("de")), Lang::En);
    assert_eq!(detect_lang(None, &langs(&[]), None), Lang::En);
}

#[test]
fn genre_labels() {
    assert_eq!(genre_label(Lang::Pt, "Action"), "Ação");
    assert_eq!(genre_label(Lang::Pt, "Science Fiction"), "Ficção Científica");
    assert_eq!(genre_label(Lang::En, "Science Fiction"), "Science Fiction");
    assert_eq!(genre_label(Lang::Pt, "Western"), "Faroeste");
    assert_eq!(genre_label(Lang::Pt, "Unknown"), "");
}

#[test]
fn sort_labels() {
    assert_eq!(sort_label(Lang::En, "rt"), "Critics");
    assert_eq!(sort_label(Lang::Pt, "title"), "Título");
    assert_eq!(sort_label(Lang::Pt, "score"), "Pedrinha");
    assert_eq!(sort_label(Lang::En, "bogus"), "Score");
}

#[test]
fn language_choice_from_lowered_tags() {
    let tags = |v: &[&str]| v.iter().map(|s| s.to_string()).collect::<Vec<_>>();
    assert_eq!(choose_lang(None, &tags(&["en-us", "pt-br"]), None), Lang::Pt);
    // The tags are taken as given: an upper-case tag is not Portuguese here.
    assert_eq!(choose_lang(None, &tags(&["PT-BR"]), None), Lang::En);
    assert_eq!(choose_lang(Some("en"), &tags(&["pt"]), Some("pt")), Lang::En);
    assert_eq!(choose_lang(None, &tags(&[]), Some("pt")), Lang::Pt);
    assert_eq!(choose_lang(None, &tags(&["es"]), Some("es")), Lang::En);
}

#[test]
fn closed_genre_filter_label() {
    let sel = |v: &[&str]| v.iter().map(|s| s.to_string()).collect::<Vec<_>>();
    assert_eq!(genre_filter_label(Lang::En, &sel(&[])), "Genre");
    assert_eq!(genre_filter_label(Lang::Pt, &sel(&[])), "Gênero");
    assert_eq!(genre_filter_label(Lang::Pt, &sel(&["Action", "War"])), "Ação, Guerra");
    assert_eq!(genre_filter_label(Lang::En, &sel(&["Drama"])), "Drama");
    assert_eq!(genre_filter_label(Lang::En, &sel(&["Action", "War", "Drama", "Horror"])), "Genre (4)");
    assert_eq!(genre_filter_label(Lang::Pt, &sel(&["Action", "War", "Drama", "Horror", "Crime"])), "Gênero (5)");
}
