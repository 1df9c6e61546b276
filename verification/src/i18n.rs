//! The two display languages: their tags, how the language is chosen on a
//! first visit, and the translated labels of genres and sort keys.

use vstd::prelude::*;
use crate::text::{
    chars_of, decimal, has_prefix, join_strings, joined, lowercase, push_decimal, push_str, starts_with,
    str_eq, string_views, to_lowercase,
};

verus! {

/// A display language.
#[derive(Clone, Copy, Debug, PartialEq, Eq, Structural)]
pub enum Lang {
    /// Brazilian Portuguese.
    Pt,
    /// English.
    En,
}

/// The `<html lang>` tag of a language.
pub open spec fn html_tag_spec(l: Lang) -> Seq<char> {
    match l {
        Lang::Pt => "pt-BR"@,
        Lang::En => "en"@,
    }
}

/// The short code a language is stored under.
pub open spec fn code_spec(l: Lang) -> Seq<char> {
    match l {
        Lang::Pt => "pt"@,
        Lang::En => "en"@,
    }
}

impl Lang {
    /// The BCP-47 tag for the `<html lang>` attribute.
    pub fn html_tag(self) -> (r: &'static str)
        ensures
            r@ == html_tag_spec(self),
    {
        match self {
            Lang::Pt => "pt-BR",
            Lang::En => "en",
        }
    }

    /// The short code stored in the browser.
    pub fn code(self) -> (r: &'static str)
        ensures
            r@ == code_spec(self),
    {
        match self {
            Lang::Pt => "pt",
            Lang::En => "en",
        }
    }
}

/// The language a stored code names, if it names one.
pub open spec fn stored_lang(v: Seq<char>) -> Option<Lang> {
    if v == "pt"@ {
        Some(Lang::Pt)
    } else if v == "en"@ {
        Some(Lang::En)
    } else {
        None
    }
}

/// The language a stored code names, if it names one.
pub fn lang_from_code(v: &str) -> (r: Option<Lang>)
    ensures
        r == stored_lang(v@),
{
    if str_eq(v, "pt") {
        Some(Lang::Pt)
    } else if str_eq(v, "en") {
        Some(Lang::En)
    } else {
        None
    }
}

/// Reading a stored code back gives the language that was stored.
pub proof fn lemma_code_round_trip(l: Lang)
    ensures
        stored_lang(code_spec(l)) == Some(l),
{
    reveal_strlit("pt");
    reveal_strlit("en");
    assert("pt"@ != "en"@) by {
        assert("pt"@[0] != "en"@[0]);
    }
}

/// Whether one of the (lower-cased) language tags is Portuguese: it starts
/// with `pt`.
pub open spec fn any_portuguese(tags: Seq<Seq<char>>) -> bool {
    exists|i: int| 0 <= i < tags.len() && has_prefix(#[trigger] tags[i], "pt"@)
}

/// The language of a first visit, from language tags that are already
/// lower-cased: a stored choice wins; else Portuguese when any of the
/// browser's languages is Portuguese, or else its main language is; else
/// English.
pub open spec fn lang_choice(
    stored: Option<Seq<char>>,
    tags: Seq<Seq<char>>,
    primary: Option<Seq<char>>,
) -> Lang {
    match (match stored {
        Some(v) => stored_lang(v),
        None => None,
    }) {
        Some(l) => l,
        None => if any_portuguese(tags) || (primary matches Some(p) && has_prefix(p, "pt"@)) {
            Lang::Pt
        } else {
            Lang::En
        },
    }
}

/// Each tag lower-cased.
pub open spec fn lowered_tags(tags: Seq<Seq<char>>) -> Seq<Seq<char>> {
    Seq::new(tags.len(), |i: int| lowercase(tags[i]))
}

/// The language of a first visit: a stored choice wins; else Portuguese
/// when any of the browser's languages, lower-cased, starts with `pt`, or
/// else its main language does; else English.
pub open spec fn detect_lang_spec(
    stored: Option<Seq<char>>,
    langs: Seq<Seq<char>>,
    primary: Option<Seq<char>>,
) -> Lang {
    lang_choice(
        stored,
        lowered_tags(langs),
        match primary {
            Some(p) => Some(lowercase(p)),
            None => None,
        },
    )
}

/// Chooses the language of a first visit from the stored code and the
/// browser's language list and main language, the tags already
/// lower-cased.
pub fn choose_lang(stored: Option<&str>, tags: &Vec<String>, primary: Option<&str>) -> (r: Lang)
    ensures
        r == lang_choice(
            match stored {
                Some(v) => Some(v@),
                None => None,
            },
            crate::text::string_views(tags@),
            match primary {
                Some(p) => Some(p@),
                None => None,
            },
        ),
{
    match stored {
        Some(v) => match lang_from_code(v) {
            Some(l) => return l,
            None => {},
        },
        None => {},
    }
    let pt = chars_of("pt");
    let ghost all = crate::text::string_views(tags@);
    let mut i: usize = 0;
    while i < tags.len()
        invariant
            i <= tags@.len(),
            all == crate::text::string_views(tags@),
            pt@ == "pt"@,
            match stored {
                Some(v) => stored_lang(v@) is None,
                None => true,
            },
            forall|k: int| 0 <= k < i ==> !has_prefix(#[trigger] all[k], "pt"@),
        decreases tags.len() - i,
    {
        assert(all[i as int] == tags@[i as int]@);
        let cs = chars_of(tags[i].as_str());
        if starts_with(cs.as_slice(), pt.as_slice()) {
            assert(any_portuguese(all));
            return Lang::Pt;
        }
        i = i + 1;
    }
    assert(!any_portuguese(all));
    match primary {
        Some(p) => {
            let cs = chars_of(p);
            if starts_with(cs.as_slice(), pt.as_slice()) {
                Lang::Pt
            } else {
                Lang::En
            }
        },
        None => Lang::En,
    }
}

/// Chooses the language of a first visit from the stored code, the
/// browser's language list and its main language (tags compared
/// lower-cased).
pub fn detect_lang(stored: Option<&str>, languages: &Vec<String>, primary: Option<&str>) -> (r: Lang)
    ensures
        r == detect_lang_spec(
            match stored {
                Some(v) => Some(v@),
                None => None,
            },
            crate::text::string_views(languages@),
            match primary {
                Some(p) => Some(p@),
                None => None,
            },
        ),
{
    let ghost all = crate::text::string_views(languages@);
    let mut lowered: Vec<String> = Vec::new();
    let mut i: usize = 0;
    while i < languages.len()
        invariant
            i <= languages@.len(),
            all == crate::text::string_views(languages@),
            lowered@.len() == i,
            forall|k: int| 0 <= k < i ==> (#[trigger] lowered@[k])@ == lowercase(all[k]),
        decreases languages.len() - i,
    {
        assert(all[i as int] == languages@[i as int]@);
        lowered.push(to_lowercase(languages[i].as_str()));
        i = i + 1;
    }
    assert(crate::text::string_views(lowered@) =~= lowered_tags(all));
    let lowered_primary = match primary {
        Some(p) => Some(to_lowercase(p)),
        None => None,
    };
    choose_lang(
        stored,
        &lowered,
        match &lowered_primary {
            Some(p) => Some(p.as_str()),
            None => None,
        },
    )
}

/// English and Portuguese labels of a genre, given by its English catalogue
/// name; empty for a genre outside the fixed set.
pub open spec fn genre_labels(en: Seq<char>) -> (Seq<char>, Seq<char>) {
    if en == "Action"@ {
        ("Action"@, "Ação"@)
    } else if en == "Animation"@ {
        ("Animation"@, "Animação"@)
    } else if en == "Comedy"@ {
        ("Comedy"@, "Comédia"@)
    } else if en == "Crime"@ {
        ("Crime"@, "Policial"@)
    } else if en == "Drama"@ {
        ("Drama"@, "Drama"@)
    } else if en == "Horror"@ {
        ("Horror"@, "Terror"@)
    } else if en == "Romance"@ {
        ("Romance"@, "Romance"@)
    } else if en == "Science Fiction"@ {
        ("Science Fiction"@, "Ficção Científica"@)
    } else if en == "Thriller"@ {
        ("Thriller"@, "Suspense"@)
    } else if en == "Documentary"@ {
        ("Documentary"@, "Documentário"@)
    } else if en == "Western"@ {
        ("Western"@, "Faroeste"@)
    } else if en == "War"@ {
        ("War"@, "Guerra"@)
    } else if en == "Musical"@ {
        ("Musical"@, "Musical"@)
    } else {
        (""@, ""@)
    }
}

/// The label of a genre in a language.
pub open spec fn genre_label_spec(lang: Lang, en: Seq<char>) -> Seq<char> {
    match lang {
        Lang::En => genre_labels(en).0,
        Lang::Pt => genre_labels(en).1,
    }
}

fn genre_pair(en: &str) -> (r: (&'static str, &'static str))
    ensures
        (r.0@, r.1@) == genre_labels(en@),
{
    if str_eq(en, "Action") {
        ("Action", "Ação")
    } else if str_eq(en, "Animation") {
        ("Animation", "Animação")
    } else if str_eq(en, "Comedy") {
        ("Comedy", "Comédia")
    } else if str_eq(en, "Crime") {
        ("Crime", "Policial")
    } else if str_eq(en, "Drama") {
        ("Drama", "Drama")
    } else if str_eq(en, "Horror") {
        ("Horror", "Terror")
    } else if str_eq(en, "Romance") {
        ("Romance", "Romance")
    } else if str_eq(en, "Science Fiction") {
        ("Science Fiction", "Ficção Científica")
    } else if str_eq(en, "Thriller") {
        ("Thriller", "Suspense")
    } else if str_eq(en, "Documentary") {
        ("Documentary", "Documentário")
    } else if str_eq(en, "Western") {
        ("Western", "Faroeste")
    } else if str_eq(en, "War") {
        ("War", "Guerra")
    } else if str_eq(en, "Musical") {
        ("Musical", "Musical")
    } else {
        ("", "")
    }
}

/// The label of a genre in a language; the genre's value stays its English
/// catalogue name.
pub fn genre_label(lang: Lang, en: &str) -> (r: &'static str)
    ensures
        r@ == genre_label_spec(lang, en@),
{
    let (en_label, pt_label) = genre_pair(en);
    match lang {
        Lang::En => en_label,
        Lang::Pt => pt_label,
    }
}

/// The label of a sort key in a language; an unknown key gets the label of
/// the gem score.
pub open spec fn sort_label_spec(lang: Lang, value: Seq<char>) -> Seq<char> {
    match lang {
        Lang::En => if value == "rating"@ {
            "Rating"@
        } else if value == "rt"@ {
            "Critics"@
        } else if value == "year"@ {
            "Year"@
        } else if value == "title"@ {
            "Title"@
        } else {
            "Score"@
        },
        Lang::Pt => if value == "rating"@ {
            "Nota"@
        } else if value == "rt"@ {
            "Crítica"@
        } else if value == "year"@ {
            "Ano"@
        } else if value == "title"@ {
            "Título"@
        } else {
            "Pedrinha"@
        },
    }
}

/// The label of a sort key in a language.
pub fn sort_label(lang: Lang, value: &str) -> (r: &'static str)
    ensures
        r@ == sort_label_spec(lang, value@),
{
    match lang {
        Lang::En => if str_eq(value, "rating") {
            "Rating"
        } else if str_eq(value, "rt") {
            "Critics"
        } else if str_eq(value, "year") {
            "Year"
        } else if str_eq(value, "title") {
            "Title"
        } else {
            "Score"
        },
        Lang::Pt => if str_eq(value, "rating") {
            "Nota"
        } else if str_eq(value, "rt") {
            "Crítica"
        } else if str_eq(value, "year") {
            "Ano"
        } else if str_eq(value, "title") {
            "Título"
        } else {
            "Pedrinha"
        },
    }
}

/// The word on the closed genre filter.
pub open spec fn genre_word(lang: Lang) -> Seq<char> {
    match lang {
        Lang::En => "Genre"@,
        Lang::Pt => "Gênero"@,
    }
}

/// The label of the closed genre filter: the word when nothing is
/// selected, the selected genres' labels joined by `, ` for one to three,
/// else the word with the count in brackets.
pub open spec fn genre_filter_label_spec(lang: Lang, sel: Seq<Seq<char>>) -> Seq<char> {
    if sel.len() == 0 {
        genre_word(lang)
    } else if sel.len() <= 3 {
        joined(Seq::new(sel.len(), |i: int| genre_label_spec(lang, sel[i])), ", "@)
    } else {
        genre_word(lang) + " ("@ + decimal(sel.len()) + ")"@
    }
}

/// The label of the closed genre filter for the selected genres.
pub fn genre_filter_label(lang: Lang, selected: &Vec<String>) -> (r: String)
    ensures
        r@ == genre_filter_label_spec(lang, string_views(selected@)),
{
    let word = match lang {
        Lang::En => "Genre",
        Lang::Pt => "Gênero",
    };
    let n = selected.len();
    if n == 0 {
        let mut out = String::new();
        push_str(&mut out, word);
        assert(out@ =~= genre_word(lang));
        return out;
    }
    if n <= 3 {
        let ghost sv = string_views(selected@);
        let mut labels: Vec<String> = Vec::new();
        let mut i: usize = 0;
        while i < n
            invariant
                n == selected@.len(),
                sv == string_views(selected@),
                i <= n,
                labels@.len() == i,
                forall|k: int| 0 <= k < i ==> (#[trigger] labels@[k])@ == genre_label_spec(lang, sv[k]),
            decreases n - i,
        {
            assert(sv[i as int] == selected@[i as int]@);
            let mut l = String::new();
            push_str(&mut l, genre_label(lang, selected[i].as_str()));
            labels.push(l);
            i = i + 1;
        }
        assert(string_views(labels@) =~= Seq::new(sv.len(), |i: int| genre_label_spec(lang, sv[i])));
        return join_strings(&labels, ", ");
    }
    let mut out = String::new();
    push_str(&mut out, word);
    push_str(&mut out, " (");
    push_decimal(&mut out, n as u64);
    push_str(&mut out, ")");
    assert(out@ =~= genre_word(lang) + " ("@ + decimal(n as nat) + ")"@);
    out
}

} // verus!
