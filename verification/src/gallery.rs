//! The two gallery payload layouts.
//!
//! A reference that is not a direct image may be a gallery page whose
//! member references must be mined.  Layout A is an HTML document with a
//! `<script>` whose text contains the marker `postDataJSON`; the quoted
//! literal inside it is a JSON-encoded string holding `{media:[{url}]}`.
//! Layout B is an HTML document with a `<script>` whose trimmed text
//! starts with `window.___r`; its first-`{`-to-last-`}` span is JSON of
//! shape `{posts:{models:{..:{media:{mediaMetadata:{..:{s:{u}}}}}}}}`.
//! Any structural defect makes the whole gallery fail: no partial
//! galleries are accepted.

use vstd::prelude::*;
use vstd::string::StrSliceExecFns;
use vstd::utf8::encode_utf8;

use crate::json::{
    json_get, json_of, json_string_of, parse_json, parse_json_string, spec_get, JsonValue,
};
use crate::text::{
    contains_pat, find_first_of, find_last_of, first_index_of, last_index_of,
    lemma_first_index_of_inv, lemma_last_index_of_inv, str_contains, str_trimmed_starts_with,
    trimmed_starts_with,
};

verus! {

/// What the HTML parser finds in a body: its error count and the text of
/// each `<script>` element, in document order — a function of the bytes
/// alone.  `None` when the body is not UTF-8.
pub uninterp spec fn html_scripts_of(body: Seq<u8>) -> Option<(nat, Seq<Seq<char>>)>;

/// Relies on `scraper::Html::parse_document`, `Html::select` with the
/// `script` selector, and `ElementRef::text`: parses the body as HTML and
/// hands back how many parse errors were recorded and the concatenated
/// text of every `script` element, in document order.  `None` only when
/// the body is not valid UTF-8.
#[verifier::external_body]
fn script_texts(body: &Vec<u8>) -> (r: Option<(usize, Vec<String>)>)
    ensures
        match r {
            Some(p) => html_scripts_of(body@) == Some((p.0 as nat, p.1.deep_view())),
            None => html_scripts_of(body@) is None,
        },
{
    let text = match std::str::from_utf8(body) {
        Ok(t) => t,
        Err(_) => return None,
    };
    let html = scraper::Html::parse_document(text);
    let n_errors = html.errors.len();
    let sel = match scraper::Selector::parse("script") {
        Ok(s) => s,
        Err(_) => return None,
    };
    let texts = html.select(&sel).map(|tag| tag.text().collect::<String>()).collect();
    Some((n_errors, texts))
}

/// `k` is the first script whose text contains `pat`.
pub open spec fn is_first_containing(texts: Seq<Seq<char>>, pat: Seq<char>, k: int) -> bool {
    &&& 0 <= k < texts.len()
    &&& contains_pat(texts[k], pat)
    &&& forall|j: int| 0 <= j < k ==> !contains_pat(#[trigger] texts[j], pat)
}

/// The text of the first script containing `pat`, if any does.
pub open spec fn first_containing(texts: Seq<Seq<char>>, pat: Seq<char>) -> Option<Seq<char>> {
    if exists|k: int| is_first_containing(texts, pat, k) {
        Some(texts[choose|k: int| is_first_containing(texts, pat, k)])
    } else {
        None
    }
}

/// `k` is the first script whose trimmed text starts with `pat`.
pub open spec fn is_first_trimmed_sw(texts: Seq<Seq<char>>, pat: Seq<char>, k: int) -> bool {
    &&& 0 <= k < texts.len()
    &&& trimmed_starts_with(texts[k], pat)
    &&& forall|j: int| 0 <= j < k ==> !trimmed_starts_with(#[trigger] texts[j], pat)
}

/// The text of the first script whose trimmed text starts with `pat`.
pub open spec fn first_trimmed_sw(texts: Seq<Seq<char>>, pat: Seq<char>) -> Option<Seq<char>> {
    if exists|k: int| is_first_trimmed_sw(texts, pat, k) {
        Some(texts[choose|k: int| is_first_trimmed_sw(texts, pat, k)])
    } else {
        None
    }
}

/// Find the first script whose text contains `pat`.
fn find_script_containing<'a>(texts: &'a Vec<String>, pat: &str) -> (r: Option<&'a String>)
    ensures
        match r {
            Some(t) => first_containing(texts.deep_view(), pat@) == Some(t@),
            None => first_containing(texts.deep_view(), pat@) is None,
        },
{
    let n = texts.len();
    let mut i: usize = 0;
    while i < n
        invariant
            i <= n,
            n == texts@.len(),
            texts.deep_view().len() == texts@.len(),
            forall|j: int| 0 <= j < texts@.len() ==> texts.deep_view()[j] == #[trigger] texts@[j]@,
            forall|j: int| 0 <= j < i ==> !contains_pat(#[trigger] texts.deep_view()[j], pat@),
        decreases n - i,
    {
        if str_contains(texts[i].as_str(), pat) {
            proof {
                let k = i as int;
                assert(is_first_containing(texts.deep_view(), pat@, k));
                let w = choose|w: int| is_first_containing(texts.deep_view(), pat@, w);
                if w < k {
                    assert(!contains_pat(texts.deep_view()[w], pat@));
                } else if k < w {
                    assert(!contains_pat(texts.deep_view()[k], pat@));
                }
            }
            return Some(&texts[i]);
        }
        i = i + 1;
    }
    proof {
        if exists|k: int| is_first_containing(texts.deep_view(), pat@, k) {
            let k = choose|k: int| is_first_containing(texts.deep_view(), pat@, k);
            assert(!contains_pat(texts.deep_view()[k], pat@));
        }
    }
    None
}

/// Find the first script whose trimmed text starts with `pat`.
fn find_script_trimmed_sw<'a>(texts: &'a Vec<String>, pat: &str) -> (r: Option<&'a String>)
    ensures
        match r {
            Some(t) => first_trimmed_sw(texts.deep_view(), pat@) == Some(t@),
            None => first_trimmed_sw(texts.deep_view(), pat@) is None,
        },
{
    let n = texts.len();
    let mut i: usize = 0;
    while i < n
        invariant
            i <= n,
            n == texts@.len(),
            texts.deep_view().len() == texts@.len(),
            forall|j: int| 0 <= j < texts@.len() ==> texts.deep_view()[j] == #[trigger] texts@[j]@,
            forall|j: int|
                0 <= j < i ==> !trimmed_starts_with(#[trigger] texts.deep_view()[j], pat@),
        decreases n - i,
    {
        if str_trimmed_starts_with(texts[i].as_str(), pat) {
            proof {
                let k = i as int;
                assert(is_first_trimmed_sw(texts.deep_view(), pat@, k));
                let w = choose|w: int| is_first_trimmed_sw(texts.deep_view(), pat@, w);
                if w < k {
                    assert(!trimmed_starts_with(texts.deep_view()[w], pat@));
                } else if k < w {
                    assert(!trimmed_starts_with(texts.deep_view()[k], pat@));
                }
            }
            return Some(&texts[i]);
        }
        i = i + 1;
    }
    proof {
        if exists|k: int| is_first_trimmed_sw(texts.deep_view(), pat@, k) {
            let k = choose|k: int| is_first_trimmed_sw(texts.deep_view(), pat@, k);
            assert(!trimmed_starts_with(texts.deep_view()[k], pat@));
        }
    }
    None
}

/// The first-quote-to-last-quote span of a script text.
pub open spec fn spec_quoted_span(text: Seq<char>) -> Option<Seq<char>> {
    match first_index_of(text, "'\""@) {
        Some(a) => match last_index_of(text, "'\""@) {
            Some(b) => Some(text.subrange(a, b + 1)),
            None => None,
        },
        None => None,
    }
}

/// The first-`{`-to-last-`}` span of a script text.
pub open spec fn spec_braced_span(text: Seq<char>) -> Option<Seq<char>> {
    match first_index_of(text, "{"@) {
        Some(a) => match last_index_of(text, "}"@) {
            Some(b) => if a <= b {
                Some(text.subrange(a, b + 1))
            } else {
                None
            },
            None => None,
        },
        None => None,
    }
}

/// The URLs of a layout-A `media` array: every member must be an object
/// with a string `url`.
pub open spec fn spec_media_urls(items: Seq<JsonValue>) -> Option<Seq<Seq<char>>>
    decreases items.len(),
{
    if items.len() == 0 {
        Some(Seq::empty())
    } else {
        match spec_get(items[0], "url"@) {
            Some(JsonValue::Str(u)) => match spec_media_urls(items.drop_first()) {
                Some(rest) => Some(seq![u@] + rest),
                None => None,
            },
            _ => None,
        }
    }
}

/// What a layout-A (imgur) gallery body yields: the member URLs, in array
/// order, or nothing if any structural element is missing or malformed.
pub open spec fn spec_imgur_gallery(body: Seq<u8>) -> Option<Seq<Seq<char>>> {
    match html_scripts_of(body) {
        Some(scripts) => if scripts.0 != 0 {
            None
        } else {
            match first_containing(scripts.1, "postDataJSON"@) {
                Some(text) => match spec_quoted_span(text) {
                    Some(code) => match json_string_of(code) {
                        Some(data) => match json_of(encode_utf8(data)) {
                            Some(tree) => match spec_get(tree, "media"@) {
                                Some(JsonValue::Arr(items)) => spec_media_urls(items@),
                                _ => None,
                            },
                            None => None,
                        },
                        None => None,
                    },
                    None => None,
                },
                None => None,
            }
        },
        None => None,
    }
}

/// Extract the member URLs of a layout-A gallery body.
pub fn imgur_gallery_urls(body: &Vec<u8>) -> (r: Option<Vec<String>>)
    ensures
        match r {
            Some(v) => spec_imgur_gallery(body@) == Some(v.deep_view()),
            None => spec_imgur_gallery(body@) is None,
        },
{
    let scripts = match script_texts(body) {
        Some(p) => p,
        None => {
            return None;
        },
    };
    if scripts.0 != 0 {
        return None;
    }
    let text = match find_script_containing(&scripts.1, "postDataJSON") {
        Some(t) => t,
        None => {
            return None;
        },
    };
    let n = text.as_str().unicode_len();
    let a = match find_first_of(text.as_str(), "'\"") {
        Some(a) => a,
        None => {
            return None;
        },
    };
    let b = match find_last_of(text.as_str(), "'\"") {
        Some(b) => b,
        None => {
            return None;
        },
    };
    proof {
        lemma_first_index_of_inv(text@, "'\""@, a as int);
        lemma_last_index_of_inv(text@, "'\""@, b as int);
        if b < a {
            assert(!"'\""@.contains(text@[a as int]));
        }
    }
    let code = text.as_str().substring_char(a, b + 1);
    let data = match parse_json_string(code) {
        Some(d) => d,
        None => {
            return None;
        },
    };
    let tree = match parse_json(data.as_str().as_bytes()) {
        Some(t) => t,
        None => {
            return None;
        },
    };
    let items = match json_get(&tree, &String::from_str("media")) {
        Some(JsonValue::Arr(items)) => items,
        _ => {
            return None;
        },
    };
    media_urls_exec(items)
}

/// Collect the URLs of a `media` array, failing on any malformed member.
fn media_urls_exec(items: &Vec<JsonValue>) -> (r: Option<Vec<String>>)
    ensures
        match r {
            Some(v) => spec_media_urls(items@) == Some(v.deep_view()),
            None => spec_media_urls(items@) is None,
        },
{
    let n = items.len();
    let mut acc: Vec<String> = Vec::new();
    proof {
        assert(items@.skip(0) =~= items@);
        assert(acc.deep_view() =~= Seq::<Seq<char>>::empty());
    }
    let mut i: usize = 0;
    while i < n
        invariant
            i <= n,
            n == items@.len(),
            spec_media_urls(items@) == (match spec_media_urls(items@.skip(i as int)) {
                Some(rest) => Some(acc.deep_view() + rest),
                None => None::<Seq<Seq<char>>>,
            }),
        decreases n - i,
    {
        let ghost pre = acc.deep_view();
        let u = match json_get(&items[i], &String::from_str("url")) {
            Some(JsonValue::Str(u)) => u,
            _ => {
                proof {
                    assert(items@.skip(i as int)[0] == items@[i as int]);
                }
                return None;
            },
        };
        acc.push(u.clone());
        proof {
            assert(items@.skip(i as int)[0] == items@[i as int]);
            assert(items@.skip(i as int).drop_first() =~= items@.skip(i as int + 1));
            assert(spec_get(items@[i as int], "url"@) matches Some(JsonValue::Str(su)) && su@
                == u@);
            assert(acc.deep_view() =~= pre.push(u@));
            assert(forall|rest: Seq<Seq<char>>|
                pre + (seq![u@] + rest) =~= #[trigger] (acc.deep_view() + rest));
        }
        i = i + 1;
    }
    proof {
        assert(items@.skip(n as int) =~= Seq::<JsonValue>::empty());
        assert(acc.deep_view() + Seq::<Seq<char>>::empty() =~= acc.deep_view());
    }
    Some(acc)
}

/// The URL of one layout-B metadata entry: its `s.u` string.
pub open spec fn spec_entry_url(e: JsonValue) -> Option<Seq<char>> {
    match spec_get(e, "s"@) {
        Some(s) => match spec_get(s, "u"@) {
            Some(JsonValue::Str(u)) => Some(u@),
            _ => None,
        },
        None => None,
    }
}

/// The URLs of a layout-B `mediaMetadata` object, in entry order.
pub open spec fn spec_entries_urls(entries: Seq<(String, JsonValue)>) -> Option<Seq<Seq<char>>>
    decreases entries.len(),
{
    if entries.len() == 0 {
        Some(Seq::empty())
    } else {
        match spec_entry_url(entries[0].1) {
            Some(u) => match spec_entries_urls(entries.drop_first()) {
                Some(rest) => Some(seq![u] + rest),
                None => None,
            },
            None => None,
        }
    }
}

/// The URLs of one layout-B model: those of its `media.mediaMetadata`.
pub open spec fn spec_model_urls(model: JsonValue) -> Option<Seq<Seq<char>>> {
    match spec_get(model, "media"@) {
        Some(m) => match spec_get(m, "mediaMetadata"@) {
            Some(JsonValue::Obj(entries)) => spec_entries_urls(entries@),
            _ => None,
        },
        None => None,
    }
}

/// The URLs of a layout-B `models` object, concatenated in entry order.
pub open spec fn spec_models_urls(models: Seq<(String, JsonValue)>) -> Option<Seq<Seq<char>>>
    decreases models.len(),
{
    if models.len() == 0 {
        Some(Seq::empty())
    } else {
        match spec_model_urls(models[0].1) {
            Some(us) => match spec_models_urls(models.drop_first()) {
                Some(rest) => Some(us + rest),
                None => None,
            },
            None => None,
        }
    }
}

/// What a layout-B (reddit) gallery body yields: the member URLs, or
/// nothing if any structural element is missing or malformed.
pub open spec fn spec_reddit_gallery(body: Seq<u8>) -> Option<Seq<Seq<char>>> {
    match html_scripts_of(body) {
        Some(scripts) => if scripts.0 != 0 {
            None
        } else {
            match first_trimmed_sw(scripts.1, "window.___r"@) {
                Some(text) => match spec_braced_span(text) {
                    Some(code) => match json_of(encode_utf8(code)) {
                        Some(tree) => match spec_get(tree, "posts"@) {
                            Some(p) => match spec_get(p, "models"@) {
                                Some(JsonValue::Obj(models)) => spec_models_urls(models@),
                                _ => None,
                            },
                            None => None,
                        },
                        None => None,
                    },
                    None => None,
                },
                None => None,
            }
        },
        None => None,
    }
}

/// Extract the member URLs of a layout-B gallery body.
pub fn reddit_gallery_urls(body: &Vec<u8>) -> (r: Option<Vec<String>>)
    ensures
        match r {
            Some(v) => spec_reddit_gallery(body@) == Some(v.deep_view()),
            None => spec_reddit_gallery(body@) is None,
        },
{
    let scripts = match script_texts(body) {
        Some(p) => p,
        None => {
            return None;
        },
    };
    if scripts.0 != 0 {
        return None;
    }
    let text = match find_script_trimmed_sw(&scripts.1, "window.___r") {
        Some(t) => t,
        None => {
            return None;
        },
    };
    let n = text.as_str().unicode_len();
    let a = match find_first_of(text.as_str(), "{") {
        Some(a) => a,
        None => {
            return None;
        },
    };
    let b = match find_last_of(text.as_str(), "}") {
        Some(b) => b,
        None => {
            return None;
        },
    };
    if b < a {
        return None;
    }
    proof {
        lemma_first_index_of_inv(text@, "{"@, a as int);
        lemma_last_index_of_inv(text@, "}"@, b as int);
    }
    let code = text.as_str().substring_char(a, b + 1);
    let tree = match parse_json(code.as_bytes()) {
        Some(t) => t,
        None => {
            return None;
        },
    };
    let posts = match json_get(&tree, &String::from_str("posts")) {
        Some(p) => p,
        None => {
            return None;
        },
    };
    let models = match json_get(posts, &String::from_str("models")) {
        Some(JsonValue::Obj(models)) => models,
        _ => {
            return None;
        },
    };
    models_urls_exec(models)
}

/// Collect the URLs of every model, failing if any model is malformed.
fn models_urls_exec(models: &Vec<(String, JsonValue)>) -> (r: Option<Vec<String>>)
    ensures
        match r {
            Some(v) => spec_models_urls(models@) == Some(v.deep_view()),
            None => spec_models_urls(models@) is None,
        },
{
    let n = models.len();
    let mut acc: Vec<String> = Vec::new();
    proof {
        assert(models@.skip(0) =~= models@);
        assert(acc.deep_view() =~= Seq::<Seq<char>>::empty());
    }
    let mut i: usize = 0;
    while i < n
        invariant
            i <= n,
            n == models@.len(),
            spec_models_urls(models@) == (match spec_models_urls(models@.skip(i as int)) {
                Some(rest) => Some(acc.deep_view() + rest),
                None => None::<Seq<Seq<char>>>,
            }),
        decreases n - i,
    {
        let ghost pre = acc.deep_view();
        let mut us = match model_urls_exec(&models[i].1) {
            Some(us) => us,
            None => {
                proof {
                    assert(models@.skip(i as int)[0] == models@[i as int]);
                }
                return None;
            },
        };
        let ghost us_view = us.deep_view();
        acc.append(&mut us);
        proof {
            assert(models@.skip(i as int)[0] == models@[i as int]);
            assert(models@.skip(i as int).drop_first() =~= models@.skip(i as int + 1));
            assert(acc.deep_view() =~= pre + us_view);
            assert(forall|rest: Seq<Seq<char>>|
                pre + (us_view + rest) =~= #[trigger] (acc.deep_view() + rest));
        }
        i = i + 1;
    }
    proof {
        assert(models@.skip(n as int) =~= Seq::<(String, JsonValue)>::empty());
        assert(acc.deep_view() + Seq::<Seq<char>>::empty() =~= acc.deep_view());
    }
    Some(acc)
}

/// Collect the URLs of one model's metadata entries.
fn model_urls_exec(model: &JsonValue) -> (r: Option<Vec<String>>)
    ensures
        match r {
            Some(v) => spec_model_urls(*model) == Some(v.deep_view()),
            None => spec_model_urls(*model) is None,
        },
{
    let media = match json_get(model, &String::from_str("media")) {
        Some(m) => m,
        None => {
            return None;
        },
    };
    let entries = match json_get(media, &String::from_str("mediaMetadata")) {
        Some(JsonValue::Obj(entries)) => entries,
        _ => {
            return None;
        },
    };
    let n = entries.len();
    let mut acc: Vec<String> = Vec::new();
    proof {
        assert(entries@.skip(0) =~= entries@);
        assert(acc.deep_view() =~= Seq::<Seq<char>>::empty());
    }
    let mut i: usize = 0;
    while i < n
        invariant
            i <= n,
            n == entries@.len(),
            spec_model_urls(*model) == spec_entries_urls(entries@),
            spec_entries_urls(entries@) == (match spec_entries_urls(entries@.skip(i as int)) {
                Some(rest) => Some(acc.deep_view() + rest),
                None => None::<Seq<Seq<char>>>,
            }),
        decreases n - i,
    {
        let ghost pre = acc.deep_view();
        let s = match json_get(&entries[i].1, &String::from_str("s")) {
            Some(s) => s,
            None => {
                proof {
                    assert(entries@.skip(i as int)[0] == entries@[i as int]);
                    assert(spec_entry_url(entries@[i as int].1) is None);
                }
                return None;
            },
        };
        let u = match json_get(s, &String::from_str("u")) {
            Some(JsonValue::Str(u)) => u,
            _ => {
                proof {
                    assert(entries@.skip(i as int)[0] == entries@[i as int]);
                    assert(spec_entry_url(entries@[i as int].1) is None);
                }
                return None;
            },
        };
        acc.push(u.clone());
        proof {
            assert(entries@.skip(i as int)[0] == entries@[i as int]);
            assert(entries@.skip(i as int).drop_first() =~= entries@.skip(i as int + 1));
            assert(spec_entry_url(entries@[i as int].1) == Some(u@));
            assert(acc.deep_view() =~= pre.push(u@));
            assert(forall|rest: Seq<Seq<char>>|
                pre + (seq![u@] + rest) =~= #[trigger] (acc.deep_view() + rest));
        }
        i = i + 1;
    }
    proof {
        assert(entries@.skip(n as int) =~= Seq::<(String, JsonValue)>::empty());
        assert(acc.deep_view() + Seq::<Seq<char>>::empty() =~= acc.deep_view());
    }
    Some(acc)
}

} // verus!
