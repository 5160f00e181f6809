//! Sakugabooru posts: the request addresses of the API and the reading of a post's tags.
use vstd::prelude::*;

use crate::models::TagCategory;
use crate::text::{
    chars_of, chars_equal, chars_contain, chars_contain_char, chars_start_with, decimal,
    has_prefix, has_substring, push_decimal, split_whitespace, split_words, string_views,
    is_whitespace, word_len, lemma_word_len_bound, lemma_split_whitespace_join,
};
use vstd::string::*;

verus! {

/// Address of the Sakugabooru site and its API.
pub const SAKUGABOORU_API_BASE: &'static str = "https://www.sakugabooru.com";

/// One post of Sakugabooru.
#[derive(Debug, Clone, PartialEq, Eq)]
pub struct SakugaPost {
    pub id: u32,
    pub tags: String,
    pub file_url: String,
    pub preview_url: String,
    pub sample_url: Option<String>,
    pub width: u32,
    pub height: u32,
    pub source: Option<String>,
    pub rating: String,
    pub score: i32,
    pub created_at: String,
}

/// A search of Sakugabooru posts.
#[derive(Debug, Clone, Default, PartialEq, Eq)]
pub struct SearchOptions {
    pub query: String,
    pub page: u32,
    pub limit: u32,
}

/// The address of the post search.
pub open spec fn search_url_spec() -> Seq<char> {
    SAKUGABOORU_API_BASE@ + "/post.json"@
}

/// The address of the post search.
pub fn search_url() -> (s: String)
    ensures
        s@ == search_url_spec(),
{
    let mut s = String::from_str(SAKUGABOORU_API_BASE);
    s.append("/post.json");
    s
}

/// The query parameters of a search: the tags, the page and the page size.
pub fn search_query(options: &SearchOptions) -> (q: Vec<(String, String)>)
    ensures
        q.len() == 3,
        q[0].0@ == "tags"@,
        q[0].1@ == options.query@,
        q[1].0@ == "page"@,
        q[1].1@ == decimal(options.page as nat),
        q[2].0@ == "limit"@,
        q[2].1@ == decimal(options.limit as nat),
{
    let mut page = String::new();
    push_decimal(&mut page, options.page as u64);
    let mut limit = String::new();
    push_decimal(&mut limit, options.limit as u64);
    let mut q: Vec<(String, String)> = Vec::new();
    q.push((String::from_str("tags"), String::from_str(options.query.as_str())));
    q.push((String::from_str("page"), page));
    q.push((String::from_str("limit"), limit));
    q
}

/// The API address of one post.
pub open spec fn post_url_spec(post_id: u32) -> Seq<char> {
    SAKUGABOORU_API_BASE@ + "/post/"@ + decimal(post_id as nat) + ".json"@
}

/// The API address of one post.
pub fn post_url(post_id: u32) -> (s: String)
    ensures
        s@ == post_url_spec(post_id),
{
    let mut s = String::from_str(SAKUGABOORU_API_BASE);
    s.append("/post/");
    push_decimal(&mut s, post_id as u64);
    s.append(".json");
    s
}

/// The address of the page that shows one post.
pub open spec fn post_page_url_spec(post_id: u32) -> Seq<char> {
    SAKUGABOORU_API_BASE@ + "/post/show/"@ + decimal(post_id as nat)
}

/// The address of the page that shows one post.
pub fn post_page_url(post_id: u32) -> (s: String)
    ensures
        s@ == post_page_url_spec(post_id),
{
    let mut s = String::from_str(SAKUGABOORU_API_BASE);
    s.append("/post/show/");
    push_decimal(&mut s, post_id as u64);
    s
}

/// Whether a character has the Unicode `Uppercase` property (`char::is_uppercase`).
pub uninterp spec fn char_is_uppercase(c: char) -> bool;

/// `char::is_uppercase`: whether `c` has the Unicode `Uppercase` property. The
/// contract names that result and states it for ASCII: exactly `A` to `Z` are
/// uppercase there. Which characters beyond ASCII have the property is not stated.
#[verifier::external_body]
fn is_uppercase(c: char) -> (b: bool)
    ensures
        b == char_is_uppercase(c),
        'A' <= c <= 'Z' ==> b,
        (c as u32) < 128 && !('A' <= c <= 'Z') ==> !b,
{
    c.is_uppercase()
}

/// Whether `c` is uppercase: within ASCII exactly `A` to `Z`; beyond ASCII, whether it
/// has the Unicode `Uppercase` property.
pub open spec fn is_uppercase_char(c: char) -> bool {
    if (c as u32) < 128 {
        'A' <= c <= 'Z'
    } else {
        char_is_uppercase(c)
    }
}

/// Tags that describe the animation itself.
pub open spec fn is_animation_tag(tag: Seq<char>) -> bool {
    ||| tag == "animated"@
    ||| tag == "sakuga"@
    ||| tag == "genga"@
    ||| tag == "key_animation"@
    ||| tag == "inbetween"@
}

/// Tags that mention an effect.
pub open spec fn mentions_effect(tag: Seq<char>) -> bool {
    ||| has_substring(tag, "effects"@)
    ||| has_substring(tag, "attack"@)
    ||| has_substring(tag, "impact"@)
    ||| has_substring(tag, "smoke"@)
    ||| has_substring(tag, "fire"@)
    ||| has_substring(tag, "liquid"@)
    ||| has_substring(tag, "running"@)
}

/// The category that the naming of a tag suggests: animation tags are meta tags,
/// effect tags general ones, capitalised tags name artists, and tags with an
/// underscore (not starting with `artist_`) name a work.
pub open spec fn tag_category(tag: Seq<char>) -> TagCategory {
    if is_animation_tag(tag) {
        TagCategory::Meta
    } else if mentions_effect(tag) {
        TagCategory::General
    } else if tag.len() > 0 && is_uppercase_char(tag[0]) {
        TagCategory::Artist
    } else if tag.contains('_') && !has_prefix(tag, "artist_"@) {
        TagCategory::Copyright
    } else {
        TagCategory::General
    }
}

/// Whether `tag` equals the literal `word`.
fn is_word(tag: &Vec<char>, word: &str) -> (r: bool)
    ensures
        r == (tag@ == word@),
{
    let w = chars_of(word);
    chars_equal(tag, &w)
}

/// Whether `tag` contains the literal `part`.
fn mentions(tag: &Vec<char>, part: &str) -> (r: bool)
    ensures
        r == has_substring(tag@, part@),
{
    let p = chars_of(part);
    chars_contain(tag, &p)
}

/// Guesses the category of one tag.
fn categorize_tag(tag: &str) -> (c: TagCategory)
    ensures
        c == tag_category(tag@),
{
    let t = chars_of(tag);
    if is_word(&t, "animated") || is_word(&t, "sakuga") || is_word(&t, "genga") || is_word(
        &t,
        "key_animation",
    ) || is_word(&t, "inbetween") {
        TagCategory::Meta
    } else if mentions(&t, "effects") || mentions(&t, "attack") || mentions(&t, "impact")
        || mentions(&t, "smoke") || mentions(&t, "fire") || mentions(&t, "liquid") || mentions(
        &t,
        "running",
    ) {
        TagCategory::General
    } else if t.len() > 0 && is_uppercase(t[0]) {
        TagCategory::Artist
    } else if chars_contain_char(&t, '_') && !chars_start_with(&t, &chars_of("artist_")) {
        TagCategory::Copyright
    } else {
        TagCategory::General
    }
}

/// The tags of a post, split at white space, each with the category its name suggests.
pub fn parse_sakuga_tags(tags: &str) -> (r: Vec<(String, TagCategory)>)
    ensures
        r.len() == split_whitespace(tags@).len(),
        forall|k: int| 0 <= k < r.len() ==> (#[trigger] r@[k]).0@ == split_whitespace(tags@)[k],
        forall|k: int|
            0 <= k < r.len() ==> (#[trigger] r@[k]).1 == tag_category(split_whitespace(tags@)[k]),
        forall|k: int|
            0 <= k < r.len() && ((#[trigger] r@[k]).0@ == "animated"@ || r@[k].0@ == "sakuga"@
                || r@[k].0@ == "genga"@ || r@[k].0@ == "key_animation"@ || r@[k].0@
                == "inbetween"@) ==> r@[k].1 == TagCategory::Meta,
{
    let words = split_words(tags);
    let ghost ws = split_whitespace(tags@);
    assert(string_views(words@).len() == words@.len());
    let mut r: Vec<(String, TagCategory)> = Vec::new();
    let mut i: usize = 0;
    while i < words.len()
        invariant
            i <= words.len(),
            string_views(words@) == ws,
            r.len() == i,
            forall|k: int| 0 <= k < i ==> (#[trigger] r@[k]).0@ == ws[k],
            forall|k: int| 0 <= k < i ==> (#[trigger] r@[k]).1 == tag_category(ws[k]),
        decreases words.len() - i,
    {
        let w = &words[i];
        assert(string_views(words@)[i as int] == words@[i as int]@);
        let word = w.as_str();
        let c = categorize_tag(word);
        let name = String::from_str(word);
        r.push((name, c));
        i = i + 1;
    }
    proof {
        lemma_animation_tags_are_meta();
    }
    r
}

/// The five tags that describe the animation itself (`animated`, `sakuga`, `genga`,
/// `key_animation` and `inbetween`) are meta tags.
pub proof fn lemma_animation_tags_are_meta()
    ensures
        tag_category("animated"@) == TagCategory::Meta,
        tag_category("sakuga"@) == TagCategory::Meta,
        tag_category("genga"@) == TagCategory::Meta,
        tag_category("key_animation"@) == TagCategory::Meta,
        tag_category("inbetween"@) == TagCategory::Meta,
{
}

/// A non-empty word without white space.
pub open spec fn is_clean_word(w: Seq<char>) -> bool {
    &&& w.len() > 0
    &&& forall|m: int| 0 <= m < w.len() ==> !is_whitespace(#[trigger] w[m])
}

/// Every tag read from a post is a non-empty word without white space.
pub proof fn lemma_tags_are_words(s: Seq<char>)
    ensures
        forall|k: int|
            0 <= k < split_whitespace(s).len() ==> is_clean_word(#[trigger] split_whitespace(s)[k]),
    decreases s.len(),
{
    if s.len() == 0 {
    } else if is_whitespace(s[0]) {
        lemma_tags_are_words(s.drop_first());
        assert(split_whitespace(s) == split_whitespace(s.drop_first()));
    } else {
        lemma_word_len_bound(s);
        let n = word_len(s) as int;
        lemma_tags_are_words(s.skip(n));
        lemma_word_is_clean(s);
        let head = s.take(n);
        let rest = split_whitespace(s.skip(n));
        assert(split_whitespace(s) == seq![head] + rest);
        assert(is_clean_word(head));
        assert forall|k: int|
            0 <= k < split_whitespace(s).len() implies is_clean_word(
            #[trigger] split_whitespace(s)[k],
        ) by {
            if k > 0 {
                assert(split_whitespace(s)[k] == rest[k - 1]);
            }
        }
    }
}

/// The word at the front of a text holds no white space.
proof fn lemma_word_is_clean(s: Seq<char>)
    ensures
        forall|m: int| 0 <= m < word_len(s) ==> !is_whitespace(#[trigger] s[m]),
    decreases s.len(),
{
    lemma_word_len_bound(s);
    if s.len() > 0 && !is_whitespace(s[0]) {
        lemma_word_is_clean(s.drop_first());
        lemma_word_len_bound(s.drop_first());
        assert forall|m: int| 0 <= m < word_len(s) implies !is_whitespace(#[trigger] s[m]) by {
            if m > 0 {
                assert(s[m] == s.drop_first()[m - 1]);
            }
        }
    }
}


/// The tags of two tag texts joined by a space are the tags of the first followed by
/// the tags of the second (each tag keeps its category, which depends on its name alone).
pub proof fn lemma_tags_of_joined_text(a: Seq<char>, b: Seq<char>)
    ensures
        split_whitespace(a + " "@ + b) == split_whitespace(a) + split_whitespace(b),
{
    reveal_strlit(" ");
    assert(" "@ =~= seq![' ']);
    assert(is_whitespace(' '));
    lemma_split_whitespace_join(a, ' ', b);
}

} // verus!
