//! Turning what the user typed into the address of a page: URLs, internal pages and searches.
use vstd::prelude::*;
use vstd::string::StrSliceExecFns;
use vstd::utf8::encode_utf8;
use crate::text::{
    contains, ends_with, has_infix, has_prefix, has_suffix, join, join3, lowercase, owned,
    replace_all, replaced, same_text, starts_with, to_lowercase, trim, trimmed,
};

verus! {

// ---------------------------------------------------------------------------------------
// The url crate
// ---------------------------------------------------------------------------------------

/// What `url::Url::parse` gives for an input: on success the serialization of the URL and
/// its host as text (`host_str`), on failure the text of the parse error.
pub uninterp spec fn url_parse(input: Seq<char>) -> Result<(Seq<char>, Option<Seq<char>>), Seq<char>>;

/// The parts of a parsed URL that the browser reads.
struct ParsedUrl {
    serialization: String,
    host: Option<String>,
}

/// Calls `url::Url::parse` and reads back the serialization (`to_string`) and `host_str` of
/// the URL, or the text of the `ParseError`. The contract only names the result
/// (`url_parse`); the WHATWG parsing rules are not restated.
#[verifier::external_body]
fn parse_url(input: &str) -> (r: Result<ParsedUrl, String>)
    ensures
        match r {
            Ok(p) => url_parse(input@) == Ok::<(Seq<char>, Option<Seq<char>>), Seq<char>>(
                (p.serialization@, crate::model::opt_text(p.host)),
            ),
            Err(e) => url_parse(input@) == Err::<(Seq<char>, Option<Seq<char>>), Seq<char>>(e@),
        },
{
    match url::Url::parse(input) {
        Ok(u) => Ok(
            ParsedUrl {
                serialization: u.to_string(),
                host: match u.host_str() {
                    Some(h) => Some(h.to_string()),
                    None => None,
                },
            },
        ),
        Err(e) => Err(e.to_string()),
    }
}

/// The hexadecimal digit for `d < 16`, upper case.
pub open spec fn hex_digit(d: nat) -> char {
    if d < 10 {
        (48 + d) as char
    } else {
        (55 + d) as char
    }
}

/// Bytes that `application/x-www-form-urlencoded` serialization keeps as they are.
pub open spec fn form_unreserved(b: u8) -> bool {
    ||| b == 0x2A
    ||| b == 0x2D
    ||| b == 0x2E
    ||| 0x30 <= b <= 0x39
    ||| 0x41 <= b <= 0x5A
    ||| b == 0x5F
    ||| 0x61 <= b <= 0x7A
}

/// The form-urlencoded text of one byte.
pub open spec fn form_byte(b: u8) -> Seq<char> {
    if form_unreserved(b) {
        seq![b as char]
    } else if b == 0x20 {
        seq!['+']
    } else {
        seq!['%', hex_digit((b / 16) as nat), hex_digit((b % 16) as nat)]
    }
}

/// The form-urlencoded text of a byte string (`form_urlencoded::byte_serialize`).
pub open spec fn form_bytes(bs: Seq<u8>) -> Seq<char>
    decreases bs.len(),
{
    if bs.len() == 0 {
        Seq::empty()
    } else {
        form_byte(bs[0]) + form_bytes(bs.drop_first())
    }
}

/// The form-urlencoded text of a string: its UTF-8 bytes, serialized.
pub open spec fn form_encode(s: Seq<char>) -> Seq<char> {
    form_bytes(encode_utf8(s))
}

/// One `name=value` pair of a form-urlencoded query.
pub open spec fn form_pair(name: Seq<char>, value: Seq<char>) -> Seq<char> {
    form_encode(name) + seq!['='] + form_encode(value)
}

/// Calls `form_urlencoded::Serializer::new(String::new())`, `append_pair(name, value)` and
/// `finish()`. On an empty target no `&` is written, so the result is the encoded name, `=`
/// and the encoded value, each encoded byte by byte from its UTF-8 form.
#[verifier::external_body]
fn encode_query_pair(name: &str, value: &str) -> (r: String)
    ensures
        r@ == form_pair(name@, value@),
{
    let mut serializer = url::form_urlencoded::Serializer::new(String::new());
    serializer.append_pair(name, value);
    serializer.finish()
}

// ---------------------------------------------------------------------------------------
// Internal pages
// ---------------------------------------------------------------------------------------

/// The address names one of the browser's own pages (new tab, history, bookmarks, settings).
pub open spec fn is_internal(url: Seq<char>) -> bool {
    ||| has_infix(url, "newtab.html"@)
    ||| has_infix(url, "history.html"@)
    ||| has_infix(url, "bookmarks.html"@)
    ||| has_infix(url, "settings.html"@)
}

proof fn lemma_equal_is_infix(s: Seq<char>, p: Seq<char>)
    requires
        s == p,
    ensures
        has_infix(s, p),
{
    assert(s.subrange(0, p.len() as int) =~= p);
    assert(crate::text::occurs_at(s, p, 0));
}

/// Whether `url` is one of the browser's own pages: equal to one of their file names or
/// containing one.
pub fn is_internal_url(url: &str) -> (r: bool)
    ensures
        r == is_internal(url@),
{
    let r = same_text(url, "newtab.html") || contains(url, "newtab.html") || same_text(
        url,
        "history.html",
    ) || contains(url, "history.html") || same_text(url, "bookmarks.html") || contains(
        url,
        "bookmarks.html",
    ) || same_text(url, "settings.html") || contains(url, "settings.html");
    proof {
        if url@ == "newtab.html"@ {
            lemma_equal_is_infix(url@, "newtab.html"@);
        }
        if url@ == "history.html"@ {
            lemma_equal_is_infix(url@, "history.html"@);
        }
        if url@ == "bookmarks.html"@ {
            lemma_equal_is_infix(url@, "bookmarks.html"@);
        }
        if url@ == "settings.html"@ {
            lemma_equal_is_infix(url@, "settings.html"@);
        }
    }
    r
}

/// Whether `url` is a page that opens like a new tab; the same pages as `is_internal_url`.
pub fn is_newtab_url(url: &str) -> (r: bool)
    ensures
        r == is_internal(url@),
{
    is_internal_url(url)
}

// ---------------------------------------------------------------------------------------
// Resolving typed input
// ---------------------------------------------------------------------------------------

/// The address of a search for `term` with the search engine `engine`: the engine's `%s`
/// placeholders replaced by the encoded term; or the encoded term appended when the engine
/// ends in `=` or `?`; or a `q=` query pair appended with `&` or `?`.
pub open spec fn search_address(engine: Seq<char>, term: Seq<char>) -> Seq<char> {
    let query = form_pair("q"@, term);
    let value = replaced(query, "q="@, ""@);
    if has_infix(engine, "%s"@) {
        replaced(engine, "%s"@, value)
    } else if has_suffix(engine, "="@) || has_suffix(engine, "?"@) {
        engine + value
    } else if has_infix(engine, "?"@) {
        engine + "&"@ + query
    } else {
        engine + "?"@ + query
    }
}

/// The scheme of the lower-cased input is one the browser refuses to open.
pub open spec fn blocked_scheme(lower: Seq<char>) -> bool {
    has_prefix(lower, "file://"@) || has_prefix(lower, "javascript:"@) || has_prefix(
        lower,
        "data:"@,
    )
}

/// A parsed URL's host makes typed text a web address: it has a dot or is `localhost`.
pub open spec fn host_accepted(host: Option<Seq<char>>) -> bool {
    match host {
        Some(h) => has_infix(h, "."@) || h == "localhost"@,
        None => false,
    }
}

/// Parsing `text` gives a URL whose host has a dot or is `localhost`.
pub open spec fn looks_like_host(text: Seq<char>) -> bool {
    match url_parse(text) {
        Ok(parsed) => host_accepted(parsed.1),
        Err(_) => false,
    }
}

/// Whether the lower-cased input starts with a refused scheme (`file://`, `javascript:`,
/// `data:`).
pub fn is_blocked_scheme(lower: &str) -> (r: bool)
    ensures
        r == blocked_scheme(lower@),
{
    starts_with(lower, "file://") || starts_with(lower, "javascript:") || starts_with(lower, "data:")
}

/// Whether the host of a parsed URL (`None`: no host) makes typed text a web address.
pub fn accepts_host(host: &Option<String>) -> (r: bool)
    ensures
        r == host_accepted(crate::model::opt_text(*host)),
{
    match host {
        Some(h) => contains(h.as_str(), ".") || same_text(h.as_str(), "localhost"),
        None => false,
    }
}

/// What typed input resolves to with the given search engine: the address to open, or the
/// reason it is refused.
pub open spec fn resolution(input: Seq<char>, engine: Seq<char>) -> Result<Seq<char>, Seq<char>> {
    let t = trimmed(input);
    if t.len() == 0 {
        Err("Empty input"@)
    } else if blocked_scheme(lowercase(t)) {
        Err("Blocked scheme: "@ + t)
    } else if has_prefix(t, "http://"@) || has_prefix(t, "https://"@) {
        match url_parse(t) {
            Ok(parsed) => Ok(parsed.0),
            Err(e) => Err("Invalid URL: "@ + e),
        }
    } else if looks_like_host("https://"@ + t) {
        Ok("https://"@ + t)
    } else {
        Ok(search_address(engine, t))
    }
}

fn host_like(with_scheme: &str) -> (r: bool)
    ensures
        r == looks_like_host(with_scheme@),
{
    match parse_url(with_scheme) {
        Ok(parsed) => accepts_host(&parsed.host),
        Err(_) => false,
    }
}

fn search_for(engine: &str, term: &str) -> (r: String)
    ensures
        r@ == search_address(engine@, term@),
{
    proof {
        reveal_strlit("q=");
        reveal_strlit("%s");
    }
    let query = encode_query_pair("q", term);
    let value = replace_all(query.as_str(), "q=", "");
    if contains(engine, "%s") {
        replace_all(engine, "%s", value.as_str())
    } else if ends_with(engine, "=") || ends_with(engine, "?") {
        join(engine, value.as_str())
    } else if contains(engine, "?") {
        join3(engine, "&", query.as_str())
    } else {
        join3(engine, "?", query.as_str())
    }
}

/// Resolves typed input against the search engine `search_engine_base`: trims it, refuses
/// empty input and the `file://`, `javascript:` and `data:` schemes, normalizes `http(s)://`
/// URLs, accepts bare host names (with a dot, or `localhost`) as `https://` addresses, and
/// searches for anything else.
pub fn resolve_input_with_engine(input: &str, search_engine_base: &str) -> (r: Result<
    String,
    String,
>)
    ensures
        match r {
            Ok(address) => resolution(input@, search_engine_base@) == Ok::<Seq<char>, Seq<char>>(
                address@,
            ),
            Err(reason) => resolution(input@, search_engine_base@) == Err::<Seq<char>, Seq<char>>(
                reason@,
            ),
        },
{
    let trimmed_input = trim(input);
    let t = trimmed_input.as_str();
    if t.unicode_len() == 0 {
        return Err(owned("Empty input"));
    }
    let lower = to_lowercase(t);
    if is_blocked_scheme(lower.as_str()) {
        return Err(join("Blocked scheme: ", t));
    }
    if starts_with(t, "http://") || starts_with(t, "https://") {
        return match parse_url(t) {
            Ok(parsed) => Ok(parsed.serialization),
            Err(e) => Err(join("Invalid URL: ", e.as_str())),
        };
    }
    let with_scheme = join("https://", t);
    if host_like(with_scheme.as_str()) {
        return Ok(with_scheme);
    }
    Ok(search_for(search_engine_base, t))
}

/// The search engine used when none is configured.
pub open spec fn default_engine() -> Seq<char> {
    "https://www.google.com/search?q="@
}

/// Resolves typed input with the default search engine.
pub fn resolve_input(input: &str) -> (r: Result<String, String>)
    ensures
        match r {
            Ok(address) => resolution(input@, default_engine()) == Ok::<Seq<char>, Seq<char>>(
                address@,
            ),
            Err(reason) => resolution(input@, default_engine()) == Err::<Seq<char>, Seq<char>>(
                reason@,
            ),
        },
{
    resolve_input_with_engine(input, "https://www.google.com/search?q=")
}

// ---------------------------------------------------------------------------------------
// What a new tab opens
// ---------------------------------------------------------------------------------------

/// The internal page a lower-cased request names, alone or as its last path segment.
pub open spec fn requested_page(lower: Seq<char>) -> Option<Seq<char>> {
    if lower == "history.html"@ || has_suffix(lower, "/history.html"@) {
        Some("history.html"@)
    } else if lower == "bookmarks.html"@ || has_suffix(lower, "/bookmarks.html"@) {
        Some("bookmarks.html"@)
    } else if lower == "settings.html"@ || has_suffix(lower, "/settings.html"@) {
        Some("settings.html"@)
    } else if lower == "newtab.html"@ || has_suffix(lower, "/newtab.html"@) {
        Some("newtab.html"@)
    } else {
        None
    }
}

/// The internal page the lower-cased request `lower` names, if any.
pub fn internal_page_request(lower: &str) -> (r: Option<String>)
    ensures
        crate::model::opt_text(r) == requested_page(lower@),
{
    if same_text(lower, "history.html") || ends_with(lower, "/history.html") {
        Some(owned("history.html"))
    } else if same_text(lower, "bookmarks.html") || ends_with(lower, "/bookmarks.html") {
        Some(owned("bookmarks.html"))
    } else if same_text(lower, "settings.html") || ends_with(lower, "/settings.html") {
        Some(owned("settings.html"))
    } else if same_text(lower, "newtab.html") || ends_with(lower, "/newtab.html") {
        Some(owned("newtab.html"))
    } else {
        None
    }
}

/// The page a new tab opens for a request (`None` or blank: the new-tab page): one of the
/// internal pages when the lower-cased request names it (alone or as the last path segment),
/// else the resolved address, which must also parse as a URL.
pub open spec fn tab_target(requested: Option<Seq<char>>, engine: Seq<char>) -> Result<
    Seq<char>,
    Seq<char>,
> {
    match requested {
        Some(u) => if trimmed(u).len() == 0 {
            Ok("newtab.html"@)
        } else {
            match requested_page(lowercase(trimmed(u))) {
                Some(page) => Ok(page),
                None => 
                match resolution(u, engine) {
                    Ok(address) => match url_parse(address) {
                        Ok(_) => Ok(address),
                        Err(e) => Err(e),
                    },
                    Err(e) => Err(e),
                },
            }
        },
        None => Ok("newtab.html"@),
    }
}

/// Decides what a new tab opens for the request `requested`, using `engine` for searches.
pub fn plan_tab_target(requested: &Option<String>, engine: &str) -> (r: Result<String, String>)
    ensures
        match r {
            Ok(page) => tab_target(crate::model::opt_text(*requested), engine@) == Ok::<
                Seq<char>,
                Seq<char>,
            >(page@),
            Err(reason) => tab_target(crate::model::opt_text(*requested), engine@) == Err::<
                Seq<char>,
                Seq<char>,
            >(reason@),
        },
{
    match requested {
        Some(u) => {
            let t = trim(u.as_str());
            if t.as_str().unicode_len() == 0 {
                return Ok(owned("newtab.html"));
            }
            let lower = to_lowercase(t.as_str());
            if let Some(page) = internal_page_request(lower.as_str()) {
                Ok(page)
            } else {
                let resolved = resolve_input_with_engine(u.as_str(), engine)?;
                match parse_url(resolved.as_str()) {
                    Ok(_) => Ok(resolved),
                    Err(e) => Err(e),
                }
            }
        },
        None => Ok(owned("newtab.html")),
    }
}

/// Resolves the address for `navigate`: the input with the default search engine, which
/// must also parse as a URL.
pub open spec fn navigation_target(input: Seq<char>) -> Result<Seq<char>, Seq<char>> {
    match resolution(input, default_engine()) {
        Ok(address) => match url_parse(address) {
            Ok(_) => Ok(address),
            Err(e) => Err(e),
        },
        Err(e) => Err(e),
    }
}

/// The address `navigate` goes to for the typed input, or why it refuses.
pub fn plan_navigation(input: &str) -> (r: Result<String, String>)
    ensures
        match r {
            Ok(address) => navigation_target(input@) == Ok::<Seq<char>, Seq<char>>(address@),
            Err(reason) => navigation_target(input@) == Err::<Seq<char>, Seq<char>>(reason@),
        },
{
    let full = resolve_input(input)?;
    match parse_url(full.as_str()) {
        Ok(_) => Ok(full),
        Err(e) => Err(e),
    }
}

// ---------------------------------------------------------------------------------------
// Laws
// ---------------------------------------------------------------------------------------

/// Blank input, and input whose scheme is `file://`, `javascript:` or `data:` in any letter
/// case, is always refused, whatever the search engine.
pub proof fn law_refused_inputs(input: Seq<char>, engine: Seq<char>)
    ensures
        trimmed(input).len() == 0 ==> resolution(input, engine) == Err::<Seq<char>, Seq<char>>(
            "Empty input"@,
        ),
        trimmed(input).len() > 0 && blocked_scheme(lowercase(trimmed(input))) ==> resolution(
            input,
            engine,
        ) == Err::<Seq<char>, Seq<char>>("Blocked scheme: "@ + trimmed(input)),
{
}

proof fn lemma_form_bytes_no_equals(bs: Seq<u8>)
    ensures
        forall|i: int| 0 <= i < form_bytes(bs).len() ==> #[trigger] form_bytes(bs)[i] != '=',
    decreases bs.len(),
{
    if bs.len() > 0 {
        lemma_form_bytes_no_equals(bs.drop_first());
        let b = bs[0];
        let head = form_byte(b);
        let tail = form_bytes(bs.drop_first());
        assert forall|i: int| 0 <= i < head.len() implies #[trigger] head[i] != '=' by {
            if form_unreserved(b) {
                assert(b as char as u32 == b as u32);
            } else if b == 0x20 {
            } else {
                let hi = (b / 16) as nat;
                let lo = (b % 16) as nat;
                assert(hex_digit(hi) as u32 != 61);
                assert(hex_digit(lo) as u32 != 61);
            }
        }
        assert forall|i: int| 0 <= i < form_bytes(bs).len() implies #[trigger] form_bytes(bs)[i] != '=' by {
            assert(form_bytes(bs) == head + tail);
            if i < head.len() {
                assert(form_bytes(bs)[i] == head[i]);
            } else {
                assert(form_bytes(bs)[i] == tail[i - head.len()]);
            }
        }
    }
}

proof fn lemma_replace_absent(x: Seq<char>)
    requires
        forall|i: int| 0 <= i < x.len() ==> #[trigger] x[i] != '=',
    ensures
        replaced(x, "q="@, ""@) == x,
    decreases x.len(),
{
    reveal_strlit("q=");
    reveal_strlit("");
    if x.len() >= 2 {
        assert(x.subrange(0, 2)[1] != '=');
        assert(x.subrange(0, 2) != "q="@);
        lemma_replace_absent(x.drop_first());
        assert(seq![x[0]] + x.drop_first() =~= x);
    }
}

/// The value a search puts into the engine's address is the form-urlencoded search term:
/// removing `q=` from the encoded query pair removes exactly its leading name.
pub proof fn law_search_value_is_encoded_term(term: Seq<char>)
    ensures
        replaced(form_pair("q"@, term), "q="@, ""@) == form_encode(term),
{
    reveal_strlit("q");
    reveal_strlit("q=");
    reveal_strlit("");
    let q = "q"@;
    assert(q.drop_first() =~= Seq::<char>::empty());
    assert(encode_utf8(q) =~= seq![0x71u8]) by {
        assert(q[0] as u32 == 0x71);
        assert((0x71u32 & 0x7Fu32) == 0x71u32) by (bit_vector);
        assert(encode_utf8(Seq::<char>::empty()) =~= Seq::<u8>::empty());
    }
    assert(seq![0x71u8].drop_first() =~= Seq::<u8>::empty());
    assert(form_byte(0x71u8) =~= seq!['q']);
    assert(form_bytes(Seq::<u8>::empty()) =~= Seq::<char>::empty());
    assert(form_bytes(seq![0x71u8]) == form_byte(0x71u8) + form_bytes(seq![0x71u8].drop_first()));
    assert(form_encode(q) =~= seq!['q']);
    let x = form_encode(term);
    lemma_form_bytes_no_equals(encode_utf8(term));
    let pair = form_pair(q, term);
    assert(pair =~= "q="@ + x);
    assert(pair.subrange(0, 2) =~= "q="@);
    assert(pair.skip(2) =~= x);
    lemma_replace_absent(x);
    assert(""@ + x =~= x);
}

/// An engine ending in `=` or `?` (and without a `%s` placeholder) gets the encoded search
/// term appended.
pub proof fn law_search_appends_term(engine: Seq<char>, term: Seq<char>)
    requires
        !has_infix(engine, "%s"@),
        has_suffix(engine, "="@) || has_suffix(engine, "?"@),
    ensures
        search_address(engine, term) == engine + form_encode(term),
{
    law_search_value_is_encoded_term(term);
}

} // verus!
