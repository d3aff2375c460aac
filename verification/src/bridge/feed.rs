//! Provider answers: the search hits in an RSS feed or a JSON body.
use crate::codec::{json_of_text, parse};
use crate::json::{items_view, lemma_items_view, Json, JsonV};
use crate::numbers::{number_in, parse_number};
use crate::text::{
    chars_of, concat3, find, find_from, is_empty, lemma_find_from, lemma_trimmed, matches_at,
    opt_text, or_empty, owned_or_empty, same, text_of, trim, trimmed,
};
use vstd::prelude::*;

verus! {

broadcast use vstd::string::group_string_axioms;

/// One provider result.
#[derive(Debug, PartialEq, Eq)]
pub struct SearchHit {
    pub title: String,
    pub url: String,
    pub snippet: String,
    pub page_age: Option<String>,
}

/// The view of a [`SearchHit`].
#[verifier::ext_equal]
pub struct SearchHitV {
    pub title: Seq<char>,
    pub url: Seq<char>,
    pub snippet: Seq<char>,
    pub page_age: Option<Seq<char>>,
}

impl View for SearchHit {
    type V = SearchHitV;

    open spec fn view(&self) -> SearchHitV {
        SearchHitV {
            title: self.title@,
            url: self.url@,
            snippet: self.snippet@,
            page_age: opt_text(self.page_age),
        }
    }
}

impl Clone for SearchHit {
    fn clone(&self) -> (r: Self)
        ensures
            r@ == self@,
    {
        SearchHit {
            title: self.title.clone(),
            url: self.url.clone(),
            snippet: self.snippet.clone(),
            page_age: match &self.page_age {
                Some(age) => Some(age.clone()),
                None => None,
            },
        }
    }
}

impl Default for SearchHit {
    fn default() -> (r: Self)
        ensures
            r@ == (SearchHitV {
                title: Seq::empty(),
                url: Seq::empty(),
                snippet: Seq::empty(),
                page_age: None,
            }),
    {
        SearchHit {
            title: String::new(),
            url: String::new(),
            snippet: String::new(),
            page_age: None,
        }
    }
}

/// The views of a list of hits.
pub open spec fn hits_view(hits: Seq<SearchHit>) -> Seq<SearchHitV> {
    hits.map_values(|h: SearchHit| h@)
}

/// Whether Unicode counts a character beyond ASCII as a letter or a digit.
pub uninterp spec fn alphanumeric(c: char) -> bool;

/// Whether an ASCII character is a letter or a digit.
pub open spec fn ascii_alphanumeric(c: char) -> bool {
    'A' <= c <= 'Z' || 'a' <= c <= 'z' || '0' <= c <= '9'
}

/// Whether a character is a letter or a digit.
pub open spec fn letter_or_digit(c: char) -> bool {
    if c <= '\x7f' {
        ascii_alphanumeric(c)
    } else {
        alphanumeric(c)
    }
}

/// `char::is_alphanumeric`: of the ASCII characters, the letters and the
/// digits; of the others, what Unicode says of the character alone.
#[verifier::external_body]
fn is_alphanumeric(c: char) -> (r: bool)
    ensures
        c <= '\x7f' ==> r == ascii_alphanumeric(c),
        c > '\x7f' ==> r == alphanumeric(c),
{
    c.is_alphanumeric()
}

/// `char::from_u32`: the character with the given code, where that is a
/// Unicode scalar value.
#[verifier::external_body]
fn char_with_code(code: u32) -> (r: Option<char>)
    ensures
        r == scalar(Some(code as nat)),
{
    char::from_u32(code)
}

/// The character that a number stands for, if it is a scalar value.
pub open spec fn scalar(v: Option<nat>) -> Option<char> {
    match v {
        Some(v) => if v <= 0xd7ff || 0xe000 <= v <= 0x10ffff {
            Some(v as char)
        } else {
            None
        },
        None => None,
    }
}

/// The character that an XML entity, its name without `&` and `;`, stands
/// for: one of the standard five, or a character reference.
pub open spec fn entity(name: Seq<char>) -> Option<char> {
    if name == "amp"@ {
        Some('&')
    } else if name == "lt"@ {
        Some('<')
    } else if name == "gt"@ {
        Some('>')
    } else if name == "quot"@ {
        Some('"')
    } else if name == "apos"@ {
        Some('\'')
    } else if name.len() == 0 || name[0] != '#' {
        None
    } else {
        let rest = name.drop_first();
        if rest.len() > 0 && (rest[0] == 'x' || rest[0] == 'X') {
            scalar(number_in(rest.drop_first(), 16, u32::MAX as nat))
        } else {
            scalar(number_in(rest, 10, u32::MAX as nat))
        }
    }
}

/// The first place of a character at or after `from`; the length of `s`
/// where it does not occur.
pub open spec fn next_char(s: Seq<char>, c: char, from: int) -> int
    decreases s.len() - from,
{
    if from < 0 || from >= s.len() {
        s.len() as int
    } else if s[from] == c {
        from
    } else {
        next_char(s, c, from + 1)
    }
}

/// The next place lies in the rest of the text.
pub proof fn lemma_next_char(s: Seq<char>, c: char, from: int)
    requires
        0 <= from <= s.len(),
    ensures
        from <= next_char(s, c, from) <= s.len(),
        next_char(s, c, from) < s.len() ==> s[next_char(s, c, from)] == c,
    decreases s.len() - from,
{
    if from < s.len() && s[from] != c {
        lemma_next_char(s, c, from + 1);
    }
}

/// The text from `from` on with its entities replaced. A bare ampersand and
/// an unknown entity stay as they are.
pub open spec fn unescaped_from(s: Seq<char>, from: int) -> Seq<char>
    decreases s.len() - from,
{
    if from < 0 || from >= s.len() {
        Seq::empty()
    } else if s[from] != '&' {
        seq![s[from]] + unescaped_from(s, from + 1)
    } else {
        let end = next_char(s, ';', from + 1);
        proof {
            lemma_next_char(s, ';', from + 1);
        }
        if end >= s.len() {
            seq!['&'] + unescaped_from(s, from + 1)
        } else {
            match entity(s.subrange(from + 1, end)) {
                Some(c) => seq![c] + unescaped_from(s, end + 1),
                None => s.subrange(from, end + 1) + unescaped_from(s, end + 1),
            }
        }
    }
}

/// A text with its XML entities replaced.
pub open spec fn unescaped(s: Seq<char>) -> Seq<char> {
    unescaped_from(s, 0)
}

/// The text inside a CDATA section, where the whole text is one.
pub open spec fn without_cdata(s: Seq<char>) -> Seq<char> {
    let open = "<![CDATA["@;
    let close = "]]>"@;
    if open.is_prefix_of(s) && close.is_suffix_of(s.skip(open.len() as int)) {
        trimmed(s.subrange(open.len() as int, s.len() - close.len()))
    } else {
        s
    }
}

/// The text of the first element with the given tag; none where there is no
/// such element or its text is blank.
pub open spec fn element_text(item: Seq<char>, tag: Seq<char>) -> Option<Seq<char>> {
    let open = "<"@ + tag + ">"@;
    let close = "</"@ + tag + ">"@;
    match find_from(item, open, 0) {
        None => None,
        Some(i) => {
            let start = i + open.len();
            match find_from(item, close, start) {
                None => None,
                Some(end) => {
                    let text = trimmed(
                        without_cdata(unescaped(trimmed(item.subrange(start, end)))),
                    );
                    if text.len() > 0 {
                        Some(text)
                    } else {
                        None
                    }
                },
            }
        },
    }
}

/// The hit of a feed item; an item without a link is none.
pub open spec fn item_hit(item: Seq<char>) -> Option<SearchHitV> {
    match element_text(item, "link"@) {
        None => None,
        Some(url) => Some(
            SearchHitV {
                title: or_empty(element_text(item, "title"@)),
                url,
                snippet: or_empty(element_text(item, "description"@)),
                page_age: match element_text(item, "pubDate"@) {
                    Some(age) => Some(age),
                    None => element_text(item, "dc:date"@),
                },
            },
        ),
    }
}

/// The hits of the feed items from `pos` on. `<item` followed by a letter or
/// a digit opens another element; an item that nothing closes ends the feed.
pub open spec fn hits_from(xml: Seq<char>, pos: int) -> Seq<SearchHitV>
    decreases xml.len() + 8 - pos,
{
    if pos < 0 {
        Seq::empty()
    } else {
        match find_from(xml, "<item"@, pos) {
            None => Seq::empty(),
            Some(at) => {
                proof {
                    lemma_find_from(xml, "<item"@, pos);
                }
                let start = at + 5;
                if start < xml.len() && letter_or_digit(xml[start]) {
                    hits_from(xml, start)
                } else {
                    match find_from(xml, "</item>"@, start) {
                        None => Seq::empty(),
                        Some(end) => {
                            proof {
                                lemma_find_from(xml, "</item>"@, start);
                            }
                            let rest = hits_from(xml, end + 7);
                            match item_hit(xml.subrange(start, end)) {
                                Some(hit) => seq![hit] + rest,
                                None => rest,
                            }
                        },
                    }
                }
            },
        }
    }
}

/// Whether `a` is one feed item and no more: it opens an item, and the first
/// thing that closes it is its end.
pub open spec fn closed_item(a: Seq<char>) -> bool {
    &&& matches_at(a, "<item"@, 0)
    &&& a.len() > 5 && !letter_or_digit(a[5])
    &&& matches_at(a, "</item>"@, a.len() - 7)
    &&& forall|j: int| 5 <= j < a.len() - 7 ==> !matches_at(a, "</item>"@, j)
}

/// A text from `<item>` to the one `</item>` it holds is a closed item.
pub proof fn law_plain_items_are_closed(a: Seq<char>)
    requires
        "<item>"@.is_prefix_of(a),
        "</item>"@.is_suffix_of(a),
        forall|j: int| 0 <= j < a.len() - 7 ==> !matches_at(a, "</item>"@, j),
    ensures
        closed_item(a),
{
    reveal_strlit("<item>");
    reveal_strlit("<item");
    reveal_strlit("</item>");
    let head = a.subrange(0, 6);
    assert(head == "<item>"@);
    assert(forall|i: int| 0 <= i < 6 ==> a[i] == head[i]);
    assert(a.subrange(0, 5) =~= "<item"@);
    assert(a.subrange(a.len() - 7, a.len() as int) == "</item>"@);
}

/// A search that starts in the second of two texts finds what it finds there.
proof fn lemma_find_shifted(a: Seq<char>, b: Seq<char>, needle: Seq<char>, from: int)
    requires
        0 <= from,
    ensures
        find_from(a + b, needle, a.len() + from) == match find_from(b, needle, from) {
            Some(i) => Some(a.len() + i),
            None => None,
        },
    decreases b.len() - from + 1,
{
    if from + needle.len() <= b.len() {
        let at = a.len() + from;
        assert((a + b).subrange(at, at + needle.len()) == b.subrange(from, from + needle.len()));
        if !matches_at(b, needle, from) {
            lemma_find_shifted(a, b, needle, from + 1);
        }
    }
}

/// The hits from a place on, given where the next item opens and closes.
proof fn lemma_hits_step(xml: Seq<char>, pos: int)
    requires
        0 <= pos,
    ensures
        hits_from(xml, pos) == match find_from(xml, "<item"@, pos) {
            None => Seq::empty(),
            Some(at) => if at + 5 < xml.len() && letter_or_digit(xml[at + 5]) {
                hits_from(xml, at + 5)
            } else {
                match find_from(xml, "</item>"@, at + 5) {
                    None => Seq::empty(),
                    Some(end) => match item_hit(xml.subrange(at + 5, end)) {
                        Some(hit) => seq![hit] + hits_from(xml, end + 7),
                        None => hits_from(xml, end + 7),
                    },
                }
            },
        },
{
}

/// The hits from a place in the second of two texts are those it has by
/// itself.
proof fn lemma_hits_shifted(a: Seq<char>, b: Seq<char>, pos: int)
    requires
        0 <= pos,
    ensures
        hits_from(a + b, a.len() + pos) == hits_from(b, pos),
    decreases b.len() + 8 - pos,
{
    let xml = a + b;
    let n = a.len();
    lemma_hits_step(xml, n + pos);
    lemma_hits_step(b, pos);
    lemma_find_shifted(a, b, "<item"@, pos);
    if let Some(at) = find_from(b, "<item"@, pos) {
        let start = at + 5;
        assert(pos <= at && start <= b.len()) by {
            lemma_find_from(b, "<item"@, pos);
            reveal_strlit("<item");
        }
        if start < b.len() && letter_or_digit(b[start]) {
            assert(xml[n + start] == b[start]);
            lemma_hits_shifted(a, b, start);
        } else {
            assert(start < b.len() ==> xml[n + start] == b[start]);
            lemma_find_shifted(a, b, "</item>"@, start);
            if let Some(end) = find_from(b, "</item>"@, start) {
                assert(start <= end && end + 7 <= b.len()) by {
                    lemma_find_from(b, "</item>"@, start);
                    reveal_strlit("</item>");
                }
                assert(xml.subrange(n + start, n + end) == b.subrange(start, end));
                lemma_hits_shifted(a, b, end + 7);
            }
        }
    }
}

/// A closed item in front of a text gives its own hit, and the text the hits
/// it has by itself.
pub proof fn lemma_item_in_front(a: Seq<char>, b: Seq<char>)
    requires
        closed_item(a),
    ensures
        hits_from(a + b, 0) == match item_hit(a.subrange(5, a.len() - 7)) {
            Some(hit) => seq![hit] + hits_from(b, 0),
            None => hits_from(b, 0),
        },
{
    let open = "<item"@;
    let close = "</item>"@;
    let end = a.len() - 7;
    let xml = a + b;
    assert(open.len() == 5 && close.len() == 7 && end >= 5) by {
        reveal_strlit("<item");
        reveal_strlit("</item>");
        let head = a.subrange(0, 5);
        let tail = a.subrange(end, end + 7);
        assert(forall|i: int| 0 <= i < 5 ==> a[i] == head[i]);
        assert(a[end] == tail[0] && a[end + 1] == tail[1]);
    }
    assert(find_from(xml, open, 0) == Some(0int)) by {
        assert(xml.subrange(0, 5) == a.subrange(0, 5));
        assert(matches_at(xml, open, 0));
    }
    assert(find_from(xml, close, 5) == Some(end)) by {
        assert(xml.subrange(end, end + 7) == a.subrange(end, end + 7));
        assert(matches_at(xml, close, end));
        assert forall|j: int| 5 <= j < end implies !matches_at(xml, close, j) by {
            assert(xml.subrange(j, j + 7) == a.subrange(j, j + 7));
            assert(!matches_at(a, close, j));
        }
        lemma_find_from(xml, close, 5);
    }
    assert(xml[5] == a[5]);
    assert(xml.subrange(5, end) == a.subrange(5, end));
    lemma_hits_step(xml, 0);
    lemma_hits_shifted(a, b, 0);
}

/// Feed items stand alone: a closed item in front of any text adds at most
/// its own hit, and leaves the hits of the rest as they were.
pub proof fn law_feed_items_stand_alone(a: Seq<char>, b: Seq<char>)
    requires
        closed_item(a),
    ensures
        hits_from(a + b, 0) == hits_from(a, 0) + hits_from(b, 0),
        hits_from(a, 0).len() <= 1,
{
    let none = Seq::<char>::empty();
    lemma_item_in_front(a, b);
    lemma_item_in_front(a, none);
    assert(a + none == a);
    reveal_strlit("<item");
    assert(find_from(none, "<item"@, 0) is None);
    assert(hits_from(none, 0) == Seq::<SearchHitV>::empty());
    if let Some(hit) = item_hit(a.subrange(5, a.len() - 7)) {
        assert(seq![hit] + Seq::<SearchHitV>::empty() == seq![hit]);
    } else {
        assert(Seq::<SearchHitV>::empty() + hits_from(b, 0) == hits_from(b, 0));
    }
}

/// Whether a hit's texts are clean: a link that is there, no white space
/// around any of them, and no empty age.
pub open spec fn clean_hit(hit: SearchHitV) -> bool {
    &&& hit.url.len() > 0
    &&& trimmed(hit.url) == hit.url
    &&& trimmed(hit.title) == hit.title
    &&& trimmed(hit.snippet) == hit.snippet
    &&& hit.page_age is Some ==> hit.page_age->0.len() > 0 && trimmed(hit.page_age->0)
        == hit.page_age->0
}

proof fn lemma_element_text(item: Seq<char>, tag: Seq<char>)
    ensures
        element_text(item, tag) matches Some(t) ==> t.len() > 0,
        trimmed(or_empty(element_text(item, tag))) == or_empty(element_text(item, tag)),
{
    let open = "<"@ + tag + ">"@;
    let close = "</"@ + tag + ">"@;
    if let Some(i) = find_from(item, open, 0) {
        let start = i + open.len();
        if let Some(end) = find_from(item, close, start) {
            lemma_trimmed(without_cdata(unescaped(trimmed(item.subrange(start, end)))));
        }
    }
}

proof fn lemma_item_hit(item: Seq<char>)
    ensures
        item_hit(item) matches Some(hit) ==> clean_hit(hit),
{
    lemma_element_text(item, "link"@);
    lemma_element_text(item, "title"@);
    lemma_element_text(item, "description"@);
    lemma_element_text(item, "pubDate"@);
    lemma_element_text(item, "dc:date"@);
}

/// Every hit of a feed is clean.
pub proof fn law_feed_hits_are_clean(xml: Seq<char>, pos: int)
    requires
        0 <= pos,
    ensures
        forall|i: int| 0 <= i < hits_from(xml, pos).len() ==> clean_hit(
            #[trigger] hits_from(xml, pos)[i],
        ),
    decreases xml.len() + 8 - pos,
{
    lemma_hits_step(xml, pos);
    if let Some(at) = find_from(xml, "<item"@, pos) {
        let start = at + 5;
        assert(pos <= at && start <= xml.len()) by {
            lemma_find_from(xml, "<item"@, pos);
            reveal_strlit("<item");
        }
        if start < xml.len() && letter_or_digit(xml[start]) {
            law_feed_hits_are_clean(xml, start);
        } else if let Some(end) = find_from(xml, "</item>"@, start) {
            assert(start <= end && end + 7 <= xml.len()) by {
                lemma_find_from(xml, "</item>"@, start);
                reveal_strlit("</item>");
            }
            law_feed_hits_are_clean(xml, end + 7);
            lemma_item_hit(xml.subrange(start, end));
            let rest = hits_from(xml, end + 7);
            if let Some(hit) = item_hit(xml.subrange(start, end)) {
                let all = seq![hit] + rest;
                assert forall|i: int| 0 <= i < all.len() implies clean_hit(#[trigger] all[i]) by {
                    if i > 0 {
                        assert(all[i] == rest[i - 1]);
                    }
                }
                assert(hits_from(xml, pos) == all);
            }
        }
    }
}

/// The hit of a JSON result; one without a url is none.
pub open spec fn json_hit(item: JsonV) -> Option<SearchHitV> {
    let url = trimmed(or_empty(item.get_str("url"@)));
    if url.len() == 0 {
        None
    } else {
        Some(
            SearchHitV {
                title: or_empty(item.get_str("title"@)),
                url,
                snippet: or_empty(item.get_str("snippet"@)),
                page_age: item.get_str("page_age"@),
            },
        )
    }
}

/// The hits of JSON results, in order.
pub open spec fn json_hits(items: Seq<JsonV>) -> Seq<SearchHitV>
    decreases items.len(),
{
    if items.len() == 0 {
        Seq::empty()
    } else {
        let head = json_hits(items.drop_last());
        match json_hit(items.last()) {
            Some(hit) => head.push(hit),
            None => head,
        }
    }
}

/// The hits of a JSON provider body: an array, or an object with `results`.
pub open spec fn hits_of_json(body: Option<JsonV>) -> Seq<SearchHitV> {
    match body {
        Some(JsonV::Array(items)) => json_hits(items),
        Some(v) => json_hits(v.list("results"@)),
        None => Seq::empty(),
    }
}

/// The character that a code stands for.
fn scalar_of(code: Option<u64>) -> (r: Option<char>)
    requires
        code is Some ==> code->0 <= u32::MAX,
    ensures
        r == scalar(
            match code {
                Some(v) => Some(v as nat),
                None => None,
            },
        ),
{
    match code {
        Some(code) => char_with_code(code as u32),
        None => None,
    }
}

/// The character that an XML entity stands for.
fn decode_entity(name: &Vec<char>) -> (r: Option<char>)
    ensures
        r == entity(name@),
{
    let text = crate::text::text_from(name);
    let s = text.as_str();
    if same(s, "amp") {
        Some('&')
    } else if same(s, "lt") {
        Some('<')
    } else if same(s, "gt") {
        Some('>')
    } else if same(s, "quot") {
        Some('"')
    } else if same(s, "apos") {
        Some('\'')
    } else if name.len() == 0 || name[0] != '#' {
        None
    } else if name.len() > 1 && (name[1] == 'x' || name[1] == 'X') {
        assert(name@.drop_first().drop_first() == name@.skip(2));
        scalar_of(parse_number(name, 2, 16, u32::MAX as u64))
    } else {
        assert(name@.drop_first() == name@.skip(1));
        scalar_of(parse_number(name, 1, 10, u32::MAX as u64))
    }
}

/// The first place of a character at or after `from`.
fn find_char(s: &Vec<char>, c: char, from: usize) -> (r: usize)
    requires
        from <= s@.len(),
    ensures
        r == next_char(s@, c, from as int),
        from <= r <= s@.len(),
{
    let mut i: usize = from;
    while i < s.len() && s[i] != c
        invariant
            from <= i <= s@.len(),
            next_char(s@, c, from as int) == next_char(s@, c, i as int),
        decreases s@.len() - i,
    {
        i = i + 1;
    }
    i
}

/// A text with its XML entities replaced: the standard five and character
/// references.
pub fn unescape_xml(s: &str) -> (r: String)
    ensures
        r@ == unescaped(s@),
{
    let chars = chars_of(s);
    let n: usize = chars.len();
    let mut out = String::new();
    let mut i: usize = 0;
    while i < n
        invariant
            i <= n == chars@.len(),
            chars@ == s@,
            out@ + unescaped_from(chars@, i as int) == unescaped(chars@),
        decreases n - i,
    {
        let ghost before = out@;
        let ghost rest = unescaped_from(chars@, i as int);
        if chars[i] != '&' {
            out.push(chars[i]);
            i = i + 1;
            assert(before + rest == out@ + unescaped_from(chars@, i as int));
        } else {
            let end: usize = find_char(&chars, ';', i + 1);
            if end == n {
                // A bare ampersand with no entity: keep it literal.
                out.push('&');
                i = i + 1;
                assert(before + rest == out@ + unescaped_from(chars@, i as int));
            } else {
                let name_text = text_of(&chars, i + 1, end);
                let name = chars_of(name_text.as_str());
                match decode_entity(&name) {
                    Some(c) => out.push(c),
                    // An unknown entity stays in the text verbatim.
                    None => {
                        let raw = text_of(&chars, i, end + 1);
                        out.append(raw.as_str());
                    },
                }
                i = end + 1;
                assert(before + rest == out@ + unescaped_from(chars@, i as int));
            }
        }
    }
    out
}

/// The text inside a CDATA section, where the whole text is one.
fn strip_cdata(text: String) -> (r: String)
    ensures
        r@ == without_cdata(text@),
{
    let chars = chars_of(text.as_str());
    let open = chars_of("<![CDATA[");
    let close = chars_of("]]>");
    let n: usize = chars.len();
    let a: usize = open.len();
    let b: usize = close.len();
    if n < a || n - a < b {
        proof {
            if open@.is_prefix_of(text@) && close@.is_suffix_of(text@.skip(a as int)) {
                assert(text@.skip(a as int).len() == n - a);
            }
        }
        return text;
    }
    let head = text_of(&chars, 0, a);
    let tail = text_of(&chars, n - b, n);
    proof {
        assert(open@.is_prefix_of(text@) <==> head@ == open@);
        let rest = text@.skip(a as int);
        assert(rest.subrange(rest.len() - b, rest.len() as int) == tail@);
        assert(close@.is_suffix_of(rest) <==> tail@ == close@);
    }
    if same(head.as_str(), "<![CDATA[") && same(tail.as_str(), "]]>") {
        let inner = text_of(&chars, a, n - b);
        trim(inner.as_str()).to_owned()
    } else {
        text
    }
}

/// The text of the first element with the given tag.
fn rss_text(item: &Vec<char>, tag: &str) -> (r: Option<String>)
    ensures
        opt_text(r) == element_text(item@, tag@),
{
    let open_text = concat3("<", tag, ">");
    let close_text = concat3("</", tag, ">");
    let open = chars_of(open_text.as_str());
    let close = chars_of(close_text.as_str());
    proof {
        lemma_find_from(item@, open@, 0);
    }
    let at: usize = match find(item, &open, 0) {
        Some(i) => i,
        None => {
            return None;
        },
    };
    assert(item.len() <= usize::MAX);
    let start: usize = at + open.len();
    proof {
        lemma_find_from(item@, close@, start as int);
    }
    let end: usize = match find(item, &close, start) {
        Some(j) => j,
        None => {
            return None;
        },
    };
    let raw = text_of(item, start, end);
    let plain = strip_cdata(unescape_xml(trim(raw.as_str())));
    let text = trim(plain.as_str());
    if is_empty(text) {
        None
    } else {
        Some(text.to_owned())
    }
}

/// The hit of a feed item.
fn hit_of_item(item: &Vec<char>) -> (r: Option<SearchHit>)
    ensures
        match (r, item_hit(item@)) {
            (Some(a), Some(b)) => a@ == b,
            (None, None) => true,
            _ => false,
        },
{
    let url = match rss_text(item, "link") {
        Some(url) => url,
        None => {
            return None;
        },
    };
    let title = match rss_text(item, "title") {
        Some(t) => t,
        None => String::new(),
    };
    let snippet = match rss_text(item, "description") {
        Some(t) => t,
        None => String::new(),
    };
    let page_age = match rss_text(item, "pubDate") {
        Some(age) => Some(age),
        None => rss_text(item, "dc:date"),
    };
    Some(SearchHit { title, url, snippet, page_age })
}

/// The minimal `<item>` extraction the keyless RSS feeds need: title,
/// link, description, pubDate. No CDATA-in-CDATA or entity soup beyond
/// the standard five entities; a feed that is not parseable this way
/// yields no results (the model sees an empty result set, not an error).
pub fn parse_rss(xml: &str) -> (r: Vec<SearchHit>)
    ensures
        hits_view(r@) == hits_from(xml@, 0),
{
    let chars = chars_of(xml);
    let open = chars_of("<item");
    let close = chars_of("</item>");
    proof {
        reveal_strlit("<item");
        reveal_strlit("</item>");
    }
    let n: usize = chars.len();
    let mut hits: Vec<SearchHit> = Vec::new();
    let mut pos: usize = 0;
    assert(hits_view(hits@) == Seq::<SearchHitV>::empty());
    loop
        invariant
            n == chars@.len(),
            chars@ == xml@,
            open@ == "<item"@,
            close@ == "</item>"@,
            open@.len() == 5,
            close@.len() == 7,
            pos <= n,
            hits_view(hits@) + hits_from(xml@, pos as int) == hits_from(xml@, 0),
        ensures
            hits_view(hits@) == hits_from(xml@, 0),
        decreases n - pos,
    {
        proof {
            lemma_find_from(chars@, open@, pos as int);
        }
        let at: usize = match find(&chars, &open, pos) {
            Some(at) => at,
            None => {
                assert(hits_view(hits@) + Seq::<SearchHitV>::empty() == hits_view(hits@));
                break;
            },
        };
        let start: usize = at + 5;
        // `<items>`-style false positives: an alphanumeric tag character
        // after `<item` is not an item element.
        if start < n && is_alphanumeric(chars[start]) {
            pos = start;
            continue;
        }
        proof {
            lemma_find_from(chars@, close@, start as int);
        }
        let end: usize = match find(&chars, &close, start) {
            Some(end) => end,
            None => {
                assert(hits_view(hits@) + Seq::<SearchHitV>::empty() == hits_view(hits@));
                break;
            },
        };
        let ghost before = hits@;
        let ghost rest = hits_from(xml@, end + 7);
        let item_text = text_of(&chars, start, end);
        let item = chars_of(item_text.as_str());
        match hit_of_item(&item) {
            Some(hit) => {
                hits.push(hit);
                assert(hits_view(hits@) == hits_view(before).push(hit@));
                assert(hits_view(before).push(hit@) + rest == hits_view(before) + (seq![hit@]
                    + rest));
            },
            None => {},
        }
        pos = end + 7;
    }
    hits
}

/// The JSON provider contract: `{"results": [...]}` or a bare array, each
/// item `{ "url", "title", "snippet", "page_age" }` (only `url` required).
pub fn parse_json(body: &str) -> (r: Vec<SearchHit>)
    ensures
        hits_view(r@) == hits_of_json(json_of_text(body@)),
{
    match parse(body) {
        Some(v) => hits_in(&v),
        None => {
            let none: Vec<SearchHit> = Vec::new();
            assert(hits_view(none@) == Seq::<SearchHitV>::empty());
            none
        },
    }
}

/// The hits of a JSON provider body that was read.
pub fn hits_in(v: &Json) -> (r: Vec<SearchHit>)
    ensures
        hits_view(r@) == hits_of_json(Some(v@)),
{
    let items: &[Json] = match v {
        Json::Array(items) => items.as_slice(),
        other => other.list("results"),
    };
    let ghost all = items_view(items@);
    let mut hits: Vec<SearchHit> = Vec::new();
    let mut i: usize = 0;
    assert(all.take(0) == Seq::<JsonV>::empty());
    assert(hits_view(hits@) == Seq::<SearchHitV>::empty());
    while i < items.len()
        invariant
            i <= items@.len(),
            all == items_view(items@),
            hits_view(hits@) == json_hits(all.take(i as int)),
        decreases items@.len() - i,
    {
        let item = &items[i];
        proof {
            lemma_items_view(items@);
            assert(all.take(i + 1).drop_last() == all.take(i as int));
            assert(all.take(i + 1).last() == item@);
        }
        let raw_url = owned_or_empty(item.get_str("url"));
        let url = trim(raw_url.as_str());
        if !is_empty(url) {
            let page_age = match item.get_str("page_age") {
                Some(age) => Some(age.to_owned()),
                None => None,
            };
            let hit = SearchHit {
                title: owned_or_empty(item.get_str("title")),
                url: url.to_owned(),
                snippet: owned_or_empty(item.get_str("snippet")),
                page_age,
            };
            let ghost before = hits@;
            hits.push(hit);
            assert(hits_view(hits@) == hits_view(before).push(hit@));
        }
        i = i + 1;
    }
    assert(all.take(all.len() as int) == all);
    hits
}

}
