//! Web pages as agents read them: the text of a page's markup, and the
//! browser actor's routing and reports. Driving the browser happens outside.
use vstd::prelude::*;
use vstd::string::StringSliceAdditionalSpecFns;
use crate::bus::{SystemEvent, SystemEventView};
use crate::text::{
    chars_of, concat2, decimal, first_chars, has_prefix, is_whitespace, is_ws, occurs_at, occurs_at_exec, owned,
    push_decimal, push_str, same_text, starts_with, string_of, take_chars, trim, trim_chars,
};

verus! {

/// What a regular-expression replacement yields: every match of `pattern`
/// in `text` replaced by `replacement` (`Regex::replace_all`); the text
/// unchanged when `pattern` is not a valid expression.
pub uninterp spec fn regex_replaced(text: Seq<char>, pattern: Seq<char>, replacement: Seq<char>) -> Seq<char>;

/// Trusted: `regex::Regex::new` and `Regex::replace_all`. The contract names
/// the result, which depends on the three texts alone; an invalid pattern
/// gives the text back.
#[verifier::external_body]
fn regex_replace(text: &str, pattern: &str, replacement: &str) -> (r: String)
    ensures
        r@ == regex_replaced(text@, pattern@, replacement@),
{
    match regex::Regex::new(pattern) {
        Ok(re) => re.replace_all(text, replacement).to_string(),
        Err(_) => text.to_string(),
    }
}

/// The entities that are decoded, each with the character it stands for.
pub open spec fn ent_nbsp() -> Seq<char> { seq!['&', 'n', 'b', 's', 'p', ';'] }
pub open spec fn ent_lt() -> Seq<char> { seq!['&', 'l', 't', ';'] }
pub open spec fn ent_gt() -> Seq<char> { seq!['&', 'g', 't', ';'] }
pub open spec fn ent_amp() -> Seq<char> { seq!['&', 'a', 'm', 'p', ';'] }
pub open spec fn ent_quot() -> Seq<char> { seq!['&', 'q', 'u', 'o', 't', ';'] }
pub open spec fn ent_apos() -> Seq<char> { seq!['&', '#', '3', '9', ';'] }

/// How many characters the entity at `i` spans (1 when none starts there).
pub open spec fn entity_len(s: Seq<char>, i: int) -> int {
    if occurs_at(s, ent_nbsp(), i) || occurs_at(s, ent_quot(), i) {
        6
    } else if occurs_at(s, ent_lt(), i) || occurs_at(s, ent_gt(), i) {
        4
    } else if occurs_at(s, ent_amp(), i) || occurs_at(s, ent_apos(), i) {
        5
    } else {
        1
    }
}

/// The character that position `i` decodes to.
pub open spec fn entity_char(s: Seq<char>, i: int) -> char {
    if occurs_at(s, ent_nbsp(), i) {
        ' '
    } else if occurs_at(s, ent_quot(), i) {
        '"'
    } else if occurs_at(s, ent_lt(), i) {
        '<'
    } else if occurs_at(s, ent_gt(), i) {
        '>'
    } else if occurs_at(s, ent_amp(), i) {
        '&'
    } else if occurs_at(s, ent_apos(), i) {
        '\''
    } else {
        s[i]
    }
}

/// The text from `i` on with its entities decoded, left to right: each
/// entity is replaced once, and what a replacement produces is not read again.
pub open spec fn decoded_from(s: Seq<char>, i: int) -> Seq<char>
    decreases s.len() - i,
{
    if 0 <= i < s.len() {
        seq![entity_char(s, i)] + decoded_from(s, i + entity_len(s, i))
    } else {
        Seq::empty()
    }
}

/// The text with the entities `&nbsp;`, `&lt;`, `&gt;`, `&amp;`, `&quot;`
/// and `&#39;` decoded.
pub open spec fn unescaped(s: Seq<char>) -> Seq<char> {
    decoded_from(s, 0)
}

/// Decodes the HTML entities of a text.
pub fn html_escape(text: &str) -> (r: String)
    ensures
        r@ == unescaped(text@),
{
    let s = chars_of(text);
    let nbsp = vec!['&', 'n', 'b', 's', 'p', ';'];
    let lt = vec!['&', 'l', 't', ';'];
    let gt = vec!['&', 'g', 't', ';'];
    let amp = vec!['&', 'a', 'm', 'p', ';'];
    let quot = vec!['&', 'q', 'u', 'o', 't', ';'];
    let apos = vec!['&', '#', '3', '9', ';'];
    assert(nbsp@ =~= ent_nbsp());
    assert(lt@ =~= ent_lt());
    assert(gt@ =~= ent_gt());
    assert(amp@ =~= ent_amp());
    assert(quot@ =~= ent_quot());
    assert(apos@ =~= ent_apos());
    let mut v: Vec<char> = Vec::new();
    let mut i: usize = 0;
    while i < s.len()
        invariant
            i <= s@.len(),
            s@ == text@,
            nbsp@ == ent_nbsp(),
            lt@ == ent_lt(),
            gt@ == ent_gt(),
            amp@ == ent_amp(),
            quot@ == ent_quot(),
            apos@ == ent_apos(),
            v@ + decoded_from(s@, i as int) == unescaped(s@),
        decreases s@.len() - i,
    {
        let ghost before = v@;
        let ghost k = entity_len(s@, i as int);
        let ghost c = entity_char(s@, i as int);
        assert(decoded_from(s@, i as int) == seq![c] + decoded_from(s@, i + k));
        let (ch, len): (char, usize) = if occurs_at_exec(s.as_slice(), nbsp.as_slice(), i) {
            (' ', 6)
        } else if occurs_at_exec(s.as_slice(), quot.as_slice(), i) {
            ('"', 6)
        } else if occurs_at_exec(s.as_slice(), lt.as_slice(), i) {
            ('<', 4)
        } else if occurs_at_exec(s.as_slice(), gt.as_slice(), i) {
            ('>', 4)
        } else if occurs_at_exec(s.as_slice(), amp.as_slice(), i) {
            ('&', 5)
        } else if occurs_at_exec(s.as_slice(), apos.as_slice(), i) {
            ('\'', 5)
        } else {
            (s[i], 1)
        };
        assert(ch == c && len == k);
        v.push(ch);
        assert(v@ + decoded_from(s@, i + k) =~= before + (seq![c] + decoded_from(s@, i + k)));
        i = i + len;
    }
    assert(v@ + decoded_from(s@, i as int) =~= v@);
    string_of(v.as_slice())
}

/// The text from `i` on with every run of white space made one space;
/// `after_space` says whether the character before `i` was white space.
pub open spec fn collapsed_from(s: Seq<char>, i: int, after_space: bool) -> Seq<char>
    decreases s.len() - i,
{
    if 0 <= i < s.len() {
        if is_ws(s[i]) {
            if after_space {
                collapsed_from(s, i + 1, true)
            } else {
                seq![' '] + collapsed_from(s, i + 1, true)
            }
        } else {
            seq![s[i]] + collapsed_from(s, i + 1, false)
        }
    } else {
        Seq::empty()
    }
}

/// The text with every run of white space made one space.
pub open spec fn collapse_ws(s: Seq<char>) -> Seq<char> {
    collapsed_from(s, 0, false)
}

/// Makes every run of white space one space.
fn collapse_whitespace(s: &[char]) -> (r: Vec<char>)
    ensures
        r@ == collapse_ws(s@),
{
    let mut v: Vec<char> = Vec::new();
    let mut last = false;
    let mut i: usize = 0;
    while i < s.len()
        invariant
            i <= s@.len(),
            v@ + collapsed_from(s@, i as int, last) == collapse_ws(s@),
        decreases s@.len() - i,
    {
        let ghost before = v@;
        let ghost was = last;
        if is_whitespace(s[i]) {
            if !last {
                v.push(' ');
            }
            last = true;
        } else {
            v.push(s[i]);
            last = false;
        }
        assert(v@ + collapsed_from(s@, i + 1, last) =~= before + collapsed_from(s@, i as int, was));
        i = i + 1;
    }
    assert(v@ + collapsed_from(s@, i as int, last) =~= v@);
    v
}

/// The pattern of script elements.
pub open spec fn script_pattern() -> Seq<char> {
    "(?s)<script[^>]*>.*?</script>"@
}

/// The pattern of style elements.
pub open spec fn style_pattern() -> Seq<char> {
    "(?s)<style[^>]*>.*?</style>"@
}

/// The pattern of tags.
pub open spec fn tag_pattern() -> Seq<char> {
    "<[^>]*>"@
}

/// The markup with scripts and styles removed and every other tag replaced
/// by a space.
pub open spec fn stripped_markup(html: Seq<char>) -> Seq<char> {
    regex_replaced(
        regex_replaced(regex_replaced(html, script_pattern(), Seq::empty()), style_pattern(), Seq::empty()),
        tag_pattern(),
        " "@,
    )
}

/// The text of markup whose tags are already removed: entities decoded,
/// every run of white space made one space, surrounding white space trimmed.
pub fn text_of_stripped(stripped: &str) -> (r: String)
    ensures
        r@ == trim(collapse_ws(unescaped(stripped@))),
{
    let u = html_escape(stripped);
    let c = chars_of(u.as_str());
    let w = collapse_whitespace(c.as_slice());
    let t = trim_chars(w.as_slice());
    string_of(t.as_slice())
}

/// The text of a page's markup: scripts and styles removed, other tags
/// replaced by spaces, entities decoded, every run of white space made one
/// space, surrounding white space trimmed.
pub fn extract_text(html: &str) -> (r: String)
    ensures
        r@ == trim(collapse_ws(unescaped(stripped_markup(html@)))),
{
    proof {
        reveal_strlit("");
        assert(""@ =~= Seq::<char>::empty());
    }
    let a = regex_replace(html, "(?s)<script[^>]*>.*?</script>", "");
    let b = regex_replace(a.as_str(), "(?s)<style[^>]*>.*?</style>", "");
    let c = regex_replace(b.as_str(), "<[^>]*>", " ");
    text_of_stripped(c.as_str())
}

/// The most characters of a page's text reported.
pub const REPORT_TEXT_CHARS: usize = 2000;

/// The browser actor: scrapes the pages that browser tasks name.
pub struct BrowserActor;

impl BrowserActor {
    /// Whether the actor takes tasks for `tool`: `browser` itself or `scrape:`
    /// and a sub-tool.
    pub fn handles(tool: &str) -> (b: bool)
        ensures
            b == (tool@ == "browser"@ || has_prefix(tool@, "scrape:"@)),
    {
        let t = chars_of(tool);
        let p = chars_of("scrape:");
        same_text(tool, "browser") || starts_with(t.as_slice(), p.as_slice())
    }

    /// The event reporting that scraping `url` starts.
    pub fn scraping_event(url: &str) -> (e: SystemEvent)
        ensures
            e@ == (SystemEventView::Log { level: "INFO"@, source: "Browser"@, message: "Scraping: "@ + url@ }),
    {
        SystemEvent::Log { level: owned("INFO"), source: owned("Browser"), message: concat2("Scraping: ", url) }
    }

    /// The event reporting how much text was read from `url`, in bytes.
    pub fn scraped_event(text: &str, url: &str) -> (e: SystemEvent)
        ensures
            e@ == (SystemEventView::Log {
                level: "INFO"@,
                source: "Browser"@,
                message: "Scraped "@ + decimal(text.len() as nat) + " bytes from "@ + url@,
            }),
    {
        let mut v: Vec<char> = Vec::new();
        push_str(&mut v, "Scraped ");
        push_decimal(&mut v, text.len() as u64);
        push_str(&mut v, " bytes from ");
        push_str(&mut v, url);
        SystemEvent::Log { level: owned("INFO"), source: owned("Browser"), message: string_of(v.as_slice()) }
    }

    /// The result of a scraped page: its title and the first 2000
    /// characters of its text.
    pub fn page_result(title: &str, text: &str) -> (r: String)
        ensures
            r@ == "Title: "@ + title@ + "\n\nContent:\n"@ + first_chars(text@, REPORT_TEXT_CHARS as int),
    {
        let tc = chars_of(text);
        let head = take_chars(tc.as_slice(), REPORT_TEXT_CHARS);
        let mut v: Vec<char> = Vec::new();
        push_str(&mut v, "Title: ");
        push_str(&mut v, title);
        push_str(&mut v, "\n\nContent:\n");
        crate::text::push_all(&mut v, head.as_slice());
        string_of(v.as_slice())
    }
}

} // verus!
