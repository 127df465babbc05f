use ant::bus::SystemEvent;
use ant::tools::browser::{extract_text, html_escape, text_of_stripped, BrowserActor};

#[test]
fn entities_are_decoded_once() {
    assert_eq!(html_escape("a &lt;b&gt; &amp; &quot;c&quot; &#39;d&#39;&nbsp;e"), "a <b> & \"c\" 'd' e");
    assert_eq!(html_escape("&amp;lt;"), "&lt;");
    assert_eq!(html_escape("x &lt; y &amp;quot;"), "x < y &quot;");
    assert_eq!(html_escape("&amp;amp;"), "&amp;");
    assert_eq!(html_escape("&lt &unknown; &"), "&lt &unknown; &");
}

#[test]
fn markup_to_text() {
    let html = "<html><head><style>p{}</style><script>var x = 1;</script></head><body><p>Hi &amp; bye</p></body></html>";
    assert_eq!(extract_text(html), "Hi & bye");
    assert_eq!(text_of_stripped("  a &lt; b  "), "a < b");
    assert_eq!(text_of_stripped("a \n\t b&nbsp;&nbsp;c"), "a b c");
    assert_eq!(extract_text("<p>one</p>\n\n<p>two   three</p>"), "one two three");
}

#[test]
fn actor_reports() {
    assert!(BrowserActor::handles("browser"));
    assert!(BrowserActor::handles("scrape:deep"));
    assert!(!BrowserActor::handles("scrape"));
    assert_eq!(BrowserActor::page_result("T", "body"), "Title: T\n\nContent:\nbody");
    assert_eq!(BrowserActor::page_result("T", &"x".repeat(2500)).chars().count(), "Title: T\n\nContent:\n".len() + 2000);
    match BrowserActor::scraped_event("héllo", "u") {
        SystemEvent::Log { message, .. } => assert_eq!(message, "Scraped 6 bytes from u"),
        _ => panic!("expected Log"),
    }
}
