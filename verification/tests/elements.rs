use spider_crab::error::SpiderErrorType;
use spider_crab::html::{read_document, reference_attribute, Document, Element};
use spider_crab::url_helpers::get_url_from_element;
use spider_crab::urls::Url;

fn element(name: &str, href: Option<&str>, src: Option<&str>) -> Element {
    Element {
        name: name.to_string(),
        href: href.map(String::from),
        src: src.map(String::from),
        skip: false,
        html: format!("<{}>", name),
        inner_html: String::new(),
    }
}

fn base() -> Url {
    Url::parse("https://example.com/dir/page.html").unwrap()
}

#[test]
fn each_known_tag_has_its_reference_attribute() {
    assert_eq!(reference_attribute("a"), Some(("href", true)));
    assert_eq!(reference_attribute("link"), Some(("href", true)));
    assert_eq!(reference_attribute("script"), Some(("src", false)));
    assert_eq!(reference_attribute("img"), Some(("src", true)));
    for tag in ["", "A", "iframe", "anchor", "im", "scripts", "source"] {
        assert_eq!(reference_attribute(tag), None, "{:?}", tag);
    }
}

#[test]
fn a_reference_resolves_against_the_page() {
    let url = get_url_from_element(&element("a", Some("other.html#part"), None), &base())
        .unwrap()
        .unwrap();
    assert_eq!(url.as_str(), "https://example.com/dir/other.html");
    let url = get_url_from_element(&element("img", None, Some("/logo.png")), &base())
        .unwrap()
        .unwrap();
    assert_eq!(url.as_str(), "https://example.com/logo.png");
    let url = get_url_from_element(&element("script", None, Some("https://cdn.example/x.js")), &base())
        .unwrap()
        .unwrap();
    assert_eq!(url.as_str(), "https://cdn.example/x.js");
    let url = get_url_from_element(&element("link", Some("style.css?v=2"), None), &base())
        .unwrap()
        .unwrap();
    assert_eq!(url.as_str(), "https://example.com/dir/style.css?v=2");
}

#[test]
fn only_the_attribute_of_the_tag_is_looked_at() {
    // An anchor with a `src` and no `href` lacks its attribute.
    let e = get_url_from_element(&element("a", None, Some("/x")), &base()).unwrap_err();
    assert_eq!(e.error_type, SpiderErrorType::MissingAttribute);
    assert_eq!(e.attribute.as_deref(), Some("href"));
    // An image with an `href` and no `src` lacks its attribute.
    let e = get_url_from_element(&element("img", Some("/x"), None), &base()).unwrap_err();
    assert_eq!(e.error_type, SpiderErrorType::MissingAttribute);
    assert_eq!(e.attribute.as_deref(), Some("src"));
    // A script with an `href` and no `src` refers to nothing.
    assert!(get_url_from_element(&element("script", Some("/x"), None), &base())
        .unwrap()
        .is_none());
}

#[test]
fn a_missing_attribute_is_an_anomaly_where_it_is_required() {
    for (tag, attribute) in [("a", "href"), ("link", "href"), ("img", "src")] {
        let e = get_url_from_element(&element(tag, None, None), &base()).unwrap_err();
        assert_eq!(e.error_type, SpiderErrorType::MissingAttribute);
        assert_eq!(e.attribute.as_deref(), Some(attribute));
        assert_eq!(e.source_page.as_deref(), Some("https://example.com/dir/page.html"));
        assert_eq!(e.html, Some(format!("<{}>", tag)));
        assert!(e.target_page.is_none());
        assert!(e.http_error_code.is_none());
    }
    assert!(get_url_from_element(&element("script", None, None), &base()).unwrap().is_none());
}

#[test]
fn an_empty_attribute_is_an_anomaly() {
    for (tag, href, src, attribute) in [
        ("a", Some(""), None, "href"),
        ("link", Some(""), None, "href"),
        ("img", None, Some(""), "src"),
        ("script", None, Some(""), "src"),
    ] {
        let e = get_url_from_element(&element(tag, href, src), &base()).unwrap_err();
        assert_eq!(e.error_type, SpiderErrorType::EmptyAttribute);
        assert_eq!(e.attribute.as_deref(), Some(attribute));
        assert_eq!(e.source_page.as_deref(), Some("https://example.com/dir/page.html"));
        assert_eq!(e.html, Some(format!("<{}>", tag)));
        assert!(e.target_page.is_none());
    }
}

#[test]
fn a_value_that_is_no_url_is_an_anomaly() {
    let e = get_url_from_element(&element("a", Some("http://[::1"), None), &base()).unwrap_err();
    assert_eq!(e.error_type, SpiderErrorType::InvalidURL);
    assert_eq!(e.source_page.as_deref(), Some("https://example.com/dir/page.html"));
    assert_eq!(e.target_page.as_deref(), Some("http://[::1"));
    assert_eq!(e.html.as_deref(), Some("<a>"));
    assert!(e.attribute.is_none());
}

fn read(body: &str) -> Document {
    read_document(body, "a,link,img,script", "title", "scrab-skip").unwrap()
}

#[test]
fn a_document_gives_its_title_and_its_elements_in_order() {
    let document = read(
        "<!DOCTYPE html><html><head><title>The <b>title</b></title><link href=\"s.css\"></head>\
         <body><p>text</p><a href=\"a.html\">one</a><img src=\"i.png\">\
         <script src=\"s.js\"></script><script> let a = 1; </script><a>none</a></body></html>",
    );
    assert_eq!(document.title.as_deref(), Some("The &lt;b&gt;title&lt;/b&gt;"));
    let names: Vec<&str> = document.elements.iter().map(|e| e.name.as_str()).collect();
    assert_eq!(names, vec!["link", "a", "img", "script", "script", "a"]);
    assert_eq!(document.elements[0].href.as_deref(), Some("s.css"));
    assert_eq!(document.elements[1].href.as_deref(), Some("a.html"));
    assert_eq!(document.elements[1].html, "<a href=\"a.html\">one</a>");
    assert_eq!(document.elements[1].inner_html, "one");
    assert_eq!(document.elements[2].src.as_deref(), Some("i.png"));
    assert!(document.elements[2].href.is_none());
    assert_eq!(document.elements[3].src.as_deref(), Some("s.js"));
    assert_eq!(document.elements[3].inner_html, "");
    assert!(document.elements[4].src.is_none());
    assert_eq!(document.elements[4].inner_html, " let a = 1; ");
    assert!(document.elements[5].href.is_none());
    assert!(document.elements.iter().all(|e| !e.skip));
    assert!(document.is_supported());
}

#[test]
fn a_document_without_a_title_has_none() {
    let document = read("<html><body><h1>Heading</h1></body></html>");
    assert!(document.title.is_none());
    assert!(document.elements.is_empty());
    assert!(document.is_supported());
    // Any text is a document.
    let document = read("");
    assert!(document.title.is_none());
    assert!(document.elements.is_empty());
}

#[test]
fn the_first_title_is_the_title() {
    let document = read("<html><head><title>One</title></head><body><svg><title>Two</title></svg></body></html>");
    assert_eq!(document.title.as_deref(), Some("One"));
}

#[test]
fn the_skip_class_marks_an_element() {
    let document = read(
        "<a class=\"scrab-skip\" href=\"x\">1</a><a class=\"a scrab-skip b\">2</a>\
         <a class=\"scrab-skipped\" href=\"y\">3</a><a class=\"SCRAB-SKIP\" href=\"z\">4</a>",
    );
    let skips: Vec<bool> = document.elements.iter().map(|e| e.skip).collect();
    assert_eq!(skips, vec![true, true, false, false]);
    let other = read_document("<a class=\"scrab-skip\" href=\"x\">1</a>", "a", "title", "no").unwrap();
    assert!(!other.elements[0].skip);
}

#[test]
fn the_selectors_decide_what_is_read() {
    let body = "<html><head><title>T</title></head><body><h1>H</h1><a href=\"x\">a</a><iframe src=\"f\"></iframe></body></html>";
    let document = read_document(body, "iframe, a[href]", "h1", "scrab-skip").unwrap();
    assert_eq!(document.title.as_deref(), Some("H"));
    let names: Vec<&str> = document.elements.iter().map(|e| e.name.as_str()).collect();
    assert_eq!(names, vec!["a", "iframe"]);
    assert!(!document.is_supported());
    assert!(read_document(body, "a[", "title", "scrab-skip").is_none());
    assert!(read_document(body, "a", "", "scrab-skip").is_none());
    assert!(read_document(body, "a", "title", "").is_some());
}

#[test]
fn an_exempt_element_may_have_any_tag() {
    let known = element("a", None, None);
    let unknown = element("iframe", None, Some("/f"));
    let exempt = Element { skip: true, ..element("iframe", None, Some("/f")) };
    assert!(Document { title: None, elements: vec![] }.is_supported());
    assert!(Document { title: None, elements: vec![known, exempt] }.is_supported());
    assert!(!Document { title: None, elements: vec![element("a", None, None), unknown] }
        .is_supported());
}
