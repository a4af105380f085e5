//! What the scan of a page reads from its HTML, as plain values, and the calls
//! into the HTML parser that fill them in.
use vstd::prelude::*;
use crate::text::str_eq;

verus! {

/// One element that the scan of a page looks at.
#[derive(Debug)]
pub struct Element {
    /// The tag name.
    pub name: String,
    /// The value of the `href` attribute, where the element has one.
    pub href: Option<String>,
    /// The value of the `src` attribute, where the element has one.
    pub src: Option<String>,
    /// Whether the element carries the class that exempts it from the scan.
    pub skip: bool,
    /// The markup of the element, itself included.
    pub html: String,
    /// The markup inside the element.
    pub inner_html: String,
}

/// An element as a mathematical value.
pub struct ElementView {
    pub name: Seq<char>,
    pub href: Option<Seq<char>>,
    pub src: Option<Seq<char>>,
    pub skip: bool,
    pub html: Seq<char>,
    pub inner_html: Seq<char>,
}

impl View for Element {
    type V = ElementView;

    open spec fn view(&self) -> ElementView {
        ElementView {
            name: self.name@,
            href: self.href.deep_view(),
            src: self.src.deep_view(),
            skip: self.skip,
            html: self.html@,
            inner_html: self.inner_html@,
        }
    }
}

impl DeepView for Element {
    type V = ElementView;

    open spec fn deep_view(&self) -> ElementView {
        self@
    }
}

/// What the scan of a page reads from its document: the title, where there is
/// one, and the elements to look at, in document order.
#[derive(Debug)]
pub struct Document {
    pub title: Option<String>,
    pub elements: Vec<Element>,
}

/// A document as a mathematical value.
pub struct DocumentView {
    pub title: Option<Seq<char>>,
    pub elements: Seq<ElementView>,
}

impl View for Document {
    type V = DocumentView;

    open spec fn view(&self) -> DocumentView {
        DocumentView { title: self.title.deep_view(), elements: self.elements.deep_view() }
    }
}

/// The attribute in which elements with the tag `tag` hold their reference,
/// and whether they must have it. `None` for a tag that the scan knows nothing of.
pub open spec fn reference_attribute_of(tag: Seq<char>) -> Option<(Seq<char>, bool)> {
    if tag == "a"@ || tag == "link"@ {
        Some(("href"@, true))
    } else if tag == "script"@ {
        Some(("src"@, false))
    } else if tag == "img"@ {
        Some(("src"@, true))
    } else {
        None
    }
}

/// The two attribute names differ, so an attribute name decides which field
/// of an element is meant.
pub proof fn lemma_attribute_names_differ()
    ensures
        "href"@ != "src"@,
{
    reveal_strlit("href");
    reveal_strlit("src");
    assert("href"@.len() != "src"@.len());
}

/// The attribute in which elements with the tag `tag` hold their reference,
/// and whether they must have it. `None` for a tag that the scan knows nothing of.
pub fn reference_attribute(tag: &str) -> (r: Option<(&'static str, bool)>)
    ensures
        match r {
            Some((name, required)) => reference_attribute_of(tag@) == Some((name@, required)),
            None => reference_attribute_of(tag@).is_none(),
        },
{
    if str_eq(tag, "a") || str_eq(tag, "link") {
        Some(("href", true))
    } else if str_eq(tag, "script") {
        Some(("src", false))
    } else if str_eq(tag, "img") {
        Some(("src", true))
    } else {
        None
    }
}

/// Whether every element of the list that the scan looks at has a tag that
/// it knows.
pub open spec fn all_supported(elements: Seq<ElementView>) -> bool {
    forall|i: int|
        0 <= i < elements.len() && !(#[trigger] elements[i]).skip ==> reference_attribute_of(
            elements[i].name,
        ).is_some()
}

impl Document {
    /// Whether every element that the scan looks at has a tag that it knows.
    pub fn is_supported(&self) -> (r: bool)
        ensures
            r == all_supported(self@.elements),
    {
        let mut i: usize = 0;
        while i < self.elements.len()
            invariant
                i <= self.elements.len(),
                forall|j: int|
                    0 <= j < i && !(#[trigger] self@.elements[j]).skip ==> reference_attribute_of(
                        self@.elements[j].name,
                    ).is_some(),
            decreases self.elements.len() - i,
        {
            let element = &self.elements[i];
            assert(self@.elements[i as int] == element@);
            if !element.skip && reference_attribute(element.name.as_str()).is_none() {
                return false;
            }
            i += 1;
        }
        true
    }
}

/// The markup inside the first element that a selector matches in a
/// document, as `scraper` finds it: `None` where the selector is not accepted
/// as a selector group, `Some(None)` where it matches no element.
pub uninterp spec fn selected_title(body: Seq<char>, selector: Seq<char>) -> Option<
    Option<Seq<char>>,
>;

/// The elements that a selector matches in a document, in document order, as
/// `scraper` finds them: each with its tag name, the values of the two
/// attributes named, whether it carries the class named, its markup and the
/// markup inside it. `None` where the selector is not accepted as a selector
/// group.
pub uninterp spec fn selected_elements(
    body: Seq<char>,
    selector: Seq<char>,
    skip_class: Seq<char>,
    href: Seq<char>,
    src: Seq<char>,
) -> Option<Seq<ElementView>>;

/// Compiles the selector with `scraper::Selector::parse`, parses the text
/// with `scraper::Html::parse_document`, and hands out the inner markup
/// (`ElementRef::inner_html`) of the first element that `Html::select`
/// yields. The result depends on the two texts alone; the contract names it
/// and claims nothing more.
#[verifier::external_body]
fn select_title(body: &str, selector: &str) -> (r: Option<Option<String>>)
    ensures
        r.deep_view() == selected_title(body@, selector@),
{
    let selector = scraper::Selector::parse(selector).ok()?;
    let document = scraper::Html::parse_document(body);
    Some(document.select(&selector).next().map(|element| element.inner_html()))
}

/// Compiles the selector with `scraper::Selector::parse`, parses the text
/// with `scraper::Html::parse_document`, and hands out each element that
/// `Html::select` yields as plain values: its name (`Element::name`), the
/// two attributes (`ElementRef::attr`), whether it has the class
/// (`Element::has_class`, matching case), and its markup (`ElementRef::html`,
/// `ElementRef::inner_html`). The result depends on the texts alone; the
/// contract names it and claims nothing more.
#[verifier::external_body]
fn select_elements(body: &str, selector: &str, skip_class: &str, href: &str, src: &str) -> (r:
    Option<Vec<Element>>)
    ensures
        r.deep_view() == selected_elements(body@, selector@, skip_class@, href@, src@),
{
    let selector = scraper::Selector::parse(selector).ok()?;
    let document = scraper::Html::parse_document(body);
    let read = |e: scraper::ElementRef| Element {
        name: e.value().name().to_string(),
        href: e.attr(href).map(String::from),
        src: e.attr(src).map(String::from),
        skip: e.value().has_class(skip_class, scraper::CaseSensitivity::CaseSensitive),
        html: e.html(),
        inner_html: e.inner_html(),
    };
    Some(document.select(&selector).map(read).collect())
}

/// What the scan of a page reads from the text `body`, parsed as an HTML
/// document: as title the markup inside the first element that
/// `title_selector` matches, and the elements that `element_selector`
/// matches, in document order, each with its `href` and `src` attributes and
/// marked if it carries the class `skip_class`. `None` where one of the two
/// selectors is not accepted as a selector group.
pub open spec fn document_read(
    body: Seq<char>,
    element_selector: Seq<char>,
    title_selector: Seq<char>,
    skip_class: Seq<char>,
) -> Option<DocumentView> {
    match (
        selected_elements(body, element_selector, skip_class, "href"@, "src"@),
        selected_title(body, title_selector),
    ) {
        (Some(elements), Some(title)) => Some(DocumentView { title, elements }),
        _ => None,
    }
}

/// Parses `body` as an HTML document and reads from it what the scan of a
/// page looks at. `None` where one of the two selectors is not accepted as a
/// selector group.
pub fn read_document(
    body: &str,
    element_selector: &str,
    title_selector: &str,
    skip_class: &str,
) -> (r: Option<Document>)
    ensures
        match r {
            Some(document) => document_read(
                body@,
                element_selector@,
                title_selector@,
                skip_class@,
            ) == Some(document@),
            None => document_read(body@, element_selector@, title_selector@, skip_class@).is_none(),
        },
{
    let elements = match select_elements(body, element_selector, skip_class, "href", "src") {
        Some(elements) => elements,
        None => {
            return None;
        },
    };
    match select_title(body, title_selector) {
        Some(title) => Some(Document { title, elements }),
        None => None,
    }
}

} // verus!
