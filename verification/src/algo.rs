//! The traversal: what each event of a crawl does to the page graph.
//!
//! A crawl alternates between fetching, which is done elsewhere, and deciding,
//! which is done here. For each page the driver performs the request and
//! reports the response with `visit_page`; where that asks for the body, it
//! reads the body and reports it with `scan_page`, which hands back the
//! pages to fetch next.
use vstd::prelude::*;
use vstd::string::*;
use crate::error::{SpiderError, SpiderErrorType, SpiderErrorView};
use crate::graph::{
    graph_add_edge, graph_add_node, graph_edge_count, graph_links, graph_node_count,
    graph_node_weight_mut, graph_pages, LinkView, PageGraph, PageMap, GRAPH_LIMIT,
};
use crate::html::{
    all_supported, document_read, read_document, Document, DocumentView, ElementView,
};
use crate::ignore_rules::rule_enabled;
use crate::text::{lowercased, str_eq, str_to_lowercase, str_trim, trimmed};
use crate::url_helpers::{
    check_host, element_target, get_url_from_element, host_allowed, host_views,
};
use crate::urls::{HostView, Url};
use crate::{Link, Page, PageView, SpiderOptions};

verus! {

/// The media type of a `Content-Type` value in lower case: what stands before
/// the first `;`.
pub open spec fn media_type(lowered: Seq<char>) -> Seq<char> {
    match lowered.index_of_first(';') {
        Some(cut) => lowered.take(cut),
        None => lowered,
    }
}

/// Whether a media type is that of an HTML document.
pub open spec fn is_html(media_type: Seq<char>) -> bool {
    media_type == "text/html"@ || media_type == "html"@
}

/// What a `Content-Type` header says: whether the page is an HTML document,
/// and its media type, in lower case and without parameters. A page without
/// the header is no HTML document.
pub open spec fn content_type_of(header: Option<Seq<char>>) -> (bool, Option<Seq<char>>) {
    match header {
        Some(value) => (
            is_html(media_type(lowercased(value))),
            Some(media_type(lowercased(value))),
        ),
        None => (false, None),
    }
}

/// The media type of a `Content-Type` value that is in lower case already,
/// and whether it is that of an HTML document.
pub fn classify_media_type(lowered: &str) -> (r: (bool, String))
    ensures
        r.1@ == media_type(lowered@),
        r.0 == is_html(r.1@),
{
    let length = lowered.unicode_len();
    let mut cut: usize = 0;
    while cut < length && lowered.get_char(cut) != ';'
        invariant
            cut <= length,
            length == lowered@.len(),
            forall|j: int| 0 <= j < cut ==> lowered@[j] != ';',
        decreases length - cut,
    {
        cut += 1;
    }
    proof {
        lowered@.index_of_first_ensures(';');
        if cut < length {
            assert(lowered@.contains(';'));
        }
        assert(lowered@.take(length as int) == lowered@);
    }
    let kind = lowered.substring_char(0, cut);
    assert(kind@ == lowered@.take(cut as int));
    (str_eq(kind, "text/html") || str_eq(kind, "html"), kind.to_owned())
}

/// Reads the `Content-Type` header of a response, given as its value where
/// the response has one: whether the page is an HTML document, and its media
/// type in lower case and without parameters.
pub fn check_content_type(header: Option<&str>) -> (r: (bool, Option<String>))
    ensures
        (r.0, r.1.deep_view()) == content_type_of(
            match header {
                Some(value) => Some(value@),
                None => None,
            },
        ),
{
    match header {
        Some(value) => {
            let lowered = str_to_lowercase(value);
            let (html, kind) = classify_media_type(lowered.as_str());
            (html, Some(kind))
        },
        None => (false, None),
    }
}

/// What fetching a page brought.
#[derive(Debug)]
pub enum Fetched {
    /// No response: the request failed, with the status it failed on if it had one.
    Failed { failure_status: Option<u16> },
    /// A response, with its status and the value of its `Content-Type`
    /// header where it has a readable one.
    Response { status: u16, content_type: Option<String> },
}

/// What fetching a page brought, as a mathematical value.
pub enum FetchedView {
    Failed { failure_status: Option<u16> },
    Response { status: u16, content_type: Option<Seq<char>> },
}

impl View for Fetched {
    type V = FetchedView;

    open spec fn view(&self) -> FetchedView {
        match self {
            Fetched::Failed { failure_status } => FetchedView::Failed {
                failure_status: *failure_status,
            },
            Fetched::Response { status, content_type } => FetchedView::Response {
                status: *status,
                content_type: content_type.deep_view(),
            },
        }
    }
}

/// What is left to do for a page once its response is known.
#[derive(Debug, Clone, Copy, PartialEq, Eq, Structural)]
pub enum PageStatus {
    /// Nothing: the page is done. `ok` tells whether it was without a
    /// recorded anomaly.
    Finished { ok: bool },
    /// The body is to be read and handed to `scan_page`.
    NeedsBody,
}

/// Whether a status tells of success.
pub open spec fn is_success(status: u16) -> bool {
    200 <= status < 300
}

/// The anomaly of a page that could not be retrieved.
pub open spec fn unable_to_retrieve(url: Seq<char>) -> SpiderErrorView {
    SpiderErrorView {
        target_page: Some(url),
        error_type: SpiderErrorType::UnableToRetrieve,
        ..SpiderErrorView::empty()
    }
}

/// The anomaly of a page that came with a status other than success.
pub open spec fn http_error(url: Seq<char>, status: u16) -> SpiderErrorView {
    SpiderErrorView {
        target_page: Some(url),
        http_error_code: Some(status),
        error_type: SpiderErrorType::HTTPError,
        ..SpiderErrorView::empty()
    }
}

/// The anomaly of a page without a title.
pub open spec fn missing_title(url: Seq<char>) -> SpiderErrorView {
    SpiderErrorView {
        source_page: Some(url),
        error_type: SpiderErrorType::MissingTitle,
        ..SpiderErrorView::empty()
    }
}

/// The anomaly of a script element with neither a source nor a content.
pub open spec fn empty_script(url: Seq<char>) -> SpiderErrorView {
    SpiderErrorView {
        source_page: Some(url),
        error_type: SpiderErrorType::EmptyScript,
        ..SpiderErrorView::empty()
    }
}

/// A page after an anomaly on the page `url` was found: the anomaly is
/// recorded unless the ignore list holds its kind for `url`.
pub open spec fn noted(
    page: PageView,
    rules: Seq<(SpiderErrorType, Seq<char>)>,
    anomaly: SpiderErrorView,
    url: Seq<char>,
) -> PageView {
    if rule_enabled(rules, anomaly.error_type, url) {
        page.with_error(anomaly)
    } else {
        page
    }
}

/// The page with the URL `url` after its response is known.
///
/// The page is visited from then on. A failed request and a status other
/// than success make it bad and are anomalies. Of a successful response the
/// status and the media type are kept, and a page that is no HTML document is
/// good.
pub open spec fn page_after_response(
    page: PageView,
    url: Seq<char>,
    fetched: FetchedView,
    rules: Seq<(SpiderErrorType, Seq<char>)>,
) -> PageView {
    match fetched {
        FetchedView::Failed { failure_status } => noted(
            PageView { visited: true, status_code: failure_status, good: Some(false), ..page },
            rules,
            unable_to_retrieve(url),
            url,
        ),
        FetchedView::Response { status, content_type } => if !is_success(status) {
            noted(
                PageView { visited: true, status_code: Some(status), good: Some(false), ..page },
                rules,
                http_error(url, status),
                url,
            )
        } else {
            PageView {
                visited: true,
                status_code: Some(status),
                content_type: content_type_of(content_type).1,
                good: if content_type_of(content_type).0 {
                    page.good
                } else {
                    Some(true)
                },
                ..page
            }
        },
    }
}

/// What is left to do for the page with the URL `url` once its response is
/// known. The body is asked for where the response is a success, the page an
/// HTML document and its host one of `hosts`. Any other page is done, and was
/// without a recorded anomaly unless fetching it failed and that is recorded.
pub open spec fn status_after_response(
    url: Seq<char>,
    fetched: FetchedView,
    rules: Seq<(SpiderErrorType, Seq<char>)>,
    hosts: Seq<HostView>,
) -> PageStatus {
    match fetched {
        FetchedView::Failed { failure_status } => PageStatus::Finished {
            ok: !rule_enabled(rules, SpiderErrorType::UnableToRetrieve, url),
        },
        FetchedView::Response { status, content_type } => if !is_success(status) {
            PageStatus::Finished { ok: !rule_enabled(rules, SpiderErrorType::HTTPError, url) }
        } else if content_type_of(content_type).0 && host_allowed(hosts, url) {
            PageStatus::NeedsBody
        } else {
            PageStatus::Finished { ok: true }
        },
    }
}

/// Records on the page `node_index` of `graph`, which has the URL `url`, what
/// fetching it brought, and tells what is left to do for it.
pub fn visit_page(
    node_index: usize,
    url: &Url,
    fetched: Fetched,
    options: &SpiderOptions,
    graph: &mut PageGraph,
) -> (status: PageStatus)
    requires
        node_index < graph_pages(*old(graph)).len(),
    ensures
        graph_pages(*final(graph)) == graph_pages(*old(graph)).update(
            node_index as int,
            page_after_response(
                graph_pages(*old(graph))[node_index as int],
                url@,
                fetched@,
                options.ignore_patterns@,
            ),
        ),
        graph_links(*final(graph)) == graph_links(*old(graph)),
        status == status_after_response(
            url@,
            fetched@,
            options.ignore_patterns@,
            host_views(options.hosts@),
        ),
{
    let page = graph_node_weight_mut(graph, node_index);
    let ghost before = page@;
    page.visited = true;
    match fetched {
        Fetched::Failed { failure_status } => {
            page.status_code = failure_status;
            page.good = Some(false);
            if options.is_rule_enabled(SpiderErrorType::UnableToRetrieve, url) {
                page.record(
                    SpiderError {
                        target_page: Some(url.to_string()),
                        error_type: SpiderErrorType::UnableToRetrieve,
                        ..Default::default()
                    },
                );
                return PageStatus::Finished { ok: false };
            }
            PageStatus::Finished { ok: true }
        },
        Fetched::Response { status, content_type } => {
            page.status_code = Some(status);
            if !(200 <= status && status < 300) {
                page.good = Some(false);
                if options.is_rule_enabled(SpiderErrorType::HTTPError, url) {
                    page.record(
                        SpiderError {
                            target_page: Some(url.to_string()),
                            http_error_code: Some(status),
                            error_type: SpiderErrorType::HTTPError,
                            ..Default::default()
                        },
                    );
                    return PageStatus::Finished { ok: false };
                }
                return PageStatus::Finished { ok: true };
            }
            let (parse_html, kind) = check_content_type(
                match &content_type {
                    Some(value) => Some(value.as_str()),
                    None => None,
                },
            );
            page.content_type = kind;
            if !parse_html {
                page.good = Some(true);
                return PageStatus::Finished { ok: true };
            }
            if !check_host(options.hosts.as_slice(), url) {
                return PageStatus::Finished { ok: true };
            }
            PageStatus::NeedsBody
        },
    }
}

/// A page that is due to be fetched: its node, its URL, and how many links
/// it is away from the root.
#[derive(Debug)]
pub struct Visit {
    pub node: usize,
    pub url: Url,
    pub depth: i32,
}

/// A page that is due to be fetched, as a mathematical value.
pub struct VisitView {
    pub node: usize,
    pub url: Seq<char>,
    pub depth: i32,
}

impl View for Visit {
    type V = VisitView;

    open spec fn view(&self) -> VisitView {
        VisitView { node: self.node, url: self.url@, depth: self.depth }
    }
}

impl DeepView for Visit {
    type V = VisitView;

    open spec fn deep_view(&self) -> VisitView {
        self@
    }
}

/// What a crawl has found so far: the pages, the links between them, and the
/// node of each URL that has a page.
#[verifier::ext_equal]
pub struct Site {
    pub pages: Seq<PageView>,
    pub links: Seq<LinkView>,
    pub index: Map<Seq<char>, usize>,
}

/// What a page graph and a registry hold together.
pub open spec fn site_of(graph: PageGraph, page_map: PageMap) -> Site {
    Site { pages: graph_pages(graph), links: graph_links(graph), index: page_map@ }
}

impl Site {
    /// The registry and the graph agree: every page is entered under its URL
    /// with its own node, nothing else is entered, and every link joins two
    /// pages. So no URL has two pages.
    pub open spec fn consistent(self) -> bool {
        &&& forall|i: int|
            0 <= i < self.pages.len() ==> self.index.contains_key((#[trigger] self.pages[i]).url)
                && self.index[self.pages[i].url] == i
        &&& forall|url: Seq<char>| #[trigger]
            self.index.contains_key(url) ==> self.index[url] < self.pages.len()
                && self.pages[self.index[url] as int].url == url
        &&& forall|e: int|
            0 <= e < self.links.len() ==> (#[trigger] self.links[e]).source < self.pages.len()
                && self.links[e].target < self.pages.len()
    }

    /// This site with the page `node` replaced.
    pub open spec fn with_page(self, node: usize, page: PageView) -> Site {
        Site { pages: self.pages.update(node as int, page), ..self }
    }

    /// This site with one more link from `source` to `target`.
    pub open spec fn with_link(self, source: usize, target: usize, html: Seq<char>) -> Site {
        Site { links: self.links.push(LinkView { source, target, html }), ..self }
    }

    /// This site with a new page for `url`, entered in the registry.
    pub open spec fn with_new_page(self, url: Seq<char>) -> Site {
        Site {
            pages: self.pages.push(PageView::fresh(url)),
            index: self.index.insert(url, self.pages.len() as usize),
            ..self
        }
    }
}

/// No URL has two pages in a consistent site.
pub proof fn lemma_pages_differ(site: Site, i: int, j: int)
    requires
        site.consistent(),
        0 <= i < site.pages.len(),
        0 <= j < site.pages.len(),
        i != j,
    ensures
        site.pages[i].url != site.pages[j].url,
{
    assert(site.index[site.pages[i].url] == i);
    assert(site.index[site.pages[j].url] == j);
}

/// Replacing a page by one with the same URL keeps a site consistent.
pub proof fn lemma_with_page_consistent(site: Site, node: usize, page: PageView)
    requires
        site.consistent(),
        node < site.pages.len(),
        page.url == site.pages[node as int].url,
    ensures
        site.with_page(node, page).consistent(),
{
    let after = site.with_page(node, page);
    assert forall|i: int| 0 <= i < after.pages.len() implies after.index.contains_key(
        (#[trigger] after.pages[i]).url,
    ) && after.index[after.pages[i].url] == i by {
        assert(site.index.contains_key(site.pages[i].url));
    }
    assert forall|k: Seq<char>| #[trigger] after.index.contains_key(k) implies after.index[k]
        < after.pages.len() && after.pages[after.index[k] as int].url == k by {
        assert(site.index.contains_key(k));
    }
    assert forall|e: int| 0 <= e < after.links.len() implies (#[trigger] after.links[e]).source
        < after.pages.len() && after.links[e].target < after.pages.len() by {
        assert(after.links[e] == site.links[e]);
    }
}

/// The page that a scan is of, and the settings that bear on it.
pub struct ScanContext {
    /// The node of the page.
    pub node: usize,
    /// The URL of the page.
    pub url: Seq<char>,
    /// How many links the page is away from the root.
    pub depth: i32,
    /// How far from the root pages are fetched.
    pub max_depth: i32,
    /// The ignore list.
    pub rules: Seq<(SpiderErrorType, Seq<char>)>,
}

impl ScanContext {
    /// Whether the pages that this page refers to are fetched in their turn:
    /// they are where there is no limit or the page is closer to the root
    /// than the limit.
    pub open spec fn expands(self) -> bool {
        self.max_depth == -1 || self.depth < self.max_depth
    }
}

/// The page that is scanned and the settings that bear on the scan.
pub open spec fn context_of(
    node: usize,
    url: Seq<char>,
    depth: i32,
    options: SpiderOptions,
) -> ScanContext {
    ScanContext {
        node,
        url,
        depth,
        max_depth: options.max_depth,
        rules: options.ignore_patterns@,
    }
}

/// The state of the scan of one page.
#[verifier::ext_equal]
pub struct Scan {
    /// What the crawl has found so far.
    pub site: Site,
    /// Whether the scan recorded an anomaly of an element.
    pub found_problem: bool,
    /// The pages that the scan found and that are to be fetched next.
    pub children: Seq<VisitView>,
}

impl Scan {
    /// The scan after an anomaly of an element: unless the ignore list holds
    /// it, the anomaly is recorded on the page and the scan has found a problem.
    pub open spec fn note(self, context: ScanContext, anomaly: SpiderErrorView) -> Scan {
        if rule_enabled(context.rules, anomaly.error_type, context.url) {
            Scan {
                site: self.site.with_page(
                    context.node,
                    self.site.pages[context.node as int].with_error(anomaly),
                ),
                found_problem: true,
                ..self
            }
        } else {
            self
        }
    }

    /// The scan after a reference to `target`, found in an element with the
    /// markup `html`.
    ///
    /// A URL that has a page gets a link to that page and nothing more. Any
    /// other URL gets a page, entered in the registry, and a link to it; the
    /// new page is to be fetched where the context says so.
    pub open spec fn refer(self, context: ScanContext, target: Seq<char>, html: Seq<char>) -> Scan {
        if self.site.index.contains_key(target) {
            Scan {
                site: self.site.with_link(context.node, self.site.index[target], html),
                ..self
            }
        } else {
            let node = self.site.pages.len() as usize;
            Scan {
                site: self.site.with_new_page(target).with_link(context.node, node, html),
                children: if context.expands() {
                    self.children.push(
                        VisitView { node, url: target, depth: (context.depth + 1) as i32 },
                    )
                } else {
                    self.children
                },
                ..self
            }
        }
    }

    /// The scan after one more element.
    ///
    /// An element that is exempt changes nothing. An element that is an
    /// anomaly is noted. An element that need not refer to anything and does
    /// not is an anomaly where nothing but whitespace stands inside it.
    pub open spec fn element(self, context: ScanContext, element: ElementView) -> Scan {
        if element.skip {
            self
        } else {
            match element_target(element, context.url) {
                Err(anomaly) => self.note(context, anomaly),
                Ok(None) => if trimmed(element.inner_html).len() == 0 {
                    self.note(context, empty_script(context.url))
                } else {
                    self
                },
                Ok(Some(target)) => self.refer(context, target, element.html),
            }
        }
    }

    /// The scan after a list of elements, taken in order.
    pub open spec fn elements(self, context: ScanContext, elements: Seq<ElementView>) -> Scan
        decreases elements.len(),
    {
        if elements.len() == 0 {
            self
        } else {
            self.elements(context, elements.drop_last()).element(context, elements.last())
        }
    }

    /// What `consistent` says of the site, and that the page of the scan is
    /// one of its pages.
    pub open spec fn sound(self, context: ScanContext) -> bool {
        self.site.consistent() && context.node < self.site.pages.len()
    }
}

/// A page after its document was read: it is good, and has the title of the
/// document; a document without a title is an anomaly.
pub open spec fn page_after_document(
    page: PageView,
    context: ScanContext,
    title: Option<Seq<char>>,
) -> PageView {
    match title {
        Some(title) => PageView { good: Some(true), title: Some(title), ..page },
        None => noted(
            PageView { good: Some(true), ..page },
            context.rules,
            missing_title(context.url),
            context.url,
        ),
    }
}

/// The scan of a document: the page takes note of the document, and then the
/// elements are scanned in order.
pub open spec fn scan_document(site: Site, context: ScanContext, document: DocumentView) -> Scan {
    Scan {
        site: site.with_page(
            context.node,
            page_after_document(site.pages[context.node as int], context, document.title),
        ),
        found_problem: false,
        children: Seq::empty(),
    }.elements(context, document.elements)
}

/// One element more or less: a sound scan stays sound, no page is lost, and
/// at most one page and one link are added.
pub proof fn lemma_element_keeps_sound(scan: Scan, context: ScanContext, element: ElementView)
    requires
        scan.sound(context),
        scan.site.pages.len() < GRAPH_LIMIT,
    ensures
        scan.element(context, element).sound(context),
        scan.site.pages.len() <= scan.element(context, element).site.pages.len()
            <= scan.site.pages.len() + 1,
        scan.site.links.len() <= scan.element(context, element).site.links.len()
            <= scan.site.links.len() + 1,
{
    let after = scan.element(context, element);
    let node = context.node as int;
    if after.site.pages.len() == scan.site.pages.len() {
        // No page was added: at most the page of the scan has one more anomaly.
        assert forall|i: int| 0 <= i < after.site.pages.len() implies (
        #[trigger] after.site.pages[i]).url == scan.site.pages[i].url by {}
        assert(after.site.index == scan.site.index);
        assert forall|i: int| 0 <= i < after.site.pages.len() implies after.site.index.contains_key(
            (#[trigger] after.site.pages[i]).url,
        ) && after.site.index[after.site.pages[i].url] == i by {
            assert(scan.site.index.contains_key(scan.site.pages[i].url));
        }
        assert forall|url: Seq<char>| #[trigger]
            after.site.index.contains_key(url) implies after.site.index[url]
            < after.site.pages.len() && after.site.pages[after.site.index[url] as int].url
            == url by {
            assert(scan.site.index.contains_key(url));
        }
        assert forall|e: int| 0 <= e < after.site.links.len() implies (
        #[trigger] after.site.links[e]).source < after.site.pages.len()
            && after.site.links[e].target < after.site.pages.len() by {
            if e < scan.site.links.len() {
                assert(after.site.links[e] == scan.site.links[e]);
            }
        }
    } else {
        let target = match element_target(element, context.url) {
            Ok(Some(target)) => target,
            _ => arbitrary(),
        };
        let n = scan.site.pages.len() as int;
        assert(after == scan.refer(context, target, element.html));
        assert(!scan.site.index.contains_key(target));
        assert(after.site.pages == scan.site.pages.push(PageView::fresh(target)));
        assert(after.site.index == scan.site.index.insert(target, n as usize));
        assert forall|i: int| 0 <= i < after.site.pages.len() implies after.site.index.contains_key(
            (#[trigger] after.site.pages[i]).url,
        ) && after.site.index[after.site.pages[i].url] == i by {
            if i < n {
                assert(scan.site.index.contains_key(scan.site.pages[i].url));
            }
        }
        assert forall|url: Seq<char>| #[trigger]
            after.site.index.contains_key(url) implies after.site.index[url]
            < after.site.pages.len() && after.site.pages[after.site.index[url] as int].url
            == url by {
            if url != target {
                assert(scan.site.index.contains_key(url));
            }
        }
        assert forall|e: int| 0 <= e < after.site.links.len() implies (
        #[trigger] after.site.links[e]).source < after.site.pages.len()
            && after.site.links[e].target < after.site.pages.len() by {
            if e < scan.site.links.len() {
                assert(after.site.links[e] == scan.site.links[e]);
            }
        }
    }
}

/// Enters the root of a crawl: a new page for `url`, registered under it.
/// The page is then due to be fetched, at depth zero.
///
/// A URL that has a page already gets no second one: the result is `None`
/// then and nothing changes.
pub fn visit_root_page(url: &Url, graph: &mut PageGraph, page_map: &mut PageMap) -> (root: Option<
    Visit,
>)
    requires
        old(page_map).inv(),
        site_of(*old(graph), *old(page_map)).consistent(),
        graph_pages(*old(graph)).len() < GRAPH_LIMIT,
    ensures
        final(page_map).inv(),
        site_of(*final(graph), *final(page_map)).consistent(),
        match root {
            Some(visit) => {
                &&& !old(page_map)@.contains_key(url@)
                &&& site_of(*final(graph), *final(page_map)) == site_of(
                    *old(graph),
                    *old(page_map),
                ).with_new_page(url@)
                &&& final(page_map).spec_len() == old(page_map).spec_len() + 1
                &&& visit@ == VisitView {
                    node: graph_pages(*old(graph)).len() as usize,
                    url: url@,
                    depth: 0,
                }
            },
            None => {
                &&& old(page_map)@.contains_key(url@)
                &&& site_of(*final(graph), *final(page_map)) == site_of(
                    *old(graph),
                    *old(page_map),
                )
                &&& final(page_map).spec_len() == old(page_map).spec_len()
            },
        },
{
    let ghost before = site_of(*graph, *page_map);
    if page_map.contains_key(url) {
        return None;
    }
    let root_index = graph_add_node(graph, Page::new(url));
    page_map.insert(url.clone(), root_index);
    proof {
        let after = site_of(*graph, *page_map);
        assert(after == before.with_new_page(url@));
        assert forall|i: int| 0 <= i < after.pages.len() implies after.index.contains_key(
            (#[trigger] after.pages[i]).url,
        ) && after.index[after.pages[i].url] == i by {
            if i < before.pages.len() {
                assert(before.index.contains_key(before.pages[i].url));
            }
        }
        assert forall|k: Seq<char>| #[trigger] after.index.contains_key(k) implies after.index[k]
            < after.pages.len() && after.pages[after.index[k] as int].url == k by {
            if k != url@ {
                assert(before.index.contains_key(k));
            }
        }
        assert forall|e: int| 0 <= e < after.links.len() implies (#[trigger] after.links[e]).source
            < after.pages.len() && after.links[e].target < after.pages.len() by {
            assert(after.links[e] == before.links[e]);
        }
    }
    Some(Visit { node: root_index, url: url.clone(), depth: 0 })
}

/// What the scan of a page brought.
#[derive(Debug)]
pub struct PageScan {
    /// Whether the scan recorded no anomaly of an element.
    pub ok: bool,
    /// The pages that the scan found and that are to be fetched next.
    pub children: Vec<Visit>,
}

/// Scans the document of the page `node_index`, which has the URL `url` and
/// is `current_depth` links away from the root: the page takes note of the
/// document, and each element in turn is noted as an anomaly, linked to the
/// page it refers to, or passed over.
///
/// Every element that is not exempt must have a tag that the scan knows, and
/// the graph must have room for a page and a link for each element.
pub fn visit_document(
    node_index: usize,
    url: &Url,
    document: &Document,
    options: &SpiderOptions,
    graph: &mut PageGraph,
    page_map: &mut PageMap,
    current_depth: i32,
) -> (scan: PageScan)
    requires
        old(page_map).inv(),
        site_of(*old(graph), *old(page_map)).consistent(),
        node_index < graph_pages(*old(graph)).len(),
        all_supported(document@.elements),
        graph_pages(*old(graph)).len() + document@.elements.len() <= GRAPH_LIMIT,
        graph_links(*old(graph)).len() + document@.elements.len() <= GRAPH_LIMIT,
        current_depth < i32::MAX,
    ensures
        final(page_map).inv(),
        site_of(*final(graph), *final(page_map)).consistent(),
        ({
            let context = context_of(node_index, url@, current_depth, *options);
            let expected = scan_document(site_of(*old(graph), *old(page_map)), context, document@);
            &&& site_of(*final(graph), *final(page_map)) == expected.site
            &&& scan.ok == !expected.found_problem
            &&& scan.children.deep_view() == expected.children
        }),
        final(page_map).spec_len() - old(page_map).spec_len() == graph_pages(*final(graph)).len()
            - graph_pages(*old(graph)).len(),
{
    let ghost context = context_of(node_index, url@, current_depth, *options);
    let ghost before = site_of(*graph, *page_map);
    let ghost elements = document@.elements;
    {
        let page = graph_node_weight_mut(graph, node_index);
        page.good = Some(true);
        match &document.title {
            Some(title) => {
                page.title = Some(title.clone());
            },
            None => {
                if options.is_rule_enabled(SpiderErrorType::MissingTitle, url) {
                    page.record(
                        SpiderError {
                            error_type: SpiderErrorType::MissingTitle,
                            source_page: Some(url.to_string()),
                            ..SpiderError::default()
                        },
                    );
                }
            },
        }
    }
    let mut found_problem = false;
    let mut children: Vec<Visit> = Vec::new();
    let ghost start = Scan {
        site: before.with_page(
            node_index,
            page_after_document(before.pages[node_index as int], context, document@.title),
        ),
        found_problem: false,
        children: Seq::empty(),
    };
    proof {
        assert(site_of(*graph, *page_map) == start.site);
        lemma_with_page_consistent(
            before,
            node_index,
            page_after_document(before.pages[node_index as int], context, document@.title),
        );
        assert(start.sound(context));
        assert(elements.take(0) == Seq::<ElementView>::empty());
        assert(children.deep_view() == start.children);
    }
    let mut i: usize = 0;
    while i < document.elements.len()
        invariant
            i <= document.elements.len(),
            elements == document@.elements,
            all_supported(elements),
            context == context_of(node_index, url@, current_depth, *options),
            current_depth < i32::MAX,
            page_map.inv(),
            start.elements(context, elements.take(i as int)) == (Scan {
                site: site_of(*graph, *page_map),
                found_problem,
                children: children.deep_view(),
            }),
            start.elements(context, elements.take(i as int)).sound(context),
            graph_pages(*graph).len() <= before.pages.len() + i,
            graph_links(*graph).len() <= before.links.len() + i,
            before.pages.len() + elements.len() <= GRAPH_LIMIT,
            before.links.len() + elements.len() <= GRAPH_LIMIT,
            page_map.spec_len() - old(page_map).spec_len() == graph_pages(*graph).len()
                - before.pages.len(),
        decreases document.elements.len() - i,
    {
        let element = &document.elements[i];
        let ghost current = start.elements(context, elements.take(i as int));
        proof {
            assert(elements.take(i as int + 1).drop_last() == elements.take(i as int));
            assert(elements.take(i as int + 1).last() == element@);
            assert(elements[i as int] == element@);
            assert(current.site == site_of(*graph, *page_map));
            lemma_element_keeps_sound(current, context, element@);
        }
        if !element.skip {
            match get_url_from_element(element, url) {
                Err(anomaly) => {
                    if options.is_rule_enabled(anomaly.error_type, url) {
                        found_problem = true;
                        let page = graph_node_weight_mut(graph, node_index);
                        page.record(anomaly);
                    }
                },
                Ok(None) => {
                    if str_trim(element.inner_html.as_str()).is_empty() && options.is_rule_enabled(
                        SpiderErrorType::EmptyScript,
                        url,
                    ) {
                        found_problem = true;
                        let page = graph_node_weight_mut(graph, node_index);
                        page.record(
                            SpiderError {
                                error_type: SpiderErrorType::EmptyScript,
                                source_page: Some(url.to_string()),
                                ..SpiderError::default()
                            },
                        );
                    }
                },
                Ok(Some(next_url)) => {
                    match page_map.get(&next_url) {
                        Some(existing) => {
                            graph_add_edge(
                                graph,
                                node_index,
                                existing,
                                Link { html: element.html.clone() },
                            );
                        },
                        None => {
                            let new_node = graph_add_node(graph, Page::new(&next_url));
                            graph_add_edge(
                                graph,
                                node_index,
                                new_node,
                                Link { html: element.html.clone() },
                            );
                            page_map.insert(next_url.clone(), new_node);
                            if options.max_depth == -1 || current_depth < options.max_depth {
                                let ghost listed = children.deep_view();
                                let child = Visit {
                                    node: new_node,
                                    url: next_url,
                                    depth: current_depth + 1,
                                };
                                children.push(child);
                                assert(children.deep_view() == listed.push(child@));
                            }
                        },
                    }
                },
            }
        }
        i += 1;
    }
    assert(elements.take(i as int) == elements);
    PageScan { ok: !found_problem, children }
}

/// Why the body of a page could not be scanned. None of these is an anomaly
/// of the site: the settings or the size of the graph stand in the way.
#[derive(Debug, Clone, Copy, PartialEq, Eq, Structural)]
pub enum ScanFailure {
    /// One of the two selectors of the settings is not accepted as a selector.
    InvalidSelector,
    /// The element selector matched an element whose tag the scan does not know.
    UnsupportedElement,
    /// The graph has no room for a page and a link for each element.
    GraphFull,
}

/// The page with the URL `url` after reading its body failed: the page is
/// bad, and the failure is an anomaly.
pub open spec fn page_without_body(
    page: PageView,
    url: Seq<char>,
    rules: Seq<(SpiderErrorType, Seq<char>)>,
) -> PageView {
    noted(PageView { good: Some(false), ..page }, rules, unable_to_retrieve(url), url)
}

/// Records on the page `node_index`, which has the URL `url`, that reading
/// its body failed. Returns whether nothing was recorded.
fn record_missing_body(
    node_index: usize,
    url: &Url,
    options: &SpiderOptions,
    graph: &mut PageGraph,
) -> (ok: bool)
    requires
        node_index < graph_pages(*old(graph)).len(),
    ensures
        graph_pages(*final(graph)) == graph_pages(*old(graph)).update(
            node_index as int,
            page_without_body(
                graph_pages(*old(graph))[node_index as int],
                url@,
                options.ignore_patterns@,
            ),
        ),
        graph_links(*final(graph)) == graph_links(*old(graph)),
        ok == !rule_enabled(options.ignore_patterns@, SpiderErrorType::UnableToRetrieve, url@),
{
    let page = graph_node_weight_mut(graph, node_index);
    page.good = Some(false);
    if options.is_rule_enabled(SpiderErrorType::UnableToRetrieve, url) {
        page.record(
            SpiderError {
                target_page: Some(url.to_string()),
                error_type: SpiderErrorType::UnableToRetrieve,
                ..Default::default()
            },
        );
        return false;
    }
    true
}

/// What reading the body of a page brings.
///
/// Without a body (reading it failed) the page is bad, which is an anomaly,
/// and nothing is to be fetched. With a body, the body is parsed as HTML with
/// the selectors and the class of `options`, and the document is scanned.
/// The scan fails where a selector is not accepted, where an element that is
/// not exempt has a tag that the scan does not know, and where the graph has
/// no room for a page and a link for each element, in this order.
pub open spec fn scan_of_body(
    site: Site,
    context: ScanContext,
    body: Option<Seq<char>>,
    options: SpiderOptions,
) -> Result<Scan, ScanFailure> {
    match body {
        None => Ok(
            Scan {
                site: site.with_page(
                    context.node,
                    page_without_body(
                        site.pages[context.node as int],
                        context.url,
                        context.rules,
                    ),
                ),
                found_problem: rule_enabled(
                    context.rules,
                    SpiderErrorType::UnableToRetrieve,
                    context.url,
                ),
                children: Seq::empty(),
            },
        ),
        Some(text) => match document_read(
            text,
            options.element_selector@,
            options.title_selector@,
            options.skip_class@,
        ) {
            None => Err(ScanFailure::InvalidSelector),
            Some(document) => if !all_supported(document.elements) {
                Err(ScanFailure::UnsupportedElement)
            } else if site.pages.len() + document.elements.len() > GRAPH_LIMIT
                || site.links.len() + document.elements.len() > GRAPH_LIMIT {
                Err(ScanFailure::GraphFull)
            } else {
                Ok(scan_document(site, context, document))
            },
        },
    }
}

/// The text of a body, where there is one, as a mathematical value.
pub open spec fn body_view(body: Option<&str>) -> Option<Seq<char>> {
    match body {
        Some(text) => Some(text@),
        None => None,
    }
}

/// Records on the page `node_index`, which has the URL `url` and is
/// `current_depth` links away from the root, what reading its body brought,
/// as `scan_of_body` says, and hands back the pages to fetch next.
///
/// A failure leaves everything as it was. The pages handed back are pages
/// that this scan created, each listed once; there are none where the page
/// is as far from the root as the depth limit allows.
pub fn scan_page(
    node_index: usize,
    url: &Url,
    body: Option<&str>,
    options: &SpiderOptions,
    graph: &mut PageGraph,
    page_map: &mut PageMap,
    current_depth: i32,
) -> (r: Result<PageScan, ScanFailure>)
    requires
        old(page_map).inv(),
        site_of(*old(graph), *old(page_map)).consistent(),
        node_index < graph_pages(*old(graph)).len(),
        current_depth < i32::MAX,
    ensures
        final(page_map).inv(),
        site_of(*final(graph), *final(page_map)).consistent(),
        final(page_map).spec_len() - old(page_map).spec_len() == graph_pages(*final(graph)).len()
            - graph_pages(*old(graph)).len(),
        ({
            let expected = scan_of_body(
                site_of(*old(graph), *old(page_map)),
                context_of(node_index, url@, current_depth, *options),
                body_view(body),
                *options,
            );
            match r {
                Ok(scan) => {
                    &&& expected matches Ok(s)
                    &&& site_of(*final(graph), *final(page_map)) == s.site
                    &&& scan.ok == !s.found_problem
                    &&& scan.children.deep_view() == s.children
                },
                Err(failure) => {
                    &&& expected == Err::<Scan, ScanFailure>(failure)
                    &&& site_of(*final(graph), *final(page_map)) == site_of(
                        *old(graph),
                        *old(page_map),
                    )
                },
            }
        }),
        r matches Ok(scan) ==> {
            &&& options.max_depth != -1 && current_depth >= options.max_depth
                ==> scan.children@.len() == 0
            &&& forall|k: int|
                0 <= k < scan.children@.len() ==> graph_pages(*old(graph)).len() <= (
                #[trigger] scan.children@[k]).node < graph_pages(*final(graph)).len()
            &&& forall|k: int, l: int|
                0 <= k < l < scan.children@.len() ==> (#[trigger] scan.children@[k]).node != (
                #[trigger] scan.children@[l]).node
        },
{
    let ghost before = site_of(*graph, *page_map);
    let text = match body {
        Some(text) => text,
        None => {
            let ok = record_missing_body(node_index, url, options, graph);
            proof {
                lemma_with_page_consistent(
                    before,
                    node_index,
                    page_without_body(
                        before.pages[node_index as int],
                        url@,
                        options.ignore_patterns@,
                    ),
                );
            }
            let children: Vec<Visit> = Vec::new();
            assert(children.deep_view() == Seq::<VisitView>::empty());
            return Ok(PageScan { ok, children });
        },
    };
    let document = match read_document(
        text,
        options.element_selector.as_str(),
        options.title_selector.as_str(),
        options.skip_class.as_str(),
    ) {
        Some(document) => document,
        None => {
            return Err(ScanFailure::InvalidSelector);
        },
    };
    if !document.is_supported() {
        return Err(ScanFailure::UnsupportedElement);
    }
    let needed = document.elements.len();
    if needed > GRAPH_LIMIT || graph_node_count(graph) > GRAPH_LIMIT - needed || graph_edge_count(
        graph,
    ) > GRAPH_LIMIT - needed {
        return Err(ScanFailure::GraphFull);
    }
    let scan = visit_document(
        node_index,
        url,
        &document,
        options,
        graph,
        page_map,
        current_depth,
    );
    proof {
        let context = context_of(node_index, url@, current_depth, *options);
        crate::laws::lemma_scan_document(before, context, document@);
        if options.max_depth != -1 && current_depth >= options.max_depth {
            crate::laws::lemma_depth_bound(before, context, document@);
        }
        assert forall|k: int| 0 <= k < scan.children@.len() implies before.pages.len() <= (
        #[trigger] scan.children@[k]).node < graph_pages(*graph).len() by {
            assert(scan.children.deep_view()[k].node == scan.children@[k].node);
        }
        assert forall|k: int, l: int| 0 <= k < l < scan.children@.len() implies (
        #[trigger] scan.children@[k]).node != (#[trigger] scan.children@[l]).node by {
            assert(scan.children.deep_view()[k].node == scan.children@[k].node);
            assert(scan.children.deep_view()[l].node == scan.children@[l].node);
        }
    }
    Ok(scan)
}

} // verus!
