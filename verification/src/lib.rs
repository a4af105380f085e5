//! Checks the integrity of a website: the page graph of a crawl, the rules
//! that decide what each fetched page adds to it, and the anomalies found on
//! the way.
//!
//! The library performs no I/O. A crawl is driven from outside: the driver asks
//! for the next page to fetch, performs the request, and hands back what came.
use std::collections::VecDeque;
use vstd::prelude::*;

pub mod text;
pub mod error;
pub mod urls;
pub mod html;
pub mod url_helpers;
pub mod ignore_rules;
pub mod graph;
pub mod algo;
pub mod laws;
pub mod dot;

use crate::algo::{
    body_view, context_of, page_after_response, scan_document, scan_of_body, site_of,
    status_after_response, Fetched, PageStatus, Scan, ScanFailure, Site, Visit, VisitView,
};
use crate::error::{SpiderError, SpiderErrorType, SpiderErrorView};
use crate::graph::{
    graph_edge_count, graph_new, graph_node_count, graph_node_weight, graph_pages, PageGraph,
    PageMap, GRAPH_LIMIT,
};
use crate::html::{all_supported, document_read, Document};
use crate::ignore_rules::{rule_enabled, rules_of_lines, IgnoreFileError, IgnoreRules};
use crate::laws::{
    lemma_hand_out, lemma_scan_document, lemma_schedule_survives, lemma_schedule_takes_new_pages,
    schedule_sound,
};
use crate::url_helpers::host_views;
use crate::urls::{canonical, url_host, url_parse_result, Host, HostView, Url};

verus! {

/// One reference from a page to another, with the markup of the referring element.
#[derive(Debug)]
pub struct Link {
    pub html: String,
}

impl View for Link {
    type V = Seq<char>;

    open spec fn view(&self) -> Seq<char> {
        self.html@
    }
}

/// One discovered page.
#[derive(Debug)]
pub struct Page {
    /// The title of the page, once it was fetched and had one.
    pub title: Option<String>,
    /// The media type that came with the page, in lower case and without parameters.
    pub content_type: Option<String>,
    /// Whether fetching the page succeeded; `None` while that is not known.
    pub good: Option<bool>,
    /// Whether the attempt to fetch the page has come to an end.
    pub visited: bool,
    /// The canonical URL of the page.
    pub url: Url,
    /// The status of the response, where there was one.
    pub status_code: Option<u16>,
    /// The anomalies recorded for this page, in the order in which they were found.
    pub errors: Vec<SpiderError>,
}

/// A page as a mathematical value.
#[verifier::ext_equal]
pub struct PageView {
    pub title: Option<Seq<char>>,
    pub content_type: Option<Seq<char>>,
    pub good: Option<bool>,
    pub visited: bool,
    pub url: Seq<char>,
    pub status_code: Option<u16>,
    pub errors: Seq<SpiderErrorView>,
}

impl PageView {
    /// A page of which only the URL is known.
    pub open spec fn fresh(url: Seq<char>) -> PageView {
        PageView {
            title: None,
            content_type: None,
            good: None,
            visited: false,
            url,
            status_code: None,
            errors: Seq::empty(),
        }
    }

    /// This page with one more anomaly recorded.
    pub open spec fn with_error(self, anomaly: SpiderErrorView) -> PageView {
        PageView { errors: self.errors.push(anomaly), ..self }
    }
}

impl View for Page {
    type V = PageView;

    open spec fn view(&self) -> PageView {
        PageView {
            title: self.title.deep_view(),
            content_type: self.content_type.deep_view(),
            good: self.good,
            visited: self.visited,
            url: self.url@,
            status_code: self.status_code,
            errors: self.errors.deep_view(),
        }
    }
}

impl Page {
    /// A page of which only the URL is known: not fetched, with no anomalies.
    pub fn new(url: &Url) -> (page: Self)
        ensures
            page@ == PageView::fresh(url@),
    {
        let page = Self {
            title: None,
            content_type: None,
            good: None,
            visited: false,
            url: url.clone(),
            status_code: None,
            errors: Vec::<SpiderError>::new(),
        };
        assert(page.errors.deep_view() =~= Seq::empty());
        page
    }

    /// Records one more anomaly for this page.
    pub fn record(&mut self, anomaly: SpiderError)
        ensures
            final(self)@ == old(self)@.with_error(anomaly@),
    {
        self.errors.push(anomaly);
        assert(self.errors.deep_view() =~= old(self).errors.deep_view().push(anomaly@));
    }
}

/// The settings of a crawl.
#[derive(Debug)]
pub struct SpiderOptions {
    /// How far from the root pages are fetched: `-1` without limit, `0` the
    /// root alone, `n` the pages up to `n` links away.
    pub max_depth: i32,
    /// The selector of the elements that are scanned for references.
    pub element_selector: String,
    /// The selector of the element that holds the title of a page.
    pub title_selector: String,
    /// The class that exempts an element from the scan.
    pub skip_class: String,
    /// The hosts whose pages are scanned for further references.
    pub hosts: Vec<Host>,
    /// The anomalies that are not recorded.
    pub ignore_patterns: IgnoreRules,
}

/// The host that `url` names, where it is an absolute URL with a host.
pub open spec fn host_named(url: Seq<char>) -> Option<HostView> {
    match url_parse_result(url) {
        Ok(parsed) => url_host(parsed),
        Err(_) => None,
    }
}

/// The hosts that a list of URLs names, where each of them names one.
pub open spec fn hosts_named(urls: Seq<Seq<char>>) -> Option<Seq<HostView>>
    decreases urls.len(),
{
    if urls.len() == 0 {
        Some(Seq::empty())
    } else {
        match (hosts_named(urls.drop_last()), host_named(urls.last())) {
            (Some(hosts), Some(host)) => Some(hosts.push(host)),
            _ => None,
        }
    }
}

/// The texts of a list, as mathematical values.
pub open spec fn text_views(texts: Seq<&str>) -> Seq<Seq<char>> {
    Seq::new(texts.len(), |i: int| texts[i]@)
}

/// The host that `url` names, where it is an absolute URL with a host.
pub fn host_of_url(url: &str) -> (host: Option<Host>)
    ensures
        host.deep_view() == host_named(url@),
{
    match Url::parse(url) {
        Ok(parsed) => parsed.host(),
        Err(_) => None,
    }
}

impl Default for SpiderOptions {
    fn default() -> (options: Self)
        ensures
            options.max_depth == -1,
            options.element_selector@ == "a,link,img,script"@,
            options.title_selector@ == "title"@,
            options.skip_class@ == "scrab-skip"@,
            options.hosts@.len() == 0,
            options.ignore_patterns@.len() == 0,
    {
        Self {
            max_depth: -1,
            element_selector: "a,link,img,script".to_owned(),
            title_selector: "title".to_owned(),
            skip_class: "scrab-skip".to_owned(),
            hosts: Vec::new(),
            ignore_patterns: IgnoreRules::new(),
        }
    }
}

impl SpiderOptions {
    /// The default settings with the hosts of `target_urls` as the hosts to
    /// scan. `None` where one of them is no absolute URL or has no host.
    pub fn new(target_urls: &[&str]) -> (r: Option<Self>)
        ensures
            match r {
                Some(options) => {
                    &&& hosts_named(text_views(target_urls@)) == Some(host_views(options.hosts@))
                    &&& options.max_depth == -1
                    &&& options.element_selector@ == "a,link,img,script"@
                    &&& options.title_selector@ == "title"@
                    &&& options.skip_class@ == "scrab-skip"@
                    &&& options.ignore_patterns@.len() == 0
                },
                None => hosts_named(text_views(target_urls@)).is_none(),
            },
    {
        let mut options = SpiderOptions::default();
        let ghost urls = text_views(target_urls@);
        let mut i: usize = 0;
        assert(urls.take(0) == Seq::<Seq<char>>::empty());
        assert(host_views(options.hosts@) == Seq::<HostView>::empty());
        while i < target_urls.len()
            invariant
                i <= target_urls.len(),
                urls == text_views(target_urls@),
                hosts_named(urls.take(i as int)) == Some(host_views(options.hosts@)),
                options.max_depth == -1,
                options.element_selector@ == "a,link,img,script"@,
                options.title_selector@ == "title"@,
                options.skip_class@ == "scrab-skip"@,
                options.ignore_patterns@.len() == 0,
            decreases target_urls.len() - i,
        {
            proof {
                assert(urls.take(i as int + 1).drop_last() == urls.take(i as int));
                assert(urls.take(i as int + 1).last() == target_urls@[i as int]@);
            }
            match host_of_url(target_urls[i]) {
                Some(host) => {
                    let ghost before = host_views(options.hosts@);
                    options.hosts.push(host);
                    assert(host_views(options.hosts@) == before.push(host@));
                },
                None => {
                    proof {
                        lemma_unnamed_stays_unnamed(urls, i as int + 1);
                    }
                    return None;
                },
            }
            i += 1;
        }
        assert(urls.take(i as int) == urls);
        Some(options)
    }

    /// Adds the host of `url` to the hosts to scan. Returns whether it did:
    /// it does not where `url` is no absolute URL or has no host.
    pub fn add_host(&mut self, url: &str) -> (added: bool)
        ensures
            added == host_named(url@).is_some(),
            added ==> host_views(final(self).hosts@) == host_views(old(self).hosts@).push(
                host_named(url@).unwrap(),
            ),
            !added ==> final(self).hosts@ == old(self).hosts@,
            final(self).max_depth == old(self).max_depth,
            final(self).element_selector == old(self).element_selector,
            final(self).title_selector == old(self).title_selector,
            final(self).skip_class == old(self).skip_class,
            final(self).ignore_patterns == old(self).ignore_patterns,
    {
        match host_of_url(url) {
            Some(host) => {
                self.hosts.push(host);
                assert(host_views(self.hosts@) == host_views(old(self).hosts@).push(host@));
                true
            },
            None => false,
        }
    }

    /// Whether anomalies of kind `rule` that concern `url` are recorded.
    pub fn is_rule_enabled(&self, rule: SpiderErrorType, url: &Url) -> (enabled: bool)
        ensures
            enabled == rule_enabled(self.ignore_patterns@, rule, url@),
    {
        self.ignore_patterns.is_rule_enabled(rule, url)
    }

    /// Adds the rules that the lines of an ignore file hold to the ignore
    /// list of these settings and returns their number. Where a line is
    /// refused, nothing is added.
    pub fn read_ignore_list(&mut self, lines: &Vec<String>) -> (r: Result<usize, IgnoreFileError>)
        ensures
            match r {
                Ok(count) => {
                    &&& rules_of_lines(lines.deep_view()).is_ok()
                    &&& final(self).ignore_patterns@ == old(self).ignore_patterns@
                        + rules_of_lines(lines.deep_view()).unwrap()
                    &&& count == rules_of_lines(lines.deep_view()).unwrap().len()
                },
                Err(e) => {
                    &&& rules_of_lines(lines.deep_view()) == Err::<
                        Seq<(SpiderErrorType, Seq<char>)>,
                        IgnoreFileError,
                    >(e)
                    &&& final(self).ignore_patterns@ == old(self).ignore_patterns@
                },
            },
            final(self).max_depth == old(self).max_depth,
            final(self).element_selector == old(self).element_selector,
            final(self).title_selector == old(self).title_selector,
            final(self).skip_class == old(self).skip_class,
            final(self).hosts == old(self).hosts,
    {
        let mut read = match IgnoreRules::read_from_lines(lines) {
            Ok(read) => read,
            Err(e) => {
                return Err(e);
            },
        };
        let count = read.ignore_patterns.len();
        let ghost added = read@;
        let ghost before = self.ignore_patterns@;
        self.ignore_patterns.ignore_patterns.append(&mut read.ignore_patterns);
        assert(self.ignore_patterns@ =~= before + added);
        Ok(count)
    }
}

/// Once a beginning of a list holds a text that names no host, the list does.
pub proof fn lemma_unnamed_stays_unnamed(urls: Seq<Seq<char>>, n: int)
    requires
        0 <= n <= urls.len(),
        hosts_named(urls.take(n)).is_none(),
    ensures
        hosts_named(urls).is_none(),
    decreases urls.len() - n,
{
    if n < urls.len() {
        assert(urls.take(n + 1).drop_last() == urls.take(n));
        lemma_unnamed_stays_unnamed(urls, n + 1);
    } else {
        assert(urls.take(n) == urls);
    }
}

/// Puts the visits of a list at the end of a queue, in their order.
fn enqueue(queue: &mut VecDeque<Visit>, visits: &Vec<Visit>)
    ensures
        final(queue).deep_view() == old(queue).deep_view() + visits.deep_view(),
{
    let ghost listed = queue.deep_view();
    let mut i: usize = 0;
    assert(listed + visits.deep_view().take(0) == listed);
    while i < visits.len()
        invariant
            i <= visits.len(),
            queue.deep_view() == listed + visits.deep_view().take(i as int),
        decreases visits.len() - i,
    {
        let visit = &visits[i];
        let ghost so_far = queue.deep_view();
        queue.push_back(Visit { node: visit.node, url: visit.url.clone(), depth: visit.depth });
        proof {
            assert(queue.deep_view() == so_far.push(visit@));
            assert(visits.deep_view().take(i as int + 1) == visits.deep_view().take(
                i as int,
            ).push(visit@));
        }
        i += 1;
    }
    assert(visits.deep_view().take(i as int) == visits.deep_view());
}

/// A crawl: its settings, the graph of the pages it has discovered, the
/// registry of their URLs, and the pages that wait to be fetched.
///
/// Not every page of the graph has been fetched, and not every page that was
/// fetched is good.
pub struct SpiderCrab {
    /// The settings of the crawl.
    pub options: SpiderOptions,
    /// The pages discovered and the links between them.
    pub graph: PageGraph,
    /// The node of each URL that has a page.
    pub map: PageMap,
    /// The pages that wait to be fetched, the one that has waited longest first.
    pending: VecDeque<Visit>,
    /// Whether an anomaly was recorded that fails the crawl.
    found_problem: bool,
    /// The nodes of the pages that were handed out for fetching, in order.
    issued: Ghost<Seq<usize>>,
}

/// All the anomalies of a list of pages, page by page.
pub open spec fn all_errors(pages: Seq<PageView>) -> Seq<SpiderErrorView>
    decreases pages.len(),
{
    if pages.len() == 0 {
        Seq::empty()
    } else {
        all_errors(pages.drop_last()) + pages.last().errors
    }
}

impl SpiderCrab {
    /// What the crawl has found so far.
    pub closed spec fn site(&self) -> Site {
        site_of(self.graph, self.map)
    }

    /// The pages that wait to be fetched; the first is handed out next.
    pub closed spec fn waiting(&self) -> Seq<VisitView> {
        self.pending.deep_view()
    }

    /// The nodes of the pages that were handed out for fetching, in order.
    pub closed spec fn handed_out(&self) -> Seq<usize> {
        self.issued@
    }

    /// Whether no anomaly was recorded that fails the crawl.
    pub closed spec fn clean(&self) -> bool {
        !self.found_problem
    }

    /// The settings of the crawl.
    pub closed spec fn settings(&self) -> SpiderOptions {
        self.options
    }

    /// The registry holds no URL twice, and as many URLs as there are pages.
    pub closed spec fn registry_sound(&self) -> bool {
        self.map.inv() && self.map.spec_len() == graph_pages(self.graph).len()
    }

    /// The crawl is in order: graph and registry agree, so that no URL has
    /// two pages; every page that waits is a page of the graph under its own
    /// URL; and no page waits twice, was handed out twice, or waits after it
    /// was handed out.
    pub open spec fn wf(&self) -> bool {
        &&& self.registry_sound()
        &&& self.site().consistent()
        &&& schedule_sound(self.site().pages, self.handed_out(), self.waiting())
    }

    /// The number of URLs that the registry holds.
    pub closed spec fn registered(&self) -> nat {
        self.map.spec_len()
    }

    /// In a crawl that is in order no URL has two pages, and the number of
    /// pages is the number of the URLs that were discovered.
    pub proof fn lemma_one_page_for_each_url(&self)
        requires
            self.wf(),
        ensures
            forall|i: int, j: int|
                0 <= i < j < self.site().pages.len() ==> (#[trigger] self.site().pages[i]).url != (
                #[trigger] self.site().pages[j]).url,
            self.site().index.dom().finite(),
            self.site().index.dom().len() == self.site().pages.len(),
            self.registered() == self.site().pages.len(),
    {
        crate::laws::lemma_registry_counts_pages(self.site());
        assert forall|i: int, j: int| 0 <= i < j < self.site().pages.len() implies (
        #[trigger] self.site().pages[i]).url != (#[trigger] self.site().pages[j]).url by {
            crate::algo::lemma_pages_differ(self.site(), i, j);
        }
    }

    /// In a crawl that is in order no URL was handed out for fetching twice.
    pub proof fn lemma_each_url_fetched_once(&self, k: int, l: int)
        requires
            self.wf(),
            0 <= k < l < self.handed_out().len(),
        ensures
            self.handed_out()[k] != self.handed_out()[l],
            self.site().pages[self.handed_out()[k] as int].url
                != self.site().pages[self.handed_out()[l] as int].url,
    {
        crate::laws::lemma_no_url_handed_out_twice(
            self.site(),
            self.handed_out(),
            self.waiting(),
            k,
            l,
        );
    }

    /// A crawl with the given settings that has discovered nothing yet.
    pub fn with_options(options: SpiderOptions) -> (crab: Self)
        ensures
            crab.wf(),
            crab.settings() == options,
            crab.site().pages.len() == 0,
            crab.site().links.len() == 0,
            crab.site().index == Map::<Seq<char>, usize>::empty(),
            crab.waiting().len() == 0,
            crab.handed_out().len() == 0,
            crab.clean(),
    {
        Self {
            options,
            graph: graph_new(),
            map: PageMap::new(),
            pending: VecDeque::new(),
            found_problem: false,
            issued: Ghost(Seq::empty()),
        }
    }

    /// A crawl with the default settings and the hosts of `domain_names` as
    /// the hosts to scan. `None` where one of them is no absolute URL or has
    /// no host.
    pub fn new(domain_names: &[&str]) -> (r: Option<Self>)
        ensures
            r.is_some() == hosts_named(text_views(domain_names@)).is_some(),
            r matches Some(crab) ==> {
                &&& crab.wf()
                &&& hosts_named(text_views(domain_names@)) == Some(
                    host_views(crab.settings().hosts@),
                )
                &&& crab.settings().max_depth == -1
                &&& crab.settings().ignore_patterns@.len() == 0
                &&& crab.site().pages.len() == 0
                &&& crab.site().links.len() == 0
                &&& crab.waiting().len() == 0
                &&& crab.handed_out().len() == 0
                &&& crab.clean()
            },
    {
        match SpiderOptions::new(domain_names) {
            Some(options) => Some(SpiderCrab::with_options(options)),
            None => None,
        }
    }

    /// Begins to crawl the website at `url`: the canonical form of `url` gets
    /// a page, the root, which then waits to be fetched at depth zero.
    ///
    /// Returns whether it did. It does not, and changes nothing, where `url`
    /// is no absolute URL, where its canonical form has a page already, and
    /// where the graph is full.
    pub fn visit_website(&mut self, url: &str) -> (started: bool)
        requires
            old(self).wf(),
        ensures
            final(self).wf(),
            final(self).settings() == old(self).settings(),
            final(self).handed_out() == old(self).handed_out(),
            final(self).clean() == old(self).clean(),
            started == (canonical(url@) matches Some(root) && !old(self).site().index.contains_key(
                root,
            ) && old(self).site().pages.len() < GRAPH_LIMIT),
            started ==> {
                &&& final(self).site() == old(self).site().with_new_page(canonical(url@).unwrap())
                &&& final(self).waiting() == old(self).waiting().push(
                    VisitView {
                        node: old(self).site().pages.len() as usize,
                        url: canonical(url@).unwrap(),
                        depth: 0,
                    },
                )
            },
            !started ==> {
                &&& final(self).site() == old(self).site()
                &&& final(self).waiting() == old(self).waiting()
            },
    {
        let root = match Url::parse_canonical(url) {
            Some(root) => root,
            None => {
                return false;
            },
        };
        if graph_node_count(&self.graph) >= GRAPH_LIMIT {
            return false;
        }
        match algo::visit_root_page(&root, &mut self.graph, &mut self.map) {
            Some(visit) => {
                let ghost listed = self.pending.deep_view();
                self.pending.push_back(visit);
                proof {
                    assert(self.pending.deep_view() == listed.push(visit@));
                    assert(listed.push(visit@) == listed + seq![visit@]);
                    lemma_schedule_takes_new_pages(
                        old(self).site().pages,
                        self.site().pages,
                        self.handed_out(),
                        listed,
                        seq![visit@],
                    );
                }
                true
            },
            None => false,
        }
    }

    /// Hands out the next page to fetch, if one waits: the page that has
    /// waited longest, so that pages are fetched in the order of their
    /// distance from the root.
    ///
    /// The page has never been handed out before, and will not be again.
    pub fn next_visit(&mut self) -> (next: Option<Visit>)
        requires
            old(self).wf(),
        ensures
            final(self).wf(),
            final(self).settings() == old(self).settings(),
            final(self).site() == old(self).site(),
            final(self).clean() == old(self).clean(),
            match next {
                Some(visit) => {
                    &&& old(self).waiting().len() > 0
                    &&& visit@ == old(self).waiting().first()
                    &&& final(self).waiting() == old(self).waiting().drop_first()
                    &&& final(self).handed_out() == old(self).handed_out().push(visit.node)
                    &&& !old(self).handed_out().contains(visit.node)
                    &&& visit.node < final(self).site().pages.len()
                    &&& final(self).site().pages[visit.node as int].url == visit.url@
                },
                None => {
                    &&& old(self).waiting().len() == 0
                    &&& final(self).waiting() == old(self).waiting()
                    &&& final(self).handed_out() == old(self).handed_out()
                },
            },
    {
        let ghost listed = self.pending.deep_view();
        match self.pending.pop_front() {
            Some(visit) => {
                proof {
                    assert(self.pending.deep_view() == listed.drop_first());
                    assert(visit@ == listed.first());
                    lemma_hand_out(self.site().pages, self.issued@, listed);
                    self.issued@ = self.issued@.push(visit.node);
                }
                Some(visit)
            },
            None => None,
        }
    }

    /// The number of pages that wait to be fetched.
    pub fn pending_count(&self) -> (count: usize)
        ensures
            count == self.waiting().len(),
    {
        self.pending.len()
    }

    /// Whether no anomaly was recorded so far that fails the crawl. Once no
    /// page waits and every page handed out was reported, this is the result
    /// of the crawl.
    pub fn result(&self) -> (clean: bool)
        ensures
            clean == self.clean(),
    {
        !self.found_problem
    }

    /// Reports what fetching the page of `visit` brought. The page takes
    /// note of it as `page_after_response` says. The result tells whether the
    /// body of the page is to be read and reported with `scan_page`.
    pub fn visit_page(&mut self, visit: &Visit, fetched: Fetched) -> (status: PageStatus)
        requires
            old(self).wf(),
            visit.node < old(self).site().pages.len(),
        ensures
            final(self).wf(),
            final(self).settings() == old(self).settings(),
            final(self).waiting() == old(self).waiting(),
            final(self).handed_out() == old(self).handed_out(),
            final(self).site() == old(self).site().with_page(
                visit.node,
                page_after_response(
                    old(self).site().pages[visit.node as int],
                    visit.url@,
                    fetched@,
                    old(self).settings().ignore_patterns@,
                ),
            ),
            status == status_after_response(
                visit.url@,
                fetched@,
                old(self).settings().ignore_patterns@,
                host_views(old(self).settings().hosts@),
            ),
            final(self).clean() == (old(self).clean() && status != (PageStatus::Finished {
                ok: false,
            })),
    {
        let ghost before = self.site();
        let status = algo::visit_page(
            visit.node,
            &visit.url,
            fetched,
            &self.options,
            &mut self.graph,
        );
        match status {
            PageStatus::Finished { ok } => {
                if !ok {
                    self.found_problem = true;
                }
            },
            PageStatus::NeedsBody => {},
        }
        proof {
            let page = page_after_response(
                before.pages[visit.node as int],
                visit.url@,
                fetched@,
                self.options.ignore_patterns@,
            );
            crate::algo::lemma_with_page_consistent(before, visit.node, page);
            assert(self.site() == before.with_page(visit.node, page));
            lemma_schedule_survives(
                before.pages,
                self.site().pages,
                self.handed_out(),
                self.waiting(),
            );
        }
        status
    }

    /// Scans the document of the page of `visit`, as `scan_document` says.
    /// The pages that the scan created wait to be fetched from then on,
    /// unless the depth limit forbids it.
    ///
    /// Returns whether the scan recorded no anomaly that fails the crawl.
    /// Every element that is not exempt must have a tag that the scan knows,
    /// and the graph must have room for a page and a link for each element.
    pub fn visit_document(&mut self, visit: &Visit, document: &Document) -> (ok: bool)
        requires
            old(self).wf(),
            visit.node < old(self).site().pages.len(),
            visit.depth < i32::MAX,
            all_supported(document@.elements),
            old(self).site().pages.len() + document@.elements.len() <= GRAPH_LIMIT,
            old(self).site().links.len() + document@.elements.len() <= GRAPH_LIMIT,
        ensures
            final(self).wf(),
            final(self).settings() == old(self).settings(),
            final(self).handed_out() == old(self).handed_out(),
            ({
                let expected = scan_document(
                    old(self).site(),
                    context_of(visit.node, visit.url@, visit.depth, old(self).settings()),
                    document@,
                );
                &&& final(self).site() == expected.site
                &&& ok == !expected.found_problem
                &&& final(self).waiting() == old(self).waiting() + expected.children
                &&& final(self).clean() == (old(self).clean() && ok)
            }),
    {
        let ghost before = self.site();
        let ghost listed = self.pending.deep_view();
        let ghost context = context_of(visit.node, visit.url@, visit.depth, self.options);
        let scan = algo::visit_document(
            visit.node,
            &visit.url,
            document,
            &self.options,
            &mut self.graph,
            &mut self.map,
            visit.depth,
        );
        if !scan.ok {
            self.found_problem = true;
        }
        let ghost children = scan.children.deep_view();
        enqueue(&mut self.pending, &scan.children);
        proof {
            assert(self.pending.deep_view() == listed + children);
            lemma_scan_document(before, context, document@);
            lemma_schedule_takes_new_pages(
                before.pages,
                self.site().pages,
                self.handed_out(),
                listed,
                children,
            );
        }
        scan.ok
    }

    /// Reports what reading the body of the page of `visit` brought: the
    /// text, or `None` where reading it failed. The page is scanned as
    /// `scan_of_body` says, and the pages that the scan created wait to be
    /// fetched from then on, unless the depth limit forbids it.
    ///
    /// Returns whether the scan recorded no anomaly that fails the crawl. A
    /// failure changes nothing.
    pub fn scan_page(&mut self, visit: &Visit, body: Option<&str>) -> (r: Result<
        bool,
        ScanFailure,
    >)
        requires
            old(self).wf(),
            visit.node < old(self).site().pages.len(),
            visit.depth < i32::MAX,
        ensures
            final(self).wf(),
            final(self).settings() == old(self).settings(),
            final(self).handed_out() == old(self).handed_out(),
            ({
                let expected = scan_of_body(
                    old(self).site(),
                    context_of(visit.node, visit.url@, visit.depth, old(self).settings()),
                    body_view(body),
                    old(self).settings(),
                );
                match r {
                    Ok(ok) => {
                        &&& expected matches Ok(s)
                        &&& final(self).site() == s.site
                        &&& ok == !s.found_problem
                        &&& final(self).waiting() == old(self).waiting() + s.children
                        &&& final(self).clean() == (old(self).clean() && ok)
                    },
                    Err(failure) => {
                        &&& expected == Err::<Scan, ScanFailure>(failure)
                        &&& final(self).site() == old(self).site()
                        &&& final(self).waiting() == old(self).waiting()
                        &&& final(self).clean() == old(self).clean()
                    },
                }
            }),
            r.is_ok() && old(self).settings().max_depth != -1 && visit.depth >= old(
                self,
            ).settings().max_depth ==> final(self).waiting() == old(self).waiting(),
    {
        let ghost before = self.site();
        let ghost listed = self.pending.deep_view();
        let ghost context = context_of(visit.node, visit.url@, visit.depth, self.options);
        let ghost expected = scan_of_body(before, context, body_view(body), self.options);
        let scan = match algo::scan_page(
            visit.node,
            &visit.url,
            body,
            &self.options,
            &mut self.graph,
            &mut self.map,
            visit.depth,
        ) {
            Ok(scan) => scan,
            Err(failure) => {
                return Err(failure);
            },
        };
        if !scan.ok {
            self.found_problem = true;
        }
        let ghost children = scan.children.deep_view();
        let ghost after = self.site();
        enqueue(&mut self.pending, &scan.children);
        proof {
            assert(self.pending.deep_view() == listed + children);
            match body {
                Some(text) => {
                    let document = document_read(
                        text@,
                        self.options.element_selector@,
                        self.options.title_selector@,
                        self.options.skip_class@,
                    ).unwrap();
                    lemma_scan_document(before, context, document);
                },
                None => {
                    assert(children.len() == 0);
                },
            }
            if children.len() == 0 {
                assert(listed + children == listed);
            }
            lemma_schedule_takes_new_pages(
                before.pages,
                after.pages,
                self.handed_out(),
                listed,
                children,
            );
        }
        Ok(scan.ok)
    }

    /// The page of `url`, which must have one.
    pub fn get_page(&self, url: &Url) -> (page: &Page)
        requires
            self.wf(),
            self.site().index.contains_key(url@),
        ensures
            page@ == self.site().pages[self.site().index[url@] as int],
    {
        let node_id = match self.map.get(url) {
            Some(node_id) => node_id,
            None => 0,
        };
        graph_node_weight(&self.graph, node_id)
    }

    /// The page of `url`, if it has one.
    pub fn find_page(&self, url: &Url) -> (page: Option<&Page>)
        requires
            self.wf(),
        ensures
            match page {
                Some(page) => self.site().index.contains_key(url@) && page@
                    == self.site().pages[self.site().index[url@] as int],
                None => !self.site().index.contains_key(url@),
            },
    {
        match self.map.get(url) {
            Some(node_id) => Some(graph_node_weight(&self.graph, node_id)),
            None => None,
        }
    }

    /// The page of the URL that `url` is the text of, if that is an absolute
    /// URL and has a page.
    pub fn get_page_by_str(&self, url: &str) -> (page: Option<&Page>)
        requires
            self.wf(),
        ensures
            match page {
                Some(page) => url_parse_result(url@) matches Ok(parsed)
                    && self.site().index.contains_key(parsed) && page@
                    == self.site().pages[self.site().index[parsed] as int],
                None => url_parse_result(url@) matches Ok(parsed)
                    ==> !self.site().index.contains_key(parsed),
            },
    {
        match Url::parse(url) {
            Ok(parsed) => self.find_page(&parsed),
            Err(_) => None,
        }
    }

    /// Whether `url` has a page.
    pub fn contains_page(&self, url: &Url) -> (r: bool)
        ensures
            r == self.site().index.contains_key(url@),
    {
        self.map.contains_key(url)
    }

    /// Whether `url` is the text of an absolute URL that has a page.
    pub fn contains_page_by_str(&self, url: &str) -> (r: bool)
        ensures
            r == (url_parse_result(url@) matches Ok(parsed) && self.site().index.contains_key(
                parsed,
            )),
    {
        match Url::parse(url) {
            Ok(parsed) => self.contains_page(&parsed),
            Err(_) => false,
        }
    }

    /// Whether the page of `url`, which must have one, was fetched with
    /// success and has no anomaly.
    pub fn is_page_good(&self, url: &Url) -> (r: bool)
        requires
            self.wf(),
            self.site().index.contains_key(url@),
        ensures
            r == (self.site().pages[self.site().index[url@] as int].good == Some(true)
                && self.site().pages[self.site().index[url@] as int].errors.len() == 0),
    {
        let page = self.get_page(url);
        assert(page@.errors.len() == page.errors@.len());
        match page.good {
            Some(good) => good && page.errors.len() == 0,
            None => false,
        }
    }

    /// Whether `url` is the text of an absolute URL whose page was fetched
    /// with success and has no anomaly.
    pub fn is_page_good_by_str(&self, url: &str) -> (r: bool)
        requires
            self.wf(),
        ensures
            r == (url_parse_result(url@) matches Ok(parsed) && self.site().index.contains_key(
                parsed,
            ) && self.site().pages[self.site().index[parsed] as int].good == Some(true)
                && self.site().pages[self.site().index[parsed] as int].errors.len() == 0),
    {
        match Url::parse(url) {
            Ok(parsed) => self.contains_page(&parsed) && self.is_page_good(&parsed),
            Err(_) => false,
        }
    }

    /// The graph in the DOT language of Graphviz.
    pub fn get_dot_format(&self) -> (text: String)
        ensures
            text@ == crate::dot::dot_rendering(self.site().pages, self.site().links),
    {
        crate::dot::graph_dot(&self.graph)
    }

    /// The number of pages in the graph.
    pub fn page_count(&self) -> (count: usize)
        ensures
            count == self.site().pages.len(),
    {
        graph_node_count(&self.graph)
    }

    /// The number of links in the graph.
    pub fn link_count(&self) -> (count: usize)
        ensures
            count == self.site().links.len(),
    {
        graph_edge_count(&self.graph)
    }

    /// All the anomalies recorded, page by page in the order of the nodes,
    /// and for each page in the order in which they were found.
    pub fn errors(&self) -> (errors: Vec<&SpiderError>)
        ensures
            errors.deep_view() == all_errors(self.site().pages),
    {
        let mut errors: Vec<&SpiderError> = Vec::new();
        let count = graph_node_count(&self.graph);
        let ghost pages = self.site().pages;
        let mut node: usize = 0;
        assert(pages.take(0) == Seq::<PageView>::empty());
        assert(errors.deep_view() == Seq::<SpiderErrorView>::empty());
        while node < count
            invariant
                node <= count,
                count == pages.len(),
                pages == graph_pages(self.graph),
                errors.deep_view() == all_errors(pages.take(node as int)),
            decreases count - node,
        {
            let page = graph_node_weight(&self.graph, node);
            let ghost so_far = errors.deep_view();
            proof {
                assert(pages.take(node as int + 1).drop_last() == pages.take(node as int));
                assert(pages.take(node as int + 1).last() == page@);
            }
            let mut i: usize = 0;
            assert(page@.errors.take(0) == Seq::<SpiderErrorView>::empty());
            assert(so_far + Seq::<SpiderErrorView>::empty() == so_far);
            while i < page.errors.len()
                invariant
                    i <= page.errors.len(),
                    page@.errors.len() == page.errors.len(),
                    errors.deep_view() == so_far + page@.errors.take(i as int),
                decreases page.errors.len() - i,
            {
                let ghost listed = errors.deep_view();
                errors.push(&page.errors[i]);
                proof {
                    assert(errors.deep_view() == listed.push(page.errors[i as int]@));
                    assert(page@.errors[i as int] == page.errors[i as int]@);
                    assert(page@.errors.take(i as int + 1) == page@.errors.take(i as int).push(
                        page@.errors[i as int],
                    ));
                }
                i += 1;
            }
            assert(page@.errors.take(i as int) == page@.errors);
            node += 1;
        }
        assert(pages.take(node as int) == pages);
        errors
    }
}

impl Default for SpiderCrab {
    fn default() -> (crab: Self)
        ensures
            crab.wf(),
            crab.settings().max_depth == -1,
            crab.settings().hosts@.len() == 0,
            crab.settings().ignore_patterns@.len() == 0,
            crab.site().pages.len() == 0,
            crab.site().links.len() == 0,
            crab.waiting().len() == 0,
            crab.handed_out().len() == 0,
            crab.clean(),
    {
        SpiderCrab::with_options(SpiderOptions::default())
    }
}

} // verus!
