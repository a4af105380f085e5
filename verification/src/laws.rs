//! What holds of every scan: pages and links are only added, a page is handed
//! out for fetching when it is created and never again, and the depth limit
//! is kept.
use vstd::prelude::*;
use crate::algo::{
    lemma_element_keeps_sound, lemma_with_page_consistent, page_after_document, scan_document,
    Scan, ScanContext, Site, VisitView,
};
use crate::graph::GRAPH_LIMIT;
use crate::html::{DocumentView, ElementView};
use crate::url_helpers::element_target;
use crate::urls::{resolved, url_without_fragment};
use crate::PageView;

verus! {

/// Whether `after` is `before` with, at most, more anomalies at the end.
pub open spec fn same_but_errors(before: PageView, after: PageView) -> bool {
    &&& after == (PageView { errors: after.errors, ..before })
    &&& before.errors.len() <= after.errors.len()
    &&& after.errors.take(before.errors.len() as int) == before.errors
}

impl Site {
    /// Whether `after` holds all that this site holds and, beyond that, only
    /// new pages that have not been fetched, links from the page `node`, and
    /// anomalies of the page `node`.
    pub open spec fn grows_to(self, after: Site, node: usize) -> bool {
        &&& self.pages.len() <= after.pages.len()
        &&& self.links.len() <= after.links.len()
        &&& forall|j: int|
            0 <= j < self.pages.len() && j != node ==> #[trigger] after.pages[j] == self.pages[j]
        &&& same_but_errors(self.pages[node as int], after.pages[node as int])
        &&& forall|j: int|
            self.pages.len() <= j < after.pages.len() ==> #[trigger] after.pages[j]
                == PageView::fresh(after.pages[j].url)
        &&& forall|e: int| 0 <= e < self.links.len() ==> #[trigger] after.links[e] == self.links[e]
        &&& forall|e: int|
            self.links.len() <= e < after.links.len() ==> (#[trigger] after.links[e]).source == node
        &&& forall|url: Seq<char>| #[trigger]
            self.index.contains_key(url) ==> after.index.contains_key(url) && after.index[url]
                == self.index[url]
    }
}

/// Whether the pages that `after` lists beyond those of `before` are pages
/// that were created in between, each listed once, under its own URL and one
/// link further from the root than the page of the scan.
pub open spec fn lists_new_pages(before: Scan, after: Scan, context: ScanContext) -> bool {
    &&& before.children.len() <= after.children.len()
    &&& after.children.take(before.children.len() as int) == before.children
    &&& forall|k: int|
        before.children.len() <= k < after.children.len() ==> {
            &&& before.site.pages.len() <= (#[trigger] after.children[k]).node
                < after.site.pages.len()
            &&& after.site.pages[after.children[k].node as int].url == after.children[k].url
            &&& after.children[k].depth == context.depth + 1
        }
    &&& forall|k: int, l: int|
        before.children.len() <= k < l < after.children.len() ==> (
        #[trigger] after.children[k]).node < (#[trigger] after.children[l]).node
    &&& !context.expands() ==> after.children == before.children
}

/// Whether `after` can come of `before` in the scan of a page: the site has
/// grown, the new pages to fetch are listed, and a problem once found stays found.
pub open spec fn follows(before: Scan, after: Scan, context: ScanContext) -> bool {
    &&& before.site.grows_to(after.site, context.node)
    &&& lists_new_pages(before, after, context)
    &&& before.found_problem ==> after.found_problem
}

/// Every scan follows from itself.
pub proof fn lemma_follows_itself(scan: Scan, context: ScanContext)
    requires
        scan.sound(context),
    ensures
        follows(scan, scan, context),
{
    assert(scan.site.pages[context.node as int].errors.take(
        scan.site.pages[context.node as int].errors.len() as int,
    ) == scan.site.pages[context.node as int].errors);
    assert(scan.children.take(scan.children.len() as int) == scan.children);
}

/// What follows from what follows, follows.
pub proof fn lemma_follows_in_turn(first: Scan, second: Scan, third: Scan, context: ScanContext)
    requires
        first.sound(context),
        follows(first, second, context),
        follows(second, third, context),
        context.depth < i32::MAX,
    ensures
        follows(first, third, context),
{
    let node = context.node as int;
    let a = first.site.pages[node];
    let b = second.site.pages[node];
    let c = third.site.pages[node];
    assert(c.errors.take(a.errors.len() as int) == a.errors) by {
        assert(b.errors.take(a.errors.len() as int) == a.errors);
        assert(c.errors.take(b.errors.len() as int) == b.errors);
        assert forall|i: int| 0 <= i < a.errors.len() implies c.errors.take(
            a.errors.len() as int,
        )[i] == a.errors[i] by {
            assert(c.errors.take(b.errors.len() as int)[i] == b.errors[i]);
            assert(b.errors.take(a.errors.len() as int)[i] == a.errors[i]);
        }
    }
    assert(same_but_errors(a, c));
    assert forall|j: int| 0 <= j < first.site.pages.len() && j != node implies #[trigger]
        third.site.pages[j] == first.site.pages[j] by {
        assert(second.site.pages[j] == first.site.pages[j]);
    }
    assert forall|j: int| first.site.pages.len() <= j < third.site.pages.len() implies #[trigger]
        third.site.pages[j] == PageView::fresh(third.site.pages[j].url) by {
        if j < second.site.pages.len() {
            assert(second.site.pages[j] == PageView::fresh(second.site.pages[j].url));
            assert(third.site.pages[j] == second.site.pages[j]);
        }
    }
    assert forall|e: int| 0 <= e < first.site.links.len() implies #[trigger] third.site.links[e]
        == first.site.links[e] by {
        assert(second.site.links[e] == first.site.links[e]);
    }
    assert forall|e: int| first.site.links.len() <= e < third.site.links.len() implies (
    #[trigger] third.site.links[e]).source == context.node by {
        if e < second.site.links.len() {
            assert(third.site.links[e] == second.site.links[e]);
        }
    }
    assert forall|url: Seq<char>| #[trigger] first.site.index.contains_key(url) implies
        third.site.index.contains_key(url) && third.site.index[url] == first.site.index[url] by {
        assert(second.site.index.contains_key(url));
    }
    assert(first.site.grows_to(third.site, context.node));
    let n1 = first.children.len() as int;
    let n2 = second.children.len() as int;
    assert(third.children.take(n1) == first.children) by {
        assert(third.children.take(n2) == second.children);
        assert(second.children.take(n1) == first.children);
        assert forall|i: int| 0 <= i < n1 implies third.children.take(n1)[i]
            == first.children[i] by {
            assert(third.children.take(n2)[i] == second.children[i]);
            assert(second.children.take(n1)[i] == first.children[i]);
        }
    }
    assert forall|k: int| n1 <= k < third.children.len() implies {
        &&& first.site.pages.len() <= (#[trigger] third.children[k]).node < third.site.pages.len()
        &&& third.site.pages[third.children[k].node as int].url == third.children[k].url
        &&& third.children[k].depth == context.depth + 1
    } by {
        if k < n2 {
            assert(third.children.take(n2)[k] == second.children[k]);
            let child = second.children[k];
            assert(first.site.pages.len() <= child.node < second.site.pages.len());
            if child.node != node {
                assert(third.site.pages[child.node as int] == second.site.pages[child.node as int]);
            }
        }
    }
    assert forall|k: int, l: int| n1 <= k < l < third.children.len() implies (
    #[trigger] third.children[k]).node < (#[trigger] third.children[l]).node by {
        if k < n2 {
            assert(third.children.take(n2)[k] == second.children[k]);
            assert(second.children[k].node < second.site.pages.len());
        }
        if l < n2 {
            assert(third.children.take(n2)[l] == second.children[l]);
        }
    }
    if !context.expands() {
        assert(third.children == first.children);
    }
    assert(lists_new_pages(first, third, context));
}

/// The scan after one more element follows from the scan before it.
pub proof fn lemma_element_follows(scan: Scan, context: ScanContext, element: ElementView)
    requires
        scan.sound(context),
        scan.site.pages.len() < GRAPH_LIMIT,
        context.depth < i32::MAX,
    ensures
        follows(scan, scan.element(context, element), context),
{
    let after = scan.element(context, element);
    let node = context.node as int;
    lemma_follows_itself(scan, context);
    if after != scan {
        let page = scan.site.pages[node];
        let n = scan.site.pages.len() as int;
        if after.site.pages.len() == n && after.site.links.len() == scan.site.links.len() {
            // An anomaly was noted.
            assert(after.site.pages[node].errors.take(page.errors.len() as int) == page.errors);
            assert(after.children == scan.children);
        } else if after.site.pages.len() == n {
            // A link to a page that was there already.
            assert(after.site.pages == scan.site.pages);
            assert(after.children == scan.children);
        } else {
            let target = match element_target(element, context.url) {
                Ok(Some(target)) => target,
                _ => arbitrary(),
            };
            assert(after == scan.refer(context, target, element.html));
            assert(after.site.pages == scan.site.pages.push(PageView::fresh(target)));
            assert(after.site.pages[node] == page);
            assert forall|url: Seq<char>| #[trigger]
                scan.site.index.contains_key(url) implies after.site.index.contains_key(url)
                && after.site.index[url] == scan.site.index[url] by {}
            if context.expands() {
                let child = VisitView { node: n as usize, url: target, depth: (context.depth + 1) as i32 };
                assert(after.children == scan.children.push(child));
                assert(after.children.take(scan.children.len() as int) == scan.children);
            }
        }
    }
}

/// The scan after a list of elements is sound and follows from the scan
/// before it, and it holds at most one more page and one more link for each
/// element.
pub proof fn lemma_elements_follow(scan: Scan, context: ScanContext, elements: Seq<ElementView>)
    requires
        scan.sound(context),
        scan.site.pages.len() + elements.len() <= GRAPH_LIMIT,
        context.depth < i32::MAX,
    ensures
        scan.elements(context, elements).sound(context),
        follows(scan, scan.elements(context, elements), context),
        scan.elements(context, elements).site.pages.len() <= scan.site.pages.len()
            + elements.len(),
        scan.elements(context, elements).site.links.len() <= scan.site.links.len()
            + elements.len(),
    decreases elements.len(),
{
    if elements.len() == 0 {
        lemma_follows_itself(scan, context);
    } else {
        let middle = scan.elements(context, elements.drop_last());
        lemma_elements_follow(scan, context, elements.drop_last());
        lemma_element_keeps_sound(middle, context, elements.last());
        lemma_element_follows(middle, context, elements.last());
        lemma_follows_in_turn(
            scan,
            middle,
            middle.element(context, elements.last()),
            context,
        );
    }
}

/// The scan of a document leaves a consistent site consistent, so that
/// afterwards, too, no URL has two pages. All the pages and links
/// that were there are still there, and the pages to fetch next are pages
/// that the scan created: none of them was ever listed before.
pub proof fn lemma_scan_document(site: Site, context: ScanContext, document: DocumentView)
    requires
        site.consistent(),
        context.node < site.pages.len(),
        site.pages.len() + document.elements.len() <= GRAPH_LIMIT,
        context.depth < i32::MAX,
    ensures
        scan_document(site, context, document).site.consistent(),
        site.pages.len() <= scan_document(site, context, document).site.pages.len(),
        forall|j: int|
            0 <= j < site.pages.len() ==> (#[trigger] scan_document(
                site,
                context,
                document,
            ).site.pages[j]).url == site.pages[j].url,
        forall|j: int|
            0 <= j < site.pages.len() && j != context.node ==> #[trigger] scan_document(
                site,
                context,
                document,
            ).site.pages[j] == site.pages[j],
        forall|j: int|
            site.pages.len() <= j < scan_document(site, context, document).site.pages.len()
                ==> #[trigger] scan_document(site, context, document).site.pages[j]
                == PageView::fresh(scan_document(site, context, document).site.pages[j].url),
        forall|k: int|
            0 <= k < scan_document(site, context, document).children.len() ==> {
                &&& site.pages.len() <= (#[trigger] scan_document(
                    site,
                    context,
                    document,
                ).children[k]).node < scan_document(site, context, document).site.pages.len()
                &&& scan_document(site, context, document).site.pages[scan_document(
                    site,
                    context,
                    document,
                ).children[k].node as int].url == scan_document(
                    site,
                    context,
                    document,
                ).children[k].url
                &&& scan_document(site, context, document).children[k].depth == context.depth
                    + 1
            },
        forall|k: int, l: int|
            0 <= k < l < scan_document(site, context, document).children.len() ==> (
            #[trigger] scan_document(site, context, document).children[k]).node < (
            #[trigger] scan_document(site, context, document).children[l]).node,
{
    let page = page_after_document(site.pages[context.node as int], context, document.title);
    let start = Scan {
        site: site.with_page(context.node, page),
        found_problem: false,
        children: Seq::empty(),
    };
    lemma_with_page_consistent(site, context.node, page);
    lemma_elements_follow(start, context, document.elements);
    let after = scan_document(site, context, document);
    assert(after == start.elements(context, document.elements));
    assert forall|j: int| 0 <= j < site.pages.len() implies (#[trigger] after.site.pages[j]).url
        == site.pages[j].url by {
        if j != context.node {
            assert(after.site.pages[j] == start.site.pages[j]);
        }
    }
    assert forall|j: int| 0 <= j < site.pages.len() && j != context.node implies #[trigger]
        after.site.pages[j] == site.pages[j] by {
        assert(after.site.pages[j] == start.site.pages[j]);
    }
}

/// The depth limit is kept: the scan of a page that is as far from the root
/// as the limit allows, or further, lists no page to fetch. With the limit
/// zero that is so for the root itself.
pub proof fn lemma_depth_bound(site: Site, context: ScanContext, document: DocumentView)
    requires
        site.consistent(),
        context.node < site.pages.len(),
        site.pages.len() + document.elements.len() <= GRAPH_LIMIT,
        context.depth < i32::MAX,
        context.max_depth != -1,
        context.depth >= context.max_depth,
    ensures
        scan_document(site, context, document).children.len() == 0,
{
    let page = page_after_document(site.pages[context.node as int], context, document.title);
    let start = Scan {
        site: site.with_page(context.node, page),
        found_problem: false,
        children: Seq::empty(),
    };
    lemma_with_page_consistent(site, context.node, page);
    lemma_elements_follow(start, context, document.elements);
}

/// Whether an element refers to a URL that has no page in `site`.
pub open spec fn refers_to_new_page(element: ElementView, url: Seq<char>, site: Site) -> bool {
    !element.skip && (element_target(element, url) matches Ok(Some(target))
        && !site.index.contains_key(target))
}

/// A scan of elements of which none refers to a URL without a page adds no
/// page and lists none to fetch.
pub proof fn lemma_elements_without_new_pages(
    scan: Scan,
    context: ScanContext,
    elements: Seq<ElementView>,
)
    requires
        context.node < scan.site.pages.len(),
        forall|i: int|
            0 <= i < elements.len() ==> !refers_to_new_page(
                #[trigger] elements[i],
                context.url,
                scan.site,
            ),
    ensures
        scan.elements(context, elements).site.pages.len() == scan.site.pages.len(),
        scan.elements(context, elements).site.index == scan.site.index,
        scan.elements(context, elements).children == scan.children,
    decreases elements.len(),
{
    if elements.len() > 0 {
        let rest = elements.drop_last();
        assert forall|i: int| 0 <= i < rest.len() implies !refers_to_new_page(
            #[trigger] rest[i],
            context.url,
            scan.site,
        ) by {
            assert(rest[i] == elements[i]);
        }
        lemma_elements_without_new_pages(scan, context, rest);
        assert(!refers_to_new_page(elements[elements.len() - 1], context.url, scan.site));
    }
}

/// With the depth limit zero, the scan of the root lists no page to fetch,
/// whatever the root refers to. Where the root is the only page and refers
/// to no other URL, it stays the only page.
pub proof fn lemma_root_only(site: Site, context: ScanContext, document: DocumentView)
    requires
        site.consistent(),
        context.node < site.pages.len(),
        site.pages.len() + document.elements.len() <= GRAPH_LIMIT,
        context.max_depth == 0,
        context.depth == 0,
    ensures
        scan_document(site, context, document).children.len() == 0,
        site.pages.len() == 1 && (forall|i: int|
            0 <= i < document.elements.len() ==> !refers_to_new_page(
                #[trigger] document.elements[i],
                context.url,
                site,
            )) ==> scan_document(site, context, document).site.pages.len() == 1,
{
    lemma_depth_bound(site, context, document);
    if site.pages.len() == 1 && (forall|i: int|
        0 <= i < document.elements.len() ==> !refers_to_new_page(
            #[trigger] document.elements[i],
            context.url,
            site,
        )) {
        let page = page_after_document(site.pages[context.node as int], context, document.title);
        let start = Scan {
            site: site.with_page(context.node, page),
            found_problem: false,
            children: Seq::empty(),
        };
        assert forall|i: int| 0 <= i < document.elements.len() implies !refers_to_new_page(
            #[trigger] document.elements[i],
            context.url,
            start.site,
        ) by {
            assert(!refers_to_new_page(document.elements[i], context.url, site));
        }
        lemma_elements_without_new_pages(start, context, document.elements);
    }
}

/// A consistent site has as many registered URLs as it has pages: the
/// number of pages is the number of URLs discovered.
pub proof fn lemma_registry_counts_pages(site: Site)
    requires
        site.consistent(),
    ensures
        site.index.dom().finite(),
        site.index.dom().len() == site.pages.len(),
{
    let urls = Seq::new(site.pages.len(), |i: int| site.pages[i].url);
    assert forall|i: int, j: int| 0 <= i < urls.len() && 0 <= j < urls.len() && i != j implies urls[i]
        != urls[j] by {
        crate::algo::lemma_pages_differ(site, i, j);
    }
    urls.unique_seq_to_set();
    vstd::seq_lib::seq_to_set_is_finite(urls);
    assert forall|url: Seq<char>| urls.to_set().contains(url) == site.index.dom().contains(url) by {
        if urls.to_set().contains(url) {
            let i = choose|i: int| 0 <= i < urls.len() && urls[i] == url;
            assert(site.index.contains_key(site.pages[i].url));
        }
        if site.index.contains_key(url) {
            let i = site.index[url] as int;
            assert(urls[i] == url);
        }
    }
    assert(urls.to_set() =~= site.index.dom());
}

/// In a schedule that is in order on a consistent site, no URL was handed
/// out twice: each page is fetched at most once, however many pages refer to it.
pub proof fn lemma_no_url_handed_out_twice(
    site: Site,
    handed_out: Seq<usize>,
    waiting: Seq<VisitView>,
    k: int,
    l: int,
)
    requires
        site.consistent(),
        schedule_sound(site.pages, handed_out, waiting),
        0 <= k < l < handed_out.len(),
    ensures
        site.pages[handed_out[k] as int].url != site.pages[handed_out[l] as int].url,
{
    crate::algo::lemma_pages_differ(site, handed_out[k] as int, handed_out[l] as int);
}

/// Whether a schedule is in order: every page that waits is one of `pages`,
/// under its own URL; the pages handed out are among `pages`; and no page
/// waits twice, was handed out twice, or waits after it was handed out.
pub open spec fn schedule_sound(
    pages: Seq<PageView>,
    handed_out: Seq<usize>,
    waiting: Seq<VisitView>,
) -> bool {
    &&& forall|k: int|
        0 <= k < waiting.len() ==> (#[trigger] waiting[k]).node < pages.len()
            && pages[waiting[k].node as int].url == waiting[k].url
    &&& forall|k: int| 0 <= k < handed_out.len() ==> #[trigger] handed_out[k] < pages.len()
    &&& forall|k: int, l: int|
        0 <= k < l < waiting.len() ==> (#[trigger] waiting[k]).node != (#[trigger] waiting[l]).node
    &&& forall|k: int, l: int|
        0 <= k < l < handed_out.len() ==> #[trigger] handed_out[k] != #[trigger] handed_out[l]
    &&& forall|k: int, l: int|
        0 <= k < handed_out.len() && 0 <= l < waiting.len() ==> #[trigger] handed_out[k] != (
        #[trigger] waiting[l]).node
}

/// Handing out the page that has waited longest keeps a schedule in order,
/// and that page was never handed out before.
pub proof fn lemma_hand_out(pages: Seq<PageView>, handed_out: Seq<usize>, waiting: Seq<VisitView>)
    requires
        schedule_sound(pages, handed_out, waiting),
        waiting.len() > 0,
    ensures
        schedule_sound(pages, handed_out.push(waiting.first().node), waiting.drop_first()),
        !handed_out.contains(waiting.first().node),
        waiting.first().node < pages.len(),
        pages[waiting.first().node as int].url == waiting.first().url,
{
    let next = handed_out.push(waiting[0].node);
    let rest = waiting.drop_first();
    assert forall|k: int| 0 <= k < rest.len() implies (#[trigger] rest[k]).node < pages.len()
        && pages[rest[k].node as int].url == rest[k].url by {
        assert(rest[k] == waiting[k + 1]);
    }
    assert forall|k: int| 0 <= k < next.len() implies #[trigger] next[k] < pages.len() by {
        if k < handed_out.len() {
            assert(next[k] == handed_out[k]);
        } else {
            assert(next[k] == waiting[0].node);
        }
    }
    assert forall|k: int, l: int| 0 <= k < l < rest.len() implies (#[trigger] rest[k]).node != (
    #[trigger] rest[l]).node by {
        assert(rest[k] == waiting[k + 1]);
        assert(rest[l] == waiting[l + 1]);
    }
    assert forall|k: int, l: int| 0 <= k < l < next.len() implies #[trigger] next[k]
        != #[trigger] next[l] by {
        assert(next[k] == handed_out[k]);
        if l < handed_out.len() {
            assert(next[l] == handed_out[l]);
        } else {
            assert(handed_out[k] != waiting[0].node);
        }
    }
    assert forall|k: int, l: int| 0 <= k < next.len() && 0 <= l < rest.len() implies #[trigger]
        next[k] != (#[trigger] rest[l]).node by {
        assert(rest[l] == waiting[l + 1]);
        if k < handed_out.len() {
            assert(next[k] == handed_out[k]);
        } else {
            assert(waiting[0].node != waiting[l + 1].node);
        }
    }
    if handed_out.contains(waiting[0].node) {
        let k = choose|k: int| 0 <= k < handed_out.len() && handed_out[k] == waiting[0].node;
        assert(handed_out[k] != waiting[0].node);
    }
}

/// A schedule stays in order when pages are added, as long as the pages that
/// were there keep their URLs.
pub proof fn lemma_schedule_survives(
    pages: Seq<PageView>,
    later: Seq<PageView>,
    handed_out: Seq<usize>,
    waiting: Seq<VisitView>,
)
    requires
        schedule_sound(pages, handed_out, waiting),
        pages.len() <= later.len(),
        forall|j: int| 0 <= j < pages.len() ==> (#[trigger] later[j]).url == pages[j].url,
    ensures
        schedule_sound(later, handed_out, waiting),
{
    assert forall|k: int| 0 <= k < waiting.len() implies (#[trigger] waiting[k]).node < later.len()
        && later[waiting[k].node as int].url == waiting[k].url by {
        assert(later[waiting[k].node as int].url == pages[waiting[k].node as int].url);
    }
}

/// A schedule stays in order when pages that were created since, each listed
/// once and under its own URL, are made to wait as well.
pub proof fn lemma_schedule_takes_new_pages(
    pages: Seq<PageView>,
    later: Seq<PageView>,
    handed_out: Seq<usize>,
    waiting: Seq<VisitView>,
    children: Seq<VisitView>,
)
    requires
        schedule_sound(pages, handed_out, waiting),
        pages.len() <= later.len(),
        forall|j: int| 0 <= j < pages.len() ==> (#[trigger] later[j]).url == pages[j].url,
        forall|k: int|
            0 <= k < children.len() ==> pages.len() <= (#[trigger] children[k]).node < later.len()
                && later[children[k].node as int].url == children[k].url,
        forall|k: int, l: int|
            0 <= k < l < children.len() ==> (#[trigger] children[k]).node < (
            #[trigger] children[l]).node,
    ensures
        schedule_sound(later, handed_out, waiting + children),
{
    lemma_schedule_survives(pages, later, handed_out, waiting);
    let all = waiting + children;
    let n = waiting.len() as int;
    assert forall|k: int| 0 <= k < all.len() implies (#[trigger] all[k]).node < later.len()
        && later[all[k].node as int].url == all[k].url by {
        if k < n {
            assert(all[k] == waiting[k]);
        } else {
            assert(all[k] == children[k - n]);
        }
    }
    assert forall|k: int, l: int| 0 <= k < l < all.len() implies (#[trigger] all[k]).node != (
    #[trigger] all[l]).node by {
        if l < n {
            assert(all[k] == waiting[k]);
            assert(all[l] == waiting[l]);
        } else if k < n {
            assert(all[k] == waiting[k]);
            assert(all[l] == children[l - n]);
            assert(waiting[k].node < pages.len());
        } else {
            assert(all[k] == children[k - n]);
            assert(all[l] == children[l - n]);
        }
    }
    assert forall|k: int, l: int| 0 <= k < handed_out.len() && 0 <= l < all.len() implies #[trigger]
        handed_out[k] != (#[trigger] all[l]).node by {
        if l < n {
            assert(all[l] == waiting[l]);
        } else {
            assert(all[l] == children[l - n]);
            assert(handed_out[k] < pages.len());
        }
    }
}

/// Whatever a reference resolves to is a URL from which the fragment was
/// dropped: pages are entered in the graph without a fragment.
pub proof fn lemma_resolved_without_fragment(base: Seq<char>, raw: Seq<char>)
    requires
        resolved(base, raw).is_some(),
    ensures
        exists|url: Seq<char>| #[trigger] url_without_fragment(url) == resolved(base, raw),
{
    match crate::urls::url_parse_result(raw) {
        Ok(url) => {
            assert(url_without_fragment(url) == resolved(base, raw));
        },
        Err(_) => {
            let url = crate::urls::url_join_result(base, raw).unwrap();
            assert(url_without_fragment(url) == resolved(base, raw));
        },
    }
}

} // verus!
