//! The page graph in the DOT language of Graphviz.
use vstd::prelude::*;
use vstd::string::*;
use crate::graph::{graph_links, graph_pages, LinkView, PageGraph};
use crate::text::{concat, str_trim, trimmed};
use crate::{Page, PageView};

verus! {

/// The label of a page: its title without the whitespace around it, or a
/// note that it has none or was not fetched.
pub open spec fn page_label(page: PageView) -> Seq<char> {
    if !page.visited {
        "???"@
    } else {
        match page.title {
            Some(title) => trimmed(title),
            None => "NO TITLE"@,
        }
    }
}

/// The colour of a page: black before it was fetched, then green where it is
/// good, red where it is bad, and orange where that is not known.
pub open spec fn page_color(page: PageView) -> Seq<char> {
    if !page.visited {
        "black"@
    } else {
        match page.good {
            Some(true) => "green"@,
            Some(false) => "red"@,
            None => "orange"@,
        }
    }
}

/// The attributes of the node of a page: its label over its URL, and its colour.
pub open spec fn page_dot_attributes(page: PageView) -> Seq<char> {
    "label=\""@ + page_label(page) + "\n"@ + page.url + "\", color="@ + page_color(page)
}

/// The attributes of the edge of a link: none.
pub fn get_link_dot_attributes() -> (attributes: String)
    ensures
        attributes@ == Seq::<char>::empty(),
{
    String::new()
}

/// The attributes of the node of a page: its label over its URL, and its colour.
pub fn get_page_dot_attributes(page: &Page) -> (attributes: String)
    ensures
        attributes@ == page_dot_attributes(page@),
{
    let title: &str = if !page.visited {
        "???"
    } else {
        match &page.title {
            Some(title) => str_trim(title.as_str()),
            None => "NO TITLE",
        }
    };
    let color = if !page.visited {
        "black"
    } else {
        match page.good {
            Some(true) => "green",
            Some(false) => "red",
            None => "orange",
        }
    };
    let mut attributes = concat("label=\"", title);
    attributes.append("\n");
    attributes.append(page.url.as_str());
    attributes.append("\", color=");
    attributes.append(color);
    attributes
}

/// What `petgraph::dot::Dot` writes for a graph with these pages and links,
/// with the attributes above and without labels of its own.
pub uninterp spec fn dot_rendering(pages: Seq<PageView>, links: Seq<LinkView>) -> Seq<char>;

/// Formats the graph with `petgraph::dot::Dot::with_attr_getters`, which is
/// handed the two functions above and told to write no labels of its own.
/// What is written depends on the pages and links alone; the contract names
/// it and claims nothing more.
#[verifier::external_body]
pub(crate) fn graph_dot(graph: &PageGraph) -> (text: String)
    ensures
        text@ == dot_rendering(graph_pages(*graph), graph_links(*graph)),
{
    format!(
        "{:?}",
        petgraph::dot::Dot::with_attr_getters(
            graph,
            &[petgraph::dot::Config::EdgeNoLabel, petgraph::dot::Config::NodeNoLabel],
            &|_, _| get_link_dot_attributes(),
            &|_, (_, page)| get_page_dot_attributes(page),
        )
    )
}

} // verus!
