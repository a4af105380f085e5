//! Resolving references and matching hosts.
use vstd::prelude::*;
use crate::error::{SpiderError, SpiderErrorType, SpiderErrorView};
use crate::html::{
    lemma_attribute_names_differ, reference_attribute, reference_attribute_of, Element,
    ElementView,
};
use crate::text::str_eq;
use crate::urls::{resolved, url_host, Host, HostView, Url, UrlParseFailure};

verus! {

/// The value of the attribute in which `element` holds its reference, if it
/// has that attribute. The tag of the element must be one that the scan knows.
pub open spec fn reference_value(element: ElementView) -> Option<Seq<char>> {
    if reference_attribute_of(element.name).unwrap().0 == "href"@ {
        element.href
    } else {
        element.src
    }
}

/// What an element on the page `current_url` refers to.
///
/// An element without its attribute is an anomaly where the attribute is
/// required, and refers to nothing where it is not. An empty attribute is an
/// anomaly, and so is a value that cannot be resolved to a URL. Any other
/// value gives the canonical URL it resolves to.
pub open spec fn element_target(element: ElementView, current_url: Seq<char>) -> Result<
    Option<Seq<char>>,
    SpiderErrorView,
> {
    let (attribute_name, required) = reference_attribute_of(element.name).unwrap();
    match reference_value(element) {
        None => if required {
            Err(
                SpiderErrorView {
                    error_type: SpiderErrorType::MissingAttribute,
                    attribute: Some(attribute_name),
                    source_page: Some(current_url),
                    html: Some(element.html),
                    ..SpiderErrorView::empty()
                },
            )
        } else {
            Ok(None)
        },
        Some(value) => if value.len() == 0 {
            Err(
                SpiderErrorView {
                    error_type: SpiderErrorType::EmptyAttribute,
                    attribute: Some(attribute_name),
                    source_page: Some(current_url),
                    html: Some(element.html),
                    ..SpiderErrorView::empty()
                },
            )
        } else {
            match resolved(current_url, value) {
                Some(url) => Ok(Some(url)),
                None => Err(
                    SpiderErrorView {
                        error_type: SpiderErrorType::InvalidURL,
                        source_page: Some(current_url),
                        target_page: Some(value),
                        html: Some(element.html),
                        ..SpiderErrorView::empty()
                    },
                ),
            }
        },
    }
}

/// Finds what `element`, found on the page `current_url`, refers to: the
/// canonical URL of its target, nothing (an element that need not refer to
/// anything and does not), or the anomaly that the element is.
///
/// The tag of the element must be one that the scan knows.
pub fn get_url_from_element(element: &Element, current_url: &Url) -> (r: Result<
    Option<Url>,
    SpiderError,
>)
    requires
        reference_attribute_of(element@.name).is_some(),
    ensures
        match r {
            Ok(target) => element_target(element@, current_url@) == Ok::<
                Option<Seq<char>>,
                SpiderErrorView,
            >(target.deep_view()),
            Err(anomaly) => element_target(element@, current_url@) == Err::<
                Option<Seq<char>>,
                SpiderErrorView,
            >(anomaly@),
        },
{
    let (attribute_name, required) = match reference_attribute(element.name.as_str()) {
        Some(found) => found,
        None => ("", false),
    };
    proof {
        lemma_attribute_names_differ();
    }
    let attribute = if str_eq(attribute_name, "href") {
        &element.href
    } else {
        &element.src
    };
    let next_url_str = match attribute {
        Some(value) => value,
        None => {
            if required {
                return Err(
                    SpiderError {
                        error_type: SpiderErrorType::MissingAttribute,
                        attribute: Some(attribute_name.to_owned()),
                        source_page: Some(current_url.to_string()),
                        html: Some(element.html.clone()),
                        ..Default::default()
                    },
                );
            }
            return Ok(None);
        },
    };
    if next_url_str.as_str().is_empty() {
        return Err(
            SpiderError {
                error_type: SpiderErrorType::EmptyAttribute,
                attribute: Some(attribute_name.to_owned()),
                source_page: Some(current_url.to_string()),
                html: Some(element.html.clone()),
                ..Default::default()
            },
        );
    }
    match parse_relative_or_absolute_url(current_url, next_url_str.as_str()) {
        Some(url) => Ok(Some(url)),
        None => Err(
            SpiderError {
                error_type: SpiderErrorType::InvalidURL,
                source_page: Some(current_url.to_string()),
                target_page: Some(next_url_str.clone()),
                html: Some(element.html.clone()),
                ..Default::default()
            },
        ),
    }
}

/// The hosts of a list, as mathematical values.
pub open spec fn host_views(hosts: Seq<Host>) -> Seq<HostView> {
    Seq::new(hosts.len(), |i: int| hosts[i]@)
}

/// Whether `url` has a host and that host is one of `hosts`.
pub open spec fn host_allowed(hosts: Seq<HostView>, url: Seq<char>) -> bool {
    match url_host(url) {
        Some(host) => hosts.contains(host),
        None => false,
    }
}

/// Whether the host of `url` is one of `hosts`. A URL without a host is never
/// allowed.
pub fn check_host(hosts: &[Host], url: &Url) -> (allowed: bool)
    ensures
        allowed == host_allowed(host_views(hosts@), url@),
{
    let wanted = match url.host() {
        Some(host) => host,
        None => {
            return false;
        },
    };
    let ghost views = host_views(hosts@);
    let mut i: usize = 0;
    while i < hosts.len()
        invariant
            i <= hosts.len(),
            views == host_views(hosts@),
            url_host(url@) == Some(wanted@),
            forall|j: int| 0 <= j < i ==> views[j] != wanted@,
        decreases hosts.len() - i,
    {
        if hosts[i].same(&wanted) {
            assert(views[i as int] == wanted@);
            assert(views.contains(wanted@));
            return true;
        }
        i += 1;
    }
    assert(!views.contains(wanted@));
    false
}

/// Parses `url_str`, which may be absolute or relative to `current_url`, and
/// drops the fragment of the result. `None` where no URL can be read from it.
pub fn parse_relative_or_absolute_url(current_url: &Url, url_str: &str) -> (r: Option<Url>)
    ensures
        r.deep_view() == resolved(current_url@, url_str@),
{
    let parsed = match Url::parse(url_str) {
        Ok(url) => url,
        Err(UrlParseFailure::RelativeUrlWithoutBase) => match current_url.join(url_str) {
            Some(url) => url,
            None => {
                return None;
            },
        },
        Err(UrlParseFailure::Other) => {
            return None;
        },
    };
    parsed.without_fragment()
}

} // verus!
