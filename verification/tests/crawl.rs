use std::collections::HashMap;

use spider_crab::algo::{Fetched, PageStatus, ScanFailure};
use spider_crab::error::{SpiderError, SpiderErrorType};
use spider_crab::urls::Url;
use spider_crab::{SpiderCrab, SpiderOptions};

const SERVER: &str = "http://127.0.0.1:1234";

/// What a site answers for one path.
#[derive(Debug, Clone)]
struct TestPage {
    url: &'static str,
    status_code: u16,
    content: Option<&'static str>,
    content_type: Option<&'static str>,
    title: Option<&'static str>,
    expect_visited: bool,
}

fn page(url: &'static str) -> TestPage {
    TestPage {
        url,
        status_code: 200,
        content: None,
        content_type: Some("text/html"),
        title: None,
        expect_visited: true,
    }
}

/// A site held in memory, which counts the requests it gets. A path that
/// the site does not know is answered with status 501 and no header.
struct TestServer {
    pages: Vec<TestPage>,
    requests: HashMap<String, usize>,
    body_fails: Vec<&'static str>,
    unreachable: Vec<&'static str>,
    spider_crab: SpiderCrab,
}

impl TestServer {
    fn new(spider_crab: SpiderCrab) -> Self {
        TestServer {
            pages: Vec::new(),
            requests: HashMap::new(),
            body_fails: Vec::new(),
            unreachable: Vec::new(),
            spider_crab,
        }
    }

    fn default() -> Self {
        let mut server = TestServer::new(SpiderCrab::default());
        assert!(server.spider_crab.options.add_host(SERVER));
        server
    }

    fn add_page(&mut self, page: TestPage) -> &mut Self {
        self.pages.push(page);
        self
    }

    fn absolute(path: &str) -> String {
        if path.contains("://") {
            Url::parse(path).unwrap().to_string()
        } else {
            Url::parse(&format!("{}{}", SERVER, path)).unwrap().to_string()
        }
    }

    fn fetch(&mut self, url: &str) -> Fetched {
        *self.requests.entry(url.to_string()).or_insert(0) += 1;
        if self.unreachable.iter().any(|p| Self::absolute(p) == url) {
            return Fetched::Failed { failure_status: None };
        }
        match self.pages.iter().find(|p| Self::absolute(p.url) == url) {
            Some(page) => Fetched::Response {
                status: page.status_code,
                content_type: page.content_type.map(String::from),
            },
            None if url.starts_with(SERVER) => {
                Fetched::Response { status: 501, content_type: None }
            }
            None => Fetched::Failed { failure_status: None },
        }
    }

    fn body(&self, url: &str) -> Option<&'static str> {
        if self.body_fails.iter().any(|p| Self::absolute(p) == url) {
            return None;
        }
        let page = self.pages.iter().find(|p| Self::absolute(p.url) == url).unwrap();
        Some(page.content.unwrap_or(""))
    }

    /// Drives the crawl to its end, as a driver with a real transport would.
    fn crawl(&mut self, url: &str) -> bool {
        assert!(self.spider_crab.visit_website(url));
        while let Some(visit) = self.spider_crab.next_visit() {
            assert!(visit.node < self.spider_crab.page_count());
            let fetched = self.fetch(visit.url.as_str());
            match self.spider_crab.visit_page(&visit, fetched) {
                PageStatus::Finished { .. } => {}
                PageStatus::NeedsBody => {
                    let body = self.body(visit.url.as_str());
                    self.spider_crab.scan_page(&visit, body).unwrap();
                }
            }
        }
        assert_eq!(self.spider_crab.pending_count(), 0);
        self.spider_crab.result()
    }

    fn run_test(&mut self) -> bool {
        let result = self.crawl(SERVER);
        for p in self.pages.clone() {
            self.assert_page(&p);
        }
        // No URL is ever requested twice.
        for (url, count) in &self.requests {
            assert_eq!(*count, 1, "{} was requested {} times", url, count);
        }
        result
    }

    fn assert_page(&self, expected: &TestPage) {
        let url = Url::parse(&Self::absolute(expected.url)).unwrap();
        let requests = self.requests.get(url.as_str()).copied().unwrap_or(0);
        if !expected.expect_visited {
            assert_eq!(requests, 0, "{:?} was requested", expected);
            return;
        }
        assert_eq!(requests, 1, "{:?}", expected);
        assert!(self.spider_crab.contains_page(&url), "Page is not in the page graph!\n{:?}", expected);
        assert!(self.spider_crab.map.contains_key(&url), "Page is not in the page map!\n{:?}", expected);
        let page = self.spider_crab.get_page(&url);
        assert!(page.visited, "Page was not marked as visited in the page graph!\n{:?}", expected);
        assert!(page.status_code.is_some(), "HTTP Status code was not recorded!\n{:?}", expected);
        assert_eq!(page.status_code.unwrap(), expected.status_code);
        if expected.content_type.is_some() && expected.status_code < 300 {
            assert!(page.content_type.is_some(), "Content-Type was not recorded!\n{:?}", expected);
            assert_eq!(page.content_type.as_ref().unwrap().as_str(), expected.content_type.unwrap());
        }
        if expected.status_code < 300 {
            if expected.title.is_some() {
                assert!(page.title.is_some(), "Expected title to be recorded but it was not! \n{:?}", expected);
                assert_eq!(page.title.as_ref().unwrap().as_str(), expected.title.unwrap());
            } else if expected.content_type == Some("text/html") {
                assert!(
                    page.errors.iter().any(|e: &SpiderError| e.error_type == SpiderErrorType::MissingTitle),
                    "Page is HTML and has no title, but no missing title was recorded! {:?}",
                    expected
                );
            }
        }
        if expected.status_code > 299 {
            assert!(!page.errors.is_empty(), "No error recorded for page with non-2XX HTTP status code!");
            assert!(page.errors.iter().any(|e: &SpiderError| e.error_type == SpiderErrorType::HTTPError));
        }
    }

    fn assert_page_count(&self, expected_pages: usize) {
        assert_eq!(self.spider_crab.page_count(), expected_pages);
        // The registry holds one URL for each page.
        assert_eq!(self.spider_crab.map.len(), expected_pages);
    }

    fn assert_link_count(&self, expected_links: usize) {
        assert_eq!(self.spider_crab.link_count(), expected_links);
    }

    fn assert_contains_single_error_of_type(&self, error_type: SpiderErrorType) {
        let errors = self.spider_crab.errors();
        if errors.len() > 1 {
            panic!("Expected 1 error of type {:?} but found these errors instead:\n{:?}", error_type, errors);
        }
        if errors.is_empty() {
            panic!("Expected 1 error of type {:?} but found none!", error_type);
        }
        assert!(errors.iter().all(|e| e.error_type == error_type));
    }

    fn assert_contains_multiple_errors_of_type(&self, number_of_errors: u32, error_type: SpiderErrorType) {
        assert_eq!(
            self.spider_crab.errors().iter().filter(|e| e.error_type == error_type).count() as u32,
            number_of_errors
        );
    }
}

const PAGE_1: &str = "<!DOCTYPE html><html><head><title>Page 1</title></head><body><a href=\"/\">Page 1</a><a href=\"/page2.html\">Page 2</a></body></html>";
const PAGE_2: &str = "<!DOCTYPE html><html><head><title>Page 2</title></head><body><a href=\"/\">Page 1</a><a href=\"page2.html#top\">Page 2</a></body></html>";

#[test]
fn test_missing_href_hyperlink() {
    let mut test_server = TestServer::default();
    test_server.add_page(TestPage {
        content: Some("<!DOCTYPE html><html><title>Test Page</title><body><a>This link doesn't have an href attribute!</a></body></html>"),
        title: Some("Test Page"),
        ..page("/")
    });
    assert!(!test_server.run_test());
    test_server.assert_page_count(1);
    test_server.assert_link_count(0);
    test_server.assert_contains_single_error_of_type(SpiderErrorType::MissingAttribute);
    let errors = test_server.spider_crab.errors();
    assert_eq!(errors[0].attribute.as_deref(), Some("href"));
    assert_eq!(errors[0].source_page.as_deref(), Some("http://127.0.0.1:1234/"));
    assert_eq!(
        errors[0].html.as_deref(),
        Some("<a>This link doesn't have an href attribute!</a>")
    );
    assert!(errors[0].target_page.is_none());
}

#[test]
fn test_missing_href_link() {
    let mut test_server = TestServer::default();
    test_server.add_page(TestPage {
        content: Some("<!DOCTYPE html><html><head><title>Test Page</title><link /></head><body></body></html>"),
        title: Some("Test Page"),
        ..page("/")
    });
    assert!(!test_server.run_test());
    test_server.assert_page_count(1);
    test_server.assert_link_count(0);
    test_server.assert_contains_single_error_of_type(SpiderErrorType::MissingAttribute);
}

#[test]
fn test_missing_src_img() {
    let mut test_server = TestServer::default();
    test_server.add_page(TestPage {
        content: Some("<!DOCTYPE html><html><title>Test Page</title><body><img height=\"300\" width=\"200\">This img doesn't have a src attribute!</a></body></html>"),
        title: Some("Test Page"),
        ..page("/")
    });
    assert!(!test_server.run_test());
    test_server.assert_page_count(1);
    test_server.assert_link_count(0);
    test_server.assert_contains_single_error_of_type(SpiderErrorType::MissingAttribute);
    assert_eq!(test_server.spider_crab.errors()[0].attribute.as_deref(), Some("src"));
}

#[test]
fn test_empty_script() {
    let mut test_server = TestServer::default();
    test_server.add_page(TestPage {
        content: Some("<!DOCTYPE html><html><title>Test Page</title><body><script></script></body></html>"),
        title: Some("Test Page"),
        ..page("/")
    });
    assert!(!test_server.run_test());
    test_server.assert_page_count(1);
    test_server.assert_link_count(0);
    test_server.assert_contains_single_error_of_type(SpiderErrorType::EmptyScript);
}

#[test]
fn test_empty_href_hyperlink() {
    let mut test_server = TestServer::default();
    test_server.add_page(TestPage {
        content: Some("<!DOCTYPE html><html><title>Test Page</title><body><a href=\"\">This link's href attribute is empty!</a></body></html>"),
        title: Some("Test Page"),
        ..page("/")
    });
    assert!(!test_server.run_test());
    test_server.assert_page_count(1);
    test_server.assert_link_count(0);
    test_server.assert_contains_single_error_of_type(SpiderErrorType::EmptyAttribute);
}

#[test]
fn negative_tests_test_empty_href_in_second_page() {
    let mut test_server = TestServer::default();
    test_server
        .add_page(TestPage {
            content: Some("<!DOCTYPE html><html><title>Test Page</title><body><a href=\"pageB.html\">This is a link to page B.</a></body></html>"),
            title: Some("Test Page"),
            ..page("/")
        })
        .add_page(TestPage {
            content: Some("<!DOCTYPE html><html><body><title>Test Page 2</title><a href=\"\">This link has an empty href attribute!</a></body></html>"),
            title: Some("Test Page 2"),
            ..page("/pageB.html")
        });
    assert!(!test_server.run_test());
    test_server.assert_page_count(2);
    test_server.assert_link_count(1);
    test_server.assert_contains_single_error_of_type(SpiderErrorType::EmptyAttribute);
}

#[test]
fn negative_tests_test_empty_content_type() {
    let mut test_server = TestServer::default();
    test_server
        .add_page(TestPage {
            content: Some("<!DOCTYPE html><html><head><title>Test Page</title></head><body><a href=\"pageB.html\" >This points to a missing page!</a></body></html>"),
            title: Some("Test Page"),
            ..page("/")
        })
        .add_page(TestPage {
            status_code: 200,
            content: Some("alert(\"Hello world!\");"),
            content_type: None,
            ..page("/pageB.html")
        });
    // Note that in this case, we expect the traversal to succeed
    assert!(test_server.run_test());
    test_server.assert_page_count(2);
    test_server.assert_link_count(1);
    // The page without a content type is recorded as such, and is not
    // looked at for a title.
    let page_b = test_server
        .spider_crab
        .get_page_by_str("http://127.0.0.1:1234/pageB.html")
        .unwrap();
    assert!(page_b.content_type.is_none());
    assert!(page_b.title.is_none());
    assert!(page_b.errors.is_empty());
    assert_eq!(page_b.good, Some(true));
    assert_eq!(test_server.spider_crab.errors().len(), 0);
}

#[test]
fn test_missing_image() {
    let mut test_server = TestServer::default();
    test_server
        .add_page(TestPage {
            content: Some("<!DOCTYPE html><html><head><title>Test Page</title></head><body><a href=\"test_image.png\" >This points to a missing page!</a></body></html>"),
            title: Some("Test Page"),
            ..page("/")
        })
        .add_page(TestPage { status_code: 404, content_type: None, ..page("/test_image.png") });
    assert!(!test_server.run_test());
    test_server.assert_page_count(2);
    test_server.assert_link_count(1);
    test_server.assert_contains_single_error_of_type(SpiderErrorType::HTTPError);
}

#[test]
fn test_missing_script() {
    let mut test_server = TestServer::default();
    test_server
        .add_page(TestPage {
            content: Some("<!DOCTYPE html><html><head><title>Test Page</title></head><body><script src=\"test.js\" ></script></body></html>"),
            title: Some("Test Page"),
            ..page("/")
        })
        .add_page(TestPage { status_code: 404, content_type: None, ..page("/test.js") });
    assert!(!test_server.run_test());
    test_server.assert_page_count(2);
    test_server.assert_link_count(1);
    test_server.assert_contains_single_error_of_type(SpiderErrorType::HTTPError);
}

#[test]
fn test_missing_script_and_missing_img() {
    let mut test_server = TestServer::default();
    test_server
        .add_page(TestPage {
            content: Some("<!DOCTYPE html><html><head><title>Test Page</title></head><body><script src=\"test.js\" ></script><img src=\"test.png\" /></body></html>"),
            title: Some("Test Page"),
            ..page("/")
        })
        .add_page(TestPage { status_code: 404, content_type: None, ..page("/test.js") })
        .add_page(TestPage { status_code: 404, content_type: None, ..page("/test.png") });
    assert!(!test_server.run_test());
    test_server.assert_page_count(3);
    test_server.assert_link_count(2);
    test_server.assert_contains_multiple_errors_of_type(2, SpiderErrorType::HTTPError);
}

/// A server that answers as the pages of a test say, for a crawl that was
/// set up with the server's URL as its only host.
fn server_for(pages: Vec<TestPage>) -> TestServer {
    let mut server = TestServer::new(SpiderCrab::new(&[SERVER]).unwrap());
    for p in pages {
        server.add_page(p);
    }
    server
}

#[test]
fn tests_test_simple_page() {
    let parsed_url = Url::parse(SERVER).unwrap();
    let mut server = server_for(vec![
        TestPage {
            status_code: 201,
            content: Some("<!DOCTYPE html><html><body><a href=\"https://example.com\" >Example Link</a></body></html>"),
            ..page("/")
        },
        TestPage {
            content: Some("<!DOCTYPE html><html><head><title>Example Domain</title></head><body><a href=\"https://www.iana.org/domains/example\">More</a></body></html>"),
            ..page("https://example.com/")
        },
    ]);
    let success = server.crawl(SERVER);
    assert!(success);
    assert_eq!(server.requests["http://127.0.0.1:1234/"], 1);
    assert_eq!(server.spider_crab.page_count(), 2);
    assert_eq!(server.spider_crab.link_count(), 1);
    assert!(server.spider_crab.contains_page(&parsed_url));
    // The page of another host was fetched, and not looked into.
    assert_eq!(server.requests["https://example.com/"], 1);
    assert!(!server.spider_crab.contains_page_by_str("https://www.iana.org/domains/example"));
}

#[test]
fn tests_test_two_pages() {
    let parsed_url = Url::parse(SERVER).unwrap();
    let body = "<!DOCTYPE html><html><body><a href=\"page2.html\" >Example Link2</a><a href=\"/\" >Example Link1</a></body></html>";
    let mut server = server_for(vec![
        TestPage { status_code: 201, content: Some(body), ..page("/") },
        TestPage { status_code: 201, content: Some(body), ..page("/page2.html") },
    ]);
    let success = server.crawl(SERVER);
    assert!(success);
    assert_eq!(server.requests["http://127.0.0.1:1234/"], 1);
    assert_eq!(server.requests["http://127.0.0.1:1234/page2.html"], 1);
    assert_eq!(server.spider_crab.page_count(), 2);
    assert_eq!(server.spider_crab.link_count(), 4);
    assert!(server.spider_crab.contains_page(&parsed_url));
}

#[test]
fn tests_test_missing_page() {
    let parsed_url = Url::parse(SERVER).unwrap();
    let mut server = server_for(vec![
        TestPage {
            status_code: 201,
            content: Some("<!DOCTYPE html><html><body><a href=\"page2.html\" >This points to a missing page!</a></body></html>"),
            ..page("/")
        },
        TestPage { status_code: 404, content_type: None, ..page("/page2.html") },
    ]);
    let success = server.crawl(SERVER);
    assert_eq!(server.requests["http://127.0.0.1:1234/"], 1);
    assert_eq!(server.requests["http://127.0.0.1:1234/page2.html"], 1);
    assert!(!success);
    assert_eq!(server.spider_crab.page_count(), 2);
    assert_eq!(server.spider_crab.link_count(), 1);
    assert!(server.spider_crab.contains_page(&parsed_url));
    // Exactly one HTTP error is recorded, on the page that is missing.
    server.assert_contains_multiple_errors_of_type(1, SpiderErrorType::HTTPError);
    let missing = server.spider_crab.get_page_by_str("http://127.0.0.1:1234/page2.html").unwrap();
    assert_eq!(missing.status_code, Some(404));
    assert_eq!(missing.good, Some(false));
    assert!(missing.visited);
    assert_eq!(missing.errors.len(), 1);
    assert_eq!(missing.errors[0].http_error_code, Some(404));
    assert_eq!(missing.errors[0].target_page.as_deref(), Some("http://127.0.0.1:1234/page2.html"));
}

#[test]
fn test_missing_href() {
    let parsed_url = Url::parse(SERVER).unwrap();
    let mut server = server_for(vec![TestPage {
        status_code: 201,
        content: Some("<!DOCTYPE html><html><body><a>This link doesn't have an href attribute!</a></body></html>"),
        ..page("/")
    }]);
    let success = server.crawl(SERVER);
    assert_eq!(server.requests["http://127.0.0.1:1234/"], 1);
    assert!(!success);
    assert_eq!(server.spider_crab.page_count(), 1);
    assert_eq!(server.spider_crab.link_count(), 0);
    assert!(server.spider_crab.contains_page(&parsed_url));
    server.assert_contains_multiple_errors_of_type(1, SpiderErrorType::MissingAttribute);
}

#[test]
fn test_empty_href() {
    let parsed_url = Url::parse(SERVER).unwrap();
    let mut server = server_for(vec![TestPage {
        status_code: 201,
        content: Some("<!DOCTYPE html><html><body><a href=\"\">This link's href attribute is empty!</a></body></html>"),
        ..page("/")
    }]);
    let success = server.crawl(SERVER);
    assert_eq!(server.requests["http://127.0.0.1:1234/"], 1);
    assert!(!success);
    assert_eq!(server.spider_crab.page_count(), 1);
    assert_eq!(server.spider_crab.link_count(), 0);
    assert!(server.spider_crab.contains_page(&parsed_url));
}

#[test]
fn tests_test_empty_href_in_second_page() {
    let parsed_url = Url::parse(SERVER).unwrap();
    let mut server = server_for(vec![
        TestPage {
            status_code: 201,
            content: Some("<!DOCTYPE html><html><body><a href=\"pageB.html\">This is a link to page B.</a></body></html>"),
            ..page("/")
        },
        TestPage {
            status_code: 201,
            content: Some("<!DOCTYPE html><html><body><a href=\"\">This link has an empty href attribute!</a></body></html>"),
            ..page("/pageB.html")
        },
    ]);
    let success = server.crawl(SERVER);
    assert_eq!(server.requests["http://127.0.0.1:1234/"], 1);
    assert_eq!(server.requests["http://127.0.0.1:1234/pageB.html"], 1);
    assert!(!success);
    assert_eq!(server.spider_crab.page_count(), 2);
    assert_eq!(server.spider_crab.link_count(), 1);
    assert!(server.spider_crab.contains_page(&parsed_url));
    assert!(server.spider_crab.contains_page(&parsed_url.join("pageB.html").unwrap()));
}

#[test]
fn a_page_that_is_no_html_is_good_and_not_parsed() {
    let parsed_url = Url::parse(SERVER).unwrap();
    let mut server = server_for(vec![
        TestPage {
            status_code: 201,
            content: Some("<!DOCTYPE html><html><body><a href=\"pageB.html\">This is a link to page B.</a></body></html>"),
            ..page("/")
        },
        TestPage {
            status_code: 201,
            content: Some("alert(\"Hello world!\");"),
            content_type: Some("application/javascript"),
            ..page("/pageB.html")
        },
    ]);
    assert!(server.crawl(SERVER));
    assert_eq!(server.spider_crab.page_count(), 2);
    assert_eq!(server.spider_crab.link_count(), 1);
    assert_eq!(server.spider_crab.map.len(), 2);
    {
        let page_a = server.spider_crab.get_page(&parsed_url);
        assert_eq!(page_a.content_type.as_ref().unwrap(), "text/html");
        assert!(page_a.visited);
        assert_eq!(page_a.status_code.unwrap(), 201);
        // The root has no title, which is recorded and fails nothing.
        assert_eq!(page_a.errors.len(), 1);
        assert_eq!(page_a.errors[0].error_type, SpiderErrorType::MissingTitle);
        assert_eq!(page_a.good, Some(true));
    }
    {
        let page_b = server.spider_crab.get_page(&parsed_url.join("/pageB.html").unwrap());
        assert_eq!(page_b.content_type.as_ref().unwrap(), "application/javascript");
        assert!(page_b.visited);
        assert_eq!(page_b.status_code.unwrap(), 201);
        assert_eq!(page_b.errors.len(), 0);
        assert_eq!(page_b.good, Some(true));
    }
    assert!(!server.spider_crab.is_page_good(&parsed_url));
    assert!(server.spider_crab.is_page_good_by_str("http://127.0.0.1:1234/pageB.html"));
}

const PAGE_A: &str = "<!DOCTYPE html><html><head><title>Page A</title></head><body><a href=\"https://example.com\">Example Link</a></body></html>";

/// Single page, reference to example.com
#[test]
fn positive_tests_test_simple_page() {
    let mut test_server = TestServer::default();
    test_server
        .add_page(TestPage { content: Some(PAGE_A), title: Some("Page A"), ..page("/") })
        .add_page(TestPage {
            content: Some("<!DOCTYPE html><html><head><title>Example Domain</title></head><body><a href=\"/more\">More</a></body></html>"),
            ..page("https://example.com/")
        });
    assert!(test_server.crawl(SERVER));
    test_server.assert_page_count(2);
    test_server.assert_link_count(1);
    assert_eq!(test_server.requests["https://example.com/"], 1);
    let root = test_server.spider_crab.get_page_by_str(SERVER).unwrap();
    assert_eq!(root.title.as_deref(), Some("Page A"));
    assert!(root.visited);
    assert_eq!(root.status_code, Some(200));
}

#[test]
fn negative_tests_test_missing_page() {
    let mut test_server = TestServer::default();
    test_server.add_page(TestPage { content: Some(PAGE_1), title: Some("Page 1"), ..page("/") });
    assert!(!test_server.run_test());
    test_server.assert_page_count(2);
    test_server.assert_link_count(2);
    test_server.assert_contains_single_error_of_type(SpiderErrorType::HTTPError);
    let missing = test_server.spider_crab.get_page_by_str("http://127.0.0.1:1234/page2.html").unwrap();
    assert_eq!(missing.status_code, Some(501));
}

#[test]
fn positive_tests_test_two_pages() {
    let mut test_server = TestServer::default();
    test_server
        .add_page(TestPage { content: Some(PAGE_1), title: Some("Page 1"), ..page("/") })
        .add_page(TestPage { content: Some(PAGE_2), title: Some("Page 2"), ..page("/page2.html") });
    assert!(test_server.run_test());
    test_server.assert_page_count(2);
    test_server.assert_link_count(4);
    assert_eq!(test_server.spider_crab.errors().len(), 0);
    assert!(test_server.spider_crab.is_page_good_by_str("http://127.0.0.1:1234/"));
    assert!(test_server.spider_crab.is_page_good_by_str("http://127.0.0.1:1234/page2.html"));
}

#[test]
fn a_cycle_of_two_pages_ends() {
    let mut test_server = TestServer::default();
    test_server
        .add_page(TestPage {
            content: Some("<html><head><title>A</title></head><body><a href=\"/b\">b</a></body></html>"),
            title: Some("A"),
            ..page("/")
        })
        .add_page(TestPage {
            content: Some("<html><head><title>B</title></head><body><a href=\"/\">a</a></body></html>"),
            title: Some("B"),
            ..page("/b")
        });
    assert!(test_server.run_test());
    test_server.assert_page_count(2);
    test_server.assert_link_count(2);
}

#[test]
fn test_helper_functions() {
    let parsed_url = Url::parse(SERVER).unwrap();
    let mut server = server_for(vec![TestPage {
        status_code: 201,
        content: Some("<!DOCTYPE html><html><head><title>Page A</title></head><body><a href=\"/\">Page A</a></body></html>"),
        ..page("/")
    }]);
    let success = server.crawl(SERVER);
    assert!(success);
    assert_eq!(server.requests["http://127.0.0.1:1234/"], 1);
    let crab = &server.spider_crab;
    assert!(std::ptr::eq(crab.get_page(&parsed_url), crab.get_page_by_str(SERVER).unwrap()));
    assert!(std::ptr::eq(crab.get_page(&parsed_url), crab.find_page(&parsed_url).unwrap()));
    assert_eq!(crab.contains_page(&parsed_url), crab.contains_page_by_str(SERVER));
    assert_eq!(crab.is_page_good(&parsed_url), crab.is_page_good_by_str(SERVER));
    assert!(crab.is_page_good(&parsed_url));
    assert_eq!(crab.get_page(&parsed_url).title.as_deref(), Some("Page A"));
    // A text that is no URL, and a URL without a page, have no page.
    assert!(crab.get_page_by_str("nonsense").is_none());
    assert!(!crab.contains_page_by_str("nonsense"));
    assert!(!crab.is_page_good_by_str("nonsense"));
    assert!(crab.get_page_by_str("http://127.0.0.1:1234/other").is_none());
    assert!(crab.find_page(&Url::parse("http://127.0.0.1:1234/other").unwrap()).is_none());
    assert!(!crab.contains_page_by_str("http://127.0.0.1:1234/other"));
    assert!(!crab.is_page_good_by_str("http://127.0.0.1:1234/other"));
}

#[test]
fn test_skip_link_class() {
    let mut test_server = TestServer::default();
    test_server
        .add_page(TestPage {
            content: Some("<!DOCTYPE html><html><head><title>Page C</title></head><body><a class=\"scrab-skip\" href=\"/page2.html\">Page 2</a><a class=\"other scrab-skip\">nothing</a><script class=\"scrab-skip\"></script></body></html>"),
            title: Some("Page C"),
            ..page("/")
        })
        .add_page(TestPage {
            content: Some("alert(\"Hello world!\");"),
            expect_visited: false,
            ..page("/page2.html")
        });
    assert!(test_server.run_test());
    test_server.assert_page_count(1);
    test_server.assert_link_count(0);
    assert!(!test_server.spider_crab.contains_page_by_str("http://127.0.0.1:1234/page2.html"));
    assert_eq!(test_server.spider_crab.errors().len(), 0);
}

#[test]
fn the_skip_class_is_matched_with_its_case() {
    let mut test_server = TestServer::default();
    test_server.add_page(TestPage {
        content: Some("<html><head><title>T</title></head><body><a class=\"Scrab-Skip\">x</a></body></html>"),
        title: Some("T"),
        ..page("/")
    });
    assert!(!test_server.run_test());
    test_server.assert_contains_single_error_of_type(SpiderErrorType::MissingAttribute);
}

#[test]
fn with_depth_zero_only_the_root_is_fetched() {
    let mut test_server = TestServer::default();
    test_server.spider_crab.options.max_depth = 0;
    test_server
        .add_page(TestPage { content: Some(PAGE_1), title: Some("Page 1"), ..page("/") })
        .add_page(TestPage { content: Some(PAGE_2), expect_visited: false, ..page("/page2.html") });
    assert!(test_server.run_test());
    assert_eq!(test_server.requests.len(), 1);
    // The page that the root refers to is recorded, and never fetched.
    test_server.assert_page_count(2);
    test_server.assert_link_count(2);
    let other = test_server.spider_crab.get_page_by_str("http://127.0.0.1:1234/page2.html").unwrap();
    assert!(!other.visited);
    assert!(other.good.is_none());
    assert!(other.status_code.is_none());
}

#[test]
fn with_depth_zero_a_root_without_references_is_the_only_page() {
    let mut test_server = TestServer::default();
    test_server.spider_crab.options.max_depth = 0;
    test_server.add_page(TestPage {
        content: Some("<html><head><title>Alone</title></head><body><a href=\"#top\">top</a><a href=\"/\">home</a></body></html>"),
        title: Some("Alone"),
        ..page("/")
    });
    assert!(test_server.run_test());
    test_server.assert_page_count(1);
    test_server.assert_link_count(2);
    assert_eq!(test_server.requests.len(), 1);
}

#[test]
fn the_depth_limit_counts_links_from_the_root() {
    let chain = |next: &'static str| -> TestPage {
        TestPage { title: Some("T"), ..page(next) }
    };
    let mut test_server = TestServer::default();
    test_server.spider_crab.options.max_depth = 2;
    test_server
        .add_page(TestPage {
            content: Some("<html><head><title>T</title></head><body><a href=\"/1\">1</a></body></html>"),
            ..chain("/")
        })
        .add_page(TestPage {
            content: Some("<html><head><title>T</title></head><body><a href=\"/2\">2</a></body></html>"),
            ..chain("/1")
        })
        .add_page(TestPage {
            content: Some("<html><head><title>T</title></head><body><a href=\"/3\">3</a></body></html>"),
            ..chain("/2")
        })
        .add_page(TestPage {
            content: Some("<html><head><title>T</title></head><body><a href=\"/4\">4</a></body></html>"),
            expect_visited: false,
            ..chain("/3")
        });
    assert!(test_server.run_test());
    // Pages at depth 0, 1 and 2 are fetched; the page at depth 3 is recorded only.
    assert_eq!(test_server.requests.len(), 3);
    test_server.assert_page_count(4);
    test_server.assert_link_count(3);
    assert!(!test_server.spider_crab.contains_page_by_str("http://127.0.0.1:1234/4"));
}

#[test]
fn pages_are_fetched_in_the_order_of_their_distance_from_the_root() {
    let with_links = |links: &'static str| -> Option<&'static str> { Some(links) };
    let mut test_server = TestServer::default();
    test_server.spider_crab.options.max_depth = 2;
    test_server
        .add_page(TestPage {
            content: with_links("<title>T</title><a href=\"/b\">b</a><a href=\"/a\">a</a>"),
            title: Some("T"),
            ..page("/")
        })
        .add_page(TestPage {
            content: with_links("<title>T</title><a href=\"/c\">c</a>"),
            title: Some("T"),
            ..page("/b")
        })
        .add_page(TestPage {
            content: with_links("<title>T</title><a href=\"/d\">d</a>"),
            title: Some("T"),
            ..page("/c")
        })
        .add_page(TestPage {
            content: with_links("<title>T</title><a href=\"/d\">d</a>"),
            title: Some("T"),
            ..page("/a")
        })
        .add_page(TestPage {
            content: with_links("<title>T</title><a href=\"/e\">e</a>"),
            title: Some("T"),
            ..page("/d")
        });
    // The page /d is two links away from the root by way of /a, and three by
    // way of /b and /c. It is found by the shorter way, and so it is fetched.
    assert!(test_server.run_test());
    test_server.assert_page_count(6);
    assert_eq!(test_server.requests.len(), 5);
    assert!(!test_server.requests.contains_key("http://127.0.0.1:1234/e"));
    let e = test_server.spider_crab.get_page_by_str("http://127.0.0.1:1234/e").unwrap();
    assert!(!e.visited);
}

#[test]
fn references_that_differ_in_their_fragment_are_one_page() {
    let mut test_server = TestServer::default();
    test_server
        .add_page(TestPage {
            content: Some("<html><head><title>T</title></head><body><a href=\"/b#one\">1</a><a href=\"/b#two\">2</a><a href=\"b\">3</a><img src=\"/b\"></body></html>"),
            title: Some("T"),
            ..page("/")
        })
        .add_page(TestPage { content_type: Some("image/png"), ..page("/b") });
    assert!(test_server.run_test());
    test_server.assert_page_count(2);
    // Each reference is a link of its own.
    test_server.assert_link_count(4);
    assert_eq!(test_server.requests["http://127.0.0.1:1234/b"], 1);
}

#[test]
fn a_root_with_a_fragment_is_entered_without_it() {
    let mut server = server_for(vec![TestPage {
        content: Some("<html><head><title>T</title></head><body><a href=\"/\">home</a></body></html>"),
        ..page("/")
    }]);
    assert!(server.crawl("http://127.0.0.1:1234/#intro"));
    assert_eq!(server.spider_crab.page_count(), 1);
    assert_eq!(server.spider_crab.link_count(), 1);
    assert!(server.spider_crab.contains_page_by_str("http://127.0.0.1:1234/"));
    assert!(!server.spider_crab.contains_page_by_str("http://127.0.0.1:1234/#intro"));
}

#[test]
fn a_page_that_cannot_be_retrieved_fails_the_crawl() {
    let mut test_server = TestServer::default();
    test_server.unreachable.push("/gone");
    test_server.add_page(TestPage {
        content: Some("<html><head><title>T</title></head><body><a href=\"/gone\">x</a></body></html>"),
        title: Some("T"),
        ..page("/")
    });
    assert!(!test_server.run_test());
    test_server.assert_page_count(2);
    test_server.assert_link_count(1);
    test_server.assert_contains_single_error_of_type(SpiderErrorType::UnableToRetrieve);
    let gone = test_server.spider_crab.get_page_by_str("http://127.0.0.1:1234/gone").unwrap();
    assert!(gone.visited);
    assert_eq!(gone.good, Some(false));
    assert!(gone.status_code.is_none());
    assert_eq!(gone.errors[0].target_page.as_deref(), Some("http://127.0.0.1:1234/gone"));
}

#[test]
fn a_body_that_cannot_be_read_fails_the_crawl() {
    let mut test_server = TestServer::default();
    test_server.body_fails.push("/broken");
    test_server
        .add_page(TestPage {
            content: Some("<html><head><title>T</title></head><body><a href=\"/broken\">x</a></body></html>"),
            title: Some("T"),
            ..page("/")
        })
        .add_page(TestPage { content: Some("<a href=\"/never\">x</a>"), ..page("/broken") });
    let result = test_server.crawl(SERVER);
    assert!(!result);
    test_server.assert_page_count(2);
    test_server.assert_contains_single_error_of_type(SpiderErrorType::UnableToRetrieve);
    let broken = test_server.spider_crab.get_page_by_str("http://127.0.0.1:1234/broken").unwrap();
    assert_eq!(broken.good, Some(false));
    assert_eq!(broken.status_code, Some(200));
    assert_eq!(broken.content_type.as_deref(), Some("text/html"));
}

#[test]
fn an_invalid_reference_is_an_anomaly_and_the_scan_goes_on() {
    let mut test_server = TestServer::default();
    test_server
        .add_page(TestPage {
            content: Some("<html><head><title>T</title></head><body><a href=\"http://[\">bad</a><a href=\"/ok\">ok</a></body></html>"),
            title: Some("T"),
            ..page("/")
        })
        .add_page(TestPage { content_type: Some("text/plain"), ..page("/ok") });
    assert!(!test_server.run_test());
    test_server.assert_page_count(2);
    test_server.assert_link_count(1);
    test_server.assert_contains_single_error_of_type(SpiderErrorType::InvalidURL);
    let errors = test_server.spider_crab.errors();
    assert_eq!(errors[0].target_page.as_deref(), Some("http://["));
    assert_eq!(errors[0].source_page.as_deref(), Some("http://127.0.0.1:1234/"));
}

#[test]
fn a_script_with_code_inside_is_no_anomaly() {
    let mut test_server = TestServer::default();
    test_server.add_page(TestPage {
        content: Some("<html><head><title>T</title><script>let x = 1;</script></head><body><script>  \n </script></body></html>"),
        title: Some("T"),
        ..page("/")
    });
    assert!(!test_server.run_test());
    // Only the script that holds nothing but whitespace is recorded.
    test_server.assert_contains_single_error_of_type(SpiderErrorType::EmptyScript);
}

#[test]
fn anomalies_are_listed_page_by_page_in_the_order_found() {
    let mut test_server = TestServer::default();
    test_server
        .add_page(TestPage {
            content: Some("<html><body><a>1</a><a href=\"/b\">b</a><img src=\"\"><script></script></body></html>"),
            ..page("/")
        })
        .add_page(TestPage {
            content: Some("<html><head><title>B</title></head><body><link></body></html>"),
            title: Some("B"),
            ..page("/b")
        });
    assert!(!test_server.run_test());
    let kinds: Vec<SpiderErrorType> =
        test_server.spider_crab.errors().iter().map(|e| e.error_type).collect();
    assert_eq!(
        kinds,
        vec![
            SpiderErrorType::MissingTitle,
            SpiderErrorType::MissingAttribute,
            SpiderErrorType::EmptyAttribute,
            SpiderErrorType::EmptyScript,
            SpiderErrorType::MissingAttribute,
        ]
    );
    // Each call lists them anew.
    assert_eq!(test_server.spider_crab.errors().len(), 5);
}

#[test]
fn an_ignored_anomaly_is_not_recorded_and_fails_nothing() {
    let mut test_server = TestServer::default();
    assert_eq!(
        test_server.spider_crab.options.read_ignore_list(&vec![
            "# the page that is known to be missing".to_string(),
            "http-error http://127.0.0.1:1234/missing".to_string(),
            "missing-attribute http://127.0.0.1:1234/".to_string(),
            "missing-title http://127.0.0.1:1234/".to_string(),
        ]),
        Ok(3)
    );
    test_server.add_page(TestPage {
        content: Some("<html><body><a>1</a><a href=\"/missing\">m</a></body></html>"),
        title: None,
        ..page("/")
    });
    let result = test_server.crawl(SERVER);
    assert!(result);
    test_server.assert_page_count(2);
    assert_eq!(test_server.spider_crab.errors().len(), 0);
    let missing = test_server.spider_crab.get_page_by_str("http://127.0.0.1:1234/missing").unwrap();
    assert_eq!(missing.good, Some(false));
    assert_eq!(missing.status_code, Some(501));
}

#[test]
fn an_ignore_rule_is_for_one_url_only() {
    let mut test_server = TestServer::default();
    assert_eq!(
        test_server.spider_crab.options.read_ignore_list(&vec![
            "http-error http://127.0.0.1:1234/missing".to_string(),
        ]),
        Ok(1)
    );
    test_server.add_page(TestPage {
        content: Some("<html><head><title>T</title></head><body><a href=\"/missing\">m</a><a href=\"/missing2\">m</a></body></html>"),
        title: Some("T"),
        ..page("/")
    });
    assert!(!test_server.run_test());
    test_server.assert_contains_single_error_of_type(SpiderErrorType::HTTPError);
    assert_eq!(
        test_server.spider_crab.errors()[0].target_page.as_deref(),
        Some("http://127.0.0.1:1234/missing2")
    );
}

#[test]
fn a_crawl_cannot_begin_at_what_is_no_url_or_has_a_page() {
    let mut crab = SpiderCrab::default();
    assert!(!crab.visit_website("not a url"));
    assert!(!crab.visit_website("/relative"));
    assert_eq!(crab.page_count(), 0);
    assert_eq!(crab.pending_count(), 0);
    assert!(crab.next_visit().is_none());
    assert!(crab.visit_website("http://127.0.0.1:1234/"));
    assert_eq!(crab.page_count(), 1);
    assert_eq!(crab.pending_count(), 1);
    // The same page, given with a fragment, is not entered again.
    assert!(!crab.visit_website("http://127.0.0.1:1234/#again"));
    assert_eq!(crab.page_count(), 1);
    assert_eq!(crab.pending_count(), 1);
    let visit = crab.next_visit().unwrap();
    assert_eq!(visit.node, 0);
    assert_eq!(visit.depth, 0);
    assert_eq!(visit.url.as_str(), "http://127.0.0.1:1234/");
    assert!(crab.next_visit().is_none());
    assert!(crab.result());
    assert_eq!(crab.link_count(), 0);
    assert_eq!(crab.errors().len(), 0);
}

#[test]
fn new_takes_the_hosts_of_its_urls() {
    let crab = SpiderCrab::new(&["https://example.com/a/b", "http://10.1.2.3:8080"]).unwrap();
    assert_eq!(crab.options.hosts.len(), 2);
    assert_eq!(crab.options.max_depth, -1);
    assert_eq!(crab.options.element_selector, "a,link,img,script");
    assert_eq!(crab.options.title_selector, "title");
    assert_eq!(crab.options.skip_class, "scrab-skip");
    assert!(SpiderCrab::new(&["https://example.com", "nonsense"]).is_none());
    assert!(SpiderCrab::new(&["mailto:someone@example.com"]).is_none());
    assert!(SpiderOptions::new(&["data:text/plain,x"]).is_none());
    assert_eq!(SpiderOptions::new(&[]).unwrap().hosts.len(), 0);
    let mut options = SpiderOptions::default();
    assert!(!options.add_host("nonsense"));
    assert!(!options.add_host("mailto:x@example.com"));
    assert!(options.hosts.is_empty());
    assert!(options.add_host("https://example.com:444/x?y"));
    assert_eq!(options.hosts.len(), 1);
}

#[test]
fn a_selector_that_does_not_compile_fails_the_scan_and_changes_nothing() {
    let mut crab = SpiderCrab::new(&[SERVER]).unwrap();
    crab.options.element_selector = "a[".to_string();
    assert!(crab.visit_website(SERVER));
    let visit = crab.next_visit().unwrap();
    let status = crab.visit_page(
        &visit,
        Fetched::Response { status: 200, content_type: Some("text/html".to_string()) },
    );
    assert_eq!(status, PageStatus::NeedsBody);
    assert_eq!(
        crab.scan_page(&visit, Some("<a href=\"/x\">x</a>")),
        Err(ScanFailure::InvalidSelector)
    );
    assert_eq!(crab.page_count(), 1);
    assert_eq!(crab.link_count(), 0);
    assert_eq!(crab.pending_count(), 0);
    assert!(crab.result());
    crab.options.element_selector = "a".to_string();
    crab.options.title_selector = "".to_string();
    assert_eq!(crab.scan_page(&visit, Some("<a href=\"/x\">x</a>")), Err(ScanFailure::InvalidSelector));
    crab.options.title_selector = "h1".to_string();
    assert_eq!(
        crab.scan_page(&visit, Some("<h1> Head </h1><a href=\"/x\">x</a><link href=\"/y\">")),
        Ok(true)
    );
    assert_eq!(crab.page_count(), 2);
    assert_eq!(crab.get_page(&visit.url).title.as_deref(), Some(" Head "));
}

#[test]
fn an_element_with_an_unknown_tag_fails_the_scan_and_changes_nothing() {
    let mut crab = SpiderCrab::new(&[SERVER]).unwrap();
    crab.options.element_selector = "a,iframe".to_string();
    assert!(crab.visit_website(SERVER));
    let visit = crab.next_visit().unwrap();
    crab.visit_page(
        &visit,
        Fetched::Response { status: 200, content_type: Some("text/html".to_string()) },
    );
    assert_eq!(
        crab.scan_page(&visit, Some("<title>t</title><a href=\"/x\">x</a><iframe src=\"/f\"></iframe>")),
        Err(ScanFailure::UnsupportedElement)
    );
    assert_eq!(crab.page_count(), 1);
    assert_eq!(crab.link_count(), 0);
    assert!(crab.get_page(&visit.url).title.is_none());
    // An element that is exempt may have any tag.
    assert_eq!(
        crab.scan_page(
            &visit,
            Some("<title>t</title><a href=\"/x\">x</a><iframe class=\"scrab-skip\" src=\"/f\"></iframe>")
        ),
        Ok(true)
    );
    assert_eq!(crab.page_count(), 2);
    assert_eq!(crab.pending_count(), 1);
}

#[test]
fn the_graph_is_written_in_the_dot_language() {
    let mut test_server = TestServer::default();
    test_server
        .add_page(TestPage {
            content: Some("<html><head><title>  Home \n</title></head><body><a href=\"/b\">b</a><a href=\"/c\">c</a></body></html>"),
            ..page("/")
        })
        .add_page(TestPage { status_code: 404, ..page("/b") });
    test_server.spider_crab.options.max_depth = 1;
    test_server.unreachable.push("/c");
    assert!(!test_server.crawl(SERVER));
    let dot = test_server.spider_crab.get_dot_format();
    assert!(dot.starts_with("digraph {"), "{}", dot);
    assert!(dot.contains("0 [ label=\"Home\nhttp://127.0.0.1:1234/\", color=green]"), "{}", dot);
    assert!(dot.contains("label=\"NO TITLE\nhttp://127.0.0.1:1234/b\", color=red]"), "{}", dot);
    assert!(dot.contains("0 -> 1 [ ]"), "{}", dot);
    assert!(dot.contains("0 -> 2 [ ]"), "{}", dot);
}
