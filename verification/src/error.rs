//! The anomalies a crawl can find: their kinds, their rule names and their
//! rendering as messages.
use std::str::FromStr;
use vstd::prelude::*;
use vstd::string::*;
use crate::text::{concat, debug_quoted, debug_text, decimal, str_eq, u16_text};

verus! {

/// The kinds of anomaly. `FailedCrawl` only tells a caller that a crawl found
/// some problem; `ParseError` that a text names no kind.
#[derive(Debug, Clone, Copy, PartialEq, Eq, Hash, Structural)]
pub enum SpiderErrorType {
    InvalidURL,
    HTTPError,
    UnableToRetrieve,
    MissingAttribute,
    EmptyAttribute,
    MissingTitle,
    EmptyScript,
    FailedCrawl,
    ParseError,
}

/// The stable name of a kind, as it is written in an ignore list.
pub open spec fn rule_name(kind: SpiderErrorType) -> Seq<char> {
    match kind {
        SpiderErrorType::UnableToRetrieve => "unable-to-retrieve"@,
        SpiderErrorType::HTTPError => "http-error"@,
        SpiderErrorType::InvalidURL => "invalid-url"@,
        SpiderErrorType::MissingAttribute => "missing-attribute"@,
        SpiderErrorType::EmptyAttribute => "empty-attribute"@,
        SpiderErrorType::MissingTitle => "missing-title"@,
        SpiderErrorType::EmptyScript => "empty-script"@,
        SpiderErrorType::FailedCrawl => "failed-crawl"@,
        SpiderErrorType::ParseError => "parse-error"@,
    }
}

/// The kind that a rule name stands for, if any.
pub open spec fn kind_named(name: Seq<char>) -> Option<SpiderErrorType> {
    if exists|kind: SpiderErrorType| rule_name(kind) == name {
        Some(choose|kind: SpiderErrorType| rule_name(kind) == name)
    } else {
        None
    }
}

/// No two kinds share a rule name.
pub proof fn lemma_rule_names_differ(a: SpiderErrorType, b: SpiderErrorType)
    requires
        a != b,
    ensures
        rule_name(a) != rule_name(b),
{
    reveal_strlit("unable-to-retrieve");
    reveal_strlit("http-error");
    reveal_strlit("invalid-url");
    reveal_strlit("missing-attribute");
    reveal_strlit("empty-attribute");
    reveal_strlit("missing-title");
    reveal_strlit("empty-script");
    reveal_strlit("failed-crawl");
    reveal_strlit("parse-error");
    let x = rule_name(a);
    let y = rule_name(b);
    if x.len() == y.len() {
        // Names of equal length differ in their first, third or ninth character.
        assert(x[0] != y[0] || x[2] != y[2] || x[8] != y[8]);
    }
}

/// Turning a rule name into a kind and back gives the name again, and a kind's
/// own name stands for that kind.
pub proof fn lemma_rule_name_round_trip(kind: SpiderErrorType)
    ensures
        kind_named(rule_name(kind)) == Some(kind),
{
    let found = choose|k: SpiderErrorType| rule_name(k) == rule_name(kind);
    if found != kind {
        lemma_rule_names_differ(found, kind);
    }
}

impl SpiderErrorType {
    /// The stable name of this kind.
    pub fn get_rule_name(&self) -> (name: &'static str)
        ensures
            name@ == rule_name(*self),
    {
        match self {
            SpiderErrorType::UnableToRetrieve => "unable-to-retrieve",
            SpiderErrorType::HTTPError => "http-error",
            SpiderErrorType::InvalidURL => "invalid-url",
            SpiderErrorType::MissingAttribute => "missing-attribute",
            SpiderErrorType::EmptyAttribute => "empty-attribute",
            SpiderErrorType::MissingTitle => "missing-title",
            SpiderErrorType::EmptyScript => "empty-script",
            SpiderErrorType::FailedCrawl => "failed-crawl",
            SpiderErrorType::ParseError => "parse-error",
        }
    }

    /// Every kind, in declaration order.
    pub fn all() -> (kinds: Vec<SpiderErrorType>)
        ensures
            kinds@ == seq![
                SpiderErrorType::InvalidURL,
                SpiderErrorType::HTTPError,
                SpiderErrorType::UnableToRetrieve,
                SpiderErrorType::MissingAttribute,
                SpiderErrorType::EmptyAttribute,
                SpiderErrorType::MissingTitle,
                SpiderErrorType::EmptyScript,
                SpiderErrorType::FailedCrawl,
                SpiderErrorType::ParseError,
            ],
            forall|kind: SpiderErrorType| kinds@.contains(kind),
    {
        let kinds = vec![
            SpiderErrorType::InvalidURL,
            SpiderErrorType::HTTPError,
            SpiderErrorType::UnableToRetrieve,
            SpiderErrorType::MissingAttribute,
            SpiderErrorType::EmptyAttribute,
            SpiderErrorType::MissingTitle,
            SpiderErrorType::EmptyScript,
            SpiderErrorType::FailedCrawl,
            SpiderErrorType::ParseError,
        ];
        proof {
            assert(kinds@[0] == SpiderErrorType::InvalidURL);
            assert(kinds@[1] == SpiderErrorType::HTTPError);
            assert(kinds@[2] == SpiderErrorType::UnableToRetrieve);
            assert(kinds@[3] == SpiderErrorType::MissingAttribute);
            assert(kinds@[4] == SpiderErrorType::EmptyAttribute);
            assert(kinds@[5] == SpiderErrorType::MissingTitle);
            assert(kinds@[6] == SpiderErrorType::EmptyScript);
            assert(kinds@[7] == SpiderErrorType::FailedCrawl);
            assert(kinds@[8] == SpiderErrorType::ParseError);
        }
        kinds
    }

    /// The kind that `name` is the rule name of. A text that names no kind
    /// gives an error of kind `ParseError` with no other field set.
    pub fn from_rule_name(name: &str) -> (r: Result<SpiderErrorType, SpiderError>)
        ensures
            match r {
                Ok(kind) => kind_named(name@) == Some(kind),
                Err(e) => kind_named(name@).is_none() && e@ == (SpiderErrorView {
                    error_type: SpiderErrorType::ParseError,
                    ..SpiderErrorView::empty()
                }),
            },
    {
        let kinds = SpiderErrorType::all();
        let mut i: usize = 0;
        while i < kinds.len()
            invariant
                i <= kinds.len(),
                forall|kind: SpiderErrorType| kinds@.contains(kind),
                forall|j: int| 0 <= j < i ==> rule_name(#[trigger] kinds@[j]) != name@,
            decreases kinds.len() - i,
        {
            let kind = kinds[i];
            if str_eq(name, kind.get_rule_name()) {
                proof {
                    lemma_rule_name_round_trip(kind);
                }
                return Ok(kind);
            }
            i += 1;
        }
        proof {
            assert forall|kind: SpiderErrorType| rule_name(kind) != name@ by {
                assert(kinds@.contains(kind));
                let j = choose|j: int| 0 <= j < kinds@.len() && kinds@[j] == kind;
                assert(rule_name(kinds@[j]) != name@);
            }
        }
        Err(SpiderError { error_type: SpiderErrorType::ParseError, ..SpiderError::default() })
    }
}

impl FromStr for SpiderErrorType {
    type Err = SpiderError;

    /// The kind that `s` is the rule name of. A text that names no kind
    /// gives an error of kind `ParseError` with no other field set.
    fn from_str(s: &str) -> (r: Result<Self, Self::Err>)
        ensures
            match r {
                Ok(kind) => kind_named(s@) == Some(kind),
                Err(e) => kind_named(s@).is_none() && e@ == (SpiderErrorView {
                    error_type: SpiderErrorType::ParseError,
                    ..SpiderErrorView::empty()
                }),
            },
    {
        SpiderErrorType::from_rule_name(s)
    }
}

/// One anomaly, with the fields that its kind calls for.
#[derive(Debug)]
pub struct SpiderError {
    pub source_page: Option<String>,
    pub target_page: Option<String>,
    pub http_error_code: Option<u16>,
    pub error_type: SpiderErrorType,
    pub html: Option<String>,
    pub attribute: Option<String>,
}

/// An anomaly as a mathematical value.
pub struct SpiderErrorView {
    pub source_page: Option<Seq<char>>,
    pub target_page: Option<Seq<char>>,
    pub http_error_code: Option<u16>,
    pub error_type: SpiderErrorType,
    pub html: Option<Seq<char>>,
    pub attribute: Option<Seq<char>>,
}

impl SpiderErrorView {
    /// The anomaly that says only that a crawl failed.
    pub open spec fn empty() -> SpiderErrorView {
        SpiderErrorView {
            source_page: None,
            target_page: None,
            http_error_code: None,
            error_type: SpiderErrorType::FailedCrawl,
            html: None,
            attribute: None,
        }
    }

    /// Whether the fields that the message of this kind quotes are all present.
    pub open spec fn renderable(self) -> bool {
        match self.error_type {
            SpiderErrorType::UnableToRetrieve => self.target_page.is_some(),
            SpiderErrorType::HTTPError => self.http_error_code.is_some()
                && self.target_page.is_some(),
            SpiderErrorType::InvalidURL => self.source_page.is_some() && self.target_page.is_some(),
            SpiderErrorType::MissingAttribute | SpiderErrorType::EmptyAttribute =>
                self.source_page.is_some() && self.attribute.is_some() && self.html.is_some(),
            SpiderErrorType::MissingTitle | SpiderErrorType::EmptyScript =>
                self.source_page.is_some(),
            SpiderErrorType::FailedCrawl | SpiderErrorType::ParseError => true,
        }
    }

    /// The message of this anomaly. Quoted fields are written as `{:?}` writes them.
    pub open spec fn message(self) -> Seq<char> {
        match self.error_type {
            SpiderErrorType::UnableToRetrieve => "Failed to retrieve content for page "@
                + debug_quoted(self.target_page.unwrap()) + "!"@,
            SpiderErrorType::HTTPError => "HTTP GET request received status code "@ + decimal(
                self.http_error_code.unwrap() as nat,
            ) + " for page "@ + debug_quoted(self.target_page.unwrap()) + "!"@,
            SpiderErrorType::InvalidURL => "Page at "@ + debug_quoted(self.source_page.unwrap())
                + " contains a reference to an invalid URL "@ + debug_quoted(
                self.target_page.unwrap(),
            ) + "!"@,
            SpiderErrorType::MissingAttribute => "Page at "@ + debug_quoted(
                self.source_page.unwrap(),
            ) + " contains an element with no "@ + debug_quoted(self.attribute.unwrap())
                + " attribute! Element is: "@ + debug_quoted(self.html.unwrap()),
            SpiderErrorType::EmptyAttribute => "Page at "@ + debug_quoted(
                self.source_page.unwrap(),
            ) + " contains a link with an empty "@ + debug_quoted(self.attribute.unwrap())
                + " attribute! Element is: "@ + debug_quoted(self.html.unwrap()),
            SpiderErrorType::MissingTitle => "Page at "@ + debug_quoted(self.source_page.unwrap())
                + " does not have a title!"@,
            SpiderErrorType::EmptyScript => "Page at "@ + debug_quoted(self.source_page.unwrap())
                + " has a <script> tag with no `src` attribute and no JavaScript code inside!"@,
            SpiderErrorType::FailedCrawl => "Found a problem while crawling the target webpage!"@,
            SpiderErrorType::ParseError => "Could not parse string into error type!"@,
        }
    }

    /// The anomaly as one line: its rule name, then its message.
    pub open spec fn rendering(self) -> Seq<char> {
        "SpiderError ("@ + rule_name(self.error_type) + "): "@ + self.message()
    }
}

impl View for SpiderError {
    type V = SpiderErrorView;

    open spec fn view(&self) -> SpiderErrorView {
        SpiderErrorView {
            source_page: self.source_page.deep_view(),
            target_page: self.target_page.deep_view(),
            http_error_code: self.http_error_code,
            error_type: self.error_type,
            html: self.html.deep_view(),
            attribute: self.attribute.deep_view(),
        }
    }
}

impl DeepView for SpiderError {
    type V = SpiderErrorView;

    open spec fn deep_view(&self) -> SpiderErrorView {
        self@
    }
}

impl Default for SpiderError {
    fn default() -> (e: Self)
        ensures
            e@ == SpiderErrorView::empty(),
    {
        Self {
            error_type: SpiderErrorType::FailedCrawl,
            source_page: None,
            target_page: None,
            http_error_code: None,
            html: None,
            attribute: None,
        }
    }
}

/// The text of an optional field that is known to be present.
fn present(field: &Option<String>) -> (text: &str)
    requires
        field.is_some(),
    ensures
        Some(text@) == field.deep_view(),
{
    match field {
        Some(text) => text.as_str(),
        None => "",
    }
}

impl SpiderError {
    /// Whether the fields that the message of this anomaly quotes are all
    /// present, so that the message can be written.
    pub fn is_renderable(&self) -> (r: bool)
        ensures
            r == self@.renderable(),
    {
        match self.error_type {
            SpiderErrorType::UnableToRetrieve => self.target_page.is_some(),
            SpiderErrorType::HTTPError => self.http_error_code.is_some()
                && self.target_page.is_some(),
            SpiderErrorType::InvalidURL => self.source_page.is_some()
                && self.target_page.is_some(),
            SpiderErrorType::MissingAttribute | SpiderErrorType::EmptyAttribute =>
                self.source_page.is_some() && self.attribute.is_some() && self.html.is_some(),
            SpiderErrorType::MissingTitle | SpiderErrorType::EmptyScript =>
                self.source_page.is_some(),
            SpiderErrorType::FailedCrawl | SpiderErrorType::ParseError => true,
        }
    }

    /// The message of this anomaly. The fields that the message quotes must
    /// be present.
    pub fn get_message(&self) -> (message: String)
        requires
            self@.renderable(),
        ensures
            message@ == self@.message(),
    {
        match self.error_type {
            SpiderErrorType::UnableToRetrieve => {
                let mut m = concat(
                    "Failed to retrieve content for page ",
                    debug_text(present(&self.target_page)).as_str(),
                );
                m.append("!");
                m
            },
            SpiderErrorType::HTTPError => {
                let code = match self.http_error_code {
                    Some(code) => code,
                    None => 0,
                };
                let mut m = concat(
                    "HTTP GET request received status code ",
                    u16_text(code).as_str(),
                );
                m.append(" for page ");
                m.append(debug_text(present(&self.target_page)).as_str());
                m.append("!");
                m
            },
            SpiderErrorType::InvalidURL => {
                let mut m = concat("Page at ", debug_text(present(&self.source_page)).as_str());
                m.append(" contains a reference to an invalid URL ");
                m.append(debug_text(present(&self.target_page)).as_str());
                m.append("!");
                m
            },
            SpiderErrorType::MissingAttribute => {
                let mut m = concat("Page at ", debug_text(present(&self.source_page)).as_str());
                m.append(" contains an element with no ");
                m.append(debug_text(present(&self.attribute)).as_str());
                m.append(" attribute! Element is: ");
                m.append(debug_text(present(&self.html)).as_str());
                m
            },
            SpiderErrorType::EmptyAttribute => {
                let mut m = concat("Page at ", debug_text(present(&self.source_page)).as_str());
                m.append(" contains a link with an empty ");
                m.append(debug_text(present(&self.attribute)).as_str());
                m.append(" attribute! Element is: ");
                m.append(debug_text(present(&self.html)).as_str());
                m
            },
            SpiderErrorType::MissingTitle => {
                let mut m = concat("Page at ", debug_text(present(&self.source_page)).as_str());
                m.append(" does not have a title!");
                m
            },
            SpiderErrorType::EmptyScript => {
                let mut m = concat("Page at ", debug_text(present(&self.source_page)).as_str());
                m.append(
                    " has a <script> tag with no `src` attribute and no JavaScript code inside!",
                );
                m
            },
            SpiderErrorType::FailedCrawl => "Found a problem while crawling the target webpage!"
                .to_owned(),
            SpiderErrorType::ParseError => "Could not parse string into error type!".to_owned(),
        }
    }

    /// The anomaly as one line: `SpiderError (<rule name>): <message>`.
    pub fn to_string(&self) -> (line: String)
        requires
            self@.renderable(),
        ensures
            line@ == self@.rendering(),
    {
        let mut line = concat("SpiderError (", self.error_type.get_rule_name());
        line.append("): ");
        line.append(self.get_message().as_str());
        line
    }
}

} // verus!
