//! The ignore list: which anomalies are not to be recorded, and how the list
//! is read from the lines of a file.
use vstd::prelude::*;
use vstd::string::*;
use crate::error::{kind_named, SpiderErrorType};
use crate::text::{str_split_whitespace, whitespace_split};
use crate::urls::Url;

verus! {

/// One rule: anomalies of kind `rule` that concern exactly `url` are not recorded.
#[derive(Debug)]
pub struct IgnoreRule {
    pub rule: SpiderErrorType,
    pub url: String,
}

impl View for IgnoreRule {
    type V = (SpiderErrorType, Seq<char>);

    open spec fn view(&self) -> (SpiderErrorType, Seq<char>) {
        (self.rule, self.url@)
    }
}

impl DeepView for IgnoreRule {
    type V = (SpiderErrorType, Seq<char>);

    open spec fn deep_view(&self) -> (SpiderErrorType, Seq<char>) {
        self@
    }
}

/// The rules of an ignore list, in the order in which they were added.
#[derive(Debug)]
pub struct IgnoreRules {
    pub ignore_patterns: Vec<IgnoreRule>,
}

impl View for IgnoreRules {
    type V = Seq<(SpiderErrorType, Seq<char>)>;

    open spec fn view(&self) -> Seq<(SpiderErrorType, Seq<char>)> {
        self.ignore_patterns.deep_view()
    }
}

/// Whether anomalies of kind `rule` that concern `url` are recorded under
/// `rules`: they are unless the list holds that kind with exactly that text.
pub open spec fn rule_enabled(
    rules: Seq<(SpiderErrorType, Seq<char>)>,
    rule: SpiderErrorType,
    url: Seq<char>,
) -> bool {
    !rules.contains((rule, url))
}

/// What one line of an ignore file says.
#[derive(Debug)]
pub enum IgnoreLine {
    /// Nothing: the line is blank or a comment.
    Blank,
    /// One rule.
    Rule(IgnoreRule),
    /// The line names a rule and no URL.
    MissingUrl,
    /// The first word of the line is no rule name.
    InvalidRule,
}

/// What one line of an ignore file says, as a mathematical value.
pub enum IgnoreLineView {
    Blank,
    Rule(SpiderErrorType, Seq<char>),
    MissingUrl,
    InvalidRule,
}

impl View for IgnoreLine {
    type V = IgnoreLineView;

    open spec fn view(&self) -> IgnoreLineView {
        match self {
            IgnoreLine::Blank => IgnoreLineView::Blank,
            IgnoreLine::Rule(rule) => IgnoreLineView::Rule(rule.rule, rule.url@),
            IgnoreLine::MissingUrl => IgnoreLineView::MissingUrl,
            IgnoreLine::InvalidRule => IgnoreLineView::InvalidRule,
        }
    }
}

/// What a line says, given the words it is made of. A line without words is
/// blank; one whose first word begins with `#` is a comment. Any other line
/// holds a rule name and a URL; a word after those is not looked at. A line
/// with one word lacks its URL, whatever the word is.
pub open spec fn line_meaning(words: Seq<Seq<char>>) -> IgnoreLineView {
    if words.len() == 0 {
        IgnoreLineView::Blank
    } else if words[0].len() > 0 && words[0][0] == '#' {
        IgnoreLineView::Blank
    } else if words.len() < 2 {
        IgnoreLineView::MissingUrl
    } else {
        match kind_named(words[0]) {
            Some(rule) => IgnoreLineView::Rule(rule, words[1]),
            None => IgnoreLineView::InvalidRule,
        }
    }
}

/// Why an ignore file was refused: the first line that is neither blank, a
/// comment nor a rule, counted from zero, and what is wrong with it.
#[derive(Debug, Clone, Copy, PartialEq, Eq, Structural)]
pub enum IgnoreFileError {
    /// The line names a rule and no URL.
    MissingUrl { line: usize },
    /// The first word of the line is no rule name.
    InvalidRule { line: usize },
}

/// The rules that the lines of an ignore file hold, in order, or the first
/// line that is refused.
pub open spec fn rules_of_lines(lines: Seq<Seq<char>>) -> Result<
    Seq<(SpiderErrorType, Seq<char>)>,
    IgnoreFileError,
>
    decreases lines.len(),
{
    if lines.len() == 0 {
        Ok(Seq::empty())
    } else {
        match rules_of_lines(lines.drop_last()) {
            Err(e) => Err(e),
            Ok(rules) => match line_meaning(whitespace_split(lines.last())) {
                IgnoreLineView::Blank => Ok(rules),
                IgnoreLineView::Rule(rule, url) => Ok(rules.push((rule, url))),
                IgnoreLineView::MissingUrl => Err(
                    IgnoreFileError::MissingUrl { line: (lines.len() - 1) as usize },
                ),
                IgnoreLineView::InvalidRule => Err(
                    IgnoreFileError::InvalidRule { line: (lines.len() - 1) as usize },
                ),
            },
        }
    }
}

/// What a line says, given the words it is made of.
pub fn read_words(words: &Vec<String>) -> (line: IgnoreLine)
    ensures
        line@ == line_meaning(words.deep_view()),
{
    if words.len() == 0 {
        return IgnoreLine::Blank;
    }
    let first = words[0].as_str();
    assert(words.deep_view()[0] == first@);
    if !first.is_empty() && first.get_char(0) == '#' {
        return IgnoreLine::Blank;
    }
    if words.len() < 2 {
        return IgnoreLine::MissingUrl;
    }
    assert(words.deep_view()[1] == words[1]@);
    match SpiderErrorType::from_rule_name(first) {
        Ok(rule) => IgnoreLine::Rule(IgnoreRule { rule, url: words[1].clone() }),
        Err(_) => IgnoreLine::InvalidRule,
    }
}

/// What one line of an ignore file says.
pub fn read_line(line: &str) -> (r: IgnoreLine)
    ensures
        r@ == line_meaning(whitespace_split(line@)),
{
    let words = str_split_whitespace(line);
    read_words(&words)
}

impl IgnoreRules {
    /// A list without rules: every anomaly is recorded.
    pub fn new() -> (rules: Self)
        ensures
            rules@ == Seq::<(SpiderErrorType, Seq<char>)>::empty(),
    {
        IgnoreRules { ignore_patterns: Vec::new() }
    }

    /// Adds one rule at the end of the list.
    pub fn add(&mut self, rule: IgnoreRule)
        ensures
            final(self)@ == old(self)@.push(rule@),
    {
        self.ignore_patterns.push(rule);
    }

    /// Whether anomalies of kind `rule` that concern `url` are recorded. The
    /// match is on the whole text of the URL.
    pub fn is_rule_enabled(&self, rule: SpiderErrorType, url: &Url) -> (enabled: bool)
        ensures
            enabled == rule_enabled(self@, rule, url@),
    {
        let mut i: usize = 0;
        while i < self.ignore_patterns.len()
            invariant
                i <= self.ignore_patterns.len(),
                forall|j: int| 0 <= j < i ==> self@[j] != (rule, url@),
            decreases self.ignore_patterns.len() - i,
        {
            let pattern = &self.ignore_patterns[i];
            if pattern.rule == rule && crate::text::str_eq(pattern.url.as_str(), url.as_str()) {
                assert(self@[i as int] == (rule, url@));
                return false;
            }
            i += 1;
        }
        true
    }

    /// Reads the lines of an ignore file. The first line that is neither
    /// blank, a comment nor a rule refuses the whole file.
    pub fn read_from_lines(lines: &Vec<String>) -> (r: Result<IgnoreRules, IgnoreFileError>)
        ensures
            match r {
                Ok(rules) => rules_of_lines(lines.deep_view()) == Ok::<
                    Seq<(SpiderErrorType, Seq<char>)>,
                    IgnoreFileError,
                >(rules@),
                Err(e) => rules_of_lines(lines.deep_view()) == Err::<
                    Seq<(SpiderErrorType, Seq<char>)>,
                    IgnoreFileError,
                >(e),
            },
    {
        let mut rules = IgnoreRules::new();
        let mut i: usize = 0;
        assert(lines.deep_view().take(0) == Seq::<Seq<char>>::empty());
        while i < lines.len()
            invariant
                i <= lines.len(),
                rules_of_lines(lines.deep_view().take(i as int)) == Ok::<
                    Seq<(SpiderErrorType, Seq<char>)>,
                    IgnoreFileError,
                >(rules@),
            decreases lines.len() - i,
        {
            let ghost all = lines.deep_view();
            let ghost so_far = all.take(i as int + 1);
            proof {
                assert(so_far.drop_last() == all.take(i as int));
                assert(so_far.last() == lines[i as int]@);
            }
            match read_line(lines[i].as_str()) {
                IgnoreLine::Blank => {},
                IgnoreLine::Rule(rule) => {
                    rules.add(rule);
                },
                IgnoreLine::MissingUrl => {
                    proof {
                        lemma_refused_stays_refused(all, i as int + 1);
                    }
                    return Err(IgnoreFileError::MissingUrl { line: i });
                },
                IgnoreLine::InvalidRule => {
                    proof {
                        lemma_refused_stays_refused(all, i as int + 1);
                    }
                    return Err(IgnoreFileError::InvalidRule { line: i });
                },
            }
            i += 1;
        }
        assert(lines.deep_view().take(i as int) == lines.deep_view());
        Ok(rules)
    }
}

/// Once a beginning of a file is refused, the file is refused for the same reason.
pub proof fn lemma_refused_stays_refused(lines: Seq<Seq<char>>, n: int)
    requires
        0 <= n <= lines.len(),
        rules_of_lines(lines.take(n)).is_err(),
    ensures
        rules_of_lines(lines) == rules_of_lines(lines.take(n)),
    decreases lines.len() - n,
{
    if n < lines.len() {
        assert(lines.take(n + 1).drop_last() == lines.take(n));
        lemma_refused_stays_refused(lines, n + 1);
    } else {
        assert(lines.take(n) == lines);
    }
}

} // verus!
