//! The decisions of a lookup session: what to do first, what a typed line
//! asks for, what follows a shown result, and the addresses to visit.

use vstd::prelude::*;
use vstd::string::*;
use crate::text::{trim_end_white, trim_start_white, trim_text, trim_white, url_escape, url_escaped};

verus! {

/// The options of a session, as given on the command line.
#[derive(Clone, Debug)]
pub struct Options {
    pub limit: usize,
    pub query: String,
    pub kanji: bool,
    pub interactive: bool,
}

impl Default for Options {
    fn default() -> (r: Self)
        ensures
            r.limit == 0,
            r.query@ == Seq::<char>::empty(),
            !r.kanji,
            !r.interactive,
    {
        Options { limit: 0, query: String::new(), kanji: false, interactive: false }
    }
}

/// What the session does next.
#[derive(Clone, Copy, Debug, PartialEq, Eq, Structural)]
pub enum Step {
    /// Print the usage line and stop.
    Usage,
    /// Ask for a query line.
    Prompt,
    /// Open one browser page per character of the query.
    OpenKanji,
    /// Look the query up and show the result.
    Lookup,
    /// Stop.
    Done,
}

/// A query is blank where nothing is left of it after trimming.
pub open spec fn blank(q: Seq<char>) -> bool {
    trim_white(q).len() == 0
}

pub open spec fn step_for_query(kanji: bool) -> Step {
    if kanji {
        Step::OpenKanji
    } else {
        Step::Lookup
    }
}

/// The step for a query once it is known: open kanji pages or look it up.
pub fn query_step(o: &Options) -> (r: Step)
    ensures
        r == step_for_query(o.kanji),
{
    if o.kanji {
        Step::OpenKanji
    } else {
        Step::Lookup
    }
}

/// The first step: an interactive session asks for a query; otherwise a
/// blank query gets the usage line, and any other query is looked up.
pub open spec fn first_step_of(interactive: bool, query: Seq<char>, kanji: bool) -> Step {
    if interactive {
        Step::Prompt
    } else if blank(query) {
        Step::Usage
    } else {
        step_for_query(kanji)
    }
}

/// Without the interactive flag, an empty query gets the usage line and
/// nothing is looked up.
pub proof fn lemma_empty_query_usage(query: Seq<char>, kanji: bool)
    requires
        query.len() == 0,
    ensures
        first_step_of(false, query, kanji) == Step::Usage,
{
    assert(trim_start_white(query) == query);
    assert(trim_end_white(query) == query);
}

/// The first step of a session with options `o`.
pub fn first_step(o: &Options) -> (r: Step)
    ensures
        r == first_step_of(o.interactive, o.query@, o.kanji),
{
    if o.interactive {
        Step::Prompt
    } else {
        let q = trim_text(o.query.as_str());
        if q.as_str().unicode_len() == 0 {
            Step::Usage
        } else if o.kanji {
            Step::OpenKanji
        } else {
            Step::Lookup
        }
    }
}

/// The query that a typed line holds: the line trimmed, or `None` for a
/// blank line, after which the session asks again.
pub fn query_from_line(line: &str) -> (r: Option<String>)
    ensures
        r is None <==> blank(line@),
        r matches Some(q) ==> q@ == trim_white(line@),
{
    let q = trim_text(line);
    if q.as_str().unicode_len() == 0 {
        None
    } else {
        Some(q)
    }
}

/// The step that follows a shown result: an interactive session asks again,
/// any other stops.
pub fn after_result(o: &Options) -> (r: Step)
    ensures
        r == if o.interactive { Step::Prompt } else { Step::Done },
{
    if o.interactive {
        Step::Prompt
    } else {
        Step::Done
    }
}

pub open spec fn search_url_of(query: Seq<char>) -> Seq<char> {
    "https://jisho.org/api/v1/search/words?keyword="@ + url_escaped(query)
}

pub open spec fn kanji_url_of(c: char) -> Seq<char> {
    "https://jisho.org/search/"@ + seq![c] + "%23kanji"@
}

/// The address of the word search for `query`, percent-encoded.
pub fn search_url(query: &str) -> (r: String)
    ensures
        r@ == search_url_of(query@),
{
    proof {
        reveal_strlit("https://jisho.org/api/v1/search/words?keyword=");
    }
    let mut r = String::from_str("https://jisho.org/api/v1/search/words?keyword=");
    let q = url_escape(query);
    r.append(q.as_str());
    r
}

/// The kanji page of each character of `query`, in order.
pub fn kanji_urls(query: &str) -> (r: Vec<String>)
    ensures
        r@.len() == query@.len(),
        forall|i: int| 0 <= i < query@.len() ==> (#[trigger] r@[i])@ == kanji_url_of(query@[i]),
{
    proof {
        reveal_strlit("https://jisho.org/search/");
        reveal_strlit("%23kanji");
    }
    let n = query.unicode_len();
    let mut r: Vec<String> = Vec::new();
    let mut i: usize = 0;
    while i < n
        invariant
            n == query@.len(),
            i <= n,
            r@.len() == i,
            forall|j: int| 0 <= j < i ==> (#[trigger] r@[j])@ == kanji_url_of(query@[j]),
        decreases n - i,
    {
        let mut u = String::from_str("https://jisho.org/search/");
        let c = query.substring_char(i, i + 1);
        u.append(c);
        u.append("%23kanji");
        proof {
            assert(c@ =~= seq![query@[i as int]]);
        }
        r.push(u);
        i = i + 1;
    }
    r
}

} // verus!
