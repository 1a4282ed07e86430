use vstd::prelude::*;

use crate::search::{search, search_case_insensitive, search_spec, results_are, SearchResult};
use crate::text::{chars_of, contains_at};

verus! {

/// The message given when fewer than two arguments follow the program name.
pub open spec fn missing_argument_message() -> Seq<char> {
    "Expected two arguments, but got too little arguments"@
}

/// What one run searches for, where, and how.
pub struct Config {
    pub query: String,
    pub filename: String,
    pub case_sensitive: bool,
}

/// Whether `s` is exactly the word `true`.
fn is_true_word(s: &str) -> (r: bool)
    ensures
        r == (s@ == "true"@),
{
    let a = chars_of(s);
    let b = chars_of("true");
    if a.len() != b.len() {
        return false;
    }
    let same = contains_at(a.as_slice(), b.as_slice(), 0);
    assert(a@.subrange(0, b@.len() as int) =~= a@);
    same
}

impl Config {
    /// Builds the configuration from the invocation arguments (the program
    /// name first, then the query and the file name) and the value of the
    /// `CASE_SENSITIVE` variable, if it is set. Only the exact value `true`
    /// asks for a case-sensitive search.
    pub fn new(args: Vec<String>, case_sensitive_var: Option<String>) -> (r: Result<
        Config,
        &'static str,
    >)
        ensures
            r is Err <==> args@.len() < 3,
            r matches Err(e) ==> e@ == missing_argument_message(),
            r matches Ok(c) ==> {
                &&& c.query@ == args@[1]@
                &&& c.filename@ == args@[2]@
                &&& c.case_sensitive == (case_sensitive_var matches Some(v) && v@ == "true"@)
            },
    {
        if args.len() < 3 {
            let e = "Expected two arguments, but got too little arguments";
            proof {
                reveal_strlit("Expected two arguments, but got too little arguments");
            }
            return Err(e);
        }
        let query = args[1].clone();
        let filename = args[2].clone();
        let case_sensitive = match &case_sensitive_var {
            Some(v) => is_true_word(v.as_str()),
            None => false,
        };
        Ok(Config { query, filename, case_sensitive })
    }

    /// Searches `contents` for the query, case-sensitively or not as the
    /// configuration says.
    pub fn search_in<'a>(&self, contents: &'a str) -> (r: Vec<SearchResult<'a>>)
        ensures
            results_are(r@, search_spec(self.query@, contents@, !self.case_sensitive)),
    {
        if self.case_sensitive {
            search(self.query.as_str(), contents)
        } else {
            search_case_insensitive(self.query.as_str(), contents)
        }
    }
}

} // verus!
