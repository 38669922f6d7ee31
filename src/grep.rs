use vstd::prelude::*;
use vstd::string::StringSliceAdditionalSpecFns;
use vstd::utf8::encode_utf8;

use crate::bytes::{contains, seq_contains};
use crate::lines::{line_views, lines_of, split_lines};
use crate::textcodec::{utf8_lossy, utf8_lossy_text};

verus! {

/// A query over a text, as given on the command line.
pub struct Config {
    pub query: String,
    pub contents: String,
    pub ignore_case: bool,
}

pub const MISSING_QUERY: &'static str = "没有输入要查找的内容";

pub const MISSING_CONTENTS: &'static str = "没有输入要查找的文件";

impl Config {
    /// Builds a query from command-line arguments: the first is the program
    /// name, then the query, then the text to search.
    pub fn build(args: Vec<String>, ignore_case: bool) -> (r: Result<Config, &'static str>)
        ensures
            args@.len() < 2 ==> (r matches Err(e) && e@ == MISSING_QUERY@),
            args@.len() == 2 ==> (r matches Err(e) && e@ == MISSING_CONTENTS@),
            args@.len() > 2 ==> (r matches Ok(c) && c.query@ == args@[1]@ && c.contents@
                == args@[2]@ && c.ignore_case == ignore_case),
    {
        if args.len() < 2 {
            return Err(MISSING_QUERY);
        }
        if args.len() < 3 {
            return Err(MISSING_CONTENTS);
        }
        let query = args[1].clone();
        let contents = args[2].clone();
        Ok(Config { query, contents, ignore_case })
    }
}

/// What `str::to_lowercase` gives for a text.
pub uninterp spec fn lowercase_of(s: Seq<char>) -> Seq<char>;

/// Relies on `str::to_lowercase`: the result depends on the characters
/// alone.
#[verifier::external_body]
fn lowercase(s: &str) -> (r: String)
    ensures
        r@ == lowercase_of(s@),
{
    s.to_lowercase()
}

/// Whether `needle` occurs in `hay`, byte for byte.
pub fn contains_text(hay: &str, needle: &str) -> (r: bool)
    ensures
        r == seq_contains(hay.spec_bytes(), needle.spec_bytes()),
{
    contains(hay.as_bytes(), needle.as_bytes())
}

/// A line of `contents` taken by the case-insensitive search: its lowercase
/// form holds the lowercase query.
pub open spec fn folded_match(query: Seq<char>, line: Seq<u8>) -> bool {
    seq_contains(encode_utf8(lowercase_of(utf8_lossy_text(line))), encode_utf8(lowercase_of(query)))
}

pub open spec fn folded_lines_upto(query: Seq<char>, lines: Seq<Seq<u8>>, n: int) -> Seq<Seq<char>>
    decreases n,
{
    if n <= 0 {
        seq![]
    } else if folded_match(query, lines[n - 1]) {
        folded_lines_upto(query, lines, n - 1).push(utf8_lossy_text(lines[n - 1]))
    } else {
        folded_lines_upto(query, lines, n - 1)
    }
}

pub open spec fn string_views(v: Seq<String>) -> Seq<Seq<char>> {
    v.map_values(|s: String| s@)
}

/// The lines of `contents` that hold `query`, ignoring case.
pub fn search_case_insensitive(query: &str, contents: &str) -> (r: Vec<String>)
    ensures
        string_views(r@) == folded_lines_upto(
            query@,
            lines_of(contents.spec_bytes()),
            lines_of(contents.spec_bytes()).len() as int,
        ),
{
    let folded_query = lowercase(query);
    let lines = split_lines(contents.as_bytes());
    let ghost lv = line_views(lines@);
    let mut results: Vec<String> = Vec::new();
    let mut k: usize = 0;
    assert(string_views(results@) =~= seq![]);
    while k < lines.len()
        invariant
            k <= lines@.len(),
            lv == line_views(lines@),
            lv == lines_of(contents.spec_bytes()),
            folded_query@ == lowercase_of(query@),
            string_views(results@) == folded_lines_upto(query@, lv, k as int),
        decreases lines@.len() - k,
    {
        let line = utf8_lossy(lines[k].as_slice());
        assert(lv[k as int] == lines@[k as int]@);
        let folded_line = lowercase(line.as_str());
        let hit = contains_text(folded_line.as_str(), folded_query.as_str());
        if hit {
            let ghost before = string_views(results@);
            results.push(line);
            assert(string_views(results@) =~= before.push(utf8_lossy_text(lv[k as int])));
        }
        k = k + 1;
    }
    results
}

} // verus!
