//! Wildcard patterns (`*` any run, `?` one character) and group match
//! expressions, both evaluated by the `regex` crate.
use vstd::prelude::*;
use vstd::string::*;

verus! {

/// Outcome of compiling `pattern` with the `regex` crate and searching `text`
/// with it: `None` when the pattern does not compile, else whether it matches.
pub uninterp spec fn regex_search(pattern: Seq<char>, text: Seq<char>) -> Option<bool>;

/// Compiles `pattern` with `regex::Regex::new` and, when that succeeds, reports
/// `Regex::is_match` on `text`. The contract only names the outcome: what the
/// regex language means is left to the crate.
#[verifier::external_body]
pub(crate) fn regex_is_match(pattern: &str, text: &str) -> (r: Option<bool>)
    ensures
        r == regex_search(pattern@, text@),
{
    match regex::Regex::new(pattern) {
        Ok(re) => Some(re.is_match(text)),
        Err(_) => None,
    }
}

/// Whether a group match expression matches a model name. An expression that
/// does not compile matches nothing.
pub fn regex_matches(pattern: &str, text: &str) -> (r: bool)
    ensures
        r == (regex_search(pattern@, text@) == Some(true)),
{
    match regex_is_match(pattern, text) {
        Some(b) => b,
        None => false,
    }
}

/// Whether a pattern holds a wildcard character.
pub open spec fn has_wildcard(s: Seq<char>) -> bool {
    s.contains('*') || s.contains('?')
}

/// Whether `c` has a meaning of its own in a regular expression outside a
/// character class (`*` and `?` aside, which stand for wildcards here).
pub open spec fn regex_meta(c: char) -> bool {
    c == '\\' || c == '.' || c == '+' || c == '(' || c == ')' || c == '|' || c == '['
        || c == ']' || c == '{' || c == '}' || c == '^' || c == '$'
}

/// The regular expression for one character of a wildcard pattern: `*` any
/// run, `?` any one character, every other character itself (escaped where
/// the regex language would read it otherwise).
pub open spec fn wildcard_piece(c: char) -> Seq<char> {
    if c == '*' {
        ".*"@
    } else if c == '?' {
        "."@
    } else if regex_meta(c) {
        seq!['\\', c]
    } else {
        seq![c]
    }
}

/// The regular expressions of the characters of a wildcard pattern, in order.
pub open spec fn wildcard_body(s: Seq<char>) -> Seq<char>
    decreases s.len(),
{
    if s.len() == 0 {
        Seq::empty()
    } else {
        wildcard_piece(s[0]) + wildcard_body(s.drop_first())
    }
}

/// The anchored regular expression for a wildcard pattern.
pub open spec fn wildcard_regex(pattern: Seq<char>) -> Seq<char> {
    "^"@ + wildcard_body(pattern) + "$"@
}

/// Whether `text` matches the wildcard pattern as a whole.
pub open spec fn wildcard_matches(pattern: Seq<char>, text: Seq<char>) -> bool {
    regex_search(wildcard_regex(pattern), text) == Some(true)
}

/// The anchored regular expression of a wildcard pattern: `*` becomes `.*`,
/// `?` becomes `.`, and every other character matches only itself.
pub fn wildcard_to_regex(pattern: &str) -> (r: String)
    ensures
        r@ == wildcard_regex(pattern@),
{
    let n = pattern.unicode_len();
    let mut body = String::new();
    let mut i: usize = 0;
    assert(pattern@.subrange(0, n as int) =~= pattern@);
    assert(body@ + wildcard_body(pattern@) =~= wildcard_body(pattern@));
    while i < n
        invariant
            n == pattern@.len(),
            0 <= i <= n,
            body@ + wildcard_body(pattern@.subrange(i as int, n as int)) == wildcard_body(pattern@),
        decreases n - i,
    {
        let ch = pattern.get_char(i);
        let ghost rest = pattern@.subrange(i as int, n as int);
        assert(rest.drop_first() =~= pattern@.subrange(i + 1, n as int));
        let ghost before = body@;
        proof {
            reveal_strlit(".*");
            reveal_strlit(".");
            reveal_strlit("\\");
        }
        if ch == '*' {
            body.append(".*");
        } else if ch == '?' {
            body.append(".");
        } else {
            if ch == '\\' || ch == '.' || ch == '+' || ch == '(' || ch == ')' || ch == '|' || ch == '['
                || ch == ']' || ch == '{' || ch == '}' || ch == '^' || ch == '$' {
                body.append("\\");
            }
            body.append(pattern.substring_char(i, i + 1));
        }
        assert(body@ =~= before + wildcard_piece(pattern@[i as int]));
        assert(body@ + wildcard_body(pattern@.subrange(i + 1, n as int)) =~= wildcard_body(pattern@));
        i = i + 1;
    }
    assert(pattern@.subrange(n as int, n as int) =~= Seq::<char>::empty());
    let mut out = String::from_str("^");
    out.append(body.as_str());
    out.append("$");
    assert(out@ =~= wildcard_regex(pattern@));
    out
}

/// Whether `text` matches the wildcard `pattern` (`*` any run, `?` one character).
pub fn wildcard_match(pattern: &str, text: &str) -> (r: bool)
    ensures
        r == wildcard_matches(pattern@, text@),
{
    let re = wildcard_to_regex(pattern);
    match regex_is_match(re.as_str(), text) {
        Some(b) => b,
        None => false,
    }
}

} // verus!
