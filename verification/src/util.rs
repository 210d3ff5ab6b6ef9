//! Small text helpers.

use vstd::prelude::*;
use vstd::string::{StrSliceExecFns, StringExecFns};

verus! {

/// A route pattern with a leading slash: an empty pattern, or one that
/// already starts with `/`, is kept as it is; any other gets `/` in front.
pub open spec fn with_leading_slash(p: Seq<char>) -> Seq<char> {
    if p.len() > 0 && p[0] != '/' {
        seq!['/'] + p
    } else {
        p
    }
}

/// Putting slashes in front is idempotent: a pattern that went through it
/// once is left as it is the second time.
pub proof fn insert_slash_idempotent(p: Seq<char>)
    ensures
        with_leading_slash(with_leading_slash(p)) == with_leading_slash(p),
{
}

/// Puts a slash in front of every non-empty pattern that lacks one.
pub fn insert_slash(patterns: Vec<String>) -> (r: Vec<String>)
    ensures
        r@.len() == patterns@.len(),
        forall|i: int| 0 <= i < r@.len() ==> #[trigger] r@[i]@ == with_leading_slash(patterns@[i]@),
{
    let mut out: Vec<String> = Vec::new();
    let mut i: usize = 0;
    while i < patterns.len()
        invariant
            i <= patterns@.len(),
            out@.len() == i,
            forall|j: int| 0 <= j < i ==> #[trigger] out@[j]@ == with_leading_slash(patterns@[j]@),
        decreases patterns@.len() - i,
    {
        let p: &str = patterns[i].as_str();
        if !p.is_empty() && p.get_char(0) != '/' {
            let mut s = String::new();
            s.append("/");
            s.append(p);
            proof {
                reveal_strlit("/");
            }
            out.push(s);
        } else {
            out.push(patterns[i].clone());
        }
        i = i + 1;
    }
    out
}

/// The characters of a text, in order.
pub(crate) fn chars_of(s: &str) -> (r: Vec<char>)
    ensures
        r@ == s@,
{
    broadcast use vstd::string::axiom_spec_iter;
    let mut out: Vec<char> = Vec::new();
    for c in iter: s.chars()
        invariant
            out@ == iter.seq().take(iter.index() as int),
    {
        out.push(c);
    }
    out
}

/// The text made of the characters (`String: FromIterator<char>`).
#[verifier::external_body]
pub(crate) fn string_of(chars: &[char]) -> (r: String)
    ensures
        r@ == chars@,
{
    chars.iter().collect()
}

} // verus!
