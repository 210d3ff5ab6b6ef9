//! Byte-level text helpers for header values: visible-ASCII check, ASCII
//! lower case, whitespace trimming, splitting at semicolons and decimal
//! numbers.

use vstd::prelude::*;

verus! {

/// A byte that `HeaderValue::to_str` accepts: visible ASCII or a tab.
pub open spec fn is_visible_byte(b: u8) -> bool {
    (32 <= b && b < 127) || b == 9
}

/// A header value that reads as text.
pub open spec fn is_visible_text(s: Seq<u8>) -> bool {
    forall|i: int| 0 <= i < s.len() ==> is_visible_byte(#[trigger] s[i])
}

/// Whether every byte of the value is visible ASCII or a tab.
pub fn visible_text(s: &[u8]) -> (r: bool)
    ensures
        r == is_visible_text(s@),
{
    let mut i: usize = 0;
    while i < s.len()
        invariant
            i <= s@.len(),
            forall|j: int| 0 <= j < i ==> is_visible_byte(#[trigger] s@[j]),
        decreases s@.len() - i,
    {
        let b = s[i];
        if !((32 <= b && b < 127) || b == 9) {
            return false;
        }
        i = i + 1;
    }
    true
}

/// An ASCII letter in lower case; any other byte as it is.
pub open spec fn lower_byte(b: u8) -> u8 {
    if 65 <= b && b <= 90 {
        (b + 32) as u8
    } else {
        b
    }
}

/// The text with its ASCII letters in lower case.
pub open spec fn ascii_lower(s: Seq<u8>) -> Seq<u8> {
    s.map_values(|b: u8| lower_byte(b))
}

/// The bytes with ASCII letters in lower case.
pub fn to_ascii_lower(s: &[u8]) -> (r: Vec<u8>)
    ensures
        r@ == ascii_lower(s@),
{
    let mut out: Vec<u8> = Vec::new();
    let mut i: usize = 0;
    while i < s.len()
        invariant
            i <= s@.len(),
            out@.len() == i,
            forall|j: int| 0 <= j < i ==> #[trigger] out@[j] == lower_byte(s@[j]),
        decreases s@.len() - i,
    {
        let b = s[i];
        let l = if 65 <= b && b <= 90 { b + 32 } else { b };
        out.push(l);
        i = i + 1;
    }
    assert(out@ =~= ascii_lower(s@));
    out
}

/// Whitespace as `str::trim` removes it from ASCII text.
pub open spec fn is_space_byte(b: u8) -> bool {
    b == 32 || (9 <= b && b <= 13)
}

/// The text without its leading whitespace.
pub open spec fn trim_start(s: Seq<u8>) -> Seq<u8>
    decreases s.len(),
{
    if s.len() > 0 && is_space_byte(s[0]) {
        trim_start(s.drop_first())
    } else {
        s
    }
}

/// The text without its trailing whitespace.
pub open spec fn trim_end(s: Seq<u8>) -> Seq<u8>
    decreases s.len(),
{
    if s.len() > 0 && is_space_byte(s.last()) {
        trim_end(s.drop_last())
    } else {
        s
    }
}

/// The text without leading and trailing whitespace.
pub open spec fn trim(s: Seq<u8>) -> Seq<u8> {
    trim_end(trim_start(s))
}

proof fn lemma_trim_start_skip(s: Seq<u8>, i: int)
    requires
        0 <= i < s.len(),
        is_space_byte(s[i]),
    ensures
        trim_start(s.skip(i)) == trim_start(s.skip(i + 1)),
{
    assert(s.skip(i).drop_first() =~= s.skip(i + 1));
}

proof fn lemma_trim_end_take(s: Seq<u8>, j: int)
    requires
        0 < j <= s.len(),
        is_space_byte(s[j - 1]),
    ensures
        trim_end(s.take(j)) == trim_end(s.take(j - 1)),
{
    assert(s.take(j).drop_last() =~= s.take(j - 1));
}

/// The bytes without leading and trailing whitespace.
pub fn trim_bytes(s: &[u8]) -> (r: Vec<u8>)
    ensures
        r@ == trim(s@),
{
    let mut i: usize = 0;
    assert(s@.skip(0) =~= s@);
    while i < s.len() && (s[i] == 32 || (9 <= s[i] && s[i] <= 13))
        invariant
            i <= s@.len(),
            trim_start(s@) == trim_start(s@.skip(i as int)),
        decreases s@.len() - i,
    {
        proof {
            lemma_trim_start_skip(s@, i as int);
        }
        i = i + 1;
    }
    let ghost t = s@.skip(i as int);
    assert(trim_start(s@) == t);
    let mut j: usize = s.len();
    assert(t.take(t.len() as int) =~= t);
    while j > i && (s[j - 1] == 32 || (9 <= s[j - 1] && s[j - 1] <= 13))
        invariant
            i <= j <= s@.len(),
            t == s@.skip(i as int),
            trim_end(t) == trim_end(t.take(j - i)),
        decreases j,
    {
        proof {
            lemma_trim_end_take(t, (j - i) as int);
        }
        j = j - 1;
    }
    let mut out: Vec<u8> = Vec::new();
    let mut k: usize = i;
    while k < j
        invariant
            i <= k <= j <= s@.len(),
            out@ =~= s@.subrange(i as int, k as int),
        decreases j - k,
    {
        out.push(s[k]);
        k = k + 1;
    }
    assert(t.take(j - i) =~= s@.subrange(i as int, j as int));
    out
}

/// The pieces of the text between semicolons, in order; a text without a
/// semicolon is one piece.
pub open spec fn split_semicolons(s: Seq<u8>) -> Seq<Seq<u8>>
    decreases s.len(),
{
    if s.len() == 0 {
        seq![Seq::<u8>::empty()]
    } else {
        let r = split_semicolons(s.drop_last());
        if s.last() == 59 {
            r.push(Seq::<u8>::empty())
        } else {
            r.update(r.len() - 1, r.last().push(s.last()))
        }
    }
}

pub proof fn lemma_split_nonempty(s: Seq<u8>)
    ensures
        split_semicolons(s).len() > 0,
    decreases s.len(),
{
    if s.len() > 0 {
        lemma_split_nonempty(s.drop_last());
    }
}

/// The pieces of the bytes between semicolons.
pub fn split_at_semicolons(s: &[u8]) -> (r: Vec<Vec<u8>>)
    ensures
        r@.len() == split_semicolons(s@).len(),
        forall|k: int| 0 <= k < r@.len() ==> #[trigger] r@[k]@ == split_semicolons(s@)[k],
{
    let mut done: Vec<Vec<u8>> = Vec::new();
    let mut cur: Vec<u8> = Vec::new();
    let mut i: usize = 0;
    assert(s@.take(0) =~= Seq::<u8>::empty());
    while i < s.len()
        invariant
            i <= s@.len(),
            done@.len() + 1 == split_semicolons(s@.take(i as int)).len(),
            forall|k: int| 0 <= k < done@.len() ==> #[trigger] done@[k]@ == split_semicolons(s@.take(i as int))[k],
            cur@ == split_semicolons(s@.take(i as int)).last(),
        decreases s@.len() - i,
    {
        let ghost before = s@.take(i as int);
        assert(s@.take(i + 1).drop_last() =~= before);
        proof {
            lemma_split_nonempty(before);
        }
        if s[i] == 59 {
            let mut finished: Vec<u8> = Vec::new();
            std::mem::swap(&mut cur, &mut finished);
            done.push(finished);
        } else {
            cur.push(s[i]);
        }
        i = i + 1;
    }
    assert(s@.take(s@.len() as int) =~= s@);
    done.push(cur);
    done
}

/// The value of a parameter: without surrounding double quotes, if it has
/// them.
pub open spec fn unquote(v: Seq<u8>) -> Seq<u8> {
    if v.len() >= 2 && v[0] == 34 && v.last() == 34 {
        v.subrange(1, v.len() - 1)
    } else {
        v
    }
}

/// The bytes of `charset=`.
pub open spec fn charset_key() -> Seq<u8> {
    seq![99u8, 104, 97, 114, 115, 101, 116, 61]
}

/// The value of the first `charset` parameter among the given parameters:
/// a parameter, once trimmed, names the charset when it starts with
/// `charset=` in any case; the value is what follows, without quotes.
pub open spec fn charset_param(params: Seq<Seq<u8>>) -> Option<Seq<u8>>
    decreases params.len(),
{
    if params.len() == 0 {
        None
    } else {
        let p = trim(params[0]);
        if p.len() >= 8 && ascii_lower(p.take(8)) == charset_key() {
            Some(unquote(p.skip(8)))
        } else {
            charset_param(params.drop_first())
        }
    }
}

/// The views of a list of byte vectors.
pub open spec fn views(v: Seq<Vec<u8>>) -> Seq<Seq<u8>> {
    v.map_values(|x: Vec<u8>| x@)
}

/// A copy of the bytes from `from` to `to`.
pub fn copy_range(s: &[u8], from: usize, to: usize) -> (r: Vec<u8>)
    requires
        from <= to <= s@.len(),
    ensures
        r@ == s@.subrange(from as int, to as int),
{
    let mut out: Vec<u8> = Vec::new();
    let mut k: usize = from;
    while k < to
        invariant
            from <= k <= to <= s@.len(),
            out@ =~= s@.subrange(from as int, k as int),
        decreases to - k,
    {
        out.push(s[k]);
        k = k + 1;
    }
    out
}

/// The value of a parameter without surrounding double quotes.
pub fn unquote_bytes(v: &[u8]) -> (r: Vec<u8>)
    ensures
        r@ == unquote(v@),
{
    if v.len() >= 2 && v[0] == 34 && v[v.len() - 1] == 34 {
        copy_range(v, 1, v.len() - 1)
    } else {
        copy_range(v, 0, v.len())
    }
}

/// Whether the bytes start with `charset=` in any case.
fn starts_with_charset_key(p: &[u8]) -> (r: bool)
    ensures
        r == (p@.len() >= 8 && ascii_lower(p@.take(8)) == charset_key()),
{
    if p.len() < 8 {
        return false;
    }
    let head = copy_range(p, 0, 8);
    let lower = to_ascii_lower(head.as_slice());
    let key: [u8; 8] = [99u8, 104, 97, 114, 115, 101, 116, 61];
    let r = crate::http_types::bytes_equal(lower.as_slice(), key.as_slice());
    assert(key@ =~= charset_key());
    assert(head@ =~= p@.take(8));
    r
}

/// The value of the first `charset` parameter among `params[from..]`.
pub fn find_charset(params: &Vec<Vec<u8>>, from: usize) -> (r: Option<Vec<u8>>)
    requires
        from <= params@.len(),
    ensures
        r matches Some(v) ==> charset_param(views(params@).skip(from as int)) == Some(v@),
        r is None ==> charset_param(views(params@).skip(from as int)) is None,
{
    let mut j: usize = from;
    while j < params.len()
        invariant
            from <= j <= params@.len(),
            charset_param(views(params@).skip(from as int)) == charset_param(
                views(params@).skip(j as int),
            ),
        decreases params@.len() - j,
    {
        let p = trim_bytes(params[j].as_slice());
        let ghost rest = views(params@).skip(j as int);
        assert(rest[0] == params@[j as int]@);
        assert(rest.drop_first() =~= views(params@).skip(j + 1));
        if starts_with_charset_key(p.as_slice()) {
            let value = copy_range(p.as_slice(), 8, p.len());
            assert(value@ =~= p@.skip(8));
            return Some(unquote_bytes(value.as_slice()));
        }
        j = j + 1;
    }
    None
}

/// An ASCII decimal digit.
pub open spec fn is_digit(b: u8) -> bool {
    48 <= b && b <= 57
}

/// The number written by a string of decimal digits.
pub open spec fn digits_value(s: Seq<u8>) -> nat
    decreases s.len(),
{
    if s.len() == 0 {
        0
    } else {
        digits_value(s.drop_last()) * 10 + (s.last() - 48) as nat
    }
}

/// The digits of an unsigned number: the text without a leading `+`, when
/// something follows it.
pub open spec fn unsigned_digits(s: Seq<u8>) -> Seq<u8> {
    if s.len() > 1 && s[0] == 43 {
        s.drop_first()
    } else {
        s
    }
}

/// The `usize` that `str::parse::<usize>` reads from the text: one or more
/// decimal digits, optionally after a `+`, whose value fits.
pub open spec fn parsed_usize(s: Seq<u8>) -> Option<usize> {
    let d = unsigned_digits(s);
    if d.len() > 0 && (forall|i: int| 0 <= i < d.len() ==> is_digit(#[trigger] d[i]))
        && digits_value(d) <= usize::MAX {
        Some(digits_value(d) as usize)
    } else {
        None
    }
}

proof fn lemma_digits_value_grows(s: Seq<u8>, k: int)
    requires
        0 <= k <= s.len(),
        forall|i: int| 0 <= i < s.len() ==> is_digit(#[trigger] s[i]),
    ensures
        digits_value(s.take(k)) <= digits_value(s),
    decreases s.len(),
{
    if k < s.len() {
        assert(s.drop_last().take(k) =~= s.take(k));
        lemma_digits_value_grows(s.drop_last(), k);
        assert(digits_value(s.drop_last()) <= digits_value(s)) by (nonlinear_arith)
            requires
                digits_value(s) == digits_value(s.drop_last()) * 10 + (s.last() - 48) as nat,
        ;
    } else {
        assert(s.take(k) =~= s);
    }
}

/// The unsigned number a text of digits writes, as `str::parse::<usize>`
/// reads it.
pub fn parse_usize(s: &[u8]) -> (r: Option<usize>)
    ensures
        r == parsed_usize(s@),
{
    let start: usize = if s.len() > 1 && s[0] == 43 { 1 } else { 0 };
    let ghost d = unsigned_digits(s@);
    assert(d =~= s@.skip(start as int));
    if start == s.len() {
        return None;
    }
    let mut acc: usize = 0;
    let mut i: usize = start;
    assert(d.take(0) =~= Seq::<u8>::empty());
    while i < s.len()
        invariant
            start <= i <= s@.len(),
            start < s@.len(),
            d == s@.skip(start as int),
            d == unsigned_digits(s@),
            forall|j: int| 0 <= j < i - start ==> is_digit(#[trigger] d[j]),
            acc as nat == digits_value(d.take(i - start)),
        decreases s@.len() - i,
    {
        let b = s[i];
        if !(48 <= b && b <= 57) {
            assert(d[i - start] == b);
            assert(!is_digit(d[i - start]));
            return None;
        }
        assert(d.take(i - start + 1).drop_last() =~= d.take(i - start));
        assert(d.take(i - start + 1).last() == b);
        let next = match acc.checked_mul(10) {
            Some(m) => m.checked_add((b - 48) as usize),
            None => None,
        };
        match next {
            Some(n) => {
                acc = n;
            },
            None => {
                proof {
                    let k = i - start + 1;
                    assert(digits_value(d.take(k)) == digits_value(d.take(k - 1)) * 10 + (b - 48) as nat);
                    assert(digits_value(d.take(k)) > usize::MAX);
                    if forall|j: int| 0 <= j < d.len() ==> is_digit(#[trigger] d[j]) {
                        lemma_digits_value_grows(d, i - start + 1);
                    }
                }
                return None;
            },
        }
        i = i + 1;
    }
    assert(d.take(d.len() as int) =~= d);
    Some(acc)
}

} // verus!
