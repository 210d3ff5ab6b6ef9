//! Compiling a route path into its segments, each parameter bound to the
//! handler argument of its name.

use vstd::prelude::*;
use crate::util::{chars_of, string_of};

verus! {

/// A segment of a route path: a literal piece, or a parameter bound to the
/// handler argument at `index`.
#[derive(Debug, Clone, PartialEq, Eq)]
pub enum Segment {
    Literal(String),
    Param { name: String, index: usize },
}

/// Abstract value of a segment.
pub enum SegmentView {
    Literal(Seq<char>),
    Param { name: Seq<char>, index: int },
}

impl View for Segment {
    type V = SegmentView;

    open spec fn view(&self) -> SegmentView {
        match self {
            Segment::Literal(s) => SegmentView::Literal(s@),
            Segment::Param { name, index } => SegmentView::Param { name: name@, index: *index as int },
        }
    }
}

/// Why a route path is refused.
#[derive(Debug, Clone, PartialEq, Eq)]
pub enum RoutePathError {
    /// "Path should start with /"
    MissingLeadingSlash,
    /// "A route containing `//` doesn't make sense"
    DoubleSlash,
    /// A parameter segment too short to hold a name, or whose last character
    /// is not ASCII.
    MalformedParam(String),
    /// "path parameters are not allowed here"
    ParamNotAllowed(String),
    /// "failed to find parameter named `..`"
    UnknownParam(String),
}

/// Abstract value of a route path error.
pub enum RoutePathErrorView {
    MissingLeadingSlash,
    DoubleSlash,
    MalformedParam(Seq<char>),
    ParamNotAllowed(Seq<char>),
    UnknownParam(Seq<char>),
}

impl View for RoutePathError {
    type V = RoutePathErrorView;

    open spec fn view(&self) -> RoutePathErrorView {
        match self {
            RoutePathError::MissingLeadingSlash => RoutePathErrorView::MissingLeadingSlash,
            RoutePathError::DoubleSlash => RoutePathErrorView::DoubleSlash,
            RoutePathError::MalformedParam(s) => RoutePathErrorView::MalformedParam(s@),
            RoutePathError::ParamNotAllowed(s) => RoutePathErrorView::ParamNotAllowed(s@),
            RoutePathError::UnknownParam(s) => RoutePathErrorView::UnknownParam(s@),
        }
    }
}

/// The finished non-empty pieces of a path between slashes, and the piece
/// being read.
pub open spec fn scan_segments(p: Seq<char>) -> (Seq<Seq<char>>, Seq<char>)
    decreases p.len(),
{
    if p.len() == 0 {
        (Seq::empty(), Seq::empty())
    } else {
        let (done, cur) = scan_segments(p.drop_last());
        if p.last() == '/' {
            if cur.len() > 0 {
                (done.push(cur), Seq::empty())
            } else {
                (done, Seq::empty())
            }
        } else {
            (done, cur.push(p.last()))
        }
    }
}

/// The non-empty pieces of a path between slashes, in order.
pub open spec fn path_segments(p: Seq<char>) -> Seq<Seq<char>> {
    let (done, cur) = scan_segments(p);
    if cur.len() > 0 {
        done.push(cur)
    } else {
        done
    }
}

/// Whether the path holds two slashes in a row.
pub open spec fn has_double_slash(p: Seq<char>) -> bool {
    exists|i: int| 0 <= i && i + 1 < p.len() && p[i] == '/' && #[trigger] p[i + 1] == '/'
}

/// The position of the first handler argument with the given name.
pub open spec fn param_index(params: Seq<Option<Seq<char>>>, name: Seq<char>) -> Option<int>
    decreases params.len(),
{
    if params.len() == 0 {
        None
    } else if params[0] == Some(name) {
        Some(0)
    } else {
        match param_index(params.drop_first(), name) {
            Some(i) => Some(i + 1),
            None => None,
        }
    }
}

/// A parameter is bound to an argument that bears its name, and to the first
/// such argument.
pub proof fn param_binds_named_argument(params: Seq<Option<Seq<char>>>, name: Seq<char>)
    ensures
        param_index(params, name) matches Some(i) ==> {
            &&& 0 <= i < params.len()
            &&& params[i] == Some(name)
            &&& forall|j: int| 0 <= j < i ==> params[j] != Some(name)
        },
        param_index(params, name) is None ==> forall|j: int| 0 <= j < params.len() ==> params[j]
            != Some(name),
    decreases params.len(),
{
    if params.len() > 0 && params[0] != Some(name) {
        param_binds_named_argument(params.drop_first(), name);
        assert forall|j: int| 1 <= j < params.len() implies params[j] == params.drop_first()[j - 1] by {}
    }
}

/// How one segment compiles: a segment starting with `{` names a parameter
/// by what lies between its first and last character.
pub open spec fn compile_segment(seg: Seq<char>, params: Option<Seq<Option<Seq<char>>>>) -> Result<
    SegmentView,
    RoutePathErrorView,
> {
    if seg.len() > 0 && seg[0] == '{' {
        if seg.len() < 2 || !((seg.last() as u32) < 128) {
            Err(RoutePathErrorView::MalformedParam(seg))
        } else {
            let name = seg.subrange(1, seg.len() - 1);
            match params {
                None => Err(RoutePathErrorView::ParamNotAllowed(name)),
                Some(ps) => match param_index(ps, name) {
                    None => Err(RoutePathErrorView::UnknownParam(name)),
                    Some(i) => Ok(SegmentView::Param { name, index: i }),
                },
            }
        }
    } else {
        Ok(SegmentView::Literal(seg))
    }
}

/// How a list of segments compiles: the first failing segment decides.
pub open spec fn compile_segments(
    segs: Seq<Seq<char>>,
    params: Option<Seq<Option<Seq<char>>>>,
) -> Result<Seq<SegmentView>, RoutePathErrorView>
    decreases segs.len(),
{
    if segs.len() == 0 {
        Ok(Seq::empty())
    } else {
        match compile_segment(segs[0], params) {
            Err(e) => Err(e),
            Ok(s) => match compile_segments(segs.drop_first(), params) {
                Err(e) => Err(e),
                Ok(rest) => Ok(seq![s] + rest),
            },
        }
    }
}

/// How a route path compiles.
pub open spec fn compiled_path(p: Seq<char>, params: Option<Seq<Option<Seq<char>>>>) -> Result<
    Seq<SegmentView>,
    RoutePathErrorView,
> {
    if !(p.len() > 0 && p[0] == '/') {
        Err(RoutePathErrorView::MissingLeadingSlash)
    } else if has_double_slash(p) {
        Err(RoutePathErrorView::DoubleSlash)
    } else {
        compile_segments(path_segments(p), params)
    }
}

/// A trailing slash is ignored: a path and the same path with one `/` added
/// compile alike (with the same arguments), unless the path is empty or
/// already ends with `/` (then the added slash makes `//`).
pub proof fn trailing_slash_is_ignored(p: Seq<char>, params: Option<Seq<Option<Seq<char>>>>)
    requires
        p.len() > 0,
        p.last() != '/',
    ensures
        compiled_path(p.push('/'), params) == compiled_path(p, params),
{
    let q = p.push('/');
    assert(q.drop_last() =~= p);
    assert(q[0] == p[0]);
    if has_double_slash(q) {
        let i = choose|i: int| 0 <= i && i + 1 < q.len() && q[i] == '/' && #[trigger] q[i + 1] == '/';
        assert(i + 1 < p.len());
        assert(p[i] == '/' && p[i + 1] == '/');
        assert(has_double_slash(p));
    }
    if has_double_slash(p) {
        let i = choose|i: int| 0 <= i && i + 1 < p.len() && p[i] == '/' && #[trigger] p[i + 1] == '/';
        assert(q[i] == '/' && q[i + 1] == '/');
        assert(has_double_slash(q));
    }
    assert(path_segments(q) == path_segments(p));
}

/// The views of the argument names of a handler (`None` for an argument
/// that is not a plain identifier).
pub open spec fn name_views(v: Seq<Option<String>>) -> Seq<Option<Seq<char>>> {
    v.map_values(|o: Option<String>| match o {
        Some(s) => Some(s@),
        None => None,
    })
}

/// The views of compiled segments.
pub open spec fn segment_views(v: Seq<Segment>) -> Seq<SegmentView> {
    v.map_values(|s: Segment| s@)
}

/// The pieces of a path between slashes, empty ones left out.
pub fn split_path(p: &[char]) -> (r: Vec<Vec<char>>)
    ensures
        r@.len() == path_segments(p@).len(),
        forall|k: int| 0 <= k < r@.len() ==> #[trigger] r@[k]@ == path_segments(p@)[k],
{
    let mut done: Vec<Vec<char>> = Vec::new();
    let mut cur: Vec<char> = Vec::new();
    let mut i: usize = 0;
    assert(p@.take(0) =~= Seq::<char>::empty());
    while i < p.len()
        invariant
            i <= p@.len(),
            done@.len() == scan_segments(p@.take(i as int)).0.len(),
            forall|k: int| 0 <= k < done@.len() ==> #[trigger] done@[k]@ == scan_segments(
                p@.take(i as int),
            ).0[k],
            cur@ == scan_segments(p@.take(i as int)).1,
        decreases p@.len() - i,
    {
        assert(p@.take(i + 1).drop_last() =~= p@.take(i as int));
        if p[i] == '/' {
            if cur.len() > 0 {
                let mut finished: Vec<char> = Vec::new();
                std::mem::swap(&mut cur, &mut finished);
                done.push(finished);
            }
        } else {
            cur.push(p[i]);
        }
        i = i + 1;
    }
    assert(p@.take(p@.len() as int) =~= p@);
    if cur.len() > 0 {
        done.push(cur);
    }
    done
}

/// Whether two character slices are equal.
pub(crate) fn same_chars(a: &[char], b: &[char]) -> (r: bool)
    ensures
        r == (a@ == b@),
{
    if a.len() != b.len() {
        return false;
    }
    let mut i: usize = 0;
    while i < a.len()
        invariant
            a@.len() == b@.len(),
            i <= a@.len(),
            forall|j: int| 0 <= j < i ==> a@[j] == b@[j],
        decreases a@.len() - i,
    {
        if a[i] != b[i] {
            return false;
        }
        i = i + 1;
    }
    assert(a@ =~= b@);
    true
}

/// The position of the first argument with the given name.
fn find_param(params: &Vec<Option<String>>, name: &[char]) -> (r: Option<usize>)
    ensures
        r matches Some(i) ==> param_index(name_views(params@), name@) == Some(i as int),
        r is None ==> param_index(name_views(params@), name@) is None,
{
    let mut i: usize = 0;
    let ghost ps = name_views(params@);
    assert(ps.skip(0) =~= ps);
    while i < params.len()
        invariant
            i <= params@.len(),
            ps == name_views(params@),
            ps.len() == params@.len(),
            forall|j: int| 0 <= j < i ==> ps[j] != Some(name@),
            param_index(ps, name@) == (match param_index(ps.skip(i as int), name@) {
                Some(k) => Some(k + i),
                None => None,
            }),
        decreases params@.len() - i,
    {
        let ghost rest = ps.skip(i as int);
        assert(rest[0] == ps[i as int]);
        assert(rest.drop_first() =~= ps.skip(i + 1));
        let found = match &params[i] {
            Some(s) => {
                let cs = chars_of(s.as_str());
                same_chars(cs.as_slice(), name)
            },
            None => false,
        };
        if found {
            return Some(i);
        }
        i = i + 1;
    }
    None
}

/// Compiles one segment.
fn compile_one(seg: &Vec<char>, params: Option<&Vec<Option<String>>>) -> (r: Result<
    Segment,
    RoutePathError,
>)
    ensures
        r matches Ok(s) ==> compile_segment(
            seg@,
            match params {
                Some(ps) => Some(name_views(ps@)),
                None => None,
            },
        ) == Ok::<SegmentView, RoutePathErrorView>(s@),
        r matches Err(e) ==> compile_segment(
            seg@,
            match params {
                Some(ps) => Some(name_views(ps@)),
                None => None,
            },
        ) == Err::<SegmentView, RoutePathErrorView>(e@),
{
    if seg.len() > 0 && seg[0] == '{' {
        let n = seg.len();
        if n < 2 || !((seg[n - 1] as u32) < 128) {
            return Err(RoutePathError::MalformedParam(string_of(seg.as_slice())));
        }
        let mut name: Vec<char> = Vec::new();
        let mut k: usize = 1;
        while k < n - 1
            invariant
                1 <= k <= n - 1,
                n == seg@.len(),
                name@ =~= seg@.subrange(1, k as int),
            decreases n - 1 - k,
        {
            name.push(seg[k]);
            k = k + 1;
        }
        match params {
            None => Err(RoutePathError::ParamNotAllowed(string_of(name.as_slice()))),
            Some(ps) => match find_param(ps, name.as_slice()) {
                None => Err(RoutePathError::UnknownParam(string_of(name.as_slice()))),
                Some(i) => Ok(Segment::Param { name: string_of(name.as_slice()), index: i }),
            },
        }
    } else {
        Ok(Segment::Literal(string_of(seg.as_slice())))
    }
}

/// Compiles a route path against the names of the handler's arguments
/// (`None` where no path parameters are allowed): the path must start with
/// `/` and hold no `//`; each non-empty piece between slashes becomes a
/// literal segment, or, when it starts with `{`, the parameter bound to the
/// first argument of that name.
pub fn compile_path(path: &str, params: Option<&Vec<Option<String>>>) -> (r: Result<
    Vec<Segment>,
    RoutePathError,
>)
    ensures
        r matches Ok(v) ==> compiled_path(
            path@,
            match params {
                Some(ps) => Some(name_views(ps@)),
                None => None,
            },
        ) == Ok::<Seq<SegmentView>, RoutePathErrorView>(segment_views(v@)),
        r matches Err(e) ==> compiled_path(
            path@,
            match params {
                Some(ps) => Some(name_views(ps@)),
                None => None,
            },
        ) == Err::<Seq<SegmentView>, RoutePathErrorView>(e@),
{
    let ghost pv = match params {
        Some(ps) => Some(name_views(ps@)),
        None => None,
    };
    let p = chars_of(path);
    if !(p.len() > 0 && p[0] == '/') {
        return Err(RoutePathError::MissingLeadingSlash);
    }
    let mut i: usize = 0;
    let last = p.len() - 1;
    while i < last
        invariant
            p@ == path@,
            last + 1 == p@.len(),
            i <= last,
            p@[0] == '/',
            forall|j: int| 0 <= j < i && j + 1 < p@.len() ==> !(p@[j] == '/' && #[trigger] p@[j + 1] == '/'),
        decreases p@.len() - i,
    {
        if p[i] == '/' && p[i + 1] == '/' {
            assert(p@[i + 1 as int] == '/');
            assert(has_double_slash(p@));
            return Err(RoutePathError::DoubleSlash);
        }
        i = i + 1;
    }
    assert(!has_double_slash(p@)) by {
        if has_double_slash(p@) {
            let j = choose|j: int| 0 <= j && j + 1 < p@.len() && p@[j] == '/' && #[trigger] p@[j + 1] == '/';
            assert(j < i);
        }
    }
    let segs = split_path(p.as_slice());
    let ghost sv = path_segments(p@);
    let mut out: Vec<Segment> = Vec::new();
    let mut k: usize = 0;
    assert(sv.skip(0) =~= sv);
    while k < segs.len()
        invariant
            k <= segs@.len(),
            segs@.len() == sv.len(),
            sv == path_segments(path@),
            path@.len() > 0 && path@[0] == '/',
            !has_double_slash(path@),
            forall|j: int| 0 <= j < segs@.len() ==> #[trigger] segs@[j]@ == sv[j],
            pv == (match params {
                Some(ps) => Some(name_views(ps@)),
                None => None,
            }),
            compile_segments(sv, pv) == (match compile_segments(sv.skip(k as int), pv) {
                Ok(rest) => Ok(segment_views(out@) + rest),
                Err(e) => Err(e),
            }),
        decreases segs@.len() - k,
    {
        let ghost rest = sv.skip(k as int);
        assert(rest[0] == sv[k as int]);
        assert(rest.drop_first() =~= sv.skip(k + 1));
        match compile_one(&segs[k], params) {
            Err(e) => {
                return Err(e);
            },
            Ok(s) => {
                let ghost before = out@;
                out.push(s);
                assert(segment_views(out@) =~= segment_views(before) + seq![s@]);
                proof {
                    match compile_segments(sv.skip(k + 1), pv) {
                        Ok(r2) => {
                            assert(segment_views(before) + (seq![s@] + r2) =~= segment_views(
                                out@,
                            ) + r2);
                        },
                        Err(_) => {},
                    }
                }
            },
        }
        k = k + 1;
    }
    assert(sv.skip(segs@.len() as int) =~= Seq::<Seq<char>>::empty());
    assert(segment_views(out@) + Seq::<SegmentView>::empty() =~= segment_views(out@));
    Ok(out)
}


/// A filter in the chain a compiled path builds: the filter the chain starts
/// from (a route's method filter), a literal segment, a parameter read as the
/// type of the handler argument at `index`, or the end of the path.
#[derive(Debug, Clone, PartialEq, Eq)]
pub enum PathFilter {
    Base,
    Literal(String),
    Param { index: usize },
    End,
}

/// Abstract value of a path filter.
pub enum PathFilterView {
    Base,
    Literal(Seq<char>),
    Param { index: int },
    End,
}

impl View for PathFilter {
    type V = PathFilterView;

    open spec fn view(&self) -> PathFilterView {
        match self {
            PathFilter::Base => PathFilterView::Base,
            PathFilter::Literal(s) => PathFilterView::Literal(s@),
            PathFilter::Param { index } => PathFilterView::Param { index: *index as int },
            PathFilter::End => PathFilterView::End,
        }
    }
}

/// The views of path filters.
pub open spec fn path_filter_views(v: Seq<PathFilter>) -> Seq<PathFilterView> {
    v.map_values(|f: PathFilter| f@)
}

/// The filter of a segment.
pub open spec fn segment_filter(s: SegmentView) -> PathFilterView {
    match s {
        SegmentView::Literal(l) => PathFilterView::Literal(l),
        SegmentView::Param { name, index } => PathFilterView::Param { index },
    }
}

/// The chain of filters of a compiled path, joined with `and`: the base
/// filter when there is one, the filter of each segment in order, and the
/// end of the path when the path must match exactly.
pub open spec fn path_filters(base: bool, segs: Seq<SegmentView>, end: bool) -> Seq<PathFilterView> {
    (if base {
        seq![PathFilterView::Base]
    } else {
        Seq::empty()
    }) + segs.map_values(|s: SegmentView| segment_filter(s)) + (if end {
        seq![PathFilterView::End]
    } else {
        Seq::empty()
    })
}

/// Builds the chain of filters of a compiled path.
pub fn path_filter_chain(base: bool, segs: &Vec<Segment>, end: bool) -> (r: Vec<PathFilter>)
    ensures
        path_filter_views(r@) == path_filters(base, segment_views(segs@), end),
{
    let ghost sv = segment_views(segs@);
    let mut out: Vec<PathFilter> = Vec::new();
    if base {
        out.push(PathFilter::Base);
    }
    let ghost start = path_filter_views(out@);
    let mut i: usize = 0;
    while i < segs.len()
        invariant
            i <= segs@.len(),
            sv == segment_views(segs@),
            path_filter_views(out@) == start + sv.take(i as int).map_values(
                |s: SegmentView| segment_filter(s),
            ),
        decreases segs@.len() - i,
    {
        let ghost before = out@;
        let f = match &segs[i] {
            Segment::Literal(l) => PathFilter::Literal(l.clone()),
            Segment::Param { name: _, index } => PathFilter::Param { index: *index },
        };
        assert(f@ == segment_filter(sv[i as int]));
        out.push(f);
        assert(path_filter_views(out@) =~= path_filter_views(before).push(f@));
        assert(sv.take(i + 1).map_values(|s: SegmentView| segment_filter(s)) =~= sv.take(
            i as int,
        ).map_values(|s: SegmentView| segment_filter(s)).push(segment_filter(sv[i as int])));
        i = i + 1;
    }
    assert(sv.take(segs@.len() as int) =~= sv);
    let ghost before = out@;
    if end {
        out.push(PathFilter::End);
        assert(path_filter_views(out@) =~= path_filter_views(before).push(PathFilterView::End));
    }
    assert(path_filter_views(out@) =~= path_filters(base, sv, end));
    out
}

/// A path that must match exactly builds the same chain as one that need
/// not, followed by the end of the path.
pub proof fn end_filter_comes_last(base: bool, segs: Seq<SegmentView>)
    ensures
        path_filters(base, segs, true) == path_filters(base, segs, false).push(PathFilterView::End),
{
    assert(path_filters(base, segs, true) =~= path_filters(base, segs, false).push(
        PathFilterView::End,
    ));
}

} // verus!
