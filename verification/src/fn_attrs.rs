//! The attributes on a handler or router function that add filters to its
//! route: `#[header("k", "v")]`, `#[body_size(max = "..")]` and
//! `#[cors(..)]`.

use vstd::prelude::*;
use crate::util::{chars_of, string_of};

verus! {

/// One setting of a `#[cors(..)]` attribute, with its values as written.
#[derive(Debug, Clone, PartialEq, Eq)]
pub enum CorsConfig {
    /// `origins(..)`
    Origins(Vec<String>),
    /// `methods(..)`
    Methods(Vec<String>),
    /// `headers(..)`
    Headers(Vec<String>),
    /// `max_age = ..`
    MaxAge(String),
    /// Anything else.
    Unknown,
}

/// An attribute on a handler or router function.
#[derive(Debug, Clone, PartialEq, Eq)]
pub enum FnAttr {
    /// `#[header("key", "value")]`, when given as two string literals.
    Header(Option<(String, String)>),
    /// `#[body_size(name = value)]`, with the name and the text of the
    /// value, when given so.
    BodySize(Option<(String, String)>),
    /// `#[cors(..)]`, with its settings when they can be read.
    Cors(Option<Vec<CorsConfig>>),
    /// Any other attribute.
    Other,
}

/// One step of building the cors filter.
#[derive(Debug, Clone, PartialEq, Eq)]
pub enum CorsStep {
    AnyOrigin,
    Origin(String),
    Method(String),
    Header(String),
    MaxAge(String),
}

/// Abstract value of a cors step.
pub enum CorsStepView {
    AnyOrigin,
    Origin(Seq<char>),
    Method(Seq<char>),
    Header(Seq<char>),
    MaxAge(Seq<char>),
}

impl View for CorsStep {
    type V = CorsStepView;

    open spec fn view(&self) -> CorsStepView {
        match self {
            CorsStep::AnyOrigin => CorsStepView::AnyOrigin,
            CorsStep::Origin(s) => CorsStepView::Origin(s@),
            CorsStep::Method(s) => CorsStepView::Method(s@),
            CorsStep::Header(s) => CorsStepView::Header(s@),
            CorsStep::MaxAge(s) => CorsStepView::MaxAge(s@),
        }
    }
}

/// The views of a list of cors steps.
pub open spec fn cors_step_views(v: Seq<CorsStep>) -> Seq<CorsStepView> {
    v.map_values(|s: CorsStep| s@)
}

/// A filter that an attribute adds to the route.
#[derive(Debug, Clone, PartialEq, Eq)]
pub enum RouteFilter {
    /// The request must carry this header with this value, compared without
    /// regard to case.
    ExactHeader(String, String),
    /// The body may be at most this long (the text of the limit).
    ContentLengthLimit(String),
    /// Cors handling built by these steps.
    Cors(Vec<CorsStep>),
}

/// Abstract value of a route filter.
pub enum RouteFilterView {
    ExactHeader(Seq<char>, Seq<char>),
    ContentLengthLimit(Seq<char>),
    Cors(Seq<CorsStepView>),
}

impl View for RouteFilter {
    type V = RouteFilterView;

    open spec fn view(&self) -> RouteFilterView {
        match self {
            RouteFilter::ExactHeader(k, v) => RouteFilterView::ExactHeader(k@, v@),
            RouteFilter::ContentLengthLimit(s) => RouteFilterView::ContentLengthLimit(s@),
            RouteFilter::Cors(steps) => RouteFilterView::Cors(cors_step_views(steps@)),
        }
    }
}

/// The views of a list of route filters.
pub open spec fn route_filter_views(v: Seq<RouteFilter>) -> Seq<RouteFilterView> {
    v.map_values(|f: RouteFilter| f@)
}

/// Why the attributes of a function cannot be compiled.
#[derive(Debug, Clone, Copy, PartialEq, Eq, Structural)]
pub enum FnAttrError {
    /// "failed to parser header"
    MalformedHeader,
    /// "Correct usage: #[body_size(max = \"8192\")]"
    MalformedBodySize,
    /// "Unknown configuration .. for #[body_size]"
    UnknownBodySizeConfig,
    /// A quoted limit too short to hold its quotes.
    MalformedLimit,
    /// The cors settings cannot be read, or one of them is unknown.
    MalformedCors,
}

/// The text of `*` written as a string literal.
pub open spec fn wildcard_origin() -> Seq<char> {
    seq!['"', '*', '"']
}

/// The steps of one cors setting.
pub open spec fn cors_config_steps(c: CorsConfig) -> Result<Seq<CorsStepView>, FnAttrError> {
    match c {
        CorsConfig::Origins(os) => Ok(
            os@.map_values(
                |o: String|
                    if o@ == wildcard_origin() {
                        CorsStepView::AnyOrigin
                    } else {
                        CorsStepView::Origin(o@)
                    },
            ),
        ),
        CorsConfig::Methods(ms) => Ok(ms@.map_values(|m: String| CorsStepView::Method(m@))),
        CorsConfig::Headers(hs) => Ok(hs@.map_values(|h: String| CorsStepView::Header(h@))),
        CorsConfig::MaxAge(v) => Ok(seq![CorsStepView::MaxAge(v@)]),
        CorsConfig::Unknown => Err(FnAttrError::MalformedCors),
    }
}

/// The steps of a list of cors settings, in order; an unknown setting
/// refuses the whole attribute.
pub open spec fn cors_steps(cs: Seq<CorsConfig>) -> Result<Seq<CorsStepView>, FnAttrError>
    decreases cs.len(),
{
    if cs.len() == 0 {
        Ok(Seq::empty())
    } else {
        match cors_steps(cs.drop_last()) {
            Err(e) => Err(e),
            Ok(s) => match cors_config_steps(cs.last()) {
                Err(e) => Err(e),
                Ok(t) => Ok(s + t),
            },
        }
    }
}

/// The limit that a `max` value gives: a quoted value without its first and
/// last character, any other as it is written.
pub open spec fn limit_text(v: Seq<char>) -> Result<Seq<char>, FnAttrError> {
    if v.len() > 0 && v[0] == '"' {
        if v.len() < 2 || !((v.last() as u32) < 128) {
            Err(FnAttrError::MalformedLimit)
        } else {
            Ok(v.subrange(1, v.len() - 1))
        }
    } else {
        Ok(v)
    }
}

/// What one attribute does: `None` when it stays on the function, the
/// filter it adds when it is taken off. Cors is handled only once the
/// handler's result is mapped (`emitted_map`).
pub open spec fn attr_filter(a: FnAttr, emitted_map: bool) -> Result<
    Option<RouteFilterView>,
    FnAttrError,
> {
    match a {
        FnAttr::Header(None) => Err(FnAttrError::MalformedHeader),
        FnAttr::Header(Some((k, v))) => Ok(Some(RouteFilterView::ExactHeader(k@, v@))),
        FnAttr::BodySize(None) => Err(FnAttrError::MalformedBodySize),
        FnAttr::BodySize(Some((name, v))) => if name@ == seq!['m', 'a', 'x'] {
            match limit_text(v@) {
                Err(e) => Err(e),
                Ok(t) => Ok(Some(RouteFilterView::ContentLengthLimit(t))),
            }
        } else {
            Err(FnAttrError::UnknownBodySizeConfig)
        },
        FnAttr::Cors(c) => if !emitted_map {
            Ok(None)
        } else {
            match c {
                None => Err(FnAttrError::MalformedCors),
                Some(cs) => match cors_steps(cs@) {
                    Err(e) => Err(e),
                    Ok(steps) => Ok(Some(RouteFilterView::Cors(steps))),
                },
            }
        },
        FnAttr::Other => Ok(None),
    }
}

/// The filters that the attributes add, in order, and the attributes that
/// stay, in order; the first refused attribute is the error.
pub open spec fn fn_attr_filters(attrs: Seq<FnAttr>, emitted_map: bool) -> Result<
    (Seq<RouteFilterView>, Seq<FnAttr>),
    FnAttrError,
>
    decreases attrs.len(),
{
    if attrs.len() == 0 {
        Ok((Seq::empty(), Seq::empty()))
    } else {
        match fn_attr_filters(attrs.drop_last(), emitted_map) {
            Err(e) => Err(e),
            Ok((fs, kept)) => match attr_filter(attrs.last(), emitted_map) {
                Err(e) => Err(e),
                Ok(Some(f)) => Ok((fs.push(f), kept)),
                Ok(None) => Ok((fs, kept.push(attrs.last()))),
            },
        }
    }
}

/// The steps of one cors setting.
fn config_steps(c: &CorsConfig, out: &mut Vec<CorsStep>) -> (r: Result<(), FnAttrError>)
    ensures
        r is Ok ==> (cors_config_steps(*c) matches Ok(t) && cors_step_views(final(out)@)
            == cors_step_views(old(out)@) + t),
        r matches Err(e) ==> cors_config_steps(*c) == Err::<Seq<CorsStepView>, FnAttrError>(e),
{
    let ghost before = cors_step_views(out@);
    match c {
        CorsConfig::Origins(os) => {
            let star = "\"*\"".to_owned();
            proof {
                reveal_strlit("\"*\"");
            }
            assert(star@ =~= wildcard_origin());
            let ghost t = os@.map_values(
                |o: String|
                    if o@ == wildcard_origin() {
                        CorsStepView::AnyOrigin
                    } else {
                        CorsStepView::Origin(o@)
                    },
            );
            let mut k: usize = 0;
            while k < os.len()
                invariant
                    k <= os@.len(),
                    star@ == wildcard_origin(),
                    t.len() == os@.len(),
                    forall|j: int| 0 <= j < os@.len() ==> #[trigger] t[j] == (if os@[j]@
                        == wildcard_origin() {
                        CorsStepView::AnyOrigin
                    } else {
                        CorsStepView::Origin(os@[j]@)
                    }),
                    cors_step_views(out@) =~= before + t.take(k as int),
                decreases os@.len() - k,
            {
                let ghost prev = out@;
                if os[k] == star {
                    out.push(CorsStep::AnyOrigin);
                } else {
                    out.push(CorsStep::Origin(os[k].clone()));
                }
                assert(cors_step_views(out@) =~= cors_step_views(prev).push(t[k as int]));
                assert(t.take(k + 1) =~= t.take(k as int).push(t[k as int]));
                k = k + 1;
            }
            assert(t.take(os@.len() as int) =~= t);
            Ok(())
        },
        CorsConfig::Methods(ms) => {
            let ghost t = ms@.map_values(|m: String| CorsStepView::Method(m@));
            let mut k: usize = 0;
            while k < ms.len()
                invariant
                    k <= ms@.len(),
                    t == ms@.map_values(|m: String| CorsStepView::Method(m@)),
                    cors_step_views(out@) =~= before + t.take(k as int),
                decreases ms@.len() - k,
            {
                let ghost prev = out@;
                out.push(CorsStep::Method(ms[k].clone()));
                assert(cors_step_views(out@) =~= cors_step_views(prev).push(t[k as int]));
                assert(t.take(k + 1) =~= t.take(k as int).push(t[k as int]));
                k = k + 1;
            }
            assert(t.take(ms@.len() as int) =~= t);
            Ok(())
        },
        CorsConfig::Headers(hs) => {
            let ghost t = hs@.map_values(|h: String| CorsStepView::Header(h@));
            let mut k: usize = 0;
            while k < hs.len()
                invariant
                    k <= hs@.len(),
                    t == hs@.map_values(|h: String| CorsStepView::Header(h@)),
                    cors_step_views(out@) =~= before + t.take(k as int),
                decreases hs@.len() - k,
            {
                let ghost prev = out@;
                out.push(CorsStep::Header(hs[k].clone()));
                assert(cors_step_views(out@) =~= cors_step_views(prev).push(t[k as int]));
                assert(t.take(k + 1) =~= t.take(k as int).push(t[k as int]));
                k = k + 1;
            }
            assert(t.take(hs@.len() as int) =~= t);
            Ok(())
        },
        CorsConfig::MaxAge(v) => {
            out.push(CorsStep::MaxAge(v.clone()));
            assert(cors_step_views(out@) =~= before + seq![CorsStepView::MaxAge(v@)]);
            Ok(())
        },
        CorsConfig::Unknown => Err(FnAttrError::MalformedCors),
    }
}

/// The steps of the cors settings, in order.
fn cors_of(cs: &Vec<CorsConfig>) -> (r: Result<Vec<CorsStep>, FnAttrError>)
    ensures
        r matches Ok(v) ==> cors_steps(cs@) == Ok::<Seq<CorsStepView>, FnAttrError>(
            cors_step_views(v@),
        ),
        r matches Err(e) ==> cors_steps(cs@) == Err::<Seq<CorsStepView>, FnAttrError>(e),
{
    let mut out: Vec<CorsStep> = Vec::new();
    let mut k: usize = 0;
    assert(cs@.take(0) =~= Seq::<CorsConfig>::empty());
    assert(cors_step_views(out@) =~= Seq::<CorsStepView>::empty());
    while k < cs.len()
        invariant
            k <= cs@.len(),
            cors_steps(cs@.take(k as int)) == Ok::<Seq<CorsStepView>, FnAttrError>(
                cors_step_views(out@),
            ),
        decreases cs@.len() - k,
    {
        assert(cs@.take(k + 1).drop_last() =~= cs@.take(k as int));
        assert(cs@.take(k + 1).last() == cs@[k as int]);
        match config_steps(&cs[k], &mut out) {
            Err(e) => {
                proof {
                    lemma_cors_error_stays(cs@, k + 1);
                }
                return Err(e);
            },
            Ok(()) => {},
        }
        k = k + 1;
    }
    assert(cs@.take(cs@.len() as int) =~= cs@);
    Ok(out)
}

/// Once a cors setting is refused, so is any longer list that starts with
/// the same settings.
proof fn lemma_cors_error_stays(cs: Seq<CorsConfig>, m: int)
    requires
        0 <= m <= cs.len(),
        cors_steps(cs.take(m)) is Err,
    ensures
        cors_steps(cs) == cors_steps(cs.take(m)),
    decreases cs.len(),
{
    if m == cs.len() {
        assert(cs.take(m) =~= cs);
    } else {
        assert(cs.drop_last().take(m) =~= cs.take(m));
        lemma_cors_error_stays(cs.drop_last(), m);
    }
}

/// The limit that a `max` value gives.
fn limit_of(v: &String) -> (r: Result<String, FnAttrError>)
    ensures
        r matches Ok(t) ==> limit_text(v@) == Ok::<Seq<char>, FnAttrError>(t@),
        r matches Err(e) ==> limit_text(v@) == Err::<Seq<char>, FnAttrError>(e),
{
    let cs = chars_of(v.as_str());
    if cs.len() > 0 && cs[0] == '"' {
        let n = cs.len();
        if n < 2 || !((cs[n - 1] as u32) < 128) {
            return Err(FnAttrError::MalformedLimit);
        }
        let mut inner: Vec<char> = Vec::new();
        let mut k: usize = 1;
        while k < n - 1
            invariant
                1 <= k <= n - 1,
                n == cs@.len(),
                inner@ =~= cs@.subrange(1, k as int),
            decreases n - 1 - k,
        {
            inner.push(cs[k]);
            k = k + 1;
        }
        Ok(string_of(inner.as_slice()))
    } else {
        Ok(v.clone())
    }
}

/// What one attribute does.
fn filter_of(a: &FnAttr, emitted_map: bool) -> (r: Result<Option<RouteFilter>, FnAttrError>)
    ensures
        r matches Ok(o) ==> attr_filter(*a, emitted_map) == Ok::<
            Option<RouteFilterView>,
            FnAttrError,
        >(
            match o {
                Some(f) => Some(f@),
                None => None,
            },
        ),
        r matches Err(e) ==> attr_filter(*a, emitted_map) == Err::<
            Option<RouteFilterView>,
            FnAttrError,
        >(e),
{
    match a {
        FnAttr::Header(None) => Err(FnAttrError::MalformedHeader),
        FnAttr::Header(Some((k, v))) => Ok(Some(RouteFilter::ExactHeader(k.clone(), v.clone()))),
        FnAttr::BodySize(None) => Err(FnAttrError::MalformedBodySize),
        FnAttr::BodySize(Some((name, v))) => {
            let max = "max".to_owned();
            proof {
                reveal_strlit("max");
            }
            assert(max@ =~= seq!['m', 'a', 'x']);
            if *name == max {
                match limit_of(v) {
                    Err(e) => Err(e),
                    Ok(t) => Ok(Some(RouteFilter::ContentLengthLimit(t))),
                }
            } else {
                Err(FnAttrError::UnknownBodySizeConfig)
            }
        },
        FnAttr::Cors(c) => {
            if !emitted_map {
                Ok(None)
            } else {
                match c {
                    None => Err(FnAttrError::MalformedCors),
                    Some(cs) => match cors_of(cs) {
                        Err(e) => Err(e),
                        Ok(steps) => Ok(Some(RouteFilter::Cors(steps))),
                    },
                }
            }
        },
        FnAttr::Other => Ok(None),
    }
}

/// Once an attribute is refused, so is any longer list that starts with
/// the same attributes.
proof fn lemma_attr_error_stays(attrs: Seq<FnAttr>, emitted_map: bool, m: int)
    requires
        0 <= m <= attrs.len(),
        fn_attr_filters(attrs.take(m), emitted_map) is Err,
    ensures
        fn_attr_filters(attrs, emitted_map) == fn_attr_filters(attrs.take(m), emitted_map),
    decreases attrs.len(),
{
    if m == attrs.len() {
        assert(attrs.take(m) =~= attrs);
    } else {
        assert(attrs.drop_last().take(m) =~= attrs.take(m));
        lemma_attr_error_stays(attrs.drop_last(), emitted_map, m);
    }
}

/// Compiles the attributes of a handler function into the filters they add
/// to its route, in order: each `#[header("k", "v")]` requires that header,
/// each `#[body_size(max = ..)]` limits the body, and, once the handler's
/// result is mapped (`emitted_map`), each `#[cors(..)]` adds cors handling.
/// Those attributes are taken off the function on success and the others
/// stay in their order; on failure the attributes are left as they were.
pub fn compile_fn_attrs(attrs: &mut Vec<FnAttr>, emitted_map: bool) -> (r: Result<
    Vec<RouteFilter>,
    FnAttrError,
>)
    ensures
        r matches Ok(fs) ==> (fn_attr_filters(old(attrs)@, emitted_map) matches Ok(p) && p.0
            == route_filter_views(fs@) && final(attrs)@ == p.1),
        r matches Err(e) ==> fn_attr_filters(old(attrs)@, emitted_map) == Err::<
            (Seq<RouteFilterView>, Seq<FnAttr>),
            FnAttrError,
        >(e),
        r is Err ==> final(attrs)@ == old(attrs)@,
{
    let ghost all = attrs@;
    let mut fs: Vec<RouteFilter> = Vec::new();
    let mut taken: Vec<bool> = Vec::new();
    let mut k: usize = 0;
    assert(all.take(0) =~= Seq::<FnAttr>::empty());
    assert(route_filter_views(fs@) =~= Seq::<RouteFilterView>::empty());
    while k < attrs.len()
        invariant
            k <= all.len(),
            all == attrs@,
            all == old(attrs)@,
            taken@.len() == k,
            fn_attr_filters(all.take(k as int), emitted_map) matches Ok(p) && p.0
                == route_filter_views(fs@) && p.1 == kept_of(all.take(k as int), taken@),
        decreases all.len() - k,
    {
        let ghost pre = all.take(k as int);
        assert(all.take(k + 1).drop_last() =~= pre);
        assert(all.take(k + 1).last() == all[k as int]);
        match filter_of(&attrs[k], emitted_map) {
            Err(e) => {
                proof {
                    lemma_attr_error_stays(all, emitted_map, k + 1);
                }
                return Err(e);
            },
            Ok(Some(f)) => {
                let ghost prev = fs@;
                fs.push(f);
                assert(route_filter_views(fs@) =~= route_filter_views(prev).push(f@));
                let ghost t0 = taken@;
                taken.push(true);
                assert(taken@.drop_last() =~= t0);
            },
            Ok(None) => {
                let ghost t0 = taken@;
                taken.push(false);
                assert(taken@.drop_last() =~= t0);
            },
        }
        k = k + 1;
    }
    assert(all.take(all.len() as int) =~= all);
    let total: usize = attrs.len();
    let mut pending: Vec<FnAttr> = Vec::new();
    std::mem::swap(attrs, &mut pending);
    let mut j: usize = 0;
    while pending.len() > 0
        invariant
            j <= all.len(),
            all.len() == total,
            taken@.len() == all.len(),
            pending@ == all.skip(j as int),
            pending@.len() == all.len() - j,
            attrs@ == kept_of(all.take(j as int), taken@.take(j as int)),
        decreases pending@.len(),
    {
        let a = pending.remove(0);
        assert(all.take(j + 1).drop_last() =~= all.take(j as int));
        assert(taken@.take(j + 1).drop_last() =~= taken@.take(j as int));
        assert(all.take(j + 1).last() == a);
        assert(pending@ =~= all.skip(j + 1));
        if !taken[j] {
            attrs.push(a);
        }
        j = j + 1;
    }
    assert(taken@.take(all.len() as int) =~= taken@);
    Ok(fs)
}

/// The attributes whose flag is not set, in order.
pub open spec fn kept_of(attrs: Seq<FnAttr>, taken: Seq<bool>) -> Seq<FnAttr>
    decreases attrs.len(),
{
    if attrs.len() == 0 {
        Seq::empty()
    } else if taken.len() == attrs.len() && taken.last() {
        kept_of(attrs.drop_last(), taken.drop_last())
    } else {
        kept_of(attrs.drop_last(), taken.drop_last()).push(attrs.last())
    }
}

/// Compiles the attributes of a router item: as for a handler before its
/// result is mapped, so `#[cors(..)]` stays.
pub fn compile_item_attrs(attrs: &mut Vec<FnAttr>) -> (r: Result<Vec<RouteFilter>, FnAttrError>)
    ensures
        r matches Ok(fs) ==> (fn_attr_filters(old(attrs)@, false) matches Ok(p) && p.0
            == route_filter_views(fs@) && final(attrs)@ == p.1),
        r matches Err(e) ==> fn_attr_filters(old(attrs)@, false) == Err::<
            (Seq<RouteFilterView>, Seq<FnAttr>),
            FnAttrError,
        >(e),
        r is Err ==> final(attrs)@ == old(attrs)@,
{
    compile_fn_attrs(attrs, false)
}

/// Compiling the attributes is idempotent: the attributes that stay add no
/// filter and all stay when they are compiled again the same way.
pub proof fn compile_fn_attrs_idempotent(attrs: Seq<FnAttr>, emitted_map: bool)
    ensures
        fn_attr_filters(attrs, emitted_map) matches Ok(p) ==> fn_attr_filters(p.1, emitted_map)
            == Ok::<(Seq<RouteFilterView>, Seq<FnAttr>), FnAttrError>((Seq::empty(), p.1)),
    decreases attrs.len(),
{
    if attrs.len() > 0 {
        compile_fn_attrs_idempotent(attrs.drop_last(), emitted_map);
        if let Ok(p) = fn_attr_filters(attrs.drop_last(), emitted_map) {
            let kept = p.1;
            if let Ok(None) = attr_filter(attrs.last(), emitted_map) {
                let k2 = kept.push(attrs.last());
                assert(k2.drop_last() =~= kept);
                assert(k2.last() == attrs.last());
            }
        }
    }
}

} // verus!
