//! How the arguments of a route handler are read from a request: path
//! parameters are moved to the positions of the segments that bind them,
//! unmarked arguments are read by their type, and marked arguments by the
//! filter their mark names.

use vstd::prelude::*;
use crate::util::{chars_of};
use crate::route::same_chars;

verus! {

/// The attribute on a handler argument, as far as the route macros read it.
#[derive(Debug, Clone, PartialEq, Eq)]
pub enum ArgMark {
    /// `#[json]`
    Json,
    /// `#[form]`
    Form,
    /// `#[body]`
    Body,
    /// `#[query]`
    Query,
    /// `#[cookie = ".."]`, with the name when it is given as a string.
    Cookie(Option<String>),
    /// `#[header = ".."]`, with the name when it is given as a string.
    Header(Option<String>),
    /// `#[filter = ".."]`, with the path of the filter function.
    Filter(String),
    /// `#[data]`
    Data,
    /// Any other attribute.
    Other,
}

/// An argument of a handler: whether it is `self`, the identifier it binds
/// when its pattern is a plain identifier, the text of its type, whether
/// that type is `()`, and its attributes.
#[derive(Debug, Clone, PartialEq, Eq)]
pub struct HandlerInput {
    pub receiver: bool,
    pub ident: Option<String>,
    pub rust_type: String,
    pub unit_type: bool,
    pub marks: Vec<ArgMark>,
}

/// A filter that reads one value from a request.
#[derive(Debug, Clone, PartialEq, Eq)]
pub enum Extraction {
    /// The type's own way of reading itself from a request.
    FromRequest(String),
    /// The body as a url-encoded form.
    Form,
    /// The body as json.
    Json,
    /// The body as bytes.
    Bytes,
    /// The raw query string.
    RawQuery,
    /// The cookie of that name.
    Cookie(String),
    /// The header of that name.
    Header(String),
    /// The filter function at that path.
    Filter(String),
    /// The shared data held in the variable of that name.
    Provider(String),
}

/// Abstract value of an extraction.
pub enum ExtractionView {
    FromRequest(Seq<char>),
    Form,
    Json,
    Bytes,
    RawQuery,
    Cookie(Seq<char>),
    Header(Seq<char>),
    Filter(Seq<char>),
    Provider(Seq<char>),
}

impl View for Extraction {
    type V = ExtractionView;

    open spec fn view(&self) -> ExtractionView {
        match self {
            Extraction::FromRequest(t) => ExtractionView::FromRequest(t@),
            Extraction::Form => ExtractionView::Form,
            Extraction::Json => ExtractionView::Json,
            Extraction::Bytes => ExtractionView::Bytes,
            Extraction::RawQuery => ExtractionView::RawQuery,
            Extraction::Cookie(n) => ExtractionView::Cookie(n@),
            Extraction::Header(n) => ExtractionView::Header(n@),
            Extraction::Filter(p) => ExtractionView::Filter(p@),
            Extraction::Provider(n) => ExtractionView::Provider(n@),
        }
    }
}

/// The views of a list of extractions.
pub open spec fn extraction_views(v: Seq<Extraction>) -> Seq<ExtractionView> {
    v.map_values(|e: Extraction| e@)
}

/// What the arguments of a handler compile to: the filters, in order; the
/// arguments the handler is called with, as positions in its signature; the
/// types read by their own way; and the arguments that hold shared data.
#[derive(Debug, Clone, PartialEq, Eq)]
pub struct CompiledParams {
    pub filters: Vec<Extraction>,
    pub inputs: Vec<usize>,
    pub from_request_types: Vec<String>,
    pub data_inputs: Vec<usize>,
}

/// Abstract value of compiled arguments.
pub struct CompiledParamsView {
    pub filters: Seq<ExtractionView>,
    pub inputs: Seq<int>,
    pub from_request_types: Seq<Seq<char>>,
    pub data_inputs: Seq<int>,
}

/// The views of a list of strings.
pub open spec fn text_views(v: Seq<String>) -> Seq<Seq<char>> {
    v.map_values(|s: String| s@)
}

/// The views of a list of positions.
pub open spec fn position_views(v: Seq<usize>) -> Seq<int> {
    v.map_values(|i: usize| i as int)
}

impl View for CompiledParams {
    type V = CompiledParamsView;

    open spec fn view(&self) -> CompiledParamsView {
        CompiledParamsView {
            filters: extraction_views(self.filters@),
            inputs: position_views(self.inputs@),
            from_request_types: text_views(self.from_request_types@),
            data_inputs: position_views(self.data_inputs@),
        }
    }
}

/// Why the arguments of a handler cannot be compiled.
#[derive(Debug, Clone, Copy, PartialEq, Eq, Structural)]
pub enum ParamError {
    /// A path variable names a position that the signature does not have.
    PathVarOutOfRange,
    /// "rweb currently support only one attribute on a parameter"
    TooManyMarks,
    /// "#[cookie = \"foo\"] is used incorrectly"
    MalformedCookie,
    /// "invalid usage of header"
    MalformedHeader,
    /// "#[data] with complex pattern"
    ComplexDataPattern,
}

/// Where each argument of the handler is taken from after the path
/// variables were put in place, and which positions hold path variables.
pub struct Arrangement {
    pub order: Seq<int>,
    pub path_params: Set<int>,
}

/// The views of path variables: each name with the position of the argument
/// it binds.
pub open spec fn var_views(v: Seq<(String, usize)>) -> Seq<(Seq<char>, int)> {
    v.map_values(|x: (String, usize)| (x.0@, x.1 as int))
}

/// The names that path variables can bind: the identifier of each argument
/// that is not `self`.
pub open spec fn input_names(args: Seq<HandlerInput>) -> Seq<Option<Seq<char>>> {
    args.map_values(
        |a: HandlerInput|
            if a.receiver {
                None
            } else {
                match a.ident {
                    Some(s) => Some(s@),
                    None => None,
                }
            },
    )
}

/// The type texts of the arguments of a handler.
pub open spec fn input_types(args: Seq<HandlerInput>) -> Seq<Seq<char>> {
    args.map_values(|a: HandlerInput| a.rust_type@)
}

/// Whether an argument is the one that a path variable of that name binds.
pub open spec fn binds(a: HandlerInput, name: Seq<char>) -> bool {
    !a.receiver && (a.ident matches Some(s) && s@ == name)
}

/// The arrangement after the path variables, in order: the variable at
/// position `k` bound to the argument at `idx` exchanges the arguments at
/// `k` and `idx` of the signature as written; a variable whose argument does
/// not bind it changes nothing.
pub open spec fn arrange(args: Seq<HandlerInput>, vars: Seq<(Seq<char>, int)>) -> Result<
    Arrangement,
    ParamError,
>
    decreases vars.len(),
{
    if vars.len() == 0 {
        Ok(Arrangement { order: Seq::new(args.len(), |i: int| i), path_params: Set::empty() })
    } else {
        match arrange(args, vars.drop_last()) {
            Err(e) => Err(e),
            Ok(a) => {
                let k = vars.len() - 1;
                let name = vars.last().0;
                let idx = vars.last().1;
                if !(0 <= idx < args.len()) {
                    Err(ParamError::PathVarOutOfRange)
                } else if !binds(args[idx], name) {
                    Ok(a)
                } else if k >= args.len() {
                    Err(ParamError::PathVarOutOfRange)
                } else {
                    Ok(
                        Arrangement {
                            order: a.order.update(k, idx).update(idx, k),
                            path_params: a.path_params.insert(k),
                        },
                    )
                }
            },
        }
    }
}

/// Nothing compiled yet.
pub open spec fn no_params() -> CompiledParamsView {
    CompiledParamsView {
        filters: Seq::empty(),
        inputs: Seq::empty(),
        from_request_types: Seq::empty(),
        data_inputs: Seq::empty(),
    }
}

/// The filter that a mark adds, and whether the argument holds shared data.
pub open spec fn mark_filter(a: HandlerInput, m: ArgMark, provide: bool) -> Result<
    (Option<ExtractionView>, bool),
    ParamError,
> {
    match m {
        ArgMark::Form => Ok((Some(ExtractionView::Form), false)),
        ArgMark::Json => Ok((Some(ExtractionView::Json), false)),
        ArgMark::Body => Ok((Some(ExtractionView::Bytes), false)),
        ArgMark::Query => Ok((Some(ExtractionView::RawQuery), false)),
        ArgMark::Cookie(Some(n)) => Ok((Some(ExtractionView::Cookie(n@)), false)),
        ArgMark::Cookie(None) => Err(ParamError::MalformedCookie),
        ArgMark::Header(Some(n)) => Ok((Some(ExtractionView::Header(n@)), false)),
        ArgMark::Header(None) => Err(ParamError::MalformedHeader),
        ArgMark::Filter(p) => Ok((Some(ExtractionView::Filter(p@)), false)),
        ArgMark::Data => match a.ident {
            None => Err(ParamError::ComplexDataPattern),
            Some(i) => Ok(
                (
                    if provide {
                        Some(ExtractionView::Provider(i@))
                    } else {
                        None
                    },
                    true,
                ),
            ),
        },
        ArgMark::Other => Ok((None, false)),
    }
}

/// Whether an argument carries an attribute that the route macros read.
pub open spec fn has_rweb_mark(a: HandlerInput) -> bool {
    exists|j: int| 0 <= j < a.marks.len() && !(#[trigger] a.marks@[j] is Other)
}

/// How one argument, taken from position `src` of the signature, adds to
/// what was compiled: a path variable is passed as it is; `self` is left
/// out; an unmarked argument is read by its type; an argument whose
/// attributes are none of rweb's is passed as it is; otherwise its single
/// attribute adds its filter, and the argument is passed unless its type is
/// `()`.
pub open spec fn take_arg(
    c: CompiledParamsView,
    a: HandlerInput,
    src: int,
    is_path: bool,
    provide: bool,
) -> Result<CompiledParamsView, ParamError> {
    if is_path {
        Ok(CompiledParamsView { inputs: c.inputs.push(src), ..c })
    } else if a.receiver {
        Ok(c)
    } else if a.marks.len() == 0 {
        Ok(
            CompiledParamsView {
                filters: c.filters.push(ExtractionView::FromRequest(a.rust_type@)),
                inputs: c.inputs.push(src),
                from_request_types: c.from_request_types.push(a.rust_type@),
                ..c
            },
        )
    } else if !has_rweb_mark(a) {
        Ok(CompiledParamsView { inputs: c.inputs.push(src), ..c })
    } else if a.marks.len() != 1 {
        Err(ParamError::TooManyMarks)
    } else {
        match mark_filter(a, a.marks@[0], provide) {
            Err(e) => Err(e),
            Ok((f, data)) => {
                let filters = match f {
                    Some(x) => c.filters.push(x),
                    None => c.filters,
                };
                let data_inputs = if data {
                    c.data_inputs.push(src)
                } else {
                    c.data_inputs
                };
                let inputs = if a.unit_type {
                    c.inputs
                } else {
                    c.inputs.push(src)
                };
                Ok(CompiledParamsView { filters, inputs, data_inputs, ..c })
            },
        }
    }
}

/// The first `k` arguments of the arrangement compiled in order.
pub open spec fn compile_args(
    args: Seq<HandlerInput>,
    arr: Arrangement,
    provide: bool,
    k: int,
) -> Result<CompiledParamsView, ParamError>
    decreases k,
{
    if k <= 0 {
        Ok(no_params())
    } else {
        match compile_args(args, arr, provide, k - 1) {
            Err(e) => Err(e),
            Ok(c) => take_arg(
                c,
                args[arr.order[k - 1]],
                arr.order[k - 1],
                arr.path_params.contains(k - 1),
                provide,
            ),
        }
    }
}

/// What the arguments of a handler compile to, given the path variables
/// (each with the position of the argument it binds) and whether shared
/// data is provided by the route itself.
pub open spec fn compiled_params(
    args: Seq<HandlerInput>,
    vars: Seq<(Seq<char>, int)>,
    provide: bool,
) -> Result<CompiledParamsView, ParamError> {
    match arrange(args, vars) {
        Err(e) => Err(e),
        Ok(arr) => compile_args(args, arr, provide, args.len() as int),
    }
}

/// Every position of an arrangement names an argument of the signature, and
/// every path variable position is one.
pub proof fn lemma_arrange_in_range(args: Seq<HandlerInput>, vars: Seq<(Seq<char>, int)>)
    ensures
        arrange(args, vars) matches Ok(a) ==> {
            &&& a.order.len() == args.len()
            &&& forall|i: int| 0 <= i < args.len() ==> 0 <= #[trigger] a.order[i] < args.len()
            &&& forall|k: int| #[trigger] a.path_params.contains(k) ==> 0 <= k < args.len()
        },
    decreases vars.len(),
{
    if vars.len() > 0 {
        lemma_arrange_in_range(args, vars.drop_last());
    }
}

/// Once a path variable is refused, so is any longer list that starts with
/// the same variables.
proof fn lemma_arrange_error_stays(args: Seq<HandlerInput>, vars: Seq<(Seq<char>, int)>, m: int)
    requires
        0 <= m <= vars.len(),
        arrange(args, vars.take(m)) is Err,
    ensures
        arrange(args, vars) == arrange(args, vars.take(m)),
    decreases vars.len(),
{
    if m == vars.len() {
        assert(vars.take(m) =~= vars);
    } else {
        assert(vars.drop_last().take(m) =~= vars.take(m));
        lemma_arrange_error_stays(args, vars.drop_last(), m);
    }
}

/// Once an argument is refused, the whole list is.
proof fn lemma_compile_error_stays(
    args: Seq<HandlerInput>,
    arr: Arrangement,
    provide: bool,
    m: int,
    k: int,
)
    requires
        0 <= m <= k,
        compile_args(args, arr, provide, m) is Err,
    ensures
        compile_args(args, arr, provide, k) == compile_args(args, arr, provide, m),
    decreases k,
{
    if k > m {
        lemma_compile_error_stays(args, arr, provide, m, k - 1);
    }
}

/// Each argument that holds shared data is named by a plain identifier.
proof fn lemma_data_inputs_named(
    args: Seq<HandlerInput>,
    arr: Arrangement,
    provide: bool,
    k: int,
)
    requires
        arr.order.len() == args.len(),
        forall|j: int| 0 <= j < args.len() ==> 0 <= #[trigger] arr.order[j] < args.len(),
        k <= args.len(),
    ensures
        compile_args(args, arr, provide, k) matches Ok(c) ==> forall|j: int|
            0 <= j < c.data_inputs.len() ==> 0 <= #[trigger] c.data_inputs[j] < args.len()
                && args[c.data_inputs[j]].ident is Some,
    decreases k,
{
    if k > 0 {
        lemma_data_inputs_named(args, arr, provide, k - 1);
        let src = arr.order[k - 1];
        assert(0 <= src < args.len());
    }
}

/// The arguments that hold shared data are arguments of the handler, each
/// named by a plain identifier.
pub proof fn data_inputs_are_named(
    args: Seq<HandlerInput>,
    vars: Seq<(Seq<char>, int)>,
    provide: bool,
)
    ensures
        compiled_params(args, vars, provide) matches Ok(c) ==> forall|j: int|
            0 <= j < c.data_inputs.len() ==> 0 <= #[trigger] c.data_inputs[j] < args.len()
                && args[c.data_inputs[j]].ident is Some,
{
    lemma_arrange_in_range(args, vars);
    if let Ok(arr) = arrange(args, vars) {
        lemma_data_inputs_named(args, arr, provide, args.len() as int);
    }
}

/// Whether the argument binds the path variable of that name.
fn binds_var(a: &HandlerInput, name: &String) -> (r: bool)
    ensures
        r == binds(*a, name@),
{
    if a.receiver {
        return false;
    }
    match &a.ident {
        Some(s) => {
            let x = chars_of(s.as_str());
            let y = chars_of(name.as_str());
            same_chars(x.as_slice(), y.as_slice())
        },
        None => false,
    }
}

/// Puts the path variables in place.
fn arrange_args(args: &Vec<HandlerInput>, vars: &Vec<(String, usize)>) -> (r: Result<
    (Vec<usize>, Vec<bool>),
    ParamError,
>)
    ensures
        r matches Ok(p) ==> (arrange(args@, var_views(vars@)) matches Ok(a) && position_views(p.0@)
            == a.order && p.1@.len() == args@.len() && forall|i: int|
            0 <= i < args@.len() ==> #[trigger] p.1@[i] == a.path_params.contains(i)),
        r matches Err(e) ==> arrange(args@, var_views(vars@)) == Err::<Arrangement, ParamError>(e),
{
    let ghost vv = var_views(vars@);
    let n = args.len();
    let mut order: Vec<usize> = Vec::new();
    let mut path: Vec<bool> = Vec::new();
    let mut i: usize = 0;
    while i < n
        invariant
            i <= n,
            n == args@.len(),
            order@.len() == i,
            path@.len() == i,
            forall|j: int| 0 <= j < i ==> #[trigger] order@[j] == j,
            forall|j: int| 0 <= j < i ==> !(#[trigger] path@[j]),
        decreases n - i,
    {
        order.push(i);
        path.push(false);
        i = i + 1;
    }
    assert(vv.take(0) =~= Seq::<(Seq<char>, int)>::empty());
    assert(position_views(order@) =~= Seq::new(args@.len(), |j: int| j));
    let mut k: usize = 0;
    while k < vars.len()
        invariant
            k <= vars@.len(),
            n == args@.len(),
            path@.len() == n,
            vv == var_views(vars@),
            arrange(args@, vv.take(k as int)) matches Ok(a) && position_views(order@)
                == a.order && forall|j: int|
                0 <= j < n ==> #[trigger] path@[j] == a.path_params.contains(j),
        decreases vars@.len() - k,
    {
        let ghost pre = vv.take(k as int);
        let ghost a = match arrange(args@, pre) {
            Ok(a) => a,
            Err(_) => arbitrary(),
        };
        assert(vv.take(k + 1).drop_last() =~= pre);
        assert(vv.take(k + 1).last() == (vars@[k as int].0@, vars@[k as int].1 as int));
        proof {
            lemma_arrange_in_range(args@, pre);
        }
        let idx = vars[k].1;
        if idx >= n {
            proof {
                lemma_arrange_error_stays(args@, vv, k + 1);
            }
            return Err(ParamError::PathVarOutOfRange);
        }
        if binds_var(&args[idx], &vars[k].0) {
            if k >= n {
                proof {
                    lemma_arrange_error_stays(args@, vv, k + 1);
                }
                return Err(ParamError::PathVarOutOfRange);
            }
            let ghost before = order@;
            order.set(k, idx);
            order.set(idx, k);
            assert(position_views(order@) =~= a.order.update(k as int, idx as int).update(
                idx as int,
                k as int,
            ));
            path.set(k, true);
        }
        k = k + 1;
    }
    assert(vv.take(vv.len() as int) =~= vv);
    Ok((order, path))
}

/// Whether the argument carries an attribute that the route macros read.
fn rweb_marked(a: &HandlerInput) -> (r: bool)
    ensures
        r == has_rweb_mark(*a),
{
    let mut j: usize = 0;
    while j < a.marks.len()
        invariant
            j <= a.marks@.len(),
            forall|t: int| 0 <= t < j ==> (#[trigger] a.marks@[t] is Other),
        decreases a.marks@.len() - j,
    {
        match &a.marks[j] {
            ArgMark::Other => {},
            _ => {
                return true;
            },
        }
        j = j + 1;
    }
    false
}

/// The filter that the argument's single mark adds, and whether the
/// argument holds shared data.
fn mark_step(a: &HandlerInput, provide: bool) -> (r: Result<(Option<Extraction>, bool), ParamError>)
    requires
        a.marks@.len() == 1,
    ensures
        r matches Ok(p) ==> mark_filter(*a, a.marks@[0], provide) == Ok::<
            (Option<ExtractionView>, bool),
            ParamError,
        >(
            (
                match p.0 {
                    Some(x) => Some(x@),
                    None => None,
                },
                p.1,
            ),
        ),
        r matches Err(e) ==> mark_filter(*a, a.marks@[0], provide) == Err::<
            (Option<ExtractionView>, bool),
            ParamError,
        >(e),
{
    match &a.marks[0] {
        ArgMark::Form => Ok((Some(Extraction::Form), false)),
        ArgMark::Json => Ok((Some(Extraction::Json), false)),
        ArgMark::Body => Ok((Some(Extraction::Bytes), false)),
        ArgMark::Query => Ok((Some(Extraction::RawQuery), false)),
        ArgMark::Cookie(Some(n)) => Ok((Some(Extraction::Cookie(n.clone())), false)),
        ArgMark::Cookie(None) => Err(ParamError::MalformedCookie),
        ArgMark::Header(Some(n)) => Ok((Some(Extraction::Header(n.clone())), false)),
        ArgMark::Header(None) => Err(ParamError::MalformedHeader),
        ArgMark::Filter(p) => Ok((Some(Extraction::Filter(p.clone())), false)),
        ArgMark::Data => match &a.ident {
            None => Err(ParamError::ComplexDataPattern),
            Some(i) => {
                if provide {
                    Ok((Some(Extraction::Provider(i.clone())), true))
                } else {
                    Ok((None, true))
                }
            },
        },
        ArgMark::Other => Ok((None, false)),
    }
}

/// Adds one argument, taken from position `src` of the signature.
fn take_one(
    c: &mut CompiledParams,
    a: &HandlerInput,
    src: usize,
    is_path: bool,
    provide: bool,
) -> (r: Result<(), ParamError>)
    ensures
        r is Ok ==> take_arg(old(c)@, *a, src as int, is_path, provide) == Ok::<
            CompiledParamsView,
            ParamError,
        >(final(c)@),
        r matches Err(e) ==> take_arg(old(c)@, *a, src as int, is_path, provide) == Err::<
            CompiledParamsView,
            ParamError,
        >(e),
{
    let ghost before = c@;
    if is_path {
        c.inputs.push(src);
        assert(position_views(c.inputs@) =~= before.inputs.push(src as int));
        return Ok(());
    }
    if a.receiver {
        return Ok(());
    }
    if a.marks.len() == 0 {
        c.filters.push(Extraction::FromRequest(a.rust_type.clone()));
        c.inputs.push(src);
        c.from_request_types.push(a.rust_type.clone());
        assert(extraction_views(c.filters@) =~= before.filters.push(
            ExtractionView::FromRequest(a.rust_type@),
        ));
        assert(position_views(c.inputs@) =~= before.inputs.push(src as int));
        assert(text_views(c.from_request_types@) =~= before.from_request_types.push(
            a.rust_type@,
        ));
        return Ok(());
    }
    if !rweb_marked(a) {
        c.inputs.push(src);
        assert(position_views(c.inputs@) =~= before.inputs.push(src as int));
        return Ok(());
    }
    if a.marks.len() != 1 {
        return Err(ParamError::TooManyMarks);
    }
    let (f, data) = match mark_step(a, provide) {
        Ok(p) => p,
        Err(e) => {
            return Err(e);
        },
    };
    match f {
        Some(x) => {
            c.filters.push(x);
            assert(extraction_views(c.filters@) =~= before.filters.push(x@));
        },
        None => {},
    }
    if data {
        c.data_inputs.push(src);
        assert(position_views(c.data_inputs@) =~= before.data_inputs.push(src as int));
    }
    if !a.unit_type {
        c.inputs.push(src);
        assert(position_views(c.inputs@) =~= before.inputs.push(src as int));
    }
    Ok(())
}

/// Compiles the arguments of a handler: the path variables (each with the
/// position of the argument it binds) are put in place first, then each
/// argument in the new order adds its filter; `provide` says whether a
/// `#[data]` argument gets a filter that provides it.
pub fn compile(args: &Vec<HandlerInput>, path_vars: &Vec<(String, usize)>, provide: bool) -> (r:
    Result<CompiledParams, ParamError>)
    ensures
        r matches Ok(c) ==> compiled_params(args@, var_views(path_vars@), provide) == Ok::<
            CompiledParamsView,
            ParamError,
        >(c@),
        r matches Err(e) ==> compiled_params(args@, var_views(path_vars@), provide) == Err::<
            CompiledParamsView,
            ParamError,
        >(e),
{
    let (order, path) = match arrange_args(args, path_vars) {
        Ok(p) => p,
        Err(e) => {
            return Err(e);
        },
    };
    let ghost arr = match arrange(args@, var_views(path_vars@)) {
        Ok(a) => a,
        Err(_) => arbitrary(),
    };
    proof {
        lemma_arrange_in_range(args@, var_views(path_vars@));
    }
    let mut c = CompiledParams {
        filters: Vec::new(),
        inputs: Vec::new(),
        from_request_types: Vec::new(),
        data_inputs: Vec::new(),
    };
    assert(c@ =~= no_params()) by {
        assert(extraction_views(c.filters@) =~= Seq::<ExtractionView>::empty());
        assert(position_views(c.inputs@) =~= Seq::<int>::empty());
        assert(text_views(c.from_request_types@) =~= Seq::<Seq<char>>::empty());
        assert(position_views(c.data_inputs@) =~= Seq::<int>::empty());
    }
    let n = args.len();
    let mut i: usize = 0;
    while i < n
        invariant
            i <= n,
            n == args@.len(),
            arrange(args@, var_views(path_vars@)) == Ok::<Arrangement, ParamError>(arr),
            position_views(order@) == arr.order,
            arr.order.len() == n,
            forall|j: int| 0 <= j < n ==> 0 <= #[trigger] arr.order[j] < n,
            path@.len() == n,
            forall|j: int| 0 <= j < n ==> #[trigger] path@[j] == arr.path_params.contains(j),
            compile_args(args@, arr, provide, i as int) == Ok::<CompiledParamsView, ParamError>(
                c@,
            ),
        decreases n - i,
    {
        assert(order@[i as int] as int == arr.order[i as int]);
        let src = order[i];
        match take_one(&mut c, &args[src], src, path[i], provide) {
            Err(e) => {
                proof {
                    lemma_compile_error_stays(args@, arr, provide, i + 1, n as int);
                }
                return Err(e);
            },
            Ok(()) => {},
        }
        i = i + 1;
    }
    Ok(c)
}

/// The attributes that the route macros read on a handler argument.
pub open spec fn is_param_attr_name(name: Seq<char>) -> bool {
    ||| name == "json"@
    ||| name == "form"@
    ||| name == "body"@
    ||| name == "query"@
    ||| name == "cookie"@
    ||| name == "header"@
    ||| name == "filter"@
    ||| name == "data"@
}

/// Whether the route macros read an argument attribute of this name.
pub fn is_rweb_arg_attr(name: &str) -> (r: bool)
    ensures
        r == is_param_attr_name(name@),
{
    let n = name.to_owned();
    n == "json".to_owned() || n == "form".to_owned() || n == "body".to_owned() || n
        == "query".to_owned() || n == "cookie".to_owned() || n == "header".to_owned() || n
        == "filter".to_owned() || n == "data".to_owned()
}

} // verus!
