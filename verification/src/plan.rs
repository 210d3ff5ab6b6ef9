//! What the route and router attributes build from a function: the method
//! and path of the route, how its arguments are read, the filters its
//! attributes add, the type it replies with, and its openapi operation.

use vstd::prelude::*;
use crate::attrs::{parse, parsed_operation, AttrError, AttrErrorView, OperationAttr};
use crate::fn_attrs::{
    compile_fn_attrs, fn_attr_filters, route_filter_views, FnAttr, FnAttrError, RouteFilter,
    RouteFilterView,
};
use crate::http_types::Method;
use crate::openapi::{string_views, Operation, OperationView};
use crate::params::{
    compile, compiled_params, data_inputs_are_named, input_names, position_views, var_views,
    CompiledParams, CompiledParamsView, HandlerInput, ParamError,
};
use crate::route::{
    compile_path, compiled_path, name_views, path_filter_chain, path_filter_views, path_filters,
    segment_views, PathFilter, PathFilterView, RoutePathError, RoutePathErrorView, Segment,
    SegmentView,
};

verus! {

/// A function that a route or router attribute is put on.
#[derive(Debug, Clone, PartialEq, Eq)]
pub struct HandlerFn {
    /// Whether it is `async`.
    pub is_async: bool,
    /// The text of its return type, when it has one.
    pub return_type: Option<String>,
    /// Whether its return type holds an `impl Trait`.
    pub returns_impl_trait: bool,
    /// Whether its body holds statements.
    pub has_body: bool,
    /// Its arguments.
    pub args: Vec<HandlerInput>,
    /// Its attributes, as filters read them.
    pub attrs: Vec<FnAttr>,
    /// Its attributes, as the openapi operation reads them.
    pub op_attrs: Vec<OperationAttr>,
}

/// Why a route or router cannot be built.
#[derive(Debug, Clone, PartialEq, Eq)]
pub enum RouteError {
    Path(RoutePathError),
    Param(ParamError),
    Attr(FnAttrError),
    Operation(AttrError),
    /// "http handler should return type"
    MissingReturnType,
    /// "#[router] function cannot have body"
    RouterHasBody,
    /// "#[router(\"/path\", services(a, b, c,))] is correct usage"
    BadServices,
}

/// Abstract value of a route error.
pub enum RouteErrorView {
    Path(RoutePathErrorView),
    Param(ParamError),
    Attr(FnAttrError),
    Operation(AttrErrorView),
    MissingReturnType,
    RouterHasBody,
    BadServices,
}

impl View for RouteError {
    type V = RouteErrorView;

    open spec fn view(&self) -> RouteErrorView {
        match self {
            RouteError::Path(e) => RouteErrorView::Path(e@),
            RouteError::Param(e) => RouteErrorView::Param(*e),
            RouteError::Attr(e) => RouteErrorView::Attr(*e),
            RouteError::Operation(e) => RouteErrorView::Operation(e@),
            RouteError::MissingReturnType => RouteErrorView::MissingReturnType,
            RouteError::RouterHasBody => RouteErrorView::RouterHasBody,
            RouteError::BadServices => RouteErrorView::BadServices,
        }
    }
}

/// What a route attribute builds.
pub struct RoutePlan {
    /// The method the route answers, or any.
    pub method: Option<Method>,
    /// The segments of its path.
    pub segments: Vec<Segment>,
    /// The filters its path builds: the method filter, those of the
    /// segments, and the end of the path.
    pub path_chain: Vec<PathFilter>,
    /// How the handler's arguments are read.
    pub params: CompiledParams,
    /// The filters before the handler is called.
    pub pre_filters: Vec<RouteFilter>,
    /// Whether the handler's result is awaited (an `async` handler).
    pub and_then: bool,
    /// The filters on the handler's result.
    pub post_filters: Vec<RouteFilter>,
    /// The type the route replies with; `None` for `impl Reply`.
    pub reply_type: Option<String>,
    /// With openapi, the operation the route registers.
    pub operation: Option<Operation>,
    /// With openapi, whether the return type describes the responses.
    pub describes_response: bool,
}

/// Abstract value of a route plan, but for its method.
pub struct RoutePlanView {
    pub segments: Seq<SegmentView>,
    pub path_chain: Seq<PathFilterView>,
    pub params: CompiledParamsView,
    pub pre_filters: Seq<RouteFilterView>,
    pub and_then: bool,
    pub post_filters: Seq<RouteFilterView>,
    pub reply_type: Option<Seq<char>>,
    pub operation: Option<OperationView>,
    pub describes_response: bool,
}

impl View for RoutePlan {
    type V = RoutePlanView;

    open spec fn view(&self) -> RoutePlanView {
        RoutePlanView {
            segments: segment_views(self.segments@),
            path_chain: path_filter_views(self.path_chain@),
            params: self.params@,
            pre_filters: route_filter_views(self.pre_filters@),
            and_then: self.and_then,
            post_filters: route_filter_views(self.post_filters@),
            reply_type: match self.reply_type {
                Some(t) => Some(t@),
                None => None,
            },
            operation: match self.operation {
                Some(o) => Some(o@),
                None => None,
            },
            describes_response: self.describes_response,
        }
    }
}

/// The path variables of compiled segments: each parameter's name with the
/// position of the argument it binds, in the order of the path.
pub open spec fn segment_vars(segs: Seq<SegmentView>) -> Seq<(Seq<char>, int)>
    decreases segs.len(),
{
    if segs.len() == 0 {
        Seq::empty()
    } else {
        match segs.last() {
            SegmentView::Param { name, index } => segment_vars(segs.drop_last()).push(
                (name, index),
            ),
            SegmentView::Literal(_) => segment_vars(segs.drop_last()),
        }
    }
}

/// Whether the function carries a `#[cors(..)]` attribute.
pub open spec fn has_cors(attrs: Seq<FnAttr>) -> bool {
    exists|j: int| 0 <= j < attrs.len() && (#[trigger] attrs[j] is Cors)
}

/// What a route attribute builds from a function, with or without openapi:
/// the path compiled against the arguments' names; the arguments read, with
/// shared data provided by the route; the header and body size filters
/// before the handler and the cors filter after it; the reply type, which
/// is `impl Reply` for an `async` handler or one with cors and the written
/// return type otherwise, which must then be there; and with openapi the
/// operation read from the path, arguments and attributes, for which the
/// return type must be there too.
pub open spec fn route_plan(path: Seq<char>, h: HandlerFn, openapi: bool) -> Result<
    RoutePlanView,
    RouteErrorView,
> {
    match compiled_path(path, Some(input_names(h.args@))) {
        Err(e) => Err(RouteErrorView::Path(e)),
        Ok(segs) => match compiled_params(h.args@, segment_vars(segs), true) {
            Err(e) => Err(RouteErrorView::Param(e)),
            Ok(ps) => match fn_attr_filters(h.attrs@, false) {
                Err(e) => Err(RouteErrorView::Attr(e)),
                Ok(first) => match fn_attr_filters(first.1, true) {
                    Err(e) => Err(RouteErrorView::Attr(e)),
                    Ok(second) => {
                        let impl_reply = h.is_async || has_cors(h.attrs@);
                        let reply_type = if impl_reply {
                            None
                        } else {
                            match h.return_type {
                                Some(t) => Some(t@),
                                None => None,
                            }
                        };
                        let plan = RoutePlanView {
                            segments: segs,
                            path_chain: path_filters(true, segs, true),
                            params: ps,
                            pre_filters: first.0,
                            and_then: h.is_async,
                            post_filters: second.0,
                            reply_type,
                            operation: None,
                            describes_response: false,
                        };
                        if !impl_reply && h.return_type is None {
                            Err(RouteErrorView::MissingReturnType)
                        } else if !openapi {
                            Ok(plan)
                        } else {
                            match parsed_operation(path, h.args@, h.op_attrs@) {
                                Err(e) => Err(RouteErrorView::Operation(e)),
                                Ok(op) => if h.return_type is None {
                                    Err(RouteErrorView::MissingReturnType)
                                } else {
                                    Ok(
                                        RoutePlanView {
                                            operation: Some(op),
                                            describes_response: !h.returns_impl_trait,
                                            ..plan
                                        },
                                    )
                                },
                            }
                        }
                    },
                },
            },
        },
    }
}

/// The names that path variables can bind, one per argument.
fn names_of(args: &Vec<HandlerInput>) -> (r: Vec<Option<String>>)
    ensures
        name_views(r@) == input_names(args@),
{
    let mut out: Vec<Option<String>> = Vec::new();
    let mut i: usize = 0;
    while i < args.len()
        invariant
            i <= args@.len(),
            name_views(out@) =~= input_names(args@).take(i as int),
        decreases args@.len() - i,
    {
        let ghost before = out@;
        let n = if args[i].receiver {
            None
        } else {
            match &args[i].ident {
                Some(s) => Some(s.clone()),
                None => None,
            }
        };
        out.push(n);
        assert(name_views(out@) =~= name_views(before).push(input_names(args@)[i as int]));
        assert(input_names(args@).take(i + 1) =~= input_names(args@).take(i as int).push(
            input_names(args@)[i as int],
        ));
        i = i + 1;
    }
    assert(input_names(args@).take(args@.len() as int) =~= input_names(args@));
    out
}

/// The path variables of compiled segments.
fn vars_of(segs: &Vec<Segment>) -> (r: Vec<(String, usize)>)
    ensures
        var_views(r@) == segment_vars(segment_views(segs@)),
{
    let ghost sv = segment_views(segs@);
    let mut out: Vec<(String, usize)> = Vec::new();
    let mut i: usize = 0;
    assert(sv.take(0) =~= Seq::<SegmentView>::empty());
    assert(var_views(out@) =~= Seq::<(Seq<char>, int)>::empty());
    while i < segs.len()
        invariant
            i <= segs@.len(),
            sv == segment_views(segs@),
            var_views(out@) == segment_vars(sv.take(i as int)),
        decreases segs@.len() - i,
    {
        assert(sv.take(i + 1).drop_last() =~= sv.take(i as int));
        assert(sv.take(i + 1).last() == segs@[i as int]@);
        match &segs[i] {
            Segment::Param { name, index } => {
                let ghost before = out@;
                out.push((name.clone(), *index));
                assert(var_views(out@) =~= var_views(before).push((name@, *index as int)));
            },
            Segment::Literal(_) => {},
        }
        i = i + 1;
    }
    assert(sv.take(segs@.len() as int) =~= sv);
    out
}

/// Whether the function carries a `#[cors(..)]` attribute.
fn cors_in(attrs: &Vec<FnAttr>) -> (r: bool)
    ensures
        r == has_cors(attrs@),
{
    let mut j: usize = 0;
    while j < attrs.len()
        invariant
            j <= attrs@.len(),
            forall|t: int| 0 <= t < j ==> !(#[trigger] attrs@[t] is Cors),
        decreases attrs@.len() - j,
    {
        match &attrs[j] {
            FnAttr::Cors(_) => {
                return true;
            },
            _ => {},
        }
        j = j + 1;
    }
    false
}

/// Builds what a route attribute makes of a handler, for the given method
/// (any when `None`) and path, with or without openapi.
pub fn compile_route(method: Option<Method>, path: &str, h: HandlerFn, openapi: bool) -> (r:
    Result<RoutePlan, RouteError>)
    ensures
        r matches Ok(p) ==> route_plan(path@, h, openapi) == Ok::<RoutePlanView, RouteErrorView>(
            p@,
        ) && p.method == method,
        r matches Err(e) ==> route_plan(path@, h, openapi) == Err::<RoutePlanView, RouteErrorView>(
            e@,
        ),
{
    let names = names_of(&h.args);
    let segments = match compile_path(path, Some(&names)) {
        Ok(s) => s,
        Err(e) => {
            return Err(RouteError::Path(e));
        },
    };
    let path_chain = path_filter_chain(true, &segments, true);
    let vars = vars_of(&segments);
    let params = match compile(&h.args, &vars, true) {
        Ok(p) => p,
        Err(e) => {
            return Err(RouteError::Param(e));
        },
    };
    let impl_reply = h.is_async || cors_in(&h.attrs);
    let HandlerFn { is_async, return_type, returns_impl_trait, has_body: _, args, attrs, op_attrs } =
        h;
    let mut attrs = attrs;
    let pre_filters = match compile_fn_attrs(&mut attrs, false) {
        Ok(f) => f,
        Err(e) => {
            return Err(RouteError::Attr(e));
        },
    };
    let post_filters = match compile_fn_attrs(&mut attrs, true) {
        Ok(f) => f,
        Err(e) => {
            return Err(RouteError::Attr(e));
        },
    };
    if !impl_reply && return_type.is_none() {
        return Err(RouteError::MissingReturnType);
    }
    let reply_type = if impl_reply {
        None
    } else {
        match &return_type {
            Some(t) => Some(t.clone()),
            None => None,
        }
    };
    if !openapi {
        return Ok(
            RoutePlan {
                method,
                segments,
                path_chain,
                params,
                pre_filters,
                and_then: is_async,
                post_filters,
                reply_type,
                operation: None,
                describes_response: false,
            },
        );
    }
    let mut op_attrs = op_attrs;
    let operation = match parse(path, &args, &mut op_attrs) {
        Ok(op) => op,
        Err(e) => {
            return Err(RouteError::Operation(e));
        },
    };
    if return_type.is_none() {
        return Err(RouteError::MissingReturnType);
    }
    Ok(
        RoutePlan {
            method,
            segments,
            path_chain,
            params,
            pre_filters,
            and_then: is_async,
            post_filters,
            reply_type,
            operation: Some(operation),
            describes_response: !returns_impl_trait,
        },
    )
}

/// What a router attribute builds.
pub struct RouterPlan {
    /// The segments of its path.
    pub segments: Vec<Segment>,
    /// The filters its path builds: those of the segments, the path left
    /// open for the services.
    pub path_chain: Vec<PathFilter>,
    /// How the router's arguments are read.
    pub params: CompiledParams,
    /// The names of the arguments that hold shared data, passed on to each
    /// service.
    pub data_args: Vec<String>,
    /// The filters before the services.
    pub pre_filters: Vec<RouteFilter>,
    /// The services, tried in order.
    pub services: Vec<String>,
    /// The filters after the services.
    pub post_filters: Vec<RouteFilter>,
    /// With openapi, the tags the services' operations get.
    pub tags: Option<Vec<String>>,
}

/// Abstract value of a router plan.
pub struct RouterPlanView {
    pub segments: Seq<SegmentView>,
    pub path_chain: Seq<PathFilterView>,
    pub params: CompiledParamsView,
    pub data_args: Seq<Seq<char>>,
    pub pre_filters: Seq<RouteFilterView>,
    pub services: Seq<Seq<char>>,
    pub post_filters: Seq<RouteFilterView>,
    pub tags: Option<Seq<Seq<char>>>,
}

impl View for RouterPlan {
    type V = RouterPlanView;

    open spec fn view(&self) -> RouterPlanView {
        RouterPlanView {
            segments: segment_views(self.segments@),
            path_chain: path_filter_views(self.path_chain@),
            params: self.params@,
            data_args: string_views(self.data_args@),
            pre_filters: route_filter_views(self.pre_filters@),
            services: string_views(self.services@),
            post_filters: route_filter_views(self.post_filters@),
            tags: match self.tags {
                Some(t) => Some(string_views(t@)),
                None => None,
            },
        }
    }
}

/// The identifiers of the arguments at the given positions.
pub open spec fn idents_at(args: Seq<HandlerInput>, positions: Seq<int>) -> Seq<Seq<char>> {
    positions.map_values(
        |i: int|
            match args[i].ident {
                Some(s) => s@,
                None => Seq::empty(),
            },
    )
}

/// What a router attribute builds from a function without a body, given the
/// services it names (`None` when they are not given as `services(..)`):
/// the path, which may bind no parameter; the arguments read, without
/// providing shared data, which is passed on to each service instead; the
/// header and body size filters before the services and the cors filter
/// after them; and with openapi the tags of the operation read from the
/// path, arguments and attributes.
pub open spec fn router_plan(
    path: Seq<char>,
    h: HandlerFn,
    services: Option<Seq<Seq<char>>>,
    openapi: bool,
) -> Result<RouterPlanView, RouteErrorView> {
    if h.has_body {
        Err(RouteErrorView::RouterHasBody)
    } else {
        match compiled_path(path, None) {
            Err(e) => Err(RouteErrorView::Path(e)),
            Ok(segs) => match compiled_params(h.args@, segment_vars(segs), false) {
                Err(e) => Err(RouteErrorView::Param(e)),
                Ok(ps) => match fn_attr_filters(h.attrs@, false) {
                    Err(e) => Err(RouteErrorView::Attr(e)),
                    Ok(first) => match services {
                        None => Err(RouteErrorView::BadServices),
                        Some(names) => match fn_attr_filters(first.1, true) {
                            Err(e) => Err(RouteErrorView::Attr(e)),
                            Ok(second) => {
                                let plan = RouterPlanView {
                                    segments: segs,
                                    path_chain: path_filters(false, segs, false),
                                    params: ps,
                                    data_args: idents_at(h.args@, ps.data_inputs),
                                    pre_filters: first.0,
                                    services: names,
                                    post_filters: second.0,
                                    tags: None,
                                };
                                if !openapi {
                                    Ok(plan)
                                } else {
                                    match parsed_operation(path, h.args@, h.op_attrs@) {
                                        Err(e) => Err(RouteErrorView::Operation(e)),
                                        Ok(op) => Ok(RouterPlanView { tags: Some(op.tags), ..plan }),
                                    }
                                }
                            },
                        },
                    },
                },
            },
        }
    }
}

/// Builds what a router attribute makes of a function, given the services
/// it names, with or without openapi.
pub fn router(path: &str, h: HandlerFn, services: Option<Vec<String>>, openapi: bool) -> (r:
    Result<RouterPlan, RouteError>)
    ensures
        r matches Ok(p) ==> router_plan(
            path@,
            h,
            match services {
                Some(v) => Some(string_views(v@)),
                None => None,
            },
            openapi,
        ) == Ok::<RouterPlanView, RouteErrorView>(p@),
        r matches Err(e) ==> router_plan(
            path@,
            h,
            match services {
                Some(v) => Some(string_views(v@)),
                None => None,
            },
            openapi,
        ) == Err::<RouterPlanView, RouteErrorView>(e@),
{
    if h.has_body {
        return Err(RouteError::RouterHasBody);
    }
    let segments = match compile_path(path, None) {
        Ok(s) => s,
        Err(e) => {
            return Err(RouteError::Path(e));
        },
    };
    let path_chain = path_filter_chain(false, &segments, false);
    let vars = vars_of(&segments);
    let params = match compile(&h.args, &vars, false) {
        Ok(p) => p,
        Err(e) => {
            return Err(RouteError::Param(e));
        },
    };
    proof {
        data_inputs_are_named(h.args@, var_views(vars@), false);
    }
    let ghost ps = params@;
    let mut data_args: Vec<String> = Vec::new();
    let mut i: usize = 0;
    while i < params.data_inputs.len()
        invariant
            i <= params.data_inputs@.len(),
            ps == params@,
            forall|j: int|
                0 <= j < ps.data_inputs.len() ==> 0 <= #[trigger] ps.data_inputs[j]
                    < h.args@.len() && h.args@[ps.data_inputs[j]].ident is Some,
            ps.data_inputs == position_views(params.data_inputs@),
            string_views(data_args@) =~= idents_at(h.args@, ps.data_inputs).take(i as int),
        decreases params.data_inputs@.len() - i,
    {
        let ghost before = data_args@;
        let idx = params.data_inputs[i];
        assert(ps.data_inputs[i as int] == idx as int);
        let name = match &h.args[idx].ident {
            Some(s) => s.clone(),
            None => String::new(),
        };
        data_args.push(name);
        assert(string_views(data_args@) =~= string_views(before).push(
            idents_at(h.args@, ps.data_inputs)[i as int],
        ));
        assert(idents_at(h.args@, ps.data_inputs).take(i + 1) =~= idents_at(
            h.args@,
            ps.data_inputs,
        ).take(i as int).push(idents_at(h.args@, ps.data_inputs)[i as int]));
        i = i + 1;
    }
    assert(idents_at(h.args@, ps.data_inputs).take(ps.data_inputs.len() as int) =~= idents_at(
        h.args@,
        ps.data_inputs,
    ));
    let HandlerFn {
        is_async: _,
        return_type: _,
        returns_impl_trait: _,
        has_body: _,
        args,
        attrs,
        op_attrs,
    } = h;
    let mut attrs = attrs;
    let pre_filters = match compile_fn_attrs(&mut attrs, false) {
        Ok(f) => f,
        Err(e) => {
            return Err(RouteError::Attr(e));
        },
    };
    let services = match services {
        Some(v) => v,
        None => {
            return Err(RouteError::BadServices);
        },
    };
    let post_filters = match compile_fn_attrs(&mut attrs, true) {
        Ok(f) => f,
        Err(e) => {
            return Err(RouteError::Attr(e));
        },
    };
    if !openapi {
        return Ok(
            RouterPlan {
                segments,
                path_chain,
                params,
                data_args,
                pre_filters,
                services,
                post_filters,
                tags: None,
            },
        );
    }
    let mut op_attrs = op_attrs;
    let operation = match parse(path, &args, &mut op_attrs) {
        Ok(op) => op,
        Err(e) => {
            return Err(RouteError::Operation(e));
        },
    };
    Ok(
        RouterPlan {
            segments,
            path_chain,
            params,
            data_args,
            pre_filters,
            services,
            post_filters,
            tags: Some(operation.tags),
        },
    )
}

/// Openapi adds only the operation: a route built with it and without it
/// has the same segments, arguments, filters and reply type.
pub proof fn openapi_adds_only_the_operation(path: Seq<char>, h: HandlerFn)
    ensures
        route_plan(path, h, true) matches Ok(a) ==> (route_plan(path, h, false) matches Ok(b) && {
            &&& a.segments == b.segments
            &&& a.params == b.params
            &&& a.pre_filters == b.pre_filters
            &&& a.and_then == b.and_then
            &&& a.post_filters == b.post_filters
            &&& a.reply_type == b.reply_type
            &&& b.operation is None
            &&& a.operation is Some
        }),
{
}


/// A route describes its responses from its return type exactly when it is
/// built with openapi and the return type holds no `impl Trait`; built with
/// openapi it registers an operation, and without it none.
pub proof fn response_described_unless_impl_trait(path: Seq<char>, h: HandlerFn)
    ensures
        route_plan(path, h, true) matches Ok(p) ==> p.describes_response == !h.returns_impl_trait
            && p.operation is Some,
        route_plan(path, h, false) matches Ok(p) ==> !p.describes_response && p.operation is None,
{
}

} // verus!
