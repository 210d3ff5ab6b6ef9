//! Reading the attributes of a route handler into its openapi operation:
//! the path parameters, `#[openapi(..)]` settings and doc comments.

use vstd::prelude::*;
use vstd::string::StringExecFns;
use crate::entity::{blank_schema, Schema, SchemaView};
use crate::openapi::{
    string_views, Location, Operation, OperationView, Parameter, ParameterView, Response,
    ResponseView, MediaType, media_views, parameter_views, response_views,
};
use crate::params::{input_names, input_types, HandlerInput};
use crate::route::{param_index, path_segments, same_chars, split_path};
use crate::util::{chars_of, string_of};

verus! {

/// One setting of an `#[openapi(..)]` attribute.
#[derive(Debug, Clone, PartialEq, Eq)]
pub enum OpenapiConfig {
    /// `id = ".."`
    Id(String),
    /// `description = ".."`
    Description(String),
    /// `summary = ".."`
    Summary(String),
    /// `tags("..", ..)`
    Tags(Vec<String>),
    /// `response(code = "..", description = "..")`
    Response { code: String, description: String },
}

/// An attribute of a handler, as far as the operation is concerned.
#[derive(Debug, Clone, PartialEq, Eq)]
pub enum OperationAttr {
    /// `#[openapi(..)]` with its settings in order.
    Openapi(Vec<OpenapiConfig>),
    /// A doc comment line.
    Doc(String),
    /// Any other attribute.
    Other,
}

/// Why the attributes of a handler cannot become an operation.
#[derive(Debug, Clone, PartialEq, Eq)]
pub enum AttrError {
    /// A path parameter segment too short to hold a name, or whose last
    /// character is not ASCII.
    MalformedParam(String),
    /// "#[openapi]: Duplicate operation id detected"
    DuplicateId,
}

/// Abstract value of an attribute error.
pub enum AttrErrorView {
    MalformedParam(Seq<char>),
    DuplicateId,
}

impl View for AttrError {
    type V = AttrErrorView;

    open spec fn view(&self) -> AttrErrorView {
        match self {
            AttrError::MalformedParam(s) => AttrErrorView::MalformedParam(s@),
            AttrError::DuplicateId => AttrErrorView::DuplicateId,
        }
    }
}

/// A character that `str::trim_start` removes (Unicode White_Space).
pub open spec fn is_white_space(c: char) -> bool {
    ||| '\t' <= c <= '\r'
    ||| c == ' '
    ||| c == '\u{85}'
    ||| c == '\u{a0}'
    ||| c == '\u{1680}'
    ||| '\u{2000}' <= c <= '\u{200a}'
    ||| c == '\u{2028}'
    ||| c == '\u{2029}'
    ||| c == '\u{202f}'
    ||| c == '\u{205f}'
    ||| c == '\u{3000}'
}

/// The text without its leading white space.
pub open spec fn trim_start_chars(s: Seq<char>) -> Seq<char>
    decreases s.len(),
{
    if s.len() > 0 && is_white_space(s[0]) {
        trim_start_chars(s.drop_first())
    } else {
        s
    }
}

fn is_white_space_char(c: char) -> (r: bool)
    ensures
        r == is_white_space(c),
{
    ('\t' <= c && c <= '\r') || c == ' ' || c == '\u{85}' || c == '\u{a0}' || c == '\u{1680}' || (
    '\u{2000}' <= c && c <= '\u{200a}') || c == '\u{2028}' || c == '\u{2029}' || c == '\u{202f}'
        || c == '\u{205f}' || c == '\u{3000}'
}

/// The text without its leading white space.
pub fn trim_start_text(s: &str) -> (r: String)
    ensures
        r@ == trim_start_chars(s@),
{
    let cs = chars_of(s);
    let mut i: usize = 0;
    assert(cs@.skip(0) =~= cs@);
    while i < cs.len() && is_white_space_char(cs[i])
        invariant
            i <= cs@.len(),
            cs@ == s@,
            trim_start_chars(s@) == trim_start_chars(cs@.skip(i as int)),
        decreases cs@.len() - i,
    {
        assert(cs@.skip(i as int).drop_first() =~= cs@.skip(i + 1));
        i = i + 1;
    }
    let mut out: Vec<char> = Vec::new();
    let mut k: usize = i;
    while k < cs.len()
        invariant
            i <= k <= cs@.len(),
            out@ =~= cs@.subrange(i as int, k as int),
        decreases cs@.len() - k,
    {
        out.push(cs[k]);
        k = k + 1;
    }
    assert(cs@.skip(i as int) =~= cs@.subrange(i as int, cs@.len() as int));
    string_of(out.as_slice())
}

/// The operation being read and whether a description was set explicitly.
pub struct ReadState {
    pub op: OperationView,
    pub has_description: bool,
}

/// The position of the first response with the given code, or the number
/// of responses when there is none.
pub open spec fn response_position(rs: Seq<(Seq<char>, ResponseView)>, code: Seq<char>) -> int
    decreases rs.len(),
{
    if rs.len() == 0 {
        0
    } else if rs[0].0 == code {
        0
    } else {
        1 + response_position(rs.drop_first(), code)
    }
}

/// What a setting does to the operation: an id may be set once; a
/// description replaces the text and stops doc comments from adding to it;
/// tags are appended; a response with that description and no body is added
/// for a new code, while for a code already present the description of that
/// response becomes the code.
pub open spec fn apply_config(st: ReadState, c: OpenapiConfig) -> Result<ReadState, AttrErrorView> {
    match c {
        OpenapiConfig::Id(s) => if st.op.operation_id.len() > 0 {
            Err(AttrErrorView::DuplicateId)
        } else {
            Ok(ReadState { op: OperationView { operation_id: s@, ..st.op }, ..st })
        },
        OpenapiConfig::Description(s) => Ok(
            ReadState { op: OperationView { description: s@, ..st.op }, has_description: true },
        ),
        OpenapiConfig::Summary(s) => Ok(
            ReadState { op: OperationView { summary: s@, ..st.op }, ..st },
        ),
        OpenapiConfig::Tags(ts) => Ok(
            ReadState { op: OperationView { tags: st.op.tags + string_views(ts@), ..st.op }, ..st },
        ),
        OpenapiConfig::Response { code, description } => {
            let i = response_position(st.op.responses, code@);
            if i < st.op.responses.len() {
                Ok(
                    ReadState {
                        op: OperationView {
                            responses: st.op.responses.update(
                                i,
                                (code@, ResponseView { description: code@, ..st.op.responses[i].1 }),
                            ),
                            ..st.op
                        },
                        ..st
                    },
                )
            } else {
                Ok(
                    ReadState {
                        op: OperationView {
                            responses: st.op.responses.push(
                                (code@, ResponseView { description: description@, content: Seq::empty() }),
                            ),
                            ..st.op
                        },
                        ..st
                    },
                )
            }
        },
    }
}

/// The settings applied in order; the first error stops.
pub open spec fn apply_configs(st: ReadState, cs: Seq<OpenapiConfig>) -> Result<ReadState, AttrErrorView>
    decreases cs.len(),
{
    if cs.len() == 0 {
        Ok(st)
    } else {
        match apply_config(st, cs[0]) {
            Ok(s2) => apply_configs(s2, cs.drop_first()),
            Err(e) => Err(e),
        }
    }
}

/// A doc comment line adds to the description, after a space when there is
/// already some, with its leading white space removed, unless a description
/// was set explicitly.
pub open spec fn apply_doc(st: ReadState, line: Seq<char>) -> ReadState {
    if st.has_description {
        st
    } else {
        let sep = if st.op.description.len() > 0 {
            seq![' ']
        } else {
            Seq::empty()
        };
        ReadState {
            op: OperationView {
                description: st.op.description + sep + trim_start_chars(line),
                ..st.op
            },
            ..st
        }
    }
}

/// What an attribute does to the operation.
pub open spec fn apply_attr(st: ReadState, a: OperationAttr) -> Result<ReadState, AttrErrorView> {
    match a {
        OperationAttr::Openapi(cs) => apply_configs(st, cs@),
        OperationAttr::Doc(line) => Ok(apply_doc(st, line@)),
        OperationAttr::Other => Ok(st),
    }
}

/// The attributes applied in order; the first error stops.
pub open spec fn apply_attrs(st: ReadState, attrs: Seq<OperationAttr>) -> Result<ReadState, AttrErrorView>
    decreases attrs.len(),
{
    if attrs.len() == 0 {
        Ok(st)
    } else {
        match apply_attr(st, attrs[0]) {
            Ok(s2) => apply_attrs(s2, attrs.drop_first()),
            Err(e) => Err(e),
        }
    }
}

/// What one segment of a route declares: a segment `{name}` whose name is
/// an argument of the handler is a required path parameter of that
/// argument's type; other segments declare nothing. The name is what lies
/// between the first and the last character, so a segment of one character,
/// or whose last character is not ASCII, is malformed.
pub open spec fn segment_param(
    seg: Seq<char>,
    names: Seq<Option<Seq<char>>>,
    types: Seq<Seq<char>>,
) -> Result<Option<ParameterView>, AttrErrorView> {
    if seg.len() > 0 && seg[0] == '{' {
        if seg.len() < 2 || !((seg.last() as u32) < 128) {
            Err(AttrErrorView::MalformedParam(seg))
        } else {
            let name = seg.subrange(1, seg.len() - 1);
            match param_index(names, name) {
                Some(i) => Ok(
                    Some(
                        ParameterView {
                            name,
                            location: Location::Path,
                            required: Some(true),
                            description: Seq::empty(),
                            schema: Some(SchemaView { ref_path: types[i], ..blank_schema() }),
                        },
                    ),
                ),
                None => Ok(None),
            }
        }
    } else {
        Ok(None)
    }
}

/// The path parameters of a route, in the order of its segments; the first
/// malformed segment is the error.
pub open spec fn path_parameters(
    segs: Seq<Seq<char>>,
    names: Seq<Option<Seq<char>>>,
    types: Seq<Seq<char>>,
) -> Result<Seq<ParameterView>, AttrErrorView>
    decreases segs.len(),
{
    if segs.len() == 0 {
        Ok(Seq::empty())
    } else {
        match segment_param(segs[0], names, types) {
            Err(e) => Err(e),
            Ok(o) => match path_parameters(segs.drop_first(), names, types) {
                Err(e) => Err(e),
                Ok(ps) => Ok(
                    match o {
                        Some(p) => seq![p] + ps,
                        None => ps,
                    },
                ),
            },
        }
    }
}

/// The operation as it stands before any attribute is read: the path
/// parameters and nothing else.
pub open spec fn initial_state(ps: Seq<ParameterView>) -> ReadState {
    ReadState {
        op: OperationView {
            tags: Seq::empty(),
            summary: Seq::empty(),
            description: Seq::empty(),
            operation_id: Seq::empty(),
            parameters: ps,
            responses: Seq::empty(),
            request_body: None,
        },
        has_description: false,
    }
}

/// The operation that a handler's route path, arguments and attributes
/// describe: its path parameters, then each attribute applied in order.
pub open spec fn parsed_operation(
    path: Seq<char>,
    args: Seq<HandlerInput>,
    attrs: Seq<OperationAttr>,
) -> Result<OperationView, AttrErrorView> {
    match path_parameters(path_segments(path), input_names(args), input_types(args)) {
        Err(e) => Err(e),
        Ok(ps) => match apply_attrs(initial_state(ps), attrs) {
            Ok(st) => Ok(st.op),
            Err(e) => Err(e),
        },
    }
}

/// The attributes that stay on the handler: all but `#[openapi(..)]`, in
/// their order.
pub open spec fn kept_attrs(attrs: Seq<OperationAttr>) -> Seq<OperationAttr>
    decreases attrs.len(),
{
    if attrs.len() == 0 {
        Seq::empty()
    } else if attrs.last() is Openapi {
        kept_attrs(attrs.drop_last())
    } else {
        kept_attrs(attrs.drop_last()).push(attrs.last())
    }
}

/// The operation being read, with whether a description was set
/// explicitly.
struct Reading {
    op: Operation,
    has_description: bool,
}

impl View for Reading {
    type V = ReadState;

    closed spec fn view(&self) -> ReadState {
        ReadState { op: self.op@, has_description: self.has_description }
    }
}

/// The position of the first argument with the given name.
fn find_arg(args: &Vec<HandlerInput>, name: &[char]) -> (r: Option<usize>)
    ensures
        r matches Some(i) ==> param_index(input_names(args@), name@) == Some(i as int),
        r matches Some(i) ==> i < args@.len(),
        r is None ==> param_index(input_names(args@), name@) is None,
{
    proof {
        crate::route::param_binds_named_argument(input_names(args@), name@);
    }
    let mut i: usize = 0;
    let ghost ns = input_names(args@);
    assert(ns.skip(0) =~= ns);
    while i < args.len()
        invariant
            i <= args@.len(),
            ns == input_names(args@),
            ns.len() == args@.len(),
            param_index(ns, name@) == (match param_index(ns.skip(i as int), name@) {
                Some(k) => Some(k + i),
                None => None,
            }),
        decreases args@.len() - i,
    {
        let ghost rest = ns.skip(i as int);
        assert(rest[0] == ns[i as int]);
        assert(rest.drop_first() =~= ns.skip(i + 1));
        let found = if args[i].receiver {
            false
        } else {
            match &args[i].ident {
                Some(s) => {
                    let cs = chars_of(s.as_str());
                    same_chars(cs.as_slice(), name)
                },
                None => false,
            }
        };
        if found {
            return Some(i);
        }
        i = i + 1;
    }
    None
}

/// The path parameter that one segment of the route declares, if any.
fn segment_parameter(seg: &Vec<char>, args: &Vec<HandlerInput>) -> (r: Result<
    Option<Parameter>,
    AttrError,
>)
    ensures
        r matches Err(e) ==> segment_param(seg@, input_names(args@), input_types(args@))
            == Err::<Option<ParameterView>, AttrErrorView>(e@),
        r matches Ok(o) ==> segment_param(seg@, input_names(args@), input_types(args@))
            == Ok::<Option<ParameterView>, AttrErrorView>(
            match o {
                Some(p) => Some(p@),
                None => None,
            },
        ),
{
    if seg.len() > 0 && seg[0] == '{' {
        let n = seg.len();
        if n < 2 || !((seg[n - 1] as u32) < 128) {
            return Err(AttrError::MalformedParam(string_of(seg.as_slice())));
        }
        let mut name: Vec<char> = Vec::new();
        let mut k: usize = 1;
        while k < n - 1
            invariant
                1 <= k <= n - 1,
                n == seg@.len(),
                name@ =~= seg@.subrange(1, k as int),
            decreases n - 1 - k,
        {
            name.push(seg[k]);
            k = k + 1;
        }
        match find_arg(args, name.as_slice()) {
            None => Ok(None),
            Some(i) => {
                let mut schema = Schema::blank();
                schema.ref_path = args[i].rust_type.clone();
                let p = Parameter {
                    name: string_of(name.as_slice()),
                    location: Location::Path,
                    required: Some(true),
                    description: String::new(),
                    schema: Some(schema),
                };
                Ok(Some(p))
            },
        }
    } else {
        Ok(None)
    }
}

/// The path parameters that a route declares for the handler's arguments.
fn read_path_parameters(path: &str, args: &Vec<HandlerInput>) -> (r: Result<
    Vec<Parameter>,
    AttrError,
>)
    ensures
        r matches Ok(v) ==> path_parameters(path_segments(path@), input_names(args@), input_types(args@))
            == Ok::<Seq<ParameterView>, AttrErrorView>(parameter_views(v@)),
        r matches Err(e) ==> path_parameters(
            path_segments(path@),
            input_names(args@),
            input_types(args@),
        ) == Err::<Seq<ParameterView>, AttrErrorView>(e@),
{
    let ghost ns = input_names(args@);
    let ghost ts = input_types(args@);
    let p = chars_of(path);
    let segs = split_path(p.as_slice());
    let ghost sv = path_segments(path@);
    let mut out: Vec<Parameter> = Vec::new();
    let mut k: usize = 0;
    assert(sv.skip(0) =~= sv);
    assert(parameter_views(out@) =~= Seq::<ParameterView>::empty());
    while k < segs.len()
        invariant
            k <= segs@.len(),
            segs@.len() == sv.len(),
            sv == path_segments(path@),
            ns == input_names(args@),
            ts == input_types(args@),
            forall|j: int| 0 <= j < segs@.len() ==> #[trigger] segs@[j]@ == sv[j],
            path_parameters(sv, ns, ts) == (match path_parameters(sv.skip(k as int), ns, ts) {
                Ok(rest) => Ok(parameter_views(out@) + rest),
                Err(e) => Err(e),
            }),
        decreases segs@.len() - k,
    {
        let ghost rest = sv.skip(k as int);
        assert(rest[0] == sv[k as int]);
        assert(rest.drop_first() =~= sv.skip(k + 1));
        match segment_parameter(&segs[k], args) {
            Err(e) => {
                return Err(e);
            },
            Ok(None) => {},
            Ok(Some(prm)) => {
                let ghost before = out@;
                out.push(prm);
                assert(parameter_views(out@) =~= parameter_views(before) + seq![prm@]);
                proof {
                    match path_parameters(sv.skip(k + 1), ns, ts) {
                        Ok(r2) => {
                            assert(parameter_views(before) + (seq![prm@] + r2) =~= parameter_views(
                                out@,
                            ) + r2);
                        },
                        Err(_) => {},
                    }
                }
            },
        }
        k = k + 1;
    }
    assert(sv.skip(segs@.len() as int) =~= Seq::<Seq<char>>::empty());
    assert(parameter_views(out@) + Seq::<ParameterView>::empty() =~= parameter_views(out@));
    Ok(out)
}

/// The position of the first response with the given code, or the number
/// of responses when there is none.
fn response_pos(rs: &Vec<(String, Response)>, code: &String) -> (r: usize)
    ensures
        r as int == response_position(response_views(rs@), code@),
        r <= rs@.len(),
{
    let ghost v = response_views(rs@);
    let mut j: usize = 0;
    assert(v.skip(0) =~= v);
    while j < rs.len()
        invariant
            j <= rs@.len(),
            v == response_views(rs@),
            v.len() == rs@.len(),
            response_position(v, code@) == response_position(v.skip(j as int), code@) + j,
        decreases rs@.len() - j,
    {
        let ghost rest = v.skip(j as int);
        assert(rest[0] == v[j as int]);
        assert(rest.drop_first() =~= v.skip(j + 1));
        if rs[j].0 == *code {
            return j;
        }
        j = j + 1;
    }
    assert(v.skip(j as int) =~= Seq::<(Seq<char>, ResponseView)>::empty());
    j
}

/// Applies one `#[openapi(..)]` setting.
fn read_config(st: &mut Reading, c: &OpenapiConfig) -> (r: Result<(), AttrError>)
    ensures
        r is Ok ==> apply_config(old(st)@, *c) == Ok::<ReadState, AttrErrorView>(final(st)@),
        r matches Err(e) ==> apply_config(old(st)@, *c) == Err::<ReadState, AttrErrorView>(e@),
{
    match c {
        OpenapiConfig::Id(s) => {
            if !st.op.operation_id.as_str().is_empty() {
                return Err(AttrError::DuplicateId);
            }
            st.op.operation_id = s.clone();
            Ok(())
        },
        OpenapiConfig::Description(s) => {
            st.op.description = s.clone();
            st.has_description = true;
            Ok(())
        },
        OpenapiConfig::Summary(s) => {
            st.op.summary = s.clone();
            Ok(())
        },
        OpenapiConfig::Tags(ts) => {
            let ghost before = st.op.tags@;
            let mut k: usize = 0;
            while k < ts.len()
                invariant
                    k <= ts@.len(),
                    string_views(st.op.tags@) =~= string_views(before) + string_views(
                        ts@.take(k as int),
                    ),
                    st.op.summary == old(st).op.summary,
                    st.op.description == old(st).op.description,
                    st.op.operation_id == old(st).op.operation_id,
                    st.op.parameters == old(st).op.parameters,
                    st.op.responses == old(st).op.responses,
                    st.op.request_body == old(st).op.request_body,
                    st.has_description == old(st).has_description,
                    before == old(st).op.tags@,
                decreases ts@.len() - k,
            {
                let ghost prev = st.op.tags@;
                st.op.tags.push(ts[k].clone());
                assert(ts@.take(k + 1) =~= ts@.take(k as int).push(ts@[k as int]));
                assert(string_views(st.op.tags@) =~= string_views(prev).push(ts@[k as int]@));
                assert(string_views(ts@.take(k + 1)) =~= string_views(ts@.take(k as int)).push(
                    ts@[k as int]@,
                ));
                k = k + 1;
            }
            assert(ts@.take(ts@.len() as int) =~= ts@);
            Ok(())
        },
        OpenapiConfig::Response { code, description } => {
            let pos = response_pos(&st.op.responses, code);
            let ghost before = st.op.responses@;
            if pos < st.op.responses.len() {
                let mut entry = (String::new(), Response { description: String::new(), content: Vec::new() });
                std::mem::swap(&mut entry, &mut st.op.responses[pos]);
                let ghost old_content = entry.1@.content;
                assert(old_content == response_views(before)[pos as int].1.content);
                entry.0 = code.clone();
                entry.1.description = code.clone();
                st.op.responses.set(pos, entry);
                assert(response_views(st.op.responses@) =~= response_views(before).update(
                    pos as int,
                    (code@, ResponseView { description: code@, content: old_content }),
                ));
            } else {
                let fresh = Response { description: description.clone(), content: Vec::new() };
                assert(media_views(fresh.content@) =~= Seq::<(Seq<char>, Option<SchemaView>)>::empty());
                st.op.responses.push((code.clone(), fresh));
                assert(response_views(st.op.responses@) =~= response_views(before).push(
                    (code@, ResponseView { description: description@, content: Seq::empty() }),
                ));
            }
            Ok(())
        },
    }
}

/// Applies the settings of one `#[openapi(..)]` attribute in order.
fn read_configs(st: &mut Reading, cs: &Vec<OpenapiConfig>) -> (r: Result<(), AttrError>)
    ensures
        r is Ok ==> apply_configs(old(st)@, cs@) == Ok::<ReadState, AttrErrorView>(final(st)@),
        r matches Err(e) ==> apply_configs(old(st)@, cs@) == Err::<ReadState, AttrErrorView>(e@),
{
    let mut k: usize = 0;
    assert(cs@.skip(0) =~= cs@);
    while k < cs.len()
        invariant
            k <= cs@.len(),
            apply_configs(old(st)@, cs@) == apply_configs(st@, cs@.skip(k as int)),
        decreases cs@.len() - k,
    {
        let ghost rest = cs@.skip(k as int);
        assert(rest[0] == cs@[k as int]);
        assert(rest.drop_first() =~= cs@.skip(k + 1));
        match read_config(st, &cs[k]) {
            Err(e) => {
                return Err(e);
            },
            Ok(()) => {},
        }
        k = k + 1;
    }
    assert(cs@.skip(cs@.len() as int) =~= Seq::<OpenapiConfig>::empty());
    Ok(())
}

/// Adds a doc comment line to the description.
fn read_doc(st: &mut Reading, line: &String)
    ensures
        final(st)@ == apply_doc(old(st)@, line@),
{
    if !st.has_description {
        let ghost before = st.op.description@;
        let t = trim_start_text(line.as_str());
        if !st.op.description.as_str().is_empty() {
            st.op.description.append(" ");
            proof {
                reveal_strlit(" ");
            }
            assert(st.op.description@ =~= before + seq![' ']);
        } else {
            assert(st.op.description@ =~= before + Seq::<char>::empty());
        }
        st.op.description.append(t.as_str());
    }
}

/// Applies one attribute.
fn read_attr(st: &mut Reading, a: &OperationAttr) -> (r: Result<(), AttrError>)
    ensures
        r is Ok ==> apply_attr(old(st)@, *a) == Ok::<ReadState, AttrErrorView>(final(st)@),
        r matches Err(e) ==> apply_attr(old(st)@, *a) == Err::<ReadState, AttrErrorView>(e@),
{
    match a {
        OperationAttr::Openapi(cs) => read_configs(st, cs),
        OperationAttr::Doc(line) => {
            read_doc(st, line);
            Ok(())
        },
        OperationAttr::Other => Ok(()),
    }
}

/// Reads the operation that a handler declares: the path parameters that
/// its route binds to its arguments, then its attributes in order, where
/// `#[openapi(..)]` settings set the id, summary, description, tags and
/// responses, and doc comment lines make up the description unless one was
/// set. On success the `#[openapi(..)]` attributes are taken off the
/// handler and the others stay in their order; on failure the attributes
/// are left as they were.
pub fn parse(path: &str, args: &Vec<HandlerInput>, attrs: &mut Vec<OperationAttr>) -> (r: Result<
    Operation,
    AttrError,
>)
    ensures
        r matches Ok(op) ==> parsed_operation(path@, args@, old(attrs)@) == Ok::<
            OperationView,
            AttrErrorView,
        >(op@),
        r matches Ok(_) ==> final(attrs)@ == kept_attrs(old(attrs)@),
        r matches Err(e) ==> parsed_operation(path@, args@, old(attrs)@) == Err::<
            OperationView,
            AttrErrorView,
        >(e@),
        r is Err ==> final(attrs)@ == old(attrs)@,
{
    let params = match read_path_parameters(path, args) {
        Ok(v) => v,
        Err(e) => {
            return Err(e);
        },
    };
    let ghost pv = parameter_views(params@);
    let mut op = Operation::new();
    op.parameters = params;
    let mut st = Reading { op, has_description: false };
    assert(st@ == initial_state(pv));
    let ghost all = attrs@;
    let mut i: usize = 0;
    assert(all.skip(0) =~= all);
    while i < attrs.len()
        invariant
            i <= all.len(),
            all == attrs@,
            all == old(attrs)@,
            path_parameters(path_segments(path@), input_names(args@), input_types(args@)) == Ok::<
                Seq<ParameterView>,
                AttrErrorView,
            >(pv),
            apply_attrs(initial_state(pv), all) == apply_attrs(st@, all.skip(i as int)),
        decreases all.len() - i,
    {
        let ghost rest = all.skip(i as int);
        assert(rest[0] == all[i as int]);
        assert(rest.drop_first() =~= all.skip(i + 1));
        match read_attr(&mut st, &attrs[i]) {
            Err(e) => {
                return Err(e);
            },
            Ok(()) => {},
        }
        i = i + 1;
    }
    assert(all.skip(all.len() as int) =~= Seq::<OperationAttr>::empty());
    let total: usize = attrs.len();
    let mut pending: Vec<OperationAttr> = Vec::new();
    std::mem::swap(attrs, &mut pending);
    let mut j: usize = 0;
    assert(all.take(0) =~= Seq::<OperationAttr>::empty());
    while pending.len() > 0
        invariant
            j <= all.len(),
            all.len() == total,
            pending@ == all.skip(j as int),
            pending@.len() == all.len() - j,
            attrs@ == kept_attrs(all.take(j as int)),
        decreases pending@.len(),
    {
        let a = pending.remove(0);
        assert(all.take(j + 1).drop_last() =~= all.take(j as int));
        assert(all.take(j + 1).last() == a);
        assert(pending@ =~= all.skip(j + 1));
        let keep = match &a {
            OperationAttr::Openapi(_) => false,
            _ => true,
        };
        if keep {
            attrs.push(a);
        }
        j = j + 1;
    }
    assert(all.take(j as int) =~= all);
    Ok(st.op)
}

/// The attributes that stay are exactly the others: none of them is an
/// `#[openapi(..)]` attribute, and their number is that of the attributes
/// that are not.
pub proof fn kept_attrs_are_the_others(attrs: Seq<OperationAttr>)
    ensures
        forall|i: int| 0 <= i < kept_attrs(attrs).len() ==> !(#[trigger] kept_attrs(attrs)[i] is Openapi),
        kept_attrs(attrs).len() == attrs.filter(|a: OperationAttr| !(a is Openapi)).len(),
    decreases attrs.len(),
{
    reveal(Seq::filter);
    if attrs.len() > 0 {
        kept_attrs_are_the_others(attrs.drop_last());
        let rest = kept_attrs(attrs.drop_last());
        if !(attrs.last() is Openapi) {
            assert forall|i: int| 0 <= i < rest.push(attrs.last()).len() implies !(#[trigger] rest.push(
                attrs.last(),
            )[i] is Openapi) by {
                if i < rest.len() {
                    assert(rest.push(attrs.last())[i] == rest[i]);
                }
            }
        }
    }
}


/// The tags that settings give, in order.
pub open spec fn config_tags(cs: Seq<OpenapiConfig>) -> Seq<Seq<char>>
    decreases cs.len(),
{
    if cs.len() == 0 {
        Seq::empty()
    } else {
        (match cs[0] {
            OpenapiConfig::Tags(ts) => string_views(ts@),
            _ => Seq::empty(),
        }) + config_tags(cs.drop_first())
    }
}

/// The tags that the `#[openapi(..)]` attributes give, in order.
pub open spec fn attr_tags(attrs: Seq<OperationAttr>) -> Seq<Seq<char>>
    decreases attrs.len(),
{
    if attrs.len() == 0 {
        Seq::empty()
    } else {
        (match attrs[0] {
            OperationAttr::Openapi(cs) => config_tags(cs@),
            _ => Seq::empty(),
        }) + attr_tags(attrs.drop_first())
    }
}

/// Tags settings accumulate: settings read in order add the tags of each
/// tags setting after the tags already read, and nothing else touches them.
pub proof fn settings_append_tags(st: ReadState, cs: Seq<OpenapiConfig>)
    ensures
        apply_configs(st, cs) matches Ok(r) ==> r.op.tags == st.op.tags + config_tags(cs),
    decreases cs.len(),
{
    if cs.len() > 0 {
        if let Ok(s2) = apply_config(st, cs[0]) {
            settings_append_tags(s2, cs.drop_first());
            let first = match cs[0] {
                OpenapiConfig::Tags(ts) => string_views(ts@),
                _ => Seq::empty(),
            };
            assert(s2.op.tags =~= st.op.tags + first);
            assert(st.op.tags + first + config_tags(cs.drop_first()) =~= st.op.tags + (first
                + config_tags(cs.drop_first())));
        }
    }
}

/// Attributes read in order add the tags of every tags setting after the
/// tags already read; doc comments and other attributes leave them.
pub proof fn attributes_append_tags(st: ReadState, attrs: Seq<OperationAttr>)
    ensures
        apply_attrs(st, attrs) matches Ok(r) ==> r.op.tags == st.op.tags + attr_tags(attrs),
    decreases attrs.len(),
{
    if attrs.len() > 0 {
        if let Ok(s2) = apply_attr(st, attrs[0]) {
            attributes_append_tags(s2, attrs.drop_first());
            let first = match attrs[0] {
                OperationAttr::Openapi(cs) => config_tags(cs@),
                _ => Seq::empty(),
            };
            match attrs[0] {
                OperationAttr::Openapi(cs) => settings_append_tags(st, cs@),
                _ => {},
            }
            assert(s2.op.tags =~= st.op.tags + first);
            assert(st.op.tags + first + attr_tags(attrs.drop_first()) =~= st.op.tags + (first
                + attr_tags(attrs.drop_first())));
        }
    }
}

/// The tags of a handler's operation are those of its tags settings, in the
/// order of its attributes and of the settings in each.
pub proof fn operation_tags_are_the_settings(
    path: Seq<char>,
    args: Seq<HandlerInput>,
    attrs: Seq<OperationAttr>,
)
    ensures
        parsed_operation(path, args, attrs) matches Ok(op) ==> op.tags == attr_tags(attrs),
{
    match path_parameters(path_segments(path), input_names(args), input_types(args)) {
        Ok(ps) => {
            attributes_append_tags(initial_state(ps), attrs);
            assert(Seq::<Seq<char>>::empty() + attr_tags(attrs) =~= attr_tags(attrs));
        },
        Err(_) => {},
    }
}

} // verus!
