//! Openapi specification collection: a specification builder and the
//! collector that route definitions register their operations with.

use vstd::prelude::*;
use crate::entity::{
    clone_schema, component_views, same_schema, Entity, ResponseEntity, Schema, SchemaType, SchemaView,
};
use crate::extract::ExtractorKind;
use crate::http_types::{Method, MethodView};
use crate::util::{chars_of, string_of};

verus! {

/// General information about the API.
#[derive(Debug, Clone, PartialEq, Eq, Default)]
pub struct Info {
    pub title: String,
    pub description: Option<String>,
    pub version: String,
}

/// A server that hosts the API.
#[derive(Debug, Clone, PartialEq, Eq, Default)]
pub struct Server {
    pub url: String,
    pub description: Option<String>,
}

/// The body an operation reads: its content type, whether it must be
/// present, and its schema.
#[derive(Debug, Clone, PartialEq, Eq)]
pub struct RequestBody {
    pub content_type: String,
    pub required: bool,
    pub schema: Schema,
}

/// Where a parameter is passed.
#[derive(Debug, Clone, Copy, PartialEq, Eq, Structural)]
pub enum Location {
    Query,
    Header,
    Path,
    FormData,
}

/// A parameter of an operation. A path parameter's schema refers to the text
/// of the Rust type it is read as.
#[derive(Debug, Clone, PartialEq, Eq)]
pub struct Parameter {
    pub name: String,
    pub location: Location,
    pub required: Option<bool>,
    pub description: String,
    pub schema: Option<Schema>,
}

/// The schema of a response's body of one content type.
#[derive(Debug, Clone, PartialEq, Eq)]
pub struct MediaType {
    pub schema: Option<Schema>,
}

/// A response of an operation: its description, and its body by content
/// type.
#[derive(Debug, Clone, PartialEq, Eq)]
pub struct Response {
    pub description: String,
    pub content: Vec<(String, MediaType)>,
}

/// The view of an optional schema.
pub open spec fn opt_schema_view(o: Option<Schema>) -> Option<SchemaView> {
    match o {
        Some(s) => Some(s@),
        None => None,
    }
}

/// The views of the bodies of a response: each content type with its
/// schema.
pub open spec fn media_views(v: Seq<(String, MediaType)>) -> Seq<(Seq<char>, Option<SchemaView>)> {
    v.map_values(|m: (String, MediaType)| (m.0@, opt_schema_view(m.1.schema)))
}

/// Abstract value of a response.
pub struct ResponseView {
    pub description: Seq<char>,
    pub content: Seq<(Seq<char>, Option<SchemaView>)>,
}

impl View for Response {
    type V = ResponseView;

    open spec fn view(&self) -> ResponseView {
        ResponseView { description: self.description@, content: media_views(self.content@) }
    }
}

/// One operation on a path.
#[derive(Debug, Clone, PartialEq, Eq)]
pub struct Operation {
    pub tags: Vec<String>,
    pub summary: String,
    pub description: String,
    pub operation_id: String,
    pub parameters: Vec<Parameter>,
    pub responses: Vec<(String, Response)>,
    pub request_body: Option<RequestBody>,
}

/// Abstract value of a parameter.
pub struct ParameterView {
    pub name: Seq<char>,
    pub location: Location,
    pub required: Option<bool>,
    pub description: Seq<char>,
    pub schema: Option<SchemaView>,
}

impl View for Parameter {
    type V = ParameterView;

    open spec fn view(&self) -> ParameterView {
        ParameterView {
            name: self.name@,
            location: self.location,
            required: self.required,
            description: self.description@,
            schema: opt_schema_view(self.schema),
        }
    }
}

/// The views of a list of parameters.
pub open spec fn parameter_views(v: Seq<Parameter>) -> Seq<ParameterView> {
    v.map_values(|p: Parameter| p@)
}

/// The views of a list of responses: each code with its response.
pub open spec fn response_views(v: Seq<(String, Response)>) -> Seq<(Seq<char>, ResponseView)> {
    v.map_values(|r: (String, Response)| (r.0@, r.1@))
}

/// Abstract value of a request body.
pub struct RequestBodyView {
    pub content_type: Seq<char>,
    pub required: bool,
    pub schema: SchemaView,
}

/// Abstract value of an operation.
pub struct OperationView {
    pub tags: Seq<Seq<char>>,
    pub summary: Seq<char>,
    pub description: Seq<char>,
    pub operation_id: Seq<char>,
    pub parameters: Seq<ParameterView>,
    pub responses: Seq<(Seq<char>, ResponseView)>,
    pub request_body: Option<RequestBodyView>,
}

/// The views of a list of strings.
pub open spec fn string_views(v: Seq<String>) -> Seq<Seq<char>> {
    v.map_values(|s: String| s@)
}

impl View for RequestBody {
    type V = RequestBodyView;

    open spec fn view(&self) -> RequestBodyView {
        RequestBodyView {
            content_type: self.content_type@,
            required: self.required,
            schema: self.schema@,
        }
    }
}

impl View for Operation {
    type V = OperationView;

    open spec fn view(&self) -> OperationView {
        OperationView {
            tags: string_views(self.tags@),
            summary: self.summary@,
            description: self.description@,
            operation_id: self.operation_id@,
            parameters: parameter_views(self.parameters@),
            responses: response_views(self.responses@),
            request_body: match self.request_body {
                Some(b) => Some(b@),
                None => None,
            },
        }
    }
}

/// Whether two lists of strings hold the same texts.
pub fn same_strings(a: &Vec<String>, b: &Vec<String>) -> (r: bool)
    ensures
        r == (string_views(a@) == string_views(b@)),
{
    if a.len() != b.len() {
        assert(string_views(a@).len() != string_views(b@).len());
        return false;
    }
    let mut i: usize = 0;
    while i < a.len()
        invariant
            a@.len() == b@.len(),
            i <= a@.len(),
            forall|j: int| 0 <= j < i ==> a@[j]@ == b@[j]@,
        decreases a@.len() - i,
    {
        if a[i] != b[i] {
            assert(string_views(a@)[i as int] != string_views(b@)[i as int]);
            return false;
        }
        i = i + 1;
    }
    assert(string_views(a@) =~= string_views(b@));
    true
}

/// Whether two lists of parameters are the same.
pub fn same_parameters(a: &Vec<Parameter>, b: &Vec<Parameter>) -> (r: bool)
    ensures
        r == (parameter_views(a@) == parameter_views(b@)),
{
    if a.len() != b.len() {
        assert(parameter_views(a@).len() != parameter_views(b@).len());
        return false;
    }
    let mut i: usize = 0;
    while i < a.len()
        invariant
            a@.len() == b@.len(),
            i <= a@.len(),
            forall|j: int| 0 <= j < i ==> a@[j]@ == b@[j]@,
        decreases a@.len() - i,
    {
        let same = a[i].name == b[i].name && a[i].location == b[i].location && a[i].required
            == b[i].required && a[i].description == b[i].description && same_opt_schema(
            &a[i].schema,
            &b[i].schema,
        );
        if !same {
            assert(parameter_views(a@)[i as int] != parameter_views(b@)[i as int]);
            return false;
        }
        i = i + 1;
    }
    assert(parameter_views(a@) =~= parameter_views(b@));
    true
}

/// Whether two optional schemas are the same.
fn same_opt_schema(a: &Option<Schema>, b: &Option<Schema>) -> (r: bool)
    ensures
        r == (opt_schema_view(*a) == opt_schema_view(*b)),
{
    match (a, b) {
        (Some(x), Some(y)) => same_schema(x, y),
        (None, None) => true,
        _ => false,
    }
}

/// Whether two responses are the same.
fn same_response(a: &Response, b: &Response) -> (r: bool)
    ensures
        r == (a@ == b@),
{
    if a.description != b.description {
        return false;
    }
    if a.content.len() != b.content.len() {
        assert(a@.content.len() != b@.content.len());
        return false;
    }
    let mut i: usize = 0;
    while i < a.content.len()
        invariant
            a.content@.len() == b.content@.len(),
            i <= a.content@.len(),
            forall|j: int| 0 <= j < i ==> #[trigger] media_views(a.content@)[j] == media_views(b.content@)[j],
        decreases a.content@.len() - i,
    {
        if !(a.content[i].0 == b.content[i].0 && same_opt_schema(
            &a.content[i].1.schema,
            &b.content[i].1.schema,
        )) {
            assert(media_views(a.content@)[i as int] != media_views(b.content@)[i as int]);
            return false;
        }
        i = i + 1;
    }
    assert(media_views(a.content@) =~= media_views(b.content@));
    true
}

/// Whether two lists of responses are the same.
pub fn same_responses(a: &Vec<(String, Response)>, b: &Vec<(String, Response)>) -> (r: bool)
    ensures
        r == (response_views(a@) == response_views(b@)),
{
    if a.len() != b.len() {
        assert(response_views(a@).len() != response_views(b@).len());
        return false;
    }
    let mut i: usize = 0;
    while i < a.len()
        invariant
            a@.len() == b@.len(),
            i <= a@.len(),
            forall|j: int| 0 <= j < i ==> #[trigger] response_views(a@)[j] == response_views(b@)[j],
        decreases a@.len() - i,
    {
        if !(a[i].0 == b[i].0 && same_response(&a[i].1, &b[i].1)) {
            assert(response_views(a@)[i as int] != response_views(b@)[i as int]);
            return false;
        }
        i = i + 1;
    }
    assert(response_views(a@) =~= response_views(b@));
    true
}

impl Operation {
    /// An operation with no tags, texts or body.
    pub fn new() -> (r: Operation)
        ensures
            r@.tags == Seq::<Seq<char>>::empty(),
            r@.summary == Seq::<char>::empty(),
            r@.description == Seq::<char>::empty(),
            r@.operation_id == Seq::<char>::empty(),
            r@.parameters == Seq::<ParameterView>::empty(),
            r@.responses == Seq::<(Seq<char>, ResponseView)>::empty(),
            r@.request_body is None,
    {
        let r = Operation {
            tags: Vec::new(),
            summary: String::new(),
            description: String::new(),
            operation_id: String::new(),
            parameters: Vec::new(),
            responses: Vec::new(),
            request_body: None,
        };
        assert(string_views(r.tags@) =~= Seq::<Seq<char>>::empty());
        assert(parameter_views(r.parameters@) =~= Seq::<ParameterView>::empty());
        assert(response_views(r.responses@) =~= Seq::<(Seq<char>, ResponseView)>::empty());
        r
    }

    /// Whether two operations describe the same thing.
    pub fn same_as(&self, other: &Operation) -> (r: bool)
        ensures
            r == (self@ == other@),
    {
        let bodies = match (&self.request_body, &other.request_body) {
            (Some(a), Some(b)) => a.content_type == b.content_type && a.required == b.required
                && same_schema(&a.schema, &b.schema),
            (None, None) => true,
            _ => false,
        };
        same_strings(&self.tags, &other.tags) && self.summary == other.summary && self.description
            == other.description && self.operation_id == other.operation_id && same_parameters(
            &self.parameters,
            &other.parameters,
        ) && same_responses(&self.responses, &other.responses) && bodies
    }
}

/// The operations on one path, by method.
#[derive(Debug, Clone, PartialEq, Eq, Default)]
pub struct PathItem {
    pub get: Option<Operation>,
    pub put: Option<Operation>,
    pub post: Option<Operation>,
    pub delete: Option<Operation>,
    pub options: Option<Operation>,
    pub head: Option<Operation>,
    pub patch: Option<Operation>,
    pub trace: Option<Operation>,
}

/// The view of an optional operation.
pub open spec fn opt_op_view(o: Option<Operation>) -> Option<OperationView> {
    match o {
        Some(op) => Some(op@),
        None => None,
    }
}

/// A method that has a place in a path item: any standard method but
/// CONNECT.
pub open spec fn has_slot(m: MethodView) -> bool {
    match m {
        MethodView::Get | MethodView::Post | MethodView::Put | MethodView::Delete
        | MethodView::Head | MethodView::Options | MethodView::Patch | MethodView::Trace => true,
        _ => false,
    }
}

/// Abstract value of a path item: the operation of each method, if any.
pub struct PathItemView {
    pub get: Option<OperationView>,
    pub put: Option<OperationView>,
    pub post: Option<OperationView>,
    pub delete: Option<OperationView>,
    pub options: Option<OperationView>,
    pub head: Option<OperationView>,
    pub patch: Option<OperationView>,
    pub trace: Option<OperationView>,
}

impl View for PathItem {
    type V = PathItemView;

    open spec fn view(&self) -> PathItemView {
        PathItemView {
            get: opt_op_view(self.get),
            put: opt_op_view(self.put),
            post: opt_op_view(self.post),
            delete: opt_op_view(self.delete),
            options: opt_op_view(self.options),
            head: opt_op_view(self.head),
            patch: opt_op_view(self.patch),
            trace: opt_op_view(self.trace),
        }
    }
}

impl PathItemView {
    /// The operation of a method.
    pub open spec fn slot(self, m: MethodView) -> Option<OperationView> {
        match m {
            MethodView::Get => self.get,
            MethodView::Post => self.post,
            MethodView::Put => self.put,
            MethodView::Delete => self.delete,
            MethodView::Head => self.head,
            MethodView::Options => self.options,
            MethodView::Patch => self.patch,
            MethodView::Trace => self.trace,
            _ => None,
        }
    }

    /// The item with the operation of a method replaced.
    pub open spec fn with_slot(self, m: MethodView, o: Option<OperationView>) -> PathItemView {
        match m {
            MethodView::Get => PathItemView { get: o, ..self },
            MethodView::Post => PathItemView { post: o, ..self },
            MethodView::Put => PathItemView { put: o, ..self },
            MethodView::Delete => PathItemView { delete: o, ..self },
            MethodView::Head => PathItemView { head: o, ..self },
            MethodView::Options => PathItemView { options: o, ..self },
            MethodView::Patch => PathItemView { patch: o, ..self },
            MethodView::Trace => PathItemView { trace: o, ..self },
            _ => self,
        }
    }

    /// The item without any operation.
    pub open spec fn empty() -> PathItemView {
        PathItemView {
            get: None,
            put: None,
            post: None,
            delete: None,
            options: None,
            head: None,
            patch: None,
            trace: None,
        }
    }
}

impl PathItem {
    /// A path item without operations.
    pub fn new() -> (r: PathItem)
        ensures
            r@ == PathItemView::empty(),
    {
        PathItem {
            get: None,
            put: None,
            post: None,
            delete: None,
            options: None,
            head: None,
            patch: None,
            trace: None,
        }
    }

    /// Takes the operation of a method out of the item.
    fn take_slot(&mut self, m: &Method) -> (r: Option<Operation>)
        requires
            has_slot(m@),
        ensures
            opt_op_view(r) == old(self)@.slot(m@),
            final(self)@ == old(self)@.with_slot(m@, None),
    {
        let mut taken: Option<Operation> = None;
        match m {
            Method::Get => std::mem::swap(&mut taken, &mut self.get),
            Method::Post => std::mem::swap(&mut taken, &mut self.post),
            Method::Put => std::mem::swap(&mut taken, &mut self.put),
            Method::Delete => std::mem::swap(&mut taken, &mut self.delete),
            Method::Head => std::mem::swap(&mut taken, &mut self.head),
            Method::Options => std::mem::swap(&mut taken, &mut self.options),
            Method::Patch => std::mem::swap(&mut taken, &mut self.patch),
            _ => std::mem::swap(&mut taken, &mut self.trace),
        }
        taken
    }

    /// Puts an operation in the place of a method.
    fn put_slot(&mut self, m: &Method, o: Option<Operation>)
        requires
            has_slot(m@),
        ensures
            final(self)@ == old(self)@.with_slot(m@, opt_op_view(o)),
    {
        match m {
            Method::Get => self.get = o,
            Method::Post => self.post = o,
            Method::Put => self.put = o,
            Method::Delete => self.delete = o,
            Method::Head => self.head = o,
            Method::Options => self.options = o,
            Method::Patch => self.patch = o,
            _ => self.trace = o,
        }
    }
}

/// An openapi specification.
#[derive(Debug, Clone, PartialEq, Eq, Default)]
pub struct Spec {
    pub openapi: String,
    pub info: Info,
    pub servers: Vec<Server>,
    pub paths: Vec<(String, PathItem)>,
    /// The schemas that references refer to, once there is one.
    pub components: Option<Vec<(String, Schema)>>,
}

/// The view of the components of a specification.
pub open spec fn components_view(c: Option<Vec<(String, Schema)>>) -> Option<
    Seq<(Seq<char>, SchemaView)>,
> {
    match c {
        Some(v) => Some(component_views(v@)),
        None => None,
    }
}

/// The position of the entry of a key, or the number of entries when there
/// is none.
pub open spec fn keyed_position<V>(m: Seq<(Seq<char>, V)>, k: Seq<char>) -> int
    decreases m.len(),
{
    if m.len() == 0 {
        0
    } else if m[0].0 == k {
        0
    } else {
        1 + keyed_position(m.drop_first(), k)
    }
}

/// The entries with a key's value set: in the place of its entry when it
/// has one, else at the end.
pub open spec fn keyed_insert<V>(m: Seq<(Seq<char>, V)>, k: Seq<char>, v: V) -> Seq<(Seq<char>, V)> {
    let i = keyed_position(m, k);
    if i < m.len() {
        m.update(i, (k, v))
    } else {
        m.push((k, v))
    }
}

/// The entries with each new entry set, in order.
pub open spec fn keyed_insert_all<V>(m: Seq<(Seq<char>, V)>, new: Seq<(Seq<char>, V)>) -> Seq<
    (Seq<char>, V),
>
    decreases new.len(),
{
    if new.len() == 0 {
        m
    } else {
        keyed_insert_all(keyed_insert(m, new[0].0, new[0].1), new.drop_first())
    }
}

/// The components after adding some: a specification gets components with
/// its first one; each one replaces the schema of its name, or comes last.
pub open spec fn with_components(
    c: Option<Seq<(Seq<char>, SchemaView)>>,
    new: Seq<(Seq<char>, SchemaView)>,
) -> Option<Seq<(Seq<char>, SchemaView)>> {
    if new.len() == 0 {
        c
    } else {
        Some(
            keyed_insert_all(
                match c {
                    Some(m) => m,
                    None => Seq::empty(),
                },
                new,
            ),
        )
    }
}

/// The value of a key, when it has an entry.
pub open spec fn keyed_get<V>(m: Seq<(Seq<char>, V)>, k: Seq<char>) -> Option<V> {
    let i = keyed_position(m, k);
    if i < m.len() {
        Some(m[i].1)
    } else {
        None
    }
}

/// Entries with the same keys in the same places find a key at the same
/// position.
proof fn lemma_same_keys_same_position<V>(a: Seq<(Seq<char>, V)>, b: Seq<(Seq<char>, V)>, k: Seq<char>)
    requires
        a.len() == b.len(),
        forall|i: int| 0 <= i < a.len() ==> #[trigger] a[i].0 == b[i].0,
    ensures
        keyed_position(a, k) == keyed_position(b, k),
    decreases a.len(),
{
    if a.len() > 0 {
        assert(a[0].0 == b[0].0);
        assert forall|i: int| 0 <= i < a.drop_first().len() implies #[trigger] a.drop_first()[i].0
            == b.drop_first()[i].0 by {
            assert(a[i + 1].0 == b[i + 1].0);
        }
        lemma_same_keys_same_position(a.drop_first(), b.drop_first(), k);
    }
}

/// Where a key is found after an entry is added at the end.
proof fn lemma_push_position<V>(m: Seq<(Seq<char>, V)>, e: (Seq<char>, V), k: Seq<char>)
    ensures
        keyed_position(m.push(e), k) == if keyed_position(m, k) < m.len() {
            keyed_position(m, k)
        } else if e.0 == k {
            m.len() as int
        } else {
            m.len() + 1int
        },
    decreases m.len(),
{
    lemma_keyed_position_bounds(m, k);
    if m.len() == 0 {
        assert(m.push(e).drop_first() =~= Seq::<(Seq<char>, V)>::empty());
        assert(keyed_position(Seq::<(Seq<char>, V)>::empty(), k) == 0);
        assert(m.push(e)[0] == e);
    } else {
        assert(m.push(e)[0] == m[0]);
        assert(m.push(e).drop_first() =~= m.drop_first().push(e));
        lemma_push_position(m.drop_first(), e, k);
        lemma_keyed_position_bounds(m.drop_first(), k);
        if m[0].0 != k {
            assert(keyed_position(m, k) == 1 + keyed_position(m.drop_first(), k));
            assert(keyed_position(m.push(e), k) == 1 + keyed_position(m.drop_first().push(e), k));
        }
    }
}

/// Setting a key's value reads back: the key then has that value, and every
/// other key keeps the value it had.
pub proof fn keyed_insert_reads_back<V>(m: Seq<(Seq<char>, V)>, k: Seq<char>, v: V, other: Seq<char>)
    ensures
        keyed_get(keyed_insert(m, k, v), k) == Some(v),
        other != k ==> keyed_get(keyed_insert(m, k, v), other) == keyed_get(m, other),
{
    lemma_keyed_position_bounds(m, k);
    lemma_keyed_position_bounds(m, other);
    let i = keyed_position(m, k);
    if i < m.len() {
        let m2 = m.update(i, (k, v));
        lemma_same_keys_same_position(m, m2, k);
        lemma_same_keys_same_position(m, m2, other);
        if other != k {
            let j = keyed_position(m, other);
            if j < m.len() {
                assert(j != i);
            }
        }
    } else {
        lemma_push_position(m, (k, v), k);
        lemma_push_position(m, (k, v), other);
    }
}

/// Setting a key twice leaves the second value, in the place the first
/// setting gave it.
pub proof fn keyed_insert_twice<V>(m: Seq<(Seq<char>, V)>, k: Seq<char>, a: V, b: V)
    ensures
        keyed_insert(keyed_insert(m, k, a), k, b) == keyed_insert(m, k, b),
{
    lemma_keyed_position_bounds(m, k);
    let i = keyed_position(m, k);
    if i < m.len() {
        let m2 = m.update(i, (k, a));
        lemma_same_keys_same_position(m, m2, k);
        assert(m2.update(i, (k, b)) =~= m.update(i, (k, b)));
    } else {
        lemma_push_position(m, (k, a), k);
        assert(m.push((k, a)).update(m.len() as int, (k, b)) =~= m.push((k, b)));
    }
}

/// A keyed position is within bounds.
pub proof fn lemma_keyed_position_bounds<V>(m: Seq<(Seq<char>, V)>, k: Seq<char>)
    ensures
        0 <= keyed_position(m, k) <= m.len(),
        keyed_position(m, k) < m.len() ==> m[keyed_position(m, k)].0 == k,
    decreases m.len(),
{
    if m.len() > 0 && m[0].0 != k {
        lemma_keyed_position_bounds(m.drop_first(), k);
    }
}

/// The views of the paths of a specification.
pub open spec fn paths_view(paths: Seq<(String, PathItem)>) -> Seq<(Seq<char>, PathItemView)> {
    paths.map_values(|e: (String, PathItem)| (e.0@, e.1@))
}

/// The paths of a sequence of entries, in order.
pub open spec fn view_keys(ps: Seq<(Seq<char>, PathItemView)>) -> Seq<Seq<char>> {
    ps.map_values(|p: (Seq<char>, PathItemView)| p.0)
}

/// The paths that a specification describes, in order.
pub open spec fn path_keys(s: Spec) -> Seq<Seq<char>> {
    view_keys(paths_view(s.paths@))
}

/// What registering routes does to a specification: its version, information
/// and servers stay, every path keeps its place, and new paths come after the
/// old ones.
pub open spec fn grows_from(before: Spec, after: Spec) -> bool {
    &&& after.openapi == before.openapi
    &&& after.info == before.info
    &&& after.servers == before.servers
    &&& path_keys(before).len() <= path_keys(after).len()
    &&& path_keys(after).take(path_keys(before).len() as int) == path_keys(before)
}

/// A specification grows from itself, and growth composes: what grows from
/// a specification that grew from a first one grows from that first one.
pub proof fn growth_composes(a: Spec, b: Spec, c: Spec)
    requires
        grows_from(a, b),
        grows_from(b, c),
    ensures
        grows_from(a, a),
        grows_from(a, c),
{
    assert(path_keys(a).take(path_keys(a).len() as int) =~= path_keys(a));
    let ka = path_keys(a);
    let kb = path_keys(b);
    let kc = path_keys(c);
    assert(kc.take(ka.len() as int) =~= kb.take(ka.len() as int));
}

/// The position of the first entry for a path, or the number of entries
/// when there is none.
pub open spec fn path_position(ps: Seq<(Seq<char>, PathItemView)>, key: Seq<char>) -> int
    decreases ps.len(),
{
    if ps.len() == 0 {
        0
    } else if ps[0].0 == key {
        0
    } else {
        1 + path_position(ps.drop_first(), key)
    }
}

pub proof fn lemma_path_position_bounds(ps: Seq<(Seq<char>, PathItemView)>, key: Seq<char>)
    ensures
        0 <= path_position(ps, key) <= ps.len(),
        path_position(ps, key) < ps.len() ==> ps[path_position(ps, key)].0 == key,
        forall|j: int| 0 <= j < path_position(ps, key) ==> ps[j].0 != key,
    decreases ps.len(),
{
    if ps.len() > 0 && ps[0].0 != key {
        lemma_path_position_bounds(ps.drop_first(), key);
        assert forall|j: int| 0 <= j < path_position(ps, key) implies ps[j].0 != key by {
            if j > 0 {
                assert(ps[j] == ps.drop_first()[j - 1]);
            }
        }
    }
}

/// The item stored for a path, or an empty one.
pub open spec fn item_at(ps: Seq<(Seq<char>, PathItemView)>, key: Seq<char>) -> PathItemView {
    let i = path_position(ps, key);
    if i < ps.len() {
        ps[i].1
    } else {
        PathItemView::empty()
    }
}

/// The paths with the item of a path replaced, or the path added at the end
/// when it has no item yet.
pub open spec fn with_item(
    ps: Seq<(Seq<char>, PathItemView)>,
    key: Seq<char>,
    item: PathItemView,
) -> Seq<(Seq<char>, PathItemView)> {
    let i = path_position(ps, key);
    if i < ps.len() {
        ps.update(i, (key, item))
    } else {
        ps.push((key, item))
    }
}

/// A specification whose version, information, servers and paths are those
/// of another grows from it.
pub proof fn lemma_same_paths_grow(a: Spec, b: Spec)
    requires
        b.openapi == a.openapi,
        b.info == a.info,
        b.servers == a.servers,
        b.paths == a.paths,
    ensures
        grows_from(a, b),
{
    assert(path_keys(b).take(path_keys(a).len() as int) =~= path_keys(a));
}

/// A registration keeps every path in its place, and a new path comes last.
pub proof fn lemma_with_item_keeps_paths(
    ps: Seq<(Seq<char>, PathItemView)>,
    key: Seq<char>,
    item: PathItemView,
)
    ensures
        view_keys(ps).len() <= view_keys(with_item(ps, key, item)).len(),
        view_keys(with_item(ps, key, item)).take(view_keys(ps).len() as int) == view_keys(ps),
{
    lemma_path_position_bounds(ps, key);
    let qs = with_item(ps, key, item);
    assert(view_keys(qs).take(view_keys(ps).len() as int) =~= view_keys(ps));
}

/// What a registration stores is what is found under its path afterwards,
/// and every other path keeps its item.
pub proof fn registered_item_found(
    ps: Seq<(Seq<char>, PathItemView)>,
    key: Seq<char>,
    item: PathItemView,
    other: Seq<char>,
)
    ensures
        item_at(with_item(ps, key, item), key) == item,
        other != key ==> item_at(with_item(ps, key, item), other) == item_at(ps, other),
{
    lemma_path_position_bounds(ps, key);
    lemma_path_position_bounds(ps, other);
    let qs = with_item(ps, key, item);
    lemma_path_position_bounds(qs, key);
    lemma_path_position_bounds(qs, other);
    let i = path_position(ps, key);
    let iq = path_position(qs, key);
    assert(forall|j: int| 0 <= j < ps.len() && j != i ==> qs[j] == ps[j]);
    if iq < i {
        assert(qs[iq] == ps[iq]);
    }
    if iq > i {
        assert(qs[i].0 == key);
    }
    assert(iq == i);
    if other != key {
        let o = path_position(ps, other);
        let oq = path_position(qs, other);
        if oq < o {
            if oq != i {
                assert(qs[oq] == ps[oq]);
            }
        }
        if oq > o && o < ps.len() {
            assert(o != i);
            assert(qs[o] == ps[o]);
        }
        if o == ps.len() && oq < o {
            assert(oq != i);
        }
        assert(oq == o || (o == ps.len() && oq == qs.len()));
    }
}

/// The operation registered for a method: the one already there, or the new
/// one, with the collector's tags appended.
pub open spec fn registered(
    existing: Option<OperationView>,
    op: OperationView,
    tags: Seq<Seq<char>>,
) -> OperationView {
    let base = match existing {
        Some(e) => e,
        None => op,
    };
    OperationView { tags: base.tags + tags, ..base }
}

/// Registering an operation for a path and method keeps the tags the stored
/// operation had and appends the collector's tags: an operation new to the
/// path and method is stored as given, its own tags followed by the
/// collector's; one already there keeps everything and gains the collector's
/// tags after its own.
pub proof fn registration_appends_scope_tags(
    ps: Seq<(Seq<char>, PathItemView)>,
    key: Seq<char>,
    m: MethodView,
    op: OperationView,
    tags: Seq<Seq<char>>,
)
    requires
        has_slot(m),
    ensures
        ({
            let item = item_at(ps, key);
            let after = with_item(
                ps,
                key,
                item.with_slot(m, Some(registered(item.slot(m), op, tags))),
            );
            let stored = item_at(after, key).slot(m);
            &&& item.slot(m) is None ==> stored == Some(OperationView { tags: op.tags + tags, ..op })
            &&& item.slot(m) matches Some(e) ==> stored == Some(
                OperationView { tags: e.tags + tags, ..e },
            )
            &&& stored matches Some(o) && o.tags.len() >= tags.len() && o.tags.subrange(
                o.tags.len() - tags.len(),
                o.tags.len() as int,
            ) == tags
        }),
{
    let item = item_at(ps, key);
    let new_item = item.with_slot(m, Some(registered(item.slot(m), op, tags)));
    registered_item_found(ps, key, new_item, key);
    let o = registered(item.slot(m), op, tags);
    assert(new_item.slot(m) == Some(o));
    let base = match item.slot(m) {
        Some(e) => e,
        None => op,
    };
    assert(o.tags.subrange(o.tags.len() - tags.len(), o.tags.len() as int) =~= tags);
    assert(o.tags == base.tags + tags);
}

impl Spec {
    /// A specification with no version, empty information, no servers and
    /// no paths.
    pub fn empty() -> (r: Spec)
        ensures
            r.openapi@ == Seq::<char>::empty(),
            r.info.title@ == Seq::<char>::empty(),
            r.info.description is None,
            r.info.version@ == Seq::<char>::empty(),
            r.servers@ == Seq::<Server>::empty(),
            r.paths@ == Seq::<(String, PathItem)>::empty(),
            r.components is None,
    {
        Spec {
            openapi: String::new(),
            info: Info { title: String::new(), description: None, version: String::new() },
            servers: Vec::new(),
            paths: Vec::new(),
            components: None,
        }
    }
}

/// Where a scope of a collector began: the lengths of its prefix and of its
/// tags.
#[derive(Debug, Clone, Copy)]
pub struct ScopeMark {
    prefix_len: usize,
    tags_len: usize,
}

impl ScopeMark {
    pub closed spec fn prefix_len_of(&self) -> usize {
        self.prefix_len
    }

    pub closed spec fn tags_len_of(&self) -> usize {
        self.tags_len
    }
}

/// Collects the operations of the routes of an application.
#[derive(Debug)]
pub struct Collector {
    spec: Spec,
    path_prefix: Vec<char>,
    tags: Vec<String>,
}

impl Collector {
    /// The specification collected so far.
    pub closed spec fn spec_of(&self) -> Spec {
        self.spec
    }

    /// The prefix of the paths registered now.
    pub closed spec fn prefix_of(&self) -> Seq<char> {
        self.path_prefix@
    }

    /// The tags given to the operations registered now.
    pub closed spec fn tags_of(&self) -> Seq<Seq<char>> {
        string_views(self.tags@)
    }

    /// A collector with the given specification and path prefix, and no tags.
    pub fn new(spec: Spec, prefix: &str) -> (r: Collector)
        ensures
            r.spec_of() == spec,
            r.prefix_of() == prefix@,
            r.tags_of() == Seq::<Seq<char>>::empty(),
    {
        let r = Collector { spec, path_prefix: chars_of(prefix), tags: Vec::new() };
        assert(string_views(r.tags@) =~= Seq::<Seq<char>>::empty());
        r
    }

    /// The specification collected.
    pub fn into_spec(self) -> (r: Spec)
        ensures
            r == self.spec_of(),
    {
        self.spec
    }

    /// Appends a prefix to the paths and tags to the operations registered
    /// from now on, until the scope is left.
    pub fn enter_scope(&mut self, prefix: &str, tags: Vec<String>) -> (r: ScopeMark)
        ensures
            final(self).prefix_of() == old(self).prefix_of() + prefix@,
            final(self).tags_of() == old(self).tags_of() + string_views(tags@),
            final(self).spec_of() == old(self).spec_of(),
            r.prefix_len_of() == old(self).prefix_of().len(),
            r.tags_len_of() == old(self).tags_of().len(),
    {
        let mark = ScopeMark { prefix_len: self.path_prefix.len(), tags_len: self.tags.len() };
        let extra = chars_of(prefix);
        let ghost p0 = self.path_prefix@;
        let ghost t0 = self.tags@;
        let mut k: usize = 0;
        while k < extra.len()
            invariant
                k <= extra@.len(),
                self.path_prefix@ == p0 + extra@.take(k as int),
                self.tags@ == t0,
                self.spec == old(self).spec,
            decreases extra@.len() - k,
        {
            self.path_prefix.push(extra[k]);
            assert(extra@.take(k + 1) =~= extra@.take(k as int).push(extra@[k as int]));
            k = k + 1;
        }
        assert(extra@.take(extra@.len() as int) =~= extra@);
        let mut j: usize = 0;
        while j < tags.len()
            invariant
                j <= tags@.len(),
                self.path_prefix@ == p0 + extra@,
                self.tags@ == t0 + tags@.take(j as int),
                self.spec == old(self).spec,
            decreases tags@.len() - j,
        {
            self.tags.push(tags[j].clone());
            assert(tags@.take(j + 1) =~= tags@.take(j as int).push(tags@[j as int]));
            j = j + 1;
        }
        assert(tags@.take(tags@.len() as int) =~= tags@);
        assert(string_views(self.tags@) =~= string_views(t0) + string_views(tags@));
        mark
    }

    /// Leaves a scope: the prefix and the tags are cut back to what they were
    /// when it was entered.
    pub fn exit_scope(&mut self, mark: ScopeMark)
        requires
            mark.prefix_len_of() <= old(self).prefix_of().len(),
            mark.tags_len_of() <= old(self).tags_of().len(),
        ensures
            final(self).prefix_of() == old(self).prefix_of().take(mark.prefix_len_of() as int),
            final(self).tags_of() == old(self).tags_of().take(mark.tags_len_of() as int),
            final(self).spec_of() == old(self).spec_of(),
    {
        self.path_prefix.truncate(mark.prefix_len);
        self.tags.truncate(mark.tags_len);
        assert(string_views(self.tags@) =~= string_views(old(self).tags@).take(
            mark.tags_len as int,
        ));
    }

    /// Runs `op` on this collector with `prefix` appended to its path prefix
    /// and `tags` to its tags (as `#[router]` does for its routes), then cuts
    /// prefix and tags back to their lengths before the call; what `op`
    /// registers stays. The prefix and tags that `op` hands back must be at
    /// least as long as those before the call. When `op` hands them back as
    /// it found them, the collector ends with the prefix and tags it had.
    pub fn with_appended_prefix<F, Ret>(&mut self, prefix: &str, tags: Vec<String>, op: F) -> (r:
        Ret) where F: FnOnce(Collector) -> (Collector, Ret)
        requires
            forall|c: Collector|
                c.prefix_of() == old(self).prefix_of() + prefix@ && c.tags_of() == old(
                    self,
                ).tags_of() + string_views(tags@) && c.spec_of() == old(self).spec_of()
                    ==> #[trigger] op.requires((c,)),
            forall|c: Collector, out: (Collector, Ret)|
                c.prefix_of() == old(self).prefix_of() + prefix@ && c.tags_of() == old(
                    self,
                ).tags_of() + string_views(tags@) && c.spec_of() == old(self).spec_of()
                    && #[trigger] op.ensures((c,), out) ==> out.0.prefix_of().len() >= old(
                    self,
                ).prefix_of().len() && out.0.tags_of().len() >= old(self).tags_of().len(),
        ensures
            exists|c: Collector, out: Collector|
                {
                    &&& c.prefix_of() == old(self).prefix_of() + prefix@
                    &&& c.tags_of() == old(self).tags_of() + string_views(tags@)
                    &&& c.spec_of() == old(self).spec_of()
                    &&& #[trigger] op.ensures((c,), (out, r))
                    &&& final(self).spec_of() == out.spec_of()
                    &&& final(self).prefix_of() == out.prefix_of().take(
                        old(self).prefix_of().len() as int,
                    )
                    &&& final(self).tags_of() == out.tags_of().take(
                        old(self).tags_of().len() as int,
                    )
                },
            (forall|c: Collector, out: (Collector, Ret)|
                #[trigger] op.ensures((c,), out) ==> out.0.prefix_of() == c.prefix_of()
                    && out.0.tags_of() == c.tags_of()) ==> final(self).prefix_of() == old(
                self,
            ).prefix_of() && final(self).tags_of() == old(self).tags_of(),
    {
        let mark = self.enter_scope(prefix, tags);
        let mut current = Collector { spec: Spec::empty(), path_prefix: Vec::new(), tags: Vec::new() };
        std::mem::swap(&mut current, self);
        let ghost entered = current;
        let (back, ret) = op(current);
        let ghost out = back;
        assert(op.ensures((entered,), (out, ret)));
        *self = back;
        self.exit_scope(mark);
        proof {
            assert(old(self).prefix_of() + prefix@ == entered.prefix_of());
            assert((old(self).prefix_of() + prefix@).take(old(self).prefix_of().len() as int)
                =~= old(self).prefix_of());
            assert((old(self).tags_of() + string_views(tags@)).take(old(self).tags_of().len() as int)
                =~= old(self).tags_of());
        }
        ret
    }

    /// Adds components to the specification.
    pub fn add_components(&mut self, components: Vec<(String, Schema)>)
        ensures
            components_view(final(self).spec_of().components) == with_components(
                components_view(old(self).spec_of().components),
                component_views(components@),
            ),
            final(self).spec_of().paths == old(self).spec_of().paths,
            final(self).spec_of().openapi == old(self).spec_of().openapi,
            final(self).spec_of().info == old(self).spec_of().info,
            final(self).spec_of().servers == old(self).spec_of().servers,
            final(self).prefix_of() == old(self).prefix_of(),
            final(self).tags_of() == old(self).tags_of(),
            grows_from(old(self).spec_of(), final(self).spec_of()),
    {
        proof {
            lemma_same_paths_grow(self.spec, self.spec);
        }
        if components.len() == 0 {
            assert(component_views(components@).len() == 0);
            return;
        }
        let ghost old_components = self.spec.components;
        let mut current = match self.spec.components.take() {
            Some(v) => v,
            None => Vec::new(),
        };
        let ghost start = component_views(current@);
        assert(start == match components_view(old_components) {
            Some(m) => m,
            None => Seq::<(Seq<char>, SchemaView)>::empty(),
        });
        let ghost all = component_views(components@);
        let mut pending = components;
        assert(all.skip(0) =~= all);
        while pending.len() > 0
            invariant
                all.len() > 0,
                component_views(pending@) == all.skip(all.len() - pending@.len()),
                pending@.len() <= all.len(),
                keyed_insert_all(start, all) == keyed_insert_all(
                    component_views(current@),
                    component_views(pending@),
                ),
            decreases pending@.len(),
        {
            let ghost rest = component_views(pending@);
            let (k, v) = pending.remove(0);
            assert(rest.drop_first() =~= component_views(pending@));
            assert(rest[0] == (k@, v@));
            insert_component(&mut current, k, v);
        }
        assert(component_views(pending@) =~= Seq::<(Seq<char>, SchemaView)>::empty());
        assert(keyed_insert_all(start, all) == component_views(current@));
        self.spec.components = Some(current);
        assert(components_view(self.spec.components) == Some(keyed_insert_all(start, all)));
        proof {
            lemma_same_paths_grow(old(self).spec, self.spec);
        }
    }

    /// Records in an operation what a request extractor reads, from the
    /// schema of the value it gives and the components that schema needs:
    /// the components are added; an extractor of the whole body gives the
    /// operation a body of its content type and schema, required unless the
    /// extractor is optional; an extractor of the query adds a query
    /// parameter for each property of an object schema. An operation has at
    /// most one body, and a query is not an enumeration.
    pub fn add_request_type_to(
        &mut self,
        kind: ExtractorKind,
        schema: Schema,
        components: Vec<(String, Schema)>,
        op: &mut Operation,
    )
        requires
            kind.is_body ==> old(op).request_body is None,
            kind.is_query ==> schema@.enum_values.len() == 0,
        ensures
            components_view(final(self).spec_of().components) == with_components(
                components_view(old(self).spec_of().components),
                component_views(components@),
            ),
            final(self).spec_of().paths == old(self).spec_of().paths,
            grows_from(old(self).spec_of(), final(self).spec_of()),
            final(self).prefix_of() == old(self).prefix_of(),
            final(self).tags_of() == old(self).tags_of(),
            final(op)@ == (OperationView {
                request_body: if kind.is_body {
                    Some(
                        RequestBodyView {
                            content_type: kind.content_type@,
                            required: !kind.is_optional,
                            schema: schema@,
                        },
                    )
                } else {
                    old(op)@.request_body
                },
                parameters: if kind.is_query {
                    old(op)@.parameters + query_parameters(schema@)
                } else {
                    old(op)@.parameters
                },
                ..old(op)@
            }),
    {
        self.add_components(components);
        if kind.is_query {
            add_query_parameters(&schema, op);
        }
        if kind.is_body {
            op.request_body = Some(
                RequestBody {
                    content_type: kind.content_type.to_owned(),
                    required: !kind.is_optional,
                    schema,
                },
            );
        }
    }

    /// Records in an operation the responses that a reply type describes,
    /// with the components their schemas need: each response replaces the
    /// one of its code, or comes last.
    pub fn add_response_to(
        &mut self,
        components: Vec<(String, Schema)>,
        responses: Vec<(String, Response)>,
        op: &mut Operation,
    )
        ensures
            components_view(final(self).spec_of().components) == with_components(
                components_view(old(self).spec_of().components),
                component_views(components@),
            ),
            final(self).spec_of().paths == old(self).spec_of().paths,
            grows_from(old(self).spec_of(), final(self).spec_of()),
            final(self).prefix_of() == old(self).prefix_of(),
            final(self).tags_of() == old(self).tags_of(),
            final(op)@ == (OperationView {
                responses: keyed_insert_all(old(op)@.responses, response_views(responses@)),
                ..old(op)@
            }),
    {
        self.add_components(components);
        merge_responses(&mut op.responses, responses);
    }

    /// Records in an operation what an extractor of `T` reads: the schema
    /// and components of `T`, as `add_request_type_to` records them.
    pub fn add_request_entity<T: Entity>(&mut self, kind: ExtractorKind, op: &mut Operation)
        requires
            kind.is_body ==> old(op).request_body is None,
            kind.is_query ==> T::schema_of().enum_values.len() == 0,
        ensures
            components_view(final(self).spec_of().components) == with_components(
                components_view(old(self).spec_of().components),
                T::components_of(),
            ),
            final(self).spec_of().paths == old(self).spec_of().paths,
            grows_from(old(self).spec_of(), final(self).spec_of()),
            final(self).prefix_of() == old(self).prefix_of(),
            final(self).tags_of() == old(self).tags_of(),
            final(op)@ == (OperationView {
                request_body: if kind.is_body {
                    Some(
                        RequestBodyView {
                            content_type: kind.content_type@,
                            required: !kind.is_optional,
                            schema: T::schema_of(),
                        },
                    )
                } else {
                    old(op)@.request_body
                },
                parameters: if kind.is_query {
                    old(op)@.parameters + query_parameters(T::schema_of())
                } else {
                    old(op)@.parameters
                },
                ..old(op)@
            }),
    {
        let components = T::describe_components();
        let schema = T::describe();
        self.add_request_type_to(kind, schema, components, op);
    }

    /// Records in an operation the responses of a reply of type `T`, with
    /// the components its schema needs.
    pub fn add_response_entity<T: ResponseEntity>(&mut self, op: &mut Operation)
        ensures
            components_view(final(self).spec_of().components) == with_components(
                components_view(old(self).spec_of().components),
                T::components_of(),
            ),
            final(self).spec_of().paths == old(self).spec_of().paths,
            grows_from(old(self).spec_of(), final(self).spec_of()),
            final(self).prefix_of() == old(self).prefix_of(),
            final(self).tags_of() == old(self).tags_of(),
            final(op)@ == (OperationView {
                responses: keyed_insert_all(old(op)@.responses, T::responses_of()),
                ..old(op)@
            }),
    {
        let components = T::describe_components();
        let responses = T::describe_responses();
        self.add_response_to(components, responses, op);
    }

    /// A place for registering security schemes, which are not recorded:
    /// it does nothing.
    pub fn add_scheme<T>() {
    }

    /// Registers an operation of a route at the current prefix followed by
    /// `path`. A path and method that already have an operation keep it, and
    /// the new one must be the same; either way the collector's tags are
    /// appended to the tags of the operation. CONNECT and extension methods
    /// have no place in a specification.
    pub fn add(&mut self, path: &str, method: Method, operation: Operation)
        requires
            has_slot(method@),
            item_at(paths_view(old(self).spec_of().paths@), old(self).prefix_of() + path@).slot(
                method@,
            ) matches Some(e) ==> e == operation@,
        ensures
            ({
                let full = old(self).prefix_of() + path@;
                let ps = paths_view(old(self).spec_of().paths@);
                let item = item_at(ps, full);
                paths_view(final(self).spec_of().paths@) == with_item(
                    ps,
                    full,
                    item.with_slot(
                        method@,
                        Some(registered(item.slot(method@), operation@, old(self).tags_of())),
                    ),
                )
            }),
            final(self).spec_of().openapi == old(self).spec_of().openapi,
            final(self).spec_of().info == old(self).spec_of().info,
            final(self).spec_of().servers == old(self).spec_of().servers,
            final(self).spec_of().components == old(self).spec_of().components,
            final(self).prefix_of() == old(self).prefix_of(),
            final(self).tags_of() == old(self).tags_of(),
            grows_from(old(self).spec_of(), final(self).spec_of()),
    {
        let ghost ps = paths_view(self.spec.paths@);
        let mut chars = self.path_prefix.clone();
        let tail = chars_of(path);
        let mut k: usize = 0;
        let ghost start = chars@;
        assert(start == self.path_prefix@);
        while k < tail.len()
            invariant
                k <= tail@.len(),
                chars@ == start + tail@.take(k as int),
            decreases tail@.len() - k,
        {
            chars.push(tail[k]);
            assert(tail@.take(k + 1) =~= tail@.take(k as int).push(tail@[k as int]));
            k = k + 1;
        }
        assert(tail@.take(tail@.len() as int) =~= tail@);
        let full = string_of(chars.as_slice());
        let ghost key = full@;
        assert(key == self.prefix_of() + path@);
        // find the entry of the path
        let mut i: usize = 0;
        assert(ps.skip(0) =~= ps);
        while i < self.spec.paths.len() && self.spec.paths[i].0 != full
            invariant
                i <= self.spec.paths@.len(),
                ps == paths_view(self.spec.paths@),
                key == full@,
                path_position(ps, key) == i + path_position(ps.skip(i as int), key),
            decreases self.spec.paths@.len() - i,
        {
            assert(ps.skip(i as int)[0] == ps[i as int]);
            assert(ps.skip(i as int).drop_first() =~= ps.skip(i + 1));
            i = i + 1;
        }
        proof {
            lemma_path_position_bounds(ps, key);
            if i < ps.len() {
                assert(ps.skip(i as int)[0] == ps[i as int]);
            }
        }
        assert(i == path_position(ps, key));
        if i == self.spec.paths.len() {
            self.spec.paths.push((full, PathItem::new()));
        }
        // update the item
        let ghost ps1 = paths_view(self.spec.paths@);
        assert(ps1[i as int].1 == item_at(ps, key));
        let mut entry = (String::new(), PathItem::new());
        std::mem::swap(&mut entry, &mut self.spec.paths[i]);
        let existing = entry.1.take_slot(&method);
        let mut op = match existing {
            Some(e) => e,
            None => operation,
        };
        let ghost base = op@;
        let mut t: usize = 0;
        while t < self.tags.len()
            invariant
                t <= self.tags@.len(),
                op@ == (OperationView { tags: base.tags + string_views(self.tags@).take(t as int), ..base }),
            decreases self.tags@.len() - t,
        {
            let ghost before = op.tags@;
            let tag = self.tags[t].clone();
            assert(tag@ == self.tags@[t as int]@);
            op.tags.push(tag);
            assert(op.tags@ == before.push(tag));
            assert(string_views(op.tags@) =~= string_views(before).push(tag@));
            assert(string_views(self.tags@).take(t + 1) =~= string_views(self.tags@).take(
                t as int,
            ).push(tag@));
            assert(string_views(op.tags@) =~= base.tags + string_views(self.tags@).take(t + 1));
            t = t + 1;
        }
        assert(string_views(self.tags@).take(self.tags@.len() as int) =~= string_views(self.tags@));
        entry.1.put_slot(&method, Some(op));
        self.spec.paths.set(i, entry);
        proof {
            if i < ps.len() {
                assert(paths_view(self.spec.paths@) =~= ps.update(i as int, (key, paths_view(self.spec.paths@)[i as int].1)));
            } else {
                assert(paths_view(self.spec.paths@) =~= ps.push((key, paths_view(self.spec.paths@)[i as int].1)));
            }
            lemma_with_item_keeps_paths(ps, key, paths_view(self.spec.paths@)[i as int].1);
        }
    }
}

/// Builder for openapi v3 specification.
#[derive(Debug, Clone)]
pub struct Builder {
    spec: Spec,
    path_prefix: String,
}

/// Crates a new specification builder
pub fn spec() -> (r: Builder)
    ensures
        r.spec_of().openapi@ == Seq::<char>::empty(),
        r.spec_of().info.title@ == Seq::<char>::empty(),
        r.spec_of().info.description is None,
        r.spec_of().info.version@ == Seq::<char>::empty(),
        r.spec_of().servers@ == Seq::<Server>::empty(),
        r.spec_of().paths@ == Seq::<(String, PathItem)>::empty(),
        r.spec_of().components is None,
        r.prefix_of() == Seq::<char>::empty(),
{
    Builder { spec: Spec::empty(), path_prefix: String::new() }
}

/// The specification a builder finishes with: what the collector gathered,
/// under openapi version 3.0.1.
pub open spec fn finished(collected: Spec, r: Spec) -> bool {
    &&& r.openapi@ == "3.0.1"@
    &&& r.info == collected.info
    &&& r.servers == collected.servers
    &&& r.paths == collected.paths
    &&& r.components == collected.components
}

impl Builder {
    /// The specification under construction.
    pub closed spec fn spec_of(&self) -> Spec {
        self.spec
    }

    /// The prefix of every registered path.
    pub closed spec fn prefix_of(&self) -> Seq<char> {
        self.path_prefix@
    }

    pub fn info(self, info: Info) -> (r: Self)
        ensures
            r.spec_of().info == info,
            r.spec_of().openapi == self.spec_of().openapi,
            r.spec_of().servers == self.spec_of().servers,
            r.spec_of().paths == self.spec_of().paths,
            r.prefix_of() == self.prefix_of(),
    {
        let mut b = self;
        b.spec.info = info;
        b
    }

    pub fn server(self, server: Server) -> (r: Self)
        ensures
            r.spec_of().servers@ == self.spec_of().servers@.push(server),
            r.spec_of().info == self.spec_of().info,
            r.spec_of().openapi == self.spec_of().openapi,
            r.spec_of().paths == self.spec_of().paths,
            r.prefix_of() == self.prefix_of(),
    {
        let mut b = self;
        b.spec.servers.push(server);
        b
    }

    /// **Overrides** path prefix with given string, which must start with `/`.
    pub fn prefix(self, path: String) -> (r: Self)
        requires
            path@.len() > 0 && path@[0] == '/',
        ensures
            r.prefix_of() == path@,
            r.spec_of() == self.spec_of(),
    {
        let mut b = self;
        b.path_prefix = path;
        b
    }

    /// Creates an openapi specification: `op` registers the routes with a
    /// collector that starts from this builder's specification and prefix,
    /// and hands the collector back grown from that specification (as the
    /// collector's own methods grow it). The result has version 3.0.1, the
    /// builder's information and servers, the builder's paths first, and
    /// what `op` collected.
    pub fn build<F, Ret>(self, op: F) -> (r: (Spec, Ret)) where
        F: FnOnce(Collector) -> (Collector, Ret),

        requires
            forall|c: Collector|
                c.spec_of() == self.spec_of() && c.prefix_of() == self.prefix_of() && c.tags_of()
                    == Seq::<Seq<char>>::empty() ==> #[trigger] op.requires((c,)),
            forall|c: Collector, out: (Collector, Ret)|
                c.spec_of() == self.spec_of() && c.prefix_of() == self.prefix_of() && c.tags_of()
                    == Seq::<Seq<char>>::empty() && #[trigger] op.ensures((c,), out)
                    ==> grows_from(c.spec_of(), out.0.spec_of()),
        ensures
            r.0.openapi@ == "3.0.1"@,
            r.0.info == self.spec_of().info,
            r.0.servers == self.spec_of().servers,
            path_keys(self.spec_of()).len() <= path_keys(r.0).len(),
            path_keys(r.0).take(path_keys(self.spec_of()).len() as int) == path_keys(
                self.spec_of(),
            ),
            exists|c: Collector, out: Collector|
                {
                    &&& c.spec_of() == self.spec_of()
                    &&& c.prefix_of() == self.prefix_of()
                    &&& c.tags_of() == Seq::<Seq<char>>::empty()
                    &&& #[trigger] op.ensures((c,), (out, r.1))
                    &&& finished(out.spec_of(), r.0)
                },
    {
        let collector = Collector::new(self.spec, self.path_prefix.as_str());
        let ghost given = collector;
        let result = op(collector);
        let ghost out = result.0;
        let (collected, ret) = result;
        let mut spec = collected.into_spec();
        proof {
            reveal_strlit("3.0.1");
        }
        spec.openapi = "3.0.1".to_owned();
        assert(op.ensures((given,), (out, ret)));
        assert(grows_from(given.spec_of(), out.spec_of()));
        assert(finished(out.spec_of(), spec));
        assert(path_keys(spec) == path_keys(out.spec_of()));
        assert(given.spec_of() == self.spec_of());
        assert(given.prefix_of() == self.prefix_of());
        assert(given.tags_of() == Seq::<Seq<char>>::empty());
        let r = (spec, ret);
        assert(op.ensures((given,), (out, r.1)));
        assert(finished(out.spec_of(), r.0));
        r
    }
}

/// Leaving a scope gives back the prefix and tags it was entered with: cutting
/// what was appended restores what was there.
pub proof fn scope_law(
    prefix: Seq<char>,
    appended: Seq<char>,
    tags: Seq<Seq<char>>,
    appended_tags: Seq<Seq<char>>,
)
    ensures
        (prefix + appended).take(prefix.len() as int) == prefix,
        (tags + appended_tags).take(tags.len() as int) == tags,
{
    assert((prefix + appended).take(prefix.len() as int) =~= prefix);
    assert((tags + appended_tags).take(tags.len() as int) =~= tags);
}

/// The query parameter that a property of a query's schema gives.
pub open spec fn query_parameter(name: Seq<char>, s: SchemaView) -> ParameterView {
    ParameterView {
        name,
        location: Location::Query,
        required: if s.properties.len() == 0 {
            None
        } else {
            Some(s.required.contains(name))
        },
        description: s.description,
        schema: Some(s),
    }
}

/// The query parameters of a query's schema: one per property of an
/// object, none for any other schema.
pub open spec fn query_parameters(s: SchemaView) -> Seq<ParameterView> {
    if s.schema_type == Some(SchemaType::Object) {
        s.properties.map_values(|p: (Seq<char>, SchemaView)| query_parameter(p.0, p.1))
    } else {
        Seq::empty()
    }
}

/// Whether a text is among the texts.
fn contains_text(v: &Vec<String>, t: &String) -> (r: bool)
    ensures
        r == v@.map_values(|s: String| s@).contains(t@),
{
    let ghost vs = v@.map_values(|s: String| s@);
    let mut i: usize = 0;
    while i < v.len()
        invariant
            i <= v@.len(),
            vs == v@.map_values(|s: String| s@),
            forall|j: int| 0 <= j < i ==> vs[j] != t@,
        decreases v@.len() - i,
    {
        if v[i] == *t {
            assert(vs[i as int] == t@);
            return true;
        }
        i = i + 1;
    }
    false
}

/// Adds the query parameters of a query's schema to an operation.
fn add_query_parameters(s: &Schema, op: &mut Operation)
    ensures
        final(op)@ == (OperationView {
            parameters: old(op)@.parameters + query_parameters(s@),
            ..old(op)@
        }),
{
    let ghost before = parameter_views(op.parameters@);
    if s.schema_type != Some(SchemaType::Object) {
        assert(parameter_views(op.parameters@) =~= before + Seq::<ParameterView>::empty());
        return;
    }
    let ghost qs = query_parameters(s@);
    let mut i: usize = 0;
    while i < s.properties.len()
        invariant
            i <= s.properties@.len(),
            qs == query_parameters(s@),
            qs.len() == s.properties@.len(),
            s.schema_type == Some(SchemaType::Object),
            parameter_views(op.parameters@) =~= before + qs.take(i as int),
            op.tags == old(op).tags,
            op.summary == old(op).summary,
            op.description == old(op).description,
            op.operation_id == old(op).operation_id,
            op.responses == old(op).responses,
            op.request_body == old(op).request_body,
            before == parameter_views(old(op).parameters@),
        decreases s.properties@.len() - i,
    {
        let name = &s.properties[i].0;
        let ps = &s.properties[i].1;
        let required = if ps.properties.len() == 0 {
            None
        } else {
            Some(contains_text(&ps.required, name))
        };
        let p = Parameter {
            name: name.clone(),
            location: Location::Query,
            required,
            description: ps.description.clone(),
            schema: Some(clone_schema(ps)),
        };
        let ghost prev = op.parameters@;
        op.parameters.push(p);
        assert(qs[i as int] == p@);
        assert(parameter_views(op.parameters@) =~= parameter_views(prev).push(p@));
        assert(qs.take(i + 1) =~= qs.take(i as int).push(qs[i as int]));
        i = i + 1;
    }
    assert(qs.take(s.properties@.len() as int) =~= qs);
}

/// Sets the schema of a name in a list of components.
pub(crate) fn insert_component(m: &mut Vec<(String, Schema)>, k: String, v: Schema)
    ensures
        component_views(final(m)@) == keyed_insert(component_views(old(m)@), k@, v@),
{
    let ghost mv = component_views(m@);
    let mut i: usize = 0;
    assert(mv.skip(0) =~= mv);
    while i < m.len() && m[i].0 != k
        invariant
            i <= m@.len(),
            mv == component_views(m@),
            keyed_position(mv, k@) == i + keyed_position(mv.skip(i as int), k@),
        decreases m@.len() - i,
    {
        assert(mv.skip(i as int)[0] == mv[i as int]);
        assert(mv.skip(i as int).drop_first() =~= mv.skip(i + 1));
        i = i + 1;
    }
    proof {
        if i < m@.len() {
            assert(mv.skip(i as int)[0] == mv[i as int]);
        }
    }
    proof {
        lemma_keyed_position_bounds(mv, k@);
    }
    if i < m.len() {
        m.set(i, (k, v));
        assert(component_views(m@) =~= mv.update(i as int, (k@, v@)));
    } else {
        assert(mv.skip(i as int) =~= Seq::<(Seq<char>, SchemaView)>::empty());
        m.push((k, v));
        assert(component_views(m@) =~= mv.push((k@, v@)));
    }
}

/// Sets the response of a code in a list of responses.
fn insert_response(m: &mut Vec<(String, Response)>, k: String, v: Response)
    ensures
        response_views(final(m)@) == keyed_insert(response_views(old(m)@), k@, v@),
{
    let ghost mv = response_views(m@);
    let mut i: usize = 0;
    assert(mv.skip(0) =~= mv);
    while i < m.len() && m[i].0 != k
        invariant
            i <= m@.len(),
            mv == response_views(m@),
            keyed_position(mv, k@) == i + keyed_position(mv.skip(i as int), k@),
        decreases m@.len() - i,
    {
        assert(mv.skip(i as int)[0] == mv[i as int]);
        assert(mv.skip(i as int).drop_first() =~= mv.skip(i + 1));
        i = i + 1;
    }
    proof {
        if i < m@.len() {
            assert(mv.skip(i as int)[0] == mv[i as int]);
        }
    }
    proof {
        lemma_keyed_position_bounds(mv, k@);
    }
    if i < m.len() {
        m.set(i, (k, v));
        assert(response_views(m@) =~= mv.update(i as int, (k@, v@)));
    } else {
        assert(mv.skip(i as int) =~= Seq::<(Seq<char>, ResponseView)>::empty());
        m.push((k, v));
        assert(response_views(m@) =~= mv.push((k@, v@)));
    }
}

/// Sets each new response in a list of responses, in order.
pub fn merge_responses(m: &mut Vec<(String, Response)>, new: Vec<(String, Response)>)
    ensures
        response_views(final(m)@) == keyed_insert_all(response_views(old(m)@), response_views(new@)),
{
    let ghost all = response_views(new@);
    let mut pending = new;
    assert(all.skip(0) =~= all);
    while pending.len() > 0
        invariant
            keyed_insert_all(response_views(old(m)@), all) == keyed_insert_all(
                response_views(m@),
                response_views(pending@),
            ),
        decreases pending@.len(),
    {
        let ghost rest = response_views(pending@);
        let (k, v) = pending.remove(0);
        assert(rest.drop_first() =~= response_views(pending@));
        assert(rest[0] == (k@, v@));
        insert_response(m, k, v);
    }
    assert(response_views(pending@) =~= Seq::<(Seq<char>, ResponseView)>::empty());
}

} // verus!
