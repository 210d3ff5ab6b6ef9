//! Schemas of the values a route reads and answers, and how the schema of a
//! wrapped type (a list, a map, a set, an optional value, a result) is made
//! from the schema of the type it wraps.

use vstd::prelude::*;
use vstd::string::StringExecFns;
use vstd::std_specs::cmp::PartialEqSpecImpl;
use crate::openapi::{media_views, opt_schema_view, response_views, MediaType, Response, ResponseView};
use crate::extract::{Form, Json, Query};
use crate::openapi::merge_responses;
use crate::openapi::{
    insert_component, keyed_get, keyed_insert, keyed_insert_all, keyed_position,
    lemma_keyed_position_bounds,
};
use crate::util::{chars_of, string_of};

verus! {

/// The type of the values a schema describes.
#[derive(Debug, Clone, Copy, PartialEq, Eq, Structural)]
pub enum SchemaType {
    Object,
    Array,
    String,
    Integer,
    Number,
    Boolean,
}

/// A schema: either a reference to a component (`ref_path`), or a
/// description of the values it admits.
#[derive(Debug)]
pub struct Schema {
    pub ref_path: String,
    pub description: String,
    pub schema_type: Option<SchemaType>,
    pub format: String,
    pub nullable: Option<bool>,
    pub items: Option<Box<Schema>>,
    pub additional_properties: Option<Box<Schema>>,
    pub unique_items: Option<bool>,
    pub min_items: Option<usize>,
    pub max_items: Option<usize>,
    pub properties: Vec<(String, Schema)>,
    pub required: Vec<String>,
    pub one_of: Vec<Schema>,
    pub all_of: Vec<Schema>,
    pub enum_values: Vec<String>,
    /// The text of an example value.
    pub example: Option<String>,
    pub write_only: Option<bool>,
    pub read_only: Option<bool>,
}

/// Abstract value of a schema.
#[verifier::ext_equal]
pub struct SchemaView {
    pub ref_path: Seq<char>,
    pub description: Seq<char>,
    pub schema_type: Option<SchemaType>,
    pub format: Seq<char>,
    pub nullable: Option<bool>,
    pub items: Option<Box<SchemaView>>,
    pub additional_properties: Option<Box<SchemaView>>,
    pub unique_items: Option<bool>,
    pub min_items: Option<int>,
    pub max_items: Option<int>,
    pub properties: Seq<(Seq<char>, SchemaView)>,
    pub required: Seq<Seq<char>>,
    pub one_of: Seq<SchemaView>,
    pub all_of: Seq<SchemaView>,
    pub enum_values: Seq<Seq<char>>,
    pub example: Option<Seq<char>>,
    pub write_only: Option<bool>,
    pub read_only: Option<bool>,
}

/// The abstract value of a schema.
pub open spec fn schema_view(s: Schema) -> SchemaView
    decreases s,
{
    SchemaView {
        ref_path: s.ref_path@,
        description: s.description@,
        schema_type: s.schema_type,
        format: s.format@,
        nullable: s.nullable,
        items: match s.items {
            Some(b) => Some(Box::new(schema_view(*b))),
            None => None,
        },
        additional_properties: match s.additional_properties {
            Some(b) => Some(Box::new(schema_view(*b))),
            None => None,
        },
        unique_items: s.unique_items,
        min_items: match s.min_items {
            Some(n) => Some(n as int),
            None => None,
        },
        max_items: match s.max_items {
            Some(n) => Some(n as int),
            None => None,
        },
        properties: Seq::new(
            s.properties@.len(),
            |i: int|
                if 0 <= i < s.properties@.len() {
                    (s.properties@[i].0@, schema_view(s.properties@[i].1))
                } else {
                    arbitrary()
                },
        ),
        required: s.required@.map_values(|r: String| r@),
        one_of: Seq::new(
            s.one_of@.len(),
            |i: int|
                if 0 <= i < s.one_of@.len() {
                    schema_view(s.one_of@[i])
                } else {
                    arbitrary()
                },
        ),
        all_of: Seq::new(
            s.all_of@.len(),
            |i: int|
                if 0 <= i < s.all_of@.len() {
                    schema_view(s.all_of@[i])
                } else {
                    arbitrary()
                },
        ),
        enum_values: s.enum_values@.map_values(|v: String| v@),
        example: match s.example {
            Some(x) => Some(x@),
            None => None,
        },
        write_only: s.write_only,
        read_only: s.read_only,
    }
}

impl View for Schema {
    type V = SchemaView;

    open spec fn view(&self) -> SchemaView {
        schema_view(*self)
    }
}

/// A schema that says nothing.
pub open spec fn blank_schema() -> SchemaView {
    SchemaView {
        ref_path: Seq::empty(),
        description: Seq::empty(),
        schema_type: None,
        format: Seq::empty(),
        nullable: None,
        items: None,
        additional_properties: None,
        unique_items: None,
        min_items: None,
        max_items: None,
        properties: Seq::empty(),
        required: Seq::empty(),
        one_of: Seq::empty(),
        all_of: Seq::empty(),
        enum_values: Seq::empty(),
        example: None,
        write_only: None,
        read_only: None,
    }
}

impl Schema {
    /// A schema that says nothing.
    pub fn blank() -> (r: Schema)
        ensures
            r@ == blank_schema(),
    {
        let r = Schema {
            ref_path: String::new(),
            description: String::new(),
            schema_type: None,
            format: String::new(),
            nullable: None,
            items: None,
            additional_properties: None,
            unique_items: None,
            min_items: None,
            max_items: None,
            properties: Vec::new(),
            required: Vec::new(),
            one_of: Vec::new(),
            all_of: Vec::new(),
            enum_values: Vec::new(),
            example: None,
            write_only: None,
            read_only: None,
        };
        assert(r@.properties =~= Seq::<(Seq<char>, SchemaView)>::empty());
        assert(r@.one_of =~= Seq::<SchemaView>::empty());
        assert(r@.all_of =~= Seq::<SchemaView>::empty());
        assert(r@.required =~= Seq::<Seq<char>>::empty());
        assert(r@.enum_values =~= Seq::<Seq<char>>::empty());
        assert(r@.ref_path =~= Seq::<char>::empty());
        assert(r@ =~= blank_schema());
        r
    }

    /// A schema of values of a type, saying nothing more.
    pub fn typed(t: SchemaType) -> (r: Schema)
        ensures
            r@ == (SchemaView { schema_type: Some(t), ..blank_schema() }),
    {
        let mut r = Schema::blank();
        r.schema_type = Some(t);
        r
    }

    /// A string schema of the given format.
    pub fn formatted(format: &str) -> (r: Schema)
        ensures
            r@ == (SchemaView {
                schema_type: Some(SchemaType::String),
                format: format@,
                ..blank_schema()
            }),
    {
        let mut r = Schema::typed(SchemaType::String);
        r.format = format.to_owned();
        r
    }
}

/// Whether two lists of texts are the same.
fn same_texts(a: &Vec<String>, b: &Vec<String>) -> (r: bool)
    ensures
        r == (a@.map_values(|s: String| s@) == b@.map_values(|s: String| s@)),
{
    if a.len() != b.len() {
        assert(a@.map_values(|s: String| s@).len() != b@.map_values(|s: String| s@).len());
        return false;
    }
    let mut i: usize = 0;
    while i < a.len()
        invariant
            a@.len() == b@.len(),
            i <= a@.len(),
            forall|j: int| 0 <= j < i ==> a@[j]@ == b@[j]@,
        decreases a@.len() - i,
    {
        if a[i] != b[i] {
            assert(a@.map_values(|s: String| s@)[i as int] != b@.map_values(|s: String| s@)[i as int]);
            return false;
        }
        i = i + 1;
    }
    assert(a@.map_values(|s: String| s@) =~= b@.map_values(|s: String| s@));
    true
}

/// Whether two optional boxed schemas are the same.
fn same_boxed(a: &Option<Box<Schema>>, b: &Option<Box<Schema>>) -> (r: bool)
    ensures
        r == ((match *a {
            Some(x) => Some(Box::new(schema_view(*x))),
            None => None,
        }) == (match *b {
            Some(x) => Some(Box::new(schema_view(*x))),
            None => None,
        })),
    decreases a, 1nat,
{
    match (a, b) {
        (Some(x), Some(y)) => {
            assert(decreases_to!(a => **x));
            same_schema(x, y)
        },
        (None, None) => true,
        _ => false,
    }
}

/// Whether two schemas are the same.
pub fn same_schema(a: &Schema, b: &Schema) -> (r: bool)
    ensures
        r == (a@ == b@),
    decreases a, 0nat,
{
    if !(a.ref_path == b.ref_path && a.description == b.description && a.schema_type
        == b.schema_type && a.format == b.format && a.nullable == b.nullable && a.unique_items
        == b.unique_items && a.min_items == b.min_items && a.max_items == b.max_items
        && a.write_only == b.write_only && a.read_only == b.read_only) {
        return false;
    }
    let same_example = match (&a.example, &b.example) {
        (Some(x), Some(y)) => *x == *y,
        (None, None) => true,
        _ => false,
    };
    if !same_example {
        return false;
    }
    if !same_texts(&a.required, &b.required) || !same_texts(&a.enum_values, &b.enum_values) {
        return false;
    }
    if !same_boxed(&a.items, &b.items) || !same_boxed(
        &a.additional_properties,
        &b.additional_properties,
    ) {
        return false;
    }
    if a.properties.len() != b.properties.len() {
        assert(a@.properties.len() != b@.properties.len());
        return false;
    }
    let mut i: usize = 0;
    while i < a.properties.len()
        invariant
            a.properties@.len() == b.properties@.len(),
            i <= a.properties@.len(),
            forall|j: int|
                0 <= j < i ==> a.properties@[j].0@ == b.properties@[j].0@ && schema_view(
                    a.properties@[j].1,
                ) == schema_view(b.properties@[j].1),
        decreases a.properties@.len() - i,
    {
        assert(decreases_to!(a => a.properties@[i as int].1));
        if !(a.properties[i].0 == b.properties[i].0 && same_schema(
            &a.properties[i].1,
            &b.properties[i].1,
        )) {
            assert(a@.properties[i as int] != b@.properties[i as int]);
            return false;
        }
        i = i + 1;
    }
    if a.one_of.len() != b.one_of.len() {
        assert(a@.one_of.len() != b@.one_of.len());
        return false;
    }
    let mut k: usize = 0;
    while k < a.one_of.len()
        invariant
            a.one_of@.len() == b.one_of@.len(),
            k <= a.one_of@.len(),
            forall|j: int| 0 <= j < k ==> schema_view(a.one_of@[j]) == schema_view(b.one_of@[j]),
        decreases a.one_of@.len() - k,
    {
        assert(decreases_to!(a => a.one_of@[k as int]));
        if !same_schema(&a.one_of[k], &b.one_of[k]) {
            assert(a@.one_of[k as int] != b@.one_of[k as int]);
            return false;
        }
        k = k + 1;
    }
    if a.all_of.len() != b.all_of.len() {
        assert(a@.all_of.len() != b@.all_of.len());
        return false;
    }
    let mut m: usize = 0;
    while m < a.all_of.len()
        invariant
            a.all_of@.len() == b.all_of@.len(),
            m <= a.all_of@.len(),
            forall|j: int| 0 <= j < m ==> schema_view(a.all_of@[j]) == schema_view(b.all_of@[j]),
        decreases a.all_of@.len() - m,
    {
        assert(decreases_to!(a => a.all_of@[m as int]));
        if !same_schema(&a.all_of[m], &b.all_of[m]) {
            assert(a@.all_of[m as int] != b@.all_of[m as int]);
            return false;
        }
        m = m + 1;
    }
    assert(a@.properties =~= b@.properties);
    assert(a@.one_of =~= b@.one_of);
    assert(a@.all_of =~= b@.all_of);
    true
}

/// A copy of an optional boxed schema.
fn clone_boxed(a: &Option<Box<Schema>>) -> (r: Option<Box<Schema>>)
    ensures
        (match r {
            Some(x) => Some(Box::new(schema_view(*x))),
            None => None,
        }) == (match *a {
            Some(x) => Some(Box::new(schema_view(*x))),
            None => None,
        }),
    decreases a, 1nat,
{
    match a {
        Some(x) => {
            assert(decreases_to!(a => **x));
            Some(Box::new(clone_schema(x)))
        },
        None => None,
    }
}

/// A copy of a list of texts.
pub(crate) fn clone_texts(a: &Vec<String>) -> (r: Vec<String>)
    ensures
        r@.map_values(|s: String| s@) == a@.map_values(|s: String| s@),
{
    let mut out: Vec<String> = Vec::new();
    let mut i: usize = 0;
    while i < a.len()
        invariant
            i <= a@.len(),
            out@.len() == i,
            forall|j: int| 0 <= j < i ==> #[trigger] out@[j]@ == a@[j]@,
        decreases a@.len() - i,
    {
        out.push(a[i].clone());
        i = i + 1;
    }
    assert(out@.map_values(|s: String| s@) =~= a@.map_values(|s: String| s@));
    out
}

/// A copy of a schema.
pub fn clone_schema(a: &Schema) -> (r: Schema)
    ensures
        r@ == a@,
    decreases a, 0nat,
{
    let mut properties: Vec<(String, Schema)> = Vec::new();
    let mut i: usize = 0;
    while i < a.properties.len()
        invariant
            i <= a.properties@.len(),
            properties@.len() == i,
            forall|j: int|
                0 <= j < i ==> #[trigger] properties@[j].0@ == a.properties@[j].0@ && schema_view(
                    properties@[j].1,
                ) == schema_view(a.properties@[j].1),
        decreases a.properties@.len() - i,
    {
        assert(decreases_to!(a => a.properties@[i as int].1));
        let p = (a.properties[i].0.clone(), clone_schema(&a.properties[i].1));
        properties.push(p);
        i = i + 1;
    }
    let mut one_of: Vec<Schema> = Vec::new();
    let mut k: usize = 0;
    while k < a.one_of.len()
        invariant
            k <= a.one_of@.len(),
            one_of@.len() == k,
            forall|j: int| 0 <= j < k ==> #[trigger] schema_view(one_of@[j]) == schema_view(a.one_of@[j]),
        decreases a.one_of@.len() - k,
    {
        assert(decreases_to!(a => a.one_of@[k as int]));
        one_of.push(clone_schema(&a.one_of[k]));
        k = k + 1;
    }
    let mut all_of: Vec<Schema> = Vec::new();
    let mut m: usize = 0;
    while m < a.all_of.len()
        invariant
            m <= a.all_of@.len(),
            all_of@.len() == m,
            forall|j: int| 0 <= j < m ==> #[trigger] schema_view(all_of@[j]) == schema_view(a.all_of@[j]),
        decreases a.all_of@.len() - m,
    {
        assert(decreases_to!(a => a.all_of@[m as int]));
        all_of.push(clone_schema(&a.all_of[m]));
        m = m + 1;
    }
    let example = match &a.example {
        Some(x) => Some(x.clone()),
        None => None,
    };
    let r = Schema {
        ref_path: a.ref_path.clone(),
        description: a.description.clone(),
        schema_type: a.schema_type,
        format: a.format.clone(),
        nullable: a.nullable,
        items: clone_boxed(&a.items),
        additional_properties: clone_boxed(&a.additional_properties),
        unique_items: a.unique_items,
        min_items: a.min_items,
        max_items: a.max_items,
        properties,
        required: clone_texts(&a.required),
        one_of,
        all_of,
        enum_values: clone_texts(&a.enum_values),
        example,
        write_only: a.write_only,
        read_only: a.read_only,
    };
    assert(r@.properties =~= a@.properties);
    assert forall|j: int| 0 <= j < r@.one_of.len() implies r@.one_of[j] == a@.one_of[j] by {
        assert(schema_view(r.one_of@[j]) == schema_view(a.one_of@[j]));
    }
    assert(r@.one_of =~= a@.one_of);
    assert forall|j: int| 0 <= j < r@.all_of.len() implies r@.all_of[j] == a@.all_of[j] by {
        assert(schema_view(r.all_of@[j]) == schema_view(a.all_of@[j]));
    }
    assert(r@.all_of =~= a@.all_of);
    r
}

/// How a type wraps the type whose schema it is made from.
#[derive(Debug, Clone, Copy, PartialEq, Eq, Structural)]
pub enum Wrapper {
    /// A map from strings to values.
    StringMap,
    /// A list: a slice, `Vec`, `VecDeque` or `LinkedList`.
    List,
    /// A set.
    UniqueList,
    /// An optional value.
    Opt,
    /// An array of a fixed length, or a tuple of that many values of one type.
    Array(usize),
}

/// The path under which components are referred to.
pub open spec fn components_prefix() -> Seq<char> {
    "#/components/schemas/"@
}

/// The number of bytes of a character in UTF-8.
pub open spec fn utf8_width(c: char) -> int {
    if (c as u32) < 0x80 {
        1
    } else if (c as u32) < 0x800 {
        2
    } else if (c as u32) < 0x10000 {
        3
    } else {
        4
    }
}

/// The number of bytes of a text in UTF-8.
pub open spec fn utf8_len(s: Seq<char>) -> int
    decreases s.len(),
{
    if s.len() == 0 {
        0
    } else {
        utf8_len(s.drop_last()) + utf8_width(s.last())
    }
}

/// Whether the text has a character boundary after as many bytes as the
/// component path has, so that the name after it can be cut off.
pub open spec fn cuttable(path: Seq<char>) -> bool {
    exists|k: int| 0 <= k <= path.len() && utf8_len(#[trigger] path.take(k)) == utf8_len(
        components_prefix(),
    )
}

/// What follows the first bytes of a reference, as many as the component
/// path has: the name of the component it refers to.
pub open spec fn component_name(path: Seq<char>) -> Seq<char> {
    let k = choose|k: int|
        0 <= k <= path.len() && utf8_len(#[trigger] path.take(k)) == utf8_len(components_prefix());
    path.skip(k)
}

/// The digit of a number below ten.
pub open spec fn digit_of(d: int) -> char {
    if d == 0 {
        '0'
    } else if d == 1 {
        '1'
    } else if d == 2 {
        '2'
    } else if d == 3 {
        '3'
    } else if d == 4 {
        '4'
    } else if d == 5 {
        '5'
    } else if d == 6 {
        '6'
    } else if d == 7 {
        '7'
    } else if d == 8 {
        '8'
    } else {
        '9'
    }
}

/// A number written in decimal.
pub open spec fn decimal_of(n: nat) -> Seq<char>
    decreases n,
{
    if n < 10 {
        seq![digit_of(n as int)]
    } else {
        decimal_of(n / 10) + seq![digit_of((n % 10) as int)]
    }
}

/// What the name of a wrapped component adds to the name of the component
/// it wraps.
pub open spec fn wrapper_suffix(w: Wrapper) -> Seq<char> {
    match w {
        Wrapper::StringMap => "_Map"@,
        Wrapper::List => "_List"@,
        Wrapper::UniqueList => "_Set"@,
        Wrapper::Opt => "_Opt"@,
        Wrapper::Array(n) => "_Array_"@ + decimal_of(n as nat),
    }
}

/// The schema of a wrapped value, written out: a map is an object whose
/// additional properties are the values; a list is an array of the items; a
/// set an array of unique items; an array one of exactly its length; an
/// optional value is the value, nullable.
pub open spec fn wrapped_inline(w: Wrapper, s: SchemaView) -> SchemaView {
    match w {
        Wrapper::StringMap => SchemaView {
            schema_type: Some(SchemaType::Object),
            additional_properties: Some(Box::new(s)),
            ..blank_schema()
        },
        Wrapper::List => SchemaView {
            schema_type: Some(SchemaType::Array),
            items: Some(Box::new(s)),
            ..blank_schema()
        },
        Wrapper::UniqueList => SchemaView {
            schema_type: Some(SchemaType::Array),
            items: Some(Box::new(s)),
            unique_items: Some(true),
            ..blank_schema()
        },
        Wrapper::Array(n) => SchemaView {
            schema_type: Some(SchemaType::Array),
            items: Some(Box::new(s)),
            min_items: Some(n as int),
            max_items: Some(n as int),
            ..blank_schema()
        },
        Wrapper::Opt => SchemaView { nullable: Some(true), ..s },
    }
}

/// The schema of a wrapped value: written out when the wrapped schema is,
/// else a reference to the wrapped component's name with the wrapper's
/// suffix.
pub open spec fn wrapped_schema(w: Wrapper, s: SchemaView) -> SchemaView {
    if s.ref_path.len() == 0 {
        wrapped_inline(w, s)
    } else {
        SchemaView { ref_path: s.ref_path + wrapper_suffix(w), ..blank_schema() }
    }
}

/// The component that a wrapped reference needs: none for a schema written
/// out; else the wrapped component's name with the wrapper's suffix, whose
/// schema wraps the reference (an optional one is a nullable choice of it).
pub open spec fn wrapped_component(w: Wrapper, s: SchemaView) -> Option<(Seq<char>, SchemaView)> {
    if s.ref_path.len() == 0 {
        None
    } else {
        Some(
            (
                component_name(s.ref_path) + wrapper_suffix(w),
                match w {
                    Wrapper::Opt => SchemaView {
                        nullable: Some(true),
                        one_of: seq![s],
                        ..blank_schema()
                    },
                    _ => wrapped_inline(w, s),
                },
            ),
        )
    }
}

/// An object with one required property.
pub open spec fn single_property(name: Seq<char>, s: SchemaView) -> SchemaView {
    SchemaView {
        schema_type: Some(SchemaType::Object),
        properties: seq![(name, s)],
        required: seq![name],
        ..blank_schema()
    }
}

/// The schema of a result: one of an object with the success under `Ok`
/// and an object with the error under `Err`.
pub open spec fn result_schema(ok: SchemaView, err: SchemaView) -> SchemaView {
    SchemaView {
        one_of: seq![single_property("Ok"@, ok), single_property("Err"@, err)],
        ..blank_schema()
    }
}

/// Each character takes at least one byte, so a longer prefix of a text
/// takes more bytes.
pub proof fn lemma_utf8_len_grows(s: Seq<char>, i: int, j: int)
    requires
        0 <= i < j <= s.len(),
    ensures
        utf8_len(s.take(i)) < utf8_len(s.take(j)),
    decreases j,
{
    assert(s.take(j).drop_last() =~= s.take(j - 1));
    if i < j - 1 {
        lemma_utf8_len_grows(s, i, j - 1);
    }
}

/// The component path takes 21 bytes.
pub proof fn lemma_prefix_bytes()
    ensures
        utf8_len(components_prefix()) == 21,
        components_prefix().len() == 21,
{
    reveal_strlit("#/components/schemas/");
    let p = components_prefix();
    assert(p.len() == 21);
    assert forall|k: int| 0 <= k <= 21 implies utf8_len(#[trigger] p.take(k)) == k by {
        lemma_ascii_prefix_len(p, k);
    }
    assert(p.take(21) =~= p);
}

/// A prefix of ASCII characters takes one byte each.
proof fn lemma_ascii_prefix_len(p: Seq<char>, k: int)
    requires
        0 <= k <= p.len(),
        forall|i: int| 0 <= i < p.len() ==> (#[trigger] p[i] as u32) < 0x80,
    ensures
        utf8_len(p.take(k)) == k,
    decreases k,
{
    if k > 0 {
        assert(p.take(k).drop_last() =~= p.take(k - 1));
        lemma_ascii_prefix_len(p, k - 1);
    }
}

/// The digit of a number below ten.
fn digit(d: usize) -> (r: char)
    requires
        d < 10,
    ensures
        r == digit_of(d as int),
{
    if d == 0 {
        '0'
    } else if d == 1 {
        '1'
    } else if d == 2 {
        '2'
    } else if d == 3 {
        '3'
    } else if d == 4 {
        '4'
    } else if d == 5 {
        '5'
    } else if d == 6 {
        '6'
    } else if d == 7 {
        '7'
    } else if d == 8 {
        '8'
    } else {
        '9'
    }
}

/// Appends a number written in decimal.
fn push_decimal(n: usize, out: &mut Vec<char>)
    ensures
        final(out)@ == old(out)@ + decimal_of(n as nat),
    decreases n,
{
    if n >= 10 {
        push_decimal(n / 10, out);
    }
    let ghost mid = out@;
    out.push(digit(n % 10));
    proof {
        if n >= 10 {
            assert(out@ =~= old(out)@ + decimal_of(n as nat));
        } else {
            assert(out@ =~= old(out)@ + decimal_of(n as nat));
        }
    }
}

/// What the name of a wrapped component adds to the name of the component
/// it wraps.
pub fn suffix_of(w: Wrapper) -> (r: String)
    ensures
        r@ == wrapper_suffix(w),
{
    match w {
        Wrapper::StringMap => "_Map".to_owned(),
        Wrapper::List => "_List".to_owned(),
        Wrapper::UniqueList => "_Set".to_owned(),
        Wrapper::Opt => "_Opt".to_owned(),
        Wrapper::Array(n) => {
            let mut cs: Vec<char> = Vec::new();
            push_decimal(n, &mut cs);
            assert(cs@ =~= decimal_of(n as nat));
            let digits = string_of(cs.as_slice());
            let mut r = "_Array_".to_owned();
            r.append(digits.as_str());
            r
        },
    }
}

/// The schema of a wrapped value written out.
fn inline_wrapped(w: Wrapper, s: Schema) -> (r: Schema)
    ensures
        r@ == wrapped_inline(w, s@),
{
    match w {
        Wrapper::StringMap => {
            let mut r = Schema::typed(SchemaType::Object);
            r.additional_properties = Some(Box::new(s));
            r
        },
        Wrapper::List => {
            let mut r = Schema::typed(SchemaType::Array);
            r.items = Some(Box::new(s));
            r
        },
        Wrapper::UniqueList => {
            let mut r = Schema::typed(SchemaType::Array);
            r.items = Some(Box::new(s));
            r.unique_items = Some(true);
            r
        },
        Wrapper::Array(n) => {
            let mut r = Schema::typed(SchemaType::Array);
            r.items = Some(Box::new(s));
            r.min_items = Some(n);
            r.max_items = Some(n);
            r
        },
        Wrapper::Opt => {
            let mut r = s;
            r.nullable = Some(true);
            r
        },
    }
}

/// The schema of a value of a wrapping type, from the schema of the type it
/// wraps.
pub fn describe_wrapped(w: Wrapper, s: Schema) -> (r: Schema)
    ensures
        r@ == wrapped_schema(w, s@),
{
    if s.ref_path.as_str().is_empty() {
        inline_wrapped(w, s)
    } else {
        let mut r = Schema::blank();
        let mut path = s.ref_path;
        let suffix = suffix_of(w);
        path.append(suffix.as_str());
        r.ref_path = path;
        r
    }
}

/// The name of the component a reference refers to.
fn cut_component_name(path: &String) -> (r: String)
    requires
        cuttable(path@),
    ensures
        r@ == component_name(path@),
{
    proof {
        lemma_prefix_bytes();
    }
    let cs = chars_of(path.as_str());
    let ghost p = path@;
    let mut acc: usize = 0;
    let mut k: usize = 0;
    assert(p.take(0) =~= Seq::<char>::empty());
    while acc < 21 && k < cs.len()
        invariant
            cs@ == p,
            k <= p.len(),
            acc as int == utf8_len(p.take(k as int)),
            acc <= 24,
            k > 0 ==> utf8_len(p.take(k - 1)) < 21,
        decreases p.len() - k,
    {
        let c = cs[k];
        let w: usize = if (c as u32) < 0x80 {
            1
        } else if (c as u32) < 0x800 {
            2
        } else if (c as u32) < 0x10000 {
            3
        } else {
            4
        };
        assert(p.take(k + 1).drop_last() =~= p.take(k as int));
        assert(p.take(k + 1).last() == c);
        acc = acc + w;
        k = k + 1;
    }
    let ghost kk = choose|j: int|
        0 <= j <= p.len() && utf8_len(#[trigger] p.take(j)) == utf8_len(components_prefix());
    proof {
        if kk < k {
            if kk < k - 1 {
                lemma_utf8_len_grows(p, kk, k - 1);
            }
        } else if kk > k {
            lemma_utf8_len_grows(p, k as int, kk);
        }
    }
    assert(kk == k);
    let mut out: Vec<char> = Vec::new();
    let mut j: usize = k;
    while j < cs.len()
        invariant
            cs@ == p,
            k <= j <= p.len(),
            out@ =~= p.subrange(k as int, j as int),
        decreases p.len() - j,
    {
        out.push(cs[j]);
        j = j + 1;
    }
    assert(out@ =~= p.skip(k as int));
    string_of(out.as_slice())
}

/// The views of a list of components: each name with its schema.
pub open spec fn component_views(v: Seq<(String, Schema)>) -> Seq<(Seq<char>, SchemaView)> {
    v.map_values(|e: (String, Schema)| (e.0@, e.1@))
}

/// Adds to the components of a wrapped type the one that its reference
/// needs, if any.
pub fn wrap_components(w: Wrapper, s: &Schema, comps: &mut Vec<(String, Schema)>)
    requires
        s.ref_path@.len() == 0 || cuttable(s.ref_path@),
    ensures
        component_views(final(comps)@) == component_views(old(comps)@) + match wrapped_component(
            w,
            s@,
        ) {
            Some(c) => seq![c],
            None => Seq::empty(),
        },
{
    let ghost before = comps@;
    if s.ref_path.as_str().is_empty() {
        assert(component_views(comps@) =~= component_views(before) + Seq::<
            (Seq<char>, SchemaView),
        >::empty());
        return;
    }
    let mut name = cut_component_name(&s.ref_path);
    let suffix = suffix_of(w);
    name.append(suffix.as_str());
    let inner = clone_schema(s);
    let schema = match w {
        Wrapper::Opt => {
            let mut r = Schema::blank();
            r.nullable = Some(true);
            let mut one: Vec<Schema> = Vec::new();
            one.push(inner);
            r.one_of = one;
            assert(r@.one_of =~= seq![s@]);
            r
        },
        _ => inline_wrapped(w, inner),
    };
    comps.push((name, schema));
    assert(component_views(comps@) =~= component_views(before).push(
        wrapped_component(w, s@).unwrap(),
    ));
}

/// The schema of a result, from the schemas of its success and its error.
pub fn describe_result(ok: Schema, err: Schema) -> (r: Schema)
    ensures
        r@ == result_schema(ok@, err@),
{
    let okv = single(String::from_str("Ok"), ok);
    let errv = single(String::from_str("Err"), err);
    proof {
        reveal_strlit("Ok");
        reveal_strlit("Err");
    }
    let mut r = Schema::blank();
    let mut v: Vec<Schema> = Vec::new();
    v.push(okv);
    v.push(errv);
    r.one_of = v;
    assert(r@.one_of =~= seq![single_property("Ok"@, ok@), single_property("Err"@, err@)]);
    r
}

/// An object with one required property.
fn single(name: String, s: Schema) -> (r: Schema)
    ensures
        r@ == single_property(name@, s@),
{
    let mut r = Schema::typed(SchemaType::Object);
    let mut req: Vec<String> = Vec::new();
    req.push(name.clone());
    let mut props: Vec<(String, Schema)> = Vec::new();
    props.push((name, s));
    r.properties = props;
    r.required = req;
    assert(r@.properties =~= seq![(name@, s@)]);
    assert(r@.required =~= seq![name@]);
    r
}

/// A reference to a component is cut into the component path and the
/// component's name.
proof fn lemma_component_name(name: Seq<char>)
    ensures
        cuttable(components_prefix() + name),
        component_name(components_prefix() + name) == name,
{
    let p = components_prefix() + name;
    lemma_prefix_bytes();
    assert(p.take(21) =~= components_prefix());
    assert(utf8_len(p.take(21)) == 21);
    let k = choose|k: int| 0 <= k <= p.len() && utf8_len(#[trigger] p.take(k)) == utf8_len(
        components_prefix(),
    );
    if k < 21 {
        lemma_utf8_len_grows(p, k, 21);
    } else if k > 21 {
        lemma_utf8_len_grows(p, 21, k);
    }
    assert(p.skip(21) =~= name);
}

/// A wrapped reference refers to the component that the wrapper adds: the
/// component's name is the wrapped component's name with the wrapper's
/// suffix.
pub proof fn wrapped_reference_names_its_component(w: Wrapper, s: SchemaView, name: Seq<char>)
    requires
        s.ref_path == components_prefix() + name,
    ensures
        cuttable(s.ref_path),
        wrapped_component(w, s) matches Some(c) && wrapped_schema(w, s).ref_path
            == components_prefix() + c.0,
{
    lemma_component_name(name);
    lemma_prefix_bytes();
    assert(s.ref_path.len() > 0);
    assert(components_prefix() + name + wrapper_suffix(w) =~= components_prefix() + (name
        + wrapper_suffix(w)));
}

impl Clone for Schema {
    fn clone(&self) -> (r: Self)
        ensures
            r@ == self@,
    {
        clone_schema(self)
    }
}

impl PartialEq for Schema {
    fn eq(&self, other: &Self) -> (r: bool) {
        same_schema(self, other)
    }
}

impl PartialEqSpecImpl for Schema {
    open spec fn obeys_eq_spec() -> bool {
        true
    }

    open spec fn eq_spec(&self, other: &Self) -> bool {
        self@ == other@
    }
}

impl Eq for Schema {
}

/// The responses of a reply with a body of one content type: a single
/// `200` response without description whose body has the schema.
pub open spec fn single_response(content_type: Seq<char>, s: SchemaView) -> Seq<
    (Seq<char>, ResponseView),
> {
    seq![("200"@, ResponseView { description: Seq::empty(), content: seq![(content_type, Some(s))] })]
}

/// A body whose schema, if it has one, admits null.
pub open spec fn nullable_media(m: (Seq<char>, Option<SchemaView>)) -> (
    Seq<char>,
    Option<SchemaView>,
) {
    (
        m.0,
        match m.1 {
            Some(s) => Some(SchemaView { nullable: Some(true), ..s }),
            None => None,
        },
    )
}

/// The responses of an optional reply: those of the reply, each body
/// admitting null.
pub open spec fn nullable_responses(rs: Seq<(Seq<char>, ResponseView)>) -> Seq<
    (Seq<char>, ResponseView),
> {
    rs.map_values(
        |r: (Seq<char>, ResponseView)|
            (r.0, ResponseView { content: r.1.content.map_values(|m| nullable_media(m)), ..r.1 }),
    )
}

/// The responses of a reply with a body of the given content type and
/// schema (`text/plain` for text, `application/json` for json).
pub fn single_responses(content_type: &str, schema: Schema) -> (r: Vec<(String, Response)>)
    ensures
        response_views(r@) == single_response(content_type@, schema@),
{
    let mut content: Vec<(String, MediaType)> = Vec::new();
    content.push((content_type.to_owned(), MediaType { schema: Some(schema) }));
    let resp = Response { description: String::new(), content };
    assert(resp@.content =~= seq![(content_type@, Some(schema@))]);
    let mut r: Vec<(String, Response)> = Vec::new();
    r.push(("200".to_owned(), resp));
    assert(response_views(r@) =~= single_response(content_type@, schema@));
    r
}

/// Makes every body of the responses admit null.
pub fn make_nullable(rs: &mut Vec<(String, Response)>)
    ensures
        response_views(final(rs)@) == nullable_responses(response_views(old(rs)@)),
{
    let ghost target = nullable_responses(response_views(rs@));
    let ghost n = rs@.len();
    let mut i: usize = 0;
    while i < rs.len()
        invariant
            i <= rs@.len(),
            rs@.len() == n,
            target.len() == n,
            target == nullable_responses(response_views(old(rs)@)),
            forall|j: int| 0 <= j < i ==> #[trigger] response_views(rs@)[j] == target[j],
            forall|j: int| i <= j < n ==> #[trigger] rs@[j] == old(rs)@[j],
        decreases n - i,
    {
        let ghost before_i = rs@;
        let mut entry = (String::new(), Response { description: String::new(), content: Vec::new() });
        std::mem::swap(&mut entry, &mut rs[i]);
        let ghost orig = entry.1@;
        let ghost key = entry.0@;
        let ghost mid = rs@;
        assert(before_i[i as int] == old(rs)@[i as int]);
        assert(response_views(old(rs)@)[i as int] == (key, orig));
        let mut k: usize = 0;
        let ghost cn = entry.1.content@.len();
        while k < entry.1.content.len()
            invariant
                k <= entry.1.content@.len(),
                entry.1.content@.len() == cn,
                entry.1@.description == orig.description,
                entry.0@ == key,
                rs@ == mid,
                orig.content.len() == cn,
                forall|j: int| 0 <= j < k ==> #[trigger] entry.1@.content[j] == nullable_media(
                    orig.content[j],
                ),
                forall|j: int| k <= j < cn ==> #[trigger] entry.1@.content[j] == orig.content[j],
            decreases cn - k,
        {
            let ghost before_k = entry.1.content@;
            assert(entry.1@.content[k as int] == orig.content[k as int]);
            assert(entry.1@.content == media_views(before_k));
            let mut m = (String::new(), MediaType { schema: None });
            std::mem::swap(&mut m, &mut entry.1.content[k]);
            let ghost om = (m.0@, opt_schema_view(m.1.schema));
            assert(om == media_views(before_k)[k as int]);
            assert(om == orig.content[k as int]);
            let name = m.0;
            let updated = match m.1.schema {
                Some(mut sch) => {
                    sch.nullable = Some(true);
                    MediaType { schema: Some(sch) }
                },
                None => MediaType { schema: None },
            };
            let nm = (name, updated);
            assert((nm.0@, opt_schema_view(nm.1.schema)) == nullable_media(om));
            entry.1.content.set(k, nm);
            assert(media_views(entry.1.content@) =~= media_views(before_k).update(
                k as int,
                nullable_media(om),
            ));
            assert forall|j: int| 0 <= j < k + 1 implies #[trigger] entry.1@.content[j]
                == nullable_media(orig.content[j]) by {
                if j < k {
                    assert(media_views(before_k)[j] == entry.1@.content[j]);
                }
            }
            assert forall|j: int| k + 1 <= j < cn implies #[trigger] entry.1@.content[j]
                == orig.content[j] by {
                assert(media_views(before_k)[j] == entry.1@.content[j]);
            }
            k = k + 1;
        }
        assert(entry.1@.content =~= orig.content.map_values(|m| nullable_media(m)));
        assert(entry.0@ == key);
        rs.set(i, entry);
        assert(response_views(rs@)[i as int] == target[i as int]);
        assert forall|j: int| 0 <= j < i implies #[trigger] response_views(rs@)[j] == target[j] by {
            assert(mid[j] == before_i[j]);
            assert(rs@[j] == mid[j]);
            assert(response_views(before_i)[j] == target[j]);
        }
        i = i + 1;
    }
    assert(response_views(rs@) =~= target);
}

/// A type whose values have a schema: the schema, and the components it
/// refers to.
pub trait Entity {
    /// The schema of the type.
    spec fn schema_of() -> SchemaView;

    /// The components the schema needs, in the order they are added.
    spec fn components_of() -> Seq<(Seq<char>, SchemaView)>;

    /// A reference in the schema has a component name that can be cut off.
    proof fn lemma_reference()
        ensures
            Self::schema_of().ref_path.len() == 0 || cuttable(Self::schema_of().ref_path),
    ;

    /// The schema of the type.
    fn describe() -> (r: Schema)
        ensures
            r@ == Self::schema_of(),
    ;

    /// The components the schema needs.
    fn describe_components() -> (r: Vec<(String, Schema)>)
        ensures
            component_views(r@) == Self::components_of(),
    ;
}

/// A type whose values are replies: the responses it answers with.
pub trait ResponseEntity: Entity {
    /// The responses, by code.
    spec fn responses_of() -> Seq<(Seq<char>, ResponseView)>;

    /// The responses, by code.
    fn describe_responses() -> (r: Vec<(String, Response)>)
        ensures
            response_views(r@) == Self::responses_of(),
    ;
}

/// The schema of a scalar type, and no components.
pub open spec fn scalar_schema(t: SchemaType) -> SchemaView {
    SchemaView { schema_type: Some(t), ..blank_schema() }
}

/// No components.
pub open spec fn no_components() -> Seq<(Seq<char>, SchemaView)> {
    Seq::empty()
}

/// The components of a wrapped type: those of the type it wraps, then the
/// one its reference needs.
pub open spec fn wrapped_components(
    w: Wrapper,
    inner: Seq<(Seq<char>, SchemaView)>,
    s: SchemaView,
) -> Seq<(Seq<char>, SchemaView)> {
    inner + match wrapped_component(w, s) {
        Some(c) => seq![c],
        None => Seq::empty(),
    }
}

/// A wrapped reference still has a component name that can be cut off.
pub proof fn lemma_wrapped_reference(w: Wrapper, s: SchemaView)
    requires
        s.ref_path.len() == 0 || cuttable(s.ref_path),
    ensures
        wrapped_schema(w, s).ref_path.len() == 0 || cuttable(wrapped_schema(w, s).ref_path),
{
    if s.ref_path.len() > 0 {
        let p = s.ref_path;
        let q = p + wrapper_suffix(w);
        let k = choose|k: int|
            0 <= k <= p.len() && utf8_len(#[trigger] p.take(k)) == utf8_len(components_prefix());
        assert(q.take(k) =~= p.take(k));
    } else {
        reveal_strlit("#/components/schemas/");
    }
}

/// The schema of a wrapped type from its inner type's description.
fn wrapped_of<T: Entity>(w: Wrapper) -> (r: Schema)
    ensures
        r@ == wrapped_schema(w, T::schema_of()),
{
    describe_wrapped(w, T::describe())
}

/// The components of a wrapped type from its inner type's description.
fn wrapped_components_of<T: Entity>(w: Wrapper) -> (r: Vec<(String, Schema)>)
    ensures
        component_views(r@) == wrapped_components(w, T::components_of(), T::schema_of()),
{
    let mut v = T::describe_components();
    let s = T::describe();
    proof {
        T::lemma_reference();
    }
    wrap_components(w, &s, &mut v);
    v
}

impl Entity for () {
    open spec fn schema_of() -> SchemaView {
        scalar_schema(SchemaType::Object)
    }

    open spec fn components_of() -> Seq<(Seq<char>, SchemaView)> {
        no_components()
    }

    proof fn lemma_reference() {
    }

    fn describe() -> (r: Schema) {
        Schema::typed(SchemaType::Object)
    }

    fn describe_components() -> (r: Vec<(String, Schema)>) {
        let v: Vec<(String, Schema)> = Vec::new();
        assert(component_views(v@) =~= no_components());
        v
    }
}

impl Entity for u64 {
    open spec fn schema_of() -> SchemaView {
        scalar_schema(SchemaType::Integer)
    }

    open spec fn components_of() -> Seq<(Seq<char>, SchemaView)> {
        no_components()
    }

    proof fn lemma_reference() {
    }

    fn describe() -> (r: Schema) {
        Schema::typed(SchemaType::Integer)
    }

    fn describe_components() -> (r: Vec<(String, Schema)>) {
        let v: Vec<(String, Schema)> = Vec::new();
        assert(component_views(v@) =~= no_components());
        v
    }
}

impl Entity for bool {
    open spec fn schema_of() -> SchemaView {
        scalar_schema(SchemaType::Boolean)
    }

    open spec fn components_of() -> Seq<(Seq<char>, SchemaView)> {
        no_components()
    }

    proof fn lemma_reference() {
    }

    fn describe() -> (r: Schema) {
        Schema::typed(SchemaType::Boolean)
    }

    fn describe_components() -> (r: Vec<(String, Schema)>) {
        let v: Vec<(String, Schema)> = Vec::new();
        assert(component_views(v@) =~= no_components());
        v
    }
}

impl Entity for String {
    open spec fn schema_of() -> SchemaView {
        scalar_schema(SchemaType::String)
    }

    open spec fn components_of() -> Seq<(Seq<char>, SchemaView)> {
        no_components()
    }

    proof fn lemma_reference() {
    }

    fn describe() -> (r: Schema) {
        Schema::typed(SchemaType::String)
    }

    fn describe_components() -> (r: Vec<(String, Schema)>) {
        let v: Vec<(String, Schema)> = Vec::new();
        assert(component_views(v@) =~= no_components());
        v
    }
}

impl<T: Entity> Entity for Vec<T> {
    open spec fn schema_of() -> SchemaView {
        wrapped_schema(Wrapper::List, T::schema_of())
    }

    open spec fn components_of() -> Seq<(Seq<char>, SchemaView)> {
        wrapped_components(Wrapper::List, T::components_of(), T::schema_of())
    }

    proof fn lemma_reference() {
        T::lemma_reference();
        lemma_wrapped_reference(Wrapper::List, T::schema_of());
    }

    fn describe() -> (r: Schema) {
        wrapped_of::<T>(Wrapper::List)
    }

    fn describe_components() -> (r: Vec<(String, Schema)>) {
        wrapped_components_of::<T>(Wrapper::List)
    }
}

impl<T: Entity> Entity for Option<T> {
    open spec fn schema_of() -> SchemaView {
        wrapped_schema(Wrapper::Opt, T::schema_of())
    }

    open spec fn components_of() -> Seq<(Seq<char>, SchemaView)> {
        wrapped_components(Wrapper::Opt, T::components_of(), T::schema_of())
    }

    proof fn lemma_reference() {
        T::lemma_reference();
        lemma_wrapped_reference(Wrapper::Opt, T::schema_of());
    }

    fn describe() -> (r: Schema) {
        wrapped_of::<T>(Wrapper::Opt)
    }

    fn describe_components() -> (r: Vec<(String, Schema)>) {
        wrapped_components_of::<T>(Wrapper::Opt)
    }
}

impl Entity for u8 {
    open spec fn schema_of() -> SchemaView {
        scalar_schema(SchemaType::Integer)
    }

    open spec fn components_of() -> Seq<(Seq<char>, SchemaView)> {
        no_components()
    }

    proof fn lemma_reference() {
    }

    fn describe() -> (r: Schema) {
        Schema::typed(SchemaType::Integer)
    }

    fn describe_components() -> (r: Vec<(String, Schema)>) {
        let v: Vec<(String, Schema)> = Vec::new();
        assert(component_views(v@) =~= no_components());
        v
    }
}

impl Entity for u16 {
    open spec fn schema_of() -> SchemaView {
        scalar_schema(SchemaType::Integer)
    }

    open spec fn components_of() -> Seq<(Seq<char>, SchemaView)> {
        no_components()
    }

    proof fn lemma_reference() {
    }

    fn describe() -> (r: Schema) {
        Schema::typed(SchemaType::Integer)
    }

    fn describe_components() -> (r: Vec<(String, Schema)>) {
        let v: Vec<(String, Schema)> = Vec::new();
        assert(component_views(v@) =~= no_components());
        v
    }
}

impl Entity for u32 {
    open spec fn schema_of() -> SchemaView {
        scalar_schema(SchemaType::Integer)
    }

    open spec fn components_of() -> Seq<(Seq<char>, SchemaView)> {
        no_components()
    }

    proof fn lemma_reference() {
    }

    fn describe() -> (r: Schema) {
        Schema::typed(SchemaType::Integer)
    }

    fn describe_components() -> (r: Vec<(String, Schema)>) {
        let v: Vec<(String, Schema)> = Vec::new();
        assert(component_views(v@) =~= no_components());
        v
    }
}

impl Entity for u128 {
    open spec fn schema_of() -> SchemaView {
        scalar_schema(SchemaType::Integer)
    }

    open spec fn components_of() -> Seq<(Seq<char>, SchemaView)> {
        no_components()
    }

    proof fn lemma_reference() {
    }

    fn describe() -> (r: Schema) {
        Schema::typed(SchemaType::Integer)
    }

    fn describe_components() -> (r: Vec<(String, Schema)>) {
        let v: Vec<(String, Schema)> = Vec::new();
        assert(component_views(v@) =~= no_components());
        v
    }
}

impl Entity for usize {
    open spec fn schema_of() -> SchemaView {
        scalar_schema(SchemaType::Integer)
    }

    open spec fn components_of() -> Seq<(Seq<char>, SchemaView)> {
        no_components()
    }

    proof fn lemma_reference() {
    }

    fn describe() -> (r: Schema) {
        Schema::typed(SchemaType::Integer)
    }

    fn describe_components() -> (r: Vec<(String, Schema)>) {
        let v: Vec<(String, Schema)> = Vec::new();
        assert(component_views(v@) =~= no_components());
        v
    }
}

impl Entity for i8 {
    open spec fn schema_of() -> SchemaView {
        scalar_schema(SchemaType::Integer)
    }

    open spec fn components_of() -> Seq<(Seq<char>, SchemaView)> {
        no_components()
    }

    proof fn lemma_reference() {
    }

    fn describe() -> (r: Schema) {
        Schema::typed(SchemaType::Integer)
    }

    fn describe_components() -> (r: Vec<(String, Schema)>) {
        let v: Vec<(String, Schema)> = Vec::new();
        assert(component_views(v@) =~= no_components());
        v
    }
}

impl Entity for i16 {
    open spec fn schema_of() -> SchemaView {
        scalar_schema(SchemaType::Integer)
    }

    open spec fn components_of() -> Seq<(Seq<char>, SchemaView)> {
        no_components()
    }

    proof fn lemma_reference() {
    }

    fn describe() -> (r: Schema) {
        Schema::typed(SchemaType::Integer)
    }

    fn describe_components() -> (r: Vec<(String, Schema)>) {
        let v: Vec<(String, Schema)> = Vec::new();
        assert(component_views(v@) =~= no_components());
        v
    }
}

impl Entity for i32 {
    open spec fn schema_of() -> SchemaView {
        scalar_schema(SchemaType::Integer)
    }

    open spec fn components_of() -> Seq<(Seq<char>, SchemaView)> {
        no_components()
    }

    proof fn lemma_reference() {
    }

    fn describe() -> (r: Schema) {
        Schema::typed(SchemaType::Integer)
    }

    fn describe_components() -> (r: Vec<(String, Schema)>) {
        let v: Vec<(String, Schema)> = Vec::new();
        assert(component_views(v@) =~= no_components());
        v
    }
}

impl Entity for i64 {
    open spec fn schema_of() -> SchemaView {
        scalar_schema(SchemaType::Integer)
    }

    open spec fn components_of() -> Seq<(Seq<char>, SchemaView)> {
        no_components()
    }

    proof fn lemma_reference() {
    }

    fn describe() -> (r: Schema) {
        Schema::typed(SchemaType::Integer)
    }

    fn describe_components() -> (r: Vec<(String, Schema)>) {
        let v: Vec<(String, Schema)> = Vec::new();
        assert(component_views(v@) =~= no_components());
        v
    }
}

impl Entity for i128 {
    open spec fn schema_of() -> SchemaView {
        scalar_schema(SchemaType::Integer)
    }

    open spec fn components_of() -> Seq<(Seq<char>, SchemaView)> {
        no_components()
    }

    proof fn lemma_reference() {
    }

    fn describe() -> (r: Schema) {
        Schema::typed(SchemaType::Integer)
    }

    fn describe_components() -> (r: Vec<(String, Schema)>) {
        let v: Vec<(String, Schema)> = Vec::new();
        assert(component_views(v@) =~= no_components());
        v
    }
}

impl Entity for isize {
    open spec fn schema_of() -> SchemaView {
        scalar_schema(SchemaType::Integer)
    }

    open spec fn components_of() -> Seq<(Seq<char>, SchemaView)> {
        no_components()
    }

    proof fn lemma_reference() {
    }

    fn describe() -> (r: Schema) {
        Schema::typed(SchemaType::Integer)
    }

    fn describe_components() -> (r: Vec<(String, Schema)>) {
        let v: Vec<(String, Schema)> = Vec::new();
        assert(component_views(v@) =~= no_components());
        v
    }
}

impl Entity for char {
    open spec fn schema_of() -> SchemaView {
        scalar_schema(SchemaType::String)
    }

    open spec fn components_of() -> Seq<(Seq<char>, SchemaView)> {
        no_components()
    }

    proof fn lemma_reference() {
    }

    fn describe() -> (r: Schema) {
        Schema::typed(SchemaType::String)
    }

    fn describe_components() -> (r: Vec<(String, Schema)>) {
        let v: Vec<(String, Schema)> = Vec::new();
        assert(component_views(v@) =~= no_components());
        v
    }
}

impl<T: Entity> Entity for std::collections::VecDeque<T> {
    open spec fn schema_of() -> SchemaView {
        wrapped_schema(Wrapper::List, T::schema_of())
    }

    open spec fn components_of() -> Seq<(Seq<char>, SchemaView)> {
        wrapped_components(Wrapper::List, T::components_of(), T::schema_of())
    }

    proof fn lemma_reference() {
        T::lemma_reference();
        lemma_wrapped_reference(Wrapper::List, T::schema_of());
    }

    fn describe() -> (r: Schema) {
        wrapped_of::<T>(Wrapper::List)
    }

    fn describe_components() -> (r: Vec<(String, Schema)>) {
        wrapped_components_of::<T>(Wrapper::List)
    }
}

impl<T: Entity> Entity for std::collections::HashMap<String, T> {
    open spec fn schema_of() -> SchemaView {
        wrapped_schema(Wrapper::StringMap, T::schema_of())
    }

    open spec fn components_of() -> Seq<(Seq<char>, SchemaView)> {
        wrapped_components(Wrapper::StringMap, T::components_of(), T::schema_of())
    }

    proof fn lemma_reference() {
        T::lemma_reference();
        lemma_wrapped_reference(Wrapper::StringMap, T::schema_of());
    }

    fn describe() -> (r: Schema) {
        wrapped_of::<T>(Wrapper::StringMap)
    }

    fn describe_components() -> (r: Vec<(String, Schema)>) {
        wrapped_components_of::<T>(Wrapper::StringMap)
    }
}

impl<T: Entity> Entity for std::collections::BTreeMap<String, T> {
    open spec fn schema_of() -> SchemaView {
        wrapped_schema(Wrapper::StringMap, T::schema_of())
    }

    open spec fn components_of() -> Seq<(Seq<char>, SchemaView)> {
        wrapped_components(Wrapper::StringMap, T::components_of(), T::schema_of())
    }

    proof fn lemma_reference() {
        T::lemma_reference();
        lemma_wrapped_reference(Wrapper::StringMap, T::schema_of());
    }

    fn describe() -> (r: Schema) {
        wrapped_of::<T>(Wrapper::StringMap)
    }

    fn describe_components() -> (r: Vec<(String, Schema)>) {
        wrapped_components_of::<T>(Wrapper::StringMap)
    }
}

impl<T: Entity> Entity for std::collections::BTreeSet<T> {
    open spec fn schema_of() -> SchemaView {
        wrapped_schema(Wrapper::UniqueList, T::schema_of())
    }

    open spec fn components_of() -> Seq<(Seq<char>, SchemaView)> {
        wrapped_components(Wrapper::UniqueList, T::components_of(), T::schema_of())
    }

    proof fn lemma_reference() {
        T::lemma_reference();
        lemma_wrapped_reference(Wrapper::UniqueList, T::schema_of());
    }

    fn describe() -> (r: Schema) {
        wrapped_of::<T>(Wrapper::UniqueList)
    }

    fn describe_components() -> (r: Vec<(String, Schema)>) {
        wrapped_components_of::<T>(Wrapper::UniqueList)
    }
}

impl<T: Entity, S> Entity for std::collections::HashSet<T, S> {
    open spec fn schema_of() -> SchemaView {
        wrapped_schema(Wrapper::UniqueList, T::schema_of())
    }

    open spec fn components_of() -> Seq<(Seq<char>, SchemaView)> {
        wrapped_components(Wrapper::UniqueList, T::components_of(), T::schema_of())
    }

    proof fn lemma_reference() {
        T::lemma_reference();
        lemma_wrapped_reference(Wrapper::UniqueList, T::schema_of());
    }

    fn describe() -> (r: Schema) {
        wrapped_of::<T>(Wrapper::UniqueList)
    }

    fn describe_components() -> (r: Vec<(String, Schema)>) {
        wrapped_components_of::<T>(Wrapper::UniqueList)
    }
}

impl<T: Entity, const N: usize> Entity for [T; N] {
    open spec fn schema_of() -> SchemaView {
        wrapped_schema(Wrapper::Array(N), T::schema_of())
    }

    open spec fn components_of() -> Seq<(Seq<char>, SchemaView)> {
        wrapped_components(Wrapper::Array(N), T::components_of(), T::schema_of())
    }

    proof fn lemma_reference() {
        T::lemma_reference();
        lemma_wrapped_reference(Wrapper::Array(N), T::schema_of());
    }

    fn describe() -> (r: Schema) {
        wrapped_of::<T>(Wrapper::Array(N))
    }

    fn describe_components() -> (r: Vec<(String, Schema)>) {
        wrapped_components_of::<T>(Wrapper::Array(N))
    }
}

impl<T: Entity> Entity for (T, T) {
    open spec fn schema_of() -> SchemaView {
        wrapped_schema(Wrapper::Array(2), T::schema_of())
    }

    open spec fn components_of() -> Seq<(Seq<char>, SchemaView)> {
        wrapped_components(Wrapper::Array(2), T::components_of(), T::schema_of())
    }

    proof fn lemma_reference() {
        T::lemma_reference();
        lemma_wrapped_reference(Wrapper::Array(2), T::schema_of());
    }

    fn describe() -> (r: Schema) {
        wrapped_of::<T>(Wrapper::Array(2))
    }

    fn describe_components() -> (r: Vec<(String, Schema)>) {
        wrapped_components_of::<T>(Wrapper::Array(2))
    }
}

impl<T: Entity> Entity for (T, T, T) {
    open spec fn schema_of() -> SchemaView {
        wrapped_schema(Wrapper::Array(3), T::schema_of())
    }

    open spec fn components_of() -> Seq<(Seq<char>, SchemaView)> {
        wrapped_components(Wrapper::Array(3), T::components_of(), T::schema_of())
    }

    proof fn lemma_reference() {
        T::lemma_reference();
        lemma_wrapped_reference(Wrapper::Array(3), T::schema_of());
    }

    fn describe() -> (r: Schema) {
        wrapped_of::<T>(Wrapper::Array(3))
    }

    fn describe_components() -> (r: Vec<(String, Schema)>) {
        wrapped_components_of::<T>(Wrapper::Array(3))
    }
}

impl<T: Entity> Entity for (T, T, T, T) {
    open spec fn schema_of() -> SchemaView {
        wrapped_schema(Wrapper::Array(4), T::schema_of())
    }

    open spec fn components_of() -> Seq<(Seq<char>, SchemaView)> {
        wrapped_components(Wrapper::Array(4), T::components_of(), T::schema_of())
    }

    proof fn lemma_reference() {
        T::lemma_reference();
        lemma_wrapped_reference(Wrapper::Array(4), T::schema_of());
    }

    fn describe() -> (r: Schema) {
        wrapped_of::<T>(Wrapper::Array(4))
    }

    fn describe_components() -> (r: Vec<(String, Schema)>) {
        wrapped_components_of::<T>(Wrapper::Array(4))
    }
}

impl<T: Entity> Entity for (T, T, T, T, T) {
    open spec fn schema_of() -> SchemaView {
        wrapped_schema(Wrapper::Array(5), T::schema_of())
    }

    open spec fn components_of() -> Seq<(Seq<char>, SchemaView)> {
        wrapped_components(Wrapper::Array(5), T::components_of(), T::schema_of())
    }

    proof fn lemma_reference() {
        T::lemma_reference();
        lemma_wrapped_reference(Wrapper::Array(5), T::schema_of());
    }

    fn describe() -> (r: Schema) {
        wrapped_of::<T>(Wrapper::Array(5))
    }

    fn describe_components() -> (r: Vec<(String, Schema)>) {
        wrapped_components_of::<T>(Wrapper::Array(5))
    }
}

impl<T: Entity> Entity for Box<T> {
    open spec fn schema_of() -> SchemaView {
        T::schema_of()
    }

    open spec fn components_of() -> Seq<(Seq<char>, SchemaView)> {
        T::components_of()
    }

    proof fn lemma_reference() {
        T::lemma_reference();
    }

    fn describe() -> (r: Schema) {
        T::describe()
    }

    fn describe_components() -> (r: Vec<(String, Schema)>) {
        T::describe_components()
    }
}

impl<T: Entity> Entity for Json<T> {
    open spec fn schema_of() -> SchemaView {
        T::schema_of()
    }

    open spec fn components_of() -> Seq<(Seq<char>, SchemaView)> {
        T::components_of()
    }

    proof fn lemma_reference() {
        T::lemma_reference();
    }

    fn describe() -> (r: Schema) {
        T::describe()
    }

    fn describe_components() -> (r: Vec<(String, Schema)>) {
        T::describe_components()
    }
}

impl<T: Entity> Entity for Query<T> {
    open spec fn schema_of() -> SchemaView {
        T::schema_of()
    }

    open spec fn components_of() -> Seq<(Seq<char>, SchemaView)> {
        T::components_of()
    }

    proof fn lemma_reference() {
        T::lemma_reference();
    }

    fn describe() -> (r: Schema) {
        T::describe()
    }

    fn describe_components() -> (r: Vec<(String, Schema)>) {
        T::describe_components()
    }
}

impl<T: Entity> Entity for Form<T> {
    open spec fn schema_of() -> SchemaView {
        T::schema_of()
    }

    open spec fn components_of() -> Seq<(Seq<char>, SchemaView)> {
        T::components_of()
    }

    proof fn lemma_reference() {
        T::lemma_reference();
    }

    fn describe() -> (r: Schema) {
        T::describe()
    }

    fn describe_components() -> (r: Vec<(String, Schema)>) {
        T::describe_components()
    }
}

impl<T: Entity, E: Entity> Entity for Result<T, E> {
    open spec fn schema_of() -> SchemaView {
        result_schema(T::schema_of(), E::schema_of())
    }

    open spec fn components_of() -> Seq<(Seq<char>, SchemaView)> {
        T::components_of() + E::components_of()
    }

    proof fn lemma_reference() {
    }

    fn describe() -> (r: Schema) {
        describe_result(T::describe(), E::describe())
    }

    fn describe_components() -> (r: Vec<(String, Schema)>) {
        let mut v = T::describe_components();
        let mut w = E::describe_components();
        let ghost a = component_views(v@);
        let ghost b = component_views(w@);
        v.append(&mut w);
        assert(component_views(v@) =~= a + b);
        v
    }
}

impl ResponseEntity for String {
    open spec fn responses_of() -> Seq<(Seq<char>, ResponseView)> {
        single_response("text/plain"@, String::schema_of())
    }

    fn describe_responses() -> (r: Vec<(String, Response)>) {
        single_responses("text/plain", String::describe())
    }
}

impl<T: Entity> ResponseEntity for Json<T> {
    open spec fn responses_of() -> Seq<(Seq<char>, ResponseView)> {
        single_response("application/json"@, T::schema_of())
    }

    fn describe_responses() -> (r: Vec<(String, Response)>) {
        single_responses("application/json", T::describe())
    }
}

impl<T: ResponseEntity> ResponseEntity for Option<T> {
    open spec fn responses_of() -> Seq<(Seq<char>, ResponseView)> {
        nullable_responses(T::responses_of())
    }

    fn describe_responses() -> (r: Vec<(String, Response)>) {
        let mut rs = T::describe_responses();
        make_nullable(&mut rs);
        rs
    }
}

impl<T: ResponseEntity, E: ResponseEntity> ResponseEntity for Result<T, E> {
    open spec fn responses_of() -> Seq<(Seq<char>, ResponseView)> {
        keyed_insert_all(T::responses_of(), E::responses_of())
    }

    fn describe_responses() -> (r: Vec<(String, Response)>) {
        let mut rs = T::describe_responses();
        merge_responses(&mut rs, E::describe_responses());
        rs
    }
}

impl<T: ResponseEntity> ResponseEntity for Box<T> {
    open spec fn responses_of() -> Seq<(Seq<char>, ResponseView)> {
        T::responses_of()
    }

    fn describe_responses() -> (r: Vec<(String, Response)>) {
        T::describe_responses()
    }
}

/// A schema given in place, or by the name of a component.
#[derive(Debug, Clone, PartialEq, Eq)]
pub enum ComponentOrInlineSchema {
    Component { name: String },
    Inline(Schema),
}

/// The components described so far, by name, in the order they were first
/// described.
#[derive(Debug)]
pub struct ComponentDescriptor {
    components: Vec<(String, Schema)>,
}

impl ComponentDescriptor {
    /// The components described so far.
    pub closed spec fn components_of(&self) -> Seq<(Seq<char>, SchemaView)> {
        component_views(self.components@)
    }

    /// A descriptor without components.
    pub fn new() -> (r: ComponentDescriptor)
        ensures
            r.components_of() == Seq::<(Seq<char>, SchemaView)>::empty(),
    {
        let r = ComponentDescriptor { components: Vec::new() };
        assert(r.components_of() =~= Seq::<(Seq<char>, SchemaView)>::empty());
        r
    }

    /// The schema of the component of that name, if it is described.
    pub fn get_component(&self, name: &str) -> (r: Option<&Schema>)
        ensures
            (match r {
                Some(s) => Some(s@),
                None => None,
            }) == keyed_get(self.components_of(), name@),
    {
        let ghost m = self.components_of();
        let key = name.to_owned();
        let mut i: usize = 0;
        assert(m.skip(0) =~= m);
        while i < self.components.len() && self.components[i].0 != key
            invariant
                key@ == name@,
                i <= self.components@.len(),
                m == component_views(self.components@),
                keyed_position(m, name@) == i + keyed_position(m.skip(i as int), name@),
            decreases self.components@.len() - i,
        {
            assert(m.skip(i as int)[0] == m[i as int]);
            assert(m.skip(i as int).drop_first() =~= m.skip(i + 1));
            i = i + 1;
        }
        proof {
            lemma_keyed_position_bounds(m, name@);
            if i < m.len() {
                assert(m.skip(i as int)[0] == m[i as int]);
            } else {
                assert(m.skip(i as int) =~= Seq::<(Seq<char>, SchemaView)>::empty());
            }
        }
        if i < self.components.len() {
            Some(&self.components[i].1)
        } else {
            None
        }
    }

    /// The schema of a type: the one given in place, or the one of the
    /// component it names, which must be described.
    pub fn get_unpack<'a>(&'a self, schema: &'a ComponentOrInlineSchema) -> (r: &'a Schema)
        requires
            schema matches ComponentOrInlineSchema::Component { name } ==> keyed_get(
                self.components_of(),
                name@,
            ) is Some,
        ensures
            schema matches ComponentOrInlineSchema::Inline(s) ==> *r == s,
            schema matches ComponentOrInlineSchema::Component { name } ==> Some(r@) == keyed_get(
                self.components_of(),
                name@,
            ),
    {
        match schema {
            ComponentOrInlineSchema::Inline(s) => s,
            ComponentOrInlineSchema::Component { name } => self.get_component(name.as_str()).unwrap(),
        }
    }

    /// Describes a component unless it is already described, and refers to
    /// it by name. To stop a type that refers to itself, a blank schema
    /// stands under the name while `desc` describes it; the schema `desc`
    /// gives then replaces it.
    pub fn describe_component<F>(self, name: &str, desc: F) -> (r: (ComponentDescriptor, ComponentOrInlineSchema))
        where
            F: FnOnce(ComponentDescriptor) -> (ComponentDescriptor, Schema),
        requires
            keyed_get(self.components_of(), name@) is None ==> forall|d: ComponentDescriptor|
                d.components_of() == keyed_insert(self.components_of(), name@, blank_schema())
                    ==> #[trigger] desc.requires((d,)),
        ensures
            r.1 == (ComponentOrInlineSchema::Component { name: r.1->name }),
            r.1->name@ == name@,
            keyed_get(self.components_of(), name@) is Some ==> r.0.components_of()
                == self.components_of(),
            keyed_get(self.components_of(), name@) is None ==> exists|d: ComponentDescriptor, out: (ComponentDescriptor, Schema)|
                {
                    &&& d.components_of() == keyed_insert(self.components_of(), name@, blank_schema())
                    &&& #[trigger] desc.ensures((d,), out)
                    &&& r.0.components_of() == keyed_insert(out.0.components_of(), name@, out.1@)
                },
    {
        let reference = ComponentOrInlineSchema::Component { name: name.to_owned() };
        if self.get_component(name).is_some() {
            return (self, reference);
        }
        let mut me = self;
        insert_component(&mut me.components, name.to_owned(), Schema::blank());
        let ghost given = me;
        let out = desc(me);
        let ghost out_view = out;
        let (mut after, schema) = out;
        let ghost described = after.components_of();
        insert_component(&mut after.components, name.to_owned(), schema);
        assert(desc.ensures((given,), out_view));
        (after, reference)
    }

    /// The components described, by name.
    pub fn build(self) -> (r: Vec<(String, Schema)>)
        ensures
            component_views(r@) == self.components_of(),
    {
        self.components
    }
}

} // verus!
