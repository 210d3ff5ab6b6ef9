//! The schema that a derived `describe` gives: the plan of the schema derive
//! put together with the schemas of the field types, and registered as a
//! component when the plan names one.

use vstd::prelude::*;
use crate::entity::{
    blank_schema, clone_texts, component_views, components_prefix, ComponentDescriptor, ComponentOrInlineSchema,
    Schema, SchemaType, SchemaView,
};
use crate::openapi::{
    insert_component, keyed_get, keyed_insert, keyed_insert_reads_back, keyed_insert_twice,
    string_views,
};
use crate::schema::{FieldSchema, FieldSchemaView};
use crate::schema_plan::{
    planned_views, variant_views, PlannedField, PlannedFieldView, SchemaBody, SchemaBodyView,
    SchemaPlan, SchemaPlanView, Tagging, TaggingView, VariantBody, VariantBodyView,
};
use crate::util::{chars_of, string_of};

verus! {

/// Abstract value of a schema given in place or by the name of a component.
pub enum SchemaRefView {
    Component(Seq<char>),
    Inline(SchemaView),
}

impl View for ComponentOrInlineSchema {
    type V = SchemaRefView;

    open spec fn view(&self) -> SchemaRefView {
        match self {
            ComponentOrInlineSchema::Component { name } => SchemaRefView::Component(name@),
            ComponentOrInlineSchema::Inline(s) => SchemaRefView::Inline(s@),
        }
    }
}

/// The views of schemas given in place or by name.
pub open spec fn refs_view(v: Seq<ComponentOrInlineSchema>) -> Seq<SchemaRefView> {
    v.map_values(|c: ComponentOrInlineSchema| c@)
}

/// The views of groups of schemas given in place or by name.
pub open spec fn ref_groups_view(v: Seq<Vec<ComponentOrInlineSchema>>) -> Seq<Seq<SchemaRefView>> {
    v.map_values(|g: Vec<ComponentOrInlineSchema>| refs_view(g@))
}

/// A schema that refers to the component of that name.
pub open spec fn reference_to(name: Seq<char>) -> SchemaView {
    SchemaView { ref_path: components_prefix() + name, ..blank_schema() }
}

/// A schema given in place or by name, written as a schema.
pub open spec fn as_schema(r: SchemaRefView) -> SchemaView {
    match r {
        SchemaRefView::Component(name) => reference_to(name),
        SchemaRefView::Inline(s) => s,
    }
}

/// What a schema given in place or by name stands for among the components:
/// itself, or the component it names.
pub open spec fn unpacked(comps: Seq<(Seq<char>, SchemaView)>, r: SchemaRefView) -> Option<
    SchemaView,
> {
    match r {
        SchemaRefView::Component(name) => keyed_get(comps, name),
        SchemaRefView::Inline(s) => Some(s),
    }
}

/// Every schema given by name names a described component.
pub open spec fn all_resolvable(comps: Seq<(Seq<char>, SchemaView)>, rs: Seq<SchemaRefView>) -> bool {
    forall|i: int| 0 <= i < rs.len() ==> #[trigger] unpacked(comps, rs[i]) is Some
}

/// The schema of a field's type as its property: a schema given in place
/// takes the field's description, example and access; a reference stays.
pub open spec fn field_property(f: FieldSchemaView, r: SchemaRefView) -> SchemaRefView {
    match r {
        SchemaRefView::Component(name) => SchemaRefView::Component(name),
        SchemaRefView::Inline(s) => SchemaRefView::Inline(
            SchemaView {
                description: match f.description {
                    Some(d) => d,
                    None => s.description,
                },
                example: match f.example {
                    Some(x) => Some(x),
                    None => s.example,
                },
                write_only: if f.write_only {
                    Some(true)
                } else {
                    s.write_only
                },
                read_only: if f.read_only {
                    Some(true)
                } else {
                    s.read_only
                },
                ..s
            },
        ),
    }
}

/// The properties of an object of fields, the schema of each field's type
/// given by `rs`: each field's property replaces an earlier one of its name,
/// or comes last.
pub open spec fn field_properties(fs: Seq<PlannedFieldView>, rs: Seq<SchemaRefView>) -> Seq<
    (Seq<char>, SchemaView),
>
    decreases fs.len(),
{
    if fs.len() == 0 {
        Seq::empty()
    } else {
        keyed_insert(
            field_properties(fs.drop_last(), rs.take(fs.len() - 1)),
            fs.last().name,
            as_schema(field_property(fs.last().schema, rs[fs.len() - 1])),
        )
    }
}

/// The required fields of an object, in order: those whose type's schema is
/// not nullable.
pub open spec fn required_fields(
    fs: Seq<PlannedFieldView>,
    rs: Seq<SchemaRefView>,
    comps: Seq<(Seq<char>, SchemaView)>,
) -> Seq<Seq<char>>
    decreases fs.len(),
{
    if fs.len() == 0 {
        Seq::empty()
    } else {
        let done = required_fields(fs.drop_last(), rs.take(fs.len() - 1), comps);
        if unpacked(comps, rs[fs.len() - 1]).unwrap().nullable != Some(true) {
            done.push(fs.last().name)
        } else {
            done
        }
    }
}

/// An object schema of fields.
pub open spec fn fields_object(
    fs: Seq<PlannedFieldView>,
    rs: Seq<SchemaRefView>,
    comps: Seq<(Seq<char>, SchemaView)>,
) -> SchemaView {
    SchemaView {
        schema_type: Some(SchemaType::Object),
        properties: field_properties(fs, rs),
        required: required_fields(fs, rs, comps),
        ..blank_schema()
    }
}

/// A schema given in place with a description, when the description says
/// something; a reference stays.
pub open spec fn described(r: SchemaRefView, d: Seq<char>) -> SchemaRefView {
    match r {
        SchemaRefView::Inline(s) => if d.len() > 0 {
            SchemaRefView::Inline(SchemaView { description: d, ..s })
        } else {
            SchemaRefView::Inline(s)
        },
        SchemaRefView::Component(name) => SchemaRefView::Component(name),
    }
}

/// What a variant carries: an object of its fields, the schema of its one
/// field, or nothing.
pub open spec fn variant_content(
    v: VariantBodyView,
    rs: Seq<SchemaRefView>,
    comps: Seq<(Seq<char>, SchemaView)>,
) -> Option<SchemaRefView> {
    match v {
        VariantBodyView::Fields { fields, description } => Some(
            SchemaRefView::Inline(
                SchemaView { description: description, ..fields_object(fields, rs, comps) },
            ),
        ),
        VariantBodyView::Inner { rust_type, description } => Some(described(rs[0], description)),
        VariantBodyView::Nothing => None,
    }
}

/// A string that can only be the name.
pub open spec fn name_schema(name: Seq<char>) -> SchemaView {
    SchemaView {
        schema_type: Some(SchemaType::String),
        enum_values: seq![name],
        ..blank_schema()
    }
}

/// An object whose required property `tag` can only be the name.
pub open spec fn tag_object(tag: Seq<char>, name: Seq<char>) -> SchemaView {
    SchemaView {
        schema_type: Some(SchemaType::Object),
        properties: seq![(tag, name_schema(name))],
        required: seq![tag],
        ..blank_schema()
    }
}

/// The schema of a variant among the others, as its tagging tells it apart.
pub open spec fn tagged_variant(t: TaggingView, name: Seq<char>, c: Option<SchemaRefView>) -> SchemaView {
    match t {
        TaggingView::External => match c {
            Some(c) => SchemaView {
                schema_type: Some(SchemaType::Object),
                properties: seq![(name, as_schema(c))],
                required: seq![name],
                ..blank_schema()
            },
            None => name_schema(name),
        },
        TaggingView::Internal(tag) => match c {
            Some(c) => match c {
                SchemaRefView::Inline(s) => if s.schema_type == Some(SchemaType::Object) {
                    SchemaView {
                        properties: s.properties.push((tag, name_schema(name))),
                        required: s.required.push(tag),
                        ..s
                    }
                } else {
                    SchemaView { all_of: seq![tag_object(tag, name), s], ..blank_schema() }
                },
                SchemaRefView::Component(n) => SchemaView {
                    all_of: seq![tag_object(tag, name), reference_to(n)],
                    ..blank_schema()
                },
            },
            None => tag_object(tag, name),
        },
        TaggingView::Adjacent(tag, content) => match c {
            Some(c) => SchemaView {
                schema_type: Some(SchemaType::Object),
                properties: keyed_insert(seq![(tag, name_schema(name))], content, as_schema(c)),
                required: seq![tag, content],
                ..blank_schema()
            },
            None => tag_object(tag, name),
        },
        TaggingView::Untagged => match c {
            Some(c) => as_schema(c),
            None => blank_schema(),
        },
    }
}

/// The schemas of the variants, in order.
pub open spec fn variant_schemas(
    t: TaggingView,
    vs: Seq<(Seq<char>, VariantBodyView)>,
    rss: Seq<Seq<SchemaRefView>>,
    comps: Seq<(Seq<char>, SchemaView)>,
) -> Seq<SchemaView> {
    Seq::new(vs.len(), |i: int| tagged_variant(t, vs[i].0, variant_content(vs[i].1, rss[i], comps)))
}

/// Whether the schemas given for a variant fit it: one per field of a
/// variant with fields, one for a variant with one field, none otherwise;
/// those given by name are described; a variant without content is not
/// untagged; and an internal tag does not clash with a property of an
/// object the variant carries.
pub open spec fn variant_fits(
    t: TaggingView,
    v: VariantBodyView,
    rs: Seq<SchemaRefView>,
    comps: Seq<(Seq<char>, SchemaView)>,
) -> bool {
    &&& match v {
        VariantBodyView::Fields { fields, description } => rs.len() == fields.len() && all_resolvable(
            comps,
            rs,
        ),
        VariantBodyView::Inner { rust_type, description } => rs.len() == 1,
        VariantBodyView::Nothing => rs.len() == 0 && !(t is Untagged),
    }
    &&& match t {
        TaggingView::Internal(tag) => match variant_content(v, rs, comps) {
            Some(SchemaRefView::Inline(s)) => s.schema_type == Some(SchemaType::Object) ==> keyed_get(
                s.properties,
                tag,
            ) is None,
            _ => true,
        },
        _ => true,
    }
}

/// Whether the schemas given fit a plan: for a struct with named fields, one
/// group with one schema per field; for an enum of variants, one group per
/// variant that fits it.
pub open spec fn plan_fits(
    body: SchemaBodyView,
    rss: Seq<Seq<SchemaRefView>>,
    comps: Seq<(Seq<char>, SchemaView)>,
) -> bool {
    match body {
        SchemaBodyView::Object(Some(fs)) => rss.len() == 1 && rss[0].len() == fs.len()
            && all_resolvable(comps, rss[0]),
        SchemaBodyView::OneOf { tagging, variants } => rss.len() == variants.len() && forall|i: int|
            0 <= i < variants.len() ==> #[trigger] variant_fits(tagging, variants[i].1, rss[i], comps),
        _ => true,
    }
}

/// The schema a plan describes, the schemas of the field types given by
/// `rss`: with the plan's description and example, an object (of the
/// fields of a struct with named fields), a string of the variants' names,
/// an object whose tag is one of the names, or one of the variants.
pub open spec fn plan_schema(
    p: SchemaPlanView,
    rss: Seq<Seq<SchemaRefView>>,
    comps: Seq<(Seq<char>, SchemaView)>,
) -> SchemaView {
    let base = SchemaView { description: p.description, example: p.example, ..blank_schema() };
    match p.body {
        SchemaBodyView::Object(None) => SchemaView { schema_type: Some(SchemaType::Object), ..base },
        SchemaBodyView::Object(Some(fs)) => SchemaView {
            schema_type: Some(SchemaType::Object),
            properties: field_properties(fs, rss[0]),
            required: required_fields(fs, rss[0], comps),
            ..base
        },
        SchemaBodyView::StringEnum(names) => SchemaView {
            schema_type: Some(SchemaType::String),
            enum_values: names,
            ..base
        },
        SchemaBodyView::TaggedStringEnum { tag, names } => SchemaView {
            schema_type: Some(SchemaType::Object),
            properties: seq![
                (tag, SchemaView { schema_type: Some(SchemaType::String), enum_values: names, ..blank_schema() }),
            ],
            required: seq![tag],
            ..base
        },
        SchemaBodyView::OneOf { tagging, variants } => SchemaView {
            one_of: variant_schemas(tagging, variants, rss, comps),
            ..base
        },
    }
}

/// The components after a derived type is described under its name: a
/// type of a component is registered once, with the schema of its plan; a
/// type described in place adds nothing.
pub open spec fn components_after(
    p: SchemaPlanView,
    name: Seq<char>,
    schema: SchemaView,
    comps: Seq<(Seq<char>, SchemaView)>,
) -> Seq<(Seq<char>, SchemaView)> {
    if p.component is Some && keyed_get(comps, name) is None {
        keyed_insert(comps, name, schema)
    } else {
        comps
    }
}

/// A type is registered once: describing it again, whatever schema its
/// plan then gives, leaves the components as the first description left
/// them, and the component holds the first schema.
pub proof fn component_described_once(
    p: SchemaPlanView,
    name: Seq<char>,
    first: SchemaView,
    again: SchemaView,
    comps: Seq<(Seq<char>, SchemaView)>,
)
    ensures
        components_after(p, name, again, components_after(p, name, first, comps))
            == components_after(p, name, first, comps),
        p.component is Some ==> keyed_get(components_after(p, name, first, comps), name) is Some,
        p.component is Some && keyed_get(comps, name) is None ==> keyed_get(
            components_after(p, name, first, comps),
            name,
        ) == Some(first),
{
    if p.component is Some && keyed_get(comps, name) is None {
        keyed_insert_reads_back(comps, name, first, name);
    }
}

/// Whether a variant's schema requires the tag, itself or through the first
/// schema it must match all of.
pub open spec fn requires_tag(v: SchemaView, tag: Seq<char>, name: Seq<char>) -> bool {
    ||| v.required.contains(tag) && v.properties.contains((tag, name_schema(name)))
    ||| v.all_of.len() == 2 && v.all_of[0].required.contains(tag) && v.all_of[0].properties.contains(
        (tag, name_schema(name)),
    )
}

/// In an internally tagged enum every variant's schema requires the tag,
/// which can only be the variant's name. A variant carrying an object keeps
/// that object's properties and requirements and adds the tag after them.
pub proof fn internal_tag_is_required(tag: Seq<char>, name: Seq<char>, c: Option<SchemaRefView>)
    ensures
        requires_tag(tagged_variant(TaggingView::Internal(tag), name, c), tag, name),
        match c {
            Some(SchemaRefView::Inline(s)) => s.schema_type == Some(SchemaType::Object) ==> {
                let v = tagged_variant(TaggingView::Internal(tag), name, c);
                &&& v.required == s.required + seq![tag]
                &&& v.properties == s.properties + seq![(tag, name_schema(name))]
                &&& v.schema_type == Some(SchemaType::Object)
            },
            _ => true,
        },
{
    let v = tagged_variant(TaggingView::Internal(tag), name, c);
    let t = tag_object(tag, name);
    assert(t.required[0] == tag);
    assert(t.properties[0] == (tag, name_schema(name)));
    match c {
        Some(SchemaRefView::Inline(s)) => {
            if s.schema_type == Some(SchemaType::Object) {
                assert(v.required[s.required.len() as int] == tag);
                assert(v.properties[s.properties.len() as int] == (tag, name_schema(name)));
                assert(s.required.push(tag) =~= s.required + seq![tag]);
                assert(s.properties.push((tag, name_schema(name))) =~= s.properties + seq![
                    (tag, name_schema(name)),
                ]);
            } else {
                assert(v.all_of[0] == t);
            }
        },
        Some(SchemaRefView::Component(n)) => {
            assert(v.all_of[0] == t);
        },
        None => {},
    }
}

/// Every variant of an internally tagged enum that a plan describes requires
/// its tag, which can only be the variant's name.
pub proof fn internally_tagged_variants_require_the_tag(
    p: SchemaPlanView,
    rss: Seq<Seq<SchemaRefView>>,
    comps: Seq<(Seq<char>, SchemaView)>,
    i: int,
)
    requires
        p.body matches SchemaBodyView::OneOf { tagging, variants } && tagging is Internal && 0 <= i
            < variants.len(),
    ensures
        ({
            let variants = p.body->variants;
            let tag = p.body->tagging->Internal_0;
            requires_tag(plan_schema(p, rss, comps).one_of[i], tag, variants[i].0)
        }),
{
    let variants = p.body->variants;
    let tagging = p.body->tagging;
    let tag = tagging->Internal_0;
    internal_tag_is_required(tag, variants[i].0, variant_content(variants[i].1, rss[i], comps));
}

/// The required fields of an object are exactly the fields whose type's
/// schema is not nullable: each such field's name is required, and each
/// required name is the name of such a field.
pub proof fn required_fields_are_the_non_nullable(
    fs: Seq<PlannedFieldView>,
    rs: Seq<SchemaRefView>,
    comps: Seq<(Seq<char>, SchemaView)>,
)
    requires
        rs.len() == fs.len(),
    ensures
        forall|i: int|
            0 <= i < fs.len() && unpacked(comps, rs[i]).unwrap().nullable != Some(true)
                ==> #[trigger] required_fields(fs, rs, comps).contains(fs[i].name),
        forall|n: Seq<char>|
            #[trigger] required_fields(fs, rs, comps).contains(n) ==> exists|i: int|
                0 <= i < fs.len() && fs[i].name == n && unpacked(comps, rs[i]).unwrap().nullable
                    != Some(true),
    decreases fs.len(),
{
    if fs.len() > 0 {
        let k = fs.len() - 1;
        let fs0 = fs.drop_last();
        let rs0 = rs.take(k);
        required_fields_are_the_non_nullable(fs0, rs0, comps);
        let done = required_fields(fs0, rs0, comps);
        let all = required_fields(fs, rs, comps);
        assert forall|i: int|
            0 <= i < fs.len() && unpacked(comps, rs[i]).unwrap().nullable != Some(true)
                implies #[trigger] all.contains(fs[i].name) by {
            if i < k {
                assert(fs0[i] == fs[i]);
                assert(rs0[i] == rs[i]);
                assert(done.contains(fs0[i].name));
                let j = choose|j: int| 0 <= j < done.len() && done[j] == fs0[i].name;
                assert(all[j] == done[j]);
            } else {
                assert(all[all.len() - 1] == fs[i].name);
            }
        }
        assert forall|n: Seq<char>| #[trigger] all.contains(n) implies exists|i: int|
            0 <= i < fs.len() && fs[i].name == n && unpacked(comps, rs[i]).unwrap().nullable
                != Some(true) by {
            let j = choose|j: int| 0 <= j < all.len() && all[j] == n;
            if j < done.len() {
                assert(done[j] == n);
                assert(done.contains(n));
                let i = choose|i: int|
                    0 <= i < fs0.len() && fs0[i].name == n && unpacked(comps, rs0[i]).unwrap().nullable
                        != Some(true);
                assert(fs[i] == fs0[i] && rs[i] == rs0[i]);
            } else {
                assert(fs[k].name == n);
            }
        }
    }
}

/// The other taggings: an externally tagged variant with content is an
/// object whose one required property, named after the variant, holds the
/// content, and one without content is the string of its name; an
/// adjacently tagged variant with content requires the tag and the content
/// property, which holds the content; an untagged variant is its content.
pub proof fn taggings_tell_variants_apart(
    name: Seq<char>,
    tag: Seq<char>,
    content: Seq<char>,
    c: SchemaRefView,
)
    ensures
        tagged_variant(TaggingView::External, name, Some(c)).required == seq![name],
        tagged_variant(TaggingView::External, name, Some(c)).properties == seq![(name, as_schema(c))],
        tagged_variant(TaggingView::External, name, None) == name_schema(name),
        tag != content ==> tagged_variant(TaggingView::Adjacent(tag, content), name, Some(c)).required
            == seq![tag, content],
        tag != content ==> tagged_variant(TaggingView::Adjacent(tag, content), name, Some(c)).properties
            == seq![(tag, name_schema(name)), (content, as_schema(c))],
        tagged_variant(TaggingView::Adjacent(tag, content), name, None) == tag_object(tag, name),
        tagged_variant(TaggingView::Untagged, name, Some(c)) == as_schema(c),
{
    if tag != content {
        let m = seq![(tag, name_schema(name))];
        reveal_with_fuel(crate::openapi::keyed_position, 3);
        assert(m.drop_first() =~= Seq::<(Seq<char>, SchemaView)>::empty());
        assert(crate::openapi::keyed_position(m, content) == 1);
        assert(m.push((content, as_schema(c))) =~= seq![(tag, name_schema(name)), (content, as_schema(c))]);
    }
}

/// A schema that refers to the component of that name.
pub fn reference_schema(name: &str) -> (r: Schema)
    ensures
        r@ == reference_to(name@),
{
    let mut chars = chars_of("#/components/schemas/");
    proof {
        reveal_strlit("#/components/schemas/");
    }
    let tail = chars_of(name);
    let ghost start = chars@;
    let mut k: usize = 0;
    while k < tail.len()
        invariant
            k <= tail@.len(),
            chars@ == start + tail@.take(k as int),
        decreases tail@.len() - k,
    {
        chars.push(tail[k]);
        assert(tail@.take(k + 1) =~= tail@.take(k as int).push(tail@[k as int]));
        k = k + 1;
    }
    assert(tail@.take(tail@.len() as int) =~= tail@);
    let mut r = Schema::blank();
    r.ref_path = string_of(chars.as_slice());
    r
}

/// A schema given in place or by name, written as a schema.
pub fn schema_of_ref(r: ComponentOrInlineSchema) -> (s: Schema)
    ensures
        s@ == as_schema(r@),
{
    match r {
        ComponentOrInlineSchema::Component { name } => reference_schema(name.as_str()),
        ComponentOrInlineSchema::Inline(s) => s,
    }
}

/// The schema of a field's type as its property.
pub fn field_property_of(f: &FieldSchema, r: ComponentOrInlineSchema) -> (p: ComponentOrInlineSchema)
    ensures
        p@ == field_property(f@, r@),
{
    match r {
        ComponentOrInlineSchema::Component { name } => ComponentOrInlineSchema::Component { name },
        ComponentOrInlineSchema::Inline(s) => {
            let mut s = s;
            match &f.description {
                Some(d) => {
                    s.description = d.clone();
                },
                None => {},
            }
            match &f.example {
                Some(x) => {
                    s.example = Some(x.clone());
                },
                None => {},
            }
            if f.write_only {
                s.write_only = Some(true);
            }
            if f.read_only {
                s.read_only = Some(true);
            }
            ComponentOrInlineSchema::Inline(s)
        },
    }
}

/// Whether the schema of a type, once unpacked, is not nullable.
fn not_nullable(comp: &ComponentDescriptor, r: &ComponentOrInlineSchema) -> (b: bool)
    requires
        unpacked(comp.components_of(), r@) is Some,
    ensures
        b == (unpacked(comp.components_of(), r@).unwrap().nullable != Some(true)),
{
    let s = comp.get_unpack(r);
    match s.nullable {
        Some(true) => false,
        _ => true,
    }
}

/// The properties and required fields of an object of fields, the schema
/// of each field's type given in order.
pub fn object_of_fields(
    fields: &Vec<PlannedField>,
    schemas: Vec<ComponentOrInlineSchema>,
    comp: &ComponentDescriptor,
) -> (r: (Vec<(String, Schema)>, Vec<String>))
    requires
        schemas@.len() == fields@.len(),
        all_resolvable(comp.components_of(), refs_view(schemas@)),
    ensures
        component_views(r.0@) == field_properties(planned_views(fields@), refs_view(schemas@)),
        string_views(r.1@) == required_fields(
            planned_views(fields@),
            refs_view(schemas@),
            comp.components_of(),
        ),
{
    let ghost fs = planned_views(fields@);
    let ghost rs = refs_view(schemas@);
    let ghost comps = comp.components_of();
    let mut props: Vec<(String, Schema)> = Vec::new();
    let mut required: Vec<String> = Vec::new();
    let mut rest = schemas;
    let mut i: usize = 0;
    assert(rs.skip(0) =~= rs);
    assert(component_views(props@) =~= field_properties(fs.take(0), rs.take(0)));
    assert(string_views(required@) =~= required_fields(fs.take(0), rs.take(0), comps));
    while i < fields.len()
        invariant
            fs == planned_views(fields@),
            rs.len() == fs.len(),
            comps == comp.components_of(),
            all_resolvable(comps, rs),
            i <= fields@.len(),
            refs_view(rest@) == rs.skip(i as int),
            component_views(props@) == field_properties(fs.take(i as int), rs.take(i as int)),
            string_views(required@) == required_fields(fs.take(i as int), rs.take(i as int), comps),
        decreases fields@.len() - i,
    {
        let ghost before = refs_view(rest@);
        let ghost old_rest = rest@;
        assert(before.len() == old_rest.len());
        assert(before.len() == rs.len() - i);
        let s = rest.remove(0);
        assert(before[0] == old_rest[0]@);
        assert(before[0] == s@);
        assert(before.drop_first() =~= refs_view(rest@));
        assert(rs.skip(i as int)[0] == rs[i as int]);
        assert(rs.skip(i as int).drop_first() =~= rs.skip(i + 1));
        assert(unpacked(comps, rs[i as int]) is Some);
        let keep = not_nullable(comp, &s);
        let ghost before_required = required@;
        if keep {
            required.push(fields[i].name.clone());
            assert(string_views(required@) =~= string_views(before_required).push(fields@[i as int].name@));
        }
        let p = field_property_of(&fields[i].schema, s);
        let ps = schema_of_ref(p);
        insert_component(&mut props, fields[i].name.clone(), ps);
        proof {
            let t = fs.take(i + 1);
            assert(t.drop_last() =~= fs.take(i as int));
            assert(rs.take(i + 1).take(i as int) =~= rs.take(i as int));
            assert(t.last() == fs[i as int]);
            assert(rs.take(i + 1)[i as int] == rs[i as int]);
            assert(fs[i as int] == fields@[i as int]@);
        }
        i = i + 1;
    }
    assert(fs.take(fs.len() as int) =~= fs);
    assert(rs.take(rs.len() as int) =~= rs);
    (props, required)
}


/// A schema given in place or by name, if any, by its view.
pub open spec fn opt_ref_view(c: Option<ComponentOrInlineSchema>) -> Option<SchemaRefView> {
    match c {
        Some(c) => Some(c@),
        None => None,
    }
}

/// An object schema of the properties and required names.
fn object_schema(props: Vec<(String, Schema)>, required: Vec<String>) -> (r: Schema)
    ensures
        r@ == (SchemaView {
            schema_type: Some(SchemaType::Object),
            properties: component_views(props@),
            required: string_views(required@),
            ..blank_schema()
        }),
{
    let mut r = Schema::typed(SchemaType::Object);
    r.properties = props;
    r.required = required;
    assert(r@.properties =~= component_views(props@));
    assert(r@.required =~= string_views(required@));
    r
}

/// A string that can only be the name.
fn name_schema_of(name: &String) -> (r: Schema)
    ensures
        r@ == name_schema(name@),
{
    let mut r = Schema::typed(SchemaType::String);
    r.enum_values = vec![name.clone()];
    assert(r@.enum_values =~= seq![name@]);
    r
}

/// An object whose required property `tag` can only be the name.
fn tag_object_of(tag: &String, name: &String) -> (r: Schema)
    ensures
        r@ == tag_object(tag@, name@),
{
    let props = vec![(tag.clone(), name_schema_of(name))];
    let required = vec![tag.clone()];
    assert(component_views(props@) =~= seq![(tag@, name_schema(name@))]);
    assert(string_views(required@) =~= seq![tag@]);
    object_schema(props, required)
}

/// What a variant carries, the schemas of its field types given in order.
fn variant_content_of(body: &VariantBody, rs: Vec<ComponentOrInlineSchema>, comp: &ComponentDescriptor) -> (r:
    Option<ComponentOrInlineSchema>)
    requires
        match body@ {
            VariantBodyView::Fields { fields, description } => rs@.len() == fields.len()
                && all_resolvable(comp.components_of(), refs_view(rs@)),
            VariantBodyView::Inner { rust_type, description } => rs@.len() == 1,
            VariantBodyView::Nothing => true,
        },
    ensures
        opt_ref_view(r) == variant_content(body@, refs_view(rs@), comp.components_of()),
{
    match body {
        VariantBody::Fields { fields, description } => {
            let (props, required) = object_of_fields(fields, rs, comp);
            let mut s = object_schema(props, required);
            s.description = description.clone();
            Some(ComponentOrInlineSchema::Inline(s))
        },
        VariantBody::Inner { rust_type, description } => {
            let ghost rv = refs_view(rs@);
            let mut rs = rs;
            let c = rs.remove(0);
            assert(rv[0] == c@);
            match c {
                ComponentOrInlineSchema::Inline(s) => {
                    let mut s = s;
                    if !description.as_str().is_empty() {
                        s.description = description.clone();
                    }
                    Some(ComponentOrInlineSchema::Inline(s))
                },
                ComponentOrInlineSchema::Component { name } => Some(
                    ComponentOrInlineSchema::Component { name },
                ),
            }
        },
        VariantBody::Nothing => None,
    }
}

/// The schema of a variant among the others, as its tagging tells it apart.
fn tag_variant(tagging: &Tagging, name: &String, c: Option<ComponentOrInlineSchema>) -> (r: Schema)
    requires
        tagging@ is Untagged ==> c is Some,
        match tagging@ {
            TaggingView::Internal(tag) => match opt_ref_view(c) {
                Some(SchemaRefView::Inline(s)) => s.schema_type == Some(SchemaType::Object)
                    ==> keyed_get(s.properties, tag) is None,
                _ => true,
            },
            _ => true,
        },
    ensures
        r@ == tagged_variant(tagging@, name@, opt_ref_view(c)),
{
    match tagging {
        Tagging::External => match c {
            Some(c) => {
                let props = vec![(name.clone(), schema_of_ref(c))];
                let required = vec![name.clone()];
                assert(component_views(props@) =~= seq![(name@, as_schema(c@))]);
                assert(string_views(required@) =~= seq![name@]);
                object_schema(props, required)
            },
            None => name_schema_of(name),
        },
        Tagging::Internal(tag) => match c {
            Some(ComponentOrInlineSchema::Inline(s)) => {
                if s.schema_type == Some(SchemaType::Object) {
                    let mut s = s;
                    let ghost before = s@;
                    s.properties.push((tag.clone(), name_schema_of(name)));
                    s.required.push(tag.clone());
                    assert(s@.properties =~= before.properties.push((tag@, name_schema(name@))));
                    assert(s@.required =~= before.required.push(tag@));
                    assert(s@ =~= (SchemaView {
                        properties: before.properties.push((tag@, name_schema(name@))),
                        required: before.required.push(tag@),
                        ..before
                    }));
                    s
                } else {
                    let mut r = Schema::blank();
                    let ghost sv = s@;
                    r.all_of = vec![tag_object_of(tag, name), s];
                    assert(r@.all_of =~= seq![tag_object(tag@, name@), sv]);
                    r
                }
            },
            Some(ComponentOrInlineSchema::Component { name: n }) => {
                let mut r = Schema::blank();
                r.all_of = vec![tag_object_of(tag, name), reference_schema(n.as_str())];
                assert(r@.all_of =~= seq![tag_object(tag@, name@), reference_to(n@)]);
                r
            },
            None => tag_object_of(tag, name),
        },
        Tagging::Adjacent(tag, content) => match c {
            Some(c) => {
                let mut props = vec![(tag.clone(), name_schema_of(name))];
                assert(component_views(props@) =~= seq![(tag@, name_schema(name@))]);
                let ghost cv = c@;
                insert_component(&mut props, content.clone(), schema_of_ref(c));
                let required = vec![tag.clone(), content.clone()];
                assert(string_views(required@) =~= seq![tag@, content@]);
                object_schema(props, required)
            },
            None => tag_object_of(tag, name),
        },
        Tagging::Untagged => match c {
            Some(c) => schema_of_ref(c),
            None => Schema::blank(),
        },
    }
}


/// The schema a plan describes, the schemas of the field types given in
/// groups as `plan_fits` asks.
fn plan_schema_of(plan: &SchemaPlan, rss: Vec<Vec<ComponentOrInlineSchema>>, comp: &ComponentDescriptor) -> (r:
    Schema)
    requires
        plan_fits(plan@.body, ref_groups_view(rss@), comp.components_of()),
    ensures
        r@ == plan_schema(plan@, ref_groups_view(rss@), comp.components_of()),
{
    let ghost gs = ref_groups_view(rss@);
    let ghost comps = comp.components_of();
    let mut base = Schema::blank();
    base.description = plan.description.clone();
    base.example = match &plan.example {
        Some(x) => Some(x.clone()),
        None => None,
    };
    let ghost bv = base@;
    assert(bv == (SchemaView {
        description: plan@.description,
        example: plan@.example,
        ..blank_schema()
    }));
    match &plan.body {
        SchemaBody::Object(None) => {
            base.schema_type = Some(SchemaType::Object);
            base
        },
        SchemaBody::Object(Some(fs)) => {
            let mut rss = rss;
            let ghost before = rss@;
            let g = rss.remove(0);
            assert(gs[0] == refs_view(before[0]@));
            let (props, required) = object_of_fields(fs, g, comp);
            base.schema_type = Some(SchemaType::Object);
            base.properties = props;
            base.required = required;
            assert(base@.properties =~= component_views(props@));
            assert(base@.required =~= string_views(required@));
            base
        },
        SchemaBody::StringEnum(names) => {
            base.schema_type = Some(SchemaType::String);
            base.enum_values = clone_texts(names);
            assert(base@.enum_values =~= string_views(names@));
            base
        },
        SchemaBody::TaggedStringEnum { tag, names } => {
            let mut t = Schema::typed(SchemaType::String);
            t.enum_values = clone_texts(names);
            assert(t@.enum_values =~= string_views(names@));
            base.schema_type = Some(SchemaType::Object);
            base.properties = vec![(tag.clone(), t)];
            base.required = vec![tag.clone()];
            assert(base@.properties =~= seq![
                (tag@, SchemaView { schema_type: Some(SchemaType::String), enum_values: string_views(names@), ..blank_schema() }),
            ]);
            assert(base@.required =~= seq![tag@]);
            base
        },
        SchemaBody::OneOf { tagging, variants } => {
            let ghost vs = variant_views(variants@);
            let ghost target = variant_schemas(tagging@, vs, gs, comps);
            let mut one_of: Vec<Schema> = Vec::new();
            let mut rest = rss;
            let mut i: usize = 0;
            assert(gs.skip(0) =~= gs);
            while i < variants.len()
                invariant
                    vs == variant_views(variants@),
                    gs.len() == vs.len(),
                    comps == comp.components_of(),
                    target == variant_schemas(tagging@, vs, gs, comps),
                    forall|j: int| 0 <= j < vs.len() ==> #[trigger] variant_fits(tagging@, vs[j].1, gs[j], comps),
                    i <= variants@.len(),
                    ref_groups_view(rest@) == gs.skip(i as int),
                    one_of@.len() == i,
                    forall|j: int| 0 <= j < i ==> #[trigger] one_of@[j]@ == target[j],
                decreases variants@.len() - i,
            {
                let ghost before = ref_groups_view(rest@);
                let ghost old_rest = rest@;
                assert(before.len() == old_rest.len());
                let g = rest.remove(0);
                assert(before[0] == refs_view(old_rest[0]@));
                assert(before.drop_first() =~= ref_groups_view(rest@));
                assert(gs.skip(i as int)[0] == gs[i as int]);
                assert(gs.skip(i as int).drop_first() =~= gs.skip(i + 1));
                assert(variant_fits(tagging@, vs[i as int].1, gs[i as int], comps));
                assert(vs[i as int].1 == variants@[i as int].1@);
                assert(vs[i as int].0 == variants@[i as int].0@);
                let c = variant_content_of(&variants[i].1, g, comp);
                let v = tag_variant(tagging, &variants[i].0, c);
                one_of.push(v);
                i = i + 1;
            }
            assert(vs.len() == variants@.len());
            assert(target.len() == one_of@.len());
            let ghost built = one_of@;
            base.one_of = one_of;
            assert forall|j: int| 0 <= j < target.len() implies base@.one_of[j] == target[j] by {
                assert(built[j]@ == target[j]);
            }
            assert(base@.one_of =~= target);
            base
        },
    }
}

/// Describes a derived type from its plan, under `entity_name`, the schemas
/// of its field types given in groups as `plan_fits` asks (already
/// described with `comp`, so that each component they name is there): a
/// type whose plan names a component is registered under `entity_name` with
/// its schema, unless a component of that name is already described, and
/// is referred to by name; any other type is given in place and adds
/// nothing.
pub fn describe_plan(
    plan: &SchemaPlan,
    entity_name: &str,
    rss: Vec<Vec<ComponentOrInlineSchema>>,
    comp: ComponentDescriptor,
) -> (r: (ComponentDescriptor, ComponentOrInlineSchema))
    requires
        plan_fits(plan@.body, ref_groups_view(rss@), comp.components_of()),
    ensures
        ({
            let schema = plan_schema(plan@, ref_groups_view(rss@), comp.components_of());
            &&& r.0.components_of() == components_after(
                plan@,
                entity_name@,
                schema,
                comp.components_of(),
            )
            &&& r.1@ == if plan@.component is Some {
                SchemaRefView::Component(entity_name@)
            } else {
                SchemaRefView::Inline(schema)
            }
        }),
{
    let ghost comps = comp.components_of();
    let schema = plan_schema_of(plan, rss, &comp);
    let ghost sv = schema@;
    if plan.component.is_some() {
        let desc = move |d: ComponentDescriptor| -> (out: (ComponentDescriptor, Schema))
            ensures
                out.0 == d,
                out.1@ == sv,
            { (d, schema) };
        let (after, reference) = comp.describe_component(entity_name, desc);
        proof {
            if keyed_get(comps, entity_name@) is None {
                keyed_insert_twice(comps, entity_name@, blank_schema(), sv);
            }
        }
        (after, reference)
    } else {
        (comp, ComponentOrInlineSchema::Inline(schema))
    }
}

} // verus!
