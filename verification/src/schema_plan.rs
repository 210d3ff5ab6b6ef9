//! What the schema derive makes of a type: its description, component name,
//! example and name, and the shape of its schema — the fields of a struct,
//! or how the variants of an enum are told apart.

use vstd::prelude::*;
use crate::openapi::string_views;
use crate::schema::{
    description_of, extract_component, extract_doc, extract_example, field_schema, handle_field,
    schema_name, schema_type_name, setting_of, FieldSchema, FieldSchemaView, SchemaAttr,
    SchemaError, SchemaKey,
};

verus! {

/// A field of a struct or of an enum variant: its name as serialized, the
/// text of its type, its attributes and the words of its serde attributes.
#[derive(Debug, Clone, PartialEq, Eq)]
pub struct FieldDef {
    pub name: String,
    pub rust_type: String,
    pub attrs: Vec<SchemaAttr>,
    pub serde_words: Vec<String>,
}

/// The fields of a struct or of an enum variant.
#[derive(Debug, Clone, PartialEq, Eq)]
pub enum FieldsDef {
    /// Named fields.
    Named(Vec<FieldDef>),
    /// Unnamed fields: the text of the type of each.
    Unnamed(Vec<String>),
    /// No fields.
    Unit,
}

/// A variant of an enum: its name as serialized, its attributes and its
/// fields.
#[derive(Debug, Clone, PartialEq, Eq)]
pub struct VariantDef {
    pub name: String,
    pub attrs: Vec<SchemaAttr>,
    pub fields: FieldsDef,
}

/// The data of a type.
#[derive(Debug, Clone, PartialEq, Eq)]
pub enum TypeData {
    Struct(FieldsDef),
    Enum(Vec<VariantDef>),
    Union,
}

/// A type the schema derive is put on: its name, its attributes, its serde
/// enum attributes (`untagged`, `tag`, `content`), its generic parameters
/// (whether it has any, and the names of its type and const parameters) and
/// its data.
#[derive(Debug, Clone, PartialEq, Eq)]
pub struct TypeDef {
    pub ident: String,
    pub attrs: Vec<SchemaAttr>,
    pub untagged: bool,
    pub tag: Option<String>,
    pub content: Option<String>,
    pub generic: bool,
    pub generic_params: Vec<String>,
    pub data: TypeData,
}

/// A field that the schema holds: its name, the text of its type, and what
/// its schema carries besides.
#[derive(Debug, Clone, PartialEq, Eq)]
pub struct PlannedField {
    pub name: String,
    pub rust_type: String,
    pub schema: FieldSchema,
}

/// Abstract value of a planned field.
pub struct PlannedFieldView {
    pub name: Seq<char>,
    pub rust_type: Seq<char>,
    pub schema: FieldSchemaView,
}

impl View for PlannedField {
    type V = PlannedFieldView;

    open spec fn view(&self) -> PlannedFieldView {
        PlannedFieldView { name: self.name@, rust_type: self.rust_type@, schema: self.schema@ }
    }
}

/// The views of planned fields.
pub open spec fn planned_views(v: Seq<PlannedField>) -> Seq<PlannedFieldView> {
    v.map_values(|f: PlannedField| f@)
}

/// The schema of a variant: an object of its fields, the schema of its one
/// unnamed field, or none; each with the variant's description.
#[derive(Debug, Clone, PartialEq, Eq)]
pub enum VariantBody {
    Fields { fields: Vec<PlannedField>, description: String },
    Inner { rust_type: String, description: String },
    Nothing,
}

/// Abstract value of a variant's schema.
pub enum VariantBodyView {
    Fields { fields: Seq<PlannedFieldView>, description: Seq<char> },
    Inner { rust_type: Seq<char>, description: Seq<char> },
    Nothing,
}

impl View for VariantBody {
    type V = VariantBodyView;

    open spec fn view(&self) -> VariantBodyView {
        match self {
            VariantBody::Fields { fields, description } => VariantBodyView::Fields {
                fields: planned_views(fields@),
                description: description@,
            },
            VariantBody::Inner { rust_type, description } => VariantBodyView::Inner {
                rust_type: rust_type@,
                description: description@,
            },
            VariantBody::Nothing => VariantBodyView::Nothing,
        }
    }
}

/// How the variants of an enum are told apart in its schema.
#[derive(Debug, Clone, PartialEq, Eq)]
pub enum Tagging {
    /// `{"variant": ..}`
    External,
    /// A property of this name holds the variant's name.
    Internal(String),
    /// A property holds the variant's name, another its content.
    Adjacent(String, String),
    /// Only by their content.
    Untagged,
}

/// Abstract value of a tagging.
pub enum TaggingView {
    External,
    Internal(Seq<char>),
    Adjacent(Seq<char>, Seq<char>),
    Untagged,
}

impl View for Tagging {
    type V = TaggingView;

    open spec fn view(&self) -> TaggingView {
        match self {
            Tagging::External => TaggingView::External,
            Tagging::Internal(t) => TaggingView::Internal(t@),
            Tagging::Adjacent(t, c) => TaggingView::Adjacent(t@, c@),
            Tagging::Untagged => TaggingView::Untagged,
        }
    }
}

/// The shape of a type's schema.
#[derive(Debug, Clone, PartialEq, Eq)]
pub enum SchemaBody {
    /// An object; with the fields of a struct with named fields.
    Object(Option<Vec<PlannedField>>),
    /// A string that is one of the names.
    StringEnum(Vec<String>),
    /// An object whose property `tag` is one of the names.
    TaggedStringEnum { tag: String, names: Vec<String> },
    /// One of the variants, told apart by the tagging.
    OneOf { tagging: Tagging, variants: Vec<(String, VariantBody)> },
}

/// Abstract value of a schema's shape.
pub enum SchemaBodyView {
    Object(Option<Seq<PlannedFieldView>>),
    StringEnum(Seq<Seq<char>>),
    TaggedStringEnum { tag: Seq<char>, names: Seq<Seq<char>> },
    OneOf { tagging: TaggingView, variants: Seq<(Seq<char>, VariantBodyView)> },
}

/// The views of named variant schemas.
pub open spec fn variant_views(v: Seq<(String, VariantBody)>) -> Seq<(Seq<char>, VariantBodyView)> {
    v.map_values(|x: (String, VariantBody)| (x.0@, x.1@))
}

impl View for SchemaBody {
    type V = SchemaBodyView;

    open spec fn view(&self) -> SchemaBodyView {
        match self {
            SchemaBody::Object(None) => SchemaBodyView::Object(None),
            SchemaBody::Object(Some(fs)) => SchemaBodyView::Object(Some(planned_views(fs@))),
            SchemaBody::StringEnum(ns) => SchemaBodyView::StringEnum(string_views(ns@)),
            SchemaBody::TaggedStringEnum { tag, names } => SchemaBodyView::TaggedStringEnum {
                tag: tag@,
                names: string_views(names@),
            },
            SchemaBody::OneOf { tagging, variants } => SchemaBodyView::OneOf {
                tagging: tagging@,
                variants: variant_views(variants@),
            },
        }
    }
}

/// What the schema derive makes of a type.
#[derive(Debug, Clone, PartialEq, Eq)]
pub struct SchemaPlan {
    pub description: String,
    pub component: Option<String>,
    pub example: Option<String>,
    pub schema_name: String,
    pub body: SchemaBody,
}

/// Abstract value of a schema plan.
pub struct SchemaPlanView {
    pub description: Seq<char>,
    pub component: Option<Seq<char>>,
    pub example: Option<Seq<char>>,
    pub schema_name: Seq<char>,
    pub body: SchemaBodyView,
}

impl View for SchemaPlan {
    type V = SchemaPlanView;

    open spec fn view(&self) -> SchemaPlanView {
        SchemaPlanView {
            description: self.description@,
            component: match self.component {
                Some(c) => Some(c@),
                None => None,
            },
            example: match self.example {
                Some(x) => Some(x@),
                None => None,
            },
            schema_name: self.schema_name@,
            body: self.body@,
        }
    }
}

/// Why the schema derive refuses a type.
#[derive(Debug, Clone, Copy, PartialEq, Eq, Structural)]
pub enum DeriveError {
    /// A schema setting cannot be read.
    Setting(SchemaError),
    /// "Invalid serde enum tag type configuration"
    TagConfig,
    /// "Schema generation for C-Like enums with untagged representation is
    /// not supported"
    UntaggedUnitEnum,
    /// "Schema generation for tuple enum variants is currently not
    /// supported"
    TupleVariant,
    /// "Schema generation for unit variant in untagged enum is not supported"
    UntaggedUnitVariant,
    /// "#[derive(Schema)] for union"
    Union,
}

/// The fields that a schema holds, in order: those not skipped both ways;
/// the first field whose settings cannot be read is the error.
pub open spec fn planned_fields(fs: Seq<FieldDef>) -> Result<Seq<PlannedFieldView>, SchemaError>
    decreases fs.len(),
{
    if fs.len() == 0 {
        Ok(Seq::empty())
    } else {
        match planned_fields(fs.drop_last()) {
            Err(e) => Err(e),
            Ok(done) => match field_schema(fs.last().attrs@, string_views(fs.last().serde_words@)) {
                Err(e) => Err(e),
                Ok(None) => Ok(done),
                Ok(Some(s)) => Ok(
                    done.push(
                        PlannedFieldView {
                            name: fs.last().name@,
                            rust_type: fs.last().rust_type@,
                            schema: s,
                        },
                    ),
                ),
            },
        }
    }
}

/// Whether the fields are none at all.
pub open spec fn no_fields(f: FieldsDef) -> bool {
    match f {
        FieldsDef::Named(v) => v@.len() == 0,
        FieldsDef::Unnamed(v) => v@.len() == 0,
        FieldsDef::Unit => true,
    }
}

/// The schema of a variant: its description is read first, then its
/// fields; a variant with more than one unnamed field is refused.
pub open spec fn variant_body(v: VariantDef) -> Result<VariantBodyView, DeriveError> {
    match description_of(v.attrs@) {
        Err(e) => Err(DeriveError::Setting(e)),
        Ok(d) => match v.fields {
            FieldsDef::Named(fs) => match planned_fields(fs@) {
                Err(e) => Err(DeriveError::Setting(e)),
                Ok(p) => Ok(VariantBodyView::Fields { fields: p, description: d }),
            },
            FieldsDef::Unnamed(ts) => if ts@.len() == 0 {
                Ok(VariantBodyView::Nothing)
            } else if ts@.len() == 1 {
                Ok(VariantBodyView::Inner { rust_type: ts@[0]@, description: d })
            } else {
                Err(DeriveError::TupleVariant)
            },
            FieldsDef::Unit => Ok(VariantBodyView::Nothing),
        },
    }
}

/// The schemas of the variants, in order; the first refused variant is the
/// error.
pub open spec fn variant_bodies(vs: Seq<VariantDef>) -> Result<
    Seq<(Seq<char>, VariantBodyView)>,
    DeriveError,
>
    decreases vs.len(),
{
    if vs.len() == 0 {
        Ok(Seq::empty())
    } else {
        match variant_bodies(vs.drop_last()) {
            Err(e) => Err(e),
            Ok(done) => match variant_body(vs.last()) {
                Err(e) => Err(e),
                Ok(b) => Ok(done.push((vs.last().name@, b))),
            },
        }
    }
}

/// The tagging that the serde attributes of an enum choose.
pub open spec fn tagging_of(untagged: bool, tag: Option<Seq<char>>, content: Option<Seq<char>>) -> Option<
    TaggingView,
> {
    match (untagged, tag, content) {
        (false, None, None) => Some(TaggingView::External),
        (false, Some(t), None) => Some(TaggingView::Internal(t)),
        (false, Some(t), Some(c)) => Some(TaggingView::Adjacent(t, c)),
        (true, None, None) => Some(TaggingView::Untagged),
        _ => None,
    }
}

/// The views of optional texts.
pub open spec fn opt_text(o: Option<String>) -> Option<Seq<char>> {
    match o {
        Some(s) => Some(s@),
        None => None,
    }
}

/// The shape of an enum's schema: an enum whose variants carry nothing is a
/// string (external tagging) or an object whose tag property is the name
/// (internal or adjacent tagging), and cannot be untagged; any other enum is
/// one of its variants, and an untagged one cannot have a variant without a
/// schema.
pub open spec fn enum_body(t: TypeDef, vs: Seq<VariantDef>) -> Result<SchemaBodyView, DeriveError> {
    match tagging_of(t.untagged, opt_text(t.tag), opt_text(t.content)) {
        None => Err(DeriveError::TagConfig),
        Some(tagging) => if forall|i: int| 0 <= i < vs.len() ==> no_fields(#[trigger] vs[i].fields) {
            let names = vs.map_values(|v: VariantDef| v.name@);
            match tagging {
                TaggingView::External => Ok(SchemaBodyView::StringEnum(names)),
                TaggingView::Internal(tag) => Ok(SchemaBodyView::TaggedStringEnum { tag, names }),
                TaggingView::Adjacent(tag, _) => Ok(
                    SchemaBodyView::TaggedStringEnum { tag, names },
                ),
                TaggingView::Untagged => Err(DeriveError::UntaggedUnitEnum),
            }
        } else {
            match variant_bodies(vs) {
                Err(e) => Err(e),
                Ok(bodies) => if tagging is Untagged && exists|i: int|
                    0 <= i < bodies.len() && #[trigger] bodies[i].1 is Nothing {
                    Err(DeriveError::UntaggedUnitVariant)
                } else {
                    Ok(SchemaBodyView::OneOf { tagging, variants: bodies })
                },
            }
        },
    }
}

/// What the schema derive makes of a type: its description, component name
/// and example are read from its attributes in that order, then the shape
/// of its data; its name is the component name, else its own, with its
/// generic parameters.
pub open spec fn schema_plan(t: TypeDef) -> Result<SchemaPlanView, DeriveError> {
    match description_of(t.attrs@) {
        Err(e) => Err(DeriveError::Setting(e)),
        Ok(d) => match setting_of(SchemaKey::Component, t.attrs@) {
            Err(e) => Err(DeriveError::Setting(e)),
            Ok(c) => match setting_of(SchemaKey::Example, t.attrs@) {
                Err(e) => Err(DeriveError::Setting(e)),
                Ok(x) => {
                    let body = match t.data {
                        TypeData::Struct(FieldsDef::Named(fs)) => match planned_fields(fs@) {
                            Err(e) => Err(DeriveError::Setting(e)),
                            Ok(p) => Ok(SchemaBodyView::Object(Some(p))),
                        },
                        TypeData::Struct(_) => Ok(SchemaBodyView::Object(None)),
                        TypeData::Enum(vs) => enum_body(t, vs@),
                        TypeData::Union => Err(DeriveError::Union),
                    };
                    match body {
                        Err(e) => Err(e),
                        Ok(b) => Ok(
                            SchemaPlanView {
                                description: d,
                                component: c,
                                example: x,
                                schema_name: schema_type_name(
                                    c,
                                    t.ident@,
                                    t.generic,
                                    string_views(t.generic_params@),
                                ),
                                body: b,
                            },
                        ),
                    }
                },
            },
        },
    }
}

/// Once a field is refused, so is any longer list that starts with the
/// same fields.
proof fn lemma_fields_error_stays(fs: Seq<FieldDef>, m: int)
    requires
        0 <= m <= fs.len(),
        planned_fields(fs.take(m)) is Err,
    ensures
        planned_fields(fs) == planned_fields(fs.take(m)),
    decreases fs.len(),
{
    if m == fs.len() {
        assert(fs.take(m) =~= fs);
    } else {
        assert(fs.drop_last().take(m) =~= fs.take(m));
        lemma_fields_error_stays(fs.drop_last(), m);
    }
}

/// Once a variant is refused, so is any longer list that starts with the
/// same variants.
proof fn lemma_variants_error_stays(vs: Seq<VariantDef>, m: int)
    requires
        0 <= m <= vs.len(),
        variant_bodies(vs.take(m)) is Err,
    ensures
        variant_bodies(vs) == variant_bodies(vs.take(m)),
    decreases vs.len(),
{
    if m == vs.len() {
        assert(vs.take(m) =~= vs);
    } else {
        assert(vs.drop_last().take(m) =~= vs.take(m));
        lemma_variants_error_stays(vs.drop_last(), m);
    }
}

/// The fields that a schema holds.
pub fn handle_fields(fs: &Vec<FieldDef>) -> (r: Result<Vec<PlannedField>, SchemaError>)
    ensures
        r matches Ok(v) ==> planned_fields(fs@) == Ok::<Seq<PlannedFieldView>, SchemaError>(
            planned_views(v@),
        ),
        r matches Err(e) ==> planned_fields(fs@) == Err::<Seq<PlannedFieldView>, SchemaError>(e),
{
    let mut out: Vec<PlannedField> = Vec::new();
    let mut k: usize = 0;
    assert(fs@.take(0) =~= Seq::<FieldDef>::empty());
    assert(planned_views(out@) =~= Seq::<PlannedFieldView>::empty());
    while k < fs.len()
        invariant
            k <= fs@.len(),
            planned_fields(fs@.take(k as int)) == Ok::<Seq<PlannedFieldView>, SchemaError>(
                planned_views(out@),
            ),
        decreases fs@.len() - k,
    {
        assert(fs@.take(k + 1).drop_last() =~= fs@.take(k as int));
        assert(fs@.take(k + 1).last() == fs@[k as int]);
        let f = &fs[k];
        match handle_field(&f.attrs, &f.serde_words) {
            Err(e) => {
                proof {
                    lemma_fields_error_stays(fs@, k + 1);
                }
                return Err(e);
            },
            Ok(None) => {},
            Ok(Some(schema)) => {
                let ghost before = out@;
                let p = PlannedField { name: f.name.clone(), rust_type: f.rust_type.clone(), schema };
                out.push(p);
                assert(planned_views(out@) =~= planned_views(before).push(p@));
            },
        }
        k = k + 1;
    }
    assert(fs@.take(fs@.len() as int) =~= fs@);
    Ok(out)
}

/// The schema of a variant.
fn handle_variant(v: &VariantDef) -> (r: Result<VariantBody, DeriveError>)
    ensures
        r matches Ok(b) ==> variant_body(*v) == Ok::<VariantBodyView, DeriveError>(b@),
        r matches Err(e) ==> variant_body(*v) == Err::<VariantBodyView, DeriveError>(e),
{
    let description = match extract_doc(&v.attrs) {
        Ok(d) => d,
        Err(e) => {
            return Err(DeriveError::Setting(e));
        },
    };
    match &v.fields {
        FieldsDef::Named(fs) => match handle_fields(fs) {
            Err(e) => Err(DeriveError::Setting(e)),
            Ok(fields) => Ok(VariantBody::Fields { fields, description }),
        },
        FieldsDef::Unnamed(ts) => {
            if ts.len() == 0 {
                Ok(VariantBody::Nothing)
            } else if ts.len() == 1 {
                Ok(VariantBody::Inner { rust_type: ts[0].clone(), description })
            } else {
                Err(DeriveError::TupleVariant)
            }
        },
        FieldsDef::Unit => Ok(VariantBody::Nothing),
    }
}

/// The schemas of the variants, in order.
fn handle_variants(vs: &Vec<VariantDef>) -> (r: Result<Vec<(String, VariantBody)>, DeriveError>)
    ensures
        r matches Ok(v) ==> variant_bodies(vs@) == Ok::<
            Seq<(Seq<char>, VariantBodyView)>,
            DeriveError,
        >(variant_views(v@)),
        r matches Err(e) ==> variant_bodies(vs@) == Err::<
            Seq<(Seq<char>, VariantBodyView)>,
            DeriveError,
        >(e),
{
    let mut out: Vec<(String, VariantBody)> = Vec::new();
    let mut k: usize = 0;
    assert(vs@.take(0) =~= Seq::<VariantDef>::empty());
    assert(variant_views(out@) =~= Seq::<(Seq<char>, VariantBodyView)>::empty());
    while k < vs.len()
        invariant
            k <= vs@.len(),
            variant_bodies(vs@.take(k as int)) == Ok::<
                Seq<(Seq<char>, VariantBodyView)>,
                DeriveError,
            >(variant_views(out@)),
        decreases vs@.len() - k,
    {
        assert(vs@.take(k + 1).drop_last() =~= vs@.take(k as int));
        assert(vs@.take(k + 1).last() == vs@[k as int]);
        match handle_variant(&vs[k]) {
            Err(e) => {
                proof {
                    lemma_variants_error_stays(vs@, k + 1);
                }
                return Err(e);
            },
            Ok(b) => {
                let ghost before = out@;
                let name = vs[k].name.clone();
                let ghost entry = (name@, b@);
                out.push((name, b));
                assert(variant_views(out@) =~= variant_views(before).push(entry));
            },
        }
        k = k + 1;
    }
    assert(vs@.take(vs@.len() as int) =~= vs@);
    Ok(out)
}

/// The tagging that the serde attributes of an enum choose.
fn tagging(t: &TypeDef) -> (r: Option<Tagging>)
    ensures
        (match r {
            Some(x) => Some(x@),
            None => None,
        }) == tagging_of(t.untagged, opt_text(t.tag), opt_text(t.content)),
{
    match (t.untagged, &t.tag, &t.content) {
        (false, None, None) => Some(Tagging::External),
        (false, Some(tag), None) => Some(Tagging::Internal(tag.clone())),
        (false, Some(tag), Some(content)) => Some(Tagging::Adjacent(tag.clone(), content.clone())),
        (true, None, None) => Some(Tagging::Untagged),
        _ => None,
    }
}

/// Whether no variant carries anything.
fn all_bare(vs: &Vec<VariantDef>) -> (r: bool)
    ensures
        r == forall|i: int| 0 <= i < vs@.len() ==> no_fields(#[trigger] vs@[i].fields),
{
    let mut i: usize = 0;
    while i < vs.len()
        invariant
            i <= vs@.len(),
            forall|j: int| 0 <= j < i ==> no_fields(#[trigger] vs@[j].fields),
        decreases vs@.len() - i,
    {
        let bare = match &vs[i].fields {
            FieldsDef::Named(v) => v.len() == 0,
            FieldsDef::Unnamed(v) => v.len() == 0,
            FieldsDef::Unit => true,
        };
        if !bare {
            assert(!no_fields(vs@[i as int].fields));
            return false;
        }
        i = i + 1;
    }
    true
}

/// Whether some variant has no schema.
fn some_nothing(bodies: &Vec<(String, VariantBody)>) -> (r: bool)
    ensures
        r == exists|i: int|
            0 <= i < variant_views(bodies@).len() && #[trigger] variant_views(bodies@)[i].1 is Nothing,
{
    let ghost vv = variant_views(bodies@);
    let mut i: usize = 0;
    while i < bodies.len()
        invariant
            i <= bodies@.len(),
            vv == variant_views(bodies@),
            forall|j: int| 0 <= j < i ==> !(#[trigger] vv[j].1 is Nothing),
        decreases bodies@.len() - i,
    {
        match &bodies[i].1 {
            VariantBody::Nothing => {
                assert(vv[i as int].1 is Nothing);
                return true;
            },
            _ => {},
        }
        i = i + 1;
    }
    false
}

/// The names of the variants.
fn variant_names(vs: &Vec<VariantDef>) -> (r: Vec<String>)
    ensures
        string_views(r@) == vs@.map_values(|v: VariantDef| v.name@),
{
    let mut out: Vec<String> = Vec::new();
    let mut i: usize = 0;
    while i < vs.len()
        invariant
            i <= vs@.len(),
            out@.len() == i,
            forall|j: int| 0 <= j < i ==> #[trigger] out@[j]@ == vs@[j].name@,
        decreases vs@.len() - i,
    {
        out.push(vs[i].name.clone());
        i = i + 1;
    }
    assert(string_views(out@) =~= vs@.map_values(|v: VariantDef| v.name@));
    out
}

/// The shape of an enum's schema.
fn plan_enum(t: &TypeDef, vs: &Vec<VariantDef>) -> (r: Result<SchemaBody, DeriveError>)
    ensures
        r matches Ok(b) ==> enum_body(*t, vs@) == Ok::<SchemaBodyView, DeriveError>(b@),
        r matches Err(e) ==> enum_body(*t, vs@) == Err::<SchemaBodyView, DeriveError>(e),
{
    let tagged = match tagging(t) {
        Some(x) => x,
        None => {
            return Err(DeriveError::TagConfig);
        },
    };
    if all_bare(vs) {
        let names = variant_names(vs);
        match tagged {
            Tagging::External => Ok(SchemaBody::StringEnum(names)),
            Tagging::Internal(tag) => Ok(SchemaBody::TaggedStringEnum { tag, names }),
            Tagging::Adjacent(tag, _) => Ok(SchemaBody::TaggedStringEnum { tag, names }),
            Tagging::Untagged => Err(DeriveError::UntaggedUnitEnum),
        }
    } else {
        let bodies = match handle_variants(vs) {
            Ok(b) => b,
            Err(e) => {
                return Err(e);
            },
        };
        let untagged = match tagged {
            Tagging::Untagged => true,
            _ => false,
        };
        if untagged && some_nothing(&bodies) {
            Err(DeriveError::UntaggedUnitVariant)
        } else {
            Ok(SchemaBody::OneOf { tagging: tagged, variants: bodies })
        }
    }
}

/// What the schema derive makes of a type.
pub fn derive_schema(t: &TypeDef) -> (r: Result<SchemaPlan, DeriveError>)
    ensures
        r matches Ok(p) ==> schema_plan(*t) == Ok::<SchemaPlanView, DeriveError>(p@),
        r matches Err(e) ==> schema_plan(*t) == Err::<SchemaPlanView, DeriveError>(e),
{
    let description = match extract_doc(&t.attrs) {
        Ok(d) => d,
        Err(e) => {
            return Err(DeriveError::Setting(e));
        },
    };
    let component = match extract_component(&t.attrs) {
        Ok(c) => c,
        Err(e) => {
            return Err(DeriveError::Setting(e));
        },
    };
    let example = match extract_example(&t.attrs) {
        Ok(x) => x,
        Err(e) => {
            return Err(DeriveError::Setting(e));
        },
    };
    let body = match &t.data {
        TypeData::Struct(FieldsDef::Named(fs)) => match handle_fields(fs) {
            Err(e) => {
                return Err(DeriveError::Setting(e));
            },
            Ok(p) => SchemaBody::Object(Some(p)),
        },
        TypeData::Struct(_) => SchemaBody::Object(None),
        TypeData::Enum(vs) => match plan_enum(t, vs) {
            Err(e) => {
                return Err(e);
            },
            Ok(b) => b,
        },
        TypeData::Union => {
            return Err(DeriveError::Union);
        },
    };
    let c2 = match &component {
        Some(c) => Some(c.clone()),
        None => None,
    };
    let name = schema_name(c2, t.ident.clone(), t.generic, &t.generic_params);
    Ok(SchemaPlan { description, component, example, schema_name: name, body })
}

} // verus!
