//! Decisions of the schema derive: the serde representation of an enum,
//! the skip mode of a field, and the description, component name and
//! example that `#[schema(..)]` attributes and doc comments give.

use vstd::prelude::*;
use crate::openapi::string_views;

verus! {

/// The value of a setting, when it is a string literal.
#[derive(Debug, Clone, PartialEq, Eq)]
pub enum SchemaLit {
    Str(String),
    Other,
}

/// An item inside a list setting: `name = value`, or anything else.
#[derive(Debug, Clone, PartialEq, Eq)]
pub enum SchemaNested {
    NameValue(String, SchemaLit),
    Other,
}

/// One setting of a `#[schema(..)]` attribute.
#[derive(Debug, Clone, PartialEq, Eq)]
pub enum SchemaMeta {
    /// `name = value`
    NameValue(String, SchemaLit),
    /// `name(..)`, with its items.
    List(Vec<SchemaNested>),
    /// A bare path.
    Path,
}

/// An attribute of a type or a field, as far as the schema derive reads it.
#[derive(Debug, Clone, PartialEq, Eq)]
pub enum SchemaAttr {
    /// `#[schema(..)]`, with its settings when they can be read.
    Schema(Option<Vec<SchemaMeta>>),
    /// A doc comment, with its text when it is a string.
    Doc(Option<String>),
    /// Any other attribute.
    Other,
}

/// Why the schema attributes cannot be read.
#[derive(Debug, Clone, Copy, PartialEq, Eq, Structural)]
pub enum SchemaError {
    /// The settings of a `#[schema(..)]` attribute cannot be read.
    Unparsable,
    /// A setting is not of the form `name = value`.
    InvalidUsage,
    /// "value of example should be a string literal" (for `description`)
    DescriptionNotString,
    /// "value of component should be a string literal"
    ComponentNotString,
    /// "duplicate #[schema(component = \"foo\")] detected"
    DuplicateComponent,
    /// "#[schema]: unknown option"
    UnknownOption,
    /// "value of example should be a string literal"
    ExampleNotString,
    /// "duplicate #[schema(example = \"foo\")] detected"
    DuplicateExample,
}

/// The setting that is being read.
#[derive(Debug, Clone, Copy, PartialEq, Eq, Structural)]
pub enum SchemaKey {
    Description,
    Component,
    Example,
}

/// What has been read: the value of the setting, and the doc comments
/// joined by spaces.
pub struct SchemaState {
    pub value: Option<Seq<char>>,
    pub comments: Seq<char>,
}

/// The steps applied in order; the first error stops.
pub open spec fn fold_steps<A>(
    s: SchemaState,
    xs: Seq<A>,
    f: spec_fn(SchemaState, A) -> Result<SchemaState, SchemaError>,
) -> Result<SchemaState, SchemaError>
    decreases xs.len(),
{
    if xs.len() == 0 {
        Ok(s)
    } else {
        match fold_steps(s, xs.drop_last(), f) {
            Err(e) => Err(e),
            Ok(t) => f(t, xs.last()),
        }
    }
}

/// What a `name = value` setting does: `description` sets the description;
/// `component` sets the component name once, and no other name is allowed
/// on a type; `example` sets the example once. Each value must be a string.
pub open spec fn nv_step(key: SchemaKey, st: SchemaState, name: Seq<char>, lit: SchemaLit) -> Result<
    SchemaState,
    SchemaError,
> {
    match key {
        SchemaKey::Description => if name == "description"@ {
            match lit {
                SchemaLit::Str(s) => Ok(SchemaState { value: Some(s@), ..st }),
                SchemaLit::Other => Err(SchemaError::DescriptionNotString),
            }
        } else {
            Ok(st)
        },
        SchemaKey::Component => if name == "component"@ {
            match lit {
                SchemaLit::Str(s) => if st.value is Some {
                    Err(SchemaError::DuplicateComponent)
                } else {
                    Ok(SchemaState { value: Some(s@), ..st })
                },
                SchemaLit::Other => Err(SchemaError::ComponentNotString),
            }
        } else {
            Err(SchemaError::UnknownOption)
        },
        SchemaKey::Example => if name == "example"@ {
            if st.value is Some {
                Err(SchemaError::DuplicateExample)
            } else {
                match lit {
                    SchemaLit::Str(s) => Ok(SchemaState { value: Some(s@), ..st }),
                    SchemaLit::Other => Err(SchemaError::ExampleNotString),
                }
            }
        } else {
            Ok(st)
        },
    }
}

/// What an item of a list setting does.
pub open spec fn nested_step(key: SchemaKey, st: SchemaState, n: SchemaNested) -> Result<
    SchemaState,
    SchemaError,
> {
    match n {
        SchemaNested::NameValue(k, v) => nv_step(key, st, k@, v),
        SchemaNested::Other => Err(SchemaError::InvalidUsage),
    }
}

/// The step of an item of a list setting.
pub open spec fn nested_fn(key: SchemaKey) -> spec_fn(SchemaState, SchemaNested) -> Result<
    SchemaState,
    SchemaError,
> {
    |s: SchemaState, n: SchemaNested| nested_step(key, s, n)
}

/// What a setting does.
pub open spec fn meta_step(key: SchemaKey, st: SchemaState, m: SchemaMeta) -> Result<
    SchemaState,
    SchemaError,
> {
    match m {
        SchemaMeta::NameValue(k, v) => nv_step(key, st, k@, v),
        SchemaMeta::List(ns) => fold_steps(st, ns@, nested_fn(key)),
        SchemaMeta::Path => Err(SchemaError::InvalidUsage),
    }
}

/// The step of a setting.
pub open spec fn meta_fn(key: SchemaKey) -> spec_fn(SchemaState, SchemaMeta) -> Result<
    SchemaState,
    SchemaError,
> {
    |s: SchemaState, m: SchemaMeta| meta_step(key, s, m)
}

/// What an attribute does: a doc comment adds its text to the comments,
/// after a space when there are some, when the description is read.
pub open spec fn attr_step(key: SchemaKey, st: SchemaState, a: SchemaAttr) -> Result<
    SchemaState,
    SchemaError,
> {
    match a {
        SchemaAttr::Schema(None) => Err(SchemaError::Unparsable),
        SchemaAttr::Schema(Some(ms)) => fold_steps(st, ms@, meta_fn(key)),
        SchemaAttr::Doc(Some(line)) => if key == SchemaKey::Description {
            Ok(
                SchemaState {
                    comments: if st.comments.len() == 0 {
                        line@
                    } else {
                        st.comments + seq![' '] + line@
                    },
                    ..st
                },
            )
        } else {
            Ok(st)
        },
        _ => Ok(st),
    }
}

/// The step of an attribute.
pub open spec fn attr_fn(key: SchemaKey) -> spec_fn(SchemaState, SchemaAttr) -> Result<
    SchemaState,
    SchemaError,
> {
    |s: SchemaState, a: SchemaAttr| attr_step(key, s, a)
}

/// Nothing read yet.
pub open spec fn schema_start() -> SchemaState {
    SchemaState { value: None, comments: Seq::empty() }
}

/// Reads one setting from the attributes, in order.
pub open spec fn read_schema(key: SchemaKey, attrs: Seq<SchemaAttr>) -> Result<
    SchemaState,
    SchemaError,
> {
    fold_steps(schema_start(), attrs, attr_fn(key))
}

/// The description of a type or field: the one set by
/// `#[schema(description = "..")]` (the last one), else its doc comments
/// joined by spaces.
pub open spec fn description_of(attrs: Seq<SchemaAttr>) -> Result<Seq<char>, SchemaError> {
    match read_schema(SchemaKey::Description, attrs) {
        Err(e) => Err(e),
        Ok(st) => Ok(
            match st.value {
                Some(d) => d,
                None => st.comments,
            },
        ),
    }
}

/// The value of a setting read from the attributes.
pub open spec fn setting_of(key: SchemaKey, attrs: Seq<SchemaAttr>) -> Result<
    Option<Seq<char>>,
    SchemaError,
> {
    match read_schema(key, attrs) {
        Err(e) => Err(e),
        Ok(st) => Ok(st.value),
    }
}

/// How serde represents an enum.
#[derive(Debug, Clone, PartialEq, Eq)]
pub enum EnumTagType {
    /// The default: `{"variant": {..}}`.
    External,
    /// `#[serde(tag = "type")]`.
    Internal { tag: String },
    /// `#[serde(tag = "t", content = "c")]`.
    Adjacent { tag: String, content: String },
    /// `#[serde(untagged)]`.
    Untagged,
}

/// A combination of serde enum attributes that means nothing: `content`
/// without `tag`, or `untagged` with either.
#[derive(Debug, Clone, PartialEq, Eq)]
pub struct InvalidTagConfig;

/// The representation chosen by the `untagged`, `tag` and `content`
/// attributes of an enum.
pub fn enum_tag_type(untagged: bool, tag: Option<String>, content: Option<String>) -> (r: Result<
    EnumTagType,
    InvalidTagConfig,
>)
    ensures
        !untagged && tag is None && content is None <==> r == Ok::<
            EnumTagType,
            InvalidTagConfig,
        >(EnumTagType::External),
        !untagged && tag is Some && content is None <==> r matches Ok(EnumTagType::Internal { tag: t }),
        r matches Ok(EnumTagType::Internal { tag: t }) ==> tag == Some(t),
        !untagged && tag is Some && content is Some <==> r matches Ok(EnumTagType::Adjacent { .. }),
        r matches Ok(EnumTagType::Adjacent { tag: t, content: c }) ==> tag == Some(t) && content
            == Some(c),
        untagged && tag is None && content is None <==> r == Ok::<
            EnumTagType,
            InvalidTagConfig,
        >(EnumTagType::Untagged),
{
    match (untagged, tag, content) {
        (false, None, None) => Ok(EnumTagType::External),
        (false, Some(tag), None) => Ok(EnumTagType::Internal { tag }),
        (false, Some(tag), Some(content)) => Ok(EnumTagType::Adjacent { tag, content }),
        (true, None, None) => Ok(EnumTagType::Untagged),
        _ => Err(InvalidTagConfig),
    }
}

/// The skip mode of a field from the words of its serde attributes, in
/// order: `skip` skips both ways at once; otherwise `skip_serializing` and
/// `skip_deserializing` each skip one way.
pub open spec fn skip_mode_of(words: Seq<Seq<char>>) -> (bool, bool)
    decreases words.len(),
{
    if words.len() == 0 {
        (false, false)
    } else if words[0] == "skip"@ {
        (true, true)
    } else {
        let (ser, de) = skip_mode_of(words.drop_first());
        (ser || words[0] == "skip_serializing"@, de || words[0] == "skip_deserializing"@)
    }
}

/// Whether a field is skipped when serializing and when deserializing.
pub fn skip_mode(words: &Vec<String>) -> (r: (bool, bool))
    ensures
        r == skip_mode_of(string_views(words@)),
{
    let ghost ws = string_views(words@);
    let skip = "skip".to_owned();
    let skip_ser = "skip_serializing".to_owned();
    let skip_de = "skip_deserializing".to_owned();
    let mut ser = false;
    let mut de = false;
    let mut i: usize = 0;
    assert(ws.skip(0) =~= ws);
    while i < words.len()
        invariant
            i <= words@.len(),
            ws == string_views(words@),
            skip@ == "skip"@,
            skip_ser@ == "skip_serializing"@,
            skip_de@ == "skip_deserializing"@,
            forall|j: int| 0 <= j < i ==> ws[j] != "skip"@,
            skip_mode_of(ws) == ({
                let (s2, d2) = skip_mode_of(ws.skip(i as int));
                if skip_mode_of(ws.skip(i as int)) == (true, true) {
                    (true, true)
                } else {
                    (s2 || ser, d2 || de)
                }
            }),
        decreases words@.len() - i,
    {
        let ghost rest = ws.skip(i as int);
        assert(rest[0] == words@[i as int]@);
        assert(rest.drop_first() =~= ws.skip(i + 1));
        if words[i] == skip {
            return (true, true);
        }
        if words[i] == skip_ser {
            ser = true;
        }
        if words[i] == skip_de {
            de = true;
        }
        i = i + 1;
    }
    assert(ws.skip(words@.len() as int) =~= Seq::<Seq<char>>::empty());
    (ser, de)
}

/// Once a step is refused, so is any longer list that starts with the same
/// items.
proof fn lemma_fold_error_stays<A>(
    s: SchemaState,
    xs: Seq<A>,
    f: spec_fn(SchemaState, A) -> Result<SchemaState, SchemaError>,
    m: int,
)
    requires
        0 <= m <= xs.len(),
        fold_steps(s, xs.take(m), f) is Err,
    ensures
        fold_steps(s, xs, f) == fold_steps(s, xs.take(m), f),
    decreases xs.len(),
{
    if m == xs.len() {
        assert(xs.take(m) =~= xs);
    } else {
        assert(xs.drop_last().take(m) =~= xs.take(m));
        lemma_fold_error_stays(s, xs.drop_last(), f, m);
    }
}

/// What has been read so far.
struct SchemaReading {
    value: Option<String>,
    comments: String,
}

impl View for SchemaReading {
    type V = SchemaState;

    closed spec fn view(&self) -> SchemaState {
        SchemaState {
            value: match self.value {
                Some(v) => Some(v@),
                None => None,
            },
            comments: self.comments@,
        }
    }
}

/// Applies a `name = value` setting.
fn read_nv(key: SchemaKey, st: &mut SchemaReading, name: &String, lit: &SchemaLit) -> (r: Result<
    (),
    SchemaError,
>)
    ensures
        r is Ok ==> nv_step(key, old(st)@, name@, *lit) == Ok::<SchemaState, SchemaError>(
            final(st)@,
        ),
        r matches Err(e) ==> nv_step(key, old(st)@, name@, *lit) == Err::<
            SchemaState,
            SchemaError,
        >(e),
{
    match key {
        SchemaKey::Description => {
            let d = "description".to_owned();
            if *name == d {
                match lit {
                    SchemaLit::Str(v) => {
                        st.value = Some(v.clone());
                        Ok(())
                    },
                    SchemaLit::Other => Err(SchemaError::DescriptionNotString),
                }
            } else {
                Ok(())
            }
        },
        SchemaKey::Component => {
            let c = "component".to_owned();
            if *name == c {
                match lit {
                    SchemaLit::Str(v) => {
                        if st.value.is_some() {
                            Err(SchemaError::DuplicateComponent)
                        } else {
                            st.value = Some(v.clone());
                            Ok(())
                        }
                    },
                    SchemaLit::Other => Err(SchemaError::ComponentNotString),
                }
            } else {
                Err(SchemaError::UnknownOption)
            }
        },
        SchemaKey::Example => {
            let x = "example".to_owned();
            if *name == x {
                if st.value.is_some() {
                    Err(SchemaError::DuplicateExample)
                } else {
                    match lit {
                        SchemaLit::Str(v) => {
                            st.value = Some(v.clone());
                            Ok(())
                        },
                        SchemaLit::Other => Err(SchemaError::ExampleNotString),
                    }
                }
            } else {
                Ok(())
            }
        },
    }
}

/// Applies the items of a list setting in order.
fn read_nested(key: SchemaKey, st: &mut SchemaReading, ns: &Vec<SchemaNested>) -> (r: Result<
    (),
    SchemaError,
>)
    ensures
        r is Ok ==> fold_steps(old(st)@, ns@, nested_fn(key)) == Ok::<SchemaState, SchemaError>(
            final(st)@,
        ),
        r matches Err(e) ==> fold_steps(old(st)@, ns@, nested_fn(key)) == Err::<
            SchemaState,
            SchemaError,
        >(e),
{
    let ghost s0 = st@;
    let mut k: usize = 0;
    assert(ns@.take(0) =~= Seq::<SchemaNested>::empty());
    while k < ns.len()
        invariant
            k <= ns@.len(),
            s0 == old(st)@,
            fold_steps(s0, ns@.take(k as int), nested_fn(key)) == Ok::<SchemaState, SchemaError>(
                st@,
            ),
        decreases ns@.len() - k,
    {
        assert(ns@.take(k + 1).drop_last() =~= ns@.take(k as int));
        assert(ns@.take(k + 1).last() == ns@[k as int]);
        let res = match &ns[k] {
            SchemaNested::NameValue(n, v) => read_nv(key, st, n, v),
            SchemaNested::Other => Err(SchemaError::InvalidUsage),
        };
        match res {
            Err(e) => {
                proof {
                    lemma_fold_error_stays(s0, ns@, nested_fn(key), k + 1);
                }
                return Err(e);
            },
            Ok(()) => {},
        }
        k = k + 1;
    }
    assert(ns@.take(ns@.len() as int) =~= ns@);
    Ok(())
}

/// Applies the settings of a `#[schema(..)]` attribute in order.
fn read_metas(key: SchemaKey, st: &mut SchemaReading, ms: &Vec<SchemaMeta>) -> (r: Result<
    (),
    SchemaError,
>)
    ensures
        r is Ok ==> fold_steps(old(st)@, ms@, meta_fn(key)) == Ok::<SchemaState, SchemaError>(
            final(st)@,
        ),
        r matches Err(e) ==> fold_steps(old(st)@, ms@, meta_fn(key)) == Err::<
            SchemaState,
            SchemaError,
        >(e),
{
    let ghost s0 = st@;
    let mut k: usize = 0;
    assert(ms@.take(0) =~= Seq::<SchemaMeta>::empty());
    while k < ms.len()
        invariant
            k <= ms@.len(),
            s0 == old(st)@,
            fold_steps(s0, ms@.take(k as int), meta_fn(key)) == Ok::<SchemaState, SchemaError>(
                st@,
            ),
        decreases ms@.len() - k,
    {
        assert(ms@.take(k + 1).drop_last() =~= ms@.take(k as int));
        assert(ms@.take(k + 1).last() == ms@[k as int]);
        let res = match &ms[k] {
            SchemaMeta::NameValue(n, v) => read_nv(key, st, n, v),
            SchemaMeta::List(ns) => read_nested(key, st, ns),
            SchemaMeta::Path => Err(SchemaError::InvalidUsage),
        };
        match res {
            Err(e) => {
                proof {
                    lemma_fold_error_stays(s0, ms@, meta_fn(key), k + 1);
                }
                return Err(e);
            },
            Ok(()) => {},
        }
        k = k + 1;
    }
    assert(ms@.take(ms@.len() as int) =~= ms@);
    Ok(())
}

/// Reads one setting from the attributes, in order.
fn read_attrs(key: SchemaKey, attrs: &Vec<SchemaAttr>) -> (r: Result<SchemaReading, SchemaError>)
    ensures
        r matches Ok(st) ==> read_schema(key, attrs@) == Ok::<SchemaState, SchemaError>(st@),
        r matches Err(e) ==> read_schema(key, attrs@) == Err::<SchemaState, SchemaError>(e),
{
    let mut st = SchemaReading { value: None, comments: String::new() };
    assert(st@ =~= schema_start());
    let mut k: usize = 0;
    assert(attrs@.take(0) =~= Seq::<SchemaAttr>::empty());
    while k < attrs.len()
        invariant
            k <= attrs@.len(),
            fold_steps(schema_start(), attrs@.take(k as int), attr_fn(key)) == Ok::<
                SchemaState,
                SchemaError,
            >(st@),
        decreases attrs@.len() - k,
    {
        assert(attrs@.take(k + 1).drop_last() =~= attrs@.take(k as int));
        assert(attrs@.take(k + 1).last() == attrs@[k as int]);
        let ghost before = st@;
        let res = match &attrs[k] {
            SchemaAttr::Schema(None) => Err(SchemaError::Unparsable),
            SchemaAttr::Schema(Some(ms)) => read_metas(key, &mut st, ms),
            SchemaAttr::Doc(Some(line)) => {
                if key == SchemaKey::Description {
                    if !st.comments.as_str().is_empty() {
                        st.comments.append(" ");
                        proof {
                            reveal_strlit(" ");
                        }
                    }
                    let ghost mid = st.comments@;
                    st.comments.append(line.as_str());
                    proof {
                        if before.comments.len() == 0 {
                            assert(st.comments@ =~= line@);
                        } else {
                            assert(st.comments@ =~= before.comments + seq![' '] + line@);
                        }
                    }
                }
                Ok(())
            },
            _ => Ok(()),
        };
        match res {
            Err(e) => {
                proof {
                    lemma_fold_error_stays(schema_start(), attrs@, attr_fn(key), k + 1);
                }
                return Err(e);
            },
            Ok(()) => {},
        }
        k = k + 1;
    }
    assert(attrs@.take(attrs@.len() as int) =~= attrs@);
    Ok(st)
}

/// The description of a type or field: the one set by
/// `#[schema(description = "..")]`, else its doc comments joined by spaces.
pub fn extract_doc(attrs: &Vec<SchemaAttr>) -> (r: Result<String, SchemaError>)
    ensures
        r matches Ok(d) ==> description_of(attrs@) == Ok::<Seq<char>, SchemaError>(d@),
        r matches Err(e) ==> description_of(attrs@) == Err::<Seq<char>, SchemaError>(e),
{
    match read_attrs(SchemaKey::Description, attrs) {
        Err(e) => Err(e),
        Ok(st) => match st.value {
            Some(d) => Ok(d),
            None => Ok(st.comments),
        },
    }
}

/// The component name that `#[schema(component = "..")]` gives a type.
pub fn extract_component(attrs: &Vec<SchemaAttr>) -> (r: Result<Option<String>, SchemaError>)
    ensures
        r matches Ok(c) ==> setting_of(SchemaKey::Component, attrs@) == Ok::<
            Option<Seq<char>>,
            SchemaError,
        >(
            match c {
                Some(s) => Some(s@),
                None => None,
            },
        ),
        r matches Err(e) ==> setting_of(SchemaKey::Component, attrs@) == Err::<
            Option<Seq<char>>,
            SchemaError,
        >(e),
{
    match read_attrs(SchemaKey::Component, attrs) {
        Err(e) => Err(e),
        Ok(st) => Ok(st.value),
    }
}

/// The text of the example that `#[schema(example = "..")]` gives.
pub fn extract_example(attrs: &Vec<SchemaAttr>) -> (r: Result<Option<String>, SchemaError>)
    ensures
        r matches Ok(c) ==> setting_of(SchemaKey::Example, attrs@) == Ok::<
            Option<Seq<char>>,
            SchemaError,
        >(
            match c {
                Some(s) => Some(s@),
                None => None,
            },
        ),
        r matches Err(e) ==> setting_of(SchemaKey::Example, attrs@) == Err::<
            Option<Seq<char>>,
            SchemaError,
        >(e),
{
    match read_attrs(SchemaKey::Example, attrs) {
        Err(e) => Err(e),
        Ok(st) => Ok(st.value),
    }
}

/// What the schema of a field carries besides its type: its description
/// when there is one, its example, and whether it is only written or only
/// read.
#[derive(Debug, Clone, PartialEq, Eq)]
pub struct FieldSchema {
    pub description: Option<String>,
    pub example: Option<String>,
    pub write_only: bool,
    pub read_only: bool,
}

/// Abstract value of a field schema.
pub struct FieldSchemaView {
    pub description: Option<Seq<char>>,
    pub example: Option<Seq<char>>,
    pub write_only: bool,
    pub read_only: bool,
}

impl View for FieldSchema {
    type V = FieldSchemaView;

    open spec fn view(&self) -> FieldSchemaView {
        FieldSchemaView {
            description: match self.description {
                Some(d) => Some(d@),
                None => None,
            },
            example: match self.example {
                Some(x) => Some(x@),
                None => None,
            },
            write_only: self.write_only,
            read_only: self.read_only,
        }
    }
}

/// The schema of a field from its attributes and the words of its serde
/// attributes: none when it is skipped both ways; otherwise its description
/// when not empty, its example, and a field skipped when serializing is only
/// written, one skipped when deserializing only read.
pub open spec fn field_schema(attrs: Seq<SchemaAttr>, words: Seq<Seq<char>>) -> Result<
    Option<FieldSchemaView>,
    SchemaError,
> {
    match description_of(attrs) {
        Err(e) => Err(e),
        Ok(d) => match setting_of(SchemaKey::Example, attrs) {
            Err(e) => Err(e),
            Ok(x) => {
                let (ser, de) = skip_mode_of(words);
                if ser && de {
                    Ok(None)
                } else {
                    Ok(
                        Some(
                            FieldSchemaView {
                                description: if d.len() > 0 {
                                    Some(d)
                                } else {
                                    None
                                },
                                example: x,
                                write_only: ser,
                                read_only: de,
                            },
                        ),
                    )
                }
            },
        },
    }
}

/// The schema of a field, from its attributes and the words of its serde
/// attributes.
pub fn handle_field(attrs: &Vec<SchemaAttr>, serde_words: &Vec<String>) -> (r: Result<
    Option<FieldSchema>,
    SchemaError,
>)
    ensures
        r matches Ok(o) ==> field_schema(attrs@, string_views(serde_words@)) == Ok::<
            Option<FieldSchemaView>,
            SchemaError,
        >(
            match o {
                Some(f) => Some(f@),
                None => None,
            },
        ),
        r matches Err(e) ==> field_schema(attrs@, string_views(serde_words@)) == Err::<
            Option<FieldSchemaView>,
            SchemaError,
        >(e),
{
    let desc = match extract_doc(attrs) {
        Ok(d) => d,
        Err(e) => {
            return Err(e);
        },
    };
    let example = match extract_example(attrs) {
        Ok(x) => x,
        Err(e) => {
            return Err(e);
        },
    };
    let (ser, de) = skip_mode(serde_words);
    if ser && de {
        return Ok(None);
    }
    let description = if desc.as_str().is_empty() {
        None
    } else {
        Some(desc)
    };
    Ok(Some(FieldSchema { description, example, write_only: ser, read_only: de }))
}

/// The texts joined with `_` between them.
pub open spec fn joined(names: Seq<Seq<char>>) -> Seq<char>
    decreases names.len(),
{
    if names.len() == 0 {
        Seq::empty()
    } else if names.len() == 1 {
        names[0]
    } else {
        joined(names.drop_last()) + seq!['_'] + names.last()
    }
}

/// The name under which a type's schema is known: its component name, else
/// its own name; a generic type adds `-`, the names of its type and const
/// parameters joined with `_`, and `-`.
pub open spec fn schema_type_name(
    component: Option<Seq<char>>,
    ident: Seq<char>,
    generic: bool,
    params: Seq<Seq<char>>,
) -> Seq<char> {
    let base = match component {
        Some(c) => c,
        None => ident,
    };
    if generic {
        base + seq!['-'] + joined(params) + seq!['-']
    } else {
        base
    }
}

/// The name under which a type's schema is known, from its component name,
/// its own name, whether it has generic parameters and the names of its
/// type and const parameters.
pub fn schema_name(component: Option<String>, ident: String, generic: bool, params: &Vec<String>) -> (r:
    String)
    ensures
        r@ == schema_type_name(
            match component {
                Some(c) => Some(c@),
                None => None,
            },
            ident@,
            generic,
            string_views(params@),
        ),
{
    let mut out = match component {
        Some(c) => c,
        None => ident,
    };
    if !generic {
        return out;
    }
    let ghost base = out@;
    let ghost ps = string_views(params@);
    out.append("-");
    proof {
        reveal_strlit("-");
        reveal_strlit("_");
    }
    let mut k: usize = 0;
    assert(ps.take(0) =~= Seq::<Seq<char>>::empty());
    assert(out@ =~= base + seq!['-'] + joined(ps.take(0)));
    while k < params.len()
        invariant
            k <= params@.len(),
            ps == string_views(params@),
            "_"@ =~= seq!['_'],
            out@ =~= base + seq!['-'] + joined(ps.take(k as int)),
        decreases params@.len() - k,
    {
        assert(ps.take(k + 1).drop_last() =~= ps.take(k as int));
        assert(ps.take(k + 1).last() == params@[k as int]@);
        if k > 0 {
            out.append("_");
        }
        out.append(params[k].as_str());
        proof {
            if k == 0 {
                assert(ps.take(1) =~= seq![params@[0]@]);
            }
        }
        k = k + 1;
    }
    assert(ps.take(params@.len() as int) =~= ps);
    out.append("-");
    out
}

/// The name that the first `rename = ".."` among the settings of serde
/// attributes gives, if any.
pub open spec fn rename_in(ms: Seq<SchemaMeta>) -> Option<Seq<char>>
    decreases ms.len(),
{
    if ms.len() == 0 {
        None
    } else {
        match ms[0] {
            SchemaMeta::NameValue(n, SchemaLit::Str(v)) => if n@ == "rename"@ {
                Some(v@)
            } else {
                rename_in(ms.drop_first())
            },
            _ => rename_in(ms.drop_first()),
        }
    }
}

/// The name that `#[serde(rename = "..")]` gives a field or variant, from
/// the settings of its serde attributes in order.
pub fn get_rename(metas: &Vec<SchemaMeta>) -> (r: Option<String>)
    ensures
        (match r {
            Some(v) => Some(v@),
            None => None,
        }) == rename_in(metas@),
{
    let key = "rename".to_owned();
    let ghost ms = metas@;
    let mut i: usize = 0;
    assert(ms.skip(0) =~= ms);
    while i < metas.len()
        invariant
            i <= ms.len(),
            ms == metas@,
            key@ == "rename"@,
            rename_in(ms) == rename_in(ms.skip(i as int)),
        decreases ms.len() - i,
    {
        assert(ms.skip(i as int)[0] == ms[i as int]);
        assert(ms.skip(i as int).drop_first() =~= ms.skip(i + 1));
        match &metas[i] {
            SchemaMeta::NameValue(n, SchemaLit::Str(v)) => {
                if *n == key {
                    return Some(v.clone());
                }
            },
            _ => {},
        }
        i = i + 1;
    }
    assert(ms.skip(i as int) =~= Seq::<SchemaMeta>::empty());
    None
}


/// The name a field is serialized under: the one its own
/// `#[serde(rename = "..")]` gives, which wins over the name that the
/// type's `rename_all` rule makes of the field's identifier (`by_rule`).
pub fn field_name(metas: &Vec<SchemaMeta>, by_rule: String) -> (r: String)
    ensures
        r@ == match rename_in(metas@) {
            Some(v) => v,
            None => by_rule@,
        },
{
    match get_rename(metas) {
        Some(v) => v,
        None => by_rule,
    }
}

} // verus!
