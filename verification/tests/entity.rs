use rweb::entity::{
    describe_result, describe_wrapped, make_nullable, single_responses, suffix_of,
    wrap_components, ComponentDescriptor, ComponentOrInlineSchema, Entity, ResponseEntity, Schema,
    SchemaType, Wrapper,
};
use rweb::Json;

fn reference(name: &str) -> Schema {
    let mut s = Schema::blank();
    s.ref_path = format!("#/components/schemas/{}", name);
    s
}

#[test]
fn inline_schemas_are_wrapped() {
    let int = Schema::typed(SchemaType::Integer);
    let list = describe_wrapped(Wrapper::List, int.clone());
    assert_eq!(list.schema_type, Some(SchemaType::Array));
    assert_eq!(list.items.as_deref(), Some(&int));
    assert!(list.unique_items.is_none());
    let set = describe_wrapped(Wrapper::UniqueList, int.clone());
    assert_eq!(set.unique_items, Some(true));
    let arr = describe_wrapped(Wrapper::Array(3), int.clone());
    assert_eq!((arr.min_items, arr.max_items), (Some(3), Some(3)));
    let map = describe_wrapped(Wrapper::StringMap, int.clone());
    assert_eq!(map.schema_type, Some(SchemaType::Object));
    assert_eq!(map.additional_properties.as_deref(), Some(&int));
    let opt = describe_wrapped(Wrapper::Opt, int.clone());
    assert_eq!(opt.nullable, Some(true));
    assert_eq!(opt.schema_type, Some(SchemaType::Integer));
    let mut comps = vec![];
    wrap_components(Wrapper::List, &int, &mut comps);
    assert!(comps.is_empty());
}

#[test]
fn wrapped_references_name_their_components() {
    let item = reference("Item");
    for (w, suffix) in [
        (Wrapper::List, "_List"),
        (Wrapper::UniqueList, "_Set"),
        (Wrapper::StringMap, "_Map"),
        (Wrapper::Opt, "_Opt"),
        (Wrapper::Array(12), "_Array_12"),
    ] {
        assert_eq!(suffix_of(w), suffix);
        let r = describe_wrapped(w, item.clone());
        assert_eq!(r.ref_path, format!("#/components/schemas/Item{}", suffix));
        assert!(r.schema_type.is_none());
        let mut comps = vec![("Other".to_string(), Schema::blank())];
        wrap_components(w, &item, &mut comps);
        assert_eq!(comps.len(), 2);
        assert_eq!(comps[1].0, format!("Item{}", suffix));
        assert_eq!(format!("#/components/schemas/{}", comps[1].0), r.ref_path);
    }
    let mut comps = vec![];
    wrap_components(Wrapper::Opt, &item, &mut comps);
    assert_eq!(comps[0].1.nullable, Some(true));
    assert_eq!(comps[0].1.one_of, vec![item.clone()]);
    let mut comps = vec![];
    wrap_components(Wrapper::List, &item, &mut comps);
    assert_eq!(comps[0].1.items.as_deref(), Some(&item));
    assert_eq!(suffix_of(Wrapper::Array(0)), "_Array_0");
}

#[test]
fn component_names_cut_bytes() {
    let mut s = Schema::blank();
    s.ref_path = "#/components/schemaé/Thing".to_string();
    let mut comps = vec![];
    wrap_components(Wrapper::List, &s, &mut comps);
    assert_eq!(comps[0].0, "/Thing_List");
}

#[test]
fn results_and_responses() {
    let r = describe_result(Schema::typed(SchemaType::String), Schema::typed(SchemaType::Integer));
    assert_eq!(r.one_of.len(), 2);
    assert_eq!(r.one_of[0].properties[0].0, "Ok");
    assert_eq!(r.one_of[0].required, vec!["Ok".to_string()]);
    assert_eq!(r.one_of[1].properties[0].0, "Err");
    assert_eq!(r.one_of[1].properties[0].1, Schema::typed(SchemaType::Integer));
    assert_eq!(r.one_of[1].schema_type, Some(SchemaType::Object));

    let mut rs = single_responses("application/json", Schema::typed(SchemaType::Integer));
    assert_eq!(rs[0].0, "200");
    assert_eq!(rs[0].1.content[0].0, "application/json");
    make_nullable(&mut rs);
    let s = rs[0].1.content[0].1.schema.as_ref().unwrap();
    assert_eq!(s.nullable, Some(true));
    assert_eq!(s.schema_type, Some(SchemaType::Integer));
}

#[test]
fn schema_formats() {
    let u = Schema::formatted("uuid");
    assert_eq!(u.schema_type, Some(SchemaType::String));
    assert_eq!(u.format, "uuid");
    assert!(u != Schema::formatted("date"));
    assert_eq!(u.clone(), u);
}

#[test]
fn entities_describe_their_types() {
    assert_eq!(<u32 as Entity>::describe(), Schema::typed(SchemaType::Integer));
    assert_eq!(<bool as Entity>::describe(), Schema::typed(SchemaType::Boolean));
    assert_eq!(<String as Entity>::describe(), Schema::typed(SchemaType::String));
    assert_eq!(<char as Entity>::describe(), Schema::typed(SchemaType::String));
    assert_eq!(<() as Entity>::describe(), Schema::typed(SchemaType::Object));
    let v = <Vec<Option<u8>> as Entity>::describe();
    assert_eq!(v.schema_type, Some(SchemaType::Array));
    let item = v.items.as_deref().unwrap();
    assert_eq!(item.nullable, Some(true));
    assert_eq!(item.schema_type, Some(SchemaType::Integer));
    let a = <[u8; 4] as Entity>::describe();
    assert_eq!((a.min_items, a.max_items), (Some(4), Some(4)));
    let t = <(bool, bool) as Entity>::describe();
    assert_eq!((t.min_items, t.max_items), (Some(2), Some(2)));
    let m = <std::collections::HashMap<String, u8> as Entity>::describe();
    assert_eq!(m.schema_type, Some(SchemaType::Object));
    let s = <std::collections::BTreeSet<u8> as Entity>::describe();
    assert_eq!(s.unique_items, Some(true));
    assert!(<Vec<Json<Result<u8, String>>> as Entity>::describe_components().is_empty());
    let r = <Json<u8> as ResponseEntity>::describe_responses();
    assert_eq!(r[0].1.content[0].0, "application/json");
    let o = <Option<String> as ResponseEntity>::describe_responses();
    assert_eq!(o[0].1.content[0].0, "text/plain");
    assert_eq!(o[0].1.content[0].1.schema.as_ref().unwrap().nullable, Some(true));
    let both = <Result<Json<u8>, String> as ResponseEntity>::describe_responses();
    assert_eq!(both.len(), 1);
    assert_eq!(both[0].1.content[0].0, "text/plain");
}

#[test]
fn components_are_described_once() {
    let d = ComponentDescriptor::new();
    let (d, r) = d.describe_component("Node", |inner| {
        // while described, the name already stands for a blank schema
        assert_eq!(inner.get_component("Node"), Some(&Schema::blank()));
        let (inner, again) = inner.describe_component("Node", |_| unreachable!());
        assert_eq!(again, ComponentOrInlineSchema::Component { name: "Node".to_string() });
        (inner, Schema::typed(SchemaType::Object))
    });
    assert_eq!(r, ComponentOrInlineSchema::Component { name: "Node".to_string() });
    assert_eq!(d.get_component("Node"), Some(&Schema::typed(SchemaType::Object)));
    assert_eq!(d.get_component("Other"), None);
    assert_eq!(d.get_unpack(&r), &Schema::typed(SchemaType::Object));
    let inline = ComponentOrInlineSchema::Inline(Schema::typed(SchemaType::Boolean));
    assert_eq!(d.get_unpack(&inline), &Schema::typed(SchemaType::Boolean));
    let (d, _) = d.describe_component("Node", |_| unreachable!());
    assert_eq!(d.build(), vec![("Node".to_string(), Schema::typed(SchemaType::Object))]);
}
