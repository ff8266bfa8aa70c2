use syn_entities::entity::{Entity, EntityType};
use syn_entities::from_syn::{extract as extract_from, source_file};
use syn_entities::parser::file_parser;
use syn_entities::syntax::{
    FieldDecl, FieldList, ItemDecl, MethodDecl, Param, SourceFile, StructDecl, TraitDecl,
    TraitMember,
};

fn read(source: &str) -> SourceFile {
    source_file(syn::parse_str::<syn::File>(source).unwrap())
}

fn extract(source: &str) -> Vec<Entity> {
    file_parser(read(source))
}

fn leaf(name: &str) -> Entity {
    Entity { entity_type: EntityType::Field(String::new()), name: name.to_string(), fields: vec![] }
}

fn plain_field(name: &str, spelling: &str) -> Entity {
    Entity {
        entity_type: EntityType::Field(name.to_string()),
        name: spelling.to_string(),
        fields: vec![],
    }
}

#[test]
fn reads_a_struct_with_named_fields() {
    let file = read("struct Point { x: i32, pub tags: Vec<Tag> }");
    assert_eq!(
        file,
        SourceFile {
            items: vec![ItemDecl::Struct(StructDecl {
                ident: "Point".to_string(),
                fields: FieldList::Named(vec![
                    FieldDecl { ident: Some("x".to_string()), ty: "i32".to_string() },
                    FieldDecl { ident: Some("tags".to_string()), ty: "Vec < Tag >".to_string() },
                ]),
            })],
        }
    );
}

#[test]
fn reads_tuple_and_unit_structs() {
    let file = read("struct Wrapper(u8, Vec<u8>); struct Marker;");
    assert_eq!(
        file.items,
        vec![
            ItemDecl::Struct(StructDecl {
                ident: "Wrapper".to_string(),
                fields: FieldList::Unnamed(vec![
                    FieldDecl { ident: None, ty: "u8".to_string() },
                    FieldDecl { ident: None, ty: "Vec < u8 >".to_string() },
                ]),
            }),
            ItemDecl::Struct(StructDecl { ident: "Marker".to_string(), fields: FieldList::Unit }),
        ]
    );
}

#[test]
fn reads_a_trait_with_methods_and_other_members() {
    let file = read(
        "trait Store {
            const LIMIT: usize;
            type Value;
            fn get(&self, key: String) -> Option<Value>;
            fn clear(&mut self);
            fn zip(a: u8, (b, c): (u8, u8)) -> u8 { a }
        }",
    );
    assert_eq!(
        file.items,
        vec![ItemDecl::Trait(TraitDecl {
            ident: "Store".to_string(),
            items: vec![
                TraitMember::Other,
                TraitMember::Other,
                TraitMember::Method(MethodDecl {
                    ident: "get".to_string(),
                    inputs: vec![
                        Param::Receiver,
                        Param::Named { ident: "key".to_string(), ty: "String".to_string() },
                    ],
                    output: Some("Option < Value >".to_string()),
                }),
                TraitMember::Method(MethodDecl {
                    ident: "clear".to_string(),
                    inputs: vec![Param::Receiver],
                    output: None,
                }),
                TraitMember::Method(MethodDecl {
                    ident: "zip".to_string(),
                    inputs: vec![
                        Param::Named { ident: "a".to_string(), ty: "u8".to_string() },
                        Param::Pattern { ty: "(u8 , u8)".to_string() },
                    ],
                    output: Some("u8".to_string()),
                }),
            ],
        })]
    );
}

#[test]
fn reads_enums_and_other_items_as_their_kind() {
    let file = read(
        "use std::fmt; enum E { A, B(u8) } fn f() {} const C: u8 = 1; impl E {} mod m {} type T = u8;",
    );
    assert_eq!(
        file.items,
        vec![
            ItemDecl::Other,
            ItemDecl::Enum,
            ItemDecl::Other,
            ItemDecl::Other,
            ItemDecl::Other,
            ItemDecl::Other,
            ItemDecl::Other,
        ]
    );
}

#[test]
fn reads_an_empty_file() {
    assert_eq!(read(""), SourceFile { items: vec![] });
    assert_eq!(extract(""), Vec::<Entity>::new());
}

#[test]
fn typed_self_parameter_is_a_named_parameter() {
    let file = read("trait T { fn f(self: Box<Self>, mut n: u8); }");
    assert_eq!(
        file.items,
        vec![ItemDecl::Trait(TraitDecl {
            ident: "T".to_string(),
            items: vec![TraitMember::Method(MethodDecl {
                ident: "f".to_string(),
                inputs: vec![
                    Param::Named { ident: "self".to_string(), ty: "Box < Self >".to_string() },
                    Param::Named { ident: "n".to_string(), ty: "u8".to_string() },
                ],
                output: None,
            })],
        })]
    );
}

#[test]
fn extracts_struct_with_two_named_fields() {
    let entities = extract("struct Pair { f1: T1, f2: T2 }");
    assert_eq!(
        entities,
        vec![Entity {
            entity_type: EntityType::Struct,
            name: "Pair".to_string(),
            fields: vec![plain_field("f1", "T1"), plain_field("f2", "T2")],
        }]
    );
}

#[test]
fn extracts_tuple_struct_and_unit_struct_without_children() {
    let entities = extract("struct Wrapper(Vec<u8>, u8); struct Marker;");
    assert_eq!(
        entities,
        vec![
            Entity { entity_type: EntityType::Struct, name: "Wrapper".to_string(), fields: vec![] },
            Entity { entity_type: EntityType::Struct, name: "Marker".to_string(), fields: vec![] },
        ]
    );
}

#[test]
fn extracts_one_child_per_plain_method() {
    let entities = extract(
        "trait Shape {
            const SIDES: u32;
            type Unit;
            fn area(&self) -> f64;
            fn scale(&mut self, factor: f64);
            fn name() -> String { String::new() }
        }",
    );
    assert_eq!(entities.len(), 1);
    assert_eq!(entities[0].entity_type, EntityType::Trait);
    assert_eq!(entities[0].name, "Shape");
    assert_eq!(entities[0].fields.len(), 3);
    assert_eq!(
        entities[0].fields,
        vec![leaf("area() f64"), leaf("scale(factor f64) "), leaf("name() String")]
    );
}

#[test]
fn extracts_summary_of_get() {
    let entities = extract("trait Store { fn get(&self, key: String) -> Option<Value>; }");
    assert_eq!(entities[0].fields, vec![leaf("get(key String) Option<Value>")]);
}

#[test]
fn extracts_vec_of_foo_as_one_struct_child() {
    let entities = extract("struct S { items: Vec<Foo> }");
    let field = &entities[0].fields[0];
    assert_eq!(field.entity_type, EntityType::Field("items".to_string()));
    assert_eq!(field.name, "Vec<Foo>");
    assert_eq!(
        field.fields,
        vec![Entity {
            entity_type: EntityType::Struct,
            name: "Vec<Foo>".to_string(),
            fields: vec![leaf("Vec"), leaf("Foo")],
        }]
    );
}

#[test]
fn extracts_nested_map_as_four_sibling_fragments() {
    let entities = extract("struct S { index: HashMap<String, Vec<Bar>> }");
    let field = &entities[0].fields[0];
    assert_eq!(field.name, "HashMap<String,Vec<Bar>>");
    assert_eq!(field.fields.len(), 1);
    assert_eq!(field.fields[0].name, "HashMap<String,Vec<Bar>>");
    assert_eq!(
        field.fields[0].fields,
        vec![leaf("HashMap"), leaf("String"), leaf("Vec"), leaf("Bar")]
    );
}

#[test]
fn extracts_i32_field_without_children() {
    let entities = extract("struct S { count: i32 }");
    assert_eq!(entities[0].fields, vec![plain_field("count", "i32")]);
}

#[test]
fn extracts_spaced_source_like_tight_source() {
    let spaced = extract("struct S { items : Vec < Foo > , map : HashMap < K , V > }");
    let tight = extract("struct S{items:Vec<Foo>,map:HashMap<K,V>}");
    assert_eq!(spaced, tight);
    assert_eq!(spaced[0].fields[0].name, "Vec<Foo>");
    assert_eq!(spaced[0].fields[1].name, "HashMap<K,V>");
}

#[test]
fn extracts_the_same_entities_from_the_same_tree() {
    let tree = syn::parse_str::<syn::File>(
        "struct A { x: Vec<u8> } enum E { V } trait T { fn f(&self, n: u8) -> u8; }",
    )
    .unwrap();
    let first = file_parser(source_file(tree.clone()));
    let second = file_parser(source_file(tree.clone()));
    assert_eq!(first, second);
    assert_eq!(first.len(), 2);
}

#[test]
fn extracts_nothing_from_enums() {
    let with_enums = extract(
        "enum Before { A } struct S { x: Vec<u8> } enum Between { B(S) } trait T { fn f(&self); } enum After {}",
    );
    let without_enums = extract("struct S { x: Vec<u8> } trait T { fn f(&self); }");
    assert_eq!(with_enums, without_enums);
    assert_eq!(with_enums.len(), 2);
    assert_eq!(extract("enum Only { A, B }"), Vec::<Entity>::new());
}

#[test]
fn extracts_items_in_source_order_with_duplicates() {
    let entities = extract("trait B {} struct A; struct A { x: u8 } fn f() {} trait B {}");
    let names: Vec<&str> = entities.iter().map(|entity| entity.name.as_str()).collect();
    assert_eq!(names, vec!["B", "A", "A", "B"]);
    assert_eq!(entities[0].entity_type, EntityType::Trait);
    assert_eq!(entities[1].entity_type, EntityType::Struct);
}

#[test]
fn extracts_array_length_expression_as_dependencies() {
    let entities = extract("struct S { a: [u8; 4], b: (u8, u16) }");
    assert_eq!(entities[0].fields[0], plain_field("a", "[u8;4]"));
    assert_eq!(entities[0].fields[1].name, "(u8,u16)");
    assert_eq!(entities[0].fields[1].fields[0].fields, vec![leaf("(u8"), leaf("u16)")]);
}

#[test]
fn extract_reads_and_extracts_in_one_call() {
    let source = "struct S { items: Vec<Foo>, n: i32 } enum E { A } trait T { fn get(&self, key: String) -> Option<Value>; }";
    let tree = syn::parse_str::<syn::File>(source).unwrap();
    let entities = extract_from(tree.clone());
    assert_eq!(entities, file_parser(source_file(tree)));
    assert_eq!(entities.len(), 2);
    assert_eq!(entities[0].name, "S");
    assert_eq!(entities[0].fields[0].fields[0].fields, vec![leaf("Vec"), leaf("Foo")]);
    assert_eq!(entities[0].fields[1], plain_field("n", "i32"));
    assert_eq!(entities[1].fields, vec![leaf("get(key String) Option<Value>")]);
}

#[test]
fn extract_gives_struct_and_trait_nodes_only() {
    let tree = syn::parse_str::<syn::File>(
        "struct A { m: HashMap<String, Vec<Bar>> } trait B { fn f(&self); const C: u8; } struct D(u8);",
    )
    .unwrap();
    for entity in extract_from(tree) {
        match entity.entity_type {
            EntityType::Struct => {
                for field in &entity.fields {
                    assert!(matches!(field.entity_type, EntityType::Field(_)));
                    assert!(field.fields.len() <= 1);
                    for child in &field.fields {
                        assert_eq!(child.entity_type, EntityType::Struct);
                        assert_eq!(child.name, field.name);
                        for fragment in &child.fields {
                            assert_eq!(fragment.entity_type, EntityType::Field(String::new()));
                            assert!(fragment.fields.is_empty());
                        }
                    }
                }
            }
            EntityType::Trait => {
                for summary in &entity.fields {
                    assert_eq!(summary.entity_type, EntityType::Field(String::new()));
                    assert!(summary.fields.is_empty());
                }
            }
            EntityType::Field(_) => panic!("a field at the top level"),
        }
    }
}

#[test]
fn entity_types_are_reachable_from_the_crate_root() {
    let entity = syn_entities::Entity::new(syn_entities::EntityType::Struct, "S", vec![]);
    assert_eq!(
        entity,
        Entity { entity_type: EntityType::Struct, name: "S".to_string(), fields: vec![] }
    );
}

#[test]
fn extracts_generic_struct_under_its_bare_name() {
    let entities = extract("pub struct Wrapper<'a, T: Clone> where T: Copy { inner: &'a mut T }");
    assert_eq!(entities.len(), 1);
    assert_eq!(entities[0].name, "Wrapper");
    assert_eq!(entities[0].fields, vec![plain_field("inner", "&'amutT")]);
}

#[test]
fn extracts_generic_method_without_its_generics() {
    let entities = extract("trait T { fn f<U: Into<u8>>(&self, x: U, ys: &[U]) -> Vec<U>; }");
    assert_eq!(entities[0].fields, vec![leaf("f(x U,ys &[U]) Vec<U>")]);
}

#[test]
fn extracts_raw_identifiers_as_written() {
    let entities = extract("struct S { r#type: u8 }");
    assert_eq!(entities[0].fields, vec![plain_field("r#type", "u8")]);
}

#[test]
fn extracts_path_types_without_spaces() {
    let entities = extract("struct S { m: std::collections::HashMap<String, u8> }");
    let field = &entities[0].fields[0];
    assert_eq!(field.name, "std::collections::HashMap<String,u8>");
    assert_eq!(
        field.fields[0].fields,
        vec![leaf("std::collections::HashMap"), leaf("String"), leaf("u8")]
    );
}

#[test]
fn reads_the_same_shapes_from_the_same_tree() {
    let tree = syn::parse_str::<syn::File>(
        "struct A { x: Vec<u8>, y: (u8, u16) } enum E { V } trait T { fn f(&self, n: u8) -> u8; type U; }",
    )
    .unwrap();
    let first = source_file(tree.clone());
    let second = source_file(tree);
    assert_eq!(first, second);
    assert_eq!(first.items.len(), 3);
}
