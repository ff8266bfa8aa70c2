//! Entity extraction. Each function turns one shape of the syntax tree into
//! the entity that stands for it; its contract equates the value of what it
//! returns with a spec function of the value of what it was given.

use crate::entity::{Entity, EntityKind, EntityType, EntityView};
use crate::syntax::{
    FieldDecl, FieldDeclView, FieldList, FieldListView, ItemDecl, ItemDeclView, MethodDecl,
    MethodDeclView, Param, ParamView, SourceFile, SourceFileView, StructDecl, StructDeclView,
    TraitDecl, TraitDeclView, TraitMember, TraitMemberView,
};
use crate::text::{
    fragments, has_delimiter, is_delimiter, is_delimiter_char, join, join_strings,
    split_fragments, strip_spaces, without_spaces,
};
use vstd::prelude::*;
use vstd::string::*;

verus! {

/// The canonical spelling of a type: the text of its tokens without any
/// space character.
pub open spec fn rendered_type(tokens: Seq<char>) -> Seq<char> {
    without_spaces(tokens)
}

/// The entity that decomposes a type spelling: tagged as a struct, named by
/// the whole spelling, with one anonymous leaf per fragment. The
/// decomposition is one level deep: a fragment is never decomposed again.
pub open spec fn dependency_entity(spelling: Seq<char>) -> EntityView {
    EntityView {
        kind: EntityKind::Struct,
        name: spelling,
        fields: fragments(spelling).map_values(|fragment: Seq<char>| EntityView::leaf(fragment)),
    }
}

/// The name that a field entity carries in its tag: the field's identifier,
/// or the empty text where the field has none.
pub open spec fn field_tag(ident: Option<Seq<char>>) -> Seq<char> {
    match ident {
        Some(name) => name,
        None => Seq::<char>::empty(),
    }
}

/// The entity of one field: tagged with the field's name, named by the
/// rendered type, with the type's decomposition as its only child where the
/// rendered type holds a delimiter, and without children otherwise.
pub open spec fn field_entity(field: FieldDeclView) -> EntityView {
    let spelling = rendered_type(field.ty);
    EntityView {
        kind: EntityKind::Field(field_tag(field.ident)),
        name: spelling,
        fields: if has_delimiter(spelling) {
            seq![dependency_entity(spelling)]
        } else {
            Seq::<EntityView>::empty()
        },
    }
}

/// The entities of a field list: one per named field, in order. The fields
/// of a tuple struct are not represented, so a tuple struct and a unit struct
/// both come out without children.
pub open spec fn field_entities(fields: FieldListView) -> Seq<EntityView> {
    match fields {
        FieldListView::Named(named) => named.map_values(|field: FieldDeclView| field_entity(field)),
        FieldListView::Unnamed(_) => Seq::<EntityView>::empty(),
        FieldListView::Unit => Seq::<EntityView>::empty(),
    }
}

/// The entity of a struct item: named by its identifier, with the entities
/// of its named fields as children.
pub open spec fn struct_entity(item: StructDeclView) -> EntityView {
    EntityView {
        kind: EntityKind::Struct,
        name: item.ident,
        fields: field_entities(item.fields),
    }
}

/// How one parameter shows in a method summary: its name, one space and its
/// rendered type. The receiver and a parameter with any other pattern than a
/// plain identifier do not show.
pub open spec fn param_text(param: ParamView) -> Option<Seq<char>> {
    match param {
        ParamView::Named { ident, ty } => Some(ident + seq![' '] + rendered_type(ty)),
        ParamView::Receiver => None,
        ParamView::Pattern { ty } => None,
    }
}

/// The parameters that show in a method summary, in declaration order.
pub open spec fn param_texts(inputs: Seq<ParamView>) -> Seq<Seq<char>> {
    inputs.filter_map(|param: ParamView| param_text(param))
}

/// The return type as it shows in a method summary: rendered, or empty where
/// the method names none.
pub open spec fn return_text(output: Option<Seq<char>>) -> Seq<char> {
    match output {
        Some(ty) => rendered_type(ty),
        None => Seq::<char>::empty(),
    }
}

/// The summary of a method: its name, the parameters in parentheses with a
/// comma and no space between them, one space, and the return type. The
/// space stands there also where the return type is empty.
pub open spec fn method_summary(method: MethodDeclView) -> Seq<char> {
    method.ident + seq!['('] + join(param_texts(method.inputs), seq![',']) + seq![')', ' ']
        + return_text(method.output)
}

/// The child that an associated item of a trait gives: the summary of a
/// method as an anonymous leaf, and nothing for any other associated item.
pub open spec fn member_entity(member: TraitMemberView) -> Option<EntityView> {
    match member {
        TraitMemberView::Method(method) => Some(EntityView::leaf(method_summary(method))),
        TraitMemberView::Other => None,
    }
}

/// The children that the associated items of a trait give: one per method,
/// in declaration order.
pub open spec fn member_entities(members: Seq<TraitMemberView>) -> Seq<EntityView> {
    members.filter_map(|member: TraitMemberView| member_entity(member))
}

/// The entity of a trait item: named by its identifier, with one child per
/// method, in declaration order.
pub open spec fn trait_entity(item: TraitDeclView) -> EntityView {
    EntityView {
        kind: EntityKind::Trait,
        name: item.ident,
        fields: member_entities(item.items),
    }
}

/// The entity that a top-level item gives: one for a struct, one for a
/// trait, none for an enum or any other item.
pub open spec fn item_entity(item: ItemDeclView) -> Option<EntityView> {
    match item {
        ItemDeclView::Struct(item) => Some(struct_entity(item)),
        ItemDeclView::Trait(item) => Some(trait_entity(item)),
        ItemDeclView::Enum => None,
        ItemDeclView::Other => None,
    }
}

/// The entities of a list of items: those of its structs and traits, in
/// the order of the list. Two items of one name give two entities.
pub open spec fn item_entities(items: Seq<ItemDeclView>) -> Seq<EntityView> {
    items.filter_map(|item: ItemDeclView| item_entity(item))
}

/// The entities of a file: those of its top-level items, in source order.
pub open spec fn file_entities(file: SourceFileView) -> Seq<EntityView> {
    item_entities(file.items)
}

/// Mapping and filtering at once goes element by element.
pub proof fn lemma_filter_map_push<A, B>(items: Seq<A>, item: A, f: spec_fn(A) -> Option<B>)
    ensures
        items.push(item).filter_map(f) == match f(item) {
            Some(value) => items.filter_map(f).push(value),
            None => items.filter_map(f),
        },
{
    assert(items.push(item).drop_last() =~= items);
}

/// Renders a type: strips every space from the text of its tokens.
pub fn type_parser(type_: &str) -> (result: String)
    ensures
        result@ == rendered_type(type_@),
{
    strip_spaces(type_)
}

/// Whether a rendered type has dependencies: whether it holds one of the
/// characters `,`, `<` and `>`.
pub fn has_dependencies(spelling: &str) -> (result: bool)
    ensures
        result == has_delimiter(spelling@),
{
    let mut found = false;
    for c in it: spelling.chars()
        invariant
            it.seq() == spelling@,
            found == has_delimiter(spelling@.take(it.index() as int)),
    {
        proof {
            // A delimiter among the characters read so far, `c` included, is
            // one among those read before, or it is `c`.
            let read = spelling@.take(it.index() as int);
            let next = spelling@.take(it.index() + 1);
            if has_delimiter(read) {
                let i = choose|i: int| 0 <= i < read.len() && is_delimiter(#[trigger] read[i]);
                assert(is_delimiter(next[i]));
            }
            if is_delimiter(c) {
                assert(is_delimiter(next[next.len() - 1]));
            }
            if has_delimiter(next) {
                let i = choose|i: int| 0 <= i < next.len() && is_delimiter(#[trigger] next[i]);
                assert(i < read.len() ==> is_delimiter(read[i]));
            }
        }
        if is_delimiter_char(c) {
            found = true;
        }
    }
    proof {
        assert(spelling@.take(spelling@.len() as int) =~= spelling@);
    }
    found
}

/// Decomposes a rendered type into the entity of its fragments.
pub fn make_dependencies(spelling: &str) -> (result: Entity)
    ensures
        result@ == dependency_entity(spelling@),
{
    let names = split_fragments(spelling);
    let ghost wanted = dependency_entity(spelling@).fields;
    let mut dependencies: Vec<Entity> = Vec::new();
    for name in it: names
        invariant
            it.seq().len() == wanted.len(),
            forall|k: int| 0 <= k < it.seq().len() ==> EntityView::leaf(it.seq()[k]@) == wanted[k],
            dependencies.len() == it.index(),
            forall|k: int| 0 <= k < it.index() ==> dependencies[k]@ == wanted[k],
    {
        let leaf = Entity::new(EntityType::Field(String::new()), name.as_str(), Vec::new());
        proof {
            assert(leaf@.fields =~= Seq::<EntityView>::empty());
        }
        dependencies.push(leaf);
    }
    proof {
        assert(dependencies.deep_view() =~= wanted);
    }
    Entity::new(EntityType::Struct, spelling, dependencies)
}

/// Builds the entity of one field.
pub fn field_parser(field: FieldDecl) -> (result: Entity)
    ensures
        result@ == field_entity(field@),
{
    let name = match field.ident {
        Some(ident) => ident,
        None => String::new(),
    };
    let spelling = type_parser(field.ty.as_str());
    let mut children: Vec<Entity> = Vec::new();
    if has_dependencies(spelling.as_str()) {
        children.push(make_dependencies(spelling.as_str()));
    }
    proof {
        assert(children.deep_view() =~= field_entity(field@).fields);
    }
    Entity::new(EntityType::Field(name), spelling.as_str(), children)
}

/// Builds the entities of a struct's fields: one per named field, none for
/// a tuple struct or a unit struct.
pub fn fields_parser(item: FieldList) -> (result: Vec<Entity>)
    ensures
        result.deep_view() == field_entities(item@),
{
    let ghost wanted = field_entities(item@);
    let mut entities: Vec<Entity> = Vec::new();
    match item {
        FieldList::Named(fields) => {
            for field in it: fields
                invariant
                    it.seq().len() == wanted.len(),
                    forall|k: int| 0 <= k < it.seq().len() ==> field_entity(it.seq()[k]@) == wanted[k],
                    entities.len() == it.index(),
                    forall|k: int| 0 <= k < it.index() ==> entities[k]@ == wanted[k],
            {
                entities.push(field_parser(field));
            }
        },
        FieldList::Unnamed(_) => {},
        FieldList::Unit => {},
    }
    entities
}

/// Builds the entity of a struct item.
pub fn struct_parser(item: StructDecl) -> (result: Entity)
    ensures
        result@ == struct_entity(item@),
{
    let fields = fields_parser(item.fields);
    Entity::new(EntityType::Struct, item.ident.as_str(), fields)
}

/// Renders the summary of one method.
pub fn method_signature(method: MethodDecl) -> (result: String)
    ensures
        result@ == method_summary(method@),
{
    let ghost inputs = method.inputs.deep_view();
    let mut params: Vec<String> = Vec::new();
    for param in it: method.inputs
        invariant
            it.seq().len() == inputs.len(),
            forall|k: int| 0 <= k < it.seq().len() ==> it.seq()[k]@ == inputs[k],
            params.deep_view() == param_texts(inputs.take(it.index() as int)),
    {
        proof {
            assert(inputs.take(it.index() + 1) =~= inputs.take(it.index() as int).push(param@));
            lemma_filter_map_push(
                inputs.take(it.index() as int),
                param@,
                |param: ParamView| param_text(param),
            );
        }
        match param {
            Param::Named { ident, ty } => {
                let mut text = ident;
                text.push(' ');
                text.append(type_parser(ty.as_str()).as_str());
                proof {
                    assert(text@ =~= param_text(param@)->0);
                }
                params.push(text);
            },
            Param::Receiver => {},
            Param::Pattern { ty } => {},
        }
    }
    proof {
        assert(inputs.take(inputs.len() as int) =~= inputs);
        reveal_strlit(",");
        assert(","@ =~= seq![',']);
    }
    let mut summary = method.ident;
    summary.push('(');
    summary.append(join_strings(&params, ",").as_str());
    summary.push(')');
    summary.push(' ');
    match method.output {
        Some(ty) => {
            summary.append(type_parser(ty.as_str()).as_str());
        },
        None => {},
    }
    summary
}

/// Builds the entity of a trait item: one child per method, each named by
/// the method's summary.
pub fn trait_parser(item: TraitDecl) -> (result: Entity)
    ensures
        result@ == trait_entity(item@),
{
    let ghost members = item.items.deep_view();
    let mut methods: Vec<Entity> = Vec::new();
    for member in it: item.items
        invariant
            it.seq().len() == members.len(),
            forall|k: int| 0 <= k < it.seq().len() ==> it.seq()[k]@ == members[k],
            methods.deep_view() == member_entities(members.take(it.index() as int)),
    {
        proof {
            assert(members.take(it.index() + 1) =~= members.take(it.index() as int).push(member@));
            lemma_filter_map_push(
                members.take(it.index() as int),
                member@,
                |member: TraitMemberView| member_entity(member),
            );
        }
        match member {
            TraitMember::Method(method) => {
                let summary = method_signature(method);
                let leaf = Entity::new(
                    EntityType::Field(String::new()),
                    summary.as_str(),
                    Vec::new(),
                );
                proof {
                    assert(leaf@.fields =~= Seq::<EntityView>::empty());
                }
                methods.push(leaf);
            },
            TraitMember::Other => {},
        }
    }
    proof {
        assert(members.take(members.len() as int) =~= members);
    }
    Entity::new(EntityType::Trait, item.ident.as_str(), methods)
}

/// Extracts the entities of a file: one per struct and one per trait, in
/// source order. Enums and all other items give nothing.
pub fn file_parser(file: SourceFile) -> (result: Vec<Entity>)
    ensures
        result.deep_view() == file_entities(file@),
{
    let ghost items = file.items.deep_view();
    let mut entities: Vec<Entity> = Vec::new();
    for item in it: file.items
        invariant
            it.seq().len() == items.len(),
            forall|k: int| 0 <= k < it.seq().len() ==> it.seq()[k]@ == items[k],
            entities.deep_view() == item_entities(items.take(it.index() as int)),
    {
        proof {
            assert(items.take(it.index() + 1) =~= items.take(it.index() as int).push(item@));
            lemma_filter_map_push(
                items.take(it.index() as int),
                item@,
                |item: ItemDeclView| item_entity(item),
            );
        }
        match item {
            ItemDecl::Enum => {},
            ItemDecl::Struct(item) => {
                entities.push(struct_parser(item));
            },
            ItemDecl::Trait(item) => {
                entities.push(trait_parser(item));
            },
            ItemDecl::Other => {},
        }
    }
    proof {
        assert(items.take(items.len() as int) =~= items);
    }
    entities
}

} // verus!
