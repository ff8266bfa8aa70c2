//! Reading a `syn` syntax tree into the shapes of [`crate::syntax`].
//!
//! A `syn` value is opaque to the verifier. The functions marked
//! `external_body` below each make one read of such a value: a public field,
//! the variant of an enum, the text of an identifier or of a type's tokens.
//! What such a read returns depends on the value alone, and that is all that
//! is claimed of it: each read has a name for its result, a spec function
//! without a body. The spec functions [`source_file_of`], [`item_decl_of`]
//! and those below them say, over these names, which shapes a tree has; the
//! functions that walk the tree are verified against them.

use crate::entity::Entity;
use crate::laws::{is_struct_node, is_trait_node, lemma_file_entities_are_well_formed};
use crate::parser::{file_entities, file_parser};
use crate::syntax::{
    FieldDecl, FieldDeclView, FieldList, FieldListView, ItemDecl, ItemDeclView, MethodDecl,
    MethodDeclView, Param, ParamView, SourceFile, SourceFileView, StructDecl, StructDeclView,
    TraitDecl, TraitDeclView, TraitMember, TraitMemberView,
};
use vstd::prelude::*;

verus! {

/// `syn::File`: a parsed source file. Its value is carried through unread.
#[verifier::external_type_specification]
#[verifier::external_body]
pub struct ExFile(syn::File);

/// `syn::Item`: one top-level item of a file.
#[verifier::external_type_specification]
#[verifier::external_body]
pub struct ExItem(syn::Item);

/// `syn::Fields`: the field list of a struct.
#[verifier::external_type_specification]
#[verifier::external_body]
pub struct ExFields(syn::Fields);

/// `syn::Field`: one field of a struct.
#[verifier::external_type_specification]
#[verifier::external_body]
pub struct ExField(syn::Field);

/// `syn::TraitItem`: one associated item of a trait.
#[verifier::external_type_specification]
#[verifier::external_body]
pub struct ExTraitItem(syn::TraitItem);

/// `syn::FnArg`: one parameter of a function signature.
#[verifier::external_type_specification]
#[verifier::external_body]
pub struct ExFnArg(syn::FnArg);

/// `syn::Pat`: the pattern of a parameter.
#[verifier::external_type_specification]
#[verifier::external_body]
pub struct ExPat(syn::Pat);

/// `syn::ReturnType`: the return type of a signature, or its absence.
#[verifier::external_type_specification]
#[verifier::external_body]
pub struct ExReturnType(syn::ReturnType);

/// `syn::Type`: a type as it is written.
#[verifier::external_type_specification]
#[verifier::external_body]
pub struct ExType(syn::Type);

/// `syn::Ident`: an identifier, which `syn` has from `proc_macro2`.
#[verifier::external_type_specification]
#[verifier::external_body]
pub struct ExIdent(syn::Ident);

/// What is read of a top-level item: the identifier and the field list of a
/// struct, the identifier and the associated items of a trait.
pub enum ItemShape {
    Struct(syn::Ident, syn::Fields),
    Trait(syn::Ident, Vec<syn::TraitItem>),
    Enum,
    Other,
}

/// What is read of a field list: its fields, where it has any.
pub enum FieldsShape {
    Named(Vec<syn::Field>),
    Unnamed(Vec<syn::Field>),
    Unit,
}

/// What is read of an associated item of a trait: for a method, the
/// identifier, the parameters and the return type of its signature.
pub enum MemberShape {
    Method(syn::Ident, Vec<syn::FnArg>, syn::ReturnType),
    Other,
}

/// What is read of a parameter: for a typed one, its pattern and its type.
pub enum ArgShape {
    Receiver,
    Typed(syn::Pat, syn::Type),
}

/// The top-level items that `file_items` reads of a file.
pub uninterp spec fn file_items_result(file: syn::File) -> Seq<syn::Item>;

/// What `item_shape` reads of an item.
pub uninterp spec fn item_shape_result(item: syn::Item) -> ItemShape;

/// What `fields_shape` reads of a field list.
pub uninterp spec fn fields_shape_result(fields: syn::Fields) -> FieldsShape;

/// The identifier and the type that `field_parts` reads of a field.
pub uninterp spec fn field_parts_result(field: syn::Field) -> (Option<syn::Ident>, syn::Type);

/// What `member_shape` reads of an associated item.
pub uninterp spec fn member_shape_result(item: syn::TraitItem) -> MemberShape;

/// What `arg_shape` reads of a parameter.
pub uninterp spec fn arg_shape_result(arg: syn::FnArg) -> ArgShape;

/// The identifier that `pattern_ident` reads of a pattern, if it is one.
pub uninterp spec fn pattern_ident_result(pat: syn::Pat) -> Option<syn::Ident>;

/// The type that `return_type` reads of a return type, if it names one.
pub uninterp spec fn return_type_result(output: syn::ReturnType) -> Option<syn::Type>;

/// The text that `ident_text` prints of an identifier.
pub uninterp spec fn ident_text_result(ident: syn::Ident) -> Seq<char>;

/// The text that `type_tokens` prints of the tokens of a type.
pub uninterp spec fn type_tokens_result(ty: syn::Type) -> Seq<char>;

/// Moves the public field `items` out of a `syn::File`. The claim: the items
/// depend on the file alone.
#[verifier::external_body]
fn file_items(file: syn::File) -> (items: Vec<syn::Item>)
    ensures
        items@ == file_items_result(file),
{
    file.items
}

/// Tells the variants of `syn::Item` apart and moves out the public fields
/// `ident` and `fields` of a `syn::ItemStruct`, `ident` and `items` of a
/// `syn::ItemTrait`. The claim: what is read depends on the item alone.
#[verifier::external_body]
fn item_shape(item: syn::Item) -> (shape: ItemShape)
    ensures
        shape == item_shape_result(item),
{
    match item {
        syn::Item::Struct(item) => ItemShape::Struct(item.ident, item.fields),
        syn::Item::Trait(item) => ItemShape::Trait(item.ident, item.items),
        syn::Item::Enum(_) => ItemShape::Enum,
        _ => ItemShape::Other,
    }
}

/// Tells the variants of `syn::Fields` apart and collects the fields of the
/// punctuated list `named` of a `syn::FieldsNamed`, or `unnamed` of a
/// `syn::FieldsUnnamed`, in the order in which the list walks them. The
/// claim: what is read depends on the field list alone.
#[verifier::external_body]
fn fields_shape(fields: syn::Fields) -> (shape: FieldsShape)
    ensures
        shape == fields_shape_result(fields),
{
    match fields {
        syn::Fields::Named(fields) => FieldsShape::Named(fields.named.into_iter().collect()),
        syn::Fields::Unnamed(fields) => FieldsShape::Unnamed(
            fields.unnamed.into_iter().collect(),
        ),
        syn::Fields::Unit => FieldsShape::Unit,
    }
}

/// Moves the public fields `ident` and `ty` out of a `syn::Field`. The
/// claim: both depend on the field alone.
#[verifier::external_body]
fn field_parts(field: syn::Field) -> (parts: (Option<syn::Ident>, syn::Type))
    ensures
        parts == field_parts_result(field),
{
    (field.ident, field.ty)
}

/// Tells a `syn::TraitItem::Method` from the other variants and moves the
/// public fields `ident`, `inputs` and `output` out of its signature, the
/// parameters in the order in which the punctuated list walks them. The
/// claim: what is read depends on the associated item alone.
#[verifier::external_body]
fn member_shape(item: syn::TraitItem) -> (shape: MemberShape)
    ensures
        shape == member_shape_result(item),
{
    match item {
        syn::TraitItem::Method(method) => MemberShape::Method(
            method.sig.ident,
            method.sig.inputs.into_iter().collect(),
            method.sig.output,
        ),
        _ => MemberShape::Other,
    }
}

/// Tells the two variants of `syn::FnArg` apart and moves the public fields
/// `pat` and `ty` out of a `syn::PatType`. The claim: what is read depends
/// on the parameter alone.
#[verifier::external_body]
fn arg_shape(arg: syn::FnArg) -> (shape: ArgShape)
    ensures
        shape == arg_shape_result(arg),
{
    match arg {
        syn::FnArg::Receiver(_) => ArgShape::Receiver,
        syn::FnArg::Typed(arg) => ArgShape::Typed(*arg.pat, *arg.ty),
    }
}

/// Tells a `syn::Pat::Ident` from the other variants and moves out the
/// public field `ident` of its `syn::PatIdent`. The claim: what is read
/// depends on the pattern alone.
#[verifier::external_body]
fn pattern_ident(pat: syn::Pat) -> (ident: Option<syn::Ident>)
    ensures
        ident == pattern_ident_result(pat),
{
    match pat {
        syn::Pat::Ident(pat) => Some(pat.ident),
        _ => None,
    }
}

/// Tells the two variants of `syn::ReturnType` apart and moves the type out
/// of `syn::ReturnType::Type`. The claim: what is read depends on the return
/// type alone.
#[verifier::external_body]
fn return_type(output: syn::ReturnType) -> (ty: Option<syn::Type>)
    ensures
        ty == return_type_result(output),
{
    match output {
        syn::ReturnType::Default => None,
        syn::ReturnType::Type(_, ty) => Some(*ty),
    }
}

/// The text of an identifier, as the `Display` impl of `proc_macro2::Ident`
/// prints it. The claim: the text depends on the identifier alone.
#[verifier::external_body]
fn ident_text(ident: &syn::Ident) -> (text: String)
    ensures
        text@ == ident_text_result(*ident),
{
    ident.to_string()
}

/// The text of the tokens of a type: `quote::ToTokens::to_token_stream`,
/// printed by the `Display` impl of `proc_macro2::TokenStream`. The claim:
/// the text depends on the type alone.
#[verifier::external_body]
fn type_tokens(ty: &syn::Type) -> (text: String)
    ensures
        text@ == type_tokens_result(*ty),
{
    quote::ToTokens::to_token_stream(ty).to_string()
}

/// The text of an identifier that may be missing.
pub open spec fn optional_ident_text(ident: Option<syn::Ident>) -> Option<Seq<char>> {
    match ident {
        Some(ident) => Some(ident_text_result(ident)),
        None => None,
    }
}

/// The tokens of a type that may be missing.
pub open spec fn optional_type_tokens(ty: Option<syn::Type>) -> Option<Seq<char>> {
    match ty {
        Some(ty) => Some(type_tokens_result(ty)),
        None => None,
    }
}

/// The shape of a field: the text of its identifier, where it has one, and
/// the text of the tokens of its type.
pub open spec fn field_decl_of(field: syn::Field) -> FieldDeclView {
    FieldDeclView {
        ident: optional_ident_text(field_parts_result(field).0),
        ty: type_tokens_result(field_parts_result(field).1),
    }
}

/// The shapes of the fields of a list, in order.
pub open spec fn field_decls_of(fields: Seq<syn::Field>) -> Seq<FieldDeclView> {
    fields.map_values(|field: syn::Field| field_decl_of(field))
}

/// The shape of a field list: named, unnamed or unit as the list is, with
/// the shapes of its fields in order.
pub open spec fn field_list_of(fields: syn::Fields) -> FieldListView {
    match fields_shape_result(fields) {
        FieldsShape::Named(fields) => FieldListView::Named(field_decls_of(fields@)),
        FieldsShape::Unnamed(fields) => FieldListView::Unnamed(field_decls_of(fields@)),
        FieldsShape::Unit => FieldListView::Unit,
    }
}

/// The shape of a parameter: the receiver as such; a typed parameter with
/// the tokens of its type, and with the text of its identifier where its
/// pattern is a plain identifier.
pub open spec fn param_of(arg: syn::FnArg) -> ParamView {
    match arg_shape_result(arg) {
        ArgShape::Receiver => ParamView::Receiver,
        ArgShape::Typed(pat, ty) => match pattern_ident_result(pat) {
            Some(ident) => ParamView::Named {
                ident: ident_text_result(ident),
                ty: type_tokens_result(ty),
            },
            None => ParamView::Pattern { ty: type_tokens_result(ty) },
        },
    }
}

/// The shapes of the parameters of a method, in order.
pub open spec fn params_of(args: Seq<syn::FnArg>) -> Seq<ParamView> {
    args.map_values(|arg: syn::FnArg| param_of(arg))
}

/// The shape of an associated item of a trait: a method with the text of
/// its identifier, the shapes of its parameters and the tokens of its return
/// type, where it names one; any other associated item as such.
pub open spec fn trait_member_of(item: syn::TraitItem) -> TraitMemberView {
    match member_shape_result(item) {
        MemberShape::Method(ident, inputs, output) => TraitMemberView::Method(
            MethodDeclView {
                ident: ident_text_result(ident),
                inputs: params_of(inputs@),
                output: optional_type_tokens(return_type_result(output)),
            },
        ),
        MemberShape::Other => TraitMemberView::Other,
    }
}

/// The shapes of the associated items of a trait, in order.
pub open spec fn trait_members_of(items: Seq<syn::TraitItem>) -> Seq<TraitMemberView> {
    items.map_values(|item: syn::TraitItem| trait_member_of(item))
}

/// The shape of a top-level item: a struct with the text of its identifier
/// and the shape of its field list, a trait with the text of its identifier
/// and the shapes of its associated items, an enum or any other item as no
/// more than its kind.
pub open spec fn item_decl_of(item: syn::Item) -> ItemDeclView {
    match item_shape_result(item) {
        ItemShape::Struct(ident, fields) => ItemDeclView::Struct(
            StructDeclView { ident: ident_text_result(ident), fields: field_list_of(fields) },
        ),
        ItemShape::Trait(ident, items) => ItemDeclView::Trait(
            TraitDeclView { ident: ident_text_result(ident), items: trait_members_of(items@) },
        ),
        ItemShape::Enum => ItemDeclView::Enum,
        ItemShape::Other => ItemDeclView::Other,
    }
}

/// The shapes of a list of top-level items, in order.
pub open spec fn item_decls_of(items: Seq<syn::Item>) -> Seq<ItemDeclView> {
    items.map_values(|item: syn::Item| item_decl_of(item))
}

/// The shape of a parsed file: the shapes of its top-level items, in source
/// order.
pub open spec fn source_file_of(file: syn::File) -> SourceFileView {
    SourceFileView { items: item_decls_of(file_items_result(file)) }
}

/// Reads one field: its name, where it has one, and the tokens of its type.
fn field_decl(field: syn::Field) -> (result: FieldDecl)
    ensures
        result@ == field_decl_of(field),
{
    let (ident, ty) = field_parts(field);
    let ident = match ident {
        Some(ident) => Some(ident_text(&ident)),
        None => None,
    };
    FieldDecl { ident, ty: type_tokens(&ty) }
}

/// Reads the fields of a list, one by one, in order.
fn field_decls(fields: Vec<syn::Field>) -> (result: Vec<FieldDecl>)
    ensures
        result.deep_view() == field_decls_of(fields@),
{
    let ghost all = fields@;
    let mut result: Vec<FieldDecl> = Vec::new();
    for field in it: fields
        invariant
            it.seq() == all,
            result.deep_view() == field_decls_of(all.take(it.index() as int)),
    {
        let ghost before = result.deep_view();
        let decl = field_decl(field);
        result.push(decl);
        proof {
            assert(all.take(it.index() + 1) =~= all.take(it.index() as int).push(field));
            assert(result.deep_view() =~= before.push(field_decl_of(field)));
            assert(result.deep_view() =~= field_decls_of(all.take(it.index() + 1)));
        }
    }
    proof {
        assert(all.take(all.len() as int) =~= all);
    }
    result
}

/// Reads a field list.
fn field_list(fields: syn::Fields) -> (result: FieldList)
    ensures
        result@ == field_list_of(fields),
{
    match fields_shape(fields) {
        FieldsShape::Named(fields) => FieldList::Named(field_decls(fields)),
        FieldsShape::Unnamed(fields) => FieldList::Unnamed(field_decls(fields)),
        FieldsShape::Unit => FieldList::Unit,
    }
}

/// Reads one parameter. A typed parameter is named where its pattern is a
/// plain identifier.
fn param(arg: syn::FnArg) -> (result: Param)
    ensures
        result@ == param_of(arg),
{
    match arg_shape(arg) {
        ArgShape::Receiver => Param::Receiver,
        ArgShape::Typed(pat, ty) => {
            let ty = type_tokens(&ty);
            match pattern_ident(pat) {
                Some(ident) => Param::Named { ident: ident_text(&ident), ty },
                None => Param::Pattern { ty },
            }
        },
    }
}

/// Reads the parameters of a method, one by one, in order.
fn params(args: Vec<syn::FnArg>) -> (result: Vec<Param>)
    ensures
        result.deep_view() == params_of(args@),
{
    let ghost all = args@;
    let mut result: Vec<Param> = Vec::new();
    for arg in it: args
        invariant
            it.seq() == all,
            result.deep_view() == params_of(all.take(it.index() as int)),
    {
        let ghost before = result.deep_view();
        let read = param(arg);
        result.push(read);
        proof {
            assert(all.take(it.index() + 1) =~= all.take(it.index() as int).push(arg));
            assert(result.deep_view() =~= before.push(param_of(arg)));
            assert(result.deep_view() =~= params_of(all.take(it.index() + 1)));
        }
    }
    proof {
        assert(all.take(all.len() as int) =~= all);
    }
    result
}

/// Reads one associated item of a trait.
fn trait_member(item: syn::TraitItem) -> (result: TraitMember)
    ensures
        result@ == trait_member_of(item),
{
    match member_shape(item) {
        MemberShape::Method(ident, inputs, output) => {
            let output = match return_type(output) {
                Some(ty) => Some(type_tokens(&ty)),
                None => None,
            };
            TraitMember::Method(
                MethodDecl { ident: ident_text(&ident), inputs: params(inputs), output },
            )
        },
        MemberShape::Other => TraitMember::Other,
    }
}

/// Reads the associated items of a trait, one by one, in order.
fn trait_members(items: Vec<syn::TraitItem>) -> (result: Vec<TraitMember>)
    ensures
        result.deep_view() == trait_members_of(items@),
{
    let ghost all = items@;
    let mut result: Vec<TraitMember> = Vec::new();
    for item in it: items
        invariant
            it.seq() == all,
            result.deep_view() == trait_members_of(all.take(it.index() as int)),
    {
        let ghost before = result.deep_view();
        let member = trait_member(item);
        result.push(member);
        proof {
            assert(all.take(it.index() + 1) =~= all.take(it.index() as int).push(item));
            assert(result.deep_view() =~= before.push(trait_member_of(item)));
            assert(result.deep_view() =~= trait_members_of(all.take(it.index() + 1)));
        }
    }
    proof {
        assert(all.take(all.len() as int) =~= all);
    }
    result
}

/// Reads one top-level item: a struct or a trait with what the extraction
/// needs of it, an enum or any other item as no more than its kind.
fn item_decl(item: syn::Item) -> (result: ItemDecl)
    ensures
        result@ == item_decl_of(item),
{
    match item_shape(item) {
        ItemShape::Struct(ident, fields) => ItemDecl::Struct(
            StructDecl { ident: ident_text(&ident), fields: field_list(fields) },
        ),
        ItemShape::Trait(ident, items) => ItemDecl::Trait(
            TraitDecl { ident: ident_text(&ident), items: trait_members(items) },
        ),
        ItemShape::Enum => ItemDecl::Enum,
        ItemShape::Other => ItemDecl::Other,
    }
}

/// Reads a parsed file: its top-level items, one by one, in source order.
pub fn source_file(file: syn::File) -> (result: SourceFile)
    ensures
        result@ == source_file_of(file),
{
    let items = file_items(file);
    let ghost all = items@;
    let mut result: Vec<ItemDecl> = Vec::new();
    for item in it: items
        invariant
            it.seq() == all,
            result.deep_view() == item_decls_of(all.take(it.index() as int)),
    {
        let ghost before = result.deep_view();
        let decl = item_decl(item);
        result.push(decl);
        proof {
            assert(all.take(it.index() + 1) =~= all.take(it.index() as int).push(item));
            assert(result.deep_view() =~= before.push(item_decl_of(item)));
            assert(result.deep_view() =~= item_decls_of(all.take(it.index() + 1)));
        }
    }
    proof {
        assert(all.take(all.len() as int) =~= all);
    }
    SourceFile { items: result }
}

/// Extracts the entities of a parsed file: reads the tree with
/// [`source_file`] and hands what was read to [`file_parser`]. The result
/// is the extraction of the shapes of the tree, and so each entity is a
/// struct node or a trait node.
pub fn extract(file: syn::File) -> (result: Vec<Entity>)
    ensures
        result.deep_view() == file_entities(source_file_of(file)),
        forall|i: int|
            0 <= i < result.len() ==> is_struct_node(#[trigger] result[i]@) || is_trait_node(
                result[i]@,
            ),
{
    let tree = source_file(file);
    let ghost shapes = tree@;
    let result = file_parser(tree);
    proof {
        lemma_file_entities_are_well_formed(shapes);
        assert forall|i: int| 0 <= i < result.len() implies is_struct_node(#[trigger] result[i]@)
            || is_trait_node(result[i]@) by {
            assert(result.deep_view()[i] == result[i]@);
        }
    }
    result
}

} // verus!
