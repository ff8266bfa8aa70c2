//! What holds of the extraction on every input, proved from the spec
//! functions that the contracts of [`crate::parser`] and [`crate::text`]
//! speak of.

use crate::entity::{Entity, EntityKind, EntityView};
use crate::parser::{
    dependency_entity, field_entity, field_tag, file_entities, item_entities, item_entity,
    lemma_filter_map_push, member_entities, member_entity, method_summary, rendered_type,
    struct_entity, trait_entity,
};
use crate::syntax::{
    FieldDeclView, FieldListView, ItemDeclView, SourceFile, SourceFileView, StructDeclView,
    TraitDeclView, TraitMemberView,
};
use crate::text::{
    fragments, has_delimiter, is_delimiter, kept_pieces, lemma_kept_pieces_push,
    lemma_without_spaces_push, split_at_delimiters, without_spaces,
};
use vstd::prelude::*;

verus! {

/// Whether `text` holds a space character.
pub open spec fn has_space(text: Seq<char>) -> bool {
    exists|i: int| 0 <= i < text.len() && #[trigger] text[i] == ' '
}

/// The delimiters of `text`, in the order of the text.
pub open spec fn delimiters_of(text: Seq<char>) -> Seq<char>
    decreases text.len(),
{
    if text.len() == 0 {
        Seq::<char>::empty()
    } else if is_delimiter(text.last()) {
        delimiters_of(text.drop_last()).push(text.last())
    } else {
        delimiters_of(text.drop_last())
    }
}

/// The pieces in order, with one of the delimiters between each two
/// neighbours: the first piece, the first delimiter, the second piece, and
/// so on. It is meant for one piece more than there are delimiters.
pub open spec fn interleave(pieces: Seq<Seq<char>>, delimiters: Seq<char>) -> Seq<char>
    decreases pieces.len(),
{
    if pieces.len() == 0 {
        Seq::<char>::empty()
    } else if pieces.len() == 1 {
        pieces[0]
    } else {
        interleave(pieces.drop_last(), delimiters.drop_last()).push(delimiters.last())
            + pieces.last()
    }
}

/// An anonymous node without children: a method summary, or one fragment of
/// a type spelling.
pub open spec fn is_leaf(entity: EntityView) -> bool {
    entity.kind == EntityKind::Field(Seq::<char>::empty()) && entity.fields.len() == 0
}

/// The decomposition node of the type spelled `spelling`: tagged as a
/// struct, named by the spelling, with leaves as its only children.
pub open spec fn is_dependency_node(entity: EntityView, spelling: Seq<char>) -> bool {
    &&& entity.kind == EntityKind::Struct
    &&& entity.name == spelling
    &&& forall|i: int| 0 <= i < entity.fields.len() ==> is_leaf(#[trigger] entity.fields[i])
}

/// A field node: at most one child, and that child is the decomposition of
/// the type that names the node.
pub open spec fn is_field_node(entity: EntityView) -> bool {
    &&& entity.kind is Field
    &&& entity.fields.len() <= 1
    &&& entity.fields.len() == 1 ==> is_dependency_node(entity.fields[0], entity.name)
}

/// A struct node: every child is a field node.
pub open spec fn is_struct_node(entity: EntityView) -> bool {
    &&& entity.kind == EntityKind::Struct
    &&& forall|i: int| 0 <= i < entity.fields.len() ==> is_field_node(#[trigger] entity.fields[i])
}

/// A trait node: every child is a leaf.
pub open spec fn is_trait_node(entity: EntityView) -> bool {
    &&& entity.kind == EntityKind::Trait
    &&& forall|i: int| 0 <= i < entity.fields.len() ==> is_leaf(#[trigger] entity.fields[i])
}

/// How many of the associated items of a trait are methods.
pub open spec fn method_count(members: Seq<TraitMemberView>) -> nat
    decreases members.len(),
{
    if members.len() == 0 {
        0
    } else {
        method_count(members.drop_last()) + if members.last() is Method {
            1nat
        } else {
            0nat
        }
    }
}

/// How many of the items are structs or traits.
pub open spec fn struct_and_trait_count(items: Seq<ItemDeclView>) -> nat
    decreases items.len(),
{
    if items.len() == 0 {
        0
    } else {
        struct_and_trait_count(items.drop_last()) + if items.last() is Struct || items.last()
            is Trait {
            1nat
        } else {
            0nat
        }
    }
}

/// A text without its spaces holds no space, and no character that the text
/// did not hold: where the text has no delimiter, neither has the result.
pub proof fn lemma_without_spaces_is_clean(text: Seq<char>)
    ensures
        !has_space(without_spaces(text)),
        has_delimiter(without_spaces(text)) == has_delimiter(text),
        without_spaces(text).len() <= text.len(),
    decreases text.len(),
{
    if text.len() > 0 {
        let rest = text.drop_last();
        let c = text.last();
        let stripped = without_spaces(text);
        let before = without_spaces(rest);
        lemma_without_spaces_is_clean(rest);
        lemma_without_spaces_push(rest, c);
        assert(text =~= rest.push(c));
        // A space or a delimiter of the result stands in what came of `rest`,
        // or it is `c`.
        if has_space(stripped) {
            let i = choose|i: int| 0 <= i < stripped.len() && #[trigger] stripped[i] == ' ';
            assert(i < before.len() ==> before[i] == ' ');
        }
        if has_delimiter(stripped) {
            let i = choose|i: int| 0 <= i < stripped.len() && is_delimiter(#[trigger] stripped[i]);
            assert(i < before.len() ==> is_delimiter(before[i]));
        }
        // A delimiter of the text stands in `rest`, and so in what came of
        // it, or it is `c`, which is kept.
        if has_delimiter(text) {
            let j = choose|j: int| 0 <= j < text.len() && is_delimiter(#[trigger] text[j]);
            if j < rest.len() {
                assert(is_delimiter(rest[j]));
                let i = choose|i: int| 0 <= i < before.len() && is_delimiter(#[trigger] before[i]);
                assert(is_delimiter(stripped[i]));
            } else {
                assert(is_delimiter(stripped[stripped.len() - 1]));
            }
        }
    }
}

/// A text that holds no space is its own rendering.
pub proof fn lemma_without_spaces_of_clean_text(text: Seq<char>)
    requires
        !has_space(text),
    ensures
        without_spaces(text) == text,
    decreases text.len(),
{
    if text.len() > 0 {
        let rest = text.drop_last();
        let c = text.last();
        assert(text =~= rest.push(c));
        assert(!has_space(rest)) by {
            if has_space(rest) {
                let i = choose|i: int| 0 <= i < rest.len() && #[trigger] rest[i] == ' ';
                assert(text[i] == ' ');
            }
        }
        assert(text[text.len() - 1] != ' ');
        lemma_without_spaces_of_clean_text(rest);
        lemma_without_spaces_push(rest, c);
    }
}

/// Rendering a type twice gives what rendering it once gives.
pub proof fn lemma_rendering_is_idempotent(tokens: Seq<char>)
    ensures
        rendered_type(rendered_type(tokens)) == rendered_type(tokens),
        !has_space(rendered_type(tokens)),
{
    lemma_without_spaces_is_clean(tokens);
    lemma_without_spaces_of_clean_text(without_spaces(tokens));
}

/// A text splits into one piece more than it has delimiters, no piece holds
/// a delimiter, and the pieces with the delimiters put back between them are
/// the text. No other list of pieces meets all three.
pub proof fn lemma_split_pieces(text: Seq<char>)
    ensures
        split_at_delimiters(text).len() == delimiters_of(text).len() + 1,
        forall|i: int|
            0 <= i < split_at_delimiters(text).len() ==> !has_delimiter(
                #[trigger] split_at_delimiters(text)[i],
            ),
        interleave(split_at_delimiters(text), delimiters_of(text)) == text,
    decreases text.len(),
{
    let pieces = split_at_delimiters(text);
    if text.len() > 0 {
        let rest = text.drop_last();
        let c = text.last();
        let before = split_at_delimiters(rest);
        lemma_split_pieces(rest);
        assert(text =~= rest.push(c));
        assert forall|i: int| 0 <= i < pieces.len() implies !has_delimiter(#[trigger] pieces[i]) by {
            if i == pieces.len() - 1 && !is_delimiter(c) {
                // The last piece grew by `c`, which is no delimiter.
                let grown = before.last().push(c);
                if has_delimiter(grown) {
                    let k = choose|k: int| 0 <= k < grown.len() && is_delimiter(#[trigger] grown[k]);
                    assert(k < before.last().len() ==> is_delimiter(before.last()[k]));
                }
            }
        }
        if is_delimiter(c) {
            assert(pieces.drop_last() =~= before);
            assert(delimiters_of(text).drop_last() =~= delimiters_of(rest));
        } else if before.len() > 1 {
            assert(pieces.drop_last() =~= before.drop_last());
        }
    }
}

/// Two lists of pieces without delimiters that give one text, with one list
/// of delimiters put between them, are one list.
pub proof fn lemma_interleave_is_injective(
    first: Seq<Seq<char>>,
    second: Seq<Seq<char>>,
    delimiters: Seq<char>,
)
    requires
        first.len() == delimiters.len() + 1,
        second.len() == delimiters.len() + 1,
        forall|i: int| 0 <= i < delimiters.len() ==> is_delimiter(#[trigger] delimiters[i]),
        forall|i: int| 0 <= i < first.len() ==> !has_delimiter(#[trigger] first[i]),
        forall|i: int| 0 <= i < second.len() ==> !has_delimiter(#[trigger] second[i]),
        interleave(first, delimiters) == interleave(second, delimiters),
    ensures
        first == second,
    decreases delimiters.len(),
{
    if delimiters.len() == 0 {
        assert(first =~= second);
    } else {
        let a = first.last();
        let b = second.last();
        let d = delimiters.last();
        let left = interleave(first.drop_last(), delimiters.drop_last()).push(d);
        let right = interleave(second.drop_last(), delimiters.drop_last()).push(d);
        let whole = interleave(first, delimiters);
        assert(whole == left + a);
        assert(whole == right + b);
        // The last delimiter of the whole text stands just before the last
        // piece: were one of the two last pieces longer, it would hold it.
        if a.len() < b.len() {
            assert(whole[left.len() - 1] == d);
            assert(is_delimiter(b[b.len() - a.len() - 1]));
        }
        if b.len() < a.len() {
            assert(whole[right.len() - 1] == d);
            assert(is_delimiter(a[a.len() - b.len() - 1]));
        }
        assert(a =~= b) by {
            assert forall|k: int| 0 <= k < a.len() implies a[k] == b[k] by {
                assert(whole[left.len() + k] == a[k]);
            }
        }
        assert(left =~= right) by {
            assert forall|k: int| 0 <= k < left.len() implies left[k] == right[k] by {
                assert(whole[k] == left[k]);
            }
        }
        // What stands before the last delimiter is put together of the other
        // pieces, which are therefore the same.
        assert(left.drop_last() == interleave(first.drop_last(), delimiters.drop_last()));
        assert(right.drop_last() == interleave(second.drop_last(), delimiters.drop_last()));
        lemma_interleave_is_injective(first.drop_last(), second.drop_last(), delimiters.drop_last());
        assert(first =~= first.drop_last().push(a));
        assert(second =~= second.drop_last().push(b));
    }
}

/// A text holds a delimiter just when its list of delimiters is not empty.
pub proof fn lemma_has_delimiter_counts(text: Seq<char>)
    ensures
        has_delimiter(text) == (delimiters_of(text).len() > 0),
    decreases text.len(),
{
    if text.len() > 0 {
        let rest = text.drop_last();
        lemma_has_delimiter_counts(rest);
        if has_delimiter(rest) {
            let i = choose|i: int| 0 <= i < rest.len() && is_delimiter(#[trigger] rest[i]);
            assert(is_delimiter(text[i]));
        }
        if is_delimiter(text.last()) {
            assert(is_delimiter(text[text.len() - 1]));
        }
        if has_delimiter(text) {
            let i = choose|i: int| 0 <= i < text.len() && is_delimiter(#[trigger] text[i]);
            assert(i < rest.len() ==> is_delimiter(rest[i]));
        }
    }
}

/// The pieces of a text without spaces hold no space.
pub proof fn lemma_split_of_clean_text(text: Seq<char>)
    requires
        !has_space(text),
    ensures
        forall|i: int|
            0 <= i < split_at_delimiters(text).len() ==> !has_space(
                #[trigger] split_at_delimiters(text)[i],
            ),
    decreases text.len(),
{
    let pieces = split_at_delimiters(text);
    if text.len() > 0 {
        let rest = text.drop_last();
        let c = text.last();
        let before = split_at_delimiters(rest);
        assert(!has_space(rest)) by {
            if has_space(rest) {
                let i = choose|i: int| 0 <= i < rest.len() && #[trigger] rest[i] == ' ';
                assert(text[i] == ' ');
            }
        }
        assert(text[text.len() - 1] != ' ');
        lemma_split_of_clean_text(rest);
        assert forall|i: int| 0 <= i < pieces.len() implies !has_space(#[trigger] pieces[i]) by {
            if i == pieces.len() - 1 && !is_delimiter(c) {
                // The last piece grew by `c`, which is no space.
                let grown = before.last().push(c);
                if has_space(grown) {
                    let k = choose|k: int| 0 <= k < grown.len() && #[trigger] grown[k] == ' ';
                    assert(k < before.last().len() ==> before.last()[k] == ' ');
                }
            }
        }
    }
}

/// A text without a delimiter is one piece: itself.
pub proof fn lemma_split_without_delimiter(text: Seq<char>)
    requires
        !has_delimiter(text),
    ensures
        split_at_delimiters(text) == seq![text],
    decreases text.len(),
{
    if text.len() == 0 {
        assert(text =~= Seq::<char>::empty());
    } else {
        let rest = text.drop_last();
        assert(!has_delimiter(rest)) by {
            if has_delimiter(rest) {
                let i = choose|i: int| 0 <= i < rest.len() && is_delimiter(#[trigger] rest[i]);
                assert(is_delimiter(text[i]));
            }
        }
        assert(!is_delimiter(text[text.len() - 1]));
        lemma_split_without_delimiter(rest);
        assert(rest.push(text.last()) =~= text);
    }
}

/// What is kept of a list of pieces holds no space, and no delimiter where
/// the pieces hold none; and no more is kept than there are pieces.
pub proof fn lemma_kept_pieces_are_clean(pieces: Seq<Seq<char>>)
    requires
        forall|i: int| 0 <= i < pieces.len() ==> !has_delimiter(#[trigger] pieces[i]),
    ensures
        kept_pieces(pieces).len() <= pieces.len(),
        forall|i: int|
            0 <= i < kept_pieces(pieces).len() ==> !has_delimiter(#[trigger] kept_pieces(pieces)[i])
                && !has_space(kept_pieces(pieces)[i]),
    decreases pieces.len(),
{
    if pieces.len() > 0 {
        let rest = pieces.drop_last();
        let piece = pieces.last();
        assert(pieces =~= rest.push(piece));
        assert(!has_delimiter(pieces[pieces.len() - 1]));
        lemma_kept_pieces_are_clean(rest);
        lemma_kept_pieces_push(rest, piece);
        lemma_without_spaces_is_clean(piece);
    }
}

/// Of pieces without spaces, what is kept is the pieces that are not
/// empty, unchanged: nothing kept is empty.
pub proof fn lemma_kept_pieces_of_clean_pieces(pieces: Seq<Seq<char>>)
    requires
        forall|i: int| 0 <= i < pieces.len() ==> !has_space(#[trigger] pieces[i]),
    ensures
        forall|i: int| 0 <= i < kept_pieces(pieces).len() ==> (#[trigger] kept_pieces(
            pieces,
        )[i]).len() > 0,
    decreases pieces.len(),
{
    if pieces.len() > 0 {
        let rest = pieces.drop_last();
        let piece = pieces.last();
        assert(pieces =~= rest.push(piece));
        assert(!has_space(pieces[pieces.len() - 1]));
        lemma_kept_pieces_of_clean_pieces(rest);
        lemma_kept_pieces_push(rest, piece);
        lemma_without_spaces_of_clean_text(piece);
    }
}

/// A rendered type holds no space, so none of its fragments is empty: an
/// empty fragment comes only of a piece made of spaces.
pub proof fn lemma_fragments_of_rendered_type(tokens: Seq<char>)
    ensures
        forall|i: int|
            0 <= i < fragments(rendered_type(tokens)).len() ==> (#[trigger] fragments(
                rendered_type(tokens),
            )[i]).len() > 0,
{
    let spelling = rendered_type(tokens);
    lemma_without_spaces_is_clean(tokens);
    lemma_split_of_clean_text(spelling);
    lemma_kept_pieces_of_clean_pieces(split_at_delimiters(spelling));
}

/// The fragments of a type spelling hold neither a delimiter nor a space,
/// and there is at most one fragment more than the spelling has delimiters.
pub proof fn lemma_fragments_are_clean(spelling: Seq<char>)
    ensures
        fragments(spelling).len() <= delimiters_of(spelling).len() + 1,
        forall|i: int|
            0 <= i < fragments(spelling).len() ==> !has_delimiter(#[trigger] fragments(spelling)[i])
                && !has_space(fragments(spelling)[i]),
{
    lemma_split_pieces(spelling);
    lemma_kept_pieces_are_clean(split_at_delimiters(spelling));
}

/// A non-empty spelling without a delimiter has one fragment: the spelling
/// without its spaces. The empty spelling has none.
pub proof fn lemma_fragments_without_delimiter(spelling: Seq<char>)
    requires
        !has_delimiter(spelling),
    ensures
        fragments(spelling) == if spelling.len() > 0 {
            seq![without_spaces(spelling)]
        } else {
            Seq::<Seq<char>>::empty()
        },
{
    lemma_split_without_delimiter(spelling);
    lemma_kept_pieces_push(Seq::<Seq<char>>::empty(), spelling);
    assert(Seq::<Seq<char>>::empty().push(spelling) =~= seq![spelling]);
    if spelling.len() > 0 {
        assert(Seq::<Seq<char>>::empty().push(without_spaces(spelling)) =~= seq![
            without_spaces(spelling),
        ]);
    }
}

/// The decomposition of a type spelling is a struct node named by the whole
/// spelling, with one leaf per fragment, named by the fragment, in order. No
/// fragment is decomposed again.
pub proof fn lemma_dependency_entity_shape(spelling: Seq<char>)
    ensures
        is_dependency_node(dependency_entity(spelling), spelling),
        dependency_entity(spelling).fields.len() == fragments(spelling).len(),
        forall|i: int|
            0 <= i < fragments(spelling).len() ==> (#[trigger] dependency_entity(
                spelling,
            ).fields[i]).name == fragments(spelling)[i],
{
}

/// A field whose rendered type holds a delimiter has exactly one child, the
/// decomposition of the rendered type; any other field has no child. Either
/// way the node is tagged with the field's name and named by the rendered
/// type.
pub proof fn lemma_field_entity_shape(field: FieldDeclView)
    ensures
        is_field_node(field_entity(field)),
        field_entity(field).kind == EntityKind::Field(field_tag(field.ident)),
        field_entity(field).name == rendered_type(field.ty),
        has_delimiter(rendered_type(field.ty)) ==> field_entity(field).fields == seq![
            dependency_entity(rendered_type(field.ty)),
        ],
        !has_delimiter(rendered_type(field.ty)) ==> field_entity(field).fields.len() == 0,
        has_delimiter(rendered_type(field.ty)) == has_delimiter(field.ty),
{
    lemma_without_spaces_is_clean(field.ty);
}

/// A struct with named fields gives a struct entity named after it, with one
/// child per field in declaration order: the child is tagged with the
/// field's name and named by the field's rendered type.
pub proof fn lemma_struct_with_named_fields(item: StructDeclView)
    requires
        item.fields is Named,
    ensures
        struct_entity(item).kind == EntityKind::Struct,
        struct_entity(item).name == item.ident,
        struct_entity(item).fields.len() == item.fields->Named_0.len(),
        forall|i: int|
            0 <= i < item.fields->Named_0.len() ==> {
                &&& (#[trigger] struct_entity(item).fields[i]) == field_entity(
                    item.fields->Named_0[i],
                )
                &&& struct_entity(item).fields[i].kind == EntityKind::Field(
                    field_tag(item.fields->Named_0[i].ident),
                )
                &&& struct_entity(item).fields[i].name == rendered_type(item.fields->Named_0[i].ty)
            },
{
}

/// A tuple struct and a unit struct give a struct entity named after them,
/// without children.
pub proof fn lemma_struct_without_named_fields(item: StructDeclView)
    requires
        !(item.fields is Named),
    ensures
        struct_entity(item).kind == EntityKind::Struct,
        struct_entity(item).name == item.ident,
        struct_entity(item).fields.len() == 0,
{
}

/// Every struct entity is a struct node: each child is a field node.
pub proof fn lemma_struct_entity_is_struct_node(item: StructDeclView)
    ensures
        is_struct_node(struct_entity(item)),
{
    let entity = struct_entity(item);
    assert forall|i: int| 0 <= i < entity.fields.len() implies is_field_node(
        #[trigger] entity.fields[i],
    ) by {
        if let FieldListView::Named(named) = item.fields {
            lemma_field_entity_shape(named[i]);
        }
    }
}

/// The children that the associated items of a trait give are as many as
/// the methods among them, and each is a leaf.
pub proof fn lemma_member_entities_shape(members: Seq<TraitMemberView>)
    ensures
        member_entities(members).len() == method_count(members),
        forall|i: int|
            0 <= i < member_entities(members).len() ==> is_leaf(
                #[trigger] member_entities(members)[i],
            ),
    decreases members.len(),
{
    if members.len() > 0 {
        let rest = members.drop_last();
        lemma_member_entities_shape(rest);
        assert(members =~= rest.push(members.last()));
        lemma_filter_map_push(
            rest,
            members.last(),
            |member: TraitMemberView| member_entity(member),
        );
    }
}

/// A trait gives a trait entity named after it, with as many children as it
/// has methods: associated constants, types and other items give none.
pub proof fn lemma_trait_child_count(item: TraitDeclView)
    ensures
        trait_entity(item).kind == EntityKind::Trait,
        trait_entity(item).name == item.ident,
        trait_entity(item).fields.len() == method_count(item.items),
        is_trait_node(trait_entity(item)),
{
    lemma_member_entities_shape(item.items);
}

/// A trait of methods alone has one child per method, in declaration order,
/// each named by the summary of its method.
pub proof fn lemma_trait_of_methods(item: TraitDeclView)
    requires
        forall|i: int| 0 <= i < item.items.len() ==> (#[trigger] item.items[i]) is Method,
    ensures
        trait_entity(item).fields.len() == item.items.len(),
        forall|i: int|
            0 <= i < item.items.len() ==> (#[trigger] trait_entity(item).fields[i])
                == EntityView::leaf(method_summary(item.items[i]->Method_0)),
    decreases item.items.len(),
{
    let members = item.items;
    if members.len() > 0 {
        let rest = TraitDeclView { ident: item.ident, items: members.drop_last() };
        lemma_trait_of_methods(rest);
        assert(members =~= rest.items.push(members.last()));
        assert(members[members.len() - 1] is Method);
        lemma_filter_map_push(
            rest.items,
            members.last(),
            |member: TraitMemberView| member_entity(member),
        );
    }
}

/// A file gives as many entities as it has structs and traits: none is
/// left out or merged with another, whatever their names.
pub proof fn lemma_file_entity_count(file: SourceFileView)
    ensures
        file_entities(file).len() == struct_and_trait_count(file.items),
    decreases file.items.len(),
{
    let items = file.items;
    if items.len() > 0 {
        let rest = SourceFileView { items: items.drop_last() };
        lemma_file_entity_count(rest);
        assert(items =~= rest.items.push(items.last()));
        lemma_filter_map_push(rest.items, items.last(), |item: ItemDeclView| item_entity(item));
    }
}

/// The entities of two lists of items, one after the other, are the
/// entities of the first followed by those of the second: what an item
/// gives does not depend on its neighbours.
pub proof fn lemma_item_entities_concat(first: Seq<ItemDeclView>, second: Seq<ItemDeclView>)
    ensures
        item_entities(first + second) == item_entities(first) + item_entities(second),
    decreases second.len(),
{
    if second.len() == 0 {
        assert(first + second =~= first);
    } else {
        let rest = second.drop_last();
        let last = second.last();
        lemma_item_entities_concat(first, rest);
        assert(first + second =~= (first + rest).push(last));
        assert(second =~= rest.push(last));
        lemma_filter_map_push(first + rest, last, |item: ItemDeclView| item_entity(item));
        lemma_filter_map_push(rest, last, |item: ItemDeclView| item_entity(item));
        assert(item_entities(first + second) =~= item_entities(first) + item_entities(second));
    }
}

/// One item alone gives its own entity, or nothing.
pub proof fn lemma_item_entities_of_one(item: ItemDeclView)
    ensures
        item_entities(seq![item]) == match item_entity(item) {
            Some(entity) => seq![entity],
            None => Seq::<EntityView>::empty(),
        },
{
    lemma_filter_map_push(
        Seq::<ItemDeclView>::empty(),
        item,
        |item: ItemDeclView| item_entity(item),
    );
    assert(Seq::<ItemDeclView>::empty().push(item) =~= seq![item]);
}

/// An enum gives no entity, wherever it stands, and changes nothing of what
/// the other items give: the entities of the file are those of the file
/// without the enum.
pub proof fn lemma_enum_changes_nothing(file: SourceFileView, i: int)
    requires
        0 <= i < file.items.len(),
        file.items[i] is Enum,
    ensures
        file_entities(file) == file_entities(SourceFileView { items: file.items.remove(i) }),
{
    let items = file.items;
    let before = items.take(i);
    let after = items.skip(i + 1);
    assert(items =~= before + seq![items[i]] + after);
    assert(items.remove(i) =~= before + after);
    lemma_item_entities_of_one(items[i]);
    lemma_item_entities_concat(before, seq![items[i]]);
    lemma_item_entities_concat(before + seq![items[i]], after);
    lemma_item_entities_concat(before, after);
}

/// A file of enums alone gives no entity.
pub proof fn lemma_enums_give_nothing(file: SourceFileView)
    requires
        forall|i: int| 0 <= i < file.items.len() ==> (#[trigger] file.items[i]) is Enum,
    ensures
        file_entities(file).len() == 0,
    decreases file.items.len(),
{
    let items = file.items;
    if items.len() > 0 {
        let rest = SourceFileView { items: items.drop_last() };
        lemma_enums_give_nothing(rest);
        assert(items =~= rest.items.push(items.last()));
        assert(items[items.len() - 1] is Enum);
        lemma_filter_map_push(rest.items, items.last(), |item: ItemDeclView| item_entity(item));
    }
}

/// Every entity of a file is a struct node or a trait node, and there are
/// no more entities than items.
pub proof fn lemma_file_entities_are_well_formed(file: SourceFileView)
    ensures
        file_entities(file).len() <= file.items.len(),
        forall|i: int|
            0 <= i < file_entities(file).len() ==> is_struct_node(#[trigger] file_entities(file)[i])
                || is_trait_node(file_entities(file)[i]),
    decreases file.items.len(),
{
    let items = file.items;
    if items.len() > 0 {
        let rest = SourceFileView { items: items.drop_last() };
        lemma_file_entities_are_well_formed(rest);
        assert(items =~= rest.items.push(items.last()));
        lemma_filter_map_push(rest.items, items.last(), |item: ItemDeclView| item_entity(item));
        match items.last() {
            ItemDeclView::Struct(item) => {
                lemma_struct_entity_is_struct_node(item);
            },
            ItemDeclView::Trait(item) => {
                lemma_trait_child_count(item);
            },
            ItemDeclView::Enum => {},
            ItemDeclView::Other => {},
        }
    }
}

/// Extraction has no hidden state: whenever it runs on two files of one
/// value, be it one file twice, what it returns has one value.
pub proof fn lemma_extraction_is_repeatable(
    first_file: SourceFile,
    first_run: Vec<Entity>,
    second_file: SourceFile,
    second_run: Vec<Entity>,
)
    requires
        first_file@ == second_file@,
        first_run.deep_view() == file_entities(first_file@),
        second_run.deep_view() == file_entities(second_file@),
    ensures
        first_run.deep_view() == second_run.deep_view(),
        first_run.len() == second_run.len(),
        forall|i: int| 0 <= i < first_run.len() ==> first_run[i]@ == second_run[i]@,
{
    assert(first_run.deep_view().len() == first_run.len());
    assert forall|i: int| 0 <= i < first_run.len() implies first_run[i]@ == second_run[i]@ by {
        assert(first_run.deep_view()[i] == first_run[i]@);
    }
}

} // verus!
