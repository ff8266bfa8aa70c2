//! The entity model: one recursive node type that describes a struct, a
//! trait, a field, a method summary or a synthesized type dependency.

use vstd::prelude::*;

verus! {

/// The tag of an entity. Only a field carries a payload: its own name, which
/// is empty for a method summary and for a type-dependency node.
#[derive(Debug, PartialEq, Eq)]
pub enum EntityType {
    Struct,
    Trait,
    Field(String),
}

/// The mathematical value of an [`EntityType`].
pub enum EntityKind {
    Struct,
    Trait,
    Field(Seq<char>),
}

impl View for EntityType {
    type V = EntityKind;

    open spec fn view(&self) -> EntityKind {
        match self {
            EntityType::Struct => EntityKind::Struct,
            EntityType::Trait => EntityKind::Trait,
            EntityType::Field(name) => EntityKind::Field(name@),
        }
    }
}

impl Clone for EntityType {
    fn clone(&self) -> (result: Self)
        ensures
            result@ == self@,
    {
        match self {
            EntityType::Struct => EntityType::Struct,
            EntityType::Trait => EntityType::Trait,
            EntityType::Field(name) => EntityType::Field(name.clone()),
        }
    }
}

/// A node of the entity tree. Children are owned by their parent and keep
/// the order in which they were declared.
#[derive(Debug, PartialEq, Eq)]
pub struct Entity {
    pub entity_type: EntityType,
    pub name: String,
    pub fields: Vec<Entity>,
}

/// The mathematical value of an [`Entity`]: its tag, its name and the values
/// of its children, in order.
pub struct EntityView {
    pub kind: EntityKind,
    pub name: Seq<char>,
    pub fields: Seq<EntityView>,
}

/// The value of an entity, by recursion over its children.
pub open spec fn entity_view(entity: Entity) -> EntityView
    decreases entity,
{
    EntityView {
        kind: entity.entity_type@,
        name: entity.name@,
        fields: Seq::new(
            entity.fields@.len(),
            |i: int|
                if 0 <= i < entity.fields@.len() {
                    entity_view(entity.fields@[i])
                } else {
                    arbitrary()
                },
        ),
    }
}

impl View for Entity {
    type V = EntityView;

    open spec fn view(&self) -> EntityView {
        entity_view(*self)
    }
}

impl DeepView for Entity {
    type V = EntityView;

    open spec fn deep_view(&self) -> EntityView {
        self@
    }
}

impl EntityView {
    /// A node without children: a method summary or one fragment of a type
    /// spelling. Its own field name is empty.
    pub open spec fn leaf(name: Seq<char>) -> EntityView {
        EntityView {
            kind: EntityKind::Field(Seq::<char>::empty()),
            name,
            fields: Seq::<EntityView>::empty(),
        }
    }
}

impl Entity {
    /// The children of an entity's value are the values of its children.
    pub proof fn lemma_view_fields(&self)
        ensures
            self@.fields == self.fields.deep_view(),
    {
        assert(self@.fields =~= self.fields.deep_view());
    }

    /// Builds an entity from its tag, its name and its children.
    pub fn new(entity_type: EntityType, name: &str, fields: Vec<Entity>) -> (entity: Entity)
        ensures
            entity@ == (EntityView {
                kind: entity_type@,
                name: name@,
                fields: fields.deep_view(),
            }),
    {
        let entity = Entity { entity_type, name: name.to_owned(), fields };
        proof {
            entity.lemma_view_fields();
        }
        entity
    }
}

impl Clone for Entity {
    fn clone(&self) -> (result: Self)
        ensures
            result@ == self@,
        decreases self,
    {
        let mut fields: Vec<Entity> = Vec::new();
        let mut i: usize = 0;
        while i < self.fields.len()
            invariant
                i <= self.fields.len(),
                fields.len() == i,
                forall|k: int| 0 <= k < i ==> fields[k]@ == self.fields[k]@,
            decreases self.fields.len() - i,
        {
            fields.push(self.fields[i].clone());
            i += 1;
        }
        let result = Entity {
            entity_type: self.entity_type.clone(),
            name: self.name.clone(),
            fields,
        };
        proof {
            assert(result@.fields =~= self@.fields);
        }
        result
    }
}

} // verus!
