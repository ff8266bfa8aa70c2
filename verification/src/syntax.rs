//! The shapes of a parsed source file that entity extraction looks at: which
//! kind each top-level item is, the kind of a struct's field list, how each
//! type is spelled, the pattern and type of each parameter, and whether a
//! method names a return type. A type is held as the text of its tokens.
//!
//! Every type here has a view, the same shape over `Seq<char>` and `Seq`,
//! which the contracts of the extraction speak of.

use vstd::prelude::*;

verus! {

/// One field of a struct: its name, if it has one, and the spelling of its type.
#[derive(Clone, Debug, PartialEq, Eq)]
pub struct FieldDecl {
    pub ident: Option<String>,
    pub ty: String,
}

/// The mathematical value of a [`FieldDecl`].
pub struct FieldDeclView {
    pub ident: Option<Seq<char>>,
    pub ty: Seq<char>,
}

impl View for FieldDecl {
    type V = FieldDeclView;

    open spec fn view(&self) -> FieldDeclView {
        FieldDeclView { ident: self.ident.deep_view(), ty: self.ty@ }
    }
}

impl DeepView for FieldDecl {
    type V = FieldDeclView;

    open spec fn deep_view(&self) -> FieldDeclView {
        self@
    }
}

/// The field list of a struct: named fields in braces, unnamed fields of a
/// tuple struct, or none at all.
#[derive(Clone, Debug, PartialEq, Eq)]
pub enum FieldList {
    Named(Vec<FieldDecl>),
    Unnamed(Vec<FieldDecl>),
    Unit,
}

/// The mathematical value of a [`FieldList`].
pub enum FieldListView {
    Named(Seq<FieldDeclView>),
    Unnamed(Seq<FieldDeclView>),
    Unit,
}

impl View for FieldList {
    type V = FieldListView;

    open spec fn view(&self) -> FieldListView {
        match self {
            FieldList::Named(fields) => FieldListView::Named(fields.deep_view()),
            FieldList::Unnamed(fields) => FieldListView::Unnamed(fields.deep_view()),
            FieldList::Unit => FieldListView::Unit,
        }
    }
}

/// A struct item: its identifier and its field list.
#[derive(Clone, Debug, PartialEq, Eq)]
pub struct StructDecl {
    pub ident: String,
    pub fields: FieldList,
}

/// The mathematical value of a [`StructDecl`].
pub struct StructDeclView {
    pub ident: Seq<char>,
    pub fields: FieldListView,
}

impl View for StructDecl {
    type V = StructDeclView;

    open spec fn view(&self) -> StructDeclView {
        StructDeclView { ident: self.ident@, fields: self.fields@ }
    }
}

/// One parameter of a method.
#[derive(Clone, Debug, PartialEq, Eq)]
pub enum Param {
    /// The receiver: `self`, `&self` or `&mut self`.
    Receiver,
    /// A parameter bound to a plain identifier, with the spelling of its type.
    Named { ident: String, ty: String },
    /// A parameter with any other pattern, with the spelling of its type.
    Pattern { ty: String },
}

/// The mathematical value of a [`Param`].
pub enum ParamView {
    Receiver,
    Named { ident: Seq<char>, ty: Seq<char> },
    Pattern { ty: Seq<char> },
}

impl View for Param {
    type V = ParamView;

    open spec fn view(&self) -> ParamView {
        match self {
            Param::Receiver => ParamView::Receiver,
            Param::Named { ident, ty } => ParamView::Named { ident: ident@, ty: ty@ },
            Param::Pattern { ty } => ParamView::Pattern { ty: ty@ },
        }
    }
}

impl DeepView for Param {
    type V = ParamView;

    open spec fn deep_view(&self) -> ParamView {
        self@
    }
}

/// The signature of a method: its identifier, its parameters in order, and
/// the spelling of its return type where it names one.
#[derive(Clone, Debug, PartialEq, Eq)]
pub struct MethodDecl {
    pub ident: String,
    pub inputs: Vec<Param>,
    pub output: Option<String>,
}

/// The mathematical value of a [`MethodDecl`].
pub struct MethodDeclView {
    pub ident: Seq<char>,
    pub inputs: Seq<ParamView>,
    pub output: Option<Seq<char>>,
}

impl View for MethodDecl {
    type V = MethodDeclView;

    open spec fn view(&self) -> MethodDeclView {
        MethodDeclView {
            ident: self.ident@,
            inputs: self.inputs.deep_view(),
            output: self.output.deep_view(),
        }
    }
}

/// One associated item of a trait: a method, or anything else (an associated
/// constant or type, a macro call).
#[derive(Clone, Debug, PartialEq, Eq)]
pub enum TraitMember {
    Method(MethodDecl),
    Other,
}

/// The mathematical value of a [`TraitMember`].
pub enum TraitMemberView {
    Method(MethodDeclView),
    Other,
}

impl View for TraitMember {
    type V = TraitMemberView;

    open spec fn view(&self) -> TraitMemberView {
        match self {
            TraitMember::Method(method) => TraitMemberView::Method(method@),
            TraitMember::Other => TraitMemberView::Other,
        }
    }
}

impl DeepView for TraitMember {
    type V = TraitMemberView;

    open spec fn deep_view(&self) -> TraitMemberView {
        self@
    }
}

/// A trait item: its identifier and its associated items in order.
#[derive(Clone, Debug, PartialEq, Eq)]
pub struct TraitDecl {
    pub ident: String,
    pub items: Vec<TraitMember>,
}

/// The mathematical value of a [`TraitDecl`].
pub struct TraitDeclView {
    pub ident: Seq<char>,
    pub items: Seq<TraitMemberView>,
}

impl View for TraitDecl {
    type V = TraitDeclView;

    open spec fn view(&self) -> TraitDeclView {
        TraitDeclView { ident: self.ident@, items: self.items.deep_view() }
    }
}

/// One top-level item of a file. Only structs and traits carry anything:
/// nothing is read of an enum or of any other item.
#[derive(Clone, Debug, PartialEq, Eq)]
pub enum ItemDecl {
    Struct(StructDecl),
    Trait(TraitDecl),
    Enum,
    Other,
}

/// The mathematical value of an [`ItemDecl`].
pub enum ItemDeclView {
    Struct(StructDeclView),
    Trait(TraitDeclView),
    Enum,
    Other,
}

impl View for ItemDecl {
    type V = ItemDeclView;

    open spec fn view(&self) -> ItemDeclView {
        match self {
            ItemDecl::Struct(item) => ItemDeclView::Struct(item@),
            ItemDecl::Trait(item) => ItemDeclView::Trait(item@),
            ItemDecl::Enum => ItemDeclView::Enum,
            ItemDecl::Other => ItemDeclView::Other,
        }
    }
}

impl DeepView for ItemDecl {
    type V = ItemDeclView;

    open spec fn deep_view(&self) -> ItemDeclView {
        self@
    }
}

/// A parsed source file: its top-level items in the order of the source.
#[derive(Clone, Debug, PartialEq, Eq)]
pub struct SourceFile {
    pub items: Vec<ItemDecl>,
}

/// The mathematical value of a [`SourceFile`].
pub struct SourceFileView {
    pub items: Seq<ItemDeclView>,
}

impl View for SourceFile {
    type V = SourceFileView;

    open spec fn view(&self) -> SourceFileView {
        SourceFileView { items: self.items.deep_view() }
    }
}

} // verus!
