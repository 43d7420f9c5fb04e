//! The typed node graph supplied by the front end.
//!
//! Every node carries an ordered sequence of attributes; named nodes
//! additionally carry an identifier, a source span, and a lexical parser
//! scope. The backend-specific attribute kinds are one variant branch of the
//! frontend attribute-kind sum type, so every match on them is exhaustive.

use vstd::prelude::*;

verus! {

/// A source-location range anchoring a diagnostic to user-visible text.
#[derive(Clone, Copy, PartialEq, Eq, Structural, Debug)]
pub struct Span {
    pub start: u64,
    pub end: u64,
}

impl View for Span {
    type V = Span;

    open spec fn view(&self) -> Span {
        *self
    }
}

impl DeepView for Span {
    type V = Span;

    open spec fn deep_view(&self) -> Span {
        *self
    }
}

/// The closed set of backend-specific attribute kinds.
#[derive(Debug, PartialEq, Eq)]
pub enum CsAttributeKind {
    /// Renames the generated entity.
    Identifier { identifier: String },
    /// Marks the generated entity as internal.
    Internal,
    /// Generates a read-only struct.
    Readonly,
    /// Raw attribute text passed through to the generated code.
    Attribute { attribute: String },
    /// Renames the namespace a module maps to.
    Namespace { namespace: String },
    /// Names the wire codec for a custom type.
    Custom { custom: String },
    /// Overrides the container implementation of a sequence or dictionary.
    Generic { generic: String },
    /// Asks for the encoded form of an operation's return value.
    EncodedResult,
}

/// Spec-level mirror of `CsAttributeKind`.
#[verifier::ext_equal]
pub enum CsAttributeKindView {
    Identifier { identifier: Seq<char> },
    Internal,
    Readonly,
    Attribute { attribute: Seq<char> },
    Namespace { namespace: Seq<char> },
    Custom { custom: Seq<char> },
    Generic { generic: Seq<char> },
    EncodedResult,
}

/// The bare kind of a backend-specific attribute, with the arguments
/// stripped; two attributes are duplicates exactly when their tags agree.
#[derive(Clone, Copy, PartialEq, Eq, Structural, Debug)]
pub enum AttributeTag {
    Identifier,
    Internal,
    Readonly,
    Attribute,
    Namespace,
    Custom,
    Generic,
    EncodedResult,
}

impl CsAttributeKindView {
    pub open spec fn tag(self) -> AttributeTag {
        match self {
            CsAttributeKindView::Identifier { .. } => AttributeTag::Identifier,
            CsAttributeKindView::Internal => AttributeTag::Internal,
            CsAttributeKindView::Readonly => AttributeTag::Readonly,
            CsAttributeKindView::Attribute { .. } => AttributeTag::Attribute,
            CsAttributeKindView::Namespace { .. } => AttributeTag::Namespace,
            CsAttributeKindView::Custom { .. } => AttributeTag::Custom,
            CsAttributeKindView::Generic { .. } => AttributeTag::Generic,
            CsAttributeKindView::EncodedResult => AttributeTag::EncodedResult,
        }
    }
}

/// The textual directive of a backend-specific attribute kind, as diagnostics
/// name it.
pub open spec fn directive_of(tag: AttributeTag) -> Seq<char> {
    match tag {
        AttributeTag::Identifier => "cs::identifier"@,
        AttributeTag::Internal => "cs::internal"@,
        AttributeTag::Readonly => "cs::readonly"@,
        AttributeTag::Attribute => "cs::attribute"@,
        AttributeTag::Namespace => "cs::namespace"@,
        AttributeTag::Custom => "cs::custom"@,
        AttributeTag::Generic => "cs::generic"@,
        AttributeTag::EncodedResult => "cs::encodedResult"@,
    }
}

impl View for CsAttributeKind {
    type V = CsAttributeKindView;

    open spec fn view(&self) -> CsAttributeKindView {
        match self {
            CsAttributeKind::Identifier { identifier } => (CsAttributeKindView::Identifier {
                identifier: identifier@,
            }),
            CsAttributeKind::Internal => CsAttributeKindView::Internal,
            CsAttributeKind::Readonly => CsAttributeKindView::Readonly,
            CsAttributeKind::Attribute { attribute } => (CsAttributeKindView::Attribute {
                attribute: attribute@,
            }),
            CsAttributeKind::Namespace { namespace } => (CsAttributeKindView::Namespace {
                namespace: namespace@,
            }),
            CsAttributeKind::Custom { custom } => (CsAttributeKindView::Custom { custom: custom@ }),
            CsAttributeKind::Generic { generic } => (CsAttributeKindView::Generic {
                generic: generic@,
            }),
            CsAttributeKind::EncodedResult => CsAttributeKindView::EncodedResult,
        }
    }
}

impl DeepView for CsAttributeKind {
    type V = CsAttributeKindView;

    open spec fn deep_view(&self) -> CsAttributeKindView {
        self.view()
    }
}

impl Clone for CsAttributeKind {
    fn clone(&self) -> (res: Self)
        ensures
            res == *self,
    {
        match self {
            CsAttributeKind::Identifier { identifier } => (CsAttributeKind::Identifier {
                identifier: identifier.clone(),
            }),
            CsAttributeKind::Internal => CsAttributeKind::Internal,
            CsAttributeKind::Readonly => CsAttributeKind::Readonly,
            CsAttributeKind::Attribute { attribute } => (CsAttributeKind::Attribute {
                attribute: attribute.clone(),
            }),
            CsAttributeKind::Namespace { namespace } => (CsAttributeKind::Namespace {
                namespace: namespace.clone(),
            }),
            CsAttributeKind::Custom { custom } => (CsAttributeKind::Custom {
                custom: custom.clone(),
            }),
            CsAttributeKind::Generic { generic } => (CsAttributeKind::Generic {
                generic: generic.clone(),
            }),
            CsAttributeKind::EncodedResult => CsAttributeKind::EncodedResult,
        }
    }
}

impl CsAttributeKind {
    /// The bare kind, used by the duplicate check.
    pub fn tag(&self) -> (t: AttributeTag)
        ensures
            t == self@.tag(),
    {
        match self {
            CsAttributeKind::Identifier { .. } => AttributeTag::Identifier,
            CsAttributeKind::Internal => AttributeTag::Internal,
            CsAttributeKind::Readonly => AttributeTag::Readonly,
            CsAttributeKind::Attribute { .. } => AttributeTag::Attribute,
            CsAttributeKind::Namespace { .. } => AttributeTag::Namespace,
            CsAttributeKind::Custom { .. } => AttributeTag::Custom,
            CsAttributeKind::Generic { .. } => AttributeTag::Generic,
            CsAttributeKind::EncodedResult => AttributeTag::EncodedResult,
        }
    }

    /// The textual directive that diagnostics use to name this attribute.
    pub fn directive(&self) -> (r: String)
        ensures
            r@ == directive_of(self@.tag()),
    {
        match self {
            CsAttributeKind::Identifier { .. } => "cs::identifier".to_owned(),
            CsAttributeKind::Internal => "cs::internal".to_owned(),
            CsAttributeKind::Readonly => "cs::readonly".to_owned(),
            CsAttributeKind::Attribute { .. } => "cs::attribute".to_owned(),
            CsAttributeKind::Namespace { .. } => "cs::namespace".to_owned(),
            CsAttributeKind::Custom { .. } => "cs::custom".to_owned(),
            CsAttributeKind::Generic { .. } => "cs::generic".to_owned(),
            CsAttributeKind::EncodedResult => "cs::encodedResult".to_owned(),
        }
    }
}

/// An attribute kind as the front end sees it: either generic to the whole
/// compiler (opaque to this backend) or one of the backend-specific kinds.
#[derive(Debug, PartialEq, Eq)]
pub enum AttributeKind {
    General { directive: String },
    Cs { kind: CsAttributeKind },
}

/// Spec-level mirror of `AttributeKind`.
#[verifier::ext_equal]
pub enum AttributeKindView {
    General { directive: Seq<char> },
    Cs { kind: CsAttributeKindView },
}

impl View for AttributeKind {
    type V = AttributeKindView;

    open spec fn view(&self) -> AttributeKindView {
        match self {
            AttributeKind::General { directive } => (AttributeKindView::General {
                directive: directive@,
            }),
            AttributeKind::Cs { kind } => (AttributeKindView::Cs { kind: kind@ }),
        }
    }
}

impl DeepView for AttributeKind {
    type V = AttributeKindView;

    open spec fn deep_view(&self) -> AttributeKindView {
        self.view()
    }
}

/// One attribute occurrence on a node: a kind and the span where it was
/// written.
#[derive(Debug, PartialEq, Eq)]
pub struct Attribute {
    pub kind: AttributeKind,
    pub span: Span,
}

/// Spec-level mirror of `Attribute`.
#[verifier::ext_equal]
pub struct AttributeView {
    pub kind: AttributeKindView,
    pub span: Span,
}

impl View for Attribute {
    type V = AttributeView;

    open spec fn view(&self) -> AttributeView {
        AttributeView { kind: self.kind.view(), span: self.span }
    }
}

impl DeepView for Attribute {
    type V = AttributeView;

    open spec fn deep_view(&self) -> AttributeView {
        self.view()
    }
}

/// The resolved shape of a type reference, which gates the attributes legal
/// on values of that type.
#[derive(Clone, Copy, PartialEq, Eq, Structural, Debug)]
pub enum TypeCategory {
    Sequence,
    Dictionary,
    Other,
}

/// A resolved reference to a data type.
#[derive(Clone, Copy, PartialEq, Eq, Structural, Debug)]
pub struct TypeRef {
    pub category: TypeCategory,
}

impl View for TypeRef {
    type V = TypeRef;

    open spec fn view(&self) -> TypeRef {
        *self
    }
}

impl DeepView for TypeRef {
    type V = TypeRef;

    open spec fn deep_view(&self) -> TypeRef {
        *self
    }
}

impl TypeRef {
    /// The concrete type category this reference resolves to.
    pub fn concrete_type(&self) -> (c: TypeCategory)
        ensures
            c == self.category,
    {
        self.category
    }
}

/// What every named node carries: a stable identifier, a source span, a
/// lexical parser scope, and its ordered attribute list.
#[derive(Debug, PartialEq, Eq)]
pub struct EntityData {
    pub identifier: String,
    pub span: Span,
    pub parser_scope: String,
    pub attributes: Vec<Attribute>,
}

/// Spec-level mirror of `EntityData`.
#[verifier::ext_equal]
pub struct EntityDataView {
    pub identifier: Seq<char>,
    pub span: Span,
    pub parser_scope: Seq<char>,
    pub attributes: Seq<AttributeView>,
}

impl View for EntityData {
    type V = EntityDataView;

    open spec fn view(&self) -> EntityDataView {
        EntityDataView {
            identifier: self.identifier@,
            span: self.span,
            parser_scope: self.parser_scope@,
            attributes: self.attributes.deep_view(),
        }
    }
}

impl DeepView for EntityData {
    type V = EntityDataView;

    open spec fn deep_view(&self) -> EntityDataView {
        self.view()
    }
}

/// An AST node: a tagged variant over the closed set of node kinds.
///
/// An operation records whether it has at least one non-streamed return value
/// and whether it has a streamed one; an alias, member or parameter records
/// the concrete category of the type it refers to.
#[derive(Debug, PartialEq, Eq)]
pub enum Node {
    Module { entity: EntityData },
    Struct { entity: EntityData },
    Class { entity: EntityData },
    Exception { entity: EntityData },
    Interface { entity: EntityData },
    Enum { entity: EntityData },
    Operation { entity: EntityData, has_non_streamed_return: bool, has_streamed_return: bool },
    CustomType { entity: EntityData },
    TypeAlias { entity: EntityData, underlying: TypeRef },
    DataMember { entity: EntityData, data_type: TypeRef },
    Parameter { entity: EntityData, data_type: TypeRef },
}

/// Spec-level mirror of `Node`.
#[verifier::ext_equal]
pub enum NodeView {
    Module { entity: EntityDataView },
    Struct { entity: EntityDataView },
    Class { entity: EntityDataView },
    Exception { entity: EntityDataView },
    Interface { entity: EntityDataView },
    Enum { entity: EntityDataView },
    Operation { entity: EntityDataView, has_non_streamed_return: bool, has_streamed_return: bool },
    CustomType { entity: EntityDataView },
    TypeAlias { entity: EntityDataView, underlying: TypeRef },
    DataMember { entity: EntityDataView, data_type: TypeRef },
    Parameter { entity: EntityDataView, data_type: TypeRef },
}

impl NodeView {
    /// The entity data common to every node kind.
    pub open spec fn entity(self) -> EntityDataView {
        match self {
            NodeView::Module { entity } => entity,
            NodeView::Struct { entity } => entity,
            NodeView::Class { entity } => entity,
            NodeView::Exception { entity } => entity,
            NodeView::Interface { entity } => entity,
            NodeView::Enum { entity } => entity,
            NodeView::Operation { entity, .. } => entity,
            NodeView::CustomType { entity } => entity,
            NodeView::TypeAlias { entity, .. } => entity,
            NodeView::DataMember { entity, .. } => entity,
            NodeView::Parameter { entity, .. } => entity,
        }
    }
}

impl View for Node {
    type V = NodeView;

    open spec fn view(&self) -> NodeView {
        match self {
            Node::Module { entity } => (NodeView::Module { entity: entity.view() }),
            Node::Struct { entity } => (NodeView::Struct { entity: entity.view() }),
            Node::Class { entity } => (NodeView::Class { entity: entity.view() }),
            Node::Exception { entity } => (NodeView::Exception { entity: entity.view() }),
            Node::Interface { entity } => (NodeView::Interface { entity: entity.view() }),
            Node::Enum { entity } => (NodeView::Enum { entity: entity.view() }),
            Node::Operation { entity, has_non_streamed_return, has_streamed_return } => (NodeView::Operation {
                entity: entity.view(),
                has_non_streamed_return: *has_non_streamed_return,
                has_streamed_return: *has_streamed_return,
            }),
            Node::CustomType { entity } => (NodeView::CustomType { entity: entity.view() }),
            Node::TypeAlias { entity, underlying } => (NodeView::TypeAlias {
                entity: entity.view(),
                underlying: *underlying,
            }),
            Node::DataMember { entity, data_type } => (NodeView::DataMember {
                entity: entity.view(),
                data_type: *data_type,
            }),
            Node::Parameter { entity, data_type } => (NodeView::Parameter {
                entity: entity.view(),
                data_type: *data_type,
            }),
        }
    }
}

impl DeepView for Node {
    type V = NodeView;

    open spec fn deep_view(&self) -> NodeView {
        self.view()
    }
}

impl Node {
    /// The entity data common to every node kind.
    pub fn entity(&self) -> (e: &EntityData)
        ensures
            e@ == self@.entity(),
    {
        match self {
            Node::Module { entity } => entity,
            Node::Struct { entity } => entity,
            Node::Class { entity } => entity,
            Node::Exception { entity } => entity,
            Node::Interface { entity } => entity,
            Node::Enum { entity } => entity,
            Node::Operation { entity, .. } => entity,
            Node::CustomType { entity } => entity,
            Node::TypeAlias { entity, .. } => entity,
            Node::DataMember { entity, .. } => entity,
            Node::Parameter { entity, .. } => entity,
        }
    }
}

/// One parsed translation unit: directly compiled (`is_source`) or pulled in
/// only as a dependency. Its nodes are listed in traversal (preorder) order.
#[derive(Debug, PartialEq, Eq)]
pub struct SliceFile {
    pub filename: String,
    pub is_source: bool,
    pub nodes: Vec<Node>,
}

/// Spec-level mirror of `SliceFile`.
#[verifier::ext_equal]
pub struct SliceFileView {
    pub filename: Seq<char>,
    pub is_source: bool,
    pub nodes: Seq<NodeView>,
}

impl View for SliceFile {
    type V = SliceFileView;

    open spec fn view(&self) -> SliceFileView {
        SliceFileView {
            filename: self.filename@,
            is_source: self.is_source,
            nodes: self.nodes.deep_view(),
        }
    }
}

impl DeepView for SliceFile {
    type V = SliceFileView;

    open spec fn deep_view(&self) -> SliceFileView {
        self.view()
    }
}

} // verus!
