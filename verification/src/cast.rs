//! The concrete-abstract syntax tree: the parsed model together with one
//! node per token, keeping offsets and formatting so that an edited model
//! can be rendered back close to its source.

use vstd::prelude::*;

use crate::text::spec_parse_i32;

verus! {

/// Formatting freedom of a whitespace node.
#[derive(Debug, Clone, Copy, PartialEq, Eq, Structural)]
pub struct WhitespaceOptions {
    pub spaces: i8,
    pub newlines: i8,
    pub max_newlines: i8,
    pub min_newlines: i8,
    pub indent_incr: i8,
    pub indent_decr: i8,
}

impl WhitespaceOptions {
    /// Whitespace of the given number of spaces and newlines, with no
    /// formatting freedom and no indentation change.
    pub fn new_spaces(spaces: i8, newlines: i8) -> (res: Self)
        ensures
            res == (WhitespaceOptions {
                spaces,
                newlines,
                max_newlines: 0,
                min_newlines: 0,
                indent_incr: 0,
                indent_decr: 0,
            }),
    {
        WhitespaceOptions {
            spaces,
            newlines,
            max_newlines: 0,
            min_newlines: 0,
            indent_incr: 0,
            indent_decr: 0,
        }
    }

    /// No whitespace at all.
    pub fn new_no_ws() -> (res: Self)
        ensures
            res == (WhitespaceOptions {
                spaces: 0,
                newlines: 0,
                max_newlines: 0,
                min_newlines: 0,
                indent_incr: 0,
                indent_decr: 0,
            }),
    {
        WhitespaceOptions {
            spaces: 0,
            newlines: 0,
            max_newlines: 0,
            min_newlines: 0,
            indent_incr: 0,
            indent_decr: 0,
        }
    }
}

/// Mathematical view of a [`CASTNodeFmtType`].
#[verifier::ext_equal]
pub enum CASTNodeFmtTypeView {
    Text(Seq<char>),
    Whitespace(WhitespaceOptions),
}

/// Mathematical view of a [`CASTNode`].
#[verifier::ext_equal]
pub struct CASTNodeView {
    pub start_offset: int,
    pub end_offset: int,
    pub fmt_type: CASTNodeFmtTypeView,
}

/// What a node renders as: literal text, or adjustable whitespace.
#[derive(Debug, PartialEq, Eq)]
pub enum CASTNodeFmtType {
    Text(String),
    Whitespace(WhitespaceOptions),
}

impl DeepView for CASTNodeFmtType {
    type V = CASTNodeFmtTypeView;

    open spec fn deep_view(&self) -> CASTNodeFmtTypeView {
        match self {
            CASTNodeFmtType::Text(t) => CASTNodeFmtTypeView::Text(t@),
            CASTNodeFmtType::Whitespace(w) => CASTNodeFmtTypeView::Whitespace(*w),
        }
    }
}

impl Clone for CASTNodeFmtType {
    fn clone(&self) -> (res: Self)
        ensures
            res.deep_view() == self.deep_view(),
    {
        match self {
            CASTNodeFmtType::Text(t) => CASTNodeFmtType::Text(t.clone()),
            CASTNodeFmtType::Whitespace(w) => CASTNodeFmtType::Whitespace(*w),
        }
    }
}

/// One node of the concrete-abstract tree, covering the source characters
/// from `start_offset` to `end_offset`.
#[derive(Debug, PartialEq, Eq)]
pub struct CASTNode {
    pub start_offset: i32,
    pub end_offset: i32,
    pub fmt_type: CASTNodeFmtType,
}

impl DeepView for CASTNode {
    type V = CASTNodeView;

    open spec fn deep_view(&self) -> CASTNodeView {
        CASTNodeView {
            start_offset: self.start_offset as int,
            end_offset: self.end_offset as int,
            fmt_type: self.fmt_type.deep_view(),
        }
    }
}

impl Clone for CASTNode {
    fn clone(&self) -> (res: Self)
        ensures
            res.deep_view() == self.deep_view(),
    {
        CASTNode {
            start_offset: self.start_offset,
            end_offset: self.end_offset,
            fmt_type: self.fmt_type.clone(),
        }
    }
}

/// A reference to a property name made by a modifier.
#[derive(Debug, PartialEq, Eq)]
pub struct CASTReference {
    pub name: String,
}

impl Clone for CASTReference {
    fn clone(&self) -> (res: Self)
        ensures
            res.name@ == self.name@,
    {
        CASTReference { name: self.name.clone() }
    }
}

/// A reference to a text node holding a string.
#[derive(Debug, PartialEq, Eq)]
pub struct NodeReferenceString {
    pub node: CASTNode,
}

impl NodeReferenceString {
    /// Whether the referenced node is a text node, as a string reference
    /// demands.
    pub open spec fn wf(&self) -> bool {
        self.node.fmt_type matches CASTNodeFmtType::Text(_)
    }

    /// The text the reference denotes.
    pub open spec fn spec_text(&self) -> Seq<char> {
        self.node.fmt_type->Text_0@
    }

    /// Wraps a text node.
    pub fn new(node: CASTNode) -> (res: Self)
        ensures
            res.node == node,
    {
        NodeReferenceString { node }
    }

    /// Reads the referenced text.
    pub fn get(&self) -> (r: String)
        requires
            self.wf(),
        ensures
            r@ == self.spec_text(),
    {
        match &self.node.fmt_type {
            CASTNodeFmtType::Text(text) => text.clone(),
            CASTNodeFmtType::Whitespace(_) => String::new(),
        }
    }
}

/// A reference to a text node holding a decimal integer.
#[derive(Debug, PartialEq, Eq)]
pub struct NodeReferenceI32 {
    pub node: CASTNode,
}

impl NodeReferenceI32 {
    /// Whether the referenced node is a text node holding a decimal
    /// integer, as a number reference demands.
    pub open spec fn wf(&self) -> bool {
        self.node.fmt_type matches CASTNodeFmtType::Text(t) && spec_parse_i32(t@) is Some
    }

    /// The number the reference denotes.
    pub open spec fn spec_value(&self) -> i32 {
        spec_parse_i32(self.node.fmt_type->Text_0@)->0
    }

    /// Wraps a number node.
    pub fn new(node: CASTNode) -> (res: Self)
        ensures
            res.node == node,
    {
        NodeReferenceI32 { node }
    }

    /// Reads the referenced number.
    pub fn get(&self) -> (r: i32)
        requires
            self.wf(),
        ensures
            r == self.spec_value(),
    {
        match &self.node.fmt_type {
            CASTNodeFmtType::Text(text) => {
                match crate::text::parse_i32(text.as_str()) {
                    Some(v) => v,
                    None => 0,
                }
            },
            CASTNodeFmtType::Whitespace(_) => 0,
        }
    }
}

/// The value of a parsed modifier, referencing the node that carries its
/// signed number.
#[derive(Debug, PartialEq, Eq)]
pub enum CASTModifierValue {
    /// A bonus written in the short form.
    SimpleBonus(NodeReferenceI32),
    /// A bonus written in the long form.
    Bonus(NodeReferenceI32),
    /// Sets the property to the value.
    SetTo(NodeReferenceI32),
}

impl CASTModifierValue {
    /// Whether the carried reference is a well-formed number reference.
    pub open spec fn wf(&self) -> bool {
        match self {
            CASTModifierValue::SimpleBonus(r) => r.wf(),
            CASTModifierValue::Bonus(r) => r.wf(),
            CASTModifierValue::SetTo(r) => r.wf(),
        }
    }
}

/// One parsed modifier.
#[derive(Debug, PartialEq, Eq)]
pub struct CASTModifier {
    pub referencing: CASTReference,
    pub value: CASTModifierValue,
}

/// One parsed feature.
#[derive(Debug, PartialEq, Eq)]
pub struct CASTFeature {
    pub name: NodeReferenceString,
    pub description: NodeReferenceString,
    pub modifiers: Vec<CASTModifier>,
}

/// The parsed model.
#[derive(Debug, PartialEq, Eq)]
pub struct CASTModel {
    pub features: Vec<CASTFeature>,
}

/// Well-formedness of a parsed model: every node reference in it points
/// at a node of the right shape.
pub open spec fn wf_cast_model(m: CASTModel) -> bool {
    forall|i: int|
        0 <= i < m.features@.len() ==> {
            let f = #[trigger] m.features@[i];
            f.name.wf() && f.description.wf() && (forall|j: int|
                0 <= j < f.modifiers@.len() ==> (#[trigger] f.modifiers@[j]).value.wf())
        }
}

/// A parsed input: all token nodes, the model, and the references the
/// modifiers make.
#[derive(Debug, PartialEq, Eq)]
pub struct CAST {
    pub nodes: Vec<CASTNode>,
    pub model: CASTModel,
    pub references: Vec<CASTReference>,
}

/// The abstract modifier a parsed modifier denotes.
pub open spec fn ast_modifier_of(m: CASTModifier) -> crate::ast::ModifierView {
    crate::ast::ModifierView {
        referencing: crate::ast::ReferenceView {
            scope: crate::ast::ScopeView::Character,
            name: m.referencing.name@,
        },
        value: match m.value {
            CASTModifierValue::SimpleBonus(r) => crate::ast::ModifierValue::SimpleBonus(
                r.spec_value(),
            ),
            CASTModifierValue::Bonus(r) => crate::ast::ModifierValue::Bonus(r.spec_value()),
            CASTModifierValue::SetTo(r) => crate::ast::ModifierValue::SetTo(r.spec_value()),
        },
    }
}

/// The abstract feature a parsed feature denotes.
pub open spec fn ast_feature_of(f: CASTFeature) -> crate::ast::FeatureView {
    crate::ast::FeatureView {
        name: f.name.spec_text(),
        description: f.description.spec_text(),
        modifiers: Seq::new(f.modifiers@.len() as nat, |j: int| ast_modifier_of(f.modifiers@[j])),
    }
}

/// The abstract model a parsed model denotes.
pub open spec fn ast_model_of(m: CASTModel) -> crate::ast::ModelView {
    crate::ast::ModelView {
        features: Seq::new(m.features@.len() as nat, |i: int| ast_feature_of(m.features@[i])),
    }
}

/// The abstract references a parsed input's references denote: each in
/// character scope.
pub open spec fn ast_references_of(refs: Seq<CASTReference>) -> Seq<crate::ast::ReferenceView> {
    Seq::new(
        refs.len(),
        |i: int|
            crate::ast::ReferenceView {
                scope: crate::ast::ScopeView::Character,
                name: refs[i].name@,
            },
    )
}

/// Reads the abstract syntax tree out of a parsed input: names and
/// descriptions from their nodes, modifier values from their number
/// nodes, every reference in character scope.
pub fn cast_to_ast(cast: &CAST) -> (r: crate::ast::AST)
    requires
        wf_cast_model(cast.model),
    ensures
        r.deep_view().model == ast_model_of(cast.model),
        r.deep_view().references == ast_references_of(cast.references@),
{
    let mut features: Vec<crate::ast::Feature> = Vec::new();
    let ghost target = ast_model_of(cast.model);
    proof {
        assert(features.deep_view() =~= target.features.subrange(0, 0));
    }
    let mut i: usize = 0;
    while i < cast.model.features.len()
        invariant
            i <= cast.model.features@.len(),
            wf_cast_model(cast.model),
            target == ast_model_of(cast.model),
            target.features.len() == cast.model.features@.len(),
            features.deep_view() == target.features.subrange(0, i as int),
        decreases cast.model.features@.len() - i,
    {
        let f = &cast.model.features[i];
        let ghost fv = ast_feature_of(cast.model.features@[i as int]);
        proof {
            assert(target.features[i as int] == fv);
        }
        let mut modifiers: Vec<crate::ast::Modifier> = Vec::new();
        proof {
            assert(modifiers.deep_view() =~= fv.modifiers.subrange(0, 0));
        }
        let mut j: usize = 0;
        while j < f.modifiers.len()
            invariant
                j <= f.modifiers@.len(),
                wf_cast_model(cast.model),
                i < cast.model.features@.len(),
                f == &cast.model.features@[i as int],
                fv == ast_feature_of(cast.model.features@[i as int]),
                fv.modifiers.len() == f.modifiers@.len(),
                modifiers.deep_view() == fv.modifiers.subrange(0, j as int),
            decreases f.modifiers@.len() - j,
        {
            let m = &f.modifiers[j];
            proof {
                assert(m.value.wf());
                assert(fv.modifiers[j as int] == ast_modifier_of(f.modifiers@[j as int]));
            }
            let value = match &m.value {
                CASTModifierValue::SimpleBonus(r) => crate::ast::ModifierValue::SimpleBonus(
                    r.get(),
                ),
                CASTModifierValue::Bonus(r) => crate::ast::ModifierValue::Bonus(r.get()),
                CASTModifierValue::SetTo(r) => crate::ast::ModifierValue::SetTo(r.get()),
            };
            let modifier = crate::ast::Modifier {
                referencing: crate::ast::Reference {
                    scope: crate::ast::Scope::Character,
                    name: m.referencing.name.clone(),
                },
                value,
            };
            let ghost before = modifiers.deep_view();
            proof {
                assert(modifier.deep_view() =~= fv.modifiers[j as int]);
            }
            modifiers.push(modifier);
            proof {
                assert(modifiers.deep_view() =~= before.push(fv.modifiers[j as int]));
                assert(modifiers.deep_view() =~= fv.modifiers.subrange(0, j + 1 as int));
            }
            j = j + 1;
        }
        proof {
            assert(fv.modifiers.subrange(0, fv.modifiers.len() as int) =~= fv.modifiers);
        }
        let feature = crate::ast::Feature {
            name: f.name.get(),
            description: f.description.get(),
            modifiers,
        };
        let ghost before = features.deep_view();
        proof {
            assert(feature.deep_view() =~= fv);
        }
        features.push(feature);
        proof {
            assert(features.deep_view() =~= before.push(fv));
            assert(features.deep_view() =~= target.features.subrange(0, i + 1 as int));
        }
        i = i + 1;
    }
    proof {
        assert(target.features.subrange(0, target.features.len() as int) =~= target.features);
    }
    let mut references: Vec<crate::ast::Reference> = Vec::new();
    let ghost ref_target = ast_references_of(cast.references@);
    proof {
        assert(references.deep_view() =~= ref_target.subrange(0, 0));
    }
    let mut t: usize = 0;
    while t < cast.references.len()
        invariant
            t <= cast.references@.len(),
            ref_target == ast_references_of(cast.references@),
            ref_target.len() == cast.references@.len(),
            references.deep_view() == ref_target.subrange(0, t as int),
        decreases cast.references@.len() - t,
    {
        let reference = crate::ast::Reference {
            scope: crate::ast::Scope::Character,
            name: cast.references[t].name.clone(),
        };
        let ghost before = references.deep_view();
        proof {
            assert(reference.deep_view() =~= ref_target[t as int]);
        }
        references.push(reference);
        proof {
            assert(references.deep_view() =~= before.push(ref_target[t as int]));
            assert(references.deep_view() =~= ref_target.subrange(0, t + 1 as int));
        }
        t = t + 1;
    }
    proof {
        assert(ref_target.subrange(0, ref_target.len() as int) =~= ref_target);
    }
    let result = crate::ast::AST { model: crate::ast::Model { features }, references };
    proof {
        assert(result.deep_view().model =~= target);
    }
    result
}

} // verus!
