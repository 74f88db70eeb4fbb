//! The pretty-printer of the rule-definition language: renders an
//! [`AST`] back to text, one feature per block, with modifiers indented
//! below their `Modifiers:` heading.
//!
//! Rendering happens in two steps, as the spec functions of this module
//! describe exactly: the model becomes a list of text and whitespace
//! nodes, and the nodes are printed left to right while tracking the
//! indentation the whitespace nodes request.

use vstd::prelude::*;
use vstd::string::StrSliceExecFns;
use vstd::string::StringExecFns;

use crate::ast::{ASTView, FeatureView, Model, ModelView, Modifier, ModifierValue, ModifierView, AST};
use crate::text::{push_char, spec_i32_string};

verus! {

/// Mathematical view of a [`WhitespaceOptions`].
#[derive(Debug, Clone, Copy, PartialEq, Eq, Structural)]
pub struct WhitespaceOptions {
    pub indent_incr: i8,
    pub indent_decr: i8,
    pub newline_max: i8,
    pub newline_min: i8,
    pub newline: i8,
    pub spaces: i8,
}

impl WhitespaceOptions {
    /// No whitespace.
    pub fn new_no_space() -> (res: Self)
        ensures
            res == (WhitespaceOptions {
                indent_incr: 0,
                indent_decr: 0,
                newline_max: 0,
                newline_min: 0,
                newline: 0,
                spaces: 0,
            }),
    {
        WhitespaceOptions {
            indent_incr: 0,
            indent_decr: 0,
            newline_max: 0,
            newline_min: 0,
            newline: 0,
            spaces: 0,
        }
    }

    /// A single space.
    pub fn new_space() -> (res: Self)
        ensures
            res == (WhitespaceOptions {
                indent_incr: 0,
                indent_decr: 0,
                newline_max: 0,
                newline_min: 0,
                newline: 0,
                spaces: 1,
            }),
    {
        WhitespaceOptions {
            indent_incr: 0,
            indent_decr: 0,
            newline_max: 0,
            newline_min: 0,
            newline: 0,
            spaces: 1,
        }
    }

    /// One newline, allowing up to two.
    pub fn new_newline() -> (res: Self)
        ensures
            res == (WhitespaceOptions {
                indent_incr: 0,
                indent_decr: 0,
                newline_max: 2,
                newline_min: 1,
                newline: 1,
                spaces: 0,
            }),
    {
        WhitespaceOptions {
            indent_incr: 0,
            indent_decr: 0,
            newline_max: 2,
            newline_min: 1,
            newline: 1,
            spaces: 0,
        }
    }

    /// The same whitespace, indenting the following lines `i` levels
    /// deeper.
    pub fn with_indent_incr(self, i: i8) -> (res: Self)
        requires
            self.indent_incr + i <= i8::MAX,
            self.indent_incr + i >= i8::MIN,
        ensures
            res == (WhitespaceOptions { indent_incr: (self.indent_incr + i) as i8, ..self }),
    {
        let mut res = self;
        res.indent_incr = res.indent_incr + i;
        res
    }
}

/// Mathematical view of a [`SerializeNode`].
#[verifier::ext_equal]
pub enum SerializeNodeView {
    Whitespace(WhitespaceOptions),
    Text(Seq<char>),
}

/// One rendering step: literal text, or whitespace with formatting
/// freedom.
#[derive(Debug, PartialEq, Eq)]
pub enum SerializeNode {
    Whitespace(WhitespaceOptions),
    Text(String),
}

impl DeepView for SerializeNode {
    type V = SerializeNodeView;

    open spec fn deep_view(&self) -> SerializeNodeView {
        match self {
            SerializeNode::Whitespace(w) => SerializeNodeView::Whitespace(*w),
            SerializeNode::Text(t) => SerializeNodeView::Text(t@),
        }
    }
}

impl SerializeNode {
    /// A node rendering as nothing.
    pub fn new_no_space() -> (res: Self)
        ensures
            res.deep_view() == SerializeNodeView::Whitespace(
                WhitespaceOptions {
                    indent_incr: 0,
                    indent_decr: 0,
                    newline_max: 0,
                    newline_min: 0,
                    newline: 0,
                    spaces: 0,
                },
            ),
    {
        SerializeNode::Whitespace(WhitespaceOptions::new_no_space())
    }

    /// A node rendering as one space.
    pub fn new_space() -> (res: Self)
        ensures
            res.deep_view() == SerializeNodeView::Whitespace(
                WhitespaceOptions {
                    indent_incr: 0,
                    indent_decr: 0,
                    newline_max: 0,
                    newline_min: 0,
                    newline: 0,
                    spaces: 1,
                },
            ),
    {
        SerializeNode::Whitespace(WhitespaceOptions::new_space())
    }

    /// A node rendering as a newline plus indentation.
    pub fn new_newline() -> (res: Self)
        ensures
            res.deep_view() == SerializeNodeView::Whitespace(
                WhitespaceOptions {
                    indent_incr: 0,
                    indent_decr: 0,
                    newline_max: 2,
                    newline_min: 1,
                    newline: 1,
                    spaces: 0,
                },
            ),
    {
        SerializeNode::Whitespace(WhitespaceOptions::new_newline())
    }

    /// A node rendering as the given text.
    pub fn new_text(text: &str) -> (res: Self)
        ensures
            res.deep_view() == SerializeNodeView::Text(text@),
    {
        SerializeNode::Text(text.to_owned())
    }
}

/// `n` copies of `c`.
pub open spec fn repeat_char(c: char, n: int) -> Seq<char>
    decreases n,
{
    if n <= 0 {
        Seq::empty()
    } else {
        repeat_char(c, n - 1).push(c)
    }
}

/// What one whitespace node renders as, at the given indentation after
/// its own adjustment: newlines plus two spaces per indent level, or
/// plain spaces.
pub open spec fn render_ws(ws: WhitespaceOptions, indent_after: int) -> Seq<char> {
    let capped = if ws.newline > ws.newline_max {
        ws.newline_max as int
    } else {
        ws.newline as int
    };
    let nl = if capped < ws.newline_min {
        ws.newline_min as int
    } else {
        capped
    };
    if nl > 0 {
        repeat_char('\n', nl) + repeat_char(' ', 2 * indent_after)
    } else {
        repeat_char(' ', if ws.spaces > 0 {
            ws.spaces as int
        } else {
            0
        })
    }
}

/// The indentation after a whitespace node: never below zero, and capped
/// at a depth no sane document reaches.
pub open spec fn next_indent(ws: WhitespaceOptions, indent: int) -> int {
    let adjusted = indent + ws.indent_incr - ws.indent_decr;
    if adjusted > 0xFFFF {
        0xFFFF
    } else if adjusted > 0 {
        adjusted
    } else {
        0
    }
}

/// What the nodes from position `i` on render as, at the given
/// indentation.
pub open spec fn render_from(nodes: Seq<SerializeNodeView>, i: int, indent: int) -> Seq<char>
    decreases nodes.len() - i,
{
    if i < 0 || i >= nodes.len() {
        Seq::empty()
    } else {
        match nodes[i] {
            SerializeNodeView::Text(t) => t + render_from(nodes, i + 1, indent),
            SerializeNodeView::Whitespace(ws) => render_ws(ws, next_indent(ws, indent))
                + render_from(nodes, i + 1, next_indent(ws, indent)),
        }
    }
}

/// What a node list prints as.
pub open spec fn spec_print_nodes(nodes: Seq<SerializeNodeView>) -> Seq<char> {
    render_from(nodes, 0, 0)
}

/// Appends `n` copies of `c` to `s`.
fn push_repeat(s: &mut String, c: char, n: i64)
    requires
        n >= 0,
    ensures
        final(s)@ == old(s)@ + repeat_char(c, n as int),
    decreases n,
{
    if n == 0 {
        proof {
            assert(s@ =~= old(s)@ + repeat_char(c, 0));
        }
    } else {
        push_repeat(s, c, n - 1);
        push_char(s, c);
        proof {
            assert(s@ =~= old(s)@ + repeat_char(c, n as int));
        }
    }
}

/// Prints a node list: text nodes verbatim; whitespace nodes as their
/// clamped newlines plus indentation, or their spaces.
fn print_nodes(serialize_nodes: Vec<SerializeNode>) -> (r: String)
    ensures
        r@ == spec_print_nodes(serialize_nodes.deep_view()),
{
    let ghost nv = serialize_nodes.deep_view();
    let mut output = String::new();
    let mut curr_indent: i64 = 0;
    let mut i: usize = 0;
    proof {
        assert(output@ + render_from(nv, 0, 0) =~= render_from(nv, 0, 0));
    }
    while i < serialize_nodes.len()
        invariant
            i <= serialize_nodes@.len(),
            nv == serialize_nodes.deep_view(),
            nv.len() == serialize_nodes@.len(),
            0 <= curr_indent <= 0xFFFF,
            output@ + render_from(nv, i as int, curr_indent as int) == render_from(nv, 0, 0),
        decreases serialize_nodes@.len() - i,
    {
        proof {
            assert(serialize_nodes@[i as int].deep_view() == nv[i as int]);
        }
        let ghost out_before = output@;
        let ghost indent_before = curr_indent as int;
        match &serialize_nodes[i] {
            SerializeNode::Text(t) => {
                output.append(t.as_str());
                proof {
                    assert(output@ + render_from(nv, i + 1 as int, curr_indent as int)
                        =~= out_before + render_from(nv, i as int, curr_indent as int));
                }
            },
            SerializeNode::Whitespace(ws) => {
                let incr: i64 = ws.indent_incr as i64;
                let decr: i64 = ws.indent_decr as i64;
                let adjusted = curr_indent + incr - decr;
                curr_indent = if adjusted > 0xFFFF {
                    0xFFFF
                } else if adjusted > 0 {
                    adjusted
                } else {
                    0
                };
                proof {
                    assert(curr_indent as int == next_indent(*ws, indent_before));
                }
                let capped: i64 = if ws.newline > ws.newline_max {
                    ws.newline_max as i64
                } else {
                    ws.newline as i64
                };
                let nl: i64 = if capped < ws.newline_min as i64 {
                    ws.newline_min as i64
                } else {
                    capped
                };
                if nl > 0 {
                    push_repeat(&mut output, '\n', nl);
                    push_repeat(&mut output, ' ', 2 * curr_indent);
                } else {
                    let spaces: i64 = if ws.spaces > 0 {
                        ws.spaces as i64
                    } else {
                        0
                    };
                    push_repeat(&mut output, ' ', spaces);
                }
                proof {
                    assert(output@ =~= out_before + render_ws(*ws, curr_indent as int));
                    assert(output@ + render_from(nv, i + 1 as int, curr_indent as int)
                        =~= out_before + render_from(nv, i as int, indent_before));
                }
            },
        }
        i = i + 1;
    }
    proof {
        assert(render_from(nv, nv.len() as int, curr_indent as int) =~= Seq::<char>::empty());
        assert(output@ =~= render_from(nv, 0, 0));
    }
    output
}

/// The signed rendering of a short bonus: an explicit plus sign for
/// non-negative values.
pub open spec fn signed_text(v: int) -> Seq<char> {
    if v >= 0 {
        seq!['+'] + spec_i32_string(v)
    } else {
        spec_i32_string(v)
    }
}

/// The nodes of one modifier.
pub open spec fn nodes_of_modifier(m: ModifierView) -> Seq<SerializeNodeView> {
    let space = SerializeNodeView::Whitespace(
        WhitespaceOptions {
            indent_incr: 0,
            indent_decr: 0,
            newline_max: 0,
            newline_min: 0,
            newline: 0,
            spaces: 1,
        },
    );
    let no_space = SerializeNodeView::Whitespace(
        WhitespaceOptions {
            indent_incr: 0,
            indent_decr: 0,
            newline_max: 0,
            newline_min: 0,
            newline: 0,
            spaces: 0,
        },
    );
    let newline = SerializeNodeView::Whitespace(
        WhitespaceOptions {
            indent_incr: 0,
            indent_decr: 0,
            newline_max: 2,
            newline_min: 1,
            newline: 1,
            spaces: 0,
        },
    );
    match m.value {
        ModifierValue::SimpleBonus(v) => seq![
            SerializeNodeView::Text(signed_text(v as int)),
            space,
            SerializeNodeView::Text(m.referencing.name),
            no_space,
            SerializeNodeView::Text(";"@),
            newline,
        ],
        ModifierValue::Bonus(v) => seq![
            SerializeNodeView::Text("bonus"@),
            space,
            SerializeNodeView::Text("to"@),
            space,
            SerializeNodeView::Text(m.referencing.name),
            space,
            SerializeNodeView::Text("of"@),
            space,
            SerializeNodeView::Text(spec_i32_string(v as int)),
            no_space,
            SerializeNodeView::Text(";"@),
            newline,
        ],
        ModifierValue::SetTo(v) => seq![
            SerializeNodeView::Text("set"@),
            space,
            SerializeNodeView::Text(m.referencing.name),
            space,
            SerializeNodeView::Text("to"@),
            space,
            SerializeNodeView::Text(spec_i32_string(v as int)),
            no_space,
            SerializeNodeView::Text(";"@),
            newline,
        ],
    }
}

/// The modifier nodes of the first `upto` modifiers of a feature.
pub open spec fn nodes_of_modifiers(mods: Seq<ModifierView>, upto: int) -> Seq<SerializeNodeView>
    decreases upto,
{
    if upto <= 0 {
        Seq::empty()
    } else {
        nodes_of_modifiers(mods, upto - 1) + nodes_of_modifier(mods[upto - 1])
    }
}

/// Bumps the indent decrease of a node; only whitespace nodes change.
pub open spec fn bump_indent_decr(n: SerializeNodeView, by: int) -> SerializeNodeView {
    match n {
        SerializeNodeView::Whitespace(ws) => SerializeNodeView::Whitespace(
            WhitespaceOptions { indent_decr: (ws.indent_decr + by) as i8, ..ws },
        ),
        SerializeNodeView::Text(_) => n,
    }
}

/// The nodes of one feature: name and description lines, and the indented
/// modifier block if there are modifiers; the block's last newline steps
/// the indentation back out.
pub open spec fn nodes_of_feature(f: FeatureView) -> Seq<SerializeNodeView> {
    let space = SerializeNodeView::Whitespace(
        WhitespaceOptions {
            indent_incr: 0,
            indent_decr: 0,
            newline_max: 0,
            newline_min: 0,
            newline: 0,
            spaces: 1,
        },
    );
    let no_space = SerializeNodeView::Whitespace(
        WhitespaceOptions {
            indent_incr: 0,
            indent_decr: 0,
            newline_max: 0,
            newline_min: 0,
            newline: 0,
            spaces: 0,
        },
    );
    let newline = SerializeNodeView::Whitespace(
        WhitespaceOptions {
            indent_incr: 0,
            indent_decr: 0,
            newline_max: 2,
            newline_min: 1,
            newline: 1,
            spaces: 0,
        },
    );
    let header = seq![
        SerializeNodeView::Text("Name"@),
        no_space,
        SerializeNodeView::Text(":"@),
        space,
        SerializeNodeView::Text(seq!['"'] + f.name + seq!['"']),
        newline,
        SerializeNodeView::Text("Description"@),
        no_space,
        SerializeNodeView::Text(":"@),
        space,
        SerializeNodeView::Text(seq!['"'] + f.description + seq!['"']),
        newline,
    ];
    if f.modifiers.len() > 0 {
        let indent_newline = SerializeNodeView::Whitespace(
            WhitespaceOptions {
                indent_incr: 1,
                indent_decr: 0,
                newline_max: 2,
                newline_min: 1,
                newline: 1,
                spaces: 0,
            },
        );
        let block = header + seq![
            SerializeNodeView::Text("Modifiers"@),
            no_space,
            SerializeNodeView::Text(":"@),
            indent_newline,
        ] + nodes_of_modifiers(f.modifiers, f.modifiers.len() as int);
        block.update(block.len() - 1, bump_indent_decr(block.last(), 1))
    } else {
        header
    }
}

/// The nodes of the first `upto` features of a model, after the leading
/// no-space node.
pub open spec fn nodes_of_features(features: Seq<FeatureView>, upto: int) -> Seq<
    SerializeNodeView,
>
    decreases upto,
{
    if upto <= 0 {
        Seq::empty()
    } else {
        nodes_of_features(features, upto - 1) + nodes_of_feature(features[upto - 1])
    }
}

/// The nodes of a whole model.
pub open spec fn nodes_of_model(m: ModelView) -> Seq<SerializeNodeView> {
    seq![
        SerializeNodeView::Whitespace(
            WhitespaceOptions {
                indent_incr: 0,
                indent_decr: 0,
                newline_max: 0,
                newline_min: 0,
                newline: 0,
                spaces: 0,
            },
        ),
    ] + nodes_of_features(m.features, m.features.len() as int)
}

/// What an abstract syntax tree serializes to.
pub open spec fn spec_serialize(a: ASTView) -> Seq<char> {
    spec_print_nodes(nodes_of_model(a.model))
}

/// Builds the node list of a model, feature by feature.
struct Serializer {
    pub nodes: Vec<SerializeNode>,
}

impl Serializer {
    /// Appends one node.
    fn push_node(&mut self, n: SerializeNode)
        ensures
            final(self).nodes.deep_view() == old(self).nodes.deep_view().push(n.deep_view()),
    {
        let ghost before = self.nodes.deep_view();
        let ghost nv = n.deep_view();
        self.nodes.push(n);
        proof {
            assert(self.nodes.deep_view() =~= before.push(nv));
        }
    }

    /// Steps the indentation of the lines after the last node back out by
    /// `nr` levels; only a whitespace node can carry the step.
    fn decrease_indent(&mut self, nr: i8)
        requires
            old(self).nodes.deep_view().len() > 0,
            nr >= 0,
            (old(self).nodes.deep_view().last() matches SerializeNodeView::Whitespace(ws) ==> ws.indent_decr + nr <= i8::MAX),
        ensures
            final(self).nodes.deep_view() == old(self).nodes.deep_view().update(
                old(self).nodes.deep_view().len() - 1,
                bump_indent_decr(old(self).nodes.deep_view().last(), nr as int),
            ),
    {
        let ghost before = self.nodes.deep_view();
        let idx = self.nodes.len() - 1;
        let new_node = match &self.nodes[idx] {
            SerializeNode::Whitespace(ws) => {
                let mut w2 = *ws;
                w2.indent_decr = w2.indent_decr + nr;
                SerializeNode::Whitespace(w2)
            },
            SerializeNode::Text(t) => SerializeNode::Text(t.clone()),
        };
        proof {
            assert(new_node.deep_view() == bump_indent_decr(before.last(), nr as int));
        }
        self.nodes.set(idx, new_node);
        proof {
            assert(self.nodes.deep_view() =~= before.update(
                before.len() - 1,
                bump_indent_decr(before.last(), nr as int),
            ));
        }
    }

    /// Appends the nodes of one modifier.
    fn serialize_modifier(&mut self, modifier: &Modifier)
        ensures
            final(self).nodes.deep_view() == old(self).nodes.deep_view() + nodes_of_modifier(
                modifier.deep_view(),
            ),
    {
        let ghost before = self.nodes.deep_view();
        match &modifier.value {
            ModifierValue::SimpleBonus(v) => {
                let number_text = crate::text::i32_to_string(*v);
                let text = if *v >= 0 {
                    let mut t = String::new();
                    push_char(&mut t, '+');
                    t.append(number_text.as_str());
                    proof {
                        assert(t@ =~= signed_text(*v as int));
                    }
                    t
                } else {
                    number_text
                };
                self.push_node(SerializeNode::Text(text));
                self.push_node(SerializeNode::new_space());
                self.push_node(SerializeNode::Text(modifier.referencing.name.clone()));
                self.push_node(SerializeNode::new_no_space());
                self.push_node(SerializeNode::new_text(";"));
                self.push_node(SerializeNode::new_newline());
                proof {
                    assert(self.nodes.deep_view() =~= before + nodes_of_modifier(
                        modifier.deep_view(),
                    ));
                }
            },
            ModifierValue::Bonus(v) => {
                self.push_node(SerializeNode::new_text("bonus"));
                self.push_node(SerializeNode::new_space());
                self.push_node(SerializeNode::new_text("to"));
                self.push_node(SerializeNode::new_space());
                self.push_node(SerializeNode::Text(modifier.referencing.name.clone()));
                self.push_node(SerializeNode::new_space());
                self.push_node(SerializeNode::new_text("of"));
                self.push_node(SerializeNode::new_space());
                self.push_node(SerializeNode::Text(crate::text::i32_to_string(*v)));
                self.push_node(SerializeNode::new_no_space());
                self.push_node(SerializeNode::new_text(";"));
                self.push_node(SerializeNode::new_newline());
                proof {
                    assert(self.nodes.deep_view() =~= before + nodes_of_modifier(
                        modifier.deep_view(),
                    ));
                }
            },
            ModifierValue::SetTo(v) => {
                self.push_node(SerializeNode::new_text("set"));
                self.push_node(SerializeNode::new_space());
                self.push_node(SerializeNode::Text(modifier.referencing.name.clone()));
                self.push_node(SerializeNode::new_space());
                self.push_node(SerializeNode::new_text("to"));
                self.push_node(SerializeNode::new_space());
                self.push_node(SerializeNode::Text(crate::text::i32_to_string(*v)));
                self.push_node(SerializeNode::new_no_space());
                self.push_node(SerializeNode::new_text(";"));
                self.push_node(SerializeNode::new_newline());
                proof {
                    assert(self.nodes.deep_view() =~= before + nodes_of_modifier(
                        modifier.deep_view(),
                    ));
                }
            },
        }
    }

    /// Appends the quoted form of a text.
    fn push_quoted(&mut self, text: &str)
        ensures
            final(self).nodes.deep_view() == old(self).nodes.deep_view().push(
                SerializeNodeView::Text(seq!['"'] + text@ + seq!['"']),
            ),
    {
        let mut quoted = String::new();
        push_char(&mut quoted, '"');
        quoted.append(text);
        push_char(&mut quoted, '"');
        proof {
            assert(quoted@ =~= seq!['"'] + text@ + seq!['"']);
        }
        self.push_node(SerializeNode::Text(quoted));
    }

    /// Appends the nodes of one feature.
    fn serialize_feature(&mut self, feature: &crate::ast::Feature)
        ensures
            final(self).nodes.deep_view() == old(self).nodes.deep_view() + nodes_of_feature(
                feature.deep_view(),
            ),
    {
        let ghost before = self.nodes.deep_view();
        let ghost fv = feature.deep_view();
        self.push_node(SerializeNode::new_text("Name"));
        self.push_node(SerializeNode::new_no_space());
        self.push_node(SerializeNode::new_text(":"));
        self.push_node(SerializeNode::new_space());
        self.push_quoted(feature.name.as_str());
        self.push_node(SerializeNode::new_newline());
        self.push_node(SerializeNode::new_text("Description"));
        self.push_node(SerializeNode::new_no_space());
        self.push_node(SerializeNode::new_text(":"));
        self.push_node(SerializeNode::new_space());
        self.push_quoted(feature.description.as_str());
        self.push_node(SerializeNode::new_newline());
        if feature.modifiers.len() > 0 {
            self.push_node(SerializeNode::new_text("Modifiers"));
            self.push_node(SerializeNode::new_no_space());
            self.push_node(SerializeNode::new_text(":"));
            self.push_node(
                SerializeNode::Whitespace(WhitespaceOptions::new_newline().with_indent_incr(1)),
            );
            let ghost block_base = self.nodes.deep_view();
            let mut i: usize = 0;
            while i < feature.modifiers.len()
                invariant
                    i <= feature.modifiers@.len(),
                    fv == feature.deep_view(),
                    fv.modifiers.len() == feature.modifiers@.len(),
                    block_base == self.nodes.deep_view().subrange(0, block_base.len() as int)
                        || true,
                    self.nodes.deep_view() == block_base + nodes_of_modifiers(
                        fv.modifiers,
                        i as int,
                    ),
                decreases feature.modifiers@.len() - i,
            {
                proof {
                    assert(feature.modifiers@[i as int].deep_view() == fv.modifiers[i as int]);
                }
                self.serialize_modifier(&feature.modifiers[i]);
                proof {
                    assert(self.nodes.deep_view() =~= block_base + nodes_of_modifiers(
                        fv.modifiers,
                        i + 1 as int,
                    ));
                }
                i = i + 1;
            }
            proof {
                // the block is non-empty and ends with the newline of the
                // last modifier
                let mods = nodes_of_modifiers(fv.modifiers, fv.modifiers.len() as int);
                assert(nodes_of_modifier(
                    fv.modifiers[fv.modifiers.len() - 1],
                ).last() matches SerializeNodeView::Whitespace(ws) && ws.indent_decr == 0);
                assert(mods.last() == nodes_of_modifier(
                    fv.modifiers[fv.modifiers.len() - 1],
                ).last());
                assert(self.nodes.deep_view().last() == mods.last());
                assert(self.nodes.deep_view().len() > 0);
            }
            self.decrease_indent(1);
            proof {
                assert(self.nodes.deep_view() =~= before + nodes_of_feature(fv));
            }
        } else {
            proof {
                assert(fv.modifiers.len() == 0);
                assert(self.nodes.deep_view() =~= before + nodes_of_feature(fv));
            }
        }
    }

    /// Appends the nodes of a whole model.
    fn serialize_model(&mut self, model: &Model)
        ensures
            final(self).nodes.deep_view() == old(self).nodes.deep_view() + nodes_of_model(
                model.deep_view(),
            ),
    {
        let ghost before = self.nodes.deep_view();
        let ghost mv = model.deep_view();
        self.push_node(SerializeNode::new_no_space());
        let ghost base = self.nodes.deep_view();
        let mut i: usize = 0;
        while i < model.features.len()
            invariant
                i <= model.features@.len(),
                mv == model.deep_view(),
                mv.features.len() == model.features@.len(),
                self.nodes.deep_view() == base + nodes_of_features(mv.features, i as int),
            decreases model.features@.len() - i,
        {
            proof {
                assert(model.features@[i as int].deep_view() == mv.features[i as int]);
            }
            self.serialize_feature(&model.features[i]);
            proof {
                assert(self.nodes.deep_view() =~= base + nodes_of_features(
                    mv.features,
                    i + 1 as int,
                ));
            }
            i = i + 1;
        }
        proof {
            assert(self.nodes.deep_view() =~= before + nodes_of_model(mv));
        }
    }
}

/// Builds the render nodes of an abstract syntax tree.
fn create_serialize_nodes(ast: &AST) -> (r: Vec<SerializeNode>)
    ensures
        r.deep_view() == nodes_of_model(ast.deep_view().model),
{
    let nodes: Vec<SerializeNode> = Vec::new();
    let mut serializer = Serializer { nodes };
    proof {
        assert(serializer.nodes.deep_view() =~= Seq::<SerializeNodeView>::empty());
    }
    serializer.serialize_model(&ast.model);
    proof {
        assert(serializer.nodes.deep_view() =~= nodes_of_model(ast.deep_view().model));
    }
    serializer.nodes
}

/// Renders an abstract syntax tree back to text.
pub fn serialize(ast: &AST) -> (r: String)
    ensures
        r@ == spec_serialize(ast.deep_view()),
{
    let serialize_nodes = create_serialize_nodes(ast);
    print_nodes(serialize_nodes)
}

} // verus!
