use vstd::prelude::*;
use vstd::string::{StringExecFns, StringSliceAdditionalSpecFns};
use vstd::utf8::encode_utf8;

use crate::language::error::{CalcErrorKind, CalculatorError, ErrorView, KindView, SourceSpan};
use crate::language::expr::{BinaryOpKind, Expr};
use crate::language::number::{integer_of, parse_integer};
use crate::language::text::{bytes_at, span_bytes, span_text, text_at, text_eq};
use crate::language::Calculator;

verus! {

/// A node of a parse tree, as mathematics.
pub struct NodeView {
    /// The grammar's name for the node.
    pub kind: Seq<char>,
    /// The name of the field under which the parent holds the node, if any.
    pub field: Option<Seq<char>>,
    /// Where the node's text starts in the source, in bytes.
    pub start_byte: usize,
    /// Where the node's text ends in the source, in bytes.
    pub end_byte: usize,
    /// For a float literal: the bit pattern of the number that its text
    /// writes, none where the text writes no number.
    pub float_value: Option<u64>,
    pub children: Seq<NodeView>,
}

/// A node of a parse tree: what a parser found in the source text. Its span
/// never ends before it starts.
pub struct SyntaxNode {
    kind: String,
    field: Option<String>,
    start_byte: usize,
    end_byte: usize,
    float_value: Option<u64>,
    children: Vec<SyntaxNode>,
}

impl View for SyntaxNode {
    type V = NodeView;

    closed spec fn view(&self) -> NodeView
        decreases self, 1int,
    {
        NodeView {
            kind: self.kind@,
            field: match self.field {
                Some(name) => Some(name@),
                None => None,
            },
            start_byte: self.start_byte,
            end_byte: self.end_byte,
            float_value: self.float_value,
            children: views_of(self.children@),
        }
    }
}

/// The views of a sequence of nodes.
pub closed spec fn views_of(nodes: Seq<SyntaxNode>) -> Seq<NodeView>
    decreases nodes, 0int,
{
    if nodes.len() == 0 {
        Seq::empty()
    } else {
        views_of(nodes.drop_last()).push(nodes.last()@)
    }
}

proof fn lemma_views_of(nodes: Seq<SyntaxNode>)
    ensures
        views_of(nodes).len() == nodes.len(),
        forall|i: int| 0 <= i < nodes.len() ==> #[trigger] views_of(nodes)[i] == nodes[i]@,
    decreases nodes.len(),
{
    if nodes.len() > 0 {
        lemma_views_of(nodes.drop_last());
        assert(views_of(nodes) == views_of(nodes.drop_last()).push(nodes.last()@));
    } else {
        assert(views_of(nodes) == Seq::<NodeView>::empty());
    }
}

impl NodeView {
    /// The region of the source that the node covers.
    pub open spec fn span(self) -> SourceSpan {
        SourceSpan { offset: self.start_byte, length: (self.end_byte - self.start_byte) as usize }
    }

    /// The node's text in `source`, or `fallback` where its span holds none.
    pub open spec fn text_or(self, source: Seq<char>, fallback: Seq<char>) -> Seq<char> {
        match span_text(encode_utf8(source), self.start_byte as int, self.end_byte as int) {
            Some(text) => text,
            None => fallback,
        }
    }

    /// A diagnostic on `source` that covers the node.
    pub open spec fn failure(self, source: Seq<char>, kind: KindView, help: Seq<char>) -> ErrorView {
        ErrorView { name: "calculator"@, source, span: self.span(), kind, help: Some(help) }
    }

    /// The diagnostic for a node that the parser marked as an error.
    pub open spec fn syntax_failure(self, source: Seq<char>, help: Seq<char>) -> ErrorView {
        self.failure(
            source,
            KindView::ParseError(
                "Syntax error near '"@ + self.text_or(source, "Syntax error"@) + "'"@,
            ),
            help,
        )
    }

    /// The index of the first child at or after `from` that the node holds
    /// under the field `name`.
    pub open spec fn field_index(self, name: Seq<char>, from: int) -> Option<int>
        decreases self.children.len() - from,
    {
        if from < 0 || from >= self.children.len() {
            None
        } else if self.children[from].field == Some(name) {
            Some(from)
        } else {
            self.field_index(name, from + 1)
        }
    }

    /// The nodes marked as errors in the tree under this node, a node before
    /// its children and the children from first to last.
    pub open spec fn error_nodes(self) -> Seq<NodeView>
        decreases self, 1int,
    {
        let own = if self.kind == "ERROR"@ {
            seq![self]
        } else {
            Seq::empty()
        };
        own + Self::error_nodes_among(self.children)
    }

    /// The nodes marked as errors in the trees under `nodes`, in order.
    pub open spec fn error_nodes_among(nodes: Seq<NodeView>) -> Seq<NodeView>
        decreases nodes, 0int,
    {
        if nodes.len() == 0 {
            Seq::empty()
        } else {
            Self::error_nodes_among(nodes.drop_last()) + nodes.last().error_nodes()
        }
    }

    /// The operator that a binary node holds in its `operator` field.
    pub open spec fn operator(self, source: Seq<char>) -> Result<BinaryOpKind, ErrorView> {
        let missing = self.failure(
            source,
            KindView::ParseError("Missing operator"@),
            "Binary expression must have an operator"@,
        );
        match self.field_index("operator"@, 0) {
            None => Err(missing),
            Some(i) => match span_text(
                encode_utf8(source),
                self.children[i].start_byte as int,
                self.children[i].end_byte as int,
            ) {
                None => Err(missing),
                Some(text) => if text == "+"@ {
                    Ok(BinaryOpKind::Add)
                } else if text == "-"@ {
                    Ok(BinaryOpKind::Subtract)
                } else if text == "*"@ {
                    Ok(BinaryOpKind::Multiply)
                } else if text == "/"@ {
                    Ok(BinaryOpKind::Divide)
                } else {
                    Err(
                        self.failure(
                            source,
                            KindView::InvalidOperator(text),
                            "Only +, -, *, and / operators are supported"@,
                        ),
                    )
                },
            },
        }
    }

    /// The expression that the tree under this node writes, or the first
    /// failure met on the way: a wrapper node stands for its first child, a
    /// parenthesised node for its `inner` field, a literal for its number, a
    /// binary node for its `left`, `operator` and `right` fields, read in
    /// that order.
    pub open spec fn lowered(self, source: Seq<char>) -> Result<Expr, ErrorView>
        decreases self,
    {
        if self.kind == "ERROR"@ {
            Err(self.syntax_failure(source, "Check the expression syntax."@))
        } else if self.kind == "source"@ {
            if self.children.len() == 0 {
                Err(
                    self.failure(
                        source,
                        KindView::ParseError("Empty expression"@),
                        "Expression cannot be empty"@,
                    ),
                )
            } else {
                self.children[0].lowered(source)
            }
        } else if self.kind == "expression"@ {
            if self.children.len() == 0 {
                Err(
                    self.failure(
                        source,
                        KindView::ParseError("Empty expression node"@),
                        "Expression node must contain a value"@,
                    ),
                )
            } else {
                self.children[0].lowered(source)
            }
        } else if self.kind == "parenthesized_expression"@ {
            match self.field_index("inner"@, 0) {
                Some(i) if 0 <= i < self.children.len() => match self.children[i].lowered(source) {
                    Ok(inner) => Ok(Expr::Parenthesized(Box::new(inner))),
                    Err(e) => Err(e),
                },
                _ => Err(
                    self.failure(
                        source,
                        KindView::ParseError("Empty parentheses"@),
                        "Parentheses cannot be empty"@,
                    ),
                ),
            }
        } else if self.kind == "number"@ {
            match integer_of(
                span_bytes(encode_utf8(source), self.start_byte as int, self.end_byte as int),
            ) {
                Some(n) => Ok(Expr::Integer(n)),
                None => Err(
                    self.failure(
                        source,
                        KindView::NumberError("Failed to parse integer"@),
                        "Make sure the number is a valid integer"@,
                    ),
                ),
            }
        } else if self.kind == "float"@ {
            match self.float_value {
                Some(bits) => Ok(Expr::Float(bits)),
                None => Err(
                    self.failure(
                        source,
                        KindView::NumberError("Failed to parse float"@),
                        "Make sure the number is a valid floating point number"@,
                    ),
                ),
            }
        } else if self.kind == "binary_expression"@ {
            match self.field_index("left"@, 0) {
                Some(l) if 0 <= l < self.children.len() => match self.children[l].lowered(source) {
                    Err(e) => Err(e),
                    Ok(left) => match self.operator(source) {
                        Err(e) => Err(e),
                        Ok(op) => match self.field_index("right"@, 0) {
                            Some(r) if 0 <= r < self.children.len() => match self.children[r].lowered(
                                source,
                            ) {
                                Err(e) => Err(e),
                                Ok(right) => Ok(
                                    Expr::BinaryOp {
                                        left: Box::new(left),
                                        op,
                                        right: Box::new(right),
                                    },
                                ),
                            },
                            _ => Err(
                                self.failure(
                                    source,
                                    KindView::ParseError("Missing right operand"@),
                                    "Binary expression must have a right operand"@,
                                ),
                            ),
                        },
                    },
                },
                _ => Err(
                    self.failure(
                        source,
                        KindView::ParseError("Missing left operand"@),
                        "Binary expression must have a left operand"@,
                    ),
                ),
            }
        } else {
            Err(
                self.failure(
                    source,
                    KindView::ParseError("Unexpected node type '"@ + self.kind + "'"@),
                    "Expression must be a number, float, or binary operation"@,
                ),
            )
        }
    }

    /// A field index, where there is one, is the index of a child.
    pub proof fn lemma_field_index_in_range(self, name: Seq<char>, from: int)
        ensures
            self.field_index(name, from) matches Some(i) ==> from <= i < self.children.len()
                && self.children[i].field == Some(name),
        decreases self.children.len() - from,
    {
        if 0 <= from < self.children.len() && self.children[from].field != Some(name) {
            self.lemma_field_index_in_range(name, from + 1);
        }
    }
}

/// What a lowering returned, as mathematics.
pub open spec fn lowering_view(r: Result<Expr, CalculatorError>) -> Result<Expr, ErrorView> {
    match r {
        Ok(expr) => Ok(expr),
        Err(e) => Err(e@),
    }
}

impl SyntaxNode {
    #[verifier::type_invariant]
    spec fn span_ordered(&self) -> bool {
        self.start_byte <= self.end_byte
    }

    /// The view of a node holds the node's fields and its children's views.
    proof fn lemma_view(&self)
        ensures
            self@.kind == self.kind@,
            self@.field == match self.field {
                Some(name) => Some(name@),
                None => None,
            },
            self@.start_byte == self.start_byte,
            self@.end_byte == self.end_byte,
            self@.float_value == self.float_value,
            self@.children.len() == self.children@.len(),
            forall|i: int|
                0 <= i < self.children@.len() ==> #[trigger] self@.children[i]
                    == self.children@[i]@,
    {
        lemma_views_of(self.children@);
    }

    /// A node without field, number or children.
    pub fn new(kind: &str, start_byte: usize, end_byte: usize) -> (node: Self)
        requires
            start_byte <= end_byte,
        ensures
            node@ == (NodeView {
                kind: kind@,
                field: None,
                start_byte,
                end_byte,
                float_value: None,
                children: Seq::empty(),
            }),
    {
        let node = SyntaxNode {
            kind: String::from_str(kind),
            field: None,
            start_byte,
            end_byte,
            float_value: None,
            children: Vec::new(),
        };
        node
    }

    /// The node, held by its parent under the field `name`.
    pub fn with_field(self, name: &str) -> (node: Self)
        ensures
            node@ == (NodeView { field: Some(name@), ..self@ }),
    {
        proof {
            use_type_invariant(&self);
            self.lemma_view();
        }
        let node = SyntaxNode {
            kind: self.kind,
            field: Some(String::from_str(name)),
            start_byte: self.start_byte,
            end_byte: self.end_byte,
            float_value: self.float_value,
            children: self.children,
        };
        proof {
            node.lemma_view();
            assert(node@.children =~= self@.children);
        }
        node
    }

    /// The node, as a float literal that writes the number with the bit
    /// pattern `bits`.
    pub fn with_float_value(self, bits: u64) -> (node: Self)
        ensures
            node@ == (NodeView { float_value: Some(bits), ..self@ }),
    {
        proof {
            use_type_invariant(&self);
            self.lemma_view();
        }
        let node = SyntaxNode {
            kind: self.kind,
            field: self.field,
            start_byte: self.start_byte,
            end_byte: self.end_byte,
            float_value: Some(bits),
            children: self.children,
        };
        proof {
            node.lemma_view();
            assert(node@.children =~= self@.children);
        }
        node
    }

    /// The node, with `child` behind its other children.
    pub fn with_child(self, child: SyntaxNode) -> (node: Self)
        ensures
            node@ == (NodeView { children: self@.children.push(child@), ..self@ }),
    {
        proof {
            use_type_invariant(&self);
            self.lemma_view();
        }
        let mut children = self.children;
        children.push(child);
        let node = SyntaxNode {
            kind: self.kind,
            field: self.field,
            start_byte: self.start_byte,
            end_byte: self.end_byte,
            float_value: self.float_value,
            children,
        };
        proof {
            node.lemma_view();
            assert(node@.children =~= self@.children.push(child@));
        }
        node
    }

    /// The grammar's name for the node.
    pub fn kind(&self) -> (r: &str)
        ensures
            r@ == self@.kind,
    {
        proof {
            self.lemma_view();
        }
        self.kind.as_str()
    }

    /// Where the node's text starts in the source, in bytes.
    pub fn start_byte(&self) -> (r: usize)
        ensures
            r == self@.start_byte,
    {
        proof {
            self.lemma_view();
        }
        self.start_byte
    }

    /// Where the node's text ends in the source, in bytes.
    pub fn end_byte(&self) -> (r: usize)
        ensures
            r == self@.end_byte,
            r >= self@.start_byte,
    {
        proof {
            use_type_invariant(self);
            self.lemma_view();
        }
        self.end_byte
    }

    /// The number of children.
    pub fn child_count(&self) -> (r: usize)
        ensures
            r == self@.children.len(),
    {
        proof {
            self.lemma_view();
        }
        self.children.len()
    }

    /// The child at `index`.
    pub fn child(&self, index: usize) -> (r: Option<&SyntaxNode>)
        ensures
            match r {
                Some(child) => index < self@.children.len() && child@ == self@.children[index as int],
                None => index >= self@.children.len(),
            },
    {
        proof {
            self.lemma_view();
        }
        if index < self.children.len() {
            Some(&self.children[index])
        } else {
            None
        }
    }

    /// The first child held under the field `name`.
    pub fn child_by_field_name(&self, name: &str) -> (r: Option<&SyntaxNode>)
        ensures
            match r {
                Some(child) => self@.field_index(name@, 0) matches Some(i) && 0 <= i
                    < self@.children.len() && child@ == self@.children[i],
                None => self@.field_index(name@, 0) is None,
            },
    {
        proof {
            self.lemma_view();
        }
        match self.field_position(name) {
            Some(i) => Some(&self.children[i]),
            None => None,
        }
    }

    /// The diagnostic on `input` that covers this node.
    fn failure(&self, input: &str, kind: CalcErrorKind, help: &str) -> (e: CalculatorError)
        ensures
            e@ == self@.failure(input@, kind@, help@),
    {
        proof {
            use_type_invariant(self);
        }
        CalculatorError::on_source(
            input,
            self.start_byte,
            self.end_byte - self.start_byte,
            kind,
            Some(help),
        )
    }

    /// The diagnostic for this node where the parser marked it as an error.
    pub fn syntax_failure(&self, input: &str, help: &str) -> (e: CalculatorError)
        ensures
            e@ == self@.syntax_failure(input@, help@),
    {
        let near = match text_at(input, self.start_byte, self.end_byte) {
            Some(text) => text,
            None => "Syntax error",
        };
        let mut detail = String::from_str("Syntax error near '");
        detail.append(near);
        detail.append("'");
        self.failure(input, CalcErrorKind::ParseError(detail), help)
    }

    /// The index of the first child held under the field `name`.
    fn field_position(&self, name: &str) -> (r: Option<usize>)
        ensures
            match r {
                Some(i) => self@.field_index(name@, 0) == Some(i as int) && i
                    < self.children@.len(),
                None => self@.field_index(name@, 0) is None,
            },
    {
        proof {
            self.lemma_view();
        }
        let mut i: usize = 0;
        while i < self.children.len()
            invariant
                i <= self.children.len(),
                self@.children.len() == self.children@.len(),
                forall|j: int|
                    0 <= j < self.children@.len() ==> #[trigger] self@.children[j]
                        == self.children@[j]@,
                self@.field_index(name@, 0) == self@.field_index(name@, i as int),
            decreases self.children.len() - i,
        {
            let child = &self.children[i];
            proof {
                child.lemma_view();
            }
            let held = match &child.field {
                Some(field) => text_eq(field.as_str(), name),
                None => false,
            };
            if held {
                return Some(i);
            }
            i += 1;
        }
        None
    }

    /// The operator that this binary node holds.
    fn operator(&self, input: &str) -> (r: Result<BinaryOpKind, CalculatorError>)
        ensures
            match r {
                Ok(op) => self@.operator(input@) == Ok::<BinaryOpKind, ErrorView>(op),
                Err(e) => self@.operator(input@) == Err::<BinaryOpKind, ErrorView>(e@),
            },
    {
        proof {
            self.lemma_view();
        }
        let text = match self.field_position("operator") {
            Some(i) => {
                let node = &self.children[i];
                proof {
                    node.lemma_view();
                }
                text_at(input, node.start_byte, node.end_byte)
            },
            None => None,
        };
        match text {
            None => Err(
                self.failure(
                    input,
                    CalcErrorKind::ParseError(String::from_str("Missing operator")),
                    "Binary expression must have an operator",
                ),
            ),
            Some(text) => if text_eq(text, "+") {
                Ok(BinaryOpKind::Add)
            } else if text_eq(text, "-") {
                Ok(BinaryOpKind::Subtract)
            } else if text_eq(text, "*") {
                Ok(BinaryOpKind::Multiply)
            } else if text_eq(text, "/") {
                Ok(BinaryOpKind::Divide)
            } else {
                Err(
                    self.failure(
                        input,
                        CalcErrorKind::InvalidOperator(String::from_str(text)),
                        "Only +, -, *, and / operators are supported",
                    ),
                )
            },
        }
    }
}

/// The views of a sequence of borrowed nodes.
pub open spec fn views_of_borrowed(nodes: Seq<&SyntaxNode>) -> Seq<NodeView> {
    Seq::new(nodes.len(), |i: int| nodes[i]@)
}

/// Appends to `errors` the nodes marked as errors in the tree under `node`,
/// a node before its children and the children from first to last.
pub fn collect_error_nodes<'a>(node: &'a SyntaxNode, errors: &mut Vec<&'a SyntaxNode>)
    ensures
        views_of_borrowed(final(errors)@) == views_of_borrowed(old(errors)@)
            + node@.error_nodes(),
    decreases node,
{
    proof {
        node.lemma_view();
    }
    let ghost before = views_of_borrowed(errors@);
    if text_eq(node.kind.as_str(), "ERROR") {
        errors.push(node);
    }
    let ghost own = if node@.kind == "ERROR"@ {
        seq![node@]
    } else {
        Seq::empty()
    };
    assert(views_of_borrowed(errors@) =~= before + own);
    let mut i: usize = 0;
    while i < node.children.len()
        invariant
            i <= node.children.len(),
            node@.children.len() == node.children@.len(),
            forall|j: int|
                0 <= j < node.children@.len() ==> #[trigger] node@.children[j]
                    == node.children@[j]@,
            views_of_borrowed(errors@) == before + own + NodeView::error_nodes_among(
                node@.children.take(i as int),
            ),
        decreases node.children.len() - i,
    {
        let ghost so_far = views_of_borrowed(errors@);
        collect_error_nodes(&node.children[i], errors);
        proof {
            let next = node@.children.take(i + 1);
            assert(next.drop_last() =~= node@.children.take(i as int));
            assert(next.last() == node@.children[i as int]);
            assert(NodeView::error_nodes_among(next) == NodeView::error_nodes_among(
                next.drop_last(),
            ) + next.last().error_nodes());
            assert(views_of_borrowed(errors@) =~= before + own + NodeView::error_nodes_among(
                next,
            ));
        }
        i += 1;
    }
    proof {
        assert(node@.children.take(i as int) =~= node@.children);
        assert(node@.error_nodes() == own + NodeView::error_nodes_among(node@.children));
        assert(views_of_borrowed(errors@) =~= before + node@.error_nodes());
    }
}

impl Calculator {
    /// Checks the tree for nodes that the parser marked as errors: the first
    /// such node, in the order of `collect_error_nodes`, gives the diagnostic.
    pub fn validate(&self, input: &str, root: &SyntaxNode) -> (r: Result<(), CalculatorError>)
        ensures
            match r {
                Ok(_) => root@.error_nodes().len() == 0,
                Err(e) => root@.error_nodes().len() > 0 && e@ == root@.error_nodes()[0].syntax_failure(
                    input@,
                    "Ensure that your expression follows the correct syntax."@,
                ),
            },
    {
        let mut errors: Vec<&SyntaxNode> = Vec::new();
        collect_error_nodes(root, &mut errors);
        assert(views_of_borrowed(errors@) =~= root@.error_nodes());
        if errors.len() > 0 {
            let first = errors[0];
            assert(views_of_borrowed(errors@)[0] == first@);
            Err(
                first.syntax_failure(
                    input,
                    "Ensure that your expression follows the correct syntax.",
                ),
            )
        } else {
            Ok(())
        }
    }

    /// Builds the expression that the tree under `node` writes in `input`.
    pub fn node_to_expr(&self, input: &str, node: &SyntaxNode) -> (r: Result<
        Expr,
        CalculatorError,
    >)
        ensures
            lowering_view(r) == node@.lowered(input@),
        decreases node,
    {
        proof {
            node.lemma_view();
            node@.lemma_field_index_in_range("inner"@, 0);
            node@.lemma_field_index_in_range("left"@, 0);
            node@.lemma_field_index_in_range("right"@, 0);
        }
        let kind = node.kind.as_str();
        if text_eq(kind, "ERROR") {
            Err(node.syntax_failure(input, "Check the expression syntax."))
        } else if text_eq(kind, "source") {
            if node.children.len() == 0 {
                Err(
                    node.failure(
                        input,
                        CalcErrorKind::ParseError(String::from_str("Empty expression")),
                        "Expression cannot be empty",
                    ),
                )
            } else {
                self.node_to_expr(input, &node.children[0])
            }
        } else if text_eq(kind, "expression") {
            if node.children.len() == 0 {
                Err(
                    node.failure(
                        input,
                        CalcErrorKind::ParseError(String::from_str("Empty expression node")),
                        "Expression node must contain a value",
                    ),
                )
            } else {
                self.node_to_expr(input, &node.children[0])
            }
        } else if text_eq(kind, "parenthesized_expression") {
            match node.field_position("inner") {
                None => Err(
                    node.failure(
                        input,
                        CalcErrorKind::ParseError(String::from_str("Empty parentheses")),
                        "Parentheses cannot be empty",
                    ),
                ),
                Some(i) => match self.node_to_expr(input, &node.children[i]) {
                    Ok(inner) => Ok(Expr::Parenthesized(Box::new(inner))),
                    Err(e) => Err(e),
                },
            }
        } else if text_eq(kind, "number") {
            match parse_integer(bytes_at(input, node.start_byte, node.end_byte)) {
                Some(n) => Ok(Expr::Integer(n)),
                None => Err(
                    node.failure(
                        input,
                        CalcErrorKind::NumberError(String::from_str("Failed to parse integer")),
                        "Make sure the number is a valid integer",
                    ),
                ),
            }
        } else if text_eq(kind, "float") {
            match node.float_value {
                Some(bits) => Ok(Expr::Float(bits)),
                None => Err(
                    node.failure(
                        input,
                        CalcErrorKind::NumberError(String::from_str("Failed to parse float")),
                        "Make sure the number is a valid floating point number",
                    ),
                ),
            }
        } else if text_eq(kind, "binary_expression") {
            let left = match node.field_position("left") {
                None => {
                    return Err(
                        node.failure(
                            input,
                            CalcErrorKind::ParseError(String::from_str("Missing left operand")),
                            "Binary expression must have a left operand",
                        ),
                    );
                },
                Some(l) => match self.node_to_expr(input, &node.children[l]) {
                    Ok(left) => left,
                    Err(e) => {
                        return Err(e);
                    },
                },
            };
            let op = match node.operator(input) {
                Ok(op) => op,
                Err(e) => {
                    return Err(e);
                },
            };
            let right = match node.field_position("right") {
                None => {
                    return Err(
                        node.failure(
                            input,
                            CalcErrorKind::ParseError(String::from_str("Missing right operand")),
                            "Binary expression must have a right operand",
                        ),
                    );
                },
                Some(r) => match self.node_to_expr(input, &node.children[r]) {
                    Ok(right) => right,
                    Err(e) => {
                        return Err(e);
                    },
                },
            };
            Ok(Expr::BinaryOp { left: Box::new(left), op, right: Box::new(right) })
        } else {
            let mut detail = String::from_str("Unexpected node type '");
            detail.append(kind);
            detail.append("'");
            Err(
                node.failure(
                    input,
                    CalcErrorKind::ParseError(detail),
                    "Expression must be a number, float, or binary operation",
                ),
            )
        }
    }
}

} // verus!
