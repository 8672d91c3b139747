//! The syntax tree: expressions and statements, with their mathematical
//! models.

use vstd::prelude::*;

verus! {

/// A line and column in the source text.
#[derive(Clone, Copy, Debug, PartialEq, Eq, Structural)]
pub struct SourceLocation {
    pub line: usize,
    pub col: i64,
}

/// A name together with the place where it was written.
#[derive(Debug, PartialEq)]
pub struct Symbol {
    pub name: String,
    pub line: usize,
    pub col: i64,
}

/// The model of a [`Symbol`].
pub struct SymbolView {
    pub name: Seq<char>,
    pub line: usize,
    pub col: i64,
}

impl View for Symbol {
    type V = SymbolView;

    open spec fn view(&self) -> SymbolView {
        SymbolView { name: self.name@, line: self.line, col: self.col }
    }
}

impl Clone for Symbol {
    fn clone(&self) -> (copy: Self)
        ensures
            copy@ == self@,
    {
        Symbol { name: self.name.clone(), line: self.line, col: self.col }
    }
}

impl Symbol {
    /// Where the symbol was written.
    pub fn location(&self) -> (place: SourceLocation)
        ensures
            place == self@.location(),
    {
        SourceLocation { line: self.line, col: self.col }
    }
}

impl SymbolView {
    /// Where the symbol was written.
    pub open spec fn location(self) -> SourceLocation {
        SourceLocation { line: self.line, col: self.col }
    }
}

#[derive(Clone, Copy, Debug, PartialEq, Eq, Structural)]
pub enum LogicalOp {
    And,
    Or,
}

#[derive(Clone, Copy, Debug, PartialEq, Eq, Structural)]
pub enum UnaryOpType {
    Minus,
    Bang,
}

impl UnaryOpType {
    /// The name of the operator in messages.
    pub open spec fn name_text(self) -> Seq<char> {
        match self {
            UnaryOpType::Minus => "Minus"@,
            UnaryOpType::Bang => "Bang"@,
        }
    }

    /// The name of the operator in messages.
    pub fn name(self) -> (name: &'static str)
        ensures
            name@ == self.name_text(),
    {
        match self {
            UnaryOpType::Minus => "Minus",
            UnaryOpType::Bang => "Bang",
        }
    }
}

/// A unary operator and the place where it was written.
#[derive(Clone, Copy, Debug, PartialEq, Eq, Structural)]
pub struct UnaryOp {
    pub op_type: UnaryOpType,
    pub line: usize,
    pub col: i64,
}

#[derive(Clone, Copy, Debug, PartialEq, Eq, Structural)]
pub enum BinaryOpType {
    BangEqual,
    EqualEqual,
    Greater,
    GreaterEqual,
    Less,
    LessEqual,
    Minus,
    Plus,
    Slash,
    Star,
}

impl BinaryOpType {
    /// The name of the operator in messages.
    pub open spec fn name_text(self) -> Seq<char> {
        match self {
            BinaryOpType::BangEqual => "BangEqual"@,
            BinaryOpType::EqualEqual => "EqualEqual"@,
            BinaryOpType::Greater => "Greater"@,
            BinaryOpType::GreaterEqual => "GreaterEqual"@,
            BinaryOpType::Less => "Less"@,
            BinaryOpType::LessEqual => "LessEqual"@,
            BinaryOpType::Minus => "Minus"@,
            BinaryOpType::Plus => "Plus"@,
            BinaryOpType::Slash => "Slash"@,
            BinaryOpType::Star => "Star"@,
        }
    }

    /// The name of the operator in messages.
    pub fn name(self) -> (name: &'static str)
        ensures
            name@ == self.name_text(),
    {
        match self {
            BinaryOpType::BangEqual => "BangEqual",
            BinaryOpType::EqualEqual => "EqualEqual",
            BinaryOpType::Greater => "Greater",
            BinaryOpType::GreaterEqual => "GreaterEqual",
            BinaryOpType::Less => "Less",
            BinaryOpType::LessEqual => "LessEqual",
            BinaryOpType::Minus => "Minus",
            BinaryOpType::Plus => "Plus",
            BinaryOpType::Slash => "Slash",
            BinaryOpType::Star => "Star",
        }
    }
}

/// A binary operator and the place where it was written.
#[derive(Clone, Copy, Debug, PartialEq, Eq, Structural)]
pub struct BinaryOp {
    pub op_type: BinaryOpType,
    pub line: usize,
    pub col: i64,
}

/// A literal as it appears in the tree. A number is kept as the decimal
/// numeral that was written, `digits` or `digits.digits`.
#[derive(Debug, PartialEq)]
pub enum Literal {
    String(String),
    Number(String),
    True,
    False,
    Nil,
}

/// The model of a [`Literal`].
pub enum LiteralView {
    String(Seq<char>),
    Number(Seq<char>),
    True,
    False,
    Nil,
}

impl View for Literal {
    type V = LiteralView;

    open spec fn view(&self) -> LiteralView {
        match self {
            Literal::String(text) => LiteralView::String(text@),
            Literal::Number(numeral) => LiteralView::Number(numeral@),
            Literal::True => LiteralView::True,
            Literal::False => LiteralView::False,
            Literal::Nil => LiteralView::Nil,
        }
    }
}

impl Clone for Literal {
    fn clone(&self) -> (copy: Self)
        ensures
            copy@ == self@,
    {
        match self {
            Literal::String(text) => Literal::String(text.clone()),
            Literal::Number(numeral) => Literal::Number(numeral.clone()),
            Literal::True => Literal::True,
            Literal::False => Literal::False,
            Literal::Nil => Literal::Nil,
        }
    }
}

/// An expression. The tree owns its children.
#[derive(Debug, PartialEq)]
pub enum Expr {
    Assign(Symbol, Box<Expr>),
    Unary(UnaryOp, Box<Expr>),
    Binary(Box<Expr>, BinaryOp, Box<Expr>),
    Call(Box<Expr>, SourceLocation, Vec<Expr>),
    Get(Box<Expr>, Symbol),
    Grouping(Box<Expr>),
    Literal(Literal),
    Logical(Box<Expr>, LogicalOp, Box<Expr>),
    SetProperty(Box<Expr>, Symbol, Box<Expr>),
    Super(SourceLocation, Symbol),
    This(SourceLocation),
    Variable(Symbol),
}

/// The model of an [`Expr`].
pub enum ExprView {
    Assign(SymbolView, Box<ExprView>),
    Unary(UnaryOp, Box<ExprView>),
    Binary(Box<ExprView>, BinaryOp, Box<ExprView>),
    Call(Box<ExprView>, SourceLocation, Seq<ExprView>),
    Get(Box<ExprView>, SymbolView),
    Grouping(Box<ExprView>),
    Literal(LiteralView),
    Logical(Box<ExprView>, LogicalOp, Box<ExprView>),
    SetProperty(Box<ExprView>, SymbolView, Box<ExprView>),
    Super(SourceLocation, SymbolView),
    This(SourceLocation),
    Variable(SymbolView),
}

impl Expr {
    /// The model of the tree, node by node.
    pub open spec fn model(self) -> ExprView
        decreases self,
    {
        match self {
            Expr::Assign(target, value) => ExprView::Assign(target@, Box::new(value.model())),
            Expr::Unary(op, operand) => ExprView::Unary(op, Box::new(operand.model())),
            Expr::Binary(left, op, right) => ExprView::Binary(
                Box::new(left.model()),
                op,
                Box::new(right.model()),
            ),
            Expr::Call(callee, place, arguments) => ExprView::Call(
                Box::new(callee.model()),
                place,
                Seq::new(
                    arguments@.len(),
                    |i: int|
                        if 0 <= i < arguments@.len() {
                            arguments@[i].model()
                        } else {
                            ExprView::Literal(LiteralView::Nil)
                        },
                ),
            ),
            Expr::Get(object, name) => ExprView::Get(Box::new(object.model()), name@),
            Expr::Grouping(inner) => ExprView::Grouping(Box::new(inner.model())),
            Expr::Literal(literal) => ExprView::Literal(literal@),
            Expr::Logical(left, op, right) => ExprView::Logical(
                Box::new(left.model()),
                op,
                Box::new(right.model()),
            ),
            Expr::SetProperty(object, name, value) => ExprView::SetProperty(
                Box::new(object.model()),
                name@,
                Box::new(value.model()),
            ),
            Expr::Super(place, method) => ExprView::Super(place, method@),
            Expr::This(place) => ExprView::This(place),
            Expr::Variable(name) => ExprView::Variable(name@),
        }
    }
}

impl View for Expr {
    type V = ExprView;

    open spec fn view(&self) -> ExprView {
        self.model()
    }
}

impl Expr {
    /// A copy of the whole tree.
    pub fn duplicate(&self) -> (copy: Expr)
        ensures
            copy@ == self@,
        decreases self,
    {
        match self {
            Expr::Assign(target, value) => Expr::Assign(
                target.clone(),
                Box::new(value.duplicate()),
            ),
            Expr::Unary(op, operand) => Expr::Unary(*op, Box::new(operand.duplicate())),
            Expr::Binary(left, op, right) => Expr::Binary(
                Box::new(left.duplicate()),
                *op,
                Box::new(right.duplicate()),
            ),
            Expr::Call(callee, place, arguments) => {
                let mut copies: Vec<Expr> = Vec::new();
                let mut i: usize = 0;
                while i < arguments.len()
                    invariant
                        i <= arguments@.len(),
                        copies@.len() == i,
                        *self == Expr::Call(*callee, *place, *arguments),
                        forall|k: int| 0 <= k < i ==> (#[trigger] copies@[k])@ == arguments@[k]@,
                    decreases arguments@.len() - i,
                {
                    proof {
                        assert(decreases_to!(*self => self->Call_2));
                    }
                    copies.push(arguments[i].duplicate());
                    i += 1;
                }
                let copy = Expr::Call(Box::new(callee.duplicate()), *place, copies);
                proof {
                    assert(copy@->Call_2 =~= self@->Call_2);
                }
                copy
            },
            Expr::Get(object, name) => Expr::Get(Box::new(object.duplicate()), name.clone()),
            Expr::Grouping(inner) => Expr::Grouping(Box::new(inner.duplicate())),
            Expr::Literal(literal) => Expr::Literal(literal.clone()),
            Expr::Logical(left, op, right) => Expr::Logical(
                Box::new(left.duplicate()),
                *op,
                Box::new(right.duplicate()),
            ),
            Expr::SetProperty(object, name, value) => Expr::SetProperty(
                Box::new(object.duplicate()),
                name.clone(),
                Box::new(value.duplicate()),
            ),
            Expr::Super(place, method) => Expr::Super(*place, method.clone()),
            Expr::This(place) => Expr::This(*place),
            Expr::Variable(name) => Expr::Variable(name.clone()),
        }
    }
}

impl Clone for Expr {
    fn clone(&self) -> (copy: Self)
        ensures
            copy@ == self@,
    {
        self.duplicate()
    }
}

/// A statement.
#[derive(Debug, PartialEq)]
pub enum Stmt {
    Expr(Expr),
    Print(Expr),
    VarDecl(Symbol, Option<Expr>),
}

/// The model of a [`Stmt`].
pub enum StmtView {
    Expr(ExprView),
    Print(ExprView),
    VarDecl(SymbolView, Option<ExprView>),
}

impl View for Stmt {
    type V = StmtView;

    open spec fn view(&self) -> StmtView {
        match self {
            Stmt::Expr(expr) => StmtView::Expr(expr@),
            Stmt::Print(expr) => StmtView::Print(expr@),
            Stmt::VarDecl(name, initializer) => StmtView::VarDecl(
                name@,
                match initializer {
                    Some(expr) => Some(expr@),
                    None => None,
                },
            ),
        }
    }
}

impl Clone for Stmt {
    fn clone(&self) -> (copy: Self)
        ensures
            copy@ == self@,
    {
        match self {
            Stmt::Expr(expr) => Stmt::Expr(expr.clone()),
            Stmt::Print(expr) => Stmt::Print(expr.clone()),
            Stmt::VarDecl(name, initializer) => Stmt::VarDecl(
                name.clone(),
                match initializer {
                    Some(expr) => Some(expr.clone()),
                    None => None,
                },
            ),
        }
    }
}

/// The models of a run of statements, in order.
pub open spec fn stmt_views(stmts: Seq<Stmt>) -> Seq<StmtView> {
    stmts.map_values(|stmt: Stmt| stmt@)
}

} // verus!
