//! The evaluator: values, the variable environment, and the execution of
//! statements.
//!
//! What a program means is stated as spec functions over the models of the
//! tree and of the environment. Arithmetic results are read from the table of
//! answers that the evaluator holds: where the table lacks one, evaluation
//! stops with the request for it, the statement has changed nothing, and it
//! is run again once the embedding program has recorded the answer.

use crate::expr::{
    stmt_views, BinaryOp, BinaryOpType, Expr, ExprView, Literal, LiteralView, SourceLocation, Stmt,
    StmtView, Symbol, SymbolView, UnaryOp, UnaryOpType,
};
use crate::number::{Answers, ArithOp, Number, Request, RequestView};
use crate::text::{decimal, push_decimal, push_signed_decimal, signed_decimal};
use vstd::prelude::*;
use vstd::string::*;

verus! {

/// A runtime value. Values are copied, never shared.
#[derive(Debug, PartialEq)]
pub enum Value {
    Number(Number),
    String(String),
    Boolean(bool),
    Nil,
}

/// The model of a [`Value`].
pub enum ValueView {
    Number(Number),
    String(Seq<char>),
    Boolean(bool),
    Nil,
}

impl View for Value {
    type V = ValueView;

    open spec fn view(&self) -> ValueView {
        match self {
            Value::Number(number) => ValueView::Number(*number),
            Value::String(text) => ValueView::String(text@),
            Value::Boolean(truth) => ValueView::Boolean(*truth),
            Value::Nil => ValueView::Nil,
        }
    }
}

impl Clone for Value {
    fn clone(&self) -> (copy: Self)
        ensures
            copy@ == self@,
    {
        match self {
            Value::Number(number) => Value::Number(*number),
            Value::String(text) => Value::String(text.clone()),
            Value::Boolean(truth) => Value::Boolean(*truth),
            Value::Nil => Value::Nil,
        }
    }
}

/// The kind of a value.
#[derive(Clone, Copy, Debug, PartialEq, Eq, Structural)]
pub enum LoxType {
    Number,
    String,
    Boolean,
    Nil,
}

impl LoxType {
    /// The name of the kind in messages.
    pub open spec fn name_text(self) -> Seq<char> {
        match self {
            LoxType::Number => "Number"@,
            LoxType::String => "String"@,
            LoxType::Boolean => "Boolean"@,
            LoxType::Nil => "Nil"@,
        }
    }

    /// The name of the kind in messages.
    pub fn name(self) -> (name: &'static str)
        ensures
            name@ == self.name_text(),
    {
        match self {
            LoxType::Number => "Number",
            LoxType::String => "String",
            LoxType::Boolean => "Boolean",
            LoxType::Nil => "Nil",
        }
    }
}

/// The text ` at line <line>, column <col>.` that ends a message.
pub open spec fn place_text(line: usize, col: i64) -> Seq<char> {
    " at line "@ + decimal(line as nat) + ", column "@ + signed_decimal(col as int) + "."@
}

/// Appends ` at line <line>, column <col>.` to `text`.
fn push_place(text: &mut String, line: usize, col: i64)
    ensures
        final(text)@ == old(text)@ + place_text(line, col),
{
    text.append(" at line ");
    push_decimal(text, line as u64);
    text.append(", column ");
    push_signed_decimal(text, col);
    text.append(".");
}

/// The kind of the value that `val` models.
pub open spec fn kind_of(val: ValueView) -> LoxType {
    match val {
        ValueView::Nil => LoxType::Nil,
        ValueView::Number(_) => LoxType::Number,
        ValueView::String(_) => LoxType::String,
        ValueView::Boolean(_) => LoxType::Boolean,
    }
}

/// The kind of `val`.
pub fn instance_of(val: &Value) -> (kind: LoxType)
    ensures
        kind == kind_of(val@),
{
    match val {
        Value::Nil => LoxType::Nil,
        Value::Number(_) => LoxType::Number,
        Value::String(_) => LoxType::String,
        Value::Boolean(_) => LoxType::Boolean,
    }
}

/// An operator was applied to operands of a kind that it does not take.
#[allow(inconsistent_fields)]
#[derive(Clone, Copy, Debug, PartialEq, Eq, Structural)]
pub enum TypeError {
    Unary { op: UnaryOp, operand: LoxType },
    Binary { op: BinaryOp, left: LoxType, right: LoxType },
}

impl TypeError {
    /// The text of the message for this error: the operator, the kinds of
    /// its operands, and the place of the operator.
    pub open spec fn message_text(self) -> Seq<char> {
        match self {
            TypeError::Unary { op, operand } => "Invalid use of unary operator '"@
                + op.op_type.name_text() + "' on a "@ + operand.name_text() + " type"@ + place_text(
                op.line,
                op.col,
            ),
            TypeError::Binary { op, left, right } => "Invalid operands for binary operator "@
                + op.op_type.name_text() + " of types "@ + left.name_text() + " and "@
                + right.name_text() + place_text(op.line, op.col),
        }
    }

    /// The message for this error.
    pub fn message(&self) -> (text: String)
        ensures
            text@ == self.message_text(),
    {
        match self {
            TypeError::Unary { op, operand } => {
                let mut text = String::from_str("Invalid use of unary operator '");
                text.append(op.op_type.name());
                text.append("' on a ");
                text.append(operand.name());
                text.append(" type");
                push_place(&mut text, op.line, op.col);
                text
            },
            TypeError::Binary { op, left, right } => {
                let mut text = String::from_str("Invalid operands for binary operator ");
                text.append(op.op_type.name());
                text.append(" of types ");
                text.append(left.name());
                text.append(" and ");
                text.append(right.name());
                push_place(&mut text, op.line, op.col);
                text
            },
        }
    }
}

/// A variable was used that has no value.
#[derive(Debug, PartialEq)]
pub enum NameError {
    /// No binding of that name exists.
    NotDeclared { symbol: Symbol },
    /// The binding exists, declared at `declared`, and has no value yet.
    NotDefined { symbol: Symbol, declared: SourceLocation },
}

/// The model of a [`NameError`].
pub enum NameErrorView {
    NotDeclared { symbol: SymbolView },
    NotDefined { symbol: SymbolView, declared: SourceLocation },
}

impl View for NameError {
    type V = NameErrorView;

    open spec fn view(&self) -> NameErrorView {
        match self {
            NameError::NotDeclared { symbol } => NameErrorView::NotDeclared { symbol: symbol@ },
            NameError::NotDefined { symbol, declared } => NameErrorView::NotDefined {
                symbol: symbol@,
                declared: *declared,
            },
        }
    }
}

impl Clone for NameError {
    fn clone(&self) -> (copy: Self)
        ensures
            copy@ == self@,
    {
        match self {
            NameError::NotDeclared { symbol } => NameError::NotDeclared { symbol: symbol.clone() },
            NameError::NotDefined { symbol, declared } => NameError::NotDefined {
                symbol: symbol.clone(),
                declared: *declared,
            },
        }
    }
}

/// The text that names the variable of `symbol` and the place of its use.
pub open spec fn use_text(symbol: SymbolView) -> Seq<char> {
    "Use undefined variable '"@ + symbol.name + "' in line "@ + decimal(symbol.line as nat)
        + ", column "@ + signed_decimal(symbol.col as int) + "."@
}

impl NameErrorView {
    /// The text of the message for this error: the variable and the place of
    /// its use, and for a variable without a value the place of its
    /// declaration.
    pub open spec fn message_text(self) -> Seq<char> {
        match self {
            NameErrorView::NotDeclared { symbol } => use_text(symbol),
            NameErrorView::NotDefined { symbol, declared } => use_text(symbol) + "\nNote: "@
                + symbol.name + " was declared at line "@ + decimal(declared.line as nat)
                + ", column "@ + signed_decimal(declared.col as int) + " but not defined."@,
        }
    }
}

impl NameError {
    /// Starts a message with the variable and the place of its use.
    fn begin_message(symbol: &Symbol) -> (text: String)
        ensures
            text@ == use_text(symbol@),
    {
        let mut text = String::from_str("Use undefined variable '");
        text.append(symbol.name.as_str());
        text.append("' in line ");
        push_decimal(&mut text, symbol.line as u64);
        text.append(", column ");
        push_signed_decimal(&mut text, symbol.col);
        text.append(".");
        text
    }

    /// The message for this error.
    pub fn message(&self) -> (text: String)
        ensures
            text@ == self@.message_text(),
    {
        match self {
            NameError::NotDeclared { symbol } => Self::begin_message(symbol),
            NameError::NotDefined { symbol, declared } => {
                let mut text = Self::begin_message(symbol);
                text.append("\nNote: ");
                text.append(symbol.name.as_str());
                text.append(" was declared at line ");
                push_decimal(&mut text, declared.line as u64);
                text.append(", column ");
                push_signed_decimal(&mut text, declared.col);
                text.append(" but not defined.");
                text
            },
        }
    }
}

/// The kinds of expression that the tree can hold and that have no meaning
/// yet.
#[derive(Clone, Copy, Debug, PartialEq, Eq, Structural)]
pub enum Unsupported {
    Logical,
    Call,
    Get,
    SetProperty,
    Super,
    This,
}

impl Unsupported {
    /// The name of the kind of expression in messages.
    pub open spec fn name_text(self) -> Seq<char> {
        match self {
            Unsupported::Logical => "logical"@,
            Unsupported::Call => "call"@,
            Unsupported::Get => "property get"@,
            Unsupported::SetProperty => "property set"@,
            Unsupported::Super => "super"@,
            Unsupported::This => "this"@,
        }
    }

    /// The name of the kind of expression in messages.
    pub fn name(self) -> (name: &'static str)
        ensures
            name@ == self.name_text(),
    {
        match self {
            Unsupported::Logical => "logical",
            Unsupported::Call => "call",
            Unsupported::Get => "property get",
            Unsupported::SetProperty => "property set",
            Unsupported::Super => "super",
            Unsupported::This => "this",
        }
    }
}

/// Why a program stopped.
#[derive(Debug, PartialEq)]
pub enum RuntimeError {
    Type(TypeError),
    /// A number was divided by zero, by the operator given.
    ZeroDivision(BinaryOp),
    Name(NameError),
    /// An expression of a kind without a meaning was evaluated.
    NotImplemented(Unsupported),
}

/// The model of a [`RuntimeError`].
pub enum RuntimeErrorView {
    Type(TypeError),
    ZeroDivision(BinaryOp),
    Name(NameErrorView),
    NotImplemented(Unsupported),
}

impl View for RuntimeError {
    type V = RuntimeErrorView;

    open spec fn view(&self) -> RuntimeErrorView {
        match self {
            RuntimeError::Type(error) => RuntimeErrorView::Type(*error),
            RuntimeError::ZeroDivision(op) => RuntimeErrorView::ZeroDivision(*op),
            RuntimeError::Name(error) => RuntimeErrorView::Name(error@),
            RuntimeError::NotImplemented(kind) => RuntimeErrorView::NotImplemented(*kind),
        }
    }
}

impl Clone for RuntimeError {
    fn clone(&self) -> (copy: Self)
        ensures
            copy@ == self@,
    {
        match self {
            RuntimeError::Type(error) => RuntimeError::Type(*error),
            RuntimeError::ZeroDivision(op) => RuntimeError::ZeroDivision(*op),
            RuntimeError::Name(error) => RuntimeError::Name(error.clone()),
            RuntimeError::NotImplemented(kind) => RuntimeError::NotImplemented(*kind),
        }
    }
}

impl RuntimeErrorView {
    /// The text of the message for this error.
    pub open spec fn message_text(self) -> Seq<char> {
        match self {
            RuntimeErrorView::Type(error) => error.message_text(),
            RuntimeErrorView::ZeroDivision(op) => "ZeroDivisionError: division by zero"@
                + place_text(op.line, op.col),
            RuntimeErrorView::Name(error) => error.message_text(),
            RuntimeErrorView::NotImplemented(kind) => "Not implemented: "@ + kind.name_text()
                + " expressions have no meaning yet."@,
        }
    }
}

impl RuntimeError {
    /// The message for this error.
    pub fn message(&self) -> (text: String)
        ensures
            text@ == self@.message_text(),
    {
        match self {
            RuntimeError::Type(error) => error.message(),
            RuntimeError::ZeroDivision(op) => {
                let mut text = String::from_str("ZeroDivisionError: division by zero");
                push_place(&mut text, op.line, op.col);
                text
            },
            RuntimeError::Name(error) => error.message(),
            RuntimeError::NotImplemented(kind) => {
                let mut text = String::from_str("Not implemented: ");
                text.append(kind.name());
                text.append(" expressions have no meaning yet.");
                text
            },
        }
    }
}

/// Why an evaluation handed out no value.
#[derive(Debug, PartialEq)]
pub enum Interrupt {
    /// The table of answers lacks the answer to this request.
    Pending(Request),
    /// The program failed.
    Failed(RuntimeError),
}

/// The model of an [`Interrupt`].
pub enum InterruptView {
    Pending(RequestView),
    Failed(RuntimeErrorView),
}

impl View for Interrupt {
    type V = InterruptView;

    open spec fn view(&self) -> InterruptView {
        match self {
            Interrupt::Pending(request) => InterruptView::Pending(request@),
            Interrupt::Failed(error) => InterruptView::Failed(error@),
        }
    }
}

impl Clone for Interrupt {
    fn clone(&self) -> (copy: Self)
        ensures
            copy@ == self@,
    {
        match self {
            Interrupt::Pending(request) => Interrupt::Pending(request.clone()),
            Interrupt::Failed(error) => Interrupt::Failed(error.clone()),
        }
    }
}

/// What a print statement hands to the console: a line of text, or a number
/// to be written in decimal.
#[derive(Debug, PartialEq)]
pub enum Printed {
    Text(String),
    Number(Number),
}

/// The model of a [`Printed`].
pub enum PrintedView {
    Text(Seq<char>),
    Number(Number),
}

impl View for Printed {
    type V = PrintedView;

    open spec fn view(&self) -> PrintedView {
        match self {
            Printed::Text(text) => PrintedView::Text(text@),
            Printed::Number(number) => PrintedView::Number(*number),
        }
    }
}

impl Clone for Printed {
    fn clone(&self) -> (copy: Self)
        ensures
            copy@ == self@,
    {
        match self {
            Printed::Text(text) => Printed::Text(text.clone()),
            Printed::Number(number) => Printed::Number(*number),
        }
    }
}

/// The models of a run of printed lines, in order.
pub open spec fn printed_views(lines: Seq<Printed>) -> Seq<PrintedView> {
    lines.map_values(|line: Printed| line@)
}

/// What the environment holds for a name: the value, if the variable has
/// one, and the place of the declaration.
pub struct BindingView {
    pub value: Option<ValueView>,
    pub declared: SourceLocation,
}

/// A name of the environment with what it is bound to.
#[derive(Debug)]
struct Binding {
    name: String,
    value: Option<Value>,
    declared: SourceLocation,
}

impl Binding {
    spec fn bound(self) -> BindingView {
        BindingView {
            value: match self.value {
                Some(value) => Some(value@),
                None => None,
            },
            declared: self.declared,
        }
    }
}

/// No name occurs twice.
spec fn distinct_names(bindings: Seq<Binding>) -> bool {
    forall|i: int, j: int|
        0 <= i < j < bindings.len() ==> (#[trigger] bindings[i]).name@ != (
        #[trigger] bindings[j]).name@
}

/// The table that `bindings` spell: a later binding of a name replaces an
/// earlier one.
spec fn bindings_map(bindings: Seq<Binding>) -> Map<Seq<char>, BindingView>
    decreases bindings.len(),
{
    if bindings.len() == 0 {
        Map::empty()
    } else {
        bindings_map(bindings.drop_last()).insert(bindings.last().name@, bindings.last().bound())
    }
}

/// True when `name` stands at `place` and nowhere behind it.
spec fn last_at(bindings: Seq<Binding>, name: Seq<char>, place: int) -> bool {
    &&& 0 <= place < bindings.len()
    &&& bindings[place].name@ == name
    &&& forall|k: int| place < k < bindings.len() ==> (#[trigger] bindings[k]).name@ != name
}

proof fn lemma_absent(bindings: Seq<Binding>, name: Seq<char>)
    requires
        forall|k: int| 0 <= k < bindings.len() ==> (#[trigger] bindings[k]).name@ != name,
    ensures
        !bindings_map(bindings).contains_key(name),
    decreases bindings.len(),
{
    if bindings.len() > 0 {
        lemma_absent(bindings.drop_last(), name);
    }
}

/// A name that the table does not hold stands nowhere.
proof fn lemma_absent_everywhere(bindings: Seq<Binding>, name: Seq<char>)
    requires
        !bindings_map(bindings).contains_key(name),
    ensures
        forall|k: int| 0 <= k < bindings.len() ==> (#[trigger] bindings[k]).name@ != name,
    decreases bindings.len(),
{
    if bindings.len() > 0 {
        lemma_absent_everywhere(bindings.drop_last(), name);
        assert forall|k: int| 0 <= k < bindings.len() implies (#[trigger] bindings[k]).name@
            != name by {
            if k < bindings.len() - 1 {
                assert(bindings.drop_last()[k] == bindings[k]);
            }
        }
    }
}

proof fn lemma_present(bindings: Seq<Binding>, name: Seq<char>, place: int)
    requires
        last_at(bindings, name, place),
    ensures
        bindings_map(bindings).contains_key(name),
        bindings_map(bindings)[name] == bindings[place].bound(),
    decreases bindings.len(),
{
    if place < bindings.len() - 1 {
        lemma_present(bindings.drop_last(), name, place);
    }
}

proof fn lemma_replaced(bindings: Seq<Binding>, place: int, binding: Binding)
    requires
        last_at(bindings, binding.name@, place),
    ensures
        bindings_map(bindings.update(place, binding)) == bindings_map(bindings).insert(
            binding.name@,
            binding.bound(),
        ),
    decreases bindings.len(),
{
    let after = bindings.update(place, binding);
    if place == bindings.len() - 1 {
        assert(after.drop_last() =~= bindings.drop_last());
    } else {
        assert(after.drop_last() =~= bindings.drop_last().update(place, binding));
        lemma_replaced(bindings.drop_last(), place, binding);
    }
}

proof fn lemma_same_bindings(mine: Seq<Binding>, theirs: Seq<Binding>)
    requires
        mine.len() == theirs.len(),
        forall|k: int|
            0 <= k < mine.len() ==> (#[trigger] mine[k]).name@ == theirs[k].name@
                && mine[k].bound() == theirs[k].bound(),
    ensures
        bindings_map(mine) == bindings_map(theirs),
    decreases mine.len(),
{
    if mine.len() > 0 {
        lemma_same_bindings(mine.drop_last(), theirs.drop_last());
    }
}

/// The outcome of looking a name up.
pub enum LookupResult<'a> {
    Found(&'a Value),
    DeclaredNotDefined(SourceLocation),
    NotDeclared,
}

/// The outcome that the model of an environment gives for a name.
pub open spec fn found(env: Map<Seq<char>, BindingView>, name: Seq<char>) -> Result<
    ValueView,
    Option<SourceLocation>,
> {
    if env.contains_key(name) {
        match env[name].value {
            Some(value) => Ok(value),
            None => Err(Some(env[name].declared)),
        }
    } else {
        Err(None)
    }
}

/// The flat table of variables: each name is bound once.
#[derive(Debug)]
pub struct Environment {
    values: Vec<Binding>,
}

impl View for Environment {
    type V = Map<Seq<char>, BindingView>;

    closed spec fn view(&self) -> Map<Seq<char>, BindingView> {
        bindings_map(self.values@)
    }
}

impl Environment {
    /// Each name is bound once.
    #[verifier::type_invariant]
    spec fn names_are_distinct(&self) -> bool {
        distinct_names(self.values@)
    }

    /// An environment without bindings.
    pub fn new() -> (env: Self)
        ensures
            env@ == Map::<Seq<char>, BindingView>::empty(),
    {
        Environment { values: Vec::new() }
    }

    /// Takes the bindings out and leaves the environment empty.
    fn take(&mut self) -> (values: Vec<Binding>)
        ensures
            values == old(self).values,
            distinct_names(values@),
    {
        proof {
            use_type_invariant(&*self);
        }
        let mut taken = Environment { values: Vec::new() };
        std::mem::swap(self, &mut taken);
        taken.values
    }

    /// Where `name` is bound, if it is.
    fn position(&self, name: &String) -> (place: Option<usize>)
        ensures
            match place {
                Some(i) => last_at(self.values@, name@, i as int),
                None => !self@.contains_key(name@),
            },
    {
        let mut i: usize = self.values.len();
        while i > 0
            invariant
                i <= self.values@.len(),
                forall|k: int|
                    i <= k < self.values@.len() ==> (#[trigger] self.values@[k]).name@ != name@,
            decreases i,
        {
            i -= 1;
            if self.values[i].name == *name {
                return Some(i);
            }
        }
        proof {
            lemma_absent(self.values@, name@);
        }
        None
    }

    /// Binds the name of `symbol` to `value`, declared where the symbol
    /// stands. An earlier binding of the name is replaced, with its value and
    /// the place of its declaration.
    pub fn define(&mut self, symbol: Symbol, value: Option<Value>)
        ensures
            final(self)@ == old(self)@.insert(
                symbol@.name,
                BindingView {
                    value: match value {
                        Some(value) => Some(value@),
                        None => None,
                    },
                    declared: symbol@.location(),
                },
            ),
    {
        let declared = symbol.location();
        let place = self.position(&symbol.name);
        let binding = Binding { name: symbol.name, value, declared };
        let mut values = self.take();
        match place {
            Some(i) => {
                proof {
                    lemma_replaced(values@, i as int, binding);
                }
                values[i] = binding;
            },
            None => {
                proof {
                    assert(values@.push(binding).drop_last() =~= values@);
                    lemma_absent_everywhere(values@, binding.name@);
                }
                values.push(binding);
            },
        }
        *self = Environment { values };
    }

    /// Looks the name of `symbol` up: its value, or the place where it was
    /// declared without one, or nothing.
    pub fn lookup<'a>(&'a self, symbol: &Symbol) -> (result: LookupResult<'a>)
        ensures
            match found(self@, symbol@.name) {
                Ok(value) => result matches LookupResult::Found(held) && held@ == value,
                Err(Some(declared)) => result matches LookupResult::DeclaredNotDefined(place)
                    && place == declared,
                Err(None) => result is NotDeclared,
            },
    {
        match self.position(&symbol.name) {
            Some(i) => {
                proof {
                    lemma_present(self.values@, symbol@.name, i as int);
                }
                let binding = &self.values[i];
                match &binding.value {
                    Some(val) => LookupResult::Found(val),
                    None => LookupResult::DeclaredNotDefined(
                        SourceLocation { line: binding.declared.line, col: binding.declared.col },
                    ),
                }
            },
            None => LookupResult::NotDeclared,
        }
    }

    /// The error for a name that has no value, looked up through `symbol`.
    pub open spec fn missing(symbol: SymbolView, declared: Option<SourceLocation>) -> NameErrorView {
        match declared {
            Some(place) => NameErrorView::NotDefined { symbol, declared: place },
            None => NameErrorView::NotDeclared { symbol },
        }
    }

    /// The value of the variable that `symbol` names, or the error that says
    /// why it has none: declared at some place but not defined, or not
    /// declared at all.
    pub fn get<'a>(&'a self, symbol: &Symbol) -> (result: Result<&'a Value, NameError>)
        ensures
            match found(self@, symbol@.name) {
                Ok(value) => result matches Ok(held) && held@ == value,
                Err(declared) => result matches Err(error) && error@ == Self::missing(
                    symbol@,
                    declared,
                ),
            },
    {
        match self.lookup(symbol) {
            LookupResult::Found(val) => Ok(val),
            LookupResult::DeclaredNotDefined(declared) => Err(
                NameError::NotDefined { symbol: symbol.clone(), declared },
            ),
            LookupResult::NotDeclared => Err(NameError::NotDeclared { symbol: symbol.clone() }),
        }
    }

    /// Gives the variable that `symbol` names a new value. The place of its
    /// declaration stays. A name without a binding is an error, and nothing
    /// changes.
    pub fn assign(&mut self, symbol: &Symbol, value: Value) -> (result: Result<(), NameError>)
        ensures
            if old(self)@.contains_key(symbol@.name) {
                &&& result is Ok
                &&& final(self)@ == old(self)@.insert(
                    symbol@.name,
                    BindingView {
                        value: Some(value@),
                        declared: old(self)@[symbol@.name].declared,
                    },
                )
            } else {
                &&& result matches Err(error)
                &&& error@ == (NameErrorView::NotDeclared { symbol: symbol@ })
                &&& final(self)@ == old(self)@
            },
    {
        match self.position(&symbol.name) {
            Some(i) => {
                proof {
                    lemma_present(self.values@, symbol@.name, i as int);
                }
                let declared = self.values[i].declared;
                self.define(
                    Symbol { name: symbol.name.clone(), line: declared.line, col: declared.col },
                    Some(value),
                );
                Ok(())
            },
            None => Err(NameError::NotDeclared { symbol: symbol.clone() }),
        }
    }
}

impl Clone for Environment {
    fn clone(&self) -> (copy: Self)
        ensures
            copy@ == self@,
    {
        let mut values: Vec<Binding> = Vec::new();
        let mut i: usize = 0;
        while i < self.values.len()
            invariant
                i <= self.values@.len(),
                values@.len() == i,
                forall|k: int|
                    0 <= k < i ==> (#[trigger] values@[k]).name@ == self.values@[k].name@
                        && values@[k].bound() == self.values@[k].bound(),
            decreases self.values@.len() - i,
        {
            let binding = &self.values[i];
            values.push(
                Binding {
                    name: binding.name.clone(),
                    value: match &binding.value {
                        Some(value) => Some(value.clone()),
                        None => None,
                    },
                    declared: binding.declared,
                },
            );
            i += 1;
        }
        proof {
            use_type_invariant(self);
            lemma_same_bindings(values@, self.values@);
        }
        Environment { values }
    }
}


/// Only nil and false are falsy.
pub open spec fn truthy(val: ValueView) -> bool {
    match val {
        ValueView::Nil => false,
        ValueView::Boolean(truth) => truth,
        _ => true,
    }
}

/// The number that answers `request`, or the request itself where the table
/// has no answer.
pub open spec fn answered(request: RequestView, answers: Map<RequestView, Number>) -> Result<
    ValueView,
    InterruptView,
> {
    if answers.contains_key(request) {
        Ok(ValueView::Number(answers[request]))
    } else {
        Err(InterruptView::Pending(request))
    }
}

/// The value of a literal. A number literal is worth the number that its
/// numeral converts to.
pub open spec fn literal_value(literal: LiteralView, answers: Map<RequestView, Number>) -> Result<
    ValueView,
    InterruptView,
> {
    match literal {
        LiteralView::String(text) => Ok(ValueView::String(text)),
        LiteralView::Number(numeral) => answered(RequestView::Convert(numeral), answers),
        LiteralView::True => Ok(ValueView::Boolean(true)),
        LiteralView::False => Ok(ValueView::Boolean(false)),
        LiteralView::Nil => Ok(ValueView::Nil),
    }
}

/// What a unary operator makes of a value: `-` negates a number and takes
/// nothing else, `!` negates the truthiness of any value.
pub open spec fn unary_result(op: UnaryOp, val: ValueView) -> Result<ValueView, InterruptView> {
    match op.op_type {
        UnaryOpType::Minus => match val {
            ValueView::Number(number) => Ok(ValueView::Number(number.spec_negate())),
            _ => Err(
                InterruptView::Failed(
                    RuntimeErrorView::Type(TypeError::Unary { op, operand: kind_of(val) }),
                ),
            ),
        },
        UnaryOpType::Bang => Ok(ValueView::Boolean(!truthy(val))),
    }
}

/// The type error of a binary operator on two operands.
pub open spec fn binary_mismatch(op: BinaryOp, left: ValueView, right: ValueView) -> InterruptView {
    InterruptView::Failed(
        RuntimeErrorView::Type(
            TypeError::Binary { op, left: kind_of(left), right: kind_of(right) },
        ),
    )
}

/// The rule of equality. Booleans and strings are equal when they are the
/// same, nil equals nil, and values of different kinds are unequal. Two
/// numbers are equal when neither is a NaN and their rounded difference is
/// below machine epsilon.
pub open spec fn equal_values(
    left: ValueView,
    right: ValueView,
    answers: Map<RequestView, Number>,
) -> Result<bool, InterruptView> {
    match (left, right) {
        (ValueView::Boolean(mine), ValueView::Boolean(theirs)) => Ok(mine == theirs),
        (ValueView::String(mine), ValueView::String(theirs)) => Ok(mine == theirs),
        (ValueView::Number(mine), ValueView::Number(theirs)) => {
            if mine.spec_is_nan() || theirs.spec_is_nan() {
                Ok(false)
            } else {
                let difference = RequestView::Compute(ArithOp::Subtract, mine, theirs);
                if answers.contains_key(difference) {
                    Ok(answers[difference].spec_is_negligible())
                } else {
                    Err(InterruptView::Pending(difference))
                }
            }
        },
        (ValueView::Nil, ValueView::Nil) => Ok(true),
        _ => Ok(false),
    }
}

/// The rounded result of `op` on two numbers; any other operands are a type
/// error of `at`.
pub open spec fn computed(
    op: ArithOp,
    at: BinaryOp,
    left: ValueView,
    right: ValueView,
    answers: Map<RequestView, Number>,
) -> Result<ValueView, InterruptView> {
    match (left, right) {
        (ValueView::Number(mine), ValueView::Number(theirs)) => answered(
            RequestView::Compute(op, mine, theirs),
            answers,
        ),
        _ => Err(binary_mismatch(at, left, right)),
    }
}

/// How `op` orders two numbers; any other operands are a type error.
pub open spec fn compared(op: BinaryOp, left: ValueView, right: ValueView) -> Result<
    ValueView,
    InterruptView,
> {
    match (left, right) {
        (ValueView::Number(mine), ValueView::Number(theirs)) => Ok(
            ValueView::Boolean(
                match op.op_type {
                    BinaryOpType::Greater => theirs.spec_less_than(mine),
                    BinaryOpType::GreaterEqual => theirs.spec_less_or_equal(mine),
                    BinaryOpType::Less => mine.spec_less_than(theirs),
                    _ => mine.spec_less_or_equal(theirs),
                },
            ),
        ),
        _ => Err(binary_mismatch(op, left, right)),
    }
}

/// What a binary operator makes of two values.
pub open spec fn binary_result(
    op: BinaryOp,
    left: ValueView,
    right: ValueView,
    answers: Map<RequestView, Number>,
) -> Result<ValueView, InterruptView> {
    match op.op_type {
        BinaryOpType::EqualEqual => match equal_values(left, right, answers) {
            Ok(equal) => Ok(ValueView::Boolean(equal)),
            Err(interrupt) => Err(interrupt),
        },
        BinaryOpType::BangEqual => match equal_values(left, right, answers) {
            Ok(equal) => Ok(ValueView::Boolean(!equal)),
            Err(interrupt) => Err(interrupt),
        },
        BinaryOpType::Greater | BinaryOpType::GreaterEqual | BinaryOpType::Less
        | BinaryOpType::LessEqual => compared(op, left, right),
        BinaryOpType::Plus => match (left, right) {
            (ValueView::String(mine), ValueView::String(theirs)) => Ok(
                ValueView::String(mine + theirs),
            ),
            _ => computed(ArithOp::Add, op, left, right, answers),
        },
        BinaryOpType::Minus => computed(ArithOp::Subtract, op, left, right, answers),
        BinaryOpType::Star => computed(ArithOp::Multiply, op, left, right, answers),
        BinaryOpType::Slash => match right {
            ValueView::Number(divisor) if left is Number && divisor.spec_is_zero() => Err(
                InterruptView::Failed(RuntimeErrorView::ZeroDivision(op)),
            ),
            _ => computed(ArithOp::Divide, op, left, right, answers),
        },
    }
}

/// The value of the variable that `symbol` names.
pub open spec fn variable_value(env: Map<Seq<char>, BindingView>, symbol: SymbolView) -> Result<
    ValueView,
    InterruptView,
> {
    match found(env, symbol.name) {
        Ok(value) => Ok(value),
        Err(declared) => Err(
            InterruptView::Failed(RuntimeErrorView::Name(Environment::missing(symbol, declared))),
        ),
    }
}

/// The failure for an expression of a kind without a meaning.
pub open spec fn unsupported(kind: Unsupported) -> Result<ValueView, InterruptView> {
    Err(InterruptView::Failed(RuntimeErrorView::NotImplemented(kind)))
}

/// The value of an expression in an environment, and the environment
/// afterwards. The operands of an operator are evaluated from left to right,
/// and the first interrupt ends the evaluation.
pub open spec fn eval(
    expr: ExprView,
    env: Map<Seq<char>, BindingView>,
    answers: Map<RequestView, Number>,
) -> (Result<ValueView, InterruptView>, Map<Seq<char>, BindingView>)
    decreases expr,
{
    match expr {
        ExprView::Literal(literal) => (literal_value(literal, answers), env),
        ExprView::Grouping(inner) => eval(*inner, env, answers),
        ExprView::Unary(op, operand) => {
            let (operand_value, after) = eval(*operand, env, answers);
            match operand_value {
                Ok(val) => (unary_result(op, val), after),
                Err(interrupt) => (Err(interrupt), after),
            }
        },
        ExprView::Binary(left, op, right) => {
            let (left_value, after_left) = eval(*left, env, answers);
            match left_value {
                Ok(left_val) => {
                    let (right_value, after_right) = eval(*right, after_left, answers);
                    match right_value {
                        Ok(right_val) => (
                            binary_result(op, left_val, right_val, answers),
                            after_right,
                        ),
                        Err(interrupt) => (Err(interrupt), after_right),
                    }
                },
                Err(interrupt) => (Err(interrupt), after_left),
            }
        },
        ExprView::Variable(symbol) => (variable_value(env, symbol), env),
        ExprView::Assign(target, value) => {
            let (assigned, after) = eval(*value, env, answers);
            match assigned {
                Ok(val) => if after.contains_key(target.name) {
                    (
                        Ok(val),
                        after.insert(
                            target.name,
                            BindingView {
                                value: Some(val),
                                declared: after[target.name].declared,
                            },
                        ),
                    )
                } else {
                    (
                        Err(
                            InterruptView::Failed(
                                RuntimeErrorView::Name(
                                    NameErrorView::NotDeclared { symbol: target },
                                ),
                            ),
                        ),
                        after,
                    )
                },
                Err(interrupt) => (Err(interrupt), after),
            }
        },
        ExprView::Logical(_, _, _) => (unsupported(Unsupported::Logical), env),
        ExprView::Call(_, _, _) => (unsupported(Unsupported::Call), env),
        ExprView::Get(_, _) => (unsupported(Unsupported::Get), env),
        ExprView::SetProperty(_, _, _) => (unsupported(Unsupported::SetProperty), env),
        ExprView::Super(_, _) => (unsupported(Unsupported::Super), env),
        ExprView::This(_) => (unsupported(Unsupported::This), env),
    }
}

/// How a value is printed: a number is handed on to be written in decimal, a
/// string is its text, a boolean is `true` or `false`, nil is `nil`.
pub open spec fn rendering(val: ValueView) -> PrintedView {
    match val {
        ValueView::Number(number) => PrintedView::Number(number),
        ValueView::String(text) => PrintedView::Text(text),
        ValueView::Boolean(truth) => PrintedView::Text(
            if truth {
                "true"@
            } else {
                "false"@
            },
        ),
        ValueView::Nil => PrintedView::Text("nil"@),
    }
}

/// What a statement does: the environment afterwards, and the line that it
/// prints, if it prints one.
pub struct Executed {
    pub env: Map<Seq<char>, BindingView>,
    pub printed: Option<PrintedView>,
}

/// The effect of a statement, or the interrupt that ended it. A statement
/// that is interrupted has no effect.
pub open spec fn execute(
    stmt: StmtView,
    env: Map<Seq<char>, BindingView>,
    answers: Map<RequestView, Number>,
) -> Result<Executed, InterruptView> {
    match stmt {
        StmtView::Expr(expr) => match eval(expr, env, answers) {
            (Ok(_), after) => Ok(Executed { env: after, printed: None }),
            (Err(interrupt), _) => Err(interrupt),
        },
        StmtView::Print(expr) => match eval(expr, env, answers) {
            (Ok(val), after) => Ok(Executed { env: after, printed: Some(rendering(val)) }),
            (Err(interrupt), _) => Err(interrupt),
        },
        StmtView::VarDecl(name, None) => Ok(
            Executed {
                env: env.insert(
                    name.name,
                    BindingView { value: None, declared: name.location() },
                ),
                printed: None,
            },
        ),
        StmtView::VarDecl(name, Some(initializer)) => match eval(initializer, env, answers) {
            (Ok(val), after) => Ok(
                Executed {
                    env: after.insert(
                        name.name,
                        BindingView { value: Some(val), declared: name.location() },
                    ),
                    printed: None,
                },
            ),
            (Err(interrupt), _) => Err(interrupt),
        },
    }
}

/// Where a run of statements ends: the environment, the lines printed, the
/// statement to go on with, and whether the run came to its end.
pub struct Run {
    pub env: Map<Seq<char>, BindingView>,
    pub printed: Seq<PrintedView>,
    pub position: nat,
    pub result: Result<(), InterruptView>,
}

/// The line of a statement as a run of zero or one lines.
pub open spec fn printed_line(printed: Option<PrintedView>) -> Seq<PrintedView> {
    match printed {
        Some(line) => seq![line],
        None => Seq::empty(),
    }
}

/// `lines` printed before what `rest` prints.
pub open spec fn after_printing(lines: Seq<PrintedView>, rest: Run) -> Run {
    Run { env: rest.env, printed: lines + rest.printed, position: rest.position, result: rest.result }
}

/// Runs the statements from `position` on, in order. A missing answer stops
/// the run before the statement that needs it. A failure ends the run for
/// good: it goes on with the first statement, as a run that came to its end
/// does.
pub open spec fn run(
    stmts: Seq<StmtView>,
    position: nat,
    env: Map<Seq<char>, BindingView>,
    answers: Map<RequestView, Number>,
) -> Run
    decreases stmts.len() - position,
{
    if position >= stmts.len() {
        Run { env, printed: Seq::empty(), position: 0, result: Ok(()) }
    } else {
        match execute(stmts[position as int], env, answers) {
            Ok(done) => after_printing(
                printed_line(done.printed),
                run(stmts, position + 1, done.env, answers),
            ),
            Err(InterruptView::Pending(request)) => Run {
                env,
                printed: Seq::empty(),
                position,
                result: Err(InterruptView::Pending(request)),
            },
            Err(InterruptView::Failed(error)) => Run {
                env,
                printed: Seq::empty(),
                position: 0,
                result: Err(InterruptView::Failed(error)),
            },
        }
    }
}

/// The model of what an evaluation handed out.
pub open spec fn outcome(result: Result<Value, Interrupt>) -> Result<ValueView, InterruptView> {
    match result {
        Ok(val) => Ok(val@),
        Err(interrupt) => Err(interrupt@),
    }
}

/// The evaluator: the environment, the answers given so far, the lines
/// printed and not yet written, and how far the program at hand has run.
#[derive(Debug)]
pub struct Interpreter {
    pub env: Environment,
    /// The arithmetic results that the embedding program has supplied.
    pub answers: Answers,
    /// What print statements have handed out, oldest first. The embedding
    /// program writes the lines to the console and takes them out.
    pub output: Vec<Printed>,
    /// The number of statements of the program at hand that have run.
    pub position: usize,
}

impl Default for Interpreter {
    fn default() -> (interpreter: Self)
        ensures
            interpreter.env@ == Map::<Seq<char>, BindingView>::empty(),
            interpreter.answers@ == Map::<RequestView, Number>::empty(),
            interpreter.output@ == Seq::<Printed>::empty(),
            interpreter.position == 0,
    {
        Interpreter {
            env: Environment::new(),
            answers: Answers::new(),
            output: Vec::new(),
            position: 0,
        }
    }
}

impl Interpreter {
    /// An evaluator with an empty environment and no answers, at the start
    /// of a program.
    pub fn new() -> (interpreter: Self)
        ensures
            interpreter.env@ == Map::<Seq<char>, BindingView>::empty(),
            interpreter.answers@ == Map::<RequestView, Number>::empty(),
            interpreter.output@ == Seq::<Printed>::empty(),
            interpreter.position == 0,
    {
        Interpreter {
            env: Environment::new(),
            answers: Answers::new(),
            output: Vec::new(),
            position: 0,
        }
    }

    /// Runs the statements of `stmts` that have not run yet, in order, and
    /// appends what they print to the output.
    ///
    /// Where the table lacks an answer, the run stops before the statement
    /// that needs it, and the next call goes on with that statement. The
    /// first failure ends the program; what was printed before it stays.
    pub fn interpret(&mut self, stmts: &[Stmt]) -> (result: Result<(), Interrupt>)
        ensures
            final(self).answers == old(self).answers,
            ({
                let expected = run(
                    stmt_views(stmts@),
                    old(self).position as nat,
                    old(self).env@,
                    old(self).answers@,
                );
                &&& final(self).env@ == expected.env
                &&& final(self).position == expected.position
                &&& printed_views(final(self).output@) == printed_views(old(self).output@)
                    + expected.printed
                &&& match expected.result {
                    Ok(_) => result is Ok,
                    Err(interrupt) => result matches Err(found) && found@ == interrupt,
                }
            }),
    {
        let ghost program = stmt_views(stmts@);
        let ghost first = self.position as nat;
        let ghost env = self.env@;
        let ghost answers = self.answers@;
        let ghost before = printed_views(self.output@);
        let ghost mut lines = Seq::<PrintedView>::empty();
        while self.position < stmts.len()
            invariant
                program == stmt_views(stmts@),
                first == old(self).position,
                env == old(self).env@,
                answers == old(self).answers@,
                self.answers == old(self).answers,
                before == printed_views(old(self).output@),
                printed_views(self.output@) == before + lines,
                run(program, first, env, answers) == after_printing(
                    lines,
                    run(program, self.position as nat, self.env@, answers),
                ),
            decreases stmts@.len() - self.position,
        {
            let ghost here = self.position as int;
            let ghost line = match execute(program[here], self.env@, answers) {
                Ok(done) => printed_line(done.printed),
                Err(_) => Seq::empty(),
            };
            match self.evaluate(&stmts[self.position]) {
                Ok(()) => {
                    self.position += 1;
                    proof {
                        let rest = run(program, self.position as nat, self.env@, answers);
                        assert(lines + (line + rest.printed) =~= (lines + line) + rest.printed);
                        lines = lines + line;
                    }
                },
                Err(Interrupt::Pending(request)) => {
                    return Err(Interrupt::Pending(request));
                },
                Err(Interrupt::Failed(error)) => {
                    self.position = 0;
                    return Err(Interrupt::Failed(error));
                },
            }
        }
        self.position = 0;
        Ok(())
    }

    /// Executes one statement, and appends the line that it prints, if it
    /// prints one, to the output. A statement that is interrupted leaves the
    /// environment and the output as they were.
    pub fn evaluate(&mut self, stmt: &Stmt) -> (result: Result<(), Interrupt>)
        ensures
            final(self).position == old(self).position,
            final(self).answers == old(self).answers,
            match execute(stmt@, old(self).env@, old(self).answers@) {
                Ok(done) => {
                    &&& result is Ok
                    &&& final(self).env@ == done.env
                    &&& printed_views(final(self).output@) == printed_views(old(self).output@)
                        + printed_line(done.printed)
                },
                Err(interrupt) => {
                    &&& result matches Err(found)
                    &&& found@ == interrupt
                    &&& final(self).env@ == old(self).env@
                    &&& final(self).output == old(self).output
                },
            },
    {
        let saved = self.env.clone();
        match stmt {
            Stmt::Expr(expr) => match self.evaluate_expr(expr) {
                Ok(_) => Ok(()),
                Err(interrupt) => {
                    self.env = saved;
                    Err(interrupt)
                },
            },
            Stmt::Print(e) => match self.evaluate_expr(e) {
                Ok(val) => {
                    let printed = self.format_val(&val);
                    self.output.push(printed);
                    Ok(())
                },
                Err(interrupt) => {
                    self.env = saved;
                    Err(interrupt)
                },
            },
            Stmt::VarDecl(symbol, initializer) => {
                let val = match initializer {
                    Some(expr) => match self.evaluate_expr(expr) {
                        Ok(val) => Some(val),
                        Err(interrupt) => {
                            self.env = saved;
                            return Err(interrupt);
                        },
                    },
                    None => None,
                };
                self.env.define(symbol.clone(), val);
                Ok(())
            },
        }
    }

    /// Evaluates an expression: its value, or the interrupt that ended the
    /// evaluation. Assignments inside the expression change the environment
    /// as they are met, and an evaluation that is interrupted keeps the
    /// assignments that it had met before: the environment afterwards is the
    /// one that the model gives, not the one from before the call. A caller
    /// who evaluates the expression again once an answer is recorded has to
    /// put the environment back first, as [`Interpreter::evaluate`] does.
    pub fn evaluate_expr(&mut self, expr: &Expr) -> (result: Result<Value, Interrupt>)
        ensures
            final(self).position == old(self).position,
            final(self).answers == old(self).answers,
            final(self).output == old(self).output,
            outcome(result) == eval(expr@, old(self).env@, old(self).answers@).0,
            final(self).env@ == eval(expr@, old(self).env@, old(self).answers@).1,
        decreases expr,
    {
        match expr {
            Expr::Literal(literal) => self.visit_literal(literal),
            Expr::Unary(op, e) => {
                let val = match self.evaluate_expr(e) {
                    Ok(val) => val,
                    Err(interrupt) => {
                        return Err(interrupt);
                    },
                };
                self.visit_unary(*op, &val)
            },
            Expr::Binary(lhs, op, rhs) => {
                let left = match self.evaluate_expr(lhs) {
                    Ok(val) => val,
                    Err(interrupt) => {
                        return Err(interrupt);
                    },
                };
                let right = match self.evaluate_expr(rhs) {
                    Ok(val) => val,
                    Err(interrupt) => {
                        return Err(interrupt);
                    },
                };
                self.visit_binary(&left, *op, &right)
            },
            Expr::Grouping(e) => self.evaluate_expr(e),
            Expr::Variable(symbol) => match self.env.get(symbol) {
                Ok(val) => Ok(val.clone()),
                Err(error) => Err(Interrupt::Failed(RuntimeError::Name(error))),
            },
            Expr::Assign(target, value) => {
                let val = match self.evaluate_expr(value) {
                    Ok(val) => val,
                    Err(interrupt) => {
                        return Err(interrupt);
                    },
                };
                match self.env.assign(target, val.clone()) {
                    Ok(()) => Ok(val),
                    Err(error) => Err(Interrupt::Failed(RuntimeError::Name(error))),
                }
            },
            Expr::Logical(_, _, _) => Err(
                Interrupt::Failed(RuntimeError::NotImplemented(Unsupported::Logical)),
            ),
            Expr::Call(_, _, _) => Err(
                Interrupt::Failed(RuntimeError::NotImplemented(Unsupported::Call)),
            ),
            Expr::Get(_, _) => Err(Interrupt::Failed(RuntimeError::NotImplemented(Unsupported::Get))),
            Expr::SetProperty(_, _, _) => Err(
                Interrupt::Failed(RuntimeError::NotImplemented(Unsupported::SetProperty)),
            ),
            Expr::Super(_, _) => Err(
                Interrupt::Failed(RuntimeError::NotImplemented(Unsupported::Super)),
            ),
            Expr::This(_) => Err(Interrupt::Failed(RuntimeError::NotImplemented(Unsupported::This))),
        }
    }

    /// The number that answers `request`, or the request where the table has
    /// no answer.
    fn ask(&self, request: Request) -> (result: Result<Value, Interrupt>)
        ensures
            outcome(result) == answered(request@, self.answers@),
    {
        match self.answers.find(&request) {
            Some(number) => Ok(Value::Number(number)),
            None => Err(Interrupt::Pending(request)),
        }
    }

    /// The value of a literal.
    pub fn visit_literal(&self, literal: &Literal) -> (result: Result<Value, Interrupt>)
        ensures
            outcome(result) == literal_value(literal@, self.answers@),
    {
        match literal {
            Literal::String(s) => Ok(Value::String(s.clone())),
            Literal::Number(numeral) => self.ask(Request::Convert(numeral.clone())),
            Literal::True => Ok(Value::Boolean(true)),
            Literal::False => Ok(Value::Boolean(false)),
            Literal::Nil => Ok(Value::Nil),
        }
    }

    /// Applies a unary operator to the value of its operand.
    pub fn visit_unary(&self, op: UnaryOp, val: &Value) -> (result: Result<Value, Interrupt>)
        ensures
            outcome(result) == unary_result(op, val@),
    {
        match (op.op_type, val) {
            (UnaryOpType::Minus, Value::Number(n)) => Ok(Value::Number(n.negate())),
            (UnaryOpType::Minus, _) => Err(
                Interrupt::Failed(
                    RuntimeError::Type(TypeError::Unary { op, operand: instance_of(val) }),
                ),
            ),
            (UnaryOpType::Bang, _) => Ok(Value::Boolean(!Self::is_truthy(val))),
        }
    }

    /// The type error of `op` on the two operands.
    fn mismatch(op: BinaryOp, left: &Value, right: &Value) -> (interrupt: Interrupt)
        ensures
            interrupt@ == binary_mismatch(op, left@, right@),
    {
        Interrupt::Failed(
            RuntimeError::Type(
                TypeError::Binary { op, left: instance_of(left), right: instance_of(right) },
            ),
        )
    }

    /// Applies a binary operator to the values of its operands.
    pub fn visit_binary(&self, left: &Value, op: BinaryOp, right: &Value) -> (result: Result<
        Value,
        Interrupt,
    >)
        ensures
            outcome(result) == binary_result(op, left@, right@, self.answers@),
    {
        match (left, op.op_type, right) {
            (Value::Number(l), BinaryOpType::Greater, Value::Number(r)) => Ok(
                Value::Boolean(r.less_than(*l)),
            ),
            (Value::Number(l), BinaryOpType::GreaterEqual, Value::Number(r)) => Ok(
                Value::Boolean(r.less_or_equal(*l)),
            ),
            (Value::Number(l), BinaryOpType::Less, Value::Number(r)) => Ok(
                Value::Boolean(l.less_than(*r)),
            ),
            (Value::Number(l), BinaryOpType::LessEqual, Value::Number(r)) => Ok(
                Value::Boolean(l.less_or_equal(*r)),
            ),
            (Value::Number(l), BinaryOpType::Plus, Value::Number(r)) => self.ask(
                Request::Compute(ArithOp::Add, *l, *r),
            ),
            (Value::Number(l), BinaryOpType::Minus, Value::Number(r)) => self.ask(
                Request::Compute(ArithOp::Subtract, *l, *r),
            ),
            (Value::Number(l), BinaryOpType::Star, Value::Number(r)) => self.ask(
                Request::Compute(ArithOp::Multiply, *l, *r),
            ),
            (Value::Number(ln), BinaryOpType::Slash, Value::Number(rn)) => {
                if !rn.is_zero() {
                    self.ask(Request::Compute(ArithOp::Divide, *ln, *rn))
                } else {
                    Err(Interrupt::Failed(RuntimeError::ZeroDivision(op)))
                }
            },
            (Value::String(ls), BinaryOpType::Plus, Value::String(rs)) => Ok(
                Value::String(ls.clone().concat(rs.as_str())),
            ),
            (_, BinaryOpType::EqualEqual, _) => match self.equals(left, right) {
                Ok(equal) => Ok(Value::Boolean(equal)),
                Err(interrupt) => Err(interrupt),
            },
            (_, BinaryOpType::BangEqual, _) => match self.equals(left, right) {
                Ok(equal) => Ok(Value::Boolean(!equal)),
                Err(interrupt) => Err(interrupt),
            },
            _ => Err(Self::mismatch(op, left, right)),
        }
    }

    /// How a value is printed.
    pub fn format_val(&self, val: &Value) -> (printed: Printed)
        ensures
            printed@ == rendering(val@),
    {
        match val {
            Value::Number(n) => Printed::Number(*n),
            Value::String(s) => Printed::Text(s.clone()),
            Value::Nil => Printed::Text(String::from_str("nil")),
            Value::Boolean(b) => Printed::Text(
                String::from_str(
                    if *b {
                        "true"
                    } else {
                        "false"
                    },
                ),
            ),
        }
    }

    /// Only nil and false are falsy.
    pub fn is_truthy(val: &Value) -> (truth: bool)
        ensures
            truth == truthy(val@),
    {
        match val {
            Value::Nil => false,
            Value::Boolean(b) => *b,
            _ => true,
        }
    }

    /// Decides whether two values are equal.
    pub fn equals(&self, lhs: &Value, rhs: &Value) -> (result: Result<bool, Interrupt>)
        ensures
            match equal_values(lhs@, rhs@, self.answers@) {
                Ok(equal) => result == Ok::<bool, Interrupt>(equal),
                Err(interrupt) => result matches Err(found) && found@ == interrupt,
            },
    {
        match (lhs, rhs) {
            (Value::Boolean(b1), Value::Boolean(b2)) => Ok(*b1 == *b2),
            (Value::String(s1), Value::String(s2)) => {
                let same = *s1 == *s2;
                Ok(same)
            },
            (Value::Number(n1), Value::Number(n2)) => {
                if n1.is_nan() || n2.is_nan() {
                    Ok(false)
                } else {
                    let difference = Request::Compute(ArithOp::Subtract, *n1, *n2);
                    match self.answers.find(&difference) {
                        Some(number) => Ok(number.is_negligible()),
                        None => Err(Interrupt::Pending(difference)),
                    }
                }
            },
            (Value::Nil, Value::Nil) => Ok(true),
            _ => Ok(false),
        }
    }
}

} // verus!
