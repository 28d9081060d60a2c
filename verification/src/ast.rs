//! The syntax tree: statements and expressions, their mathematical views,
//! and their rendering to text.

use vstd::prelude::*;
use vstd::string::*;
use crate::text::{bool_text, bool_to_string, decimal, int_to_string};
use crate::token::TokenType;

verus! {

/// An expression as a mathematical value.
pub enum ExprView {
    Absent,
    Ident(Seq<char>),
    Integer(i64),
    Float(Seq<char>),
    Prefix { op: TokenType, right: Box<ExprView> },
    Infix { left: Box<ExprView>, op: TokenType, right: Box<ExprView> },
    Boolean(bool),
    If { condition: Box<ExprView>, consequence: Box<StatementView>, alternative: Box<StatementView> },
    Fn { parameters: Seq<Seq<char>>, body: Box<StatementView> },
    Call { function: Box<ExprView>, arguments: Seq<ExprView> },
}

/// A statement as a mathematical value.
pub enum StatementView {
    Let { name: Seq<char>, value: ExprView },
    Return(ExprView),
    Expression(ExprView),
    Block(Seq<StatementView>),
    Absent,
}

/// The texts of `items`, each followed by nothing: plain concatenation.
pub open spec fn concat(items: Seq<Seq<char>>) -> Seq<char>
    decreases items.len(),
{
    if items.len() == 0 {
        Seq::empty()
    } else {
        concat(items.drop_last()) + items.last()
    }
}

/// The texts of `items` with `", "` between neighbours.
pub open spec fn join(items: Seq<Seq<char>>) -> Seq<char>
    decreases items.len(),
{
    if items.len() == 0 {
        Seq::empty()
    } else if items.len() == 1 {
        items[0]
    } else {
        join(items.drop_last()) + ", "@ + items.last()
    }
}

impl ExprView {
    /// The text of the expression: operators fully parenthesized.
    pub open spec fn render(self) -> Seq<char>
        decreases self,
    {
        match self {
            ExprView::Absent => "none"@,
            ExprView::Ident(name) => name,
            ExprView::Integer(value) => decimal(value as int),
            ExprView::Float(text) => text,
            ExprView::Prefix { op, right } => "("@ + op.symbol_text() + right.render() + ")"@,
            ExprView::Infix { left, op, right } => "("@ + left.render() + " "@ + op.symbol_text()
                + " "@ + right.render() + ")"@,
            ExprView::Boolean(value) => bool_text(value),
            ExprView::If { condition, consequence, alternative } => {
                let head = "if"@ + condition.render() + " "@ + consequence.render();
                if *alternative is Absent {
                    head
                } else {
                    head + alternative.render()
                }
            },
            ExprView::Fn { parameters, body } => "fn("@ + join(parameters) + ") "@ + body.render(),
            ExprView::Call { function, arguments } => function.render() + "("@ + join(
                render_exprs(arguments),
            ) + ")"@,
        }
    }
}

impl StatementView {
    /// The text of the statement.
    pub open spec fn render(self) -> Seq<char>
        decreases self,
    {
        match self {
            StatementView::Let { name, value } => "let "@ + name + " = "@ + value.render() + ";"@,
            StatementView::Return(value) => value.render(),
            StatementView::Expression(value) => value.render(),
            StatementView::Block(statements) => concat(render_statements(statements)),
            StatementView::Absent => "None"@,
        }
    }
}

/// The text of each expression of `items`.
pub open spec fn render_exprs(items: Seq<ExprView>) -> Seq<Seq<char>>
    decreases items,
{
    Seq::new(
        items.len(),
        |i: int|
            if 0 <= i < items.len() {
                items[i].render()
            } else {
                Seq::empty()
            },
    )
}

/// The text of each statement of `items`.
pub open spec fn render_statements(items: Seq<StatementView>) -> Seq<Seq<char>>
    decreases items,
{
    Seq::new(
        items.len(),
        |i: int|
            if 0 <= i < items.len() {
                items[i].render()
            } else {
                Seq::empty()
            },
    )
}

/// A name.
#[derive(Debug)]
pub struct Ident(pub String);

impl Clone for Ident {
    fn clone(&self) -> (copy: Ident)
        ensures
            copy@ == self@,
    {
        Ident(self.0.clone())
    }
}

impl View for Ident {
    type V = Seq<char>;

    open spec fn view(&self) -> Seq<char> {
        self.0@
    }
}

impl Ident {
    /// The name itself.
    pub fn string(&self) -> (s: String)
        ensures
            s@ == self@,
    {
        self.0.clone()
    }
}

/// An expression.
#[derive(Debug)]
pub enum Expr {
    /// The placeholder for what could not be parsed.
    Absent,
    Ident(Ident),
    Integer(i64),
    /// A floating-point literal, held as its text.
    Float(String),
    Prefix { op: TokenType, right: Box<Expr> },
    Infix { left: Box<Expr>, op: TokenType, right: Box<Expr> },
    Boolean(bool),
    IfExpression { condition: Box<Expr>, consequence: Box<Statement>, alternative: Box<Statement> },
    Fn(Function),
    Call { function: Box<Expr>, arguments: Vec<Expr> },
}

/// A function literal: its parameters and its body, a block.
#[derive(Debug)]
pub struct Function {
    pub parameters: Vec<Ident>,
    pub body: Box<Statement>,
}

/// A statement.
#[derive(Debug)]
pub enum Statement {
    Let { name: Ident, value: Expr },
    Return(ReturnStatement),
    Expression(ExpressionStatement),
    Block(BlockStatement),
    /// The absent statement: the missing alternative of a conditional.
    Absent,
}

/// A `return` and the expression whose value it yields.
#[derive(Debug)]
pub struct ReturnStatement {
    pub return_value: Expr,
}

/// An expression that stands as a statement.
#[derive(Debug)]
pub struct ExpressionStatement {
    pub expression: Expr,
}

/// The statements between a pair of braces, in order.
#[derive(Debug)]
pub struct BlockStatement {
    pub statements: Vec<Statement>,
}

/// The root of a syntax tree: the statements of a program, in order.
#[derive(Debug)]
pub struct Program {
    pub statements: Vec<Statement>,
}

/// The views of the names of `items`.
pub open spec fn ident_views(items: Seq<Ident>) -> Seq<Seq<char>> {
    Seq::new(items.len(), |i: int| items[i]@)
}

/// The views of the expressions of `items`.
pub open spec fn expr_views(items: Seq<Expr>) -> Seq<ExprView>
    decreases items,
{
    Seq::new(
        items.len(),
        |i: int|
            if 0 <= i < items.len() {
                items[i].model()
            } else {
                ExprView::Absent
            },
    )
}

/// The views of the statements of `items`.
pub open spec fn statement_views(items: Seq<Statement>) -> Seq<StatementView>
    decreases items,
{
    Seq::new(
        items.len(),
        |i: int|
            if 0 <= i < items.len() {
                items[i].model()
            } else {
                StatementView::Absent
            },
    )
}

impl Expr {
    /// The expression as a mathematical value.
    pub open spec fn model(&self) -> ExprView
        decreases self,
    {
        match self {
            Expr::Absent => ExprView::Absent,
            Expr::Ident(name) => ExprView::Ident(name@),
            Expr::Integer(value) => ExprView::Integer(*value),
            Expr::Float(text) => ExprView::Float(text@),
            Expr::Prefix { op, right } => ExprView::Prefix { op: *op, right: Box::new(right.model()) },
            Expr::Infix { left, op, right } => ExprView::Infix {
                left: Box::new(left.model()),
                op: *op,
                right: Box::new(right.model()),
            },
            Expr::Boolean(value) => ExprView::Boolean(*value),
            Expr::IfExpression { condition, consequence, alternative } => ExprView::If {
                condition: Box::new(condition.model()),
                consequence: Box::new(consequence.model()),
                alternative: Box::new(alternative.model()),
            },
            Expr::Fn(function) => ExprView::Fn {
                parameters: ident_views(function.parameters@),
                body: Box::new(function.body.model()),
            },
            Expr::Call { function, arguments } => ExprView::Call {
                function: Box::new(function.model()),
                arguments: expr_views(arguments@),
            },
        }
    }
}

impl Statement {
    /// The statement as a mathematical value.
    pub open spec fn model(&self) -> StatementView
        decreases self,
    {
        match self {
            Statement::Let { name, value } => StatementView::Let { name: name@, value: value.model() },
            Statement::Return(statement) => StatementView::Return(statement.return_value.model()),
            Statement::Expression(statement) => StatementView::Expression(statement.expression.model()),
            Statement::Block(block) => StatementView::Block(statement_views(block.statements@)),
            Statement::Absent => StatementView::Absent,
        }
    }
}

impl View for Expr {
    type V = ExprView;

    open spec fn view(&self) -> ExprView {
        self.model()
    }
}

impl View for Statement {
    type V = StatementView;

    open spec fn view(&self) -> StatementView {
        self.model()
    }
}

impl View for Program {
    type V = Seq<StatementView>;

    open spec fn view(&self) -> Seq<StatementView> {
        statement_views(self.statements@)
    }
}

/// The characters of each string of `items`.
pub open spec fn text_views(items: Seq<String>) -> Seq<Seq<char>> {
    Seq::new(items.len(), |i: int| items[i]@)
}

/// Concatenates `parts`.
pub fn concat_texts(parts: &Vec<String>) -> (out: String)
    ensures
        out@ == concat(text_views(parts@)),
{
    let mut out = String::new();
    let mut i: usize = 0;
    while i < parts.len()
        invariant
            i <= parts@.len(),
            out@ == concat(text_views(parts@).subrange(0, i as int)),
        decreases parts@.len() - i,
    {
        out.append(parts[i].as_str());
        proof {
            let all = text_views(parts@);
            assert(all.subrange(0, i + 1).drop_last() =~= all.subrange(0, i as int));
        }
        i += 1;
    }
    assert(text_views(parts@).subrange(0, i as int) =~= text_views(parts@));
    out
}

/// Joins `parts` with `", "` between neighbours.
pub fn join_texts(parts: &Vec<String>) -> (out: String)
    ensures
        out@ == join(text_views(parts@)),
{
    let mut out = String::new();
    let mut i: usize = 0;
    while i < parts.len()
        invariant
            i <= parts@.len(),
            out@ == join(text_views(parts@).subrange(0, i as int)),
        decreases parts@.len() - i,
    {
        if i > 0 {
            out.append(", ");
        }
        out.append(parts[i].as_str());
        proof {
            let all = text_views(parts@);
            assert(all.subrange(0, i + 1).drop_last() =~= all.subrange(0, i as int));
        }
        i += 1;
    }
    assert(text_views(parts@).subrange(0, i as int) =~= text_views(parts@));
    out
}

impl Expr {
    /// Renders the expression: operators fully parenthesized.
    pub fn string(&self) -> (s: String)
        ensures
            s@ == self@.render(),
        decreases self,
    {
        match self {
            Expr::Absent => "none".to_owned(),
            Expr::Float(text) => text.clone(),
            Expr::Ident(name) => name.string(),
            Expr::Integer(value) => int_to_string(*value),
            Expr::Prefix { op, right } => {
                let mut out = "(".to_owned();
                out.append(op.symbol());
                out.append(right.string().as_str());
                out.append(")");
                out
            },
            Expr::Infix { left, op, right } => {
                let mut out = "(".to_owned();
                out.append(left.string().as_str());
                out.append(" ");
                out.append(op.symbol());
                out.append(" ");
                out.append(right.string().as_str());
                out.append(")");
                out
            },
            Expr::Boolean(value) => bool_to_string(*value),
            Expr::IfExpression { condition, consequence, alternative } => {
                let mut out = "if".to_owned();
                out.append(condition.string().as_str());
                out.append(" ");
                out.append(consequence.string().as_str());
                match &**alternative {
                    Statement::Absent => {
                    },
                    _ => {
                        assert(!(alternative@ is Absent));
                        out.append(alternative.string().as_str());
                    },
                }
                out
            },
            Expr::Fn(function) => function.string(),
            Expr::Call { function, arguments } => {
                let mut parts: Vec<String> = Vec::new();
                let mut i: usize = 0;
                while i < arguments.len()
                    invariant
                        i <= arguments@.len(),
                        parts@.len() == i,
                        forall|k: int|
                            0 <= k < i ==> (#[trigger] parts@[k])@ == arguments@[k]@.render(),
                        self is Call,
                        self->arguments == *arguments,
                    decreases arguments@.len() - i,
                {
                    parts.push(arguments[i].string());
                    i += 1;
                }
                assert(text_views(parts@) =~= render_exprs(expr_views(arguments@)));
                let mut out = function.string();
                out.append("(");
                out.append(join_texts(&parts).as_str());
                out.append(")");
                out
            },
        }
    }
}

impl Function {
    /// Renders the function literal: `fn(`, the parameters, `) ` and the body.
    pub fn string(&self) -> (s: String)
        ensures
            s@ == "fn("@ + join(ident_views(self.parameters@)) + ") "@ + self.body@.render(),
        decreases self,
    {
        let mut parts: Vec<String> = Vec::new();
        let mut i: usize = 0;
        while i < self.parameters.len()
            invariant
                i <= self.parameters@.len(),
                parts@.len() == i,
                forall|k: int| 0 <= k < i ==> (#[trigger] parts@[k])@ == self.parameters@[k]@,
            decreases self.parameters@.len() - i,
        {
            parts.push(self.parameters[i].string());
            i += 1;
        }
        assert(text_views(parts@) =~= ident_views(self.parameters@));
        let mut out = "fn(".to_owned();
        out.append(join_texts(&parts).as_str());
        out.append(") ");
        out.append(self.body.string().as_str());
        out
    }
}

impl Statement {
    /// Renders the statement.
    pub fn string(&self) -> (s: String)
        ensures
            s@ == self@.render(),
        decreases self,
    {
        match self {
            Statement::Let { name, value } => {
                let mut out = "let ".to_owned();
                out.append(name.string().as_str());
                out.append(" = ");
                out.append(value.string().as_str());
                out.append(";");
                out
            },
            Statement::Expression(statement) => statement.string(),
            Statement::Return(statement) => statement.string(),
            Statement::Block(block) => block.string(),
            Statement::Absent => "None".to_owned(),
        }
    }
}

impl ReturnStatement {
    /// Renders the returned expression.
    pub fn string(&self) -> (s: String)
        ensures
            s@ == self.return_value@.render(),
        decreases self,
    {
        self.return_value.string()
    }
}

impl ExpressionStatement {
    /// Renders the expression.
    pub fn string(&self) -> (s: String)
        ensures
            s@ == self.expression@.render(),
        decreases self,
    {
        self.expression.string()
    }
}

impl BlockStatement {
    /// Renders the statements of the block, one after another.
    pub fn string(&self) -> (s: String)
        ensures
            s@ == concat(render_statements(statement_views(self.statements@))),
        decreases self,
    {
        let mut parts: Vec<String> = Vec::new();
        let mut i: usize = 0;
        while i < self.statements.len()
            invariant
                i <= self.statements@.len(),
                parts@.len() == i,
                forall|k: int|
                    0 <= k < i ==> (#[trigger] parts@[k])@ == self.statements@[k]@.render(),
            decreases self.statements@.len() - i,
        {
            parts.push(self.statements[i].string());
            i += 1;
        }
        assert(text_views(parts@) =~= render_statements(statement_views(self.statements@)));
        concat_texts(&parts)
    }
}

impl Program {
    /// Renders the statements of the program, one after another.
    pub fn string(&self) -> (s: String)
        ensures
            s@ == concat(render_statements(self@)),
    {
        let mut parts: Vec<String> = Vec::new();
        let mut i: usize = 0;
        while i < self.statements.len()
            invariant
                i <= self.statements@.len(),
                parts@.len() == i,
                forall|k: int|
                    0 <= k < i ==> (#[trigger] parts@[k])@ == self.statements@[k]@.render(),
            decreases self.statements@.len() - i,
        {
            parts.push(self.statements[i].string());
            i += 1;
        }
        assert(text_views(parts@) =~= render_statements(self@));
        concat_texts(&parts)
    }
}

impl Expr {
    fn duplicate(&self) -> (copy: Expr)
        ensures
            copy@ == self@,
        decreases self,
    {
        match self {
            Expr::Absent => Expr::Absent,
            Expr::Ident(name) => Expr::Ident(name.clone()),
            Expr::Integer(value) => Expr::Integer(*value),
            Expr::Float(text) => Expr::Float(text.clone()),
            Expr::Prefix { op, right } => Expr::Prefix { op: *op, right: Box::new(right.duplicate()) },
            Expr::Infix { left, op, right } => Expr::Infix {
                left: Box::new(left.duplicate()),
                op: *op,
                right: Box::new(right.duplicate()),
            },
            Expr::Boolean(value) => Expr::Boolean(*value),
            Expr::IfExpression { condition, consequence, alternative } => Expr::IfExpression {
                condition: Box::new(condition.duplicate()),
                consequence: Box::new(consequence.duplicate()),
                alternative: Box::new(alternative.duplicate()),
            },
            Expr::Fn(function) => Expr::Fn(function.duplicate()),
            Expr::Call { function, arguments } => {
                let mut copies: Vec<Expr> = Vec::new();
                let mut i: usize = 0;
                while i < arguments.len()
                    invariant
                        i <= arguments@.len(),
                        copies@.len() == i,
                        forall|k: int| 0 <= k < i ==> (#[trigger] copies@[k])@ == arguments@[k]@,
                        self is Call,
                        self->arguments == *arguments,
                    decreases arguments@.len() - i,
                {
                    copies.push(arguments[i].duplicate());
                    i += 1;
                }
                assert(expr_views(copies@) =~= expr_views(arguments@));
                Expr::Call { function: Box::new(function.duplicate()), arguments: copies }
            },
        }
    }
}

impl Function {
    fn duplicate(&self) -> (copy: Function)
        ensures
            ident_views(copy.parameters@) == ident_views(self.parameters@),
            copy.body@ == self.body@,
        decreases self,
    {
        let mut names: Vec<Ident> = Vec::new();
        let mut i: usize = 0;
        while i < self.parameters.len()
            invariant
                i <= self.parameters@.len(),
                names@.len() == i,
                forall|k: int| 0 <= k < i ==> (#[trigger] names@[k])@ == self.parameters@[k]@,
            decreases self.parameters@.len() - i,
        {
            names.push(self.parameters[i].clone());
            i += 1;
        }
        Function { parameters: names, body: Box::new(self.body.duplicate()) }
    }
}

impl Statement {
    fn duplicate(&self) -> (copy: Statement)
        ensures
            copy@ == self@,
        decreases self,
    {
        match self {
            Statement::Let { name, value } => Statement::Let {
                name: name.clone(),
                value: value.duplicate(),
            },
            Statement::Return(statement) => Statement::Return(
                ReturnStatement { return_value: statement.return_value.duplicate() },
            ),
            Statement::Expression(statement) => Statement::Expression(
                ExpressionStatement { expression: statement.expression.duplicate() },
            ),
            Statement::Block(block) => Statement::Block(block.duplicate()),
            Statement::Absent => Statement::Absent,
        }
    }
}

impl BlockStatement {
    fn duplicate(&self) -> (copy: BlockStatement)
        ensures
            statement_views(copy.statements@) == statement_views(self.statements@),
        decreases self,
    {
        let mut copies: Vec<Statement> = Vec::new();
        let mut i: usize = 0;
        while i < self.statements.len()
            invariant
                i <= self.statements@.len(),
                copies@.len() == i,
                forall|k: int| 0 <= k < i ==> (#[trigger] copies@[k])@ == self.statements@[k]@,
            decreases self.statements@.len() - i,
        {
            copies.push(self.statements[i].duplicate());
            i += 1;
        }
        BlockStatement { statements: copies }
    }
}

impl Clone for Expr {
    fn clone(&self) -> (copy: Expr)
        ensures
            copy@ == self@,
    {
        self.duplicate()
    }
}

impl Clone for Statement {
    fn clone(&self) -> (copy: Statement)
        ensures
            copy@ == self@,
    {
        self.duplicate()
    }
}

impl Clone for Function {
    fn clone(&self) -> (copy: Function)
        ensures
            ident_views(copy.parameters@) == ident_views(self.parameters@),
            copy.body@ == self.body@,
    {
        self.duplicate()
    }
}

impl Clone for ReturnStatement {
    fn clone(&self) -> (copy: ReturnStatement)
        ensures
            copy.return_value@ == self.return_value@,
    {
        ReturnStatement { return_value: self.return_value.duplicate() }
    }
}

impl Clone for ExpressionStatement {
    fn clone(&self) -> (copy: ExpressionStatement)
        ensures
            copy.expression@ == self.expression@,
    {
        ExpressionStatement { expression: self.expression.duplicate() }
    }
}

impl Clone for BlockStatement {
    fn clone(&self) -> (copy: BlockStatement)
        ensures
            statement_views(copy.statements@) == statement_views(self.statements@),
    {
        self.duplicate()
    }
}

impl Clone for Program {
    fn clone(&self) -> (copy: Program)
        ensures
            copy@ == self@,
    {
        let mut copies: Vec<Statement> = Vec::new();
        let mut i: usize = 0;
        while i < self.statements.len()
            invariant
                i <= self.statements@.len(),
                copies@.len() == i,
                forall|k: int| 0 <= k < i ==> (#[trigger] copies@[k])@ == self.statements@[k]@,
            decreases self.statements@.len() - i,
        {
            copies.push(self.statements[i].duplicate());
            i += 1;
        }
        Program { statements: copies }
    }
}

} // verus!
