//! The abstract syntax tree: expression nodes, function prototypes,
//! functions, and translation-unit entries, each knowing how to render
//! itself into target instruction lines.
//!
//! A number literal is carried as its lexeme text: the rendering emits the
//! digits exactly as they stood in the source.

use vstd::prelude::*;
use vstd::string::StringExecFns;
use crate::code_generator::{builtin_wat_spec, CodeGenerator};
use crate::operator::Operator;

verus! {

/// The mathematical shape of an expression.
pub ghost enum ExprView {
    Number(Seq<char>),
    Variable(Seq<char>),
    Binary { op: Operator, lhs: Box<ExprView>, rhs: Box<ExprView> },
    Unary { op: Operator, rhs: Box<ExprView> },
    Call { callee: Seq<char>, args: Seq<ExprView> },
    If { cond: Box<ExprView>, then_branch: Box<ExprView>, else_branch: Box<ExprView> },
}

/// An expression node. Composite variants own their children; every child
/// is fully constructed before the parent exists, so no partial tree is
/// ever handed to the code generator.
#[derive(Debug, PartialEq)]
pub enum ExprNode {
    Number(String),
    Variable(String),
    BinaryExpr { op: Operator, lhs: Box<ExprNode>, rhs: Box<ExprNode> },
    UnaryExpr { op: Operator, rhs: Box<ExprNode> },
    CallExpr { callee: String, args: Vec<ExprNode> },
    IfExpr { cond: Box<ExprNode>, then_branch: Box<ExprNode>, else_branch: Box<ExprNode> },
}

/// The view of one expression node.
pub open spec fn expr_view(e: ExprNode) -> ExprView
    decreases e,
{
    match e {
        ExprNode::Number(lex) => ExprView::Number(lex@),
        ExprNode::Variable(name) => ExprView::Variable(name@),
        ExprNode::BinaryExpr { op, lhs, rhs } => ExprView::Binary {
            op,
            lhs: Box::new(expr_view(*lhs)),
            rhs: Box::new(expr_view(*rhs)),
        },
        ExprNode::UnaryExpr { op, rhs } => ExprView::Unary { op, rhs: Box::new(expr_view(*rhs)) },
        ExprNode::CallExpr { callee, args } => ExprView::Call {
            callee: callee@,
            args: expr_views(args@),
        },
        ExprNode::IfExpr { cond, then_branch, else_branch } => ExprView::If {
            cond: Box::new(expr_view(*cond)),
            then_branch: Box::new(expr_view(*then_branch)),
            else_branch: Box::new(expr_view(*else_branch)),
        },
    }
}

/// The views of a sequence of expression nodes, in order.
pub open spec fn expr_views(args: Seq<ExprNode>) -> Seq<ExprView>
    decreases args,
{
    if args.len() == 0 {
        Seq::empty()
    } else {
        expr_views(args.drop_last()).push(expr_view(args.last()))
    }
}

impl DeepView for ExprNode {
    type V = ExprView;

    open spec fn deep_view(&self) -> ExprView {
        expr_view(*self)
    }
}

/// The instruction lines a whole argument list renders to: each argument's
/// lines in order.
pub open spec fn wat_of_args(args: Seq<ExprView>) -> Seq<Seq<char>>
    decreases args,
{
    if args.len() == 0 {
        Seq::empty()
    } else {
        wat_of_args(args.drop_last()) + wat_of(args.last())
    }
}

/// The instruction lines an expression renders to, by a post-order walk:
/// operands first, then the operator; calls emit their arguments and then
/// either a builtin instruction or a call instruction; conditionals emit a
/// structured `if (result f32) ... else ... end` block.
pub open spec fn wat_of(e: ExprView) -> Seq<Seq<char>>
    decreases e,
{
    match e {
        ExprView::Number(lex) => seq!["f32.const "@ + lex + "\n"@],
        ExprView::Variable(name) => seq!["local.get $"@ + name + "\n"@],
        ExprView::Binary { op, lhs, rhs } => wat_of(*lhs) + wat_of(*rhs) + seq![op.spec_wat()],
        ExprView::Unary { op, rhs } => wat_of(*rhs) + seq![op.spec_wat()],
        ExprView::Call { callee, args } => wat_of_args(args) + (match builtin_wat_spec(callee) {
            Some(instr) => seq![instr],
            None => seq!["call $"@ + callee + "\n"@],
        }),
        ExprView::If { cond, then_branch, else_branch } => wat_of(*cond) + seq![
            "if (result f32)\n"@,
        ] + wat_of(*then_branch) + seq!["else\n"@] + wat_of(*else_branch) + seq!["end\n"@],
    }
}

impl ExprNode {
    pub fn create_call(callee: String, args: Vec<ExprNode>) -> (r: ExprNode)
        ensures
            r.deep_view() == (ExprView::Call { callee: callee@, args: expr_views(args@) }),
    {
        ExprNode::CallExpr { callee, args }
    }

    pub fn create_binary_op(op: Operator, lhs: ExprNode, rhs: ExprNode) -> (r: ExprNode)
        ensures
            r.deep_view() == (ExprView::Binary {
                op,
                lhs: Box::new(lhs.deep_view()),
                rhs: Box::new(rhs.deep_view()),
            }),
    {
        ExprNode::BinaryExpr { op, lhs: Box::new(lhs), rhs: Box::new(rhs) }
    }

    pub fn create_unary_op(op: Operator, rhs: ExprNode) -> (r: ExprNode)
        ensures
            r.deep_view() == (ExprView::Unary { op, rhs: Box::new(rhs.deep_view()) }),
    {
        ExprNode::UnaryExpr { op, rhs: Box::new(rhs) }
    }

    pub fn create_if_then_else(cond: ExprNode, then_branch: ExprNode, else_branch: ExprNode) -> (r:
        ExprNode)
        ensures
            r.deep_view() == (ExprView::If {
                cond: Box::new(cond.deep_view()),
                then_branch: Box::new(then_branch.deep_view()),
                else_branch: Box::new(else_branch.deep_view()),
            }),
    {
        ExprNode::IfExpr {
            cond: Box::new(cond),
            then_branch: Box::new(then_branch),
            else_branch: Box::new(else_branch),
        }
    }

    /// Renders this expression into its instruction lines.
    pub fn to_wat(&self) -> (r: Vec<String>)
        ensures
            r.deep_view() == wat_of(self.deep_view()),
        decreases *self,
    {
        match self {
            ExprNode::Number(lex) => {
                let mut line = String::from_str("f32.const ");
                line.append(lex.as_str());
                line.append("\n");
                let mut v: Vec<String> = Vec::new();
                v.push(line);
                proof {
                    assert(v.deep_view() =~~= wat_of(self.deep_view()));
                }
                v
            },
            ExprNode::Variable(name) => {
                let mut line = String::from_str("local.get $");
                line.append(name.as_str());
                line.append("\n");
                let mut v: Vec<String> = Vec::new();
                v.push(line);
                proof {
                    assert(v.deep_view() =~~= wat_of(self.deep_view()));
                }
                v
            },
            ExprNode::BinaryExpr { op, lhs, rhs } => {
                let mut v = lhs.to_wat();
                let mut rv = rhs.to_wat();
                v.append(&mut rv);
                v.push(op.to_wat());
                proof {
                    assert(v.deep_view() =~~= wat_of(self.deep_view()));
                }
                v
            },
            ExprNode::UnaryExpr { op, rhs } => {
                let mut v = rhs.to_wat();
                v.push(op.to_wat());
                proof {
                    assert(v.deep_view() =~~= wat_of(self.deep_view()));
                }
                v
            },
            ExprNode::CallExpr { callee, args } => {
                let mut v: Vec<String> = Vec::new();
                let ghost views = expr_views(args@);
                proof {
                    lemma_expr_views_len(args@);
                    assert(v.deep_view() =~~= wat_of_args(views.subrange(0, 0)));
                }
                let mut i: usize = 0;
                while i < args.len()
                    invariant
                        i <= args.len(),
                        *self is CallExpr,
                        (*self)->args == *args,
                        views == expr_views(args@),
                        views.len() == args@.len(),
                        v.deep_view() == wat_of_args(views.subrange(0, i as int)),
                    decreases args.len() - i,
                {
                    proof {
                        lemma_expr_views_index(args@, i as int);
                        assert((*self)->args == *args);
                        assert(decreases_to!(*self => (*self)->args));
                        assert(decreases_to!((*self)->args => args@[i as int]));
                        assert(decreases_to!(*self => args@[i as int]));
                    }
                    let mut av = args[i].to_wat();
                    let ghost avd = av.deep_view();
                    let ghost pre = v.deep_view();
                    v.append(&mut av);
                    proof {
                        assert(v.deep_view() =~~= pre + avd);
                        assert(views.subrange(0, i + 1).drop_last() =~= views.subrange(0, i as int));
                        assert(views.subrange(0, i + 1).last() == views[i as int]);
                        assert(v.deep_view() =~~= wat_of_args(views.subrange(0, i + 1)));
                    }
                    i = i + 1;
                }
                proof {
                    assert(views.subrange(0, views.len() as int) =~= views);
                }
                match CodeGenerator::builtin_funcs(callee) {
                    Some(instr) => {
                        v.push(instr);
                    },
                    None => {
                        let mut line = String::from_str("call $");
                        line.append(callee.as_str());
                        line.append("\n");
                        v.push(line);
                    },
                }
                proof {
                    assert(v.deep_view() =~~= wat_of(self.deep_view()));
                }
                v
            },
            ExprNode::IfExpr { cond, then_branch, else_branch } => {
                let mut v = cond.to_wat();
                v.push(String::from_str("if (result f32)\n"));
                let mut tv = then_branch.to_wat();
                v.append(&mut tv);
                v.push(String::from_str("else\n"));
                let mut ev = else_branch.to_wat();
                v.append(&mut ev);
                v.push(String::from_str("end\n"));
                proof {
                    assert(v.deep_view() =~~= wat_of(self.deep_view()));
                }
                v
            },
        }
    }
}

/// A node sequence and its views have the same length.
pub proof fn lemma_expr_views_len(args: Seq<ExprNode>)
    ensures
        expr_views(args).len() == args.len(),
    decreases args,
{
    if args.len() > 0 {
        lemma_expr_views_len(args.drop_last());
    }
}

/// Each position of a node sequence is viewed in place.
pub proof fn lemma_expr_views_index(args: Seq<ExprNode>, i: int)
    requires
        0 <= i < args.len(),
    ensures
        expr_views(args).len() == args.len(),
        expr_views(args)[i] == expr_view(args[i]),
    decreases args,
{
    lemma_expr_views_len(args);
    if args.len() > 0 {
        lemma_expr_views_len(args.drop_last());
        if i < args.len() - 1 {
            lemma_expr_views_index(args.drop_last(), i);
        }
    }
}

/// The mathematical shape of a prototype: the function's name and its
/// ordered parameter names.
pub ghost struct PrototypeView {
    pub name: Seq<char>,
    pub args: Seq<Seq<char>>,
}

/// A function prototype: a name plus ordered parameter names. Parameter
/// names are not checked for duplicates; that permissiveness is part of
/// the language.
#[derive(Debug, PartialEq)]
pub struct Prototype {
    name: String,
    args: Vec<String>,
}

impl View for Prototype {
    type V = PrototypeView;

    closed spec fn view(&self) -> PrototypeView {
        PrototypeView { name: self.name@, args: self.args.deep_view() }
    }
}

/// The parameter declarations a prototype renders to, one line fragment
/// per parameter, in order.
pub open spec fn params_wat(args: Seq<Seq<char>>) -> Seq<Seq<char>>
    decreases args,
{
    if args.len() == 0 {
        Seq::empty()
    } else {
        params_wat(args.drop_last()).push(" (param $"@ + args.last() + " f32)"@)
    }
}

/// The header lines a prototype renders to: the function name, one
/// floating-point parameter per argument, and a floating-point result.
pub open spec fn proto_wat(p: PrototypeView) -> Seq<Seq<char>> {
    seq!["(func $"@ + p.name] + params_wat(p.args) + seq![" (result f32)\n"@]
}

impl Prototype {
    pub fn new(name: String, args: Vec<String>) -> (r: Self)
        ensures
            r@.name == name@,
            r@.args == args.deep_view(),
    {
        Self { name, args }
    }

    pub fn name(&self) -> (r: &String)
        ensures
            r@ == self@.name,
    {
        &self.name
    }

    pub fn args(&self) -> (r: &Vec<String>)
        ensures
            r.deep_view() == self@.args,
    {
        &self.args
    }

    /// Renders the prototype's header lines.
    pub fn to_wat(&self) -> (r: Vec<String>)
        ensures
            r.deep_view() == proto_wat(self@),
    {
        let mut head = String::from_str("(func $");
        head.append(self.name.as_str());
        let mut v: Vec<String> = Vec::new();
        v.push(head);
        let mut i: usize = 0;
        proof {
            assert(v.deep_view() =~~= seq!["(func $"@ + self@.name] + params_wat(
                self@.args.subrange(0, 0),
            ));
        }
        while i < self.args.len()
            invariant
                i <= self.args.len(),
                self@.args.len() == self.args@.len(),
                v.deep_view() == seq!["(func $"@ + self@.name] + params_wat(
                    self@.args.subrange(0, i as int),
                ),
            decreases self.args.len() - i,
        {
            let mut param = String::from_str(" (param $");
            param.append(self.args[i].as_str());
            param.append(" f32)");
            let ghost pre = v.deep_view();
            v.push(param);
            proof {
                assert(v.deep_view() =~~= pre.push(param@));
                assert(self@.args[i as int] == self.args@[i as int]@);
                assert(self@.args.subrange(0, i + 1).drop_last() =~= self@.args.subrange(
                    0,
                    i as int,
                ));
                assert(self@.args.subrange(0, i + 1).last() == self@.args[i as int]);
                assert(v.deep_view() =~~= seq!["(func $"@ + self@.name] + params_wat(
                    self@.args.subrange(0, i + 1),
                ));
            }
            i = i + 1;
        }
        v.push(String::from_str(" (result f32)\n"));
        proof {
            assert(self@.args.subrange(0, self.args@.len() as int) =~= self@.args);
            assert(v.deep_view() =~~= proto_wat(self@));
        }
        v
    }
}

/// The mathematical shape of a function definition.
pub ghost struct FunctionView {
    pub proto: PrototypeView,
    pub body: ExprView,
}

/// A function definition: one prototype and one body expression.
#[derive(Debug, PartialEq)]
pub struct Function {
    proto: Prototype,
    body: ExprNode,
}

impl View for Function {
    type V = FunctionView;

    closed spec fn view(&self) -> FunctionView {
        FunctionView { proto: self.proto@, body: self.body.deep_view() }
    }
}

/// The lines a whole function definition renders to: its header, its body
/// instructions, and the closing parenthesis.
pub open spec fn func_wat(f: FunctionView) -> Seq<Seq<char>> {
    proto_wat(f.proto) + wat_of(f.body) + seq![")\n"@]
}

impl Function {
    pub fn new(proto: Prototype, body: ExprNode) -> (r: Self)
        ensures
            r@ == (FunctionView { proto: proto@, body: body.deep_view() }),
    {
        Self { proto, body }
    }

    /// Renders the function's lines.
    pub fn to_wat(&self) -> (r: Vec<String>)
        ensures
            r.deep_view() == func_wat(self@),
    {
        let mut v = self.proto.to_wat();
        let mut bv = self.body.to_wat();
        v.append(&mut bv);
        v.push(String::from_str(")\n"));
        proof {
            assert(v.deep_view() =~~= func_wat(self@));
        }
        v
    }

    pub fn prototype(&self) -> (r: &Prototype)
        ensures
            r@ == self@.proto,
    {
        &self.proto
    }

    pub fn body(&self) -> (r: &ExprNode)
        ensures
            r.deep_view() == self@.body,
    {
        &self.body
    }

    pub fn get_function_name(&self) -> (r: &str)
        ensures
            r@ == self@.proto.name,
    {
        self.proto.name.as_str()
    }
}

/// The view of one translation-unit entry.
pub ghost enum AstView {
    Definition(FunctionView),
}

/// One entry of the translation unit: a function definition.
#[derive(Debug, PartialEq)]
pub enum Ast {
    Definition(Function),
}

impl View for Ast {
    type V = AstView;

    open spec fn view(&self) -> AstView {
        match *self {
            Ast::Definition(f) => AstView::Definition(f@),
        }
    }
}

impl DeepView for Ast {
    type V = AstView;

    open spec fn deep_view(&self) -> AstView {
        self.view()
    }
}

} // verus!
