//! The typed abstract syntax of the script language.
//!
//! The parser that produces these trees is an external collaborator; the
//! runtime receives programs and texts already typed.

use crate::value::{RawValue, ValueV};
use vstd::prelude::*;

verus! {

broadcast use vstd::seq::axiom_seq_index_decreases, vstd::std_specs::vec::axiom_vec_decreases_to_view, vstd::std_specs::vec::axiom_vec_index_decreases;

/// A unary operator.
#[derive(Clone, Copy, Debug, PartialEq, Eq, Structural)]
pub enum UnaryOp {
    /// Numeric coercion.
    Positive,
    /// Numeric negation.
    Negative,
    /// Logical or bitwise complement, by operand type.
    Not,
}

/// A value-producing binary operator.
#[derive(Clone, Copy, Debug, PartialEq, Eq, Structural)]
pub enum ValBinaryOp {
    /// Addition; string concatenation on strings.
    Add,
    /// Subtraction.
    Minus,
    /// Multiplication; repetition on a string and a number.
    Mul,
    /// Division.
    Div,
    /// Remainder.
    Mod,
    /// Conjunction on booleans, bitwise on numbers.
    And,
    /// Disjunction on booleans, bitwise on numbers.
    Or,
    /// Exclusive or.
    Xor,
}

/// A boolean-producing binary operator.
#[derive(Clone, Copy, Debug, PartialEq, Eq, Structural)]
pub enum LogicBinaryOp {
    /// Short-circuit conjunction.
    And,
    /// Short-circuit disjunction.
    Or,
    /// Equality.
    Eq,
    /// Inequality.
    Neq,
    /// Less than.
    Lt,
    /// Less than or equal.
    Le,
    /// Greater than.
    Gt,
    /// Greater than or equal.
    Ge,
}

/// A binary operator.
#[derive(Clone, Copy, Debug, PartialEq, Eq, Structural)]
pub enum BinaryOp {
    /// A value operation.
    Val(ValBinaryOp),
    /// A logic operation.
    Logic(LogicBinaryOp),
    /// Assignment to a reference.
    Assign,
    /// A value operation combined with assignment.
    Inplace(ValBinaryOp),
}

/// A reference to a variable.
#[derive(Debug)]
pub enum Ref {
    /// A temp variable, cleared at the start of every program.
    Var(String),
    /// A record local, persisted across steps; written `$name` in scripts.
    Ctx(String),
}

/// The mathematical model of a [`Ref`].
pub enum RefV {
    /// A temp variable.
    Var(Seq<char>),
    /// A record local.
    Ctx(Seq<char>),
}

impl DeepView for Ref {
    type V = RefV;

    open spec fn deep_view(&self) -> RefV {
        match self {
            Ref::Var(n) => RefV::Var(n@),
            Ref::Ctx(n) => RefV::Ctx(n@),
        }
    }
}

/// An expression.
#[derive(Debug)]
pub enum Expr {
    /// A reference read.
    Ref(Ref),
    /// A constant.
    Const(RawValue),
    /// A unary operation.
    Unary(UnaryOp, Box<Expr>),
    /// A binary operation.
    Binary(Box<Expr>, BinaryOp, Box<Expr>),
    /// A call: namespace, function name, arguments. An empty namespace
    /// names an intrinsic; otherwise the namespace names a plugin module.
    Call(String, String, Vec<Expr>),
}

/// The mathematical model of an [`Expr`].
pub enum ExprV {
    /// A reference read.
    Ref(RefV),
    /// A constant.
    Const(ValueV),
    /// A unary operation.
    Unary(UnaryOp, Box<ExprV>),
    /// A binary operation.
    Binary(Box<ExprV>, BinaryOp, Box<ExprV>),
    /// A call.
    Call(Seq<char>, Seq<char>, Seq<ExprV>),
}

/// The deep view of an expression.
pub open spec fn expr_view(e: Expr) -> ExprV
    decreases e,
{
    match e {
        Expr::Ref(r) => ExprV::Ref(r.deep_view()),
        Expr::Const(v) => ExprV::Const(v@),
        Expr::Unary(op, inner) => ExprV::Unary(op, Box::new(expr_view(*inner))),
        Expr::Binary(lhs, op, rhs) => ExprV::Binary(
            Box::new(expr_view(*lhs)),
            op,
            Box::new(expr_view(*rhs)),
        ),
        Expr::Call(ns, name, args) => ExprV::Call(ns@, name@, exprs_view(args@)),
    }
}

/// The deep views of a sequence of expressions.
pub open spec fn exprs_view(args: Seq<Expr>) -> Seq<ExprV>
    decreases args,
{
    Seq::new(
        args.len(),
        |i: int|
            if 0 <= i < args.len() {
                expr_view(args[i])
            } else {
                ExprV::Const(ValueV::Unit)
            },
    )
}

impl DeepView for Expr {
    type V = ExprV;

    open spec fn deep_view(&self) -> ExprV {
        expr_view(*self)
    }
}

/// A program: a sequence of expressions evaluated in order.
#[derive(Debug)]
pub struct Program(pub Vec<Expr>);

impl DeepView for Program {
    type V = Seq<ExprV>;

    open spec fn deep_view(&self) -> Seq<ExprV> {
        self.0.deep_view()
    }
}

/// A command embedded in a text.
#[derive(Debug)]
pub enum Command {
    /// The speaking character: name and alias.
    Character(String, String),
    /// A resource reference.
    Res(String),
    /// A record local read.
    Ctx(String),
    /// Any other command, preserved for the plugin pipelines.
    Other(String, Vec<String>),
}

/// The mathematical model of a [`Command`].
pub enum CommandV {
    /// The speaking character.
    Character(Seq<char>, Seq<char>),
    /// A resource reference.
    Res(Seq<char>),
    /// A record local read.
    Ctx(Seq<char>),
    /// Any other command.
    Other(Seq<char>, Seq<Seq<char>>),
}

impl DeepView for Command {
    type V = CommandV;

    open spec fn deep_view(&self) -> CommandV {
        match self {
            Command::Character(n, a) => CommandV::Character(n@, a@),
            Command::Res(n) => CommandV::Res(n@),
            Command::Ctx(n) => CommandV::Ctx(n@),
            Command::Other(n, args) => CommandV::Other(n@, args.deep_view()),
        }
    }
}

/// A piece of a text: a plain substring or an embedded command.
#[derive(Debug)]
pub enum SubText {
    /// A plain substring.
    Str(String),
    /// An embedded command.
    Cmd(Command),
}

/// The mathematical model of a [`SubText`].
pub enum SubTextV {
    /// A plain substring.
    Str(Seq<char>),
    /// An embedded command.
    Cmd(CommandV),
}

impl DeepView for SubText {
    type V = SubTextV;

    open spec fn deep_view(&self) -> SubTextV {
        match self {
            SubText::Str(s) => SubTextV::Str(s@),
            SubText::Cmd(c) => SubTextV::Cmd(c.deep_view()),
        }
    }
}

/// A text: the parsed form of one scripted line.
#[derive(Debug)]
pub struct Text(pub Vec<SubText>);

impl DeepView for Text {
    type V = Seq<SubTextV>;

    open spec fn deep_view(&self) -> Seq<SubTextV> {
        self.0.deep_view()
    }
}

impl Clone for Ref {
    fn clone(&self) -> (r: Ref)
        ensures
            r.deep_view() == self.deep_view(),
    {
        match self {
            Ref::Var(n) => Ref::Var(n.clone()),
            Ref::Ctx(n) => Ref::Ctx(n.clone()),
        }
    }
}

impl Clone for Expr {
    fn clone(&self) -> (r: Expr)
        ensures
            r.deep_view() == self.deep_view(),
        decreases self,
    {
        match self {
            Expr::Ref(r) => Expr::Ref(r.clone()),
            Expr::Const(v) => Expr::Const(v.clone()),
            Expr::Unary(op, e) => Expr::Unary(*op, Box::new((**e).clone())),
            Expr::Binary(lhs, op, rhs) => Expr::Binary(
                Box::new((**lhs).clone()),
                *op,
                Box::new((**rhs).clone()),
            ),
            Expr::Call(ns, name, args) => {
                let mut cloned_args: Vec<Expr> = Vec::new();
                let n = args.len();
                #[verifier::loop_isolation(false)]
                for i in 0..n
                    invariant
                        n == args@.len(),
                        cloned_args@.len() == i,
                        forall|j: int| 0 <= j < i ==> (#[trigger] cloned_args@[j]).deep_view()
                            == args@[j].deep_view(),
                    decreases n - i,
                {
                    cloned_args.push(args[i].clone());
                }
                proof {
                    assert forall|j: int| 0 <= j < n implies exprs_view(cloned_args@)[j]
                        == exprs_view(args@)[j] by {
                        assert(cloned_args@[j].deep_view() == args@[j].deep_view());
                    }
                    assert(exprs_view(cloned_args@) =~= exprs_view(args@));
                }
                Expr::Call(ns.clone(), name.clone(), cloned_args)
            },
        }
    }
}

impl Clone for Program {
    fn clone(&self) -> (r: Program)
        ensures
            r.deep_view() == self.deep_view(),
    {
        let mut exprs: Vec<Expr> = Vec::new();
        let n = self.0.len();
        #[verifier::loop_isolation(false)]
        for i in 0..n
            invariant
                n == self.0@.len(),
                exprs.deep_view() =~= self.0.deep_view().subrange(0, i as int),
        {
            exprs.push(self.0[i].clone());
            proof {
                assert(exprs.deep_view() =~= self.0.deep_view().subrange(0, i + 1));
            }
        }
        proof {
            assert(exprs.deep_view() =~= self.0.deep_view());
        }
        Program(exprs)
    }
}

impl Clone for Command {
    fn clone(&self) -> (r: Command)
        ensures
            r.deep_view() == self.deep_view(),
    {
        match self {
            Command::Character(n, a) => Command::Character(n.clone(), a.clone()),
            Command::Res(n) => Command::Res(n.clone()),
            Command::Ctx(n) => Command::Ctx(n.clone()),
            Command::Other(n, args) => {
                let mut cloned_args: Vec<String> = Vec::new();
                let len = args.len();
                #[verifier::loop_isolation(false)]
                for i in 0..len
                    invariant
                        len == args@.len(),
                        cloned_args.deep_view() =~= args.deep_view().subrange(0, i as int),
                {
                    cloned_args.push(args[i].clone());
                    proof {
                        assert(cloned_args.deep_view() =~= args.deep_view().subrange(
                            0,
                            i + 1,
                        ));
                    }
                }
                proof {
                    assert(args.deep_view() =~= cloned_args.deep_view());
                }
                Command::Other(n.clone(), cloned_args)
            },
        }
    }
}

impl Clone for SubText {
    fn clone(&self) -> (r: SubText)
        ensures
            r.deep_view() == self.deep_view(),
    {
        match self {
            SubText::Str(s) => SubText::Str(s.clone()),
            SubText::Cmd(c) => SubText::Cmd(c.clone()),
        }
    }
}

impl Clone for Text {
    fn clone(&self) -> (r: Text)
        ensures
            r.deep_view() == self.deep_view(),
    {
        let mut parts: Vec<SubText> = Vec::new();
        let n = self.0.len();
        #[verifier::loop_isolation(false)]
        for i in 0..n
            invariant
                n == self.0@.len(),
                parts.deep_view() =~= self.0.deep_view().subrange(0, i as int),
        {
            parts.push(self.0[i].clone());
            proof {
                assert(parts.deep_view() =~= self.0.deep_view().subrange(0, i + 1));
            }
        }
        proof {
            assert(parts.deep_view() =~= self.0.deep_view());
        }
        Text(parts)
    }
}

} // verus!
