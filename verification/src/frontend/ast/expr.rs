//! Expressions: literals, groupings, and unary and binary operations.

use crate::frontend::token::lemma_token_views_push;
use crate::frontend::token::token_views;
use crate::frontend::token::Token;
use crate::frontend::token::TokenType;
use crate::frontend::token::TokenView;
use vstd::prelude::*;

verus! {

/// Moves a value to the heap.
pub trait Boxer: Sized {
    fn boxed(self) -> (b: Box<Self>)
        ensures
            *b == self,
    {
        Box::new(self)
    }
}

/// An expression. `Noop` stands for no expression at all: it is a
/// placeholder for code that builds a tree, and no finished tree holds it.
#[derive(Debug, PartialEq, Eq, Hash)]
pub enum Expr {
    Noop,
    BinaryExpr(Box<BinaryExpr>),
    Unary(Token, Box<Expr>),
    Literal(String),
    Grouping(Box<Expr>),
}

/// A binary operation: the operator's token between its two operands.
#[derive(PartialEq, Debug, Eq, Hash)]
pub struct BinaryExpr {
    pub op: Token,
    pub lhs: Box<Expr>,
    pub rhs: Box<Expr>,
}

/// An expression as a mathematical value.
pub enum ExprView {
    Noop,
    Binary(Box<ExprView>, TokenView, Box<ExprView>),
    Unary(TokenView, Box<ExprView>),
    Literal(Seq<char>),
    Grouping(Box<ExprView>),
}

/// The value of an expression.
pub open spec fn expr_view(e: Expr) -> ExprView
    decreases e,
{
    match e {
        Expr::Noop => ExprView::Noop,
        Expr::BinaryExpr(b) => ExprView::Binary(
            Box::new(expr_view(*b.lhs)),
            b.op@,
            Box::new(expr_view(*b.rhs)),
        ),
        Expr::Unary(op, operand) => ExprView::Unary(op@, Box::new(expr_view(*operand))),
        Expr::Literal(value) => ExprView::Literal(value@),
        Expr::Grouping(inner) => ExprView::Grouping(Box::new(expr_view(*inner))),
    }
}

impl View for Expr {
    type V = ExprView;

    open spec fn view(&self) -> ExprView {
        expr_view(*self)
    }
}

impl View for BinaryExpr {
    type V = ExprView;

    open spec fn view(&self) -> ExprView {
        ExprView::Binary(Box::new(expr_view(*self.lhs)), self.op@, Box::new(expr_view(*self.rhs)))
    }
}

impl Boxer for Expr {

}

impl Boxer for BinaryExpr {

}

impl BinaryExpr {
    pub fn new(lhs: Box<Expr>, op: Token, rhs: Box<Expr>) -> (b: Self)
        ensures
            b.lhs == lhs,
            b.op == op,
            b.rhs == rhs,
            b@ == ExprView::Binary(Box::new(lhs@), op@, Box::new(rhs@)),
    {
        BinaryExpr { op, lhs, rhs }
    }
}

impl ExprView {
    /// Whether the tree is finished: it holds no placeholder.
    pub open spec fn is_total(self) -> bool
        decreases self,
    {
        match self {
            ExprView::Noop => false,
            ExprView::Binary(lhs, _, rhs) => lhs.is_total() && rhs.is_total(),
            ExprView::Unary(_, operand) => operand.is_total(),
            ExprView::Literal(_) => true,
            ExprView::Grouping(inner) => inner.is_total(),
        }
    }

    /// The tree in prefix form: a literal as its text; an operation as the
    /// operator and then the operands, with spaces between and parentheses
    /// around; a grouping as what it holds; the placeholder as nothing.
    pub open spec fn prefix(self) -> Seq<char>
        decreases self,
    {
        match self {
            ExprView::Noop => Seq::empty(),
            ExprView::Binary(lhs, op, rhs) => seq!['('] + op.text + seq![' '] + lhs.prefix()
                + seq![' '] + rhs.prefix() + seq![')'],
            ExprView::Unary(op, operand) => seq!['('] + op.text + seq![' '] + operand.prefix()
                + seq![')'],
            ExprView::Literal(value) => value,
            ExprView::Grouping(inner) => inner.prefix(),
        }
    }
}

/// A token that stands at no place in any text.
pub open spec fn placeless(kind: TokenType, text: Seq<char>) -> TokenView {
    TokenView { kind, line: 0, text, pos: 0 }
}

impl ExprView {
    /// The tokens that spell the tree in the order of the grammar: a
    /// literal as a string token with the literal's text, an operation
    /// with its operator's own token before the operand or between the
    /// operands, a grouping between two parentheses. The literal tokens
    /// and the parentheses stand at no place.
    pub open spec fn spelling(self) -> Seq<TokenView>
        decreases self,
    {
        match self {
            ExprView::Noop => Seq::empty(),
            ExprView::Binary(lhs, op, rhs) => lhs.spelling() + seq![op] + rhs.spelling(),
            ExprView::Unary(op, operand) => seq![op] + operand.spelling(),
            ExprView::Literal(value) => seq![placeless(TokenType::STRING, value)],
            ExprView::Grouping(inner) => seq![placeless(TokenType::LeftParen, seq!['('])]
                + inner.spelling() + seq![placeless(TokenType::RightParen, seq![')'])],
        }
    }
}

impl Clone for Expr {
    fn clone(&self) -> (e: Expr)
        ensures
            e@ == self@,
    {
        self.copy()
    }
}

impl Clone for BinaryExpr {
    fn clone(&self) -> (b: BinaryExpr)
        ensures
            b@ == self@,
    {
        BinaryExpr { op: self.op.clone(), lhs: Box::new(self.lhs.copy()), rhs: Box::new(self.rhs.copy()) }
    }
}

impl Expr {
    /// A tree equal to this one.
    pub fn copy(&self) -> (e: Expr)
        ensures
            e@ == self@,
        decreases self,
    {
        match self {
            Expr::Noop => Expr::Noop,
            Expr::BinaryExpr(b) => Expr::BinaryExpr(
                Box::new(
                    BinaryExpr {
                        op: b.op.clone(),
                        lhs: Box::new(b.lhs.copy()),
                        rhs: Box::new(b.rhs.copy()),
                    },
                ),
            ),
            Expr::Unary(op, operand) => Expr::Unary(op.clone(), Box::new(operand.copy())),
            Expr::Literal(value) => Expr::Literal(value.clone()),
            Expr::Grouping(inner) => Expr::Grouping(Box::new(inner.copy())),
        }
    }

    /// Appends the tokens that spell the tree.
    pub fn spell_into(&self, out: &mut Vec<Token>)
        ensures
            token_views(final(out)@) == token_views(old(out)@) + self@.spelling(),
        decreases self,
    {
        let ghost before = token_views(out@);
        proof {
            reveal_strlit("(");
            reveal_strlit(")");
            assert("("@ =~= seq!['(']);
            assert(")"@ =~= seq![')']);
        }
        match self {
            Expr::Noop => {
                assert(before + self@.spelling() =~= before);
            },
            Expr::BinaryExpr(b) => {
                b.lhs.spell_into(out);
                let op = b.op.clone();
                proof {
                    lemma_token_views_push(out@, op);
                }
                out.push(op);
                b.rhs.spell_into(out);
                assert(token_views(out@) =~= before + self@.spelling());
            },
            Expr::Unary(op, operand) => {
                let op = op.clone();
                proof {
                    lemma_token_views_push(out@, op);
                }
                out.push(op);
                operand.spell_into(out);
                assert(token_views(out@) =~= before + self@.spelling());
            },
            Expr::Literal(value) => {
                let t = Token::new(TokenType::STRING, 0, value.clone(), 0);
                proof {
                    lemma_token_views_push(out@, t);
                }
                out.push(t);
                assert(token_views(out@) =~= before + self@.spelling());
            },
            Expr::Grouping(inner) => {
                let open = Token::new(TokenType::LeftParen, 0, String::from_str("("), 0);
                proof {
                    lemma_token_views_push(out@, open);
                }
                out.push(open);
                inner.spell_into(out);
                let close = Token::new(TokenType::RightParen, 0, String::from_str(")"), 0);
                proof {
                    lemma_token_views_push(out@, close);
                }
                out.push(close);
                assert(token_views(out@) =~= before + self@.spelling());
            },
        }
    }

    /// The tokens that spell the tree.
    pub fn tokens(&self) -> (r: Vec<Token>)
        ensures
            token_views(r@) == self@.spelling(),
    {
        let mut out: Vec<Token> = Vec::new();
        self.spell_into(&mut out);
        assert(token_views(Seq::<Token>::empty()) + self@.spelling() =~= self@.spelling());
        out
    }

    /// Renders the tree in prefix form, as in `(* (+ 1 2) 3)`.
    pub fn to_string(&self) -> (s: String)
        ensures
            s@ == self@.prefix(),
        decreases self,
    {
        proof {
            reveal_strlit("(");
            reveal_strlit(" ");
            reveal_strlit(")");
            assert("("@ =~= seq!['(']);
            assert(" "@ =~= seq![' ']);
            assert(")"@ =~= seq![')']);
        }
        match self {
            Expr::Noop => String::new(),
            Expr::BinaryExpr(b) => {
                let mut s = String::from_str("(");
                s.append(b.op.val.as_str());
                s.append(" ");
                s.append(b.lhs.to_string().as_str());
                s.append(" ");
                s.append(b.rhs.to_string().as_str());
                s.append(")");
                s
            },
            Expr::Unary(op, operand) => {
                let mut s = String::from_str("(");
                s.append(op.val.as_str());
                s.append(" ");
                s.append(operand.to_string().as_str());
                s.append(")");
                s
            },
            Expr::Literal(value) => value.clone(),
            Expr::Grouping(inner) => inner.to_string(),
        }
    }
}

/// The binary operators.
#[derive(Debug, Clone, Copy, PartialEq, Eq, Hash, Structural)]
pub enum BinaryOperator {
    Plus,
    Minus,
    Slash,
    Star,
    Equal,
    BangEqual,
    Greater,
    GreaterEqual,
    Less,
    LessEqual,
}

impl BinaryOperator {
    /// How the operator is written.
    pub open spec fn symbol(self) -> Seq<char> {
        match self {
            BinaryOperator::Equal => "="@,
            BinaryOperator::BangEqual => "!="@,
            BinaryOperator::Plus => "+"@,
            BinaryOperator::Minus => "-"@,
            BinaryOperator::Star => "*"@,
            BinaryOperator::Slash => "/"@,
            BinaryOperator::Greater => ">"@,
            BinaryOperator::GreaterEqual => ">="@,
            BinaryOperator::Less => "<"@,
            BinaryOperator::LessEqual => "<="@,
        }
    }

    pub fn to_string(&self) -> (s: &'static str)
        ensures
            s@ == self.symbol(),
    {
        match *self {
            BinaryOperator::Equal => "=",
            BinaryOperator::BangEqual => "!=",
            BinaryOperator::Plus => "+",
            BinaryOperator::Minus => "-",
            BinaryOperator::Star => "*",
            BinaryOperator::Slash => "/",
            BinaryOperator::Greater => ">",
            BinaryOperator::GreaterEqual => ">=",
            BinaryOperator::Less => "<",
            BinaryOperator::LessEqual => "<=",
        }
    }
}

} // verus!
