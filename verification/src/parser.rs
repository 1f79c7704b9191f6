use vstd::prelude::*;
use vstd::string::StringExecFns;
use vstd::string::StrSliceExecFns;

use crate::ast::{DuTypeDef, Expr, Literal, MatchArm, Pattern, TypeExpr, VariantDef};
use crate::lexer::{LocatedToken, Token};

verus! {

broadcast use vstd::std_specs::vec::group_vec_axioms;

/// A parsing failure with its diagnostic text.
#[derive(Debug, Clone, PartialEq)]
pub struct ParseError {
    pub message: String,
}

/// A fresh parse error.
fn perr(msg: &str) -> (r: ParseError)
    ensures
        r.message@ == msg@,
{
    ParseError { message: String::from_str(msg) }
}

/// Recursive-descent parser over a token list.
#[derive(Debug)]
pub struct Parser {
    pub tokens: Vec<LocatedToken>,
    pub pos: usize,
    /// The token handed out past the end of the list.
    pub end: Token,
}

impl Parser {
    /// Whether the cursor is inside the token list and the end marker
    /// is what `peek` hands out past the end.
    pub open spec fn wf(&self) -> bool {
        self.pos <= self.tokens@.len() && self.end == Token::Eof
    }

    /// A parser at the start of the token list.
    pub fn new(tokens: Vec<LocatedToken>) -> (r: Parser)
        ensures
            r.wf(),
            r.pos == 0,
    {
        Parser { tokens, pos: 0, end: Token::Eof }
    }

    /// The token under the cursor; past the end it is the end marker.
    fn peek(&self) -> (r: &Token)
        requires
            self.wf(),
        ensures
            self.pos >= self.tokens@.len() ==> *r == Token::Eof,
    {
        if self.pos < self.tokens.len() {
            &self.tokens[self.pos].token
        } else {
            &self.end
        }
    }

    /// Step over the token under the cursor.
    fn bump(&mut self)
        requires
            old(self).wf(),
        ensures
            final(self).wf(),
            final(self).tokens == old(self).tokens,
            final(self).end == old(self).end,
            old(self).pos < old(self).tokens@.len() ==> final(self).pos
                == old(self).pos + 1,
            old(self).pos >= old(self).tokens@.len() ==> final(self).pos
                == old(self).pos,
    {
        if self.pos < self.tokens.len() {
            self.pos = self.pos + 1;
        }
    }

    /// Parse one whole expression.
    pub fn parse(&mut self) -> (r: Result<Expr, ParseError>)
        requires
            old(self).wf(),
        ensures
            final(self).wf(),
            final(self).tokens == old(self).tokens,
            final(self).pos >= old(self).pos,
        decreases self.tokens@.len() - self.pos, 11int,
    {
        self.parse_expr()
    }

    /// An expression: a binder form or an operator chain.
    fn parse_expr(&mut self) -> (r: Result<Expr, ParseError>)
        requires
            old(self).wf(),
        ensures
            final(self).wf(),
            final(self).tokens == old(self).tokens,
            final(self).pos >= old(self).pos,
        decreases self.tokens@.len() - self.pos, 10int,
    {
        let kind: u8 = match self.peek() {
            Token::Let => 1,
            Token::If => 2,
            Token::Fun => 3,
            Token::Match => 4,
            _ => 0,
        };
        if kind == 1 {
            self.bump();
            let name = match self.peek() {
                Token::Ident(s) => s.clone(),
                _ => {
                    return Err(perr("expected a name after the let keyword"));
                },
            };
            self.bump();
            match self.peek() {
                Token::Assign => {},
                _ => {
                    return Err(perr("expected = in the let binding"));
                },
            }
            self.bump();
            let value = self.parse_expr()?;
            match self.peek() {
                Token::In => {},
                _ => {
                    return Err(perr("expected the in keyword after the bound value"));
                },
            }
            self.bump();
            let body = self.parse_expr()?;
            Ok(Expr::Let { name, value: Box::new(value), body: Box::new(body) })
        } else if kind == 2 {
            self.bump();
            let cond = self.parse_expr()?;
            match self.peek() {
                Token::ThenKw => {},
                _ => {
                    return Err(perr("expected the first branch of the conditional"));
                },
            }
            self.bump();
            let thenb = self.parse_expr()?;
            match self.peek() {
                Token::Else => {},
                _ => {
                    return Err(perr("expected the else keyword"));
                },
            }
            self.bump();
            let elseb = self.parse_expr()?;
            Ok(Expr::If {
                cond: Box::new(cond),
                then_branch: Box::new(thenb),
                else_branch: Box::new(elseb),
            })
        } else if kind == 3 {
            self.bump();
            let param = match self.peek() {
                Token::Ident(s) => s.clone(),
                _ => {
                    return Err(perr("expected a parameter name after fun"));
                },
            };
            self.bump();
            match self.peek() {
                Token::Arrow => {},
                _ => {
                    return Err(perr("expected -> after the parameter"));
                },
            }
            self.bump();
            let body = self.parse_expr()?;
            Ok(Expr::Lambda { param, body: Box::new(body) })
        } else if kind == 4 {
            self.bump();
            let scrutinee = self.parse_expr()?;
            match self.peek() {
                Token::With => {},
                _ => {
                    return Err(perr("expected the with keyword after the scrutinee"));
                },
            }
            self.bump();
            let mut arms: Vec<MatchArm> = Vec::new();
            let ghost entry = self.pos;
            loop
                invariant
                    self.wf(),
                    self.tokens == old(self).tokens,
                    entry <= self.pos,
                    old(self).pos < self.pos,
                decreases self.tokens@.len() - self.pos,
            {
                let more = match self.peek() {
                    Token::Pipe => true,
                    _ => false,
                };
                if !more {
                    break;
                }
                self.bump();
                let pattern = self.parse_pattern()?;
                match self.peek() {
                    Token::Arrow => {},
                    _ => {
                        return Err(perr("expected -> after the pattern"));
                    },
                }
                self.bump();
                let body = self.parse_expr()?;
                arms.push(MatchArm { pattern, body });
            }
            if arms.len() == 0 {
                return Err(perr("expected at least one match arm"));
            }
            Ok(Expr::Match { scrutinee: Box::new(scrutinee), arms })
        } else {
            self.parse_or()
        }
    }

    /// A `||` chain.
    fn parse_or(&mut self) -> (r: Result<Expr, ParseError>)
        requires
            old(self).wf(),
        ensures
            final(self).wf(),
            final(self).tokens == old(self).tokens,
            final(self).pos >= old(self).pos,
        decreases self.tokens@.len() - self.pos, 9int,
    {
        let mut left = self.parse_and()?;
        loop
            invariant
                self.wf(),
                self.tokens == old(self).tokens,
                old(self).pos <= self.pos,
            decreases self.tokens@.len() - self.pos,
        {
            let more = match self.peek() {
                Token::OrOr => true,
                _ => false,
            };
            if !more {
                break;
            }
            self.bump();
            let right = self.parse_and()?;
            left = Expr::BinOp {
                op: crate::ast::BinOp::Or,
                left: Box::new(left),
                right: Box::new(right),
            };
        }
        Ok(left)
    }

    /// An `&&` chain.
    fn parse_and(&mut self) -> (r: Result<Expr, ParseError>)
        requires
            old(self).wf(),
        ensures
            final(self).wf(),
            final(self).tokens == old(self).tokens,
            final(self).pos >= old(self).pos,
        decreases self.tokens@.len() - self.pos, 8int,
    {
        let mut left = self.parse_cmp()?;
        loop
            invariant
                self.wf(),
                self.tokens == old(self).tokens,
                old(self).pos <= self.pos,
            decreases self.tokens@.len() - self.pos,
        {
            let more = match self.peek() {
                Token::AndAnd => true,
                _ => false,
            };
            if !more {
                break;
            }
            self.bump();
            let right = self.parse_cmp()?;
            left = Expr::BinOp {
                op: crate::ast::BinOp::And,
                left: Box::new(left),
                right: Box::new(right),
            };
        }
        Ok(left)
    }

    /// A comparison chain.
    fn parse_cmp(&mut self) -> (r: Result<Expr, ParseError>)
        requires
            old(self).wf(),
        ensures
            final(self).wf(),
            final(self).tokens == old(self).tokens,
            final(self).pos >= old(self).pos,
        decreases self.tokens@.len() - self.pos, 7int,
    {
        let mut left = self.parse_add()?;
        loop
            invariant
                self.wf(),
                self.tokens == old(self).tokens,
                old(self).pos <= self.pos,
            decreases self.tokens@.len() - self.pos,
        {
            let op: Option<crate::ast::BinOp> = match self.peek() {
                Token::EqEq => Some(crate::ast::BinOp::Eq),
                Token::NotEq => Some(crate::ast::BinOp::Neq),
                Token::Lt => Some(crate::ast::BinOp::Lt),
                Token::Lte => Some(crate::ast::BinOp::Lte),
                Token::Gt => Some(crate::ast::BinOp::Gt),
                Token::Gte => Some(crate::ast::BinOp::Gte),
                _ => None,
            };
            let op = match op {
                Some(o) => o,
                None => {
                    break;
                },
            };
            self.bump();
            let right = self.parse_add()?;
            left = Expr::BinOp { op, left: Box::new(left), right: Box::new(right) };
        }
        Ok(left)
    }

    /// A `+`/`-` chain.
    fn parse_add(&mut self) -> (r: Result<Expr, ParseError>)
        requires
            old(self).wf(),
        ensures
            final(self).wf(),
            final(self).tokens == old(self).tokens,
            final(self).pos >= old(self).pos,
        decreases self.tokens@.len() - self.pos, 6int,
    {
        let mut left = self.parse_mul()?;
        loop
            invariant
                self.wf(),
                self.tokens == old(self).tokens,
                old(self).pos <= self.pos,
            decreases self.tokens@.len() - self.pos,
        {
            let op: Option<crate::ast::BinOp> = match self.peek() {
                Token::Plus => Some(crate::ast::BinOp::Add),
                Token::Minus => Some(crate::ast::BinOp::Sub),
                _ => None,
            };
            let op = match op {
                Some(o) => o,
                None => {
                    break;
                },
            };
            self.bump();
            let right = self.parse_mul()?;
            left = Expr::BinOp { op, left: Box::new(left), right: Box::new(right) };
        }
        Ok(left)
    }

    /// A `*`/`/` chain.
    fn parse_mul(&mut self) -> (r: Result<Expr, ParseError>)
        requires
            old(self).wf(),
        ensures
            final(self).wf(),
            final(self).tokens == old(self).tokens,
            final(self).pos >= old(self).pos,
        decreases self.tokens@.len() - self.pos, 5int,
    {
        let mut left = self.parse_app()?;
        loop
            invariant
                self.wf(),
                self.tokens == old(self).tokens,
                old(self).pos <= self.pos,
            decreases self.tokens@.len() - self.pos,
        {
            let op: Option<crate::ast::BinOp> = match self.peek() {
                Token::Star => Some(crate::ast::BinOp::Mul),
                Token::Slash => Some(crate::ast::BinOp::Div),
                _ => None,
            };
            let op = match op {
                Some(o) => o,
                None => {
                    break;
                },
            };
            self.bump();
            let right = self.parse_app()?;
            left = Expr::BinOp { op, left: Box::new(left), right: Box::new(right) };
        }
        Ok(left)
    }

    /// Function application by juxtaposition, left associative.
    fn parse_app(&mut self) -> (r: Result<Expr, ParseError>)
        requires
            old(self).wf(),
        ensures
            final(self).wf(),
            final(self).tokens == old(self).tokens,
            final(self).pos >= old(self).pos,
        decreases self.tokens@.len() - self.pos, 4int,
    {
        let mut left = self.parse_primary()?;
        loop
            invariant
                self.wf(),
                self.tokens == old(self).tokens,
                old(self).pos <= self.pos,
            decreases self.tokens@.len() - self.pos,
        {
            let starts = match self.peek() {
                Token::Int(_) => true,
                Token::Float(_) => true,
                Token::Str(_) => true,
                Token::Ident(_) => true,
                Token::True => true,
                Token::False => true,
                Token::LParen => true,
                Token::LBracket => true,
                _ => false,
            };
            if !starts {
                break;
            }
            let ghost before = self.pos;
            let arg = self.parse_primary()?;
            proof {
                assert(self.pos > before);
            }
            left = Expr::App { func: Box::new(left), arg: Box::new(arg) };
        }
        Ok(left)
    }

    /// A literal, name, constructor application, tuple, list or
    /// parenthesised expression.
    fn parse_primary(&mut self) -> (r: Result<Expr, ParseError>)
        requires
            old(self).wf(),
        ensures
            final(self).wf(),
            final(self).tokens == old(self).tokens,
            final(self).pos >= old(self).pos,
            r is Ok ==> final(self).pos > old(self).pos,
        decreases self.tokens@.len() - self.pos, 3int,
    {
        let kind: u8 = match self.peek() {
            Token::Int(_) => 1,
            Token::Float(_) => 2,
            Token::Str(_) => 3,
            Token::True => 4,
            Token::False => 5,
            Token::Ident(_) => 6,
            Token::LParen => 7,
            Token::LBracket => 8,
            _ => 0,
        };
        if kind == 0 {
            return Err(perr("expected an expression"));
        }
        if self.pos >= self.tokens.len() {
            return Err(perr("expected an expression"));
        }
        if kind == 1 {
            let n = match self.peek() {
                Token::Int(n) => *n,
                _ => 0,
            };
            self.bump();
            return Ok(Expr::Lit(Literal::Int(n)));
        }
        if kind == 2 {
            let s = match self.peek() {
                Token::Float(s) => s.clone(),
                _ => String::new(),
            };
            self.bump();
            return Ok(Expr::Lit(Literal::Float(s)));
        }
        if kind == 3 {
            let s = match self.peek() {
                Token::Str(s) => s.clone(),
                _ => String::new(),
            };
            self.bump();
            return Ok(Expr::Lit(Literal::Str(s)));
        }
        if kind == 4 {
            self.bump();
            return Ok(Expr::Lit(Literal::Bool(true)));
        }
        if kind == 5 {
            self.bump();
            return Ok(Expr::Lit(Literal::Bool(false)));
        }
        if kind == 6 {
            let name = match self.peek() {
                Token::Ident(s) => s.clone(),
                _ => String::new(),
            };
            self.bump();
            if !starts_upper(name.as_str()) {
                return Ok(Expr::Var(name));
            }
            // A constructor, with an optional argument list.
            let has_args = match self.peek() {
                Token::LParen => true,
                _ => false,
            };
            let mut fields: Vec<Box<Expr>> = Vec::new();
            if has_args {
                self.bump();
                let closed = match self.peek() {
                    Token::RParen => true,
                    _ => false,
                };
                if closed {
                    self.bump();
                } else {
                    loop
                        invariant
                            self.wf(),
                            self.tokens == old(self).tokens,
                            old(self).pos < self.pos,
                        decreases self.tokens@.len() - self.pos,
                    {
                        let e = self.parse_expr()?;
                        fields.push(Box::new(e));
                        let sep: u8 = match self.peek() {
                            Token::Comma => 1,
                            Token::RParen => 2,
                            _ => 0,
                        };
                        if sep == 0 {
                            return Err(perr("expected , or ) in the argument list"));
                        }
                        self.bump();
                        if sep == 2 {
                            break;
                        }
                        // A trailing comma before the closing parenthesis.
                        let trailing = match self.peek() {
                            Token::RParen => true,
                            _ => false,
                        };
                        if trailing {
                            self.bump();
                            break;
                        }
                    }
                }
            }
            return Ok(Expr::VariantConstruct {
                tag: String::new(),
                variant: name,
                fields,
            });
        }
        if kind == 7 {
            self.bump();
            let closed = match self.peek() {
                Token::RParen => true,
                _ => false,
            };
            if closed {
                self.bump();
                return Ok(Expr::Lit(Literal::Unit));
            }
            let first = self.parse_expr()?;
            let sep: u8 = match self.peek() {
                Token::Comma => 1,
                Token::RParen => 2,
                _ => 0,
            };
            if sep == 0 {
                return Err(perr("expected , or ) after the expression"));
            }
            self.bump();
            if sep == 2 {
                return Ok(first);
            }
            let mut items: Vec<Expr> = Vec::new();
            items.push(first);
            loop
                invariant
                    self.wf(),
                    self.tokens == old(self).tokens,
                    old(self).pos < self.pos,
                decreases self.tokens@.len() - self.pos,
            {
                let e = self.parse_expr()?;
                items.push(e);
                let sep2: u8 = match self.peek() {
                    Token::Comma => 1,
                    Token::RParen => 2,
                    _ => 0,
                };
                if sep2 == 0 {
                    return Err(perr("expected , or ) in the tuple"));
                }
                self.bump();
                if sep2 == 2 {
                    break;
                }
            }
            return Ok(Expr::Tuple(items));
        }
        // kind == 8: a list literal.
        self.bump();
        let closed = match self.peek() {
            Token::RBracket => true,
            _ => false,
        };
        let mut items: Vec<Expr> = Vec::new();
        if closed {
            self.bump();
            return Ok(Expr::List(items));
        }
        loop
            invariant
                self.wf(),
                self.tokens == old(self).tokens,
                old(self).pos < self.pos,
            decreases self.tokens@.len() - self.pos,
        {
            let e = self.parse_expr()?;
            items.push(e);
            let sep: u8 = match self.peek() {
                Token::Semicolon => 1,
                Token::RBracket => 2,
                _ => 0,
            };
            if sep == 0 {
                return Err(perr("expected ; or ] in the list"));
            }
            self.bump();
            if sep == 2 {
                break;
            }
        }
        Ok(Expr::List(items))
    }

    /// A pattern of a match arm.
    fn parse_pattern(&mut self) -> (r: Result<Pattern, ParseError>)
        requires
            old(self).wf(),
        ensures
            final(self).wf(),
            final(self).tokens == old(self).tokens,
            final(self).pos >= old(self).pos,
        decreases self.tokens@.len() - self.pos, 3int,
    {
        let kind: u8 = match self.peek() {
            Token::Underscore => 1,
            Token::Ident(_) => 2,
            Token::Int(_) => 3,
            Token::True => 4,
            Token::False => 5,
            Token::Str(_) => 6,
            Token::Float(_) => 7,
            Token::LParen => 8,
            _ => 0,
        };
        if kind == 0 {
            return Err(perr("expected a pattern"));
        }
        if kind == 1 {
            self.bump();
            return Ok(Pattern::Wildcard);
        }
        if kind == 2 {
            let name = match self.peek() {
                Token::Ident(s) => s.clone(),
                _ => String::new(),
            };
            self.bump();
            if !starts_upper(name.as_str()) {
                return Ok(Pattern::Var(name));
            }
            let has_args = match self.peek() {
                Token::LParen => true,
                _ => false,
            };
            let mut patterns: Vec<Pattern> = Vec::new();
            if has_args {
                self.bump();
                let closed = match self.peek() {
                    Token::RParen => true,
                    _ => false,
                };
                if closed {
                    self.bump();
                } else {
                    loop
                        invariant
                            self.wf(),
                            self.tokens == old(self).tokens,
                            old(self).pos < self.pos,
                        decreases self.tokens@.len() - self.pos,
                    {
                        let p = self.parse_pattern()?;
                        patterns.push(p);
                        let sep: u8 = match self.peek() {
                            Token::Comma => 1,
                            Token::RParen => 2,
                            _ => 0,
                        };
                        if sep == 0 {
                            return Err(perr("expected , or ) in the pattern"));
                        }
                        self.bump();
                        if sep == 2 {
                            break;
                        }
                    }
                }
            }
            return Ok(Pattern::Variant { variant: name, patterns });
        }
        if kind == 3 {
            let n = match self.peek() {
                Token::Int(n) => *n,
                _ => 0,
            };
            self.bump();
            return Ok(Pattern::Lit(Literal::Int(n)));
        }
        if kind == 4 {
            self.bump();
            return Ok(Pattern::Lit(Literal::Bool(true)));
        }
        if kind == 5 {
            self.bump();
            return Ok(Pattern::Lit(Literal::Bool(false)));
        }
        if kind == 6 {
            let s = match self.peek() {
                Token::Str(s) => s.clone(),
                _ => String::new(),
            };
            self.bump();
            return Ok(Pattern::Lit(Literal::Str(s)));
        }
        if kind == 7 {
            let s = match self.peek() {
                Token::Float(s) => s.clone(),
                _ => String::new(),
            };
            self.bump();
            return Ok(Pattern::Lit(Literal::Float(s)));
        }
        // kind == 8: a tuple pattern.
        self.bump();
        let mut parts: Vec<Pattern> = Vec::new();
        loop
            invariant
                self.wf(),
                self.tokens == old(self).tokens,
                old(self).pos < self.pos,
            decreases self.tokens@.len() - self.pos,
        {
            let p = self.parse_pattern()?;
            parts.push(p);
            let sep: u8 = match self.peek() {
                Token::Comma => 1,
                Token::RParen => 2,
                _ => 0,
            };
            if sep == 0 {
                return Err(perr("expected , or ) in the tuple pattern"));
            }
            self.bump();
            if sep == 2 {
                break;
            }
        }
        if parts.len() == 1 {
            let p = parts.pop().unwrap();
            Ok(p)
        } else {
            Ok(Pattern::Tuple(parts))
        }
    }

    /// A discriminated-union definition:
    /// `type Name = Ctor of T * T | Ctor | ...`.
    pub fn parse_du_type_def(&mut self) -> (r: Result<DuTypeDef, ParseError>)
        requires
            old(self).wf(),
        ensures
            final(self).wf(),
            final(self).tokens == old(self).tokens,
            final(self).pos >= old(self).pos,
        decreases self.tokens@.len() - self.pos, 10int,
    {
        match self.peek() {
            Token::TypeKw => {},
            _ => {
                return Err(perr("expected the type keyword"));
            },
        }
        self.bump();
        let name = match self.peek() {
            Token::Ident(s) => s.clone(),
            _ => {
                return Err(perr("expected the type's name"));
            },
        };
        self.bump();
        match self.peek() {
            Token::Assign => {},
            _ => {
                return Err(perr("expected = after the type's name"));
            },
        }
        self.bump();
        let mut variants: Vec<VariantDef> = Vec::new();
        let first = self.parse_variant_def()?;
        variants.push(first);
        loop
            invariant
                self.wf(),
                self.tokens == old(self).tokens,
                old(self).pos <= self.pos,
            decreases self.tokens@.len() - self.pos,
        {
            let more = match self.peek() {
                Token::Pipe => true,
                _ => false,
            };
            if !more {
                break;
            }
            self.bump();
            let v = self.parse_variant_def()?;
            variants.push(v);
        }
        Ok(DuTypeDef { name, variants })
    }

    /// One constructor: a name with an optional `of` field list.
    fn parse_variant_def(&mut self) -> (r: Result<VariantDef, ParseError>)
        requires
            old(self).wf(),
        ensures
            final(self).wf(),
            final(self).tokens == old(self).tokens,
            final(self).pos >= old(self).pos,
        decreases self.tokens@.len() - self.pos, 9int,
    {
        let name = match self.peek() {
            Token::Ident(s) => s.clone(),
            _ => {
                return Err(perr("expected a constructor name"));
            },
        };
        self.bump();
        let has_fields = match self.peek() {
            Token::Of => true,
            _ => false,
        };
        let mut fields: Vec<TypeExpr> = Vec::new();
        if has_fields {
            self.bump();
            let first = self.parse_type()?;
            fields.push(first);
            loop
                invariant
                    self.wf(),
                    self.tokens == old(self).tokens,
                    old(self).pos < self.pos,
                decreases self.tokens@.len() - self.pos,
            {
                let more = match self.peek() {
                    Token::Star => true,
                    _ => false,
                };
                if !more {
                    break;
                }
                self.bump();
                let t = self.parse_type()?;
                fields.push(t);
            }
        }
        Ok(VariantDef { name, fields })
    }

    /// A type expression: an atom, optionally an arrow function type.
    fn parse_type(&mut self) -> (r: Result<TypeExpr, ParseError>)
        requires
            old(self).wf(),
        ensures
            final(self).wf(),
            final(self).tokens == old(self).tokens,
            final(self).pos >= old(self).pos,
        decreases self.tokens@.len() - self.pos, 8int,
    {
        let left = self.parse_type_atom()?;
        let arrow = match self.peek() {
            Token::Arrow => true,
            _ => false,
        };
        if arrow {
            self.bump();
            let right = self.parse_type()?;
            Ok(TypeExpr::Function(Box::new(left), Box::new(right)))
        } else {
            Ok(left)
        }
    }

    /// A named type or a parenthesised star-joined tuple type.
    fn parse_type_atom(&mut self) -> (r: Result<TypeExpr, ParseError>)
        requires
            old(self).wf(),
        ensures
            final(self).wf(),
            final(self).tokens == old(self).tokens,
            final(self).pos >= old(self).pos,
            r is Ok ==> final(self).pos > old(self).pos,
        decreases self.tokens@.len() - self.pos, 7int,
    {
        let kind: u8 = match self.peek() {
            Token::Ident(_) => 1,
            Token::LParen => 2,
            _ => 0,
        };
        if kind == 0 {
            return Err(perr("expected a type"));
        }
        if self.pos >= self.tokens.len() {
            return Err(perr("expected a type"));
        }
        if kind == 1 {
            let name = match self.peek() {
                Token::Ident(s) => s.clone(),
                _ => String::new(),
            };
            self.bump();
            return Ok(TypeExpr::Named(name));
        }
        self.bump();
        let mut parts: Vec<TypeExpr> = Vec::new();
        let first = self.parse_type()?;
        parts.push(first);
        loop
            invariant
                self.wf(),
                self.tokens == old(self).tokens,
                old(self).pos < self.pos,
            decreases self.tokens@.len() - self.pos,
        {
            let sep: u8 = match self.peek() {
                Token::Star => 1,
                Token::RParen => 2,
                _ => 0,
            };
            if sep == 0 {
                return Err(perr("expected * or ) in the type"));
            }
            self.bump();
            if sep == 2 {
                break;
            }
            let t = self.parse_type()?;
            parts.push(t);
        }
        if parts.len() == 1 {
            let t = parts.pop().unwrap();
            Ok(t)
        } else {
            Ok(TypeExpr::Tuple(parts))
        }
    }
}

/// Whether a name begins with an ASCII capital letter.
fn starts_upper(s: &str) -> (r: bool)
{
    if !s.is_ascii() {
        return false;
    }
    if s.unicode_len() == 0 {
        return false;
    }
    let b = s.get_ascii(0);
    0x41 <= b && b <= 0x5a
}

} // verus!
