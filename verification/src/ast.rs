use vstd::prelude::*;
use vstd::string::StringExecFns;

verus! {

broadcast use vstd::std_specs::vec::group_vec_axioms;

/// A literal of the surface language. Floating-point literals carry
/// their numeral text: the engine compiles integers only, and the text
/// is all that later stages inspect.
#[derive(Debug)]
pub enum Literal {
    Int(i64),
    /// The numeral as written, such as `5.0`.
    Float(String),
    Bool(bool),
    Str(String),
    Unit,
}

/// A binary operator of the surface language.
#[derive(Debug, Clone, Copy, PartialEq, Eq, Structural)]
pub enum BinOp {
    Add,
    Sub,
    Mul,
    Div,
    Eq,
    Neq,
    Lt,
    Lte,
    Gt,
    Gte,
    And,
    Or,
}

/// An expression of the surface language.
#[derive(Debug)]
pub enum Expr {
    Lit(Literal),
    Var(String),
    BinOp { op: BinOp, left: Box<Expr>, right: Box<Expr> },
    Let { name: String, value: Box<Expr>, body: Box<Expr> },
    Lambda { param: String, body: Box<Expr> },
    App { func: Box<Expr>, arg: Box<Expr> },
    If { cond: Box<Expr>, then_branch: Box<Expr>, else_branch: Box<Expr> },
    Tuple(Vec<Expr>),
    List(Vec<Expr>),
    Match { scrutinee: Box<Expr>, arms: Vec<MatchArm> },
    /// Construction of a discriminated-union value. The owning type's
    /// name is left empty until a type checker fills it in.
    VariantConstruct { tag: String, variant: String, fields: Vec<Box<Expr>> },
}

/// One arm of a match expression.
#[derive(Debug)]
pub struct MatchArm {
    pub pattern: Pattern,
    pub body: Expr,
}

/// A pattern of a match arm.
#[derive(Debug)]
pub enum Pattern {
    /// `_`: accepts anything, binds nothing.
    Wildcard,
    /// A name: accepts anything, binds it.
    Var(String),
    /// A literal: accepts equal values.
    Lit(Literal),
    /// A tuple of sub-patterns.
    Tuple(Vec<Pattern>),
    /// A constructor with sub-patterns for its fields.
    Variant { variant: String, patterns: Vec<Pattern> },
}

/// A type expression of the surface language.
#[derive(Debug)]
pub enum TypeExpr {
    Named(String),
    Tuple(Vec<TypeExpr>),
    Function(Box<TypeExpr>, Box<TypeExpr>),
}

/// One constructor of a discriminated union.
#[derive(Debug)]
pub struct VariantDef {
    pub name: String,
    pub fields: Vec<TypeExpr>,
}

/// A discriminated union type definition.
#[derive(Debug)]
pub struct DuTypeDef {
    pub name: String,
    pub variants: Vec<VariantDef>,
}

/// A record type definition: named fields in declaration order.
#[derive(Debug)]
pub struct RecordTypeDef {
    pub name: String,
    pub fields: Vec<(String, TypeExpr)>,
}

/// A type definition exported by a module.
#[derive(Debug)]
pub enum TypeDefinition {
    Record(RecordTypeDef),
    Du(DuTypeDef),
}

impl VariantDef {
    /// A constructor with field types.
    pub fn new(name: String, fields: Vec<TypeExpr>) -> (r: VariantDef)
        ensures
            r.name@ == name@,
            r.fields@ == fields@,
    {
        VariantDef { name, fields }
    }

    /// A constructor without fields.
    pub fn new_simple(name: String) -> (r: VariantDef)
        ensures
            r.name@ == name@,
            r.fields@.len() == 0,
    {
        VariantDef { name, fields: Vec::new() }
    }

    /// Whether the constructor has no fields.
    pub fn is_simple(&self) -> (r: bool)
        ensures
            r == (self.fields@.len() == 0),
    {
        self.fields.len() == 0
    }

    /// The number of fields.
    pub fn field_count(&self) -> (r: usize)
        ensures
            r == self.fields@.len(),
    {
        self.fields.len()
    }
}

impl DuTypeDef {
    /// The number of constructors.
    pub fn variant_count(&self) -> (r: usize)
        ensures
            r == self.variants@.len(),
    {
        self.variants.len()
    }

    /// Whether every constructor is field-free.
    pub fn is_simple_enum(&self) -> (r: bool)
        ensures
            r == (forall|i: int| 0 <= i < self.variants@.len()
                ==> (#[trigger] self.variants@[i]).fields@.len() == 0),
    {
        let mut i: usize = 0;
        while i < self.variants.len()
            invariant
                i <= self.variants@.len(),
                forall|j: int| 0 <= j < i
                    ==> (#[trigger] self.variants@[j]).fields@.len() == 0,
            decreases self.variants@.len() - i,
        {
            if self.variants[i].fields.len() != 0 {
                return false;
            }
            i = i + 1;
        }
        true
    }

    /// The constructor names, in declaration order.
    pub fn variant_names(&self) -> (r: Vec<&str>)
        ensures
            r@.len() == self.variants@.len(),
            forall|i: int| 0 <= i < r@.len()
                ==> (#[trigger] r@[i])@ == self.variants@[i].name@,
    {
        let mut out: Vec<&str> = Vec::new();
        let mut i: usize = 0;
        while i < self.variants.len()
            invariant
                i <= self.variants@.len(),
                out@.len() == i,
                forall|j: int| 0 <= j < i
                    ==> (#[trigger] out@[j])@ == self.variants@[j].name@,
            decreases self.variants@.len() - i,
        {
            out.push(self.variants[i].name.as_str());
            i = i + 1;
        }
        out
    }

    /// The constructor with the given name, if any; the first match wins.
    pub fn find_variant(&self, name: &str) -> (r: Option<&VariantDef>)
        ensures
            match r {
                Some(v) => exists|i: int| 0 <= i < self.variants@.len()
                    && *v == self.variants@[i] && v.name@ == name@,
                None => forall|i: int| 0 <= i < self.variants@.len()
                    ==> (#[trigger] self.variants@[i]).name@ != name@,
            },
    {
        let mut i: usize = 0;
        while i < self.variants.len()
            invariant
                i <= self.variants@.len(),
                forall|j: int| 0 <= j < i
                    ==> (#[trigger] self.variants@[j]).name@ != name@,
            decreases self.variants@.len() - i,
        {
            if crate::value::str_eq(self.variants[i].name.as_str(), name) {
                return Some(&self.variants[i]);
            }
            i = i + 1;
        }
        None
    }
}

impl Expr {
    /// Whether this is a literal.
    pub fn is_literal(&self) -> (r: bool)
        ensures
            r == (*self matches Expr::Lit(_)),
    {
        matches!(self, Expr::Lit(_))
    }

    /// Whether this is a variable reference.
    pub fn is_var(&self) -> (r: bool)
        ensures
            r == (*self matches Expr::Var(_)),
    {
        matches!(self, Expr::Var(_))
    }

    /// Whether this is a binary operation.
    pub fn is_binop(&self) -> (r: bool)
        ensures
            r == (*self matches Expr::BinOp { .. }),
    {
        matches!(self, Expr::BinOp { .. })
    }

    /// Whether this is a let binding.
    pub fn is_let(&self) -> (r: bool)
        ensures
            r == (*self matches Expr::Let { .. }),
    {
        matches!(self, Expr::Let { .. })
    }

    /// Whether this is a lambda.
    pub fn is_lambda(&self) -> (r: bool)
        ensures
            r == (*self matches Expr::Lambda { .. }),
    {
        matches!(self, Expr::Lambda { .. })
    }

    /// Whether this is an application.
    pub fn is_app(&self) -> (r: bool)
        ensures
            r == (*self matches Expr::App { .. }),
    {
        matches!(self, Expr::App { .. })
    }

    /// Whether this is a conditional.
    pub fn is_if(&self) -> (r: bool)
        ensures
            r == (*self matches Expr::If { .. }),
    {
        matches!(self, Expr::If { .. })
    }

    /// Whether this is a tuple expression.
    pub fn is_tuple(&self) -> (r: bool)
        ensures
            r == (*self matches Expr::Tuple(_)),
    {
        matches!(self, Expr::Tuple(_))
    }

    /// Whether this is a list expression.
    pub fn is_list(&self) -> (r: bool)
        ensures
            r == (*self matches Expr::List(_)),
    {
        matches!(self, Expr::List(_))
    }

    /// Whether this is a match expression.
    pub fn is_match(&self) -> (r: bool)
        ensures
            r == (*self matches Expr::Match { .. }),
    {
        matches!(self, Expr::Match { .. })
    }

    /// Whether this is a variant construction.
    pub fn is_variant_construct(&self) -> (r: bool)
        ensures
            r == (*self matches Expr::VariantConstruct { .. }),
    {
        matches!(self, Expr::VariantConstruct { .. })
    }

    /// The scrutinee and arms of a match expression.
    pub fn as_match(&self) -> (r: Option<(&Expr, &Vec<MatchArm>)>)
        ensures
            match r {
                Some(p) => *self matches Expr::Match { scrutinee, arms }
                    && *p.0 == *scrutinee && *p.1 == arms,
                None => !(*self matches Expr::Match { .. }),
            },
    {
        match self {
            Expr::Match { scrutinee, arms } => Some((&**scrutinee, arms)),
            _ => None,
        }
    }
}

impl Pattern {
    /// Whether this is the wildcard pattern.
    pub fn is_wildcard(&self) -> (r: bool)
        ensures
            r == (*self matches Pattern::Wildcard),
    {
        matches!(self, Pattern::Wildcard)
    }

    /// Whether this binds a variable.
    pub fn is_var(&self) -> (r: bool)
        ensures
            r == (*self matches Pattern::Var(_)),
    {
        matches!(self, Pattern::Var(_))
    }

    /// Whether this matches a variant constructor.
    pub fn is_variant(&self) -> (r: bool)
        ensures
            r == (*self matches Pattern::Variant { .. }),
    {
        matches!(self, Pattern::Variant { .. })
    }

    /// The constructor name and sub-patterns of a variant pattern.
    pub fn as_variant(&self) -> (r: Option<(&str, &Vec<Pattern>)>)
        ensures
            match r {
                Some(p) => *self matches Pattern::Variant { variant, patterns }
                    && p.0@ == variant@ && *p.1 == patterns,
                None => !(*self matches Pattern::Variant { .. }),
            },
    {
        match self {
            Pattern::Variant { variant, patterns } => Some((variant.as_str(), patterns)),
            _ => None,
        }
    }
}

/// The text of a rendered literal. Numerals print as written; strings
/// print their contents.
pub open spec fn lit_render_spec(l: Literal) -> Seq<char> {
    match l {
        Literal::Int(n) => crate::numfmt::i64_dec_spec(n),
        Literal::Float(s) => s@,
        Literal::Bool(b) => if b { "true"@ } else { "false"@ },
        Literal::Str(s) => s@,
        Literal::Unit => "()"@,
    }
}

/// The text of a rendered pattern.
pub open spec fn pattern_render_spec(p: Pattern) -> Seq<char>
    decreases p,
{
    match p {
        Pattern::Wildcard => "_"@,
        Pattern::Var(x) => x@,
        Pattern::Lit(l) => lit_render_spec(l),
        Pattern::Tuple(ps) => "("@ + patterns_render_spec(ps@) + ")"@,
        Pattern::Variant { variant, patterns } => if patterns@.len() == 0 {
            variant@
        } else {
            variant@ + "("@ + patterns_render_spec(patterns@) + ")"@
        },
    }
}

/// Comma-joined rendering of a pattern sequence.
pub open spec fn patterns_render_spec(s: Seq<Pattern>) -> Seq<char>
    decreases s,
{
    if s.len() == 0 {
        Seq::<char>::empty()
    } else if s.len() == 1 {
        pattern_render_spec(s.last())
    } else {
        patterns_render_spec(s.take(s.len() - 1)) + ", "@ + pattern_render_spec(s.last())
    }
}

/// The text of a rendered type expression.
pub open spec fn type_render_spec(t: TypeExpr) -> Seq<char>
    decreases t,
{
    match t {
        TypeExpr::Named(n) => n@,
        TypeExpr::Tuple(ts) => "("@ + types_render_spec(ts@) + ")"@,
        TypeExpr::Function(a, b) => type_render_spec(*a) + " -> "@ + type_render_spec(*b),
    }
}

/// `*`-joined rendering of a type sequence, as in `float * float`.
pub open spec fn types_render_spec(s: Seq<TypeExpr>) -> Seq<char>
    decreases s,
{
    if s.len() == 0 {
        Seq::<char>::empty()
    } else if s.len() == 1 {
        type_render_spec(s.last())
    } else {
        types_render_spec(s.take(s.len() - 1)) + " * "@ + type_render_spec(s.last())
    }
}

/// The text of a rendered constructor, as in `Some of int` or `None`.
pub open spec fn variant_render_spec(v: VariantDef) -> Seq<char> {
    if v.fields@.len() == 0 {
        v.name@
    } else {
        v.name@ + " of "@ + types_render_spec(v.fields@)
    }
}

/// `|`-joined rendering of a constructor sequence.
pub open spec fn variants_render_spec(s: Seq<VariantDef>) -> Seq<char>
    decreases s,
{
    if s.len() == 0 {
        Seq::<char>::empty()
    } else if s.len() == 1 {
        variant_render_spec(s.last())
    } else {
        variants_render_spec(s.take(s.len() - 1)) + " | "@ + variant_render_spec(s.last())
    }
}

/// The text of a rendered union definition, as in
/// `type Option = Some of int | None`.
pub open spec fn du_render_spec(d: DuTypeDef) -> Seq<char> {
    "type "@ + d.name@ + " = "@ + variants_render_spec(d.variants@)
}

/// The text of a rendered expression.
pub open spec fn expr_render_spec(e: Expr) -> Seq<char>
    decreases e,
{
    match e {
        Expr::Lit(l) => lit_render_spec(l),
        Expr::Var(x) => x@,
        Expr::BinOp { op, left, right } => expr_render_spec(*left) + " "@
            + op_render_spec(op) + " "@ + expr_render_spec(*right),
        Expr::Let { name, value, body } => "let "@ + name@ + " = "@
            + expr_render_spec(*value) + " in "@ + expr_render_spec(*body),
        Expr::Lambda { param, body } => "fun "@ + param@ + " -> "@
            + expr_render_spec(*body),
        Expr::App { func, arg } => expr_render_spec(*func) + " "@ + expr_render_spec(*arg),
        Expr::If { cond, then_branch, else_branch } => "if "@ + expr_render_spec(*cond)
            + " then "@ + expr_render_spec(*then_branch) + " else "@
            + expr_render_spec(*else_branch),
        Expr::Tuple(xs) => "("@ + exprs_render_spec(xs@) + ")"@,
        Expr::List(xs) => "["@ + exprs_semi_render_spec(xs@) + "]"@,
        Expr::Match { scrutinee, arms } => "match "@ + expr_render_spec(*scrutinee)
            + " with"@ + arms_render_spec(arms@),
        Expr::VariantConstruct { tag: _, variant, fields } => if fields@.len() == 0 {
            variant@
        } else {
            variant@ + "("@ + bexprs_render_spec(fields@) + ")"@
        },
    }
}

/// The symbol of a binary operator.
pub open spec fn op_render_spec(op: BinOp) -> Seq<char> {
    match op {
        BinOp::Add => "+"@,
        BinOp::Sub => "-"@,
        BinOp::Mul => "*"@,
        BinOp::Div => "/"@,
        BinOp::Eq => "=="@,
        BinOp::Neq => "!="@,
        BinOp::Lt => "<"@,
        BinOp::Lte => "<="@,
        BinOp::Gt => ">"@,
        BinOp::Gte => ">="@,
        BinOp::And => "&&"@,
        BinOp::Or => "||"@,
    }
}

/// Comma-joined rendering of an expression sequence.
pub open spec fn exprs_render_spec(s: Seq<Expr>) -> Seq<char>
    decreases s,
{
    if s.len() == 0 {
        Seq::<char>::empty()
    } else if s.len() == 1 {
        expr_render_spec(s.last())
    } else {
        exprs_render_spec(s.take(s.len() - 1)) + ", "@ + expr_render_spec(s.last())
    }
}

/// Semicolon-joined rendering of an expression sequence.
pub open spec fn exprs_semi_render_spec(s: Seq<Expr>) -> Seq<char>
    decreases s,
{
    if s.len() == 0 {
        Seq::<char>::empty()
    } else if s.len() == 1 {
        expr_render_spec(s.last())
    } else {
        exprs_semi_render_spec(s.take(s.len() - 1)) + "; "@ + expr_render_spec(s.last())
    }
}

/// Comma-joined rendering of a boxed expression sequence.
pub open spec fn bexprs_render_spec(s: Seq<Box<Expr>>) -> Seq<char>
    decreases s,
{
    if s.len() == 0 {
        Seq::<char>::empty()
    } else if s.len() == 1 {
        expr_render_spec(*s.last())
    } else {
        bexprs_render_spec(s.take(s.len() - 1)) + ", "@ + expr_render_spec(*s.last())
    }
}

/// Rendering of match arms, each introduced by ` | `.
pub open spec fn arms_render_spec(s: Seq<MatchArm>) -> Seq<char>
    decreases s,
{
    if s.len() == 0 {
        Seq::<char>::empty()
    } else {
        arms_render_spec(s.take(s.len() - 1)) + " | "@
            + pattern_render_spec(s.last().pattern) + " -> "@
            + expr_render_spec(s.last().body)
    }
}

/// The text of a rendered record definition.
pub open spec fn record_render_spec(r: RecordTypeDef) -> Seq<char> {
    "type "@ + r.name@ + " = { "@ + record_fields_render_spec(r.fields@) + " }"@
}

/// Semicolon-joined rendering of record fields, as in `name: string`.
pub open spec fn record_fields_render_spec(s: Seq<(String, TypeExpr)>) -> Seq<char>
    decreases s,
{
    if s.len() == 0 {
        Seq::<char>::empty()
    } else if s.len() == 1 {
        s.last().0@ + ": "@ + type_render_spec(s.last().1)
    } else {
        record_fields_render_spec(s.take(s.len() - 1)) + "; "@ + s.last().0@ + ": "@
            + type_render_spec(s.last().1)
    }
}

/// Append the rendering of a literal.
fn append_lit(out: &mut String, l: &Literal)
    ensures
        final(out)@ == old(out)@ + lit_render_spec(*l),
{
    match l {
        Literal::Int(n) => {
            let t = crate::numfmt::i64_to_string(*n);
            out.append(t.as_str());
        },
        Literal::Float(s) => out.append(s.as_str()),
        Literal::Bool(b) => if *b {
            out.append("true")
        } else {
            out.append("false")
        },
        Literal::Str(s) => out.append(s.as_str()),
        Literal::Unit => out.append("()"),
    }
}

/// Append the rendering of an expression.
fn append_expr(out: &mut String, e: &Expr)
    ensures
        final(out)@ == old(out)@ + expr_render_spec(*e),
    decreases *e,
{
    match e {
        Expr::Lit(l) => append_lit(out, l),
        Expr::Var(x) => out.append(x.as_str()),
        Expr::BinOp { op, left, right } => {
            append_expr(out, left);
            out.append(" ");
            append_op(out, *op);
            out.append(" ");
            append_expr(out, right);
            proof {
                assert(out@ =~= old(out)@ + expr_render_spec(*e));
            }
        },
        Expr::Let { name, value, body } => {
            out.append("let ");
            out.append(name.as_str());
            out.append(" = ");
            append_expr(out, value);
            out.append(" in ");
            append_expr(out, body);
            proof {
                assert(out@ =~= old(out)@ + expr_render_spec(*e));
            }
        },
        Expr::Lambda { param, body } => {
            out.append("fun ");
            out.append(param.as_str());
            out.append(" -> ");
            append_expr(out, body);
            proof {
                assert(out@ =~= old(out)@ + expr_render_spec(*e));
            }
        },
        Expr::App { func, arg } => {
            append_expr(out, func);
            out.append(" ");
            append_expr(out, arg);
            proof {
                assert(out@ =~= old(out)@ + expr_render_spec(*e));
            }
        },
        Expr::If { cond, then_branch, else_branch } => {
            out.append("if ");
            append_expr(out, cond);
            out.append(" then ");
            append_expr(out, then_branch);
            out.append(" else ");
            append_expr(out, else_branch);
            proof {
                assert(out@ =~= old(out)@ + expr_render_spec(*e));
            }
        },
        Expr::Tuple(xs) => {
            out.append("(");
            append_exprs(out, xs);
            out.append(")");
            proof {
                assert(out@ =~= old(out)@ + expr_render_spec(*e));
            }
        },
        Expr::List(xs) => {
            out.append("[");
            append_exprs_semi(out, xs);
            out.append("]");
            proof {
                assert(out@ =~= old(out)@ + expr_render_spec(*e));
            }
        },
        Expr::Match { scrutinee, arms } => {
            out.append("match ");
            append_expr(out, scrutinee);
            out.append(" with");
            append_arms(out, arms);
            proof {
                assert(out@ =~= old(out)@ + expr_render_spec(*e));
            }
        },
        Expr::VariantConstruct { tag: _, variant, fields } => {
            out.append(variant.as_str());
            if fields.len() > 0 {
                out.append("(");
                append_bexprs(out, fields);
                out.append(")");
            }
            proof {
                assert(out@ =~= old(out)@ + expr_render_spec(*e));
            }
        },
    }
}

/// Append the symbol of an operator.
fn append_op(out: &mut String, op: BinOp)
    ensures
        final(out)@ == old(out)@ + op_render_spec(op),
{
    match op {
        BinOp::Add => out.append("+"),
        BinOp::Sub => out.append("-"),
        BinOp::Mul => out.append("*"),
        BinOp::Div => out.append("/"),
        BinOp::Eq => out.append("=="),
        BinOp::Neq => out.append("!="),
        BinOp::Lt => out.append("<"),
        BinOp::Lte => out.append("<="),
        BinOp::Gt => out.append(">"),
        BinOp::Gte => out.append(">="),
        BinOp::And => out.append("&&"),
        BinOp::Or => out.append("||"),
    }
}

/// Append a comma-joined expression sequence.
fn append_exprs(out: &mut String, xs: &Vec<Expr>)
    ensures
        final(out)@ == old(out)@ + exprs_render_spec(xs@),
    decreases *xs,
{
    let mut i: usize = 0;
    while i < xs.len()
        invariant
            i <= xs@.len(),
            out@ == old(out)@ + exprs_render_spec(xs@.take(i as int)),
        decreases xs@.len() - i,
    {
        if i > 0 {
            out.append(", ");
        }
        append_expr(out, &xs[i]);
        proof {
            assert(xs@.take(i + 1).take(i as int) =~= xs@.take(i as int));
            assert(xs@.take(i + 1).last() == xs@[i as int]);
            assert(out@ =~= old(out)@ + exprs_render_spec(xs@.take(i + 1)));
        }
        i = i + 1;
    }
    proof {
        assert(xs@.take(xs@.len() as int) =~= xs@);
    }
}

/// Append a semicolon-joined expression sequence.
fn append_exprs_semi(out: &mut String, xs: &Vec<Expr>)
    ensures
        final(out)@ == old(out)@ + exprs_semi_render_spec(xs@),
    decreases *xs,
{
    let mut i: usize = 0;
    while i < xs.len()
        invariant
            i <= xs@.len(),
            out@ == old(out)@ + exprs_semi_render_spec(xs@.take(i as int)),
        decreases xs@.len() - i,
    {
        if i > 0 {
            out.append("; ");
        }
        append_expr(out, &xs[i]);
        proof {
            assert(xs@.take(i + 1).take(i as int) =~= xs@.take(i as int));
            assert(xs@.take(i + 1).last() == xs@[i as int]);
            assert(out@ =~= old(out)@ + exprs_semi_render_spec(xs@.take(i + 1)));
        }
        i = i + 1;
    }
    proof {
        assert(xs@.take(xs@.len() as int) =~= xs@);
    }
}

/// Append a comma-joined boxed expression sequence.
fn append_bexprs(out: &mut String, xs: &Vec<Box<Expr>>)
    ensures
        final(out)@ == old(out)@ + bexprs_render_spec(xs@),
    decreases *xs,
{
    let mut i: usize = 0;
    while i < xs.len()
        invariant
            i <= xs@.len(),
            out@ == old(out)@ + bexprs_render_spec(xs@.take(i as int)),
        decreases xs@.len() - i,
    {
        if i > 0 {
            out.append(", ");
        }
        append_expr(out, &xs[i]);
        proof {
            assert(xs@.take(i + 1).take(i as int) =~= xs@.take(i as int));
            assert(xs@.take(i + 1).last() == xs@[i as int]);
            assert(out@ =~= old(out)@ + bexprs_render_spec(xs@.take(i + 1)));
        }
        i = i + 1;
    }
    proof {
        assert(xs@.take(xs@.len() as int) =~= xs@);
    }
}

/// Append the rendering of a pattern.
fn append_pattern(out: &mut String, p: &Pattern)
    ensures
        final(out)@ == old(out)@ + pattern_render_spec(*p),
    decreases *p,
{
    match p {
        Pattern::Wildcard => out.append("_"),
        Pattern::Var(x) => out.append(x.as_str()),
        Pattern::Lit(l) => append_lit(out, l),
        Pattern::Tuple(ps) => {
            out.append("(");
            append_patterns(out, ps);
            out.append(")");
            proof {
                assert(out@ =~= old(out)@ + pattern_render_spec(*p));
            }
        },
        Pattern::Variant { variant, patterns } => {
            out.append(variant.as_str());
            if patterns.len() > 0 {
                out.append("(");
                append_patterns(out, patterns);
                out.append(")");
            }
            proof {
                assert(out@ =~= old(out)@ + pattern_render_spec(*p));
            }
        },
    }
}

/// Append a comma-joined pattern sequence.
fn append_patterns(out: &mut String, xs: &Vec<Pattern>)
    ensures
        final(out)@ == old(out)@ + patterns_render_spec(xs@),
    decreases *xs,
{
    let mut i: usize = 0;
    while i < xs.len()
        invariant
            i <= xs@.len(),
            out@ == old(out)@ + patterns_render_spec(xs@.take(i as int)),
        decreases xs@.len() - i,
    {
        if i > 0 {
            out.append(", ");
        }
        append_pattern(out, &xs[i]);
        proof {
            assert(xs@.take(i + 1).take(i as int) =~= xs@.take(i as int));
            assert(xs@.take(i + 1).last() == xs@[i as int]);
            assert(out@ =~= old(out)@ + patterns_render_spec(xs@.take(i + 1)));
        }
        i = i + 1;
    }
    proof {
        assert(xs@.take(xs@.len() as int) =~= xs@);
    }
}

/// Append the rendering of match arms.
fn append_arms(out: &mut String, xs: &Vec<MatchArm>)
    ensures
        final(out)@ == old(out)@ + arms_render_spec(xs@),
    decreases *xs,
{
    let mut i: usize = 0;
    while i < xs.len()
        invariant
            i <= xs@.len(),
            out@ == old(out)@ + arms_render_spec(xs@.take(i as int)),
        decreases xs@.len() - i,
    {
        out.append(" | ");
        append_pattern(out, &xs[i].pattern);
        out.append(" -> ");
        append_expr(out, &xs[i].body);
        proof {
            assert(xs@.take(i + 1).take(i as int) =~= xs@.take(i as int));
            assert(xs@.take(i + 1).last() == xs@[i as int]);
            assert(out@ =~= old(out)@ + arms_render_spec(xs@.take(i + 1)));
        }
        i = i + 1;
    }
    proof {
        assert(xs@.take(xs@.len() as int) =~= xs@);
    }
}

/// Append the rendering of a type expression.
fn append_type(out: &mut String, t: &TypeExpr)
    ensures
        final(out)@ == old(out)@ + type_render_spec(*t),
    decreases *t,
{
    match t {
        TypeExpr::Named(n) => out.append(n.as_str()),
        TypeExpr::Tuple(ts) => {
            out.append("(");
            append_types(out, ts);
            out.append(")");
            proof {
                assert(out@ =~= old(out)@ + type_render_spec(*t));
            }
        },
        TypeExpr::Function(a, b) => {
            append_type(out, a);
            out.append(" -> ");
            append_type(out, b);
            proof {
                assert(out@ =~= old(out)@ + type_render_spec(*t));
            }
        },
    }
}

/// Append a `*`-joined type sequence.
fn append_types(out: &mut String, xs: &Vec<TypeExpr>)
    ensures
        final(out)@ == old(out)@ + types_render_spec(xs@),
    decreases *xs,
{
    let mut i: usize = 0;
    while i < xs.len()
        invariant
            i <= xs@.len(),
            out@ == old(out)@ + types_render_spec(xs@.take(i as int)),
        decreases xs@.len() - i,
    {
        if i > 0 {
            out.append(" * ");
        }
        append_type(out, &xs[i]);
        proof {
            assert(xs@.take(i + 1).take(i as int) =~= xs@.take(i as int));
            assert(xs@.take(i + 1).last() == xs@[i as int]);
            assert(out@ =~= old(out)@ + types_render_spec(xs@.take(i + 1)));
        }
        i = i + 1;
    }
    proof {
        assert(xs@.take(xs@.len() as int) =~= xs@);
    }
}

impl Literal {
    /// The rendered text of this literal.
    pub fn render(&self) -> (r: String)
        ensures
            r@ == lit_render_spec(*self),
    {
        let mut out = String::new();
        append_lit(&mut out, self);
        proof {
            assert(Seq::<char>::empty() + lit_render_spec(*self) =~= lit_render_spec(*self));
        }
        out
    }
}

impl Expr {
    /// The rendered text of this expression.
    pub fn render(&self) -> (r: String)
        ensures
            r@ == expr_render_spec(*self),
    {
        let mut out = String::new();
        append_expr(&mut out, self);
        proof {
            assert(Seq::<char>::empty() + expr_render_spec(*self)
                =~= expr_render_spec(*self));
        }
        out
    }
}

impl Pattern {
    /// The rendered text of this pattern.
    pub fn render(&self) -> (r: String)
        ensures
            r@ == pattern_render_spec(*self),
    {
        let mut out = String::new();
        append_pattern(&mut out, self);
        proof {
            assert(Seq::<char>::empty() + pattern_render_spec(*self)
                =~= pattern_render_spec(*self));
        }
        out
    }
}

impl TypeExpr {
    /// The rendered text of this type expression.
    pub fn render(&self) -> (r: String)
        ensures
            r@ == type_render_spec(*self),
    {
        let mut out = String::new();
        append_type(&mut out, self);
        proof {
            assert(Seq::<char>::empty() + type_render_spec(*self)
                =~= type_render_spec(*self));
        }
        out
    }
}

impl VariantDef {
    /// The rendered text of this constructor, as in `Some of int`.
    pub fn render(&self) -> (r: String)
        ensures
            r@ == variant_render_spec(*self),
    {
        let mut out = String::new();
        out.append(self.name.as_str());
        if self.fields.len() > 0 {
            out.append(" of ");
            append_types(&mut out, &self.fields);
        }
        proof {
            assert(out@ =~= variant_render_spec(*self));
        }
        out
    }
}

impl DuTypeDef {
    /// The rendered text of this definition, as in
    /// `type Option = Some of int | None`.
    pub fn render(&self) -> (r: String)
        ensures
            r@ == du_render_spec(*self),
    {
        let mut out = String::new();
        out.append("type ");
        out.append(self.name.as_str());
        out.append(" = ");
        let mut i: usize = 0;
        while i < self.variants.len()
            invariant
                i <= self.variants@.len(),
                out@ == Seq::<char>::empty() + "type "@ + self.name@ + " = "@
                    + variants_render_spec(self.variants@.take(i as int)),
            decreases self.variants@.len() - i,
        {
            if i > 0 {
                out.append(" | ");
            }
            out.append(self.variants[i].render().as_str());
            proof {
                assert(self.variants@.take(i + 1).take(i as int)
                    =~= self.variants@.take(i as int));
                assert(self.variants@.take(i + 1).last() == self.variants@[i as int]);
                assert(out@ =~= Seq::<char>::empty() + "type "@ + self.name@ + " = "@
                    + variants_render_spec(self.variants@.take(i + 1)));
            }
            i = i + 1;
        }
        proof {
            assert(self.variants@.take(self.variants@.len() as int) =~= self.variants@);
            assert(out@ =~= du_render_spec(*self));
        }
        out
    }
}

impl RecordTypeDef {
    /// The rendered text of this record definition.
    pub fn render(&self) -> (r: String)
        ensures
            r@ == record_render_spec(*self),
    {
        let mut out = String::new();
        out.append("type ");
        out.append(self.name.as_str());
        out.append(" = { ");
        let mut i: usize = 0;
        while i < self.fields.len()
            invariant
                i <= self.fields@.len(),
                out@ == Seq::<char>::empty() + "type "@ + self.name@ + " = { "@
                    + record_fields_render_spec(self.fields@.take(i as int)),
            decreases self.fields@.len() - i,
        {
            if i > 0 {
                out.append("; ");
            }
            out.append(self.fields[i].0.as_str());
            out.append(": ");
            append_type(&mut out, &self.fields[i].1);
            proof {
                assert(self.fields@.take(i + 1).take(i as int)
                    =~= self.fields@.take(i as int));
                assert(self.fields@.take(i + 1).last() == self.fields@[i as int]);
                assert(out@ =~= Seq::<char>::empty() + "type "@ + self.name@ + " = { "@
                    + record_fields_render_spec(self.fields@.take(i + 1)));
            }
            i = i + 1;
        }
        out.append(" }");
        proof {
            assert(self.fields@.take(self.fields@.len() as int) =~= self.fields@);
            assert(out@ =~= record_render_spec(*self));
        }
        out
    }
}

impl TypeDefinition {
    /// The rendered text of this definition.
    pub fn render(&self) -> (r: String)
        ensures
            r@ == match *self {
                TypeDefinition::Record(rec) => record_render_spec(rec),
                TypeDefinition::Du(du) => du_render_spec(du),
            },
    {
        match self {
            TypeDefinition::Record(rec) => rec.render(),
            TypeDefinition::Du(du) => du.render(),
        }
    }
}

} // verus!

