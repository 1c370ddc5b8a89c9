//! The builder of compiled properties: from the declaration of a property
//! and the namespace environment in force where it stands to the record
//! that the bytecode writer is handed, with the diagnostics that the
//! declaration gives rise to.

use crate::flags::{HhasPropertyFlags, PropertyFlag};
use crate::hhas_property::{
    AttributeView, DocComment, HhasAttribute, HhasProperty, Info, InfoView, InitializerKind,
    InstrSeq, Instruct, InstructView, PropertyView, TypedValue, ValueView, Visibility,
};
use crate::namespace_env::{resolve_name, AliasKind, Env, EnvView};
use crate::syntax::Span;
use crate::text::{chars_of, same_text, text_of, views};
use vstd::prelude::*;
use vstd::string::*;

verus! {

/// How much a diagnostic matters.
#[derive(Clone, Copy, Debug, PartialEq, Eq, Structural)]
pub enum Severity {
    Warning,
    Error,
}

/// A remark on a stretch of the source text. A diagnostic never stops the
/// compilation of the file.
#[derive(Clone, Debug, PartialEq, Eq)]
pub struct Diagnostic {
    pub span: Span,
    pub severity: Severity,
    pub message: String,
}

/// A [`Diagnostic`], with text in place of the string.
pub struct DiagnosticView {
    pub span: Span,
    pub severity: Severity,
    pub message: Seq<char>,
}

impl View for Diagnostic {
    type V = DiagnosticView;

    open spec fn view(&self) -> DiagnosticView {
        DiagnosticView { span: self.span, severity: self.severity, message: self.message@ }
    }
}

/// An operator of one operand.
#[derive(Clone, Copy, Debug, PartialEq, Eq, Structural)]
pub enum Uop {
    /// The negative of an integer.
    Neg,
    /// The opposite of a boolean.
    Not,
}

/// An operator of two operands, both integers.
#[derive(Clone, Copy, Debug, PartialEq, Eq, Structural)]
pub enum Bop {
    Add,
    Sub,
    Mul,
}

/// An expression that gives a property its initial value.
#[derive(Debug)]
pub enum Expr {
    Null,
    Bool(bool),
    Int(i64),
    String(String),
    Unop(Uop, Box<Expr>),
    Binop(Bop, Box<Expr>, Box<Expr>),
    /// The call of the function `name` on `args`.
    Call { name: String, args: Vec<Expr> },
}

/// An [`Expr`], with text in place of strings.
pub enum ExprView {
    Null,
    Bool(bool),
    Int(i64),
    String(Seq<char>),
    Unop(Uop, Box<ExprView>),
    Binop(Bop, Box<ExprView>, Box<ExprView>),
    Call { name: Seq<char>, args: Seq<ExprView> },
}

/// The view of an expression.
pub open spec fn expr_view(expr: Expr) -> ExprView
    decreases expr,
{
    match expr {
        Expr::Null => ExprView::Null,
        Expr::Bool(b) => ExprView::Bool(b),
        Expr::Int(i) => ExprView::Int(i),
        Expr::String(s) => ExprView::String(s@),
        Expr::Unop(op, operand) => ExprView::Unop(op, Box::new(expr_view(*operand))),
        Expr::Binop(op, lhs, rhs) => ExprView::Binop(
            op,
            Box::new(expr_view(*lhs)),
            Box::new(expr_view(*rhs)),
        ),
        Expr::Call { name, args } => ExprView::Call {
            name: name@,
            args: Seq::new(
                args@.len(),
                |i: int|
                    if 0 <= i < args@.len() {
                        expr_view(args@[i])
                    } else {
                        ExprView::Null
                    },
            ),
        },
    }
}

impl View for Expr {
    type V = ExprView;

    open spec fn view(&self) -> ExprView {
        expr_view(*self)
    }
}

/// An attribute as a declaration carries it.
#[derive(Clone, Debug, PartialEq, Eq)]
pub struct UserAttribute {
    pub name: String,
    pub arguments: Vec<TypedValue>,
    pub span: Span,
}

/// A [`UserAttribute`], with text in place of strings.
pub struct UserAttributeView {
    pub name: Seq<char>,
    pub arguments: Seq<ValueView>,
    pub span: Span,
}

impl View for UserAttribute {
    type V = UserAttributeView;

    open spec fn view(&self) -> UserAttributeView {
        UserAttributeView { name: self.name@, arguments: views(self.arguments@), span: self.span }
    }
}

/// The declaration of a property.
#[derive(Debug)]
pub struct PropertyDecl {
    pub name: String,
    pub visibility: Visibility,
    pub is_static: bool,
    pub is_abstract: bool,
    pub is_readonly: bool,
    pub user_attributes: Vec<UserAttribute>,
    pub type_hint: Option<String>,
    pub initial_value: Option<Expr>,
    pub doc_comment: Option<String>,
}

/// A [`PropertyDecl`], with text in place of strings.
pub struct PropertyDeclView {
    pub name: Seq<char>,
    pub visibility: Visibility,
    pub is_static: bool,
    pub is_abstract: bool,
    pub is_readonly: bool,
    pub user_attributes: Seq<UserAttributeView>,
    pub type_hint: Option<Seq<char>>,
    pub initial_value: Option<ExprView>,
    pub doc_comment: Option<Seq<char>>,
}

impl View for PropertyDecl {
    type V = PropertyDeclView;

    open spec fn view(&self) -> PropertyDeclView {
        PropertyDeclView {
            name: self.name@,
            visibility: self.visibility,
            is_static: self.is_static,
            is_abstract: self.is_abstract,
            is_readonly: self.is_readonly,
            user_attributes: views(self.user_attributes@),
            type_hint: text_of(self.type_hint),
            initial_value: match self.initial_value {
                Some(expr) => Some(expr@),
                None => None,
            },
            doc_comment: text_of(self.doc_comment),
        }
    }
}

/// The integer `value` as a constant, where it is one that the machine
/// holds.
pub open spec fn int_value(value: int) -> Option<ValueView> {
    if i64::MIN <= value <= i64::MAX {
        Some(ValueView::Int(value as i64))
    } else {
        None
    }
}

/// What `op` makes of the integers `a` and `b`.
pub open spec fn arith(op: Bop, a: int, b: int) -> int {
    match op {
        Bop::Add => a + b,
        Bop::Sub => a - b,
        Bop::Mul => a * b,
    }
}

/// The value of `expr`, where it can be known without running the program.
/// A literal has its value. An operator applied to values of the types that
/// it takes has the value that it gives, unless that is an integer too
/// large or too small for the machine. Anything else, and every call, has
/// none.
pub open spec fn folded(expr: ExprView) -> Option<ValueView>
    decreases expr,
{
    match expr {
        ExprView::Null => Some(ValueView::Null),
        ExprView::Bool(b) => Some(ValueView::Bool(b)),
        ExprView::Int(i) => Some(ValueView::Int(i)),
        ExprView::String(s) => Some(ValueView::String(s)),
        ExprView::Unop(op, operand) => match (op, folded(*operand)) {
            (Uop::Neg, Some(ValueView::Int(i))) => int_value(-i),
            (Uop::Not, Some(ValueView::Bool(b))) => Some(ValueView::Bool(!b)),
            _ => None,
        },
        ExprView::Binop(op, lhs, rhs) => match (folded(*lhs), folded(*rhs)) {
            (Some(ValueView::Int(a)), Some(ValueView::Int(b))) => int_value(
                arith(op, a as int, b as int),
            ),
            _ => None,
        },
        ExprView::Call { .. } => None,
    }
}

/// The instruction that applies `op`.
pub open spec fn uop_instruct(op: Uop) -> InstructView {
    match op {
        Uop::Neg => InstructView::Neg,
        Uop::Not => InstructView::Not,
    }
}

/// The instruction that applies `op`.
pub open spec fn bop_instruct(op: Bop) -> InstructView {
    match op {
        Bop::Add => InstructView::Add,
        Bop::Sub => InstructView::Sub,
        Bop::Mul => InstructView::Mul,
    }
}

/// The instructions that leave the value of `expr` on top of the stack. An
/// operator evaluates its operands from left to right and is then applied.
/// A call evaluates its arguments from left to right and then calls the
/// function that its name resolves to in `env`.
pub open spec fn compiled(env: EnvView, expr: ExprView) -> Seq<InstructView>
    decreases expr, 0nat,
{
    match expr {
        ExprView::Null => seq![InstructView::Null],
        ExprView::Bool(b) => seq![
            if b {
                InstructView::True
            } else {
                InstructView::False
            },
        ],
        ExprView::Int(i) => seq![InstructView::Int(i)],
        ExprView::String(s) => seq![InstructView::String(s)],
        ExprView::Unop(op, operand) => compiled(env, *operand).push(uop_instruct(op)),
        ExprView::Binop(op, lhs, rhs) => (compiled(env, *lhs) + compiled(env, *rhs)).push(
            bop_instruct(op),
        ),
        ExprView::Call { name, args } => compiled_first(env, args, args.len()).push(
            InstructView::FCallFuncD {
                num_args: args.len() as usize,
                name: resolve_name(env, AliasKind::Function, name),
            },
        ),
    }
}

/// The instructions that leave the values of the first `count` of `args`
/// on the stack, the first lowest.
pub open spec fn compiled_first(env: EnvView, args: Seq<ExprView>, count: nat) -> Seq<
    InstructView,
>
    decreases args, count,
{
    if count == 0 || count > args.len() {
        Seq::empty()
    } else {
        compiled_first(env, args, (count - 1) as nat) + compiled(env, args[count - 1])
    }
}

/// The name of the attribute that makes a property constant.
pub const ATTR_CONST: &'static str = "__Const";

/// The name of the attribute that binds a static property late.
pub const ATTR_LSB: &'static str = "__LSB";

/// The name of the attribute that lets a property go without an initial
/// value until it is first written.
pub const ATTR_LATE_INIT: &'static str = "__LateInit";

/// The words with which the message on an unknown attribute begins.
pub const UNKNOWN_ATTRIBUTE: &'static str = "unknown attribute ";

/// Whether `name` is the name of an attribute that the builder knows.
pub open spec fn is_known_attribute(name: Seq<char>) -> bool {
    name == ATTR_CONST@ || name == ATTR_LSB@ || name == ATTR_LATE_INIT@
}

/// Whether `name` is a name that the language keeps to itself: one that
/// begins with two underscores.
pub open spec fn is_reserved_name(name: Seq<char>) -> bool {
    name.len() >= 2 && name[0] == '_' && name[1] == '_'
}

/// Whether the attribute named `name` refers to nothing: its name is kept
/// by the language, and the builder knows no attribute of that name.
pub open spec fn is_unknown_attribute(name: Seq<char>) -> bool {
    is_reserved_name(name) && !is_known_attribute(name)
}

/// The message of the diagnostic on an unknown attribute named `name`.
pub open spec fn unknown_attribute_message(name: Seq<char>) -> Seq<char> {
    UNKNOWN_ATTRIBUTE@ + name
}

/// The compiled form of `attribute`. A reserved name is recorded as it
/// stands; any other name is a class's, and is recorded as the canonical
/// name that it resolves to in `env`.
pub open spec fn attribute_of(env: EnvView, attribute: UserAttributeView) -> AttributeView {
    AttributeView {
        name: if is_reserved_name(attribute.name) {
            attribute.name
        } else {
            resolve_name(env, AliasKind::Class, attribute.name)
        },
        arguments: attribute.arguments,
    }
}

/// The compiled forms of `attributes`, in order.
pub open spec fn attributes_of(env: EnvView, attributes: Seq<UserAttributeView>) -> Seq<
    AttributeView,
> {
    Seq::new(attributes.len(), |i: int| attribute_of(env, attributes[i]))
}

/// The diagnostics on `attribute`: a warning where it is unknown.
pub open spec fn attribute_diagnostics(attribute: UserAttributeView) -> Seq<DiagnosticView> {
    if is_unknown_attribute(attribute.name) {
        seq![
            DiagnosticView {
                span: attribute.span,
                severity: Severity::Warning,
                message: unknown_attribute_message(attribute.name),
            },
        ]
    } else {
        Seq::empty()
    }
}

/// The diagnostics on the first `count` of `attributes`, in order.
pub open spec fn diagnostics_of(attributes: Seq<UserAttributeView>, count: nat) -> Seq<
    DiagnosticView,
>
    decreases count,
{
    if count == 0 || count > attributes.len() {
        Seq::empty()
    } else {
        diagnostics_of(attributes, (count - 1) as nat) + attribute_diagnostics(
            attributes[count - 1],
        )
    }
}

/// Whether one of `attributes` is named `name`.
pub open spec fn has_attribute(attributes: Seq<UserAttributeView>, name: Seq<char>) -> bool {
    exists|i: int| 0 <= i < attributes.len() && (#[trigger] attributes[i]).name == name
}

/// Whether the initial value of the property declared by `decl` has to be
/// worked out when the program runs.
pub open spec fn needs_instructions(decl: PropertyDeclView) -> bool {
    decl.initial_value matches Some(expr) && folded(expr) is None
}

/// Whether `flag` is set on the property declared by `decl`. Each flag has
/// its own source: a modifier, an attribute, or the initial value. The
/// flags that later passes decide are left unset.
pub open spec fn flag_of(decl: PropertyDeclView, flag: PropertyFlag) -> bool {
    match flag {
        PropertyFlag::IsAbstract => decl.is_abstract,
        PropertyFlag::IsStatic => decl.is_static,
        PropertyFlag::IsReadonly => decl.is_readonly,
        PropertyFlag::IsConst => has_attribute(decl.user_attributes, ATTR_CONST@),
        PropertyFlag::IsLsb => has_attribute(decl.user_attributes, ATTR_LSB@),
        PropertyFlag::IsLateInit => has_attribute(decl.user_attributes, ATTR_LATE_INIT@),
        PropertyFlag::IsDeepInit => !decl.is_static && needs_instructions(decl),
        PropertyFlag::HasSystemInitial => decl.initial_value is None && !has_attribute(
            decl.user_attributes,
            ATTR_LATE_INIT@,
        ),
        PropertyFlag::IsNoBadRedeclare
        | PropertyFlag::NoImplicitNull
        | PropertyFlag::InitialSatisfiesTc => false,
    }
}

/// The flags of the property declared by `decl`.
pub open spec fn flags_of(decl: PropertyDeclView) -> Set<PropertyFlag> {
    Set::new(|flag: PropertyFlag| flag_of(decl, flag))
}

/// The constant initial value of the property declared by `decl`: the
/// value of the declared initial value, where that can be known.
pub open spec fn initial_value_of(decl: PropertyDeclView) -> Option<ValueView> {
    match decl.initial_value {
        Some(expr) => folded(expr),
        None => None,
    }
}

/// The instructions that give the property declared by `decl` its initial
/// value, where that value is declared and cannot be known beforehand: the
/// instructions for the declared expression, and the one that stores what
/// they leave.
pub open spec fn initializer_of(env: EnvView, decl: PropertyDeclView) -> Option<
    Seq<InstructView>,
> {
    match decl.initial_value {
        Some(expr) if folded(expr) is None => Some(
            compiled(env, expr).push(
                InstructView::InitProp { name: decl.name, is_static: decl.is_static },
            ),
        ),
        _ => None,
    }
}

/// What is known of the type of the property declared by `decl`: the type
/// as declared, and the canonical name that it resolves to in `env`.
pub open spec fn type_info_of(env: EnvView, decl: PropertyDeclView) -> InfoView {
    match decl.type_hint {
        Some(hint) => InfoView {
            user_type: Some(hint),
            type_constraint: Some(resolve_name(env, AliasKind::Class, hint)),
        },
        None => InfoView { user_type: None, type_constraint: None },
    }
}

/// The compiled form of the property declared by `decl` where the
/// environment `env` is in force.
pub open spec fn property_of(env: EnvView, decl: PropertyDeclView) -> PropertyView {
    PropertyView {
        name: decl.name,
        flags: flags_of(decl),
        attributes: attributes_of(env, decl.user_attributes),
        visibility: decl.visibility,
        initial_value: initial_value_of(decl),
        initializer_instrs: initializer_of(env, decl),
        type_info: type_info_of(env, decl),
        doc_comment: decl.doc_comment,
    }
}

/// The initial value of a property comes about in exactly one way. A
/// property declared without one has neither a constant nor instructions; a
/// declared value that can be known beforehand is held as the constant, with
/// no instructions; any other declared value is worked out by instructions,
/// of which there is at least one, with no constant.
pub proof fn lemma_initializer_exclusive(env: EnvView, decl: PropertyDeclView)
    ensures
        property_of(env, decl).well_formed(),
        property_of(env, decl).initializer_kind() == (match decl.initial_value {
            None => InitializerKind::Absent,
            Some(expr) => if folded(expr) is Some {
                InitializerKind::Constant
            } else {
                InitializerKind::Instructions
            },
        }),
        property_of(env, decl).initial_value is Some ==> property_of(env, decl).initializer_instrs
            is None,
        property_of(env, decl).initializer_instrs matches Some(instrs) ==> instrs.len() > 0
            && property_of(env, decl).initial_value is None,
{
}

/// A copy of a constant value.
pub fn copy_value(value: &TypedValue) -> (copy: TypedValue)
    ensures
        copy@ == value@,
{
    match value {
        TypedValue::Null => TypedValue::Null,
        TypedValue::Bool(b) => TypedValue::Bool(*b),
        TypedValue::Int(i) => TypedValue::Int(*i),
        TypedValue::String(s) => TypedValue::String(s.clone()),
    }
}

/// A copy of a list of constant values.
pub fn copy_values(values: &Vec<TypedValue>) -> (copy: Vec<TypedValue>)
    ensures
        views(copy@) == views(values@),
{
    let mut copy: Vec<TypedValue> = Vec::new();
    let mut i: usize = 0;
    while i < values.len()
        invariant
            i <= values.len(),
            copy.len() == i,
            forall|j: int| 0 <= j < i ==> copy@[j]@ == values@[j]@,
        decreases values.len() - i,
    {
        copy.push(copy_value(&values[i]));
        i += 1;
    }
    assert(views(copy@) =~= views(values@));
    copy
}

/// The value of `expr`, where it can be known without running the program.
pub fn fold_constant(expr: &Expr) -> (value: Option<TypedValue>)
    ensures
        match value {
            Some(value) => folded(expr@) == Some(value@),
            None => folded(expr@) is None,
        },
    decreases expr,
{
    match expr {
        Expr::Null => Some(TypedValue::Null),
        Expr::Bool(b) => Some(TypedValue::Bool(*b)),
        Expr::Int(i) => Some(TypedValue::Int(*i)),
        Expr::String(s) => Some(TypedValue::String(s.clone())),
        Expr::Unop(op, operand) => match (op, fold_constant(operand)) {
            (Uop::Neg, Some(TypedValue::Int(i))) => match 0i64.checked_sub(i) {
                Some(negative) => Some(TypedValue::Int(negative)),
                None => None,
            },
            (Uop::Not, Some(TypedValue::Bool(b))) => Some(TypedValue::Bool(!b)),
            _ => None,
        },
        Expr::Binop(op, lhs, rhs) => match (fold_constant(lhs), fold_constant(rhs)) {
            (Some(TypedValue::Int(a)), Some(TypedValue::Int(b))) => {
                let value = match op {
                    Bop::Add => a.checked_add(b),
                    Bop::Sub => a.checked_sub(b),
                    Bop::Mul => a.checked_mul(b),
                };
                match value {
                    Some(value) => Some(TypedValue::Int(value)),
                    None => None,
                }
            },
            _ => None,
        },
        Expr::Call { .. } => None,
    }
}

/// Appends to `out` the instructions that leave the value of `expr` on top
/// of the stack.
pub fn compile_expr(env: &Env, expr: &Expr, out: &mut Vec<Instruct>)
    ensures
        views(final(out)@) == views(old(out)@) + compiled(env@, expr@),
    decreases expr,
{
    let ghost before = views(out@);
    match expr {
        Expr::Null => {
            out.push(Instruct::Null);
        },
        Expr::Bool(b) => {
            if *b {
                out.push(Instruct::True);
            } else {
                out.push(Instruct::False);
            }
        },
        Expr::Int(i) => {
            out.push(Instruct::Int(*i));
        },
        Expr::String(s) => {
            out.push(Instruct::String(s.clone()));
        },
        Expr::Unop(op, operand) => {
            compile_expr(env, operand, out);
            let ghost operand_done = views(out@);
            match op {
                Uop::Neg => out.push(Instruct::Neg),
                Uop::Not => out.push(Instruct::Not),
            }
            proof {
                assert(views(out@) =~= operand_done.push(uop_instruct(*op)));
                assert(views(out@) =~= before + compiled(env@, expr@));
            }
        },
        Expr::Binop(op, lhs, rhs) => {
            compile_expr(env, lhs, out);
            compile_expr(env, rhs, out);
            let ghost operands_done = views(out@);
            match op {
                Bop::Add => out.push(Instruct::Add),
                Bop::Sub => out.push(Instruct::Sub),
                Bop::Mul => out.push(Instruct::Mul),
            }
            proof {
                assert(views(out@) =~= operands_done.push(bop_instruct(*op)));
                assert(views(out@) =~= before + compiled(env@, expr@));
            }
        },
        Expr::Call { name, args } => {
            let ghost arg_views = Seq::new(args@.len(), |j: int| args@[j]@);
            proof {
                assert(expr@ matches ExprView::Call { name: n, args: a } && n == name@ && a
                    =~= arg_views);
            }
            let mut i: usize = 0;
            while i < args.len()
                invariant
                    i <= args.len(),
                    arg_views.len() == args@.len(),
                    forall|j: int| 0 <= j < args@.len() ==> arg_views[j] == args@[j]@,
                    forall|j: int|
                        0 <= j < args@.len() ==> decreases_to!(expr => #[trigger] args@[j]),
                    views(out@) == before + compiled_first(env@, arg_views, i as nat),
                decreases args.len() - i,
            {
                let ghost so_far = views(out@);
                compile_expr(env, &args[i], out);
                proof {
                    assert(views(out@) =~= before + compiled_first(
                        env@,
                        arg_views,
                        (i + 1) as nat,
                    ));
                }
                i += 1;
            }
            let target = env.resolve(AliasKind::Function, name.as_str());
            let ghost pushed = views(out@);
            out.push(Instruct::FCallFuncD { num_args: args.len(), name: target });
            proof {
                let call = InstructView::FCallFuncD {
                    num_args: arg_views.len() as usize,
                    name: resolve_name(env@, AliasKind::Function, name@),
                };
                assert(expr@ == (ExprView::Call { name: name@, args: arg_views }));
                assert(views(out@) =~= pushed.push(call));
                assert(compiled(env@, expr@) == compiled_first(
                    env@,
                    arg_views,
                    arg_views.len(),
                ).push(call));
                assert(views(out@) =~= before + compiled(env@, expr@));
            }
        },
    }
    proof {
        assert(views(out@) =~= before + compiled(env@, expr@));
    }
}

/// Whether `name` begins with two underscores.
pub fn is_reserved(name: &str) -> (reserved: bool)
    ensures
        reserved == is_reserved_name(name@),
{
    let chars = chars_of(name);
    chars.len() >= 2 && chars[0] == '_' && chars[1] == '_'
}

/// Whether `name` is the name of an attribute that the builder knows.
pub fn is_known(name: &str) -> (known: bool)
    ensures
        known == is_known_attribute(name@),
{
    same_text(name, ATTR_CONST) || same_text(name, ATTR_LSB) || same_text(name, ATTR_LATE_INIT)
}

/// Whether one of `attributes` is named `name`.
pub fn find_attribute(attributes: &Vec<UserAttribute>, name: &str) -> (found: bool)
    ensures
        found == has_attribute(views(attributes@), name@),
{
    let mut i: usize = 0;
    while i < attributes.len()
        invariant
            i <= attributes.len(),
            forall|j: int| 0 <= j < i ==> attributes@[j].name@ != name@,
        decreases attributes.len() - i,
    {
        if same_text(attributes[i].name.as_str(), name) {
            assert(views(attributes@)[i as int].name == name@);
            return true;
        }
        i += 1;
    }
    proof {
        let all = views(attributes@);
        assert forall|j: int| 0 <= j < all.len() implies (#[trigger] all[j]).name != name@ by {
            assert(all[j] == attributes@[j]@);
        }
    }
    false
}

/// The compiled form of `attribute`, and the diagnostics on it.
pub fn build_attribute(env: &Env, attribute: &UserAttribute) -> (built: (
    HhasAttribute,
    Vec<Diagnostic>,
))
    ensures
        built.0@ == attribute_of(env@, attribute@),
        views(built.1@) == attribute_diagnostics(attribute@),
{
    let reserved = is_reserved(attribute.name.as_str());
    let known = is_known(attribute.name.as_str());
    let name = if reserved {
        attribute.name.clone()
    } else {
        env.resolve(AliasKind::Class, attribute.name.as_str())
    };
    let mut diagnostics: Vec<Diagnostic> = Vec::new();
    if reserved && !known {
        let mut message = String::from_str(UNKNOWN_ATTRIBUTE);
        message.append(attribute.name.as_str());
        diagnostics.push(Diagnostic { span: attribute.span, severity: Severity::Warning, message });
    }
    proof {
        assert(views(diagnostics@) =~= attribute_diagnostics(attribute@));
    }
    (HhasAttribute { name, arguments: copy_values(&attribute.arguments) }, diagnostics)
}

/// The compiled form of the property declared by `decl` where the
/// environment `env` is in force, and the diagnostics on the declaration:
/// one warning for each unknown attribute, in the order of the attributes.
pub fn from_ast(env: &Env, decl: &PropertyDecl) -> (built: (HhasProperty, Vec<Diagnostic>))
    ensures
        built.0@ == property_of(env@, decl@),
        built.0@.well_formed(),
        views(built.1@) == diagnostics_of(decl@.user_attributes, decl@.user_attributes.len()),
{
    let ghost declared = decl@.user_attributes;
    let mut attributes: Vec<HhasAttribute> = Vec::new();
    let mut diagnostics: Vec<Diagnostic> = Vec::new();
    let mut i: usize = 0;
    while i < decl.user_attributes.len()
        invariant
            i <= decl.user_attributes.len(),
            declared == views(decl.user_attributes@),
            attributes.len() == i,
            forall|j: int| 0 <= j < i ==> attributes@[j]@ == attribute_of(env@, declared[j]),
            views(diagnostics@) == diagnostics_of(declared, i as nat),
        decreases decl.user_attributes.len() - i,
    {
        let (attribute, mut remarks) = build_attribute(env, &decl.user_attributes[i]);
        let ghost so_far = views(diagnostics@);
        let ghost added = views(remarks@);
        attributes.push(attribute);
        diagnostics.append(&mut remarks);
        proof {
            assert(views(diagnostics@) =~= so_far + added);
        }
        i += 1;
    }
    let is_const = find_attribute(&decl.user_attributes, ATTR_CONST);
    let is_lsb = find_attribute(&decl.user_attributes, ATTR_LSB);
    let is_late_init = find_attribute(&decl.user_attributes, ATTR_LATE_INIT);
    let (initial_value, initializer_instrs) = match &decl.initial_value {
        None => (None, None),
        Some(expr) => match fold_constant(expr) {
            Some(value) => (Some(value), None),
            None => {
                let mut instrs: Vec<Instruct> = Vec::new();
                assert(views(instrs@) =~= Seq::empty());
                compile_expr(env, expr, &mut instrs);
                instrs.push(
                    Instruct::InitProp { name: decl.name.clone(), is_static: decl.is_static },
                );
                let instrs = InstrSeq { instrs };
                proof {
                    assert(instrs@ =~= initializer_of(env@, decl@)->0);
                }
                (None, Some(instrs))
            },
        },
    };
    let compiles = initializer_instrs.is_some();
    let mut flags = HhasPropertyFlags::empty();
    flags.set(HhasPropertyFlags::from_flag(PropertyFlag::IsAbstract), decl.is_abstract);
    flags.set(HhasPropertyFlags::from_flag(PropertyFlag::IsStatic), decl.is_static);
    flags.set(HhasPropertyFlags::from_flag(PropertyFlag::IsReadonly), decl.is_readonly);
    flags.set(HhasPropertyFlags::from_flag(PropertyFlag::IsConst), is_const);
    flags.set(HhasPropertyFlags::from_flag(PropertyFlag::IsLsb), is_lsb);
    flags.set(HhasPropertyFlags::from_flag(PropertyFlag::IsLateInit), is_late_init);
    flags.set(HhasPropertyFlags::from_flag(PropertyFlag::IsDeepInit), !decl.is_static && compiles);
    flags.set(
        HhasPropertyFlags::from_flag(PropertyFlag::HasSystemInitial),
        decl.initial_value.is_none() && !is_late_init,
    );
    proof {
        assert(flags@ =~= flags_of(decl@));
    }
    let type_info = match &decl.type_hint {
        Some(hint) => Info {
            user_type: Some(hint.clone()),
            type_constraint: Some(env.resolve(AliasKind::Class, hint.as_str())),
        },
        None => Info { user_type: None, type_constraint: None },
    };
    let doc_comment = match &decl.doc_comment {
        Some(comment) => Some(DocComment(comment.clone())),
        None => None,
    };
    let property = HhasProperty {
        name: decl.name.clone(),
        flags,
        attributes,
        visibility: decl.visibility,
        initial_value,
        initializer_instrs,
        type_info,
        doc_comment,
    };
    proof {
        assert(property@.attributes =~= attributes_of(env@, declared));
    }
    (property, diagnostics)
}

} // verus!
