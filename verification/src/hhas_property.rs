//! The compiled form of a property: the record that the bytecode writer is
//! handed for each property of a class.

use crate::flags::{HhasPropertyFlags, PropertyFlag};
use crate::text::{text_of, views};
use vstd::prelude::*;

verus! {

/// Who may access a property.
#[derive(Clone, Copy, Debug, PartialEq, Eq, Structural)]
pub enum Visibility {
    Private,
    Public,
    Protected,
}

/// A value that is known when the program is compiled.
#[derive(Clone, Debug, PartialEq, Eq)]
pub enum TypedValue {
    Null,
    Bool(bool),
    Int(i64),
    String(String),
}

/// A [`TypedValue`], with text in place of strings.
pub enum ValueView {
    Null,
    Bool(bool),
    Int(i64),
    String(Seq<char>),
}

impl View for TypedValue {
    type V = ValueView;

    open spec fn view(&self) -> ValueView {
        match self {
            TypedValue::Null => ValueView::Null,
            TypedValue::Bool(b) => ValueView::Bool(*b),
            TypedValue::Int(i) => ValueView::Int(*i),
            TypedValue::String(s) => ValueView::String(s@),
        }
    }
}

/// An attribute attached to a compiled entity: its name and its arguments.
#[derive(Clone, Debug, PartialEq, Eq)]
pub struct HhasAttribute {
    pub name: String,
    pub arguments: Vec<TypedValue>,
}

/// An [`HhasAttribute`], with text in place of strings.
pub struct AttributeView {
    pub name: Seq<char>,
    pub arguments: Seq<ValueView>,
}

impl View for HhasAttribute {
    type V = AttributeView;

    open spec fn view(&self) -> AttributeView {
        AttributeView { name: self.name@, arguments: views(self.arguments@) }
    }
}

/// One instruction of the virtual machine.
#[derive(Clone, Debug, PartialEq, Eq)]
pub enum Instruct {
    /// Pushes null.
    Null,
    /// Pushes true.
    True,
    /// Pushes false.
    False,
    /// Pushes an integer.
    Int(i64),
    /// Pushes a string.
    String(String),
    /// Replaces the integer on top of the stack by its negative.
    Neg,
    /// Replaces the boolean on top of the stack by its opposite.
    Not,
    /// Replaces the two integers on top of the stack by their sum.
    Add,
    /// Replaces the two integers on top of the stack by the lower less the
    /// upper.
    Sub,
    /// Replaces the two integers on top of the stack by their product.
    Mul,
    /// Calls the function `name` with the `num_args` values on top of the
    /// stack and pushes what it returns.
    FCallFuncD { num_args: usize, name: String },
    /// Stores the value on top of the stack as the initial value of the
    /// property `name`.
    InitProp { name: String, is_static: bool },
}

/// An [`Instruct`], with text in place of strings.
pub enum InstructView {
    Null,
    True,
    False,
    Int(i64),
    String(Seq<char>),
    Neg,
    Not,
    Add,
    Sub,
    Mul,
    FCallFuncD { num_args: usize, name: Seq<char> },
    InitProp { name: Seq<char>, is_static: bool },
}

impl View for Instruct {
    type V = InstructView;

    open spec fn view(&self) -> InstructView {
        match self {
            Instruct::Null => InstructView::Null,
            Instruct::True => InstructView::True,
            Instruct::False => InstructView::False,
            Instruct::Int(i) => InstructView::Int(*i),
            Instruct::String(s) => InstructView::String(s@),
            Instruct::Neg => InstructView::Neg,
            Instruct::Not => InstructView::Not,
            Instruct::Add => InstructView::Add,
            Instruct::Sub => InstructView::Sub,
            Instruct::Mul => InstructView::Mul,
            Instruct::FCallFuncD { num_args, name } => InstructView::FCallFuncD {
                num_args: *num_args,
                name: name@,
            },
            Instruct::InitProp { name, is_static } => InstructView::InitProp {
                name: name@,
                is_static: *is_static,
            },
        }
    }
}

/// A sequence of instructions.
#[derive(Clone, Debug, PartialEq, Eq)]
pub struct InstrSeq {
    pub instrs: Vec<Instruct>,
}

impl View for InstrSeq {
    type V = Seq<InstructView>;

    open spec fn view(&self) -> Seq<InstructView> {
        views(self.instrs@)
    }
}

/// What is known of the type of a property: the type as the source text has
/// it, and the canonical name of the type that values are held to.
#[derive(Clone, Debug, PartialEq, Eq)]
pub struct Info {
    pub user_type: Option<String>,
    pub type_constraint: Option<String>,
}

/// An [`Info`], with text in place of strings.
pub struct InfoView {
    pub user_type: Option<Seq<char>>,
    pub type_constraint: Option<Seq<char>>,
}

impl View for Info {
    type V = InfoView;

    open spec fn view(&self) -> InfoView {
        InfoView {
            user_type: text_of(self.user_type),
            type_constraint: text_of(self.type_constraint),
        }
    }
}

/// The documentation comment that stands above a declaration.
#[derive(Clone, Debug, PartialEq, Eq)]
pub struct DocComment(pub String);

/// How the initial value of a property comes about.
#[derive(Clone, Copy, Debug, PartialEq, Eq, Structural)]
pub enum InitializerKind {
    /// The property is declared without an initial value.
    Absent,
    /// The initial value is known when the program is compiled.
    Constant,
    /// The initial value is worked out by instructions when the program runs.
    Instructions,
}

/// A compiled property.
#[derive(Debug)]
pub struct HhasProperty {
    pub name: String,
    pub flags: HhasPropertyFlags,
    pub attributes: Vec<HhasAttribute>,
    pub visibility: Visibility,
    pub initial_value: Option<TypedValue>,
    pub initializer_instrs: Option<InstrSeq>,
    pub type_info: Info,
    pub doc_comment: Option<DocComment>,
}

/// An [`HhasProperty`], with text in place of strings and the set of its
/// flags in place of their packed form.
pub struct PropertyView {
    pub name: Seq<char>,
    pub flags: Set<PropertyFlag>,
    pub attributes: Seq<AttributeView>,
    pub visibility: Visibility,
    pub initial_value: Option<ValueView>,
    pub initializer_instrs: Option<Seq<InstructView>>,
    pub type_info: InfoView,
    pub doc_comment: Option<Seq<char>>,
}

impl PropertyView {
    /// A constant initial value and initializer instructions are never
    /// both present, and a property that the system gives its initial value
    /// has neither.
    pub open spec fn well_formed(self) -> bool {
        &&& !(self.initial_value is Some && self.initializer_instrs is Some)
        &&& self.flags.contains(PropertyFlag::HasSystemInitial) ==> self.initial_value is None
            && self.initializer_instrs is None
    }

    /// How the initial value comes about: by instructions where there are
    /// any, else as the constant where there is one.
    pub open spec fn initializer_kind(self) -> InitializerKind {
        if self.initializer_instrs is Some {
            InitializerKind::Instructions
        } else if self.initial_value is Some {
            InitializerKind::Constant
        } else {
            InitializerKind::Absent
        }
    }
}

impl View for HhasProperty {
    type V = PropertyView;

    open spec fn view(&self) -> PropertyView {
        PropertyView {
            name: self.name@,
            flags: self.flags@,
            attributes: views(self.attributes@),
            visibility: self.visibility,
            initial_value: match self.initial_value {
                Some(value) => Some(value@),
                None => None,
            },
            initializer_instrs: match self.initializer_instrs {
                Some(instrs) => Some(instrs@),
                None => None,
            },
            type_info: self.type_info@,
            doc_comment: match self.doc_comment {
                Some(comment) => Some(comment.0@),
                None => None,
            },
        }
    }
}

impl HhasProperty {
    /// Whether only the declaring class may access the property.
    pub fn is_private(&self) -> (held: bool)
        ensures
            held <==> self@.visibility == Visibility::Private,
    {
        match self.visibility {
            Visibility::Private => true,
            _ => false,
        }
    }

    /// Whether the declaring class and its subclasses may access the property.
    pub fn is_protected(&self) -> (held: bool)
        ensures
            held <==> self@.visibility == Visibility::Protected,
    {
        match self.visibility {
            Visibility::Protected => true,
            _ => false,
        }
    }

    /// Whether everyone may access the property.
    pub fn is_public(&self) -> (held: bool)
        ensures
            held <==> self@.visibility == Visibility::Public,
    {
        match self.visibility {
            Visibility::Public => true,
            _ => false,
        }
    }

    /// Whether the flag `flag` is set.
    pub fn has_flag(&self, flag: PropertyFlag) -> (held: bool)
        ensures
            held <==> self@.flags.contains(flag),
    {
        let held = self.flags.contains(HhasPropertyFlags::from_flag(flag));
        proof {
            assert(set![flag].contains(flag));
        }
        held
    }

    /// Whether the property may go without a value until it is first written.
    pub fn is_late_init(&self) -> (held: bool)
        ensures
            held <==> self@.flags.contains(PropertyFlag::IsLateInit),
    {
        self.has_flag(PropertyFlag::IsLateInit)
    }

    /// Whether no subclass redeclares the property with another type.
    pub fn is_no_bad_redeclare(&self) -> (held: bool)
        ensures
            held <==> self@.flags.contains(PropertyFlag::IsNoBadRedeclare),
    {
        self.has_flag(PropertyFlag::IsNoBadRedeclare)
    }

    /// Whether the initial value is known to be of the declared type.
    pub fn initial_satisfies_tc(&self) -> (held: bool)
        ensures
            held <==> self@.flags.contains(PropertyFlag::InitialSatisfiesTc),
    {
        self.has_flag(PropertyFlag::InitialSatisfiesTc)
    }

    /// Whether the property is never null without having been set so.
    pub fn no_implicit_null(&self) -> (held: bool)
        ensures
            held <==> self@.flags.contains(PropertyFlag::NoImplicitNull),
    {
        self.has_flag(PropertyFlag::NoImplicitNull)
    }

    /// Whether the system, not the declaration, gives the initial value.
    pub fn has_system_initial(&self) -> (held: bool)
        ensures
            held <==> self@.flags.contains(PropertyFlag::HasSystemInitial),
    {
        self.has_flag(PropertyFlag::HasSystemInitial)
    }

    /// Whether the property cannot be written once it is initialised.
    pub fn is_const(&self) -> (held: bool)
        ensures
            held <==> self@.flags.contains(PropertyFlag::IsConst),
    {
        self.has_flag(PropertyFlag::IsConst)
    }

    /// Whether the initial value has to be worked out for each object.
    pub fn is_deep_init(&self) -> (held: bool)
        ensures
            held <==> self@.flags.contains(PropertyFlag::IsDeepInit),
    {
        self.has_flag(PropertyFlag::IsDeepInit)
    }

    /// Whether the static property is bound late: each subclass has its own.
    pub fn is_lsb(&self) -> (held: bool)
        ensures
            held <==> self@.flags.contains(PropertyFlag::IsLsb),
    {
        self.has_flag(PropertyFlag::IsLsb)
    }

    /// Whether the property belongs to the class, not to its objects.
    pub fn is_static(&self) -> (held: bool)
        ensures
            held <==> self@.flags.contains(PropertyFlag::IsStatic),
    {
        self.has_flag(PropertyFlag::IsStatic)
    }

    /// Whether the property is declared read-only.
    pub fn is_readonly(&self) -> (held: bool)
        ensures
            held <==> self@.flags.contains(PropertyFlag::IsReadonly),
    {
        self.has_flag(PropertyFlag::IsReadonly)
    }

    /// Whether the record is well formed: a constant initial value and
    /// initializer instructions are not both present, and a property that
    /// the system gives its initial value has neither.
    pub fn is_well_formed(&self) -> (ok: bool)
        ensures
            ok == self@.well_formed(),
    {
        let constant = self.initial_value.is_some();
        let instructions = self.initializer_instrs.is_some();
        let system = self.has_system_initial();
        !(constant && instructions) && (!system || (!constant && !instructions))
    }

    /// How the initial value of the property comes about.
    pub fn initializer_kind(&self) -> (kind: InitializerKind)
        ensures
            kind == self@.initializer_kind(),
    {
        if self.initializer_instrs.is_some() {
            InitializerKind::Instructions
        } else if self.initial_value.is_some() {
            InitializerKind::Constant
        } else {
            InitializerKind::Absent
        }
    }
}

} // verus!
