//! The compilation of the declarations of one file, in the order of the
//! source text. Each property is compiled against the namespace
//! environment in force where it stands; a statement that could not be
//! parsed is remarked on and passed over.

use crate::emit_property::{
    diagnostics_of, from_ast, property_of, Diagnostic, DiagnosticView, PropertyDecl,
    PropertyDeclView, Severity,
};
use crate::hhas_property::{HhasProperty, PropertyView};
use crate::namespace_env::{AliasKind, Env, EnvView};
use crate::syntax::Span;
use crate::text::{text_of, views};
use vstd::prelude::*;
use vstd::string::*;

verus! {

/// A declaration of a source file.
#[derive(Debug)]
pub enum Declaration {
    /// `namespace name;`, or the return to the global namespace.
    Namespace { name: Option<String> },
    /// `use canonical as alias;` for entities of kind `kind`.
    Use { kind: AliasKind, alias: String, canonical: String },
    /// The declaration of a property.
    Property(PropertyDecl),
    /// A stretch of source text that fits no production.
    Malformed { span: Span },
}

/// A [`Declaration`], with text in place of strings.
pub enum DeclarationView {
    Namespace { name: Option<Seq<char>> },
    Use { kind: AliasKind, alias: Seq<char>, canonical: Seq<char> },
    Property(PropertyDeclView),
    Malformed { span: Span },
}

impl View for Declaration {
    type V = DeclarationView;

    open spec fn view(&self) -> DeclarationView {
        match self {
            Declaration::Namespace { name } => DeclarationView::Namespace { name: text_of(*name) },
            Declaration::Use { kind, alias, canonical } => DeclarationView::Use {
                kind: *kind,
                alias: alias@,
                canonical: canonical@,
            },
            Declaration::Property(decl) => DeclarationView::Property(decl@),
            Declaration::Malformed { span } => DeclarationView::Malformed { span: *span },
        }
    }
}

/// What the compilation of a file gives: the compiled properties, the
/// diagnostics, and the namespace environment at the end of the file.
#[derive(Debug)]
pub struct Unit {
    pub properties: Vec<HhasProperty>,
    pub diagnostics: Vec<Diagnostic>,
    pub env: Env,
}

/// A [`Unit`], with text in place of strings.
pub struct UnitView {
    pub properties: Seq<PropertyView>,
    pub diagnostics: Seq<DiagnosticView>,
    pub env: EnvView,
}

impl View for Unit {
    type V = UnitView;

    open spec fn view(&self) -> UnitView {
        UnitView {
            properties: views(self.properties@),
            diagnostics: views(self.diagnostics@),
            env: self.env@,
        }
    }
}

/// The message of the diagnostic on a malformed statement.
pub const SYNTAX_ERROR: &'static str = "syntax error";

/// The environment in force after `decl`, where `env` is in force before
/// it. Only namespace and use declarations change the environment.
pub open spec fn env_after(env: EnvView, decl: DeclarationView) -> EnvView {
    match decl {
        DeclarationView::Namespace { name } => env.with_namespace(name),
        DeclarationView::Use { kind, alias, canonical } => env.with_alias(kind, alias, canonical),
        DeclarationView::Property(_) => env,
        DeclarationView::Malformed { .. } => env,
    }
}

/// The properties that `decl` gives, where `env` is in force before it.
pub open spec fn entities_of(env: EnvView, decl: DeclarationView) -> Seq<PropertyView> {
    match decl {
        DeclarationView::Property(property) => seq![property_of(env, property)],
        _ => Seq::empty(),
    }
}

/// The diagnostics that `decl` gives: the warnings on the attributes of a
/// property, and one error on the span of a malformed statement.
pub open spec fn remarks_on(decl: DeclarationView) -> Seq<DiagnosticView> {
    match decl {
        DeclarationView::Property(property) => diagnostics_of(
            property.user_attributes,
            property.user_attributes.len(),
        ),
        DeclarationView::Malformed { span } => seq![
            DiagnosticView { span, severity: Severity::Error, message: SYNTAX_ERROR@ },
        ],
        _ => Seq::empty(),
    }
}

/// What the first `count` of `decls` give, where `env` is in force at the
/// start of the file: each declaration is compiled against the environment
/// that the declarations before it leave.
pub open spec fn unit_of(env: EnvView, decls: Seq<DeclarationView>, count: nat) -> UnitView
    decreases count,
{
    if count == 0 || count > decls.len() {
        UnitView { properties: Seq::empty(), diagnostics: Seq::empty(), env }
    } else {
        let before = unit_of(env, decls, (count - 1) as nat);
        let decl = decls[count - 1];
        UnitView {
            properties: before.properties + entities_of(before.env, decl),
            diagnostics: before.diagnostics + remarks_on(decl),
            env: env_after(before.env, decl),
        }
    }
}

/// Compiles the declarations of a file, starting from the environment
/// `env`.
pub fn emit_unit(env: Env, decls: &Vec<Declaration>) -> (unit: Unit)
    ensures
        unit@ == unit_of(env@, views(decls@), decls@.len()),
{
    let ghost start = env@;
    let ghost all = views(decls@);
    let mut unit = Unit { properties: Vec::new(), diagnostics: Vec::new(), env };
    let mut i: usize = 0;
    proof {
        assert(views(unit.properties@) =~= Seq::empty());
        assert(views(unit.diagnostics@) =~= Seq::empty());
    }
    while i < decls.len()
        invariant
            i <= decls.len(),
            all == views(decls@),
            unit@ == unit_of(start, all, i as nat),
        decreases decls.len() - i,
    {
        let ghost before = unit@;
        proof {
            assert(all[i as int] == decls@[i as int]@);
        }
        match &decls[i] {
            Declaration::Namespace { name } => {
                let next = match name {
                    Some(name) => unit.env.with_namespace(Some(name.as_str())),
                    None => unit.env.with_namespace(None),
                };
                unit.env = next;
            },
            Declaration::Use { kind, alias, canonical } => {
                let next = unit.env.with_alias(*kind, alias.as_str(), canonical.as_str());
                unit.env = next;
            },
            Declaration::Property(decl) => {
                let (property, mut remarks) = from_ast(&unit.env, decl);
                let ghost added = views(remarks@);
                unit.properties.push(property);
                unit.diagnostics.append(&mut remarks);
                proof {
                    assert(views(unit.properties@) =~= before.properties + seq![property@]);
                    assert(views(unit.diagnostics@) =~= before.diagnostics + added);
                }
            },
            Declaration::Malformed { span } => {
                let remark = Diagnostic {
                    span: *span,
                    severity: Severity::Error,
                    message: String::from_str(SYNTAX_ERROR),
                };
                unit.diagnostics.push(remark);
                proof {
                    assert(views(unit.diagnostics@) =~= before.diagnostics + seq![remark@]);
                }
            },
        }
        proof {
            let after = unit_of(start, all, (i + 1) as nat);
            assert(unit@.properties =~= after.properties);
            assert(unit@.diagnostics =~= after.diagnostics);
            assert(unit@.env == after.env);
        }
        i += 1;
    }
    unit
}

/// The number of property declarations among the first `count` of `decls`.
pub open spec fn count_properties(decls: Seq<DeclarationView>, count: nat) -> nat
    decreases count,
{
    if count == 0 || count > decls.len() {
        0
    } else {
        count_properties(decls, (count - 1) as nat) + if decls[count - 1] is Property {
            1nat
        } else {
            0nat
        }
    }
}

/// Every property declaration is compiled, whatever stands around it.
pub proof fn lemma_every_property_is_compiled(
    env: EnvView,
    decls: Seq<DeclarationView>,
    count: nat,
)
    requires
        count <= decls.len(),
    ensures
        unit_of(env, decls, count).properties.len() == count_properties(decls, count),
    decreases count,
{
    if count > 0 {
        lemma_every_property_is_compiled(env, decls, (count - 1) as nat);
    }
}

/// What a file gives depends on its first `count` declarations only as far
/// as `count` goes: declarations that agree up to there give the same.
pub proof fn lemma_unit_of_prefix(
    env: EnvView,
    decls: Seq<DeclarationView>,
    others: Seq<DeclarationView>,
    count: nat,
)
    requires
        count <= decls.len(),
        count <= others.len(),
        forall|i: int| 0 <= i < count ==> decls[i] == others[i],
    ensures
        unit_of(env, decls, count) == unit_of(env, others, count),
    decreases count,
{
    if count > 0 {
        lemma_unit_of_prefix(env, decls, others, (count - 1) as nat);
    }
}

/// A malformed statement is not fatal. With the statement at place
/// `place`, the file gives the properties and the final environment that
/// it would give without the statement; and where nothing else in the file
/// is remarked on, the one diagnostic of the file is the error on the span
/// of the statement.
pub proof fn lemma_malformed_is_not_fatal(
    env: EnvView,
    decls: Seq<DeclarationView>,
    place: int,
    count: nat,
)
    requires
        0 <= place < decls.len(),
        decls[place] is Malformed,
        place < count <= decls.len(),
    ensures
        unit_of(env, decls, count).properties == unit_of(
            env,
            decls.remove(place),
            (count - 1) as nat,
        ).properties,
        unit_of(env, decls, count).env == unit_of(
            env,
            decls.remove(place),
            (count - 1) as nat,
        ).env,
        unit_of(env, decls.remove(place), (count - 1) as nat).diagnostics.len() == 0 ==> unit_of(
            env,
            decls,
            count,
        ).diagnostics == seq![
            DiagnosticView {
                span: decls[place]->span,
                severity: Severity::Error,
                message: SYNTAX_ERROR@,
            },
        ],
    decreases count,
{
    let without = decls.remove(place);
    if count == place + 1 {
        lemma_unit_of_prefix(env, decls, without, place as nat);
        let before = unit_of(env, decls, place as nat);
        assert(unit_of(env, decls, count).properties =~= before.properties);
        assert(unit_of(env, decls, count).diagnostics =~= before.diagnostics + remarks_on(
            decls[place],
        ));
        if before.diagnostics.len() == 0 {
            assert(unit_of(env, decls, count).diagnostics =~= remarks_on(decls[place]));
        }
    } else {
        lemma_malformed_is_not_fatal(env, decls, place, (count - 1) as nat);
        assert(without[count - 2] == decls[count - 1]);
        let before = unit_of(env, decls, (count - 1) as nat);
        let before_without = unit_of(env, without, (count - 2) as nat);
        let decl = decls[count - 1];
        assert(unit_of(env, decls, count).properties == before.properties + entities_of(
            before.env,
            decl,
        ));
        assert(unit_of(env, without, (count - 1) as nat).properties == before_without.properties
            + entities_of(before_without.env, decl));
        if unit_of(env, without, (count - 1) as nat).diagnostics.len() == 0 {
            assert(before_without.diagnostics.len() == 0);
            assert(remarks_on(decl).len() == 0);
            assert(unit_of(env, decls, count).diagnostics =~= before.diagnostics);
        }
    }
}

} // verus!
