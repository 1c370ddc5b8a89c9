//! The namespace environment: the aliases, the current namespace and the
//! rewrite rules by which a name written in a source file is turned into its
//! canonical name.
//!
//! An environment is a value. Declarations never change one in place: they
//! give a new environment, which the declarations that follow are resolved
//! against.

use crate::text::{chars_of, contains_char, copy_text, starts_with, text_of};
use vstd::prelude::*;
use vstd::string::*;

verus! {

/// The separator between the segments of a qualified name.
pub const SEPARATOR: char = '\\';

/// The map that a sequence of bindings stands for: a later binding of a key
/// shadows the earlier ones.
pub open spec fn map_of(pairs: Seq<(Seq<char>, Seq<char>)>) -> Map<Seq<char>, Seq<char>>
    decreases pairs.len(),
{
    if pairs.len() == 0 {
        Map::empty()
    } else {
        map_of(pairs.drop_last()).insert(pairs.last().0, pairs.last().1)
    }
}

/// The text of each pair of strings.
pub open spec fn pair_views(pairs: Seq<(String, String)>) -> Seq<(Seq<char>, Seq<char>)> {
    Seq::new(pairs.len(), |i: int| (pairs[i].0@, pairs[i].1@))
}

proof fn lemma_map_of_found(pairs: Seq<(Seq<char>, Seq<char>)>, key: Seq<char>, i: int)
    requires
        0 <= i < pairs.len(),
        pairs[i].0 == key,
        forall|j: int| i < j < pairs.len() ==> pairs[j].0 != key,
    ensures
        map_of(pairs).contains_key(key),
        map_of(pairs)[key] == pairs[i].1,
    decreases pairs.len(),
{
    if i < pairs.len() - 1 {
        lemma_map_of_found(pairs.drop_last(), key, i);
    }
}

proof fn lemma_map_of_absent(pairs: Seq<(Seq<char>, Seq<char>)>, key: Seq<char>)
    requires
        forall|j: int| 0 <= j < pairs.len() ==> pairs[j].0 != key,
    ensures
        !map_of(pairs).contains_key(key),
    decreases pairs.len(),
{
    if pairs.len() > 0 {
        lemma_map_of_absent(pairs.drop_last(), key);
    }
}

/// A map from names to names, kept as the list of its bindings.
#[derive(Debug)]
pub struct SMap {
    entries: Vec<(String, String)>,
}

impl View for SMap {
    type V = Map<Seq<char>, Seq<char>>;

    closed spec fn view(&self) -> Map<Seq<char>, Seq<char>> {
        map_of(pair_views(self.entries@))
    }
}

impl Clone for SMap {
    fn clone(&self) -> (copy: SMap)
        ensures
            copy@ == self@,
    {
        let copy = SMap { entries: copy_pairs(&self.entries) };
        proof {
            assert(pair_views(copy.entries@) =~= pair_views(self.entries@));
        }
        copy
    }
}

/// A copy of a list of pairs of strings.
pub fn copy_pairs(pairs: &Vec<(String, String)>) -> (copy: Vec<(String, String)>)
    ensures
        pair_views(copy@) == pair_views(pairs@),
{
    let mut copy: Vec<(String, String)> = Vec::new();
    let mut i: usize = 0;
    while i < pairs.len()
        invariant
            i <= pairs.len(),
            copy.len() == i,
            forall|j: int| 0 <= j < i ==> copy@[j].0@ == pairs@[j].0@ && copy@[j].1@ == pairs@[j].1@,
        decreases pairs.len() - i,
    {
        copy.push((pairs[i].0.clone(), pairs[i].1.clone()));
        i += 1;
    }
    assert(pair_views(copy@) =~= pair_views(pairs@));
    copy
}

impl SMap {
    /// The map that binds nothing.
    pub fn new() -> (map: SMap)
        ensures
            map@ == Map::<Seq<char>, Seq<char>>::empty(),
    {
        let map = SMap { entries: Vec::new() };
        assert(pair_views(map.entries@) =~= Seq::empty());
        map
    }

    /// What `key` is bound to, if it is bound.
    pub fn get(&self, key: &str) -> (found: Option<&str>)
        ensures
            found is Some <==> self@.contains_key(key@),
            found matches Some(value) ==> value@ == self@[key@],
    {
        let wanted = String::from_str(key);
        let ghost pairs = pair_views(self.entries@);
        let mut i: usize = self.entries.len();
        while i > 0
            invariant
                i <= self.entries.len(),
                wanted@ == key@,
                pairs == pair_views(self.entries@),
                forall|j: int| i <= j < pairs.len() ==> pairs[j].0 != key@,
            decreases i,
        {
            i -= 1;
            if self.entries[i].0 == wanted {
                proof {
                    lemma_map_of_found(pairs, key@, i as int);
                }
                return Some(self.entries[i].1.as_str());
            }
        }
        proof {
            lemma_map_of_absent(pairs, key@);
        }
        None
    }

    /// The bindings that make up the map, in the order in which they were
    /// made. A key may occur more than once: its last binding counts.
    pub fn bindings(&self) -> (pairs: Vec<(String, String)>)
        ensures
            map_of(pair_views(pairs@)) == self@,
    {
        copy_pairs(&self.entries)
    }

    /// Binds `key` to `value`; an earlier binding of `key` is shadowed.
    pub fn insert(&mut self, key: String, value: String)
        ensures
            final(self)@ == old(self)@.insert(key@, value@),
    {
        let ghost before = pair_views(self.entries@);
        self.entries.push((key, value));
        proof {
            let after = pair_views(self.entries@);
            assert(after.drop_last() =~= before);
        }
    }
}

/// The kinds of entity for which aliases are kept apart.
#[derive(Clone, Copy, Debug, PartialEq, Eq, Structural)]
pub enum AliasKind {
    Namespace,
    Class,
    RecordDef,
    Function,
    Const,
}

/// What an [`Env`] holds, as mathematical maps and sequences.
pub struct EnvView {
    pub ns_uses: Map<Seq<char>, Seq<char>>,
    pub class_uses: Map<Seq<char>, Seq<char>>,
    pub record_def_uses: Map<Seq<char>, Seq<char>>,
    pub fun_uses: Map<Seq<char>, Seq<char>>,
    pub const_uses: Map<Seq<char>, Seq<char>>,
    pub name: Option<Seq<char>>,
    pub auto_ns_map: Seq<(Seq<char>, Seq<char>)>,
    pub is_codegen: bool,
    pub disable_xhp_element_mangling: bool,
}

impl EnvView {
    /// The aliases declared for entities of kind `kind`.
    pub open spec fn uses(self, kind: AliasKind) -> Map<Seq<char>, Seq<char>> {
        match kind {
            AliasKind::Namespace => self.ns_uses,
            AliasKind::Class => self.class_uses,
            AliasKind::RecordDef => self.record_def_uses,
            AliasKind::Function => self.fun_uses,
            AliasKind::Const => self.const_uses,
        }
    }

    /// The environment in which `alias` also stands for `canonical` among
    /// the entities of kind `kind`; everything else is as in `self`.
    pub open spec fn with_alias(
        self,
        kind: AliasKind,
        alias: Seq<char>,
        canonical: Seq<char>,
    ) -> EnvView {
        match kind {
            AliasKind::Namespace => EnvView {
                ns_uses: self.ns_uses.insert(alias, canonical),
                ..self
            },
            AliasKind::Class => EnvView {
                class_uses: self.class_uses.insert(alias, canonical),
                ..self
            },
            AliasKind::RecordDef => EnvView {
                record_def_uses: self.record_def_uses.insert(alias, canonical),
                ..self
            },
            AliasKind::Function => EnvView {
                fun_uses: self.fun_uses.insert(alias, canonical),
                ..self
            },
            AliasKind::Const => EnvView {
                const_uses: self.const_uses.insert(alias, canonical),
                ..self
            },
        }
    }

    /// The environment whose current namespace is `name`; everything else,
    /// the aliases included, is as in `self`.
    pub open spec fn with_namespace(self, name: Option<Seq<char>>) -> EnvView {
        EnvView { name, ..self }
    }
}

/// Whether `name` has more than one segment.
pub open spec fn is_qualified(name: Seq<char>) -> bool {
    name.contains(SEPARATOR)
}

/// Whether the rule `(prefix, canonical)` applies to `name`: `name` begins
/// with the rule's prefix.
pub open spec fn rule_applies(rule: (Seq<char>, Seq<char>), name: Seq<char>) -> bool {
    rule.0.is_prefix_of(name)
}

/// `name` with the rule's prefix replaced by the rule's canonical text.
pub open spec fn rewritten(rule: (Seq<char>, Seq<char>), name: Seq<char>) -> Seq<char> {
    rule.1 + name.skip(rule.0.len() as int)
}

/// What the first rule that applies to `name` turns it into.
pub open spec fn first_rewrite(rules: Seq<(Seq<char>, Seq<char>)>, name: Seq<char>) -> Option<
    Seq<char>,
>
    decreases rules.len(),
{
    if rules.len() == 0 {
        None
    } else if rule_applies(rules[0], name) {
        Some(rewritten(rules[0], name))
    } else {
        first_rewrite(rules.drop_first(), name)
    }
}

/// `name` placed in the namespace `namespace`.
pub open spec fn in_namespace(namespace: Seq<char>, name: Seq<char>) -> Seq<char> {
    namespace + seq![SEPARATOR] + name
}

/// The canonical name that `name` stands for where an entity of kind `kind`
/// is expected, in the environment `env`.
///
/// An alias declared for the kind decides. Failing that, a name of one
/// segment is placed in the current namespace, if there is one. Failing
/// that, the first rewrite rule that applies decides. A name that nothing
/// applies to stands for itself.
pub open spec fn resolve_name(env: EnvView, kind: AliasKind, name: Seq<char>) -> Seq<char> {
    if env.uses(kind).contains_key(name) {
        env.uses(kind)[name]
    } else if !is_qualified(name) && env.name is Some {
        in_namespace(env.name->0, name)
    } else {
        match first_rewrite(env.auto_ns_map, name) {
            Some(canonical) => canonical,
            None => name,
        }
    }
}

/// What the first of `rules` that applies to `name` turns it into, or
/// `None` where no rule applies.
pub fn apply_auto_ns_map(rules: &Vec<(String, String)>, name: &str) -> (canonical: Option<String>)
    ensures
        text_of(canonical) == first_rewrite(pair_views(rules@), name@),
{
    let chars = chars_of(name);
    let ghost views = pair_views(rules@);
    let mut i: usize = 0;
    assert(views.skip(0) =~= views);
    while i < rules.len()
        invariant
            i <= rules.len(),
            chars@ == name@,
            views == pair_views(rules@),
            first_rewrite(views, name@) == first_rewrite(views.skip(i as int), name@),
        decreases rules.len() - i,
    {
        let prefix = chars_of(rules[i].0.as_str());
        proof {
            assert(views.skip(i as int)[0] == views[i as int]);
            assert(views.skip(i as int).drop_first() =~= views.skip(i + 1));
        }
        if starts_with(&chars, &prefix) {
            let rest = name.substring_char(prefix.len(), chars.len());
            let mut canonical = rules[i].1.clone();
            canonical.append(rest);
            proof {
                assert(name@.skip(prefix@.len() as int) =~= name@.subrange(
                    prefix@.len() as int,
                    name@.len() as int,
                ));
            }
            return Some(canonical);
        }
        i += 1;
    }
    None
}

/// The namespace environment in force at one point of a source file.
#[derive(Debug)]
pub struct Env {
    pub ns_uses: SMap,
    pub class_uses: SMap,
    pub record_def_uses: SMap,
    pub fun_uses: SMap,
    pub const_uses: SMap,
    pub name: Option<String>,
    pub auto_ns_map: Vec<(String, String)>,
    pub is_codegen: bool,
    pub disable_xhp_element_mangling: bool,
}

impl View for Env {
    type V = EnvView;

    open spec fn view(&self) -> EnvView {
        EnvView {
            ns_uses: self.ns_uses@,
            class_uses: self.class_uses@,
            record_def_uses: self.record_def_uses@,
            fun_uses: self.fun_uses@,
            const_uses: self.const_uses@,
            name: text_of(self.name),
            auto_ns_map: pair_views(self.auto_ns_map@),
            is_codegen: self.is_codegen,
            disable_xhp_element_mangling: self.disable_xhp_element_mangling,
        }
    }
}

impl Clone for Env {
    fn clone(&self) -> (copy: Env)
        ensures
            copy@ == self@,
    {
        Env {
            ns_uses: self.ns_uses.clone(),
            class_uses: self.class_uses.clone(),
            record_def_uses: self.record_def_uses.clone(),
            fun_uses: self.fun_uses.clone(),
            const_uses: self.const_uses.clone(),
            name: copy_text(&self.name),
            auto_ns_map: copy_pairs(&self.auto_ns_map),
            is_codegen: self.is_codegen,
            disable_xhp_element_mangling: self.disable_xhp_element_mangling,
        }
    }
}

impl Env {
    /// The environment of the start of a file: no alias, no current
    /// namespace, and the rewrite rules and mode flags given.
    pub fn empty(
        auto_ns_map: Vec<(String, String)>,
        is_codegen: bool,
        disable_xhp_element_mangling: bool,
    ) -> (env: Env)
        ensures
            env@ == (EnvView {
                ns_uses: Map::empty(),
                class_uses: Map::empty(),
                record_def_uses: Map::empty(),
                fun_uses: Map::empty(),
                const_uses: Map::empty(),
                name: None,
                auto_ns_map: pair_views(auto_ns_map@),
                is_codegen,
                disable_xhp_element_mangling,
            }),
    {
        Env {
            ns_uses: SMap::new(),
            class_uses: SMap::new(),
            record_def_uses: SMap::new(),
            fun_uses: SMap::new(),
            const_uses: SMap::new(),
            name: None,
            auto_ns_map,
            is_codegen,
            disable_xhp_element_mangling,
        }
    }

    /// The aliases declared for entities of kind `kind`.
    pub fn uses(&self, kind: AliasKind) -> (map: &SMap)
        ensures
            map@ == self@.uses(kind),
    {
        match kind {
            AliasKind::Namespace => &self.ns_uses,
            AliasKind::Class => &self.class_uses,
            AliasKind::RecordDef => &self.record_def_uses,
            AliasKind::Function => &self.fun_uses,
            AliasKind::Const => &self.const_uses,
        }
    }

    /// The environment after `use canonical as alias` for entities of kind
    /// `kind`. `self` is left as it was.
    pub fn with_alias(&self, kind: AliasKind, alias: &str, canonical: &str) -> (env: Env)
        ensures
            env@ == self@.with_alias(kind, alias@, canonical@),
    {
        let mut env = self.clone();
        let alias = String::from_str(alias);
        let canonical = String::from_str(canonical);
        match kind {
            AliasKind::Namespace => env.ns_uses.insert(alias, canonical),
            AliasKind::Class => env.class_uses.insert(alias, canonical),
            AliasKind::RecordDef => env.record_def_uses.insert(alias, canonical),
            AliasKind::Function => env.fun_uses.insert(alias, canonical),
            AliasKind::Const => env.const_uses.insert(alias, canonical),
        }
        env
    }

    /// The environment inside the namespace `name`, or back in the global
    /// namespace where `name` is `None`. The aliases declared so far stay
    /// in force. `self` is left as it was.
    pub fn with_namespace(&self, name: Option<&str>) -> (env: Env)
        ensures
            env@ == self@.with_namespace(
                match name {
                    Some(name) => Some(name@),
                    None => None,
                },
            ),
    {
        let mut env = self.clone();
        env.name = match name {
            Some(name) => Some(String::from_str(name)),
            None => None,
        };
        env
    }

    /// The canonical name that `name` stands for where an entity of kind
    /// `kind` is expected.
    pub fn resolve(&self, kind: AliasKind, name: &str) -> (canonical: String)
        ensures
            canonical@ == resolve_name(self@, kind, name@),
    {
        match self.uses(kind).get(name) {
            Some(target) => {
                return String::from_str(target);
            },
            None => {},
        }
        let chars = chars_of(name);
        if !contains_char(&chars, SEPARATOR) {
            match &self.name {
                Some(namespace) => {
                    let mut canonical = namespace.clone();
                    proof {
                        reveal_strlit("\\");
                    }
                    canonical.append("\\");
                    canonical.append(name);
                    assert(canonical@ =~= in_namespace(namespace@, name@));
                    return canonical;
                },
                None => {},
            }
        }
        match apply_auto_ns_map(&self.auto_ns_map, name) {
            Some(canonical) => canonical,
            None => String::from_str(name),
        }
    }
}

/// An alias wins over the current namespace and over every rewrite rule.
pub proof fn lemma_alias_decides(env: EnvView, kind: AliasKind, name: Seq<char>)
    requires
        env.uses(kind).contains_key(name),
    ensures
        resolve_name(env, kind, name) == env.uses(kind)[name],
{
}

/// Among the rewrite rules the first that applies decides: if rule `i`
/// applies to `name` and no earlier rule does, `name` is rewritten by
/// rule `i`.
pub proof fn lemma_first_rule_decides(rules: Seq<(Seq<char>, Seq<char>)>, name: Seq<char>, i: int)
    requires
        0 <= i < rules.len(),
        rule_applies(rules[i], name),
        forall|j: int| 0 <= j < i ==> !rule_applies(rules[j], name),
    ensures
        first_rewrite(rules, name) == Some(rewritten(rules[i], name)),
    decreases i,
{
    if i > 0 {
        lemma_first_rule_decides(rules.drop_first(), name, i - 1);
    }
}

/// Where no rewrite rule applies, none rewrites.
pub proof fn lemma_no_rule_applies(rules: Seq<(Seq<char>, Seq<char>)>, name: Seq<char>)
    requires
        forall|j: int| 0 <= j < rules.len() ==> !rule_applies(rules[j], name),
    ensures
        first_rewrite(rules, name) is None,
    decreases rules.len(),
{
    if rules.len() > 0 {
        lemma_no_rule_applies(rules.drop_first(), name);
    }
}

/// An alias declared before a namespace is entered is still in force
/// inside it: there the alias resolves to the name it was declared for.
pub proof fn lemma_alias_visible_in_nested_namespace(
    env: EnvView,
    kind: AliasKind,
    alias: Seq<char>,
    canonical: Seq<char>,
    namespace: Option<Seq<char>>,
)
    ensures
        resolve_name(env.with_alias(kind, alias, canonical).with_namespace(namespace), kind, alias)
            == canonical,
{
}

/// Declaring an alias changes what no other name resolves to, and what no
/// name resolves to for another kind of entity.
pub proof fn lemma_alias_leaves_other_names(
    env: EnvView,
    kind: AliasKind,
    alias: Seq<char>,
    canonical: Seq<char>,
    other_kind: AliasKind,
    name: Seq<char>,
)
    requires
        other_kind != kind || name != alias,
    ensures
        resolve_name(env.with_alias(kind, alias, canonical), other_kind, name) == resolve_name(
            env,
            other_kind,
            name,
        ),
{
}

} // verus!
