use vstd::prelude::*;

use crate::lexer::span::Span;
use crate::typechecker::error::{BindingKind, DefinitionKind, TypeError};
use crate::typechecker::table::{find_entry, push_new_entry, table_map, unique_names, Entry};
use crate::typechecker::types::{Ty, TyView};

verus! {

/// What a name is bound to: its type, how it was bound, and where.
#[derive(Debug, PartialEq)]
pub struct Entity {
    pub ty: Ty,
    pub kind: BindingKind,
    pub span: Span,
}

/// The mathematical content of an [`Entity`].
pub struct EntityView {
    pub ty: TyView,
    pub kind: BindingKind,
    pub span: Span,
}

impl View for Entity {
    type V = EntityView;

    open spec fn view(&self) -> EntityView {
        EntityView { ty: self.ty@, kind: self.kind, span: self.span }
    }
}

impl Entity {
    /// A copy of the entity.
    pub fn duplicate(&self) -> (r: Entity)
        ensures
            r@ == self@,
    {
        Entity { ty: self.ty.duplicate(), kind: self.kind, span: self.span }
    }
}

/// The entity that `name` denotes in a stack of scopes: the one of the
/// innermost scope that binds it.
pub open spec fn lookup_in(scopes: Seq<Map<Seq<char>, EntityView>>, name: Seq<char>) -> Option<EntityView>
    decreases scopes.len(),
{
    if scopes.len() == 0 {
        None
    } else if scopes.last().contains_key(name) {
        Some(scopes.last()[name])
    } else {
        lookup_in(scopes.drop_last(), name)
    }
}

/// A name bound in the innermost scope is found with what it was bound to;
/// every other name still denotes what it denoted before.
pub proof fn law_lookup_after_define(
    scopes: Seq<Map<Seq<char>, EntityView>>,
    name: Seq<char>,
    entity: EntityView,
    other: Seq<char>,
)
    requires
        scopes.len() > 0,
    ensures
        lookup_in(scopes.update(scopes.len() - 1, scopes.last().insert(name, entity)), name) == Some(entity),
        other != name ==> lookup_in(scopes.update(scopes.len() - 1, scopes.last().insert(name, entity)), other)
            == lookup_in(scopes, other),
{
    let updated = scopes.update(scopes.len() - 1, scopes.last().insert(name, entity));
    assert(updated.drop_last() == scopes.drop_last());
}

/// Opening a fresh scope changes what no name denotes, and closing it again
/// gives back the scopes there were.
pub proof fn law_push_pop(scopes: Seq<Map<Seq<char>, EntityView>>, name: Seq<char>)
    ensures
        lookup_in(scopes.push(Map::empty()), name) == lookup_in(scopes, name),
        scopes.push(Map::empty()).drop_last() == scopes,
{
    assert(scopes.push(Map::empty()).drop_last() == scopes);
}

/// A binding of an inner scope hides the bindings of the same name in the
/// scopes around it, until the inner scope is closed.
pub proof fn law_shadowing(scopes: Seq<Map<Seq<char>, EntityView>>, inner: Map<Seq<char>, EntityView>, name: Seq<char>)
    requires
        inner.contains_key(name),
    ensures
        lookup_in(scopes.push(inner), name) == Some(inner[name]),
        lookup_in(scopes.push(inner).drop_last(), name) == lookup_in(scopes, name),
{
    assert(scopes.push(inner).drop_last() == scopes);
}

/// The stack of lexical scopes the checker keeps while it walks the program.
pub struct Env {
    pub scopes: Vec<Vec<Entry<Entity>>>,
}

impl Env {
    /// Each scope binds each name at most once.
    pub open spec fn wf(&self) -> bool {
        forall|i: int| 0 <= i < self.scopes.len() ==> unique_names(#[trigger] self.scopes@[i]@)
    }

    /// The scopes, outermost first, each as a map from names to entities.
    pub open spec fn scope_maps(&self) -> Seq<Map<Seq<char>, EntityView>> {
        self.scopes@.map_values(|s: Vec<Entry<Entity>>| table_map(s@))
    }

    /// An environment without scopes.
    pub fn new() -> (e: Env)
        ensures
            e.wf(),
            e.scope_maps() == Seq::<Map<Seq<char>, EntityView>>::empty(),
    {
        let e = Env { scopes: Vec::new() };
        assert(e.scope_maps() =~= Seq::<Map<Seq<char>, EntityView>>::empty());
        e
    }

    /// Opens a new, empty innermost scope.
    pub fn push(&mut self)
        requires
            old(self).wf(),
        ensures
            final(self).wf(),
            final(self).scope_maps() == old(self).scope_maps().push(Map::empty()),
    {
        self.scopes.push(Vec::new());
        assert(table_map(Seq::<Entry<Entity>>::empty()) =~= Map::<Seq<char>, EntityView>::empty());
        assert(self.scope_maps() =~= old(self).scope_maps().push(Map::empty()));
    }

    /// Closes the innermost scope, if there is one.
    pub fn pop(&mut self)
        requires
            old(self).wf(),
        ensures
            final(self).wf(),
            final(self).scope_maps() == (if old(self).scope_maps().len() == 0 {
                old(self).scope_maps()
            } else {
                old(self).scope_maps().drop_last()
            }),
    {
        self.scopes.pop();
        assert(self.scope_maps() =~= (if old(self).scope_maps().len() == 0 {
            old(self).scope_maps()
        } else {
            old(self).scope_maps().drop_last()
        }));
    }

    /// Binds `name` in the innermost scope, opening one first when there is
    /// none. A name already bound in that scope is refused, with the place of
    /// its first binding.
    pub fn define(&mut self, name: String, ty: Ty, kind: BindingKind, span: &Span) -> (r: Result<(), TypeError>)
        requires
            old(self).wf(),
        ensures
            final(self).wf(),
            ({
                let base = if old(self).scope_maps().len() == 0 {
                    old(self).scope_maps().push(Map::empty())
                } else {
                    old(self).scope_maps()
                };
                let last = base.last();
                &&& last.contains_key(name@) ==> {
                    &&& final(self).scope_maps() == base
                    &&& r == Err::<(), TypeError>(
                        TypeError::DuplicateDefinition {
                            name,
                            first_span: last[name@].span,
                            second_span: *span,
                            def_kind: DefinitionKind::Var,
                        },
                    )
                }
                &&& !last.contains_key(name@) ==> {
                    &&& r is Ok
                    &&& final(self).scope_maps() == base.update(
                        base.len() - 1,
                        last.insert(name@, EntityView { ty: ty@, kind, span: *span }),
                    )
                }
            }),
    {
        if self.scopes.len() == 0 {
            self.push();
        }
        let ghost base = self.scope_maps();
        let n = self.scopes.len() - 1;
        let found = find_entry(&self.scopes[n], &name);
        match found {
            Some(i) => {
                let first_span = self.scopes[n][i].value.span;
                Err(
                    TypeError::DuplicateDefinition {
                        name,
                        first_span,
                        second_span: *span,
                        def_kind: DefinitionKind::Var,
                    },
                )
            },
            None => {
                let ghost name_view = name@;
                let ghost entity_view = EntityView { ty: ty@, kind, span: *span };
                let mut scope = Vec::new();
                std::mem::swap(&mut scope, &mut self.scopes[n]);
                push_new_entry(&mut scope, name, Entity { ty, kind, span: *span });
                std::mem::swap(&mut scope, &mut self.scopes[n]);
                assert(self.scope_maps() =~= base.update(
                    base.len() - 1,
                    base.last().insert(name_view, entity_view),
                ));
                Ok(())
            },
        }
    }

    /// The entity that `name` denotes: the binding of the innermost scope
    /// that has one.
    pub fn lookup(&self, name: &str) -> (r: Option<Entity>)
        requires
            self.wf(),
        ensures
            match r {
                Some(e) => lookup_in(self.scope_maps(), name@) == Some(e@),
                None => lookup_in(self.scope_maps(), name@) is None,
            },
    {
        let key = name.to_owned();
        let mut i: usize = self.scopes.len();
        assert(self.scope_maps().take(i as int) =~= self.scope_maps());
        while i > 0
            invariant
                i <= self.scopes.len(),
                self.wf(),
                key@ == name@,
                lookup_in(self.scope_maps(), name@) == lookup_in(self.scope_maps().take(i as int), name@),
            decreases i,
        {
            let ghost maps = self.scope_maps().take(i as int);
            assert(maps.drop_last() == self.scope_maps().take(i - 1));
            assert(maps.last() == table_map(self.scopes@[i - 1]@));
            let found = find_entry(&self.scopes[i - 1], &key);
            if let Some(k) = found {
                return Some(self.scopes[i - 1][k].value.duplicate());
            }
            i = i - 1;
        }
        None
    }
}

} // verus!
