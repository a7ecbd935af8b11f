use vstd::prelude::*;
use vstd::string::*;

use crate::text::str_eq;

verus! {

pub type ScopeId = usize;

pub type ScopeTypeId = usize;

pub type ScopeVarId = usize;

/// The ids of the built-in types, preloaded into the global scope.
pub const UNIT_TYPE_ID: usize = 1;

pub const INT_TYPE_ID: usize = 2;

pub const FLOAT_TYPE_ID: usize = 3;

pub const BOOL_TYPE_ID: usize = 4;

/// One lexical scope: its id and its parent, if any. Only the global
/// scope has no parent.
#[derive(Clone, Copy, Debug, PartialEq, Eq, Structural)]
pub struct Scope {
    pub id: ScopeId,
    pub parent: Option<ScopeId>,
}

impl Scope {
    /// A scope under `parent`.
    pub fn child(id: ScopeId, parent: ScopeId) -> (s: Scope)
        ensures
            s == (Scope { id, parent: Some(parent) }),
    {
        Scope { id, parent: Some(parent) }
    }
}

/// A type record: its id, its parent in the nominal hierarchy (none for a
/// built-in), its name, and the scope that owns it.
#[derive(Debug)]
pub struct ScopedType {
    pub id: ScopeTypeId,
    pub parent_id: Option<ScopeTypeId>,
    pub name: String,
    pub scope_id: ScopeId,
}

/// A variable record: its id, its name, its declared type, whether it may
/// be assigned to, and the scope that owns it.
#[derive(Debug)]
pub struct ScopedVar {
    pub id: ScopeVarId,
    pub name: String,
    pub type_id: ScopeTypeId,
    pub mutable: bool,
    pub scope_id: ScopeId,
}

/// The mathematical value of a `Scope`.
pub ghost struct ScopeView {
    pub id: int,
    pub parent: Option<int>,
}

/// The mathematical value of a `ScopedType`.
pub ghost struct TypeView {
    pub id: int,
    pub parent_id: Option<int>,
    pub name: Seq<char>,
    pub scope_id: int,
}

/// The mathematical value of a `ScopedVar`.
pub ghost struct VarView {
    pub id: int,
    pub name: Seq<char>,
    pub type_id: int,
    pub mutable: bool,
    pub scope_id: int,
}

/// The mathematical value of a `ScopeManager`: its tables as sequences
/// and its cursor.
pub ghost struct SmView {
    pub next_type_id: int,
    pub next_var_id: int,
    pub scopes: Seq<ScopeView>,
    pub types: Seq<TypeView>,
    pub vars: Seq<VarView>,
    pub cur: int,
}

impl Scope {
    /// The mathematical value of this scope.
    pub open spec fn view(&self) -> ScopeView {
        ScopeView {
            id: self.id as int,
            parent: match self.parent {
                Some(p) => Some(p as int),
                None => None,
            },
        }
    }
}

impl ScopedType {
    /// The mathematical value of this type record.
    pub open spec fn view(&self) -> TypeView {
        TypeView {
            id: self.id as int,
            parent_id: match self.parent_id {
                Some(p) => Some(p as int),
                None => None,
            },
            name: self.name@,
            scope_id: self.scope_id as int,
        }
    }
}

impl ScopedVar {
    /// The mathematical value of this variable record.
    pub open spec fn view(&self) -> VarView {
        VarView {
            id: self.id as int,
            name: self.name@,
            type_id: self.type_id as int,
            mutable: self.mutable,
            scope_id: self.scope_id as int,
        }
    }
}

impl SmView {
    /// Well-formedness of a scope manager.
    ///
    /// Ids are allocated monotonically, so a scope's id is its index and a
    /// type's id is its index plus one; every parent reference points at an
    /// earlier record, so parent chains reach the root; the cursor names an
    /// existing scope; every record is owned by an existing scope.
    pub open spec fn wf(self) -> bool {
        &&& forall|i: int|
            0 <= i < self.scopes.len() ==> {
                &&& (#[trigger] self.scopes[i]).id == i
                &&& match self.scopes[i].parent {
                    Some(p) => 0 <= p < i,
                    None => i == 0,
                }
            }
        &&& forall|i: int|
            0 <= i < self.types.len() ==> {
                &&& (#[trigger] self.types[i]).id == i + 1
                &&& match self.types[i].parent_id {
                    Some(p) => 1 <= p <= i,
                    None => true,
                }
                &&& 0 <= self.types[i].scope_id < self.scopes.len()
            }
        &&& forall|i: int|
            0 <= i < self.vars.len() ==> {
                &&& (#[trigger] self.vars[i]).id == i
                &&& 0 <= self.vars[i].scope_id < self.scopes.len()
            }
        &&& self.next_type_id == self.types.len() + 1
        &&& self.next_var_id == self.vars.len()
        &&& 0 <= self.cur < self.scopes.len()
        &&& self.scopes.len() >= 2
    }

    /// The first type record, scanning from `i`, named `name` and owned by
    /// scope `scope_id`.
    pub open spec fn find_type_named_from(
        self,
        name: Seq<char>,
        scope_id: int,
        i: int,
    ) -> Option<TypeView>
        decreases self.types.len() - i,
    {
        if i < 0 || i >= self.types.len() {
            None
        } else if self.types[i].name == name && self.types[i].scope_id == scope_id {
            Some(self.types[i])
        } else {
            self.find_type_named_from(name, scope_id, i + 1)
        }
    }

    /// The first variable record, scanning from `i`, named `name` and
    /// owned by scope `scope_id`.
    pub open spec fn find_var_named_from(
        self,
        name: Seq<char>,
        scope_id: int,
        i: int,
    ) -> Option<VarView>
        decreases self.vars.len() - i,
    {
        if i < 0 || i >= self.vars.len() {
            None
        } else if self.vars[i].name == name && self.vars[i].scope_id == scope_id {
            Some(self.vars[i])
        } else {
            self.find_var_named_from(name, scope_id, i + 1)
        }
    }

    /// Looking a type up by name: walk the scope chain from `scope_id` to
    /// the root and return the first record whose name matches and whose
    /// owning scope is the step of the walk.
    pub open spec fn lookup_type_spec(self, name: Seq<char>, scope_id: int) -> Option<TypeView>
        decreases scope_id,
    {
        if !(0 <= scope_id < self.scopes.len()) {
            None
        } else {
            match self.find_type_named_from(name, scope_id, 0) {
                Some(t) => Some(t),
                None => match self.scopes[scope_id].parent {
                    Some(p) => if 0 <= p < scope_id {
                        self.lookup_type_spec(name, p)
                    } else {
                        None
                    },
                    None => None,
                },
            }
        }
    }

    /// Looking a type up by id: walk the scope chain from `scope_id` to
    /// the root and return the record with that id as soon as the walk
    /// passes its owning scope.
    pub open spec fn get_type_spec(self, ty_id: int, scope_id: int) -> Option<TypeView>
        decreases scope_id,
    {
        if !(0 <= scope_id < self.scopes.len()) {
            None
        } else if 1 <= ty_id <= self.types.len() && self.types[ty_id - 1].scope_id == scope_id {
            Some(self.types[ty_id - 1])
        } else {
            match self.scopes[scope_id].parent {
                Some(p) => if 0 <= p < scope_id {
                    self.get_type_spec(ty_id, p)
                } else {
                    None
                },
                None => None,
            }
        }
    }

    /// Looking a variable up by name: walk the scope chain from
    /// `scope_id` to the root and return the first record whose name
    /// matches and whose owning scope is the step of the walk.
    pub open spec fn lookup_var_spec(self, name: Seq<char>, scope_id: int) -> Option<VarView>
        decreases scope_id,
    {
        if !(0 <= scope_id < self.scopes.len()) {
            None
        } else {
            match self.find_var_named_from(name, scope_id, 0) {
                Some(v) => Some(v),
                None => match self.scopes[scope_id].parent {
                    Some(p) => if 0 <= p < scope_id {
                        self.lookup_var_spec(name, p)
                    } else {
                        None
                    },
                    None => None,
                },
            }
        }
    }

    /// The nominal subtype check: a type is a child of itself and of
    /// every ancestor reachable along parent links.
    pub open spec fn is_child_type_spec(self, child_id: int, parent_id: int) -> bool
        decreases child_id,
    {
        if !(1 <= child_id <= self.types.len()) {
            false
        } else if child_id == parent_id {
            true
        } else {
            match self.types[child_id - 1].parent_id {
                Some(p) => if 1 <= p < child_id {
                    self.is_child_type_spec(p, parent_id)
                } else {
                    false
                },
                None => false,
            }
        }
    }

    /// The value of a fresh scope manager: a global scope holding the
    /// built-in types, and below it the session scope the cursor starts
    /// at.
    pub open spec fn initial() -> SmView {
        SmView {
            next_type_id: 5,
            next_var_id: 0,
            scopes: seq![
                ScopeView { id: 0, parent: None },
                ScopeView { id: 1, parent: Some(0) },
            ],
            types: seq![
                TypeView { id: 1, parent_id: None, name: "Unit"@, scope_id: 0 },
                TypeView { id: 2, parent_id: None, name: "Int"@, scope_id: 0 },
                TypeView { id: 3, parent_id: None, name: "Float"@, scope_id: 0 },
                TypeView { id: 4, parent_id: None, name: "Bool"@, scope_id: 0 },
            ],
            vars: Seq::empty(),
            cur: 1,
        }
    }

    /// The value of a scope manager after a new scope is created under
    /// `parent`.
    pub open spec fn create_scope_spec(self, parent: int) -> SmView {
        SmView {
            scopes: self.scopes.push(
                ScopeView { id: self.scopes.len() as int, parent: Some(parent) },
            ),
            ..self
        }
    }

    /// The value of a scope manager after a variable is registered under
    /// the current scope.
    pub open spec fn add_var_spec(self, name: Seq<char>, type_id: int, mutable: bool) -> SmView {
        SmView {
            vars: self.vars.push(
                VarView { id: self.next_var_id, name, type_id, mutable, scope_id: self.cur },
            ),
            next_var_id: self.next_var_id + 1,
            ..self
        }
    }

    /// The value of a scope manager after a type is registered under the
    /// current scope as a child of `parent_id`.
    pub open spec fn add_type_spec(self, name: Seq<char>, parent_id: int) -> SmView {
        SmView {
            types: self.types.push(
                TypeView {
                    id: self.next_type_id,
                    parent_id: Some(parent_id),
                    name,
                    scope_id: self.cur,
                },
            ),
            next_type_id: self.next_type_id + 1,
            ..self
        }
    }

    /// The value of a scope manager with the cursor moved to `scope_id`.
    pub open spec fn with_cur(self, scope_id: int) -> SmView {
        SmView { cur: scope_id, ..self }
    }
}

/// The forest of lexical scopes of one checking session, with its two
/// id-addressed tables. Types and variables are stored flat, tagged with
/// their owning scope; lookup by name walks the scope chain from a given
/// scope to the root.
#[derive(Debug)]
pub struct ScopeManager {
    pub next_type_id: ScopeTypeId,
    pub next_var_id: ScopeVarId,
    pub scopes: Vec<Scope>,
    pub types: Vec<ScopedType>,
    pub vars: Vec<ScopedVar>,
    pub cur: ScopeId,
}

impl ScopeManager {
    /// The mathematical value of this scope manager.
    pub open spec fn view(&self) -> SmView {
        SmView {
            next_type_id: self.next_type_id as int,
            next_var_id: self.next_var_id as int,
            scopes: Seq::new(self.scopes@.len(), |i: int| self.scopes@[i]@),
            types: Seq::new(self.types@.len(), |i: int| self.types@[i]@),
            vars: Seq::new(self.vars@.len(), |i: int| self.vars@[i]@),
            cur: self.cur as int,
        }
    }

    /// A fresh scope manager: the global scope seeded with the built-in
    /// types `Unit`, `Int`, `Float` and `Bool`, and the session scope the
    /// cursor starts at.
    pub fn new() -> (sm: ScopeManager)
        ensures
            sm@ == SmView::initial(),
            sm@.wf(),
    {
        let global_scope = Scope { id: 0, parent: None };
        let cur_scope = Scope { id: 1, parent: Some(0) };
        let mut scopes: Vec<Scope> = Vec::new();
        scopes.push(global_scope);
        scopes.push(cur_scope);
        let mut types: Vec<ScopedType> = Vec::new();
        types.push(
            ScopedType {
                id: UNIT_TYPE_ID,
                parent_id: None,
                name: String::from_str("Unit"),
                scope_id: 0,
            },
        );
        types.push(
            ScopedType {
                id: INT_TYPE_ID,
                parent_id: None,
                name: String::from_str("Int"),
                scope_id: 0,
            },
        );
        types.push(
            ScopedType {
                id: FLOAT_TYPE_ID,
                parent_id: None,
                name: String::from_str("Float"),
                scope_id: 0,
            },
        );
        types.push(
            ScopedType {
                id: BOOL_TYPE_ID,
                parent_id: None,
                name: String::from_str("Bool"),
                scope_id: 0,
            },
        );
        let sm = ScopeManager {
            next_type_id: 5,
            next_var_id: 0,
            scopes,
            types,
            vars: Vec::new(),
            cur: 1,
        };
        proof {
            assert(sm@.scopes =~= SmView::initial().scopes);
            assert(sm@.types =~= SmView::initial().types);
            assert(sm@.vars =~= SmView::initial().vars);
            assert(sm@ =~= SmView::initial());
        }
        sm
    }

    /// Create a new scope under `parent` and return its id.
    pub fn create_scope(&mut self, parent: ScopeId) -> (id: ScopeId)
        requires
            old(self)@.wf(),
            parent < old(self)@.scopes.len(),
        ensures
            final(self)@ == old(self)@.create_scope_spec(parent as int),
            final(self)@.wf(),
            id as int == old(self)@.scopes.len(),
    {
        let id = self.scopes.len();
        let scope = Scope::child(id, parent);
        self.scopes.push(scope);
        proof {
            assert(self@.scopes =~= old(self)@.create_scope_spec(parent as int).scopes);
            assert(self@ =~= old(self)@.create_scope_spec(parent as int));
        }
        id
    }

    /// Look a type up by name from `scope_id`, walking the scope chain.
    pub fn lookup_type<'a>(&'a self, ty_name: &str, scope_id: ScopeId) -> (r: Option<&'a ScopedType>)
        requires
            self@.wf(),
        ensures
            match r {
                Some(t) => self@.lookup_type_spec(ty_name@, scope_id as int) == Some(t@),
                None => self@.lookup_type_spec(ty_name@, scope_id as int) is None,
            },
        decreases scope_id,
    {
        if scope_id >= self.scopes.len() {
            return None;
        }
        let scope = &self.scopes[scope_id];
        let mut i: usize = 0;
        while i < self.types.len()
            invariant
                self@.wf(),
                i <= self@.types.len(),
                scope_id < self@.scopes.len(),
                self@.find_type_named_from(ty_name@, scope_id as int, 0)
                    == self@.find_type_named_from(ty_name@, scope_id as int, i as int),
            decreases self@.types.len() - i,
        {
            let t = &self.types[i];
            if str_eq(t.name.as_str(), ty_name) && t.scope_id == scope_id {
                return Some(t);
            }
            i = i + 1;
        }
        match scope.parent {
            Some(parent_id) => {
                proof {
                    assert(self@.scopes[scope_id as int].parent == Some(parent_id as int));
                }
                self.lookup_type(ty_name, parent_id)
            },
            None => None,
        }
    }

    /// Look a type up by id from `scope_id`, walking the scope chain; the
    /// record is found as soon as the walk passes its owning scope.
    pub fn get_type<'a>(&'a self, ty_id: ScopeTypeId, scope_id: ScopeId) -> (r: Option<
        &'a ScopedType,
    >)
        requires
            self@.wf(),
        ensures
            match r {
                Some(t) => self@.get_type_spec(ty_id as int, scope_id as int) == Some(t@),
                None => self@.get_type_spec(ty_id as int, scope_id as int) is None,
            },
        decreases scope_id,
    {
        if scope_id >= self.scopes.len() {
            return None;
        }
        let scope = &self.scopes[scope_id];
        if 1 <= ty_id && ty_id <= self.types.len() {
            let t = &self.types[ty_id - 1];
            if t.scope_id == scope_id {
                return Some(t);
            }
        }
        match scope.parent {
            Some(parent_id) => {
                proof {
                    assert(self@.scopes[scope_id as int].parent == Some(parent_id as int));
                }
                self.get_type(ty_id, parent_id)
            },
            None => None,
        }
    }

    /// Whether `child_id` names the same type as `parent_id` or one of
    /// its descendants in the nominal hierarchy.
    pub fn is_child_type(&self, child_id: ScopeTypeId, parent_id: ScopeTypeId) -> (r: bool)
        requires
            self@.wf(),
        ensures
            r == self@.is_child_type_spec(child_id as int, parent_id as int),
        decreases child_id,
    {
        if child_id < 1 || child_id > self.types.len() {
            return false;
        }
        if child_id == parent_id {
            return true;
        }
        let t = &self.types[child_id - 1];
        match t.parent_id {
            Some(p) => {
                proof {
                    assert(self@.types[child_id - 1].parent_id == Some(p as int));
                }
                self.is_child_type(p, parent_id)
            },
            None => false,
        }
    }

    /// Look a variable up by name from `scope_id`, walking the scope
    /// chain.
    pub fn lookup_var<'a>(&'a self, var_name: &str, scope_id: ScopeId) -> (r: Option<&'a ScopedVar>)
        requires
            self@.wf(),
        ensures
            match r {
                Some(v) => self@.lookup_var_spec(var_name@, scope_id as int) == Some(v@),
                None => self@.lookup_var_spec(var_name@, scope_id as int) is None,
            },
        decreases scope_id,
    {
        if scope_id >= self.scopes.len() {
            return None;
        }
        let scope = &self.scopes[scope_id];
        let mut i: usize = 0;
        while i < self.vars.len()
            invariant
                self@.wf(),
                i <= self@.vars.len(),
                scope_id < self@.scopes.len(),
                self@.find_var_named_from(var_name@, scope_id as int, 0)
                    == self@.find_var_named_from(var_name@, scope_id as int, i as int),
            decreases self@.vars.len() - i,
        {
            let v = &self.vars[i];
            if str_eq(v.name.as_str(), var_name) && v.scope_id == scope_id {
                return Some(v);
            }
            i = i + 1;
        }
        match scope.parent {
            Some(parent_id) => {
                proof {
                    assert(self@.scopes[scope_id as int].parent == Some(parent_id as int));
                }
                self.lookup_var(var_name, parent_id)
            },
            None => None,
        }
    }

    /// Register a variable under the current scope with a fresh id.
    pub fn add_var(&mut self, var_name: &str, ty_id: ScopeTypeId, mutable: bool)
        requires
            old(self)@.wf(),
        ensures
            final(self)@ == old(self)@.add_var_spec(var_name@, ty_id as int, mutable),
            final(self)@.wf(),
    {
        let var = ScopedVar {
            id: self.next_var_id,
            name: var_name.to_owned(),
            type_id: ty_id,
            mutable,
            scope_id: self.cur,
        };
        self.vars.push(var);
        self.next_var_id = self.vars.len();
        proof {
            assert(self@.vars =~= old(self)@.add_var_spec(var_name@, ty_id as int, mutable).vars);
            assert(self@ =~= old(self)@.add_var_spec(var_name@, ty_id as int, mutable));
        }
    }

    /// Register a type under the current scope with a fresh id, as a
    /// child of the existing type `parent_id`.
    pub fn add_type(&mut self, ty_name: &str, parent_id: ScopeTypeId)
        requires
            old(self)@.wf(),
            1 <= parent_id <= old(self)@.types.len(),
            old(self)@.types.len() < usize::MAX - 1,
        ensures
            final(self)@ == old(self)@.add_type_spec(ty_name@, parent_id as int),
            final(self)@.wf(),
    {
        let ty = ScopedType {
            id: self.next_type_id,
            name: ty_name.to_owned(),
            parent_id: Some(parent_id),
            scope_id: self.cur,
        };
        self.types.push(ty);
        self.next_type_id = self.next_type_id + 1;
        proof {
            assert(self@.types =~= old(self)@.add_type_spec(ty_name@, parent_id as int).types);
            assert(self@ =~= old(self)@.add_type_spec(ty_name@, parent_id as int));
        }
    }

    /// Move the cursor to `scope_id`. The checker points the cursor at a
    /// block's scope on entry and restores it on exit.
    pub fn set_cur(&mut self, scope_id: ScopeId)
        requires
            old(self)@.wf(),
            scope_id < old(self)@.scopes.len(),
        ensures
            final(self)@ == old(self)@.with_cur(scope_id as int),
            final(self)@.wf(),
    {
        self.cur = scope_id;
        proof {
            assert(self@ =~= old(self)@.with_cur(scope_id as int));
        }
    }
}

} // verus!
