//! Static resolution of variables: the type and life-cycle of each
//! variable, and the scopes and modules that bind them.
use vstd::prelude::*;

verus! {

/// Describes the type of a [Variable]
#[derive(Debug, Default)]
pub enum Type {
    #[default]
    Empty,
    Int,
    Bool,
    Char,
    String,
    Float,
    Fn { args: Vec<Type>, ret: Box<Type> },
    Range(Box<Type>),
    Tuple(Vec<Type>),
    Never,
    /// [Inferred](Type::Inferred) is for error messages.
    Inferred,
    Generic(String),
    /// A function with a single parameter of [Type::ManyInferred]
    /// is assumed to always be correct.
    ManyInferred,
}

/// The mathematical value of a [Type]: its structure, with lists as sequences.
pub enum TypeView {
    Empty,
    Int,
    Bool,
    Char,
    String,
    Float,
    Fn { args: Seq<TypeView>, ret: Box<TypeView> },
    Range(Box<TypeView>),
    Tuple(Seq<TypeView>),
    Never,
    Inferred,
    Generic(Seq<char>),
    ManyInferred,
}

impl Type {
    pub open spec fn spec_view(&self) -> TypeView
        decreases self, 0nat,
    {
        match self {
            Type::Empty => TypeView::Empty,
            Type::Int => TypeView::Int,
            Type::Bool => TypeView::Bool,
            Type::Char => TypeView::Char,
            Type::String => TypeView::String,
            Type::Float => TypeView::Float,
            Type::Fn { args, ret } => TypeView::Fn { args: views(args@), ret: Box::new(ret.spec_view()) },
            Type::Range(t) => TypeView::Range(Box::new(t.spec_view())),
            Type::Tuple(ts) => TypeView::Tuple(views(ts@)),
            Type::Never => TypeView::Never,
            Type::Inferred => TypeView::Inferred,
            Type::Generic(name) => TypeView::Generic(name@),
            Type::ManyInferred => TypeView::ManyInferred,
        }
    }
}

pub open spec fn views(ts: Seq<Type>) -> Seq<TypeView>
    decreases ts, 1nat,
{
    if ts.len() == 0 {
        Seq::empty()
    } else {
        views(ts.drop_last()).push(ts.last().spec_view())
    }
}

} // verus!
verus! {

impl View for Type {
    type V = TypeView;

    open spec fn view(&self) -> TypeView {
        self.spec_view()
    }
}

proof fn lemma_views(ts: Seq<Type>)
    ensures
        views(ts).len() == ts.len(),
        forall|i: int| 0 <= i < ts.len() ==> #[trigger] views(ts)[i] == ts[i]@,
    decreases ts.len(),
{
    if ts.len() > 0 {
        lemma_views(ts.drop_last());
    }
}

/// Whether two lists of types are the same.
fn types_eq(a: &Vec<Type>, b: &Vec<Type>) -> (r: bool)
    ensures
        r == (views(a@) == views(b@)),
    decreases a@, 1nat,
{
    proof {
        lemma_views(a@);
        lemma_views(b@);
    }
    if a.len() != b.len() {
        return false;
    }
    let mut i: usize = 0;
    while i < a.len()
        invariant
            a@.len() == b@.len(),
            i <= a@.len(),
            views(a@).len() == a@.len(),
            views(b@).len() == b@.len(),
            forall|k: int| 0 <= k < a@.len() ==> #[trigger] views(a@)[k] == a@[k]@,
            forall|k: int| 0 <= k < b@.len() ==> #[trigger] views(b@)[k] == b@[k]@,
            forall|k: int| 0 <= k < i ==> a@[k]@ == b@[k]@,
        decreases a@.len() - i,
    {
        if !ty_eq(&a[i], &b[i]) {
            assert(views(a@)[i as int] != views(b@)[i as int]);
            return false;
        }
        i = i + 1;
    }
    assert(views(a@) =~= views(b@));
    true
}

/// Whether two types are the same.
fn ty_eq(a: &Type, b: &Type) -> (r: bool)
    ensures
        r == (a@ == b@),
    decreases a, 0nat,
{
    match (a, b) {
        (Type::Empty, Type::Empty) => true,
        (Type::Int, Type::Int) => true,
        (Type::Bool, Type::Bool) => true,
        (Type::Char, Type::Char) => true,
        (Type::String, Type::String) => true,
        (Type::Float, Type::Float) => true,
        (Type::Fn { args: a1, ret: r1 }, Type::Fn { args: a2, ret: r2 }) => {
            let x = types_eq(a1, a2);
            let y = ty_eq(r1, r2);
            assert(a@ == TypeView::Fn { args: views(a1@), ret: Box::new(r1@) });
            assert(b@ == TypeView::Fn { args: views(a2@), ret: Box::new(r2@) });
            x && y
        },
        (Type::Range(t1), Type::Range(t2)) => {
            let x = ty_eq(t1, t2);
            assert(a@ == TypeView::Range(Box::new(t1@)));
            assert(b@ == TypeView::Range(Box::new(t2@)));
            x
        },
        (Type::Tuple(t1), Type::Tuple(t2)) => types_eq(t1, t2),
        (Type::Never, Type::Never) => true,
        (Type::Inferred, Type::Inferred) => true,
        (Type::Generic(n1), Type::Generic(n2)) => *n1 == *n2,
        (Type::ManyInferred, Type::ManyInferred) => true,
        _ => false,
    }
}

/// A copy of a list of types.
fn clone_types(ts: &[Type]) -> (r: Vec<Type>)
    ensures
        views(r@) == views(ts@),
    decreases ts@, 1nat,
{
    let mut out: Vec<Type> = Vec::new();
    let mut i: usize = 0;
    while i < ts.len()
        invariant
            i <= ts@.len(),
            views(out@) == views(ts@.take(i as int)),
        decreases ts@.len() - i,
    {
        let t = ts[i].clone();
        proof {
            assert(out@.push(t).drop_last() =~= out@);
            assert(ts@.take(i + 1).drop_last() =~= ts@.take(i as int));
        }
        out.push(t);
        i = i + 1;
    }
    assert(ts@.take(ts@.len() as int) =~= ts@);
    out
}

impl Clone for Type {
    fn clone(&self) -> (r: Self)
        ensures
            r@ == self@,
        decreases self, 0nat,
    {
        match self {
            Type::Empty => Type::Empty,
            Type::Int => Type::Int,
            Type::Bool => Type::Bool,
            Type::Char => Type::Char,
            Type::String => Type::String,
            Type::Float => Type::Float,
            Type::Fn { args, ret } => {
                let r: Type = (**ret).clone();
                Type::Fn { args: clone_types(args), ret: Box::new(r) }
            },
            Type::Range(t) => {
                let r: Type = (**t).clone();
                Type::Range(Box::new(r))
            },
            Type::Tuple(ts) => Type::Tuple(clone_types(ts)),
            Type::Never => Type::Never,
            Type::Inferred => Type::Inferred,
            Type::Generic(name) => Type::Generic(name.clone()),
            Type::ManyInferred => Type::ManyInferred,
        }
    }
}

impl PartialEq for Type {
    fn eq(&self, other: &Self) -> (r: bool) {
        ty_eq(self, other)
    }
}

impl vstd::std_specs::cmp::PartialEqSpecImpl for Type {
    open spec fn obeys_eq_spec() -> bool {
        true
    }

    open spec fn eq_spec(&self, other: &Self) -> bool {
        self@ == other@
    }
}

impl Eq for Type {
}

impl Type {
    /// Whether this is the empty type.
    pub fn is_empty(&self) -> (r: bool)
        ensures
            r == (self@ == TypeView::Empty),
    {
        ty_eq(self, &Type::Empty)
    }
}

} // verus!
verus! {

/// An error found while resolving
#[derive(Debug)]
pub enum Error {
    StackUnderflow,
    // types
    TypeMismatch { want: Type, got: Type },
    // modules
    NonUniqueInModule(String),
    // lifetimes
    Uninitialized(String, usize),
    ImmutableAssign(String, usize),
    Unbound(String),
}

pub type TyResult<T> = Result<T, Error>;

/// Whether an assignment failed with a type mismatch between these types.
pub open spec fn is_mismatch<T>(r: TyResult<T>, want: TypeView, got: TypeView) -> bool {
    r matches Err(Error::TypeMismatch { want: w, got: g }) && w@ == want && g@ == got
}

/// Describes the life-cycle of a [Variable]: Whether it's bound, typed, or initialized
#[derive(Debug, Default)]
pub enum Status {
    #[default]
    Bound,
    Uninitialized(Type),
    Initialized(Type),
}

/// The mathematical value of a [Status].
pub enum StatusView {
    Bound,
    Uninitialized(TypeView),
    Initialized(TypeView),
}

impl View for Status {
    type V = StatusView;

    open spec fn view(&self) -> StatusView {
        match self {
            Status::Bound => StatusView::Bound,
            Status::Uninitialized(t) => StatusView::Uninitialized(t@),
            Status::Initialized(t) => StatusView::Initialized(t@),
        }
    }
}

impl Status {
    /// Performs type-checking for a [Variable] assignment: a bound variable
    /// takes the type; an uninitialized one becomes initialized if the type
    /// matches; an initialized one accepts only its own type.
    pub fn assign(&mut self, ty: &Type) -> (r: TyResult<()>)
        ensures
            match old(self)@ {
                StatusView::Bound => r is Ok && final(self)@ == StatusView::Initialized(ty@),
                StatusView::Uninitialized(t) => if t == ty@ {
                    r is Ok && final(self)@ == StatusView::Initialized(t)
                } else {
                    is_mismatch(r, ty@, t) && final(self)@ == old(self)@
                },
                StatusView::Initialized(t) => if t == ty@ {
                    r is Ok && final(self)@ == old(self)@
                } else {
                    is_mismatch(r, ty@, t) && final(self)@ == old(self)@
                },
            },
    {
        let next: Option<Status> = match &*self {
            Status::Bound => Some(Status::Initialized(ty.clone())),
            Status::Uninitialized(t) => if ty_eq(t, ty) {
                Some(Status::Initialized(t.clone()))
            } else {
                return Err(Error::TypeMismatch { want: ty.clone(), got: t.clone() });
            },
            Status::Initialized(t) => if ty_eq(t, ty) {
                None
            } else {
                return Err(Error::TypeMismatch { want: ty.clone(), got: t.clone() });
            },
        };
        if let Some(s) = next {
            *self = s;
        }
        Ok(())
    }
}

/// A variable: its index, its life-cycle, and whether it may change.
#[derive(Debug, Default)]
pub struct Variable {
    /// The unique, global index of this variable
    pub index: usize,
    /// The [Status] of this variable
    pub status: Status,
    /// The mutability qualifier of this variable
    pub mutable: bool,
}

impl Variable {
    /// Constructs a new variable with the provided index and mutability
    pub fn new(index: usize, mutable: bool) -> (r: Self)
        ensures
            r.index == index,
            r.mutable == mutable,
            r.status@ == StatusView::Bound,
    {
        Variable { index, status: Status::Bound, mutable }
    }

    /// Performs a type-checked assignment on self: a bound variable takes
    /// the type, an uninitialized one becomes initialized if the type
    /// matches, a mutable initialized one accepts its own type again, and
    /// an immutable initialized one cannot be assigned.
    pub fn assign(&mut self, name: &str, ty: &Type) -> (r: TyResult<()>)
        ensures
            assign_step(old(self)@, name@, ty@, final(self)@, r),
    {
        let next: Option<Status> = match &self.status {
            Status::Bound => Some(Status::Initialized(ty.clone())),
            Status::Uninitialized(t) => if ty_eq(t, ty) {
                Some(Status::Initialized(t.clone()))
            } else {
                return Err(Error::TypeMismatch { want: ty.clone(), got: t.clone() });
            },
            Status::Initialized(t) => if !self.mutable {
                return Err(Error::ImmutableAssign(name.to_owned(), self.index));
            } else if ty_eq(t, ty) {
                None
            } else {
                return Err(Error::TypeMismatch { want: ty.clone(), got: t.clone() });
            },
        };
        if let Some(s) = next {
            self.status = s;
        }
        Ok(())
    }

    /// Performs the type-checking for a modifying assignment (such as
    /// `+=`): the variable must be initialized, mutable, and of the type.
    pub fn modify_assign(&self, name: &str, ty: &Type) -> (r: TyResult<()>)
        ensures
            match self.status@ {
                StatusView::Initialized(t) => if !self.mutable {
                    r matches Err(Error::ImmutableAssign(n, i)) && n@ == name@ && i == self.index
                } else if t == ty@ {
                    r is Ok
                } else {
                    is_mismatch(r, t, ty@)
                },
                _ => r matches Err(Error::Uninitialized(n, i)) && n@ == name@ && i == self.index,
            },
    {
        match &self.status {
            Status::Initialized(t) => if !self.mutable {
                Err(Error::ImmutableAssign(name.to_owned(), self.index))
            } else if ty_eq(t, ty) {
                Ok(())
            } else {
                Err(Error::TypeMismatch { want: t.clone(), got: ty.clone() })
            },
            _ => Err(Error::Uninitialized(name.to_owned(), self.index)),
        }
    }
}

} // verus!
verus! {

/// The mathematical value of a [Variable].
pub struct VariableView {
    pub index: usize,
    pub status: StatusView,
    pub mutable: bool,
}

impl View for Variable {
    type V = VariableView;

    open spec fn view(&self) -> VariableView {
        VariableView { index: self.index, status: self.status@, mutable: self.mutable }
    }
}


/// What [Variable::assign] does: `before` becomes `after`, with result `r`,
/// when `name` is assigned a value of type `ty`.
pub open spec fn assign_step(
    before: VariableView,
    name: Seq<char>,
    ty: TypeView,
    after: VariableView,
    r: TyResult<()>,
) -> bool {
    &&& after.index == before.index
    &&& after.mutable == before.mutable
    &&& match before.status {
        StatusView::Bound => r is Ok && after.status == StatusView::Initialized(ty),
        StatusView::Uninitialized(t) => if t == ty {
            r is Ok && after.status == StatusView::Initialized(t)
        } else {
            is_mismatch(r, ty, t) && after.status == before.status
        },
        StatusView::Initialized(t) => after.status == before.status && if !before.mutable {
            r matches Err(Error::ImmutableAssign(n, i)) && n@ == name && i == before.index
        } else if t == ty {
            r is Ok
        } else {
            is_mismatch(r, ty, t)
        },
    }
}

/// The variables bound by a list of entries; a later entry for a name
/// shadows an earlier one.
pub open spec fn var_map(vars: Seq<(String, Variable)>) -> Map<Seq<char>, VariableView>
    decreases vars.len(),
{
    if vars.len() == 0 {
        Map::empty()
    } else {
        var_map(vars.drop_last()).insert(vars.last().0@, vars.last().1@)
    }
}

/// Whether `j` is the index of the last entry named `name`.
pub open spec fn last_entry<V>(s: Seq<(String, V)>, j: int, name: Seq<char>) -> bool {
    &&& 0 <= j < s.len()
    &&& s[j].0@ == name
    &&& forall|k: int| j < k < s.len() ==> s[k].0@ != name
}

/// Whether no entry is named `name`.
pub open spec fn no_entry<V>(s: Seq<(String, V)>, name: Seq<char>) -> bool {
    forall|k: int| 0 <= k < s.len() ==> s[k].0@ != name
}

proof fn lemma_var_map_at(s: Seq<(String, Variable)>, j: int, name: Seq<char>)
    requires
        last_entry(s, j, name),
    ensures
        var_map(s).contains_key(name),
        var_map(s)[name] == s[j].1@,
    decreases s.len(),
{
    if j < s.len() - 1 {
        lemma_var_map_at(s.drop_last(), j, name);
    }
}

proof fn lemma_var_map_absent(s: Seq<(String, Variable)>, name: Seq<char>)
    requires
        no_entry(s, name),
    ensures
        !var_map(s).contains_key(name),
    decreases s.len(),
{
    if s.len() > 0 {
        lemma_var_map_absent(s.drop_last(), name);
    }
}

proof fn lemma_var_map_update(s: Seq<(String, Variable)>, j: int, v: Variable)
    requires
        last_entry(s, j, s[j].0@),
    ensures
        var_map(s.update(j, (s[j].0, v))) == var_map(s).insert(s[j].0@, v@),
    decreases s.len(),
{
    let w = s.update(j, (s[j].0, v));
    if j == s.len() - 1 {
        assert(w.drop_last() =~= s.drop_last());
    } else {
        lemma_var_map_update(s.drop_last(), j, v);
        assert(w.drop_last() =~= s.drop_last().update(j, (s[j].0, v)));
    }
    assert(var_map(w) =~= var_map(s).insert(s[j].0@, v@));
}

/// Finds the last entry named `name`.
fn find_last<V>(s: &Vec<(String, V)>, name: &str) -> (r: Option<usize>)
    ensures
        match r {
            Some(j) => last_entry(s@, j as int, name@),
            None => no_entry(s@, name@),
        },
{
    let key = name.to_owned();
    let mut j: usize = s.len();
    while j > 0
        invariant
            j <= s@.len(),
            key@ == name@,
            forall|k: int| j <= k < s@.len() ==> s@[k].0@ != name@,
        decreases j,
    {
        if s[j - 1].0 == key {
            return Some(j - 1);
        }
        j = j - 1;
    }
    None
}

/// A lexical scope inside a function: how many variables it has declared,
/// and the variables it binds.
#[derive(Debug, Default)]
pub struct Scope {
    count: usize,
    vars: Vec<(String, Variable)>,
}

impl Scope {
    /// The number of declarations made in this scope.
    pub closed spec fn spec_count(&self) -> nat {
        self.count as nat
    }

    /// The variables this scope binds.
    pub closed spec fn spec_vars(&self) -> Map<Seq<char>, VariableView> {
        var_map(self.vars@)
    }

    /// An empty scope.
    pub fn new() -> (r: Self)
        ensures
            r.spec_count() == 0,
            r.spec_vars() == Map::<Seq<char>, VariableView>::empty(),
    {
        Scope { count: 0, vars: Vec::new() }
    }

    /// Bind a [Variable] in Scope
    pub fn insert(&mut self, name: &str, index: usize, mutable: bool)
        requires
            old(self).spec_count() < usize::MAX,
        ensures
            final(self).spec_count() == old(self).spec_count() + 1,
            final(self).spec_vars() == old(self).spec_vars().insert(
                name@,
                VariableView { index, status: StatusView::Bound, mutable },
            ),
    {
        self.count = self.count + 1;
        let ghost before = self.vars@;
        self.vars.push((name.to_owned(), Variable::new(index, mutable)));
        assert(self.vars@.drop_last() =~= before);
    }

    /// Returns a reference to a [Variable], if `name` is bound
    pub fn get(&self, name: &str) -> (r: Option<&Variable>)
        ensures
            match r {
                Some(v) => self.spec_vars().contains_key(name@) && self.spec_vars()[name@] == v@,
                None => !self.spec_vars().contains_key(name@),
            },
    {
        match find_last(&self.vars, name) {
            Some(j) => {
                proof {
                    lemma_var_map_at(self.vars@, j as int, name@);
                }
                Some(&self.vars[j].1)
            },
            None => {
                proof {
                    lemma_var_map_absent(self.vars@, name@);
                }
                None
            },
        }
    }

    /// Assigns to the variable `name`, if this scope binds it (see
    /// [Variable::assign]); `None` when it does not.
    pub fn assign(&mut self, name: &str, ty: &Type) -> (r: Option<TyResult<()>>)
        ensures
            final(self).spec_count() == old(self).spec_count(),
            !old(self).spec_vars().contains_key(name@) ==> r is None
                && final(self).spec_vars() == old(self).spec_vars(),
            old(self).spec_vars().contains_key(name@) ==> (r matches Some(res)
                && final(self).spec_vars().contains_key(name@) && assign_step(
                old(self).spec_vars()[name@],
                name@,
                ty@,
                final(self).spec_vars()[name@],
                res,
            ) && final(self).spec_vars() == old(self).spec_vars().insert(name@, final(self).spec_vars()[name@])),
    {
        match find_last(&self.vars, name) {
            Some(j) => {
                proof {
                    lemma_var_map_at(self.vars@, j as int, name@);
                }
                let ghost s = self.vars@;
                let (key, mut var) = self.vars.remove(j);
                let ghost v0 = var;
                let res = var.assign(name, ty);
                let ghost v1 = var;
                self.vars.insert(j, (key, var));
                proof {
                    assert(self.vars@ =~= s.update(j as int, (s[j as int].0, v1)));
                    lemma_var_map_update(s, j as int, v1);
                }
                Some(res)
            },
            None => {
                proof {
                    lemma_var_map_absent(self.vars@, name@);
                }
                None
            },
        }
    }
}

} // verus!
verus! {

/// The mathematical value of a [Module]: its submodules and variables.
pub struct ModuleView {
    pub modules: Map<Seq<char>, ModuleView>,
    pub vars: Map<Seq<char>, VariableView>,
}

/// Implements a dynamically scoped namespace
#[derive(Debug, Default)]
pub struct Module {
    modules: Vec<(String, Module)>,
    vars: Vec<(String, Variable)>,
}

impl Module {
    pub closed spec fn spec_view(&self) -> ModuleView
        decreases self, 0nat,
    {
        ModuleView { modules: module_map(self.modules@), vars: var_map(self.vars@) }
    }
}

impl View for Module {
    type V = ModuleView;

    open spec fn view(&self) -> ModuleView {
        self.spec_view()
    }
}

/// The modules bound by a list of entries; a later entry for a name shadows
/// an earlier one.
pub open spec fn module_map(s: Seq<(String, Module)>) -> Map<Seq<char>, ModuleView>
    decreases s, 1nat,
{
    if s.len() == 0 {
        Map::empty()
    } else {
        module_map(s.drop_last()).insert(s.last().0@, s.last().1.spec_view())
    }
}

/// The module found by following `path` down from `m`.
pub open spec fn module_at(m: ModuleView, path: Seq<Seq<char>>) -> Option<ModuleView>
    decreases path.len(),
{
    if path.len() == 0 {
        Some(m)
    } else if m.modules.contains_key(path[0]) {
        module_at(m.modules[path[0]], path.drop_first())
    } else {
        None
    }
}

/// The first name on `path` that names no module.
pub open spec fn missing_name(m: ModuleView, path: Seq<Seq<char>>) -> Seq<char>
    decreases path.len(),
{
    if path.len() == 0 {
        Seq::empty()
    } else if m.modules.contains_key(path[0]) {
        missing_name(m.modules[path[0]], path.drop_first())
    } else {
        path[0]
    }
}

/// `m` with the module at `path` replaced by `sub`.
pub open spec fn with_module_at(m: ModuleView, path: Seq<Seq<char>>, sub: ModuleView) -> ModuleView
    decreases path.len(),
{
    if path.len() == 0 {
        sub
    } else {
        ModuleView {
            modules: m.modules.insert(path[0], with_module_at(m.modules[path[0]], path.drop_first(), sub)),
            vars: m.vars,
        }
    }
}

/// Resolves `name` along `path`: the variable bound by the innermost module
/// on the path that binds it. A missing module on the path resolves nothing.
pub open spec fn resolve_var(m: ModuleView, name: Seq<char>, path: Seq<Seq<char>>) -> Option<VariableView>
    decreases path.len(),
{
    if path.len() == 0 {
        if m.vars.contains_key(name) {
            Some(m.vars[name])
        } else {
            None
        }
    } else if !m.modules.contains_key(path[0]) {
        None
    } else {
        match resolve_var(m.modules[path[0]], name, path.drop_first()) {
            Some(v) => Some(v),
            None => if m.vars.contains_key(name) {
                Some(m.vars[name])
            } else {
                None
            },
        }
    }
}

/// Replacing the module at a path puts the new module there.
pub proof fn lemma_module_at_with(m: ModuleView, path: Seq<Seq<char>>, sub: ModuleView)
    requires
        module_at(m, path) is Some,
    ensures
        module_at(with_module_at(m, path, sub), path) == Some(sub),
    decreases path.len(),
{
    if path.len() > 0 {
        lemma_module_at_with(m.modules[path[0]], path.drop_first(), sub);
    }
}

proof fn lemma_module_map_at(s: Seq<(String, Module)>, j: int, name: Seq<char>)
    requires
        last_entry(s, j, name),
    ensures
        module_map(s).contains_key(name),
        module_map(s)[name] == s[j].1@,
    decreases s.len(),
{
    if j < s.len() - 1 {
        lemma_module_map_at(s.drop_last(), j, name);
    }
}

proof fn lemma_module_map_absent(s: Seq<(String, Module)>, name: Seq<char>)
    requires
        no_entry(s, name),
    ensures
        !module_map(s).contains_key(name),
    decreases s.len(),
{
    if s.len() > 0 {
        lemma_module_map_absent(s.drop_last(), name);
    }
}

proof fn lemma_module_map_update(s: Seq<(String, Module)>, j: int, v: Module)
    requires
        last_entry(s, j, s[j].0@),
    ensures
        module_map(s.update(j, (s[j].0, v))) == module_map(s).insert(s[j].0@, v@),
    decreases s.len(),
{
    let w = s.update(j, (s[j].0, v));
    if j == s.len() - 1 {
        assert(w.drop_last() =~= s.drop_last());
    } else {
        lemma_module_map_update(s.drop_last(), j, v);
        assert(w.drop_last() =~= s.drop_last().update(j, (s[j].0, v)));
    }
    assert(module_map(w) =~= module_map(s).insert(s[j].0@, v@));
}

/// A change to one module of a module tree.
pub enum Edit {
    /// Binds a new variable; it is an error if the name was bound.
    Var { name: String, index: usize, mutable: bool },
    /// Binds a submodule; it is an error if the name was bound.
    Module { name: String, module: Module },
    /// Binds a variable, replacing any binding of the name.
    Replace { name: String, var: Variable },
    /// Type-checks an assignment to a bound variable.
    Assign { name: String, ty: Type },
}

/// The mathematical value of an [Edit].
pub enum EditView {
    Var { name: Seq<char>, index: usize, mutable: bool },
    Module { name: Seq<char>, module: ModuleView },
    Replace { name: Seq<char>, var: VariableView },
    Assign { name: Seq<char>, ty: TypeView },
}

impl View for Edit {
    type V = EditView;

    open spec fn view(&self) -> EditView {
        match self {
            Edit::Var { name, index, mutable } => EditView::Var { name: name@, index: *index, mutable: *mutable },
            Edit::Module { name, module } => EditView::Module { name: name@, module: module@ },
            Edit::Replace { name, var } => EditView::Replace { name: name@, var: var@ },
            Edit::Assign { name, ty } => EditView::Assign { name: name@, ty: ty@ },
        }
    }
}

/// What an edit does to a module `m`, giving `after` and the result `r`.
pub open spec fn edit_step(m: ModuleView, e: EditView, after: ModuleView, r: TyResult<()>) -> bool {
    match e {
        EditView::Var { name, index, mutable } => {
            &&& after == ModuleView {
                vars: m.vars.insert(name, VariableView { index, status: StatusView::Bound, mutable }),
                ..m
            }
            &&& if m.vars.contains_key(name) {
                r matches Err(Error::NonUniqueInModule(n)) && n@ == name
            } else {
                r is Ok
            }
        },
        EditView::Module { name, module } => {
            &&& after == ModuleView { modules: m.modules.insert(name, module), ..m }
            &&& if m.modules.contains_key(name) {
                r matches Err(Error::NonUniqueInModule(n)) && n@ == name + "(module)"@
            } else {
                r is Ok
            }
        },
        EditView::Replace { name, var } => r is Ok && after == ModuleView { vars: m.vars.insert(name, var), ..m },
        EditView::Assign { name, ty } => if m.vars.contains_key(name) {
            &&& after.modules == m.modules
            &&& after.vars.contains_key(name)
            &&& after.vars == m.vars.insert(name, after.vars[name])
            &&& assign_step(m.vars[name], name, ty, after.vars[name], r)
        } else {
            r matches Err(Error::Unbound(n)) && n@ == name && after == m
        },
    }
}

impl Module {
    /// An empty module.
    pub fn new() -> (r: Self)
        ensures
            r@ == (ModuleView { modules: Map::empty(), vars: Map::empty() }),
    {
        let r = Module { modules: Vec::new(), vars: Vec::new() };
        assert(r@.modules =~= Map::<Seq<char>, ModuleView>::empty());
        assert(r@.vars =~= Map::<Seq<char>, VariableView>::empty());
        r
    }

    /// Returns a reference to a [Variable] in this Module, if `name` is bound
    pub fn get(&self, name: &str) -> (r: Option<&Variable>)
        ensures
            match r {
                Some(v) => self@.vars.contains_key(name@) && self@.vars[name@] == v@,
                None => !self@.vars.contains_key(name@),
            },
    {
        match find_last(&self.vars, name) {
            Some(j) => {
                proof {
                    lemma_var_map_at(self.vars@, j as int, name@);
                }
                Some(&self.vars[j].1)
            },
            None => {
                proof {
                    lemma_var_map_absent(self.vars@, name@);
                }
                None
            },
        }
    }

    /// The submodule called `name`, if there is one.
    fn child(&self, name: &str) -> (r: Option<&Module>)
        ensures
            match r {
                Some(m) => self@.modules.contains_key(name@) && self@.modules[name@] == m@,
                None => !self@.modules.contains_key(name@),
            },
    {
        match find_last(&self.modules, name) {
            Some(j) => {
                proof {
                    lemma_module_map_at(self.modules@, j as int, name@);
                }
                Some(&self.modules[j].1)
            },
            None => {
                proof {
                    lemma_module_map_absent(self.modules@, name@);
                }
                None
            },
        }
    }

    /// Binds a new variable in this module. The variable is bound either
    /// way; it is an error if the name was bound already.
    pub fn insert_var(&mut self, name: &str, index: usize, mutable: bool) -> (r: TyResult<()>)
        ensures
            edit_step(old(self)@, EditView::Var { name: name@, index, mutable }, final(self)@, r),
    {
        self.apply(Edit::Var { name: name.to_owned(), index, mutable })
    }

    /// Binds a submodule. The module is bound either way; it is an error
    /// if the name was bound already.
    pub fn insert_module(&mut self, name: String, module: Module) -> (r: TyResult<()>)
        ensures
            edit_step(old(self)@, EditView::Module { name: name@, module: module@ }, final(self)@, r),
    {
        self.apply(Edit::Module { name, module })
    }

    /// Makes one change to this module.
    fn apply(&mut self, e: Edit) -> (r: TyResult<()>)
        ensures
            edit_step(old(self)@, e@, final(self)@, r),
    {
        let ghost m = self@;
        let ghost ev = e;
        match e {
            Edit::Var { name, index, mutable } => {
                let found = find_last(&self.vars, name.as_str());
                proof {
                    if let Some(j) = found {
                        lemma_var_map_at(self.vars@, j as int, name@);
                    } else {
                        lemma_var_map_absent(self.vars@, name@);
                    }
                }
                let ghost before = self.vars@;
                let key = name.clone();
                self.vars.push((name, Variable::new(index, mutable)));
                assert(self.vars@.drop_last() =~= before);
                assert(self@.vars =~= m.vars.insert(key@, VariableView { index, status: StatusView::Bound, mutable }));
                if found.is_some() {
                    Err(Error::NonUniqueInModule(key))
                } else {
                    Ok(())
                }
            },
            Edit::Module { name, module } => {
                let found = find_last(&self.modules, name.as_str());
                proof {
                    if let Some(j) = found {
                        lemma_module_map_at(self.modules@, j as int, name@);
                    } else {
                        lemma_module_map_absent(self.modules@, name@);
                    }
                }
                let ghost before = self.modules@;
                let ghost mv = module@;
                let key = name.clone();
                self.modules.push((name, module));
                assert(self.modules@.drop_last() =~= before);
                assert(self@.modules =~= m.modules.insert(key@, mv));
                if found.is_some() {
                    Err(Error::NonUniqueInModule(key.concat("(module)")))
                } else {
                    Ok(())
                }
            },
            Edit::Replace { name, var } => {
                let ghost before = self.vars@;
                let ghost key = name@;
                let ghost vv = var@;
                self.vars.push((name, var));
                assert(self.vars@.drop_last() =~= before);
                assert(self@.vars =~= m.vars.insert(key, vv));
                Ok(())
            },
            Edit::Assign { name, ty } => match find_last(&self.vars, name.as_str()) {
                Some(j) => {
                    proof {
                        lemma_var_map_at(self.vars@, j as int, name@);
                    }
                    let ghost s = self.vars@;
                    let (key, mut var) = self.vars.remove(j);
                    let res = var.assign(name.as_str(), &ty);
                    let ghost v1 = var;
                    self.vars.insert(j, (key, var));
                    proof {
                        assert(self.vars@ =~= s.update(j as int, (s[j as int].0, v1)));
                        lemma_var_map_update(s, j as int, v1);
                    }
                    res
                },
                None => {
                    proof {
                        lemma_var_map_absent(self.vars@, name@);
                    }
                    Err(Error::Unbound(name))
                },
            },
        }
    }
}

} // verus!
verus! {

/// The names along a path.
pub open spec fn path_view(p: Seq<String>) -> Seq<Seq<char>> {
    Seq::new(p.len(), |i: int| p[i]@)
}

proof fn lemma_path_skip(p: Seq<String>, i: int)
    requires
        0 <= i < p.len(),
    ensures
        path_view(p).skip(i).len() > 0,
        path_view(p).skip(i)[0] == p[i]@,
        path_view(p).skip(i).drop_first() == path_view(p).skip(i + 1),
{
    assert(path_view(p).skip(i).drop_first() =~= path_view(p).skip(i + 1));
}

impl Module {
    fn resolve_from(&self, path: &[String], i: usize) -> (r: TyResult<&Module>)
        requires
            i <= path@.len(),
        ensures
            match module_at(self@, path_view(path@).skip(i as int)) {
                Some(m) => r matches Ok(x) && x@ == m,
                None => r matches Err(Error::Unbound(n)) && n@ == missing_name(
                    self@,
                    path_view(path@).skip(i as int),
                ),
            },
        decreases path@.len() - i,
    {
        if i == path.len() {
            assert(path_view(path@).skip(i as int) =~= Seq::<Seq<char>>::empty());
            return Ok(self);
        }
        proof {
            lemma_path_skip(path@, i as int);
        }
        match self.child(path[i].as_str()) {
            Some(c) => c.resolve_from(path, i + 1),
            None => Err(Error::Unbound(path[i].clone())),
        }
    }

    /// Returns a reference to the module at a specified path
    pub fn resolve(&self, path: &[String]) -> (r: TyResult<&Module>)
        ensures
            match module_at(self@, path_view(path@)) {
                Some(m) => r matches Ok(x) && x@ == m,
                None => r matches Err(Error::Unbound(n)) && n@ == missing_name(self@, path_view(path@)),
            },
    {
        assert(path_view(path@).skip(0) =~= path_view(path@));
        self.resolve_from(path, 0)
    }

    fn resolve_get_from(&self, name: &str, path: &[String], i: usize) -> (r: Option<&Variable>)
        requires
            i <= path@.len(),
        ensures
            match resolve_var(self@, name@, path_view(path@).skip(i as int)) {
                Some(v) => r matches Some(x) && x@ == v,
                None => r is None,
            },
        decreases path@.len() - i,
    {
        if i == path.len() {
            assert(path_view(path@).skip(i as int) =~= Seq::<Seq<char>>::empty());
            return self.get(name);
        }
        proof {
            lemma_path_skip(path@, i as int);
        }
        match self.child(path[i].as_str()) {
            Some(c) => match c.resolve_get_from(name, path, i + 1) {
                Some(v) => Some(v),
                None => self.get(name),
            },
            None => None,
        }
    }

    /// Resolves `name` along `path`: the variable bound by the innermost
    /// module on the path that binds it.
    pub fn resolve_get(&self, name: &str, path: &[String]) -> (r: Option<&Variable>)
        ensures
            match resolve_var(self@, name@, path_view(path@)) {
                Some(v) => r matches Some(x) && x@ == v,
                None => r is None,
            },
    {
        assert(path_view(path@).skip(0) =~= path_view(path@));
        self.resolve_get_from(name, path, 0)
    }

    fn edit_from(&mut self, path: &[String], i: usize, e: Edit) -> (r: TyResult<()>)
        requires
            i <= path@.len(),
        ensures
            match module_at(old(self)@, path_view(path@).skip(i as int)) {
                Some(sub) => {
                    &&& module_at(final(self)@, path_view(path@).skip(i as int)) is Some
                    &&& edit_step(
                        sub,
                        e@,
                        module_at(final(self)@, path_view(path@).skip(i as int))->0,
                        r,
                    )
                    &&& final(self)@ == with_module_at(
                        old(self)@,
                        path_view(path@).skip(i as int),
                        module_at(final(self)@, path_view(path@).skip(i as int))->0,
                    )
                },
                None => r matches Err(Error::Unbound(n)) && n@ == missing_name(
                    old(self)@,
                    path_view(path@).skip(i as int),
                ) && final(self)@ == old(self)@,
            },
        decreases path@.len() - i,
    {
        let ghost p = path_view(path@).skip(i as int);
        if i == path.len() {
            assert(p =~= Seq::<Seq<char>>::empty());
            return self.apply(e);
        }
        proof {
            lemma_path_skip(path@, i as int);
        }
        match find_last(&self.modules, path[i].as_str()) {
            Some(j) => {
                proof {
                    lemma_module_map_at(self.modules@, j as int, path[i as int]@);
                }
                let ghost s = self.modules@;
                let ghost old_view = self@;
                let (key, mut child) = self.modules.remove(j);
                let ghost c0 = child;
                let res = child.edit_from(path, i + 1, e);
                let ghost c1 = child;
                self.modules.insert(j, (key, child));
                proof {
                    let q = path_view(path@).skip(i + 1);
                    assert(c0@ == old_view.modules[p[0]]);
                    assert(self.modules@ =~= s.update(j as int, (s[j as int].0, c1)));
                    lemma_module_map_update(s, j as int, c1);
                    assert(self@.modules == old_view.modules.insert(p[0], c1@));
                    assert(self@.vars == old_view.vars);
                    assert(module_at(old_view, p) == module_at(c0@, q));
                    assert(module_at(self@, p) == module_at(c1@, q));
                    if module_at(c0@, q) is Some {
                        assert(self@ == with_module_at(old_view, p, module_at(self@, p)->0));
                    } else {
                        assert(self@.modules =~= old_view.modules);
                        assert(self@ == old_view);
                    }
                }
                res
            },
            None => {
                proof {
                    lemma_module_map_absent(self.modules@, path[i as int]@);
                }
                Err(Error::Unbound(path[i].clone()))
            },
        }
    }

    /// Makes one change to the module at `path`; it is an error if there is
    /// no module there.
    pub fn edit_at(&mut self, path: &[String], e: Edit) -> (r: TyResult<()>)
        ensures
            match module_at(old(self)@, path_view(path@)) {
                Some(sub) => {
                    &&& module_at(final(self)@, path_view(path@)) is Some
                    &&& edit_step(sub, e@, module_at(final(self)@, path_view(path@))->0, r)
                    &&& final(self)@ == with_module_at(
                        old(self)@,
                        path_view(path@),
                        module_at(final(self)@, path_view(path@))->0,
                    )
                },
                None => r matches Err(Error::Unbound(n)) && n@ == missing_name(old(self)@, path_view(path@))
                    && final(self)@ == old(self)@,
            },
    {
        assert(path_view(path@).skip(0) =~= path_view(path@));
        self.edit_from(path, 0, e)
    }
}

} // verus!
verus! {

/// Looks a name up through a stack of scopes, innermost (last) first.
pub open spec fn scope_lookup(scopes: Seq<Map<Seq<char>, VariableView>>, name: Seq<char>) -> Option<VariableView>
    decreases scopes.len(),
{
    if scopes.len() == 0 {
        None
    } else if scopes.last().contains_key(name) {
        Some(scopes.last()[name])
    } else {
        scope_lookup(scopes.drop_last(), name)
    }
}

/// The index of the innermost scope that binds a name.
pub open spec fn scope_index(scopes: Seq<Map<Seq<char>, VariableView>>, name: Seq<char>) -> int
    decreases scopes.len(),
{
    if scopes.len() == 0 {
        -1
    } else if scopes.last().contains_key(name) {
        scopes.len() - 1
    } else {
        scope_index(scopes.drop_last(), name)
    }
}

proof fn lemma_scope_lookup_index(scopes: Seq<Map<Seq<char>, VariableView>>, name: Seq<char>)
    ensures
        scope_lookup(scopes, name) is Some <==> 0 <= scope_index(scopes, name) < scopes.len(),
        scope_lookup(scopes, name) is Some ==> scopes[scope_index(scopes, name)].contains_key(name)
            && scope_lookup(scopes, name)->0 == scopes[scope_index(scopes, name)][name],
        -1 <= scope_index(scopes, name) < scopes.len(),
        forall|k: int| scope_index(scopes, name) < k < scopes.len() ==> !(#[trigger] scopes[k]).contains_key(name),
    decreases scopes.len(),
{
    if scopes.len() == 0 {
    } else if scopes.last().contains_key(name) {
    } else {
        let d = scopes.drop_last();
        lemma_scope_lookup_index(d, name);
        assert(scope_lookup(scopes, name) == scope_lookup(d, name));
        assert(scope_index(scopes, name) == scope_index(d, name));
        assert forall|k: int| scope_index(scopes, name) < k < scopes.len() implies !(
        #[trigger] scopes[k]).contains_key(name) by {
            if k < scopes.len() - 1 {
                assert(scopes[k] == d[k]);
            }
        }
    }
}

/// Resolves variables through the nested scopes of a function and the
/// modules outside it, and type-checks assignments to them.
#[derive(Debug)]
pub struct Resolver {
    /// A monotonically increasing counter of variable declarations
    count: usize,
    /// A stack of nested scopes *inside* a function
    scopes: Vec<Scope>,
    /// The tree of modules *outside* a function
    modules: Module,
    /// Describes the current path
    module: Vec<String>,
    /// A stack of types
    types: Vec<Type>,
}

/// The variable `print` is bound to in a new resolver.
pub open spec fn print_builtin() -> VariableView {
    VariableView {
        index: 0,
        status: StatusView::Initialized(
            TypeView::Fn { args: seq![TypeView::ManyInferred], ret: Box::new(TypeView::Empty) },
        ),
        mutable: false,
    }
}

impl Resolver {
    /// The number of declarations made so far.
    pub closed spec fn spec_count(&self) -> nat {
        self.count as nat
    }

    /// The variables of each scope, outermost first.
    pub closed spec fn spec_scopes(&self) -> Seq<Map<Seq<char>, VariableView>> {
        Seq::new(self.scopes@.len(), |i: int| self.scopes@[i].spec_vars())
    }

    /// The number of declarations made in each scope, outermost first.
    pub closed spec fn spec_scope_counts(&self) -> Seq<nat> {
        Seq::new(self.scopes@.len(), |i: int| self.scopes@[i].spec_count())
    }

    /// The module tree.
    pub closed spec fn spec_modules(&self) -> ModuleView {
        self.modules@
    }

    /// The path of the current module.
    pub closed spec fn spec_path(&self) -> Seq<Seq<char>> {
        path_view(self.module@)
    }

    /// The stack of types.
    pub closed spec fn spec_types(&self) -> Seq<TypeView> {
        views(self.types@)
    }

    /// What `name` resolves to: the innermost scope that binds it, or else
    /// the modules along the current path.
    pub open spec fn spec_get(&self, name: Seq<char>) -> Option<VariableView> {
        match scope_lookup(self.spec_scopes(), name) {
            Some(v) => Some(v),
            None => resolve_var(self.spec_modules(), name, self.spec_path()),
        }
    }

    /// A resolver with one empty scope, at the top module, in which the
    /// builtin `print` is bound.
    pub fn new() -> (r: Self)
        ensures
            r.spec_count() == 0,
            r.spec_scopes() == seq![Map::<Seq<char>, VariableView>::empty()],
            r.spec_scope_counts() == seq![0nat],
            r.spec_modules() == (ModuleView {
                modules: Map::empty(),
                vars: Map::empty().insert("print"@, print_builtin()),
            }),
            r.spec_path() == Seq::<Seq<char>>::empty(),
            r.spec_types() == Seq::<TypeView>::empty(),
    {
        let mut scopes: Vec<Scope> = Vec::new();
        scopes.push(Scope::new());
        let mut new = Resolver {
            count: 0,
            scopes,
            modules: Module::new(),
            module: Vec::new(),
            types: Vec::new(),
        };
        let args = [Type::ManyInferred];
        let res = new.register_builtin("print", &[], &args, Type::Empty);
        proof {
            assert(path_view(Seq::<String>::empty()) =~= Seq::<Seq<char>>::empty());
            assert(args@.len() == 1);
            assert(args@[0]@ == TypeView::ManyInferred);
            assert(args@.drop_last() =~= Seq::<Type>::empty());
            assert(views(Seq::<Type>::empty()) =~= Seq::<TypeView>::empty());
            assert(views(args@) =~= seq![TypeView::ManyInferred]);
            assert(new.spec_scopes() =~= seq![Map::<Seq<char>, VariableView>::empty()]);
            assert(new.spec_scope_counts() =~= seq![0nat]);
            assert(new.spec_path() =~= Seq::<Seq<char>>::empty());
            assert(new.spec_types() =~= Seq::<TypeView>::empty());
        }
        new
    }

    /// Register a built-in function into the module at `path`, replacing any
    /// variable of that name there.
    pub fn register_builtin(&mut self, name: &str, path: &[String], args: &[Type], ret: Type) -> (r: TyResult<()>)
        ensures
            final(self).spec_count() == old(self).spec_count(),
            final(self).spec_scopes() == old(self).spec_scopes(),
            final(self).spec_scope_counts() == old(self).spec_scope_counts(),
            final(self).spec_path() == old(self).spec_path(),
            final(self).spec_types() == old(self).spec_types(),
            match module_at(old(self).spec_modules(), path_view(path@)) {
                Some(sub) => r is Ok && final(self).spec_modules() == with_module_at(
                    old(self).spec_modules(),
                    path_view(path@),
                    ModuleView {
                        vars: sub.vars.insert(
                            name@,
                            VariableView {
                                index: 0,
                                status: StatusView::Initialized(
                                    TypeView::Fn { args: views(args@), ret: Box::new(ret@) },
                                ),
                                mutable: false,
                            },
                        ),
                        ..sub
                    },
                ),
                None => r matches Err(Error::Unbound(n)) && n@ == missing_name(
                    old(self).spec_modules(),
                    path_view(path@),
                ) && final(self).spec_modules() == old(self).spec_modules(),
            },
    {
        let var = Variable {
            index: 0,
            status: Status::Initialized(Type::Fn { args: clone_types(args), ret: Box::new(ret) }),
            mutable: false,
        };
        self.modules.edit_at(path, Edit::Replace { name: name.to_owned(), var })
    }

    /// Enters a Module Scope: binds a new, empty module in the current one,
    /// and makes it current.
    pub fn enter_module(&mut self, name: &str) -> (r: TyResult<()>)
        ensures
            final(self).spec_count() == old(self).spec_count(),
            final(self).spec_scopes() == old(self).spec_scopes(),
            final(self).spec_scope_counts() == old(self).spec_scope_counts(),
            final(self).spec_types() == old(self).spec_types(),
            match module_at(old(self).spec_modules(), old(self).spec_path()) {
                Some(sub) => {
                    &&& final(self).spec_modules() == with_module_at(
                        old(self).spec_modules(),
                        old(self).spec_path(),
                        ModuleView {
                            modules: sub.modules.insert(
                                name@,
                                ModuleView { modules: Map::empty(), vars: Map::empty() },
                            ),
                            ..sub
                        },
                    )
                    &&& if sub.modules.contains_key(name@) {
                        r matches Err(Error::NonUniqueInModule(n)) && n@ == name@ + "(module)"@
                            && final(self).spec_path() == old(self).spec_path()
                    } else {
                        r is Ok && final(self).spec_path() == old(self).spec_path().push(name@)
                    }
                },
                None => r matches Err(Error::Unbound(n)) && n@ == missing_name(
                    old(self).spec_modules(),
                    old(self).spec_path(),
                ) && final(self).spec_modules() == old(self).spec_modules() && final(self).spec_path()
                    == old(self).spec_path(),
            },
    {
        let res = self.modules.edit_at(
            &self.module,
            Edit::Module { name: name.to_owned(), module: Module::new() },
        );
        match res {
            Ok(()) => {
                let ghost before = self.module@;
                self.module.push(name.to_owned());
                assert(path_view(self.module@) =~= path_view(before).push(name@));
                Ok(())
            },
            Err(e) => Err(e),
        }
    }

    /// Exits a Module Scope; modules stay registered.
    pub fn exit_module(&mut self) -> (r: Option<String>)
        ensures
            final(self).spec_count() == old(self).spec_count(),
            final(self).spec_scopes() == old(self).spec_scopes(),
            final(self).spec_scope_counts() == old(self).spec_scope_counts(),
            final(self).spec_types() == old(self).spec_types(),
            final(self).spec_modules() == old(self).spec_modules(),
            old(self).spec_path().len() == 0 ==> r is None && final(self).spec_path() == old(self).spec_path(),
            old(self).spec_path().len() > 0 ==> (r matches Some(n) && n@ == old(self).spec_path().last()
                && final(self).spec_path() == old(self).spec_path().drop_last()),
    {
        let r = self.module.pop();
        proof {
            if old(self).module@.len() > 0 {
                assert(path_view(self.module@) =~= path_view(old(self).module@).drop_last());
            }
        }
        r
    }

    /// Enters a Block Scope
    pub fn enter_scope(&mut self)
        ensures
            final(self).spec_count() == old(self).spec_count(),
            final(self).spec_scopes() == old(self).spec_scopes().push(Map::empty()),
            final(self).spec_scope_counts() == old(self).spec_scope_counts().push(0),
            final(self).spec_modules() == old(self).spec_modules(),
            final(self).spec_path() == old(self).spec_path(),
            final(self).spec_types() == old(self).spec_types(),
    {
        self.scopes.push(Scope::new());
        assert(self.spec_scopes() =~= old(self).spec_scopes().push(Map::empty()));
        assert(self.spec_scope_counts() =~= old(self).spec_scope_counts().push(0));
    }

    /// Exits a Block Scope, returning the number of declarations made in it
    pub fn exit_scope(&mut self) -> (r: Option<usize>)
        ensures
            final(self).spec_count() == old(self).spec_count(),
            final(self).spec_modules() == old(self).spec_modules(),
            final(self).spec_path() == old(self).spec_path(),
            final(self).spec_types() == old(self).spec_types(),
            old(self).spec_scopes().len() == 0 ==> r is None && final(self).spec_scopes() == old(
                self,
            ).spec_scopes() && final(self).spec_scope_counts() == old(self).spec_scope_counts(),
            old(self).spec_scopes().len() > 0 ==> (r matches Some(c) && c == old(self).spec_scope_counts().last()
                && final(self).spec_scopes() == old(self).spec_scopes().drop_last()
                && final(self).spec_scope_counts() == old(self).spec_scope_counts().drop_last()),
    {
        let r = match self.scopes.pop() {
            Some(scope) => Some(scope.count),
            None => None,
        };
        proof {
            if old(self).scopes@.len() > 0 {
                assert(self.spec_scopes() =~= old(self).spec_scopes().drop_last());
                assert(self.spec_scope_counts() =~= old(self).spec_scope_counts().drop_last());
            }
        }
        r
    }

    /// The innermost scope that binds `name`.
    fn find_scope(&self, name: &str) -> (r: Option<usize>)
        ensures
            match r {
                Some(i) => i == scope_index(self.spec_scopes(), name@) && i < self.scopes@.len()
                    && scope_lookup(self.spec_scopes(), name@) is Some,
                None => scope_lookup(self.spec_scopes(), name@) is None,
            },
    {
        let ghost sc = self.spec_scopes();
        let mut i: usize = self.scopes.len();
        assert(sc.take(i as int) =~= sc);
        while i > 0
            invariant
                i <= self.scopes@.len(),
                sc == self.spec_scopes(),
                scope_lookup(sc, name@) == scope_lookup(sc.take(i as int), name@),
                scope_index(sc, name@) == scope_index(sc.take(i as int), name@),
            decreases i,
        {
            assert(sc.take(i as int).drop_last() =~= sc.take(i - 1));
            if self.scopes[i - 1].get(name).is_some() {
                return Some(i - 1);
            }
            i = i - 1;
        }
        None
    }

    /// Resolves a name to a [Variable]
    pub fn get(&self, name: &str) -> (r: TyResult<&Variable>)
        ensures
            match self.spec_get(name@) {
                Some(v) => r matches Ok(x) && x@ == v,
                None => r matches Err(Error::Unbound(n)) && n@ == name@,
            },
    {
        proof {
            lemma_scope_lookup_index(self.spec_scopes(), name@);
        }
        match self.find_scope(name) {
            Some(i) => match self.scopes[i].get(name) {
                Some(v) => Ok(v),
                None => {
                    assert(false);
                    Err(Error::Unbound(name.to_owned()))
                },
            },
            None => match self.modules.resolve_get(name, &self.module) {
                Some(v) => Ok(v),
                None => Err(Error::Unbound(name.to_owned())),
            },
        }
    }

    /// Binds a name in the current lexical scope, and returns the index of
    /// the new variable.
    pub fn insert_scope(&mut self, name: &str, mutable: bool) -> (r: TyResult<usize>)
        requires
            old(self).spec_scopes().len() > 0,
            old(self).spec_count() < usize::MAX,
            old(self).spec_scope_counts().last() < usize::MAX,
        ensures
            r == Ok::<usize, Error>((old(self).spec_count() + 1) as usize),
            final(self).spec_count() == old(self).spec_count() + 1,
            final(self).spec_scopes() == old(self).spec_scopes().update(
                old(self).spec_scopes().len() - 1,
                old(self).spec_scopes().last().insert(
                    name@,
                    VariableView { index: (old(self).spec_count() + 1) as usize, status: StatusView::Bound, mutable },
                ),
            ),
            final(self).spec_scope_counts() == old(self).spec_scope_counts().update(
                old(self).spec_scope_counts().len() - 1,
                old(self).spec_scope_counts().last() + 1,
            ),
            final(self).spec_modules() == old(self).spec_modules(),
            final(self).spec_path() == old(self).spec_path(),
            final(self).spec_types() == old(self).spec_types(),
    {
        self.count = self.count + 1;
        let n = self.scopes.len();
        let mut scope = self.scopes.pop().unwrap();
        scope.insert(name, self.count, mutable);
        self.scopes.push(scope);
        assert(self.spec_scopes() =~= old(self).spec_scopes().update(
            n - 1,
            old(self).spec_scopes().last().insert(
                name@,
                VariableView { index: self.count, status: StatusView::Bound, mutable },
            ),
        ));
        assert(self.spec_scope_counts() =~= old(self).spec_scope_counts().update(
            n - 1,
            old(self).spec_scope_counts().last() + 1,
        ));
        Ok(self.count)
    }

    /// Binds a name in the current module, and returns the index of the new
    /// variable. The declaration is counted even when it fails.
    pub fn insert_module(&mut self, name: &str, mutable: bool) -> (r: TyResult<usize>)
        requires
            old(self).spec_count() < usize::MAX,
        ensures
            final(self).spec_count() == old(self).spec_count() + 1,
            final(self).spec_scopes() == old(self).spec_scopes(),
            final(self).spec_scope_counts() == old(self).spec_scope_counts(),
            final(self).spec_path() == old(self).spec_path(),
            final(self).spec_types() == old(self).spec_types(),
            match module_at(old(self).spec_modules(), old(self).spec_path()) {
                Some(sub) => {
                    let var = VariableView {
                        index: (old(self).spec_count() + 1) as usize,
                        status: StatusView::Bound,
                        mutable,
                    };
                    &&& final(self).spec_modules() == with_module_at(
                        old(self).spec_modules(),
                        old(self).spec_path(),
                        ModuleView { vars: sub.vars.insert(name@, var), ..sub },
                    )
                    &&& if sub.vars.contains_key(name@) {
                        r matches Err(Error::NonUniqueInModule(n)) && n@ == name@
                    } else {
                        r == Ok::<usize, Error>(var.index)
                    }
                },
                None => r matches Err(Error::Unbound(n)) && n@ == missing_name(
                    old(self).spec_modules(),
                    old(self).spec_path(),
                ) && final(self).spec_modules() == old(self).spec_modules(),
            },
    {
        self.count = self.count + 1;
        let res = self.modules.edit_at(
            &self.module,
            Edit::Var { name: name.to_owned(), index: self.count, mutable },
        );
        match res {
            Ok(()) => Ok(self.count),
            Err(e) => Err(e),
        }
    }

    /// Performs scoped type-checking of an assignment to `name`: on the
    /// variable of the innermost scope that binds it, or else on the
    /// variable of the current module.
    pub fn assign(&mut self, name: &str, ty: &Type) -> (r: TyResult<()>)
        ensures
            final(self).spec_count() == old(self).spec_count(),
            final(self).spec_scope_counts() == old(self).spec_scope_counts(),
            final(self).spec_path() == old(self).spec_path(),
            final(self).spec_types() == old(self).spec_types(),
            match scope_lookup(old(self).spec_scopes(), name@) {
                Some(v) => {
                    let i = scope_index(old(self).spec_scopes(), name@);
                    &&& final(self).spec_modules() == old(self).spec_modules()
                    &&& final(self).spec_scopes().len() == old(self).spec_scopes().len()
                    &&& final(self).spec_scopes()[i].contains_key(name@)
                    &&& final(self).spec_scopes() == old(self).spec_scopes().update(
                        i,
                        old(self).spec_scopes()[i].insert(name@, final(self).spec_scopes()[i][name@]),
                    )
                    &&& assign_step(v, name@, ty@, final(self).spec_scopes()[i][name@], r)
                },
                None => {
                    &&& final(self).spec_scopes() == old(self).spec_scopes()
                    &&& match module_at(old(self).spec_modules(), old(self).spec_path()) {
                        Some(sub) => {
                            &&& module_at(final(self).spec_modules(), old(self).spec_path()) is Some
                            &&& edit_step(
                                sub,
                                EditView::Assign { name: name@, ty: ty@ },
                                module_at(final(self).spec_modules(), old(self).spec_path())->0,
                                r,
                            )
                            &&& final(self).spec_modules() == with_module_at(
                                old(self).spec_modules(),
                                old(self).spec_path(),
                                module_at(final(self).spec_modules(), old(self).spec_path())->0,
                            )
                        },
                        None => r matches Err(Error::Unbound(n)) && n@ == missing_name(
                            old(self).spec_modules(),
                            old(self).spec_path(),
                        ) && final(self).spec_modules() == old(self).spec_modules(),
                    }
                },
            },
    {
        proof {
            lemma_scope_lookup_index(self.spec_scopes(), name@);
        }
        match self.find_scope(name) {
            Some(i) => {
                let ghost sc = self.spec_scopes();
                let ghost counts = self.spec_scope_counts();
                let mut scope = self.scopes.remove(i);
                let res = scope.assign(name, ty);
                self.scopes.insert(i, scope);
                assert(self.spec_scope_counts() =~= counts);
                assert(self.spec_scopes() =~= sc.update(
                    i as int,
                    sc[i as int].insert(name@, self.spec_scopes()[i as int][name@]),
                ));
                match res {
                    Some(res) => res,
                    None => {
                        assert(false);
                        Err(Error::Unbound(name.to_owned()))
                    },
                }
            },
            None => self.modules.edit_at(
                &self.module,
                Edit::Assign { name: name.to_owned(), ty: ty.clone() },
            ),
        }
    }

    /// Pushes the empty type onto the stack of types.
    pub fn visit_empty(&mut self) -> (r: TyResult<()>)
        ensures
            r is Ok,
            final(self).spec_types() == old(self).spec_types().push(TypeView::Empty),
            final(self).spec_count() == old(self).spec_count(),
            final(self).spec_scopes() == old(self).spec_scopes(),
            final(self).spec_scope_counts() == old(self).spec_scope_counts(),
            final(self).spec_modules() == old(self).spec_modules(),
            final(self).spec_path() == old(self).spec_path(),
    {
        let ghost before = self.types@;
        self.types.push(Type::Empty);
        assert(self.types@.drop_last() =~= before);
        assert(self.types@.last()@ == TypeView::Empty);
        assert(views(self.types@) == views(before).push(TypeView::Empty));
        Ok(())
    }
}

} // verus!
verus! {

/// Things with nested scopes that can be entered and exited.
pub trait Scoped: Sized {
    /// How many scopes deep this is.
    spec fn scope_depth(&self) -> nat;

    fn enter_scope(&mut self)
        ensures
            final(self).scope_depth() == old(self).scope_depth() + 1,
    ;

    fn exit_scope(&mut self)
        ensures
            old(self).scope_depth() > 0 ==> final(self).scope_depth() == old(self).scope_depth() - 1,
            old(self).scope_depth() == 0 ==> final(self).scope_depth() == 0,
    ;
}

impl Scoped for Resolver {
    open spec fn scope_depth(&self) -> nat {
        self.spec_scopes().len()
    }

    fn enter_scope(&mut self) {
        Resolver::enter_scope(self);
    }

    fn exit_scope(&mut self) {
        Resolver::exit_scope(self);
    }
}

/// Holds a [Scoped] value one scope deeper than it was given, until
/// [Guard::finish] exits that scope.
pub struct Guard<T: Scoped> {
    inner: T,
}

impl Resolver {
    /// Enters a scope, which the [Guard] exits when finished.
    pub fn frame(self) -> (r: Guard<Resolver>)
        ensures
            r.inner().scope_depth() == self.scope_depth() + 1,
    {
        Guard::new(self)
    }
}

impl<T: Scoped> Guard<T> {
    /// The value, one scope deeper.
    pub closed spec fn inner(&self) -> T {
        self.inner
    }

    /// Enters a scope of `inner`.
    pub fn new(inner: T) -> (r: Self)
        ensures
            r.inner().scope_depth() == inner.scope_depth() + 1,
    {
        let mut inner = inner;
        inner.enter_scope();
        Guard { inner }
    }

    /// The value, one scope deeper.
    pub fn get(&self) -> (r: &T)
        ensures
            *r == self.inner(),
    {
        &self.inner
    }

    /// The value, one scope deeper, to change.
    pub fn get_mut(&mut self) -> (r: &mut T)
        ensures
            *r == old(self).inner(),
            final(self).inner() == *final(r),
    {
        &mut self.inner
    }

    /// Exits the scope that was entered, giving the value back.
    pub fn finish(self) -> (r: T)
        ensures
            self.inner().scope_depth() > 0 ==> r.scope_depth() == self.inner().scope_depth() - 1,
    {
        let mut inner = self.inner;
        inner.exit_scope();
        inner
    }
}

} // verus!
verus! {

/// Every variable bound in the scopes has an index of at most `count`.
pub open spec fn indices_at_most(scopes: Seq<Map<Seq<char>, VariableView>>, count: nat) -> bool {
    forall|i: int, n: Seq<char>|
        0 <= i < scopes.len() && #[trigger] scopes[i].contains_key(n) ==> scopes[i][n].index <= count
}

/// Each `let` binds a different variable: binding a name in the innermost
/// scope gives it an index above every index bound so far, and keeps every
/// index at most the new count.
pub proof fn law_binding_gives_fresh_index(
    scopes: Seq<Map<Seq<char>, VariableView>>,
    count: nat,
    name: Seq<char>,
    mutable: bool,
)
    requires
        scopes.len() > 0,
        count < usize::MAX,
        indices_at_most(scopes, count),
    ensures
        forall|i: int, n: Seq<char>|
            0 <= i < scopes.len() && #[trigger] scopes[i].contains_key(n) ==> scopes[i][n].index < count + 1,
        indices_at_most(
            scopes.update(
                scopes.len() - 1,
                scopes.last().insert(
                    name,
                    VariableView { index: (count + 1) as usize, status: StatusView::Bound, mutable },
                ),
            ),
            count + 1,
        ),
{
    let v = VariableView { index: (count + 1) as usize, status: StatusView::Bound, mutable };
    let s2 = scopes.update(scopes.len() - 1, scopes.last().insert(name, v));
    assert forall|i: int, n: Seq<char>| 0 <= i < s2.len() && #[trigger] s2[i].contains_key(n) implies s2[i][n].index
        <= count + 1 by {
        if i == scopes.len() - 1 && n == name {
        } else {
            assert(scopes[i].contains_key(n));
        }
    }
}

/// A name bound in the innermost scope resolves to the variable just bound.
pub proof fn law_lookup_after_binding(
    scopes: Seq<Map<Seq<char>, VariableView>>,
    name: Seq<char>,
    var: VariableView,
)
    requires
        scopes.len() > 0,
    ensures
        scope_lookup(scopes.update(scopes.len() - 1, scopes.last().insert(name, var)), name) == Some(var),
{
}

/// The scopes, per-scope counts and variable count after binding each of
/// `binds` (name and mutability) in the innermost scope, one after another,
/// as [Resolver::insert_scope] does.
pub open spec fn bind_all(
    scopes: Seq<Map<Seq<char>, VariableView>>,
    counts: Seq<nat>,
    count: nat,
    binds: Seq<(Seq<char>, bool)>,
) -> (Seq<Map<Seq<char>, VariableView>>, Seq<nat>, nat)
    decreases binds.len(),
{
    if binds.len() == 0 {
        (scopes, counts, count)
    } else {
        let (s, c, n) = bind_all(scopes, counts, count, binds.drop_last());
        let (name, mutable) = binds.last();
        (
            s.update(
                s.len() - 1,
                s.last().insert(name, VariableView { index: (n + 1) as usize, status: StatusView::Bound, mutable }),
            ),
            c.update(c.len() - 1, c.last() + 1),
            n + 1,
        )
    }
}

/// Entering a scope ([Resolver::enter_scope]), binding any number of names
/// in it ([Resolver::insert_scope], k times) and exiting it
/// ([Resolver::exit_scope]): the exit reports the k bindings, the scope
/// stack and its counts are again what they were before the scope was
/// entered (so no name bound inside resolves through it any more), and the
/// bindings got the indices `count + 1` to `count + k`, in order.
pub proof fn law_exit_scope_after_bindings(
    scopes: Seq<Map<Seq<char>, VariableView>>,
    counts: Seq<nat>,
    count: nat,
    binds: Seq<(Seq<char>, bool)>,
)
    ensures
        ({
            let (s, c, n) = bind_all(scopes.push(Map::empty()), counts.push(0), count, binds);
            &&& s.len() == scopes.len() + 1
            &&& c.len() == counts.len() + 1
            &&& c.last() == binds.len()
            &&& s.drop_last() == scopes
            &&& c.drop_last() == counts
            &&& n == count + binds.len()
        }),
        forall|j: int|
            0 <= j < binds.len() ==> #[trigger] bind_all(scopes.push(Map::empty()), counts.push(0), count, binds.take(j)).2
                == count + j,
    decreases binds.len(),
{
    if binds.len() > 0 {
        law_exit_scope_after_bindings(scopes, counts, count, binds.drop_last());
        let (s, c, n) = bind_all(scopes.push(Map::empty()), counts.push(0), count, binds.drop_last());
        let (name, mutable) = binds.last();
        let v = VariableView { index: (n + 1) as usize, status: StatusView::Bound, mutable };
        assert(s.update(s.len() - 1, s.last().insert(name, v)).drop_last() =~= s.drop_last());
        assert(c.update(c.len() - 1, c.last() + 1).drop_last() =~= c.drop_last());
        assert forall|j: int| 0 <= j < binds.len() implies #[trigger] bind_all(
            scopes.push(Map::empty()),
            counts.push(0),
            count,
            binds.take(j),
        ).2 == count + j by {
            if j < binds.len() - 1 {
                assert(binds.take(j) =~= binds.drop_last().take(j));
            } else {
                assert(binds.take(j) =~= binds.drop_last());
            }
        }
    } else {
        assert(scopes.push(Map::empty()).drop_last() =~= scopes);
        assert(counts.push(0).drop_last() =~= counts);
    }
}

/// Exiting a scope undoes entering it, whatever was bound in it.
pub proof fn law_exit_scope_undoes_enter(
    scopes: Seq<Map<Seq<char>, VariableView>>,
    inner: Map<Seq<char>, VariableView>,
)
    ensures
        scopes.push(inner).drop_last() == scopes,
{
    assert(scopes.push(inner).drop_last() =~= scopes);
}

/// A scope that shadows a name hides the outer variable until it is
/// exited: names it does not bind resolve as before.
pub proof fn law_scope_hides_only_its_names(
    scopes: Seq<Map<Seq<char>, VariableView>>,
    inner: Map<Seq<char>, VariableView>,
    name: Seq<char>,
)
    ensures
        inner.contains_key(name) ==> scope_lookup(scopes.push(inner), name) == Some(inner[name]),
        !inner.contains_key(name) ==> scope_lookup(scopes.push(inner), name) == scope_lookup(scopes, name),
{
    assert(scopes.push(inner).drop_last() =~= scopes);
}

/// Assigning a value of some type to a variable that was only bound
/// initializes it with that type; assigning again with the same type
/// succeeds only if it is mutable.
pub proof fn law_assign_initializes(v: VariableView, name: Seq<char>, ty: TypeView, after: VariableView, r: TyResult<()>, again: VariableView, r2: TyResult<()>)
    requires
        v.status == StatusView::Bound,
        assign_step(v, name, ty, after, r),
        assign_step(after, name, ty, again, r2),
    ensures
        r is Ok,
        after.status == StatusView::Initialized(ty),
        r2 is Ok <==> v.mutable,
        again == after,
{
}

} // verus!
verus! {

/// The text of a type.
pub open spec fn type_text(t: TypeView) -> Seq<char>
    decreases t, 0nat,
{
    match t {
        TypeView::Empty => "Empty"@,
        TypeView::Int => "integer"@,
        TypeView::Bool => "bool"@,
        TypeView::Char => "char"@,
        TypeView::String => "String"@,
        TypeView::Float => "float"@,
        TypeView::Fn { args, ret } => "fn ("@ + type_list_text(args) + ")"@ + if *ret == TypeView::Empty {
            Seq::empty()
        } else {
            " -> "@ + type_text(*ret)
        },
        TypeView::Range(t) => type_text(*t) + ".."@ + type_text(*t),
        TypeView::Tuple(ts) => "("@ + type_list_text(ts) + ")"@,
        TypeView::Never => "!"@,
        TypeView::Inferred => "_"@,
        TypeView::Generic(name) => "<"@ + name + ">"@,
        TypeView::ManyInferred => ".."@,
    }
}

/// The texts of the types, separated by `, `.
pub open spec fn type_list_text(s: Seq<TypeView>) -> Seq<char>
    decreases s, 1nat,
{
    if s.len() == 0 {
        Seq::empty()
    } else if s.len() == 1 {
        type_text(s[0])
    } else {
        type_list_text(s.drop_last()) + ", "@ + type_text(s.last())
    }
}

fn write_type_list(out: &mut String, v: &Vec<Type>)
    ensures
        final(out)@ == old(out)@ + type_list_text(views(v@)),
    decreases v, 1nat,
{
    proof {
        lemma_views(v@);
    }
    let ghost mid = out@;
    let mut i: usize = 0;
    assert(views(v@).take(0) =~= Seq::<TypeView>::empty());
    assert(mid + Seq::<char>::empty() =~= mid);
    while i < v.len()
        invariant
            i <= v@.len(),
            views(v@).len() == v@.len(),
            forall|k: int| 0 <= k < v@.len() ==> #[trigger] views(v@)[k] == v@[k]@,
            out@ == mid + type_list_text(views(v@).take(i as int)),
        decreases v@.len() - i,
    {
        if i > 0 {
            crate::text::string_append(out, ", ");
        }
        assert(decreases_to!(v => v@[i as int]));
        write_type(out, &v[i]);
        proof {
            let t = views(v@).take(i + 1);
            assert(t.drop_last() =~= views(v@).take(i as int));
            assert(t.last() == v@[i as int]@);
            assert(out@ =~= mid + type_list_text(t));
        }
        i = i + 1;
    }
    assert(views(v@).take(v@.len() as int) =~= views(v@));
}

fn write_type(out: &mut String, t: &Type)
    ensures
        final(out)@ == old(out)@ + type_text(t@),
    decreases t, 0nat,
{
    match t {
        Type::Empty => crate::text::string_append(out, "Empty"),
        Type::Int => crate::text::string_append(out, "integer"),
        Type::Bool => crate::text::string_append(out, "bool"),
        Type::Char => crate::text::string_append(out, "char"),
        Type::String => crate::text::string_append(out, "String"),
        Type::Float => crate::text::string_append(out, "float"),
        Type::Fn { args, ret } => {
            crate::text::string_append(out, "fn (");
            write_type_list(out, args);
            crate::text::string_append(out, ")");
            if !ret.is_empty() {
                crate::text::string_append(out, " -> ");
                write_type(out, ret);
            } else {
                assert(out@ + Seq::<char>::empty() =~= out@);
            }
        },
        Type::Range(inner) => {
            write_type(out, inner);
            crate::text::string_append(out, "..");
            write_type(out, inner);
        },
        Type::Tuple(ts) => {
            crate::text::string_append(out, "(");
            write_type_list(out, ts);
            crate::text::string_append(out, ")");
        },
        Type::Never => crate::text::string_append(out, "!"),
        Type::Inferred => crate::text::string_append(out, "_"),
        Type::Generic(name) => {
            crate::text::string_append(out, "<");
            crate::text::string_append(out, name.as_str());
            crate::text::string_append(out, ">");
        },
        Type::ManyInferred => crate::text::string_append(out, ".."),
    }
    assert(out@ =~= old(out)@ + type_text(t@));
}

impl Type {
    /// The type, for people.
    pub fn to_text(&self) -> (r: String)
        ensures
            r@ == type_text(self@),
    {
        let mut out = String::new();
        write_type(&mut out, self);
        out
    }
}

impl Error {
    pub open spec fn spec_text(self) -> Seq<char> {
        match self {
            Error::StackUnderflow => "Stack underflow in Resolver"@,
            Error::TypeMismatch { want, got } => "Type error: "@ + type_text(want@) + " != "@
                + type_text(got@),
            Error::ImmutableAssign(name, index) => "Cannot mutate immutable variable "@ + name@
                + "(#"@ + crate::text::decimal(index as nat) + ")"@,
            Error::Uninitialized(name, index) => name@ + "(#"@ + crate::text::decimal(index as nat)
                + ") was accessed before initialization"@,
            Error::Unbound(name) => name@ + " not bound before use."@,
            Error::NonUniqueInModule(name) => "Name "@ + name@ + " not unique at module scope!"@,
        }
    }

    /// The error, for people.
    pub fn to_text(&self) -> (r: String)
        ensures
            r@ == self.spec_text(),
    {
        let mut out = String::new();
        match self {
            Error::StackUnderflow => crate::text::string_append(&mut out, "Stack underflow in Resolver"),
            Error::TypeMismatch { want, got } => {
                crate::text::string_append(&mut out, "Type error: ");
                write_type(&mut out, want);
                crate::text::string_append(&mut out, " != ");
                write_type(&mut out, got);
            },
            Error::ImmutableAssign(name, index) => {
                crate::text::string_append(&mut out, "Cannot mutate immutable variable ");
                crate::text::string_append(&mut out, name.as_str());
                crate::text::string_append(&mut out, "(#");
                crate::text::write_decimal(&mut out, *index as u128);
                crate::text::string_append(&mut out, ")");
            },
            Error::Uninitialized(name, index) => {
                crate::text::string_append(&mut out, name.as_str());
                crate::text::string_append(&mut out, "(#");
                crate::text::write_decimal(&mut out, *index as u128);
                crate::text::string_append(&mut out, ") was accessed before initialization");
            },
            Error::Unbound(name) => {
                crate::text::string_append(&mut out, name.as_str());
                crate::text::string_append(&mut out, " not bound before use.");
            },
            Error::NonUniqueInModule(name) => {
                crate::text::string_append(&mut out, "Name ");
                crate::text::string_append(&mut out, name.as_str());
                crate::text::string_append(&mut out, " not unique at module scope!");
            },
        }
        assert(out@ =~= self.spec_text());
        out
    }
}

} // verus!
