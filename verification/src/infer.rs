//! The type graph of the Conlang type checker, and the inference engine's
//! operations on it: pruning instance chains, the occurs check, setting a
//! type variable, unification, the search for type variables, deep copies
//! of generic types, and inference over expressions.
//!
//! Types live in a [TypeTable], each at a `usize` handle. A type may be an
//! instance of (an alias for) another, so chains of instances form while
//! types are unified. Nothing stops the graph from growing cycles (an
//! inferred type may be set to a type that contains it), and then pruning,
//! the occurs check, unification, deep copies and inference need not end:
//! each is stated over a spec that is given a step budget, and is admitted
//! exactly on the inputs where some budget is enough (any larger budget
//! gives the same result). The search for type variables always ends.
use vstd::prelude::*;
use crate::typeck::{Expr, Literal, Op, Primitive, Visibility};
use std::collections::HashSet;

verus! {

// ---------------------------------------------------------------------
// Types
// ---------------------------------------------------------------------

/// A user-defined aromatic data type. Names are interned symbols.
#[derive(Debug, PartialEq, Eq)]
pub enum Adt {
    /// A union-like enum type
    Enum(Vec<(usize, usize)>),
    /// A structural product type with named members
    Struct(Vec<(usize, Visibility, usize)>),
    /// A structural product type with unnamed members
    TupleStruct(Vec<(Visibility, usize)>),
    /// A structural product type of neither named nor unnamed members
    UnitStruct,
    /// A union type
    Union(Vec<(usize, usize)>),
}

/// A node in the type graph.
#[derive(Debug, PartialEq, Eq)]
pub enum TypeKind {
    /// A type that is yet to be inferred
    Inferred,
    /// A type variable, to be monomorphized
    Variable,
    /// An alias for an already-defined type
    Instance(usize),
    /// A primitive type, built-in to the compiler
    Primitive(Primitive),
    /// A user-defined aromatic data type
    Adt(Adt),
    /// A reference to an already-defined type: &T
    Ref(usize),
    /// A raw pointer to an already-defined type
    Ptr(usize),
    /// A contiguous view of dynamically sized memory
    Slice(usize),
    /// A contiguous view of statically sized memory
    Array(usize, usize),
    /// A tuple of existing types
    Tuple(Vec<usize>),
    /// A function which accepts multiple inputs and produces an output
    FnSig { args: usize, rety: usize },
    /// An untyped module
    Module,
}

/// What an [Adt] is, with its member lists as sequences.
pub enum AdtView {
    Enum(Seq<(usize, usize)>),
    Struct(Seq<(usize, Visibility, usize)>),
    TupleStruct(Seq<(Visibility, usize)>),
    UnitStruct,
    Union(Seq<(usize, usize)>),
}

/// What a [TypeKind] is, with its lists as sequences.
pub enum KindView {
    Inferred,
    Variable,
    Instance(usize),
    Primitive(Primitive),
    Adt(AdtView),
    Ref(usize),
    Ptr(usize),
    Slice(usize),
    Array(usize, usize),
    Tuple(Seq<usize>),
    FnSig { args: usize, rety: usize },
    Module,
}

impl View for Adt {
    type V = AdtView;

    open spec fn view(&self) -> AdtView {
        match self {
            Adt::Enum(v) => AdtView::Enum(v@),
            Adt::Struct(v) => AdtView::Struct(v@),
            Adt::TupleStruct(v) => AdtView::TupleStruct(v@),
            Adt::UnitStruct => AdtView::UnitStruct,
            Adt::Union(v) => AdtView::Union(v@),
        }
    }
}

impl View for TypeKind {
    type V = KindView;

    open spec fn view(&self) -> KindView {
        match self {
            TypeKind::Inferred => KindView::Inferred,
            TypeKind::Variable => KindView::Variable,
            TypeKind::Instance(h) => KindView::Instance(*h),
            TypeKind::Primitive(p) => KindView::Primitive(*p),
            TypeKind::Adt(a) => KindView::Adt(a@),
            TypeKind::Ref(h) => KindView::Ref(*h),
            TypeKind::Ptr(h) => KindView::Ptr(*h),
            TypeKind::Slice(h) => KindView::Slice(*h),
            TypeKind::Array(h, n) => KindView::Array(*h, *n),
            TypeKind::Tuple(v) => KindView::Tuple(v@),
            TypeKind::FnSig { args, rety } => KindView::FnSig { args: *args, rety: *rety },
            TypeKind::Module => KindView::Module,
        }
    }
}

/// An error produced during type inference
#[derive(Clone, Copy, Debug, PartialEq, Eq, Structural)]
pub enum InferenceError {
    /// The two types cannot be made the same
    Mismatch(usize, usize),
    /// The first type would have to contain itself
    Recursive(usize, usize),
    /// The size of an array, in the scope given, has no constant value
    ConstEval(usize),
}

/// What the type table holds: the type of each node, if it has one, and
/// each node's parent.
pub struct TableView {
    pub kinds: Seq<Option<KindView>>,
    pub parents: Seq<usize>,
    /// The anonymous types made so far, each with its handle.
    pub anon: Seq<(KindView, usize)>,
    /// The node marked for each [LangItem], by [lang_index].
    pub lang: Seq<Option<usize>>,
}

/// The language items that inference looks up.
#[derive(Clone, Copy, Debug, PartialEq, Eq, Structural)]
pub enum LangItem {
    Bool,
    Char,
    Str,
    I32,
    Never,
}

pub open spec fn lang_index(i: LangItem) -> int {
    match i {
        LangItem::Bool => 0,
        LangItem::Char => 1,
        LangItem::Str => 2,
        LangItem::I32 => 3,
        LangItem::Never => 4,
    }
}

/// The node marked for a language item, if one was.
pub open spec fn lang_of(t: TableView, i: LangItem) -> Option<usize> {
    if lang_index(i) < t.lang.len() {
        t.lang[lang_index(i)]
    } else {
        None
    }
}

/// The type of a node; nodes outside the table have none.
pub open spec fn kind_of(t: TableView, h: usize) -> Option<KindView> {
    if h < t.kinds.len() {
        t.kinds[h as int]
    } else {
        None
    }
}

/// The parent of a node, if it is in the table.
pub open spec fn parent_of(t: TableView, h: usize) -> Option<usize> {
    if h < t.parents.len() {
        Some(t.parents[h as int])
    } else {
        None
    }
}

/// The table with a node's type set.
pub open spec fn with_kind(t: TableView, h: usize, k: KindView) -> TableView {
    TableView { kinds: t.kinds.update(h as int, Some(k)), ..t }
}

// ---------------------------------------------------------------------
// The operations, as specs with a step budget (`None`: the budget ran out,
// or the operation panics)
// ---------------------------------------------------------------------

/// Prune: follows a chain of instances to the type that defines it, and
/// points every instance on the way straight at that type.
pub open spec fn sp_prune(t: TableView, h: usize, fuel: nat) -> Option<(usize, TableView)>
    decreases fuel,
{
    if fuel == 0 {
        None
    } else {
        match kind_of(t, h) {
            Some(KindView::Instance(n)) => match sp_prune(t, n, (fuel - 1) as nat) {
                Some((r, t2)) => Some((r, with_kind(t2, h, KindView::Instance(r)))),
                None => None,
            },
            _ => Some((h, t)),
        }
    }
}

/// The defining usage of a type: the end of its chain of instances,
/// without changing anything.
pub open spec fn sp_def_usage(t: TableView, h: usize, fuel: nat) -> Option<usize>
    decreases fuel,
{
    if fuel == 0 {
        None
    } else {
        match kind_of(t, h) {
            Some(KindView::Instance(n)) => sp_def_usage(t, n, (fuel - 1) as nat),
            _ => Some(h),
        }
    }
}

/// The handles an [Adt] holds, in order.
pub open spec fn adt_handles(a: AdtView) -> Seq<usize> {
    match a {
        AdtView::Enum(v) => v.map_values(|p: (usize, usize)| p.1),
        AdtView::Struct(v) => v.map_values(|p: (usize, Visibility, usize)| p.2),
        AdtView::TupleStruct(v) => v.map_values(|p: (Visibility, usize)| p.1),
        AdtView::UnitStruct => Seq::empty(),
        AdtView::Union(v) => v.map_values(|p: (usize, usize)| p.1),
    }
}

/// Whether type `this` occurs in type `other`: it is `other`, or a part of
/// it other than what a reference or pointer points at.
pub open spec fn sp_occurs(t: TableView, this: usize, other: usize, fuel: nat) -> Option<bool>
    decreases fuel, 0nat, 0nat,
{
    if this == other {
        Some(true)
    } else if fuel == 0 {
        None
    } else {
        let f = (fuel - 1) as nat;
        match kind_of(t, other) {
            None => Some(false),
            Some(k) => match k {
                KindView::Instance(o) => sp_occurs(t, this, o, f),
                KindView::Adt(a) => sp_occurs_any(t, this, adt_handles(a), 0, f),
                KindView::Slice(o) => sp_occurs(t, this, o, f),
                KindView::Array(o, _) => sp_occurs(t, this, o, f),
                KindView::Tuple(hs) => sp_occurs_any(t, this, hs, 0, f),
                KindView::FnSig { args, rety } => sp_occurs_any(t, this, seq![args, rety], 0, f),
                _ => Some(false),
            },
        }
    }
}

/// Whether `this` occurs in any of `hs` from index `i` on, checked in order.
pub open spec fn sp_occurs_any(t: TableView, this: usize, hs: Seq<usize>, i: int, fuel: nat) -> Option<bool>
    decreases fuel, 1nat, (hs.len() - i) as nat,
{
    if i < 0 || i >= hs.len() {
        Some(false)
    } else {
        match sp_occurs(t, this, hs[i], fuel) {
            Some(true) => Some(true),
            Some(false) => sp_occurs_any(t, this, hs, i + 1, fuel),
            None => None,
        }
    }
}

/// Sets type `to` to be an instance of `of`: an inferred type takes a copy
/// of `of`'s type; a variable, or an unsized integer or float, becomes an
/// instance of `of`. Any other type panics (`None`).
pub open spec fn sp_set_instance(t: TableView, to: usize, of: usize) -> Option<TableView> {
    match kind_of(t, to) {
        Some(KindView::Inferred) => match kind_of(t, of) {
            Some(k) => Some(with_kind(t, to, k)),
            None => Some(t),
        },
        Some(KindView::Variable) => Some(with_kind(t, to, KindView::Instance(of))),
        Some(KindView::Primitive(Primitive::Float)) => Some(with_kind(t, to, KindView::Instance(of))),
        Some(KindView::Primitive(Primitive::Integer)) => Some(with_kind(t, to, KindView::Instance(of))),
        _ => None,
    }
}

pub open spec fn vis_code(v: Visibility) -> u8 {
    match v {
        Visibility::Public => 0,
        Visibility::Private => 1,
    }
}

/// The members of an [Adt] as (key, handle) pairs: two members unify only
/// when their keys (name, visibility) agree.
pub open spec fn adt_keyed(a: AdtView) -> Seq<((usize, u8), usize)> {
    match a {
        AdtView::Enum(v) => v.map_values(|p: (usize, usize)| ((p.0, 0u8), p.1)),
        AdtView::Struct(v) => v.map_values(
            |p: (usize, Visibility, usize)| ((p.0, vis_code(p.1)), p.2),
        ),
        AdtView::TupleStruct(v) => v.map_values(|p: (Visibility, usize)| ((0usize, vis_code(p.0)), p.1)),
        AdtView::UnitStruct => Seq::empty(),
        AdtView::Union(v) => v.map_values(|p: (usize, usize)| ((p.0, 0u8), p.1)),
    }
}

/// Handles with no keys to compare.
pub open spec fn unkeyed(hs: Seq<usize>) -> Seq<((usize, u8), usize)> {
    hs.map_values(|h: usize| ((0usize, 0u8), h))
}

/// Unifies two types: prunes both, then unifies their definitions.
pub open spec fn sp_unify(t: TableView, this: usize, other: usize, fuel: nat) -> Option<(Result<(), InferenceError>, TableView)>
    decreases fuel, 1nat, 0nat,
{
    match sp_prune(t, this, fuel) {
        None => None,
        Some((ah, t1)) => match sp_prune(t1, other, fuel) {
            None => None,
            Some((bh, t2)) => if ah == bh {
                Some((Ok(()), t2))
            } else {
                match (kind_of(t2, ah), kind_of(t2, bh)) {
                    (Some(a), Some(b)) => sp_unify_kinds(t2, ah, bh, a, b, fuel),
                    _ => Some((Err(InferenceError::Mismatch(ah, bh)), t2)),
                }
            },
        },
    }
}

/// Sets `to` as an instance of `of` and succeeds.
pub open spec fn sp_set_ok(t: TableView, to: usize, of: usize) -> Option<(Result<(), InferenceError>, TableView)> {
    match sp_set_instance(t, to, of) {
        Some(t2) => Some((Ok(()), t2)),
        None => None,
    }
}

/// Whether the enum `ah` has `bh` as the defining usage of a member.
pub open spec fn sp_enum_has(t: TableView, hs: Seq<usize>, i: int, bh: usize, fuel: nat) -> Option<bool>
    decreases (hs.len() - i) as nat,
{
    if i < 0 || i >= hs.len() {
        Some(false)
    } else {
        match sp_def_usage(t, hs[i], fuel) {
            None => None,
            Some(d) => if d == bh {
                Some(true)
            } else {
                sp_enum_has(t, hs, i + 1, bh, fuel)
            },
        }
    }
}

pub open spec fn is_prim(k: KindView, p: Primitive) -> bool {
    k == KindView::Primitive(p)
}

/// Unifies two distinct pruned types `ah` and `bh` whose definitions are
/// `a` and `b`, rule by rule in order.
pub open spec fn sp_unify_kinds(
    t: TableView,
    ah: usize,
    bh: usize,
    a: KindView,
    b: KindView,
    fuel: nat,
) -> Option<(Result<(), InferenceError>, TableView)>
    decreases fuel, 0nat, 0nat,
{
    let mismatch = Some((Err(InferenceError::Mismatch(ah, bh)), t));
    if fuel == 0 {
        None
    } else {
        let f = (fuel - 1) as nat;
        if a == KindView::Variable && b == KindView::Variable {
            sp_set_ok(t, ah, bh)
        } else if a == KindView::Inferred {
            sp_set_ok(t, ah, bh)
        } else if b == KindView::Inferred {
            sp_unify(t, bh, ah, f)
        } else if a == KindView::Variable {
            mismatch
        } else if a is Instance {
            if b is Instance {
                match sp_occurs(t, a->Instance_0, b->Instance_0, f) {
                    None => None,
                    Some(false) => sp_set_ok(t, a->Instance_0, b->Instance_0),
                    Some(true) => Some((Err(InferenceError::Recursive(ah, bh)), t)),
                }
            } else {
                Some((Err(InferenceError::Recursive(ah, bh)), t))
            }
        } else if (is_prim(a, Primitive::Float) && is_prim(b, Primitive::Integer)) || (is_prim(
            a,
            Primitive::Integer,
        ) && is_prim(b, Primitive::Float)) {
            mismatch
        } else if is_prim(a, Primitive::Integer) && b is Primitive && b->Primitive_0.spec_is_integer() {
            sp_set_ok(t, ah, bh)
        } else if is_prim(a, Primitive::Float) && b is Primitive && b->Primitive_0.spec_is_float() {
            sp_set_ok(t, ah, bh)
        } else if b == KindView::Variable || b is Instance || (a is Primitive && (is_prim(
            b,
            Primitive::Integer,
        ) || is_prim(b, Primitive::Float))) {
            sp_unify(t, bh, ah, f)
        } else {
            sp_unify_shapes(t, ah, bh, a, b, f)
        }
    }
}

/// The rules of unification for compound types, after the rules for
/// variables and primitives.
pub open spec fn sp_unify_shapes(
    t: TableView,
    ah: usize,
    bh: usize,
    a: KindView,
    b: KindView,
    f: nat,
) -> Option<(Result<(), InferenceError>, TableView)>
    decreases f, 3nat, 0nat,
{
    let mismatch = Some((Err(InferenceError::Mismatch(ah, bh)), t));
    match (a, b) {
        (KindView::Adt(AdtView::Enum(ia)), KindView::Adt(AdtView::Enum(ib))) if ia.len() == ib.len() =>
            sp_unify_from(t, ah, bh, adt_keyed(a->Adt_0), adt_keyed(b->Adt_0), 0, f),
        (KindView::Adt(AdtView::Enum(en)), KindView::Adt(_)) => match parent_of(t, bh) {
            None => mismatch,
            Some(p) => if ah != p {
                Some((Err(InferenceError::Mismatch(ah, p)), t))
            } else {
                match sp_enum_has(t, adt_handles(a->Adt_0), 0, bh, f) {
                    None => None,
                    Some(true) => Some((Ok(()), t)),
                    Some(false) => mismatch,
                }
            },
        },
        (KindView::Adt(AdtView::Struct(ia)), KindView::Adt(AdtView::Struct(ib))) if ia.len() == ib.len() =>
            sp_unify_from(t, ah, bh, adt_keyed(a->Adt_0), adt_keyed(b->Adt_0), 0, f),
        (KindView::Adt(AdtView::TupleStruct(ia)), KindView::Adt(AdtView::TupleStruct(ib))) if ia.len()
            == ib.len() => sp_unify_from(t, ah, bh, adt_keyed(a->Adt_0), adt_keyed(b->Adt_0), 0, f),
        (KindView::Adt(AdtView::Union(ia)), KindView::Adt(AdtView::Union(ib))) if ia.len() == ib.len() => None,
        (KindView::Ref(x), KindView::Ref(y)) => sp_unify(t, x, y, f),
        (KindView::Ptr(x), KindView::Ptr(y)) => sp_unify(t, x, y, f),
        (KindView::Slice(x), KindView::Slice(y)) => sp_unify(t, x, y, f),
        (KindView::Array(x, _), KindView::Slice(y)) => sp_unify(t, x, y, f),
        (KindView::Slice(_), KindView::Array(_, _)) => sp_unify(t, bh, ah, f),
        (KindView::Array(x, sx), KindView::Array(y, sy)) if sx == sy => sp_unify(t, x, y, f),
        (KindView::Tuple(xs), KindView::Tuple(ys)) => if xs.len() != ys.len() {
            mismatch
        } else {
            sp_unify_from(t, ah, bh, unkeyed(xs), unkeyed(ys), 0, f)
        },
        (KindView::FnSig { args: a1, rety: r1 }, KindView::FnSig { args: a2, rety: r2 }) =>
            sp_unify_from(t, ah, bh, unkeyed(seq![a1, r1]), unkeyed(seq![a2, r2]), 0, f),
        _ => if is_prim(a, Primitive::Never) || is_prim(b, Primitive::Never) {
            Some((Ok(()), t))
        } else if a == b {
            Some((Ok(()), t))
        } else {
            mismatch
        },
    }
}

/// Unifies the members of two lists pairwise from index `i` on, stopping at
/// the first error; members whose keys differ are a mismatch of the whole.
pub open spec fn sp_unify_from(
    t: TableView,
    ah: usize,
    bh: usize,
    xs: Seq<((usize, u8), usize)>,
    ys: Seq<((usize, u8), usize)>,
    i: int,
    fuel: nat,
) -> Option<(Result<(), InferenceError>, TableView)>
    decreases fuel, 2nat, (xs.len() - i) as nat,
{
    if i < 0 || i >= xs.len() || i >= ys.len() {
        Some((Ok(()), t))
    } else if xs[i].0 != ys[i].0 {
        Some((Err(InferenceError::Mismatch(ah, bh)), t))
    } else {
        match sp_unify(t, xs[i].1, ys[i].1, fuel) {
            None => None,
            Some((Err(e), t2)) => Some((Err(e), t2)),
            Some((Ok(_), t2)) => sp_unify_from(t2, ah, bh, xs, ys, i + 1, fuel),
        }
    }
}

/// Whether type `ty` has an unbound type variable in it, visiting each
/// node at most once: `seen` holds the nodes visited so far, and comes
/// back with the nodes this search visited added.
pub open spec fn sp_generic(t: TableView, ty: usize, seen: Set<usize>, fuel: nat) -> Option<(bool, Set<usize>)>
    decreases fuel, 0nat, 0nat,
{
    if fuel == 0 {
        None
    } else if seen.contains(ty) {
        Some((false, seen))
    } else {
        let s1 = seen.insert(ty);
        let f = (fuel - 1) as nat;
        match kind_of(t, ty) {
            None => Some((false, s1)),
            Some(k) => match k {
                KindView::Inferred => Some((false, s1)),
                KindView::Variable => Some((true, s1)),
                KindView::Array(h, _) => sp_generic(t, h, s1, f),
                KindView::Instance(h) => sp_generic(t, h, s1, f),
                KindView::Primitive(_) => Some((false, s1)),
                KindView::Adt(a) => sp_generic_any(t, adt_handles(a), 0, s1, f),
                KindView::Ref(h) => sp_generic(t, h, s1, f),
                KindView::Ptr(h) => sp_generic(t, h, s1, f),
                KindView::Slice(h) => sp_generic(t, h, s1, f),
                KindView::Tuple(hs) => sp_generic_any(t, hs, 0, s1, f),
                KindView::FnSig { args, rety } => sp_generic_any(t, seq![args, rety], 0, s1, f),
                KindView::Module => Some((false, s1)),
            },
        }
    }
}

/// Whether any of `hs` from index `i` on is generic, checked in order.
pub open spec fn sp_generic_any(t: TableView, hs: Seq<usize>, i: int, seen: Set<usize>, fuel: nat) -> Option<(bool, Set<usize>)>
    decreases fuel, 1nat, (hs.len() - i) as nat,
{
    if i < 0 || i >= hs.len() {
        Some((false, seen))
    } else {
        match sp_generic(t, hs[i], seen, fuel) {
            None => None,
            Some((true, s)) => Some((true, s)),
            Some((false, s)) => sp_generic_any(t, hs, i + 1, s, fuel),
        }
    }
}

/// Whether type `ty` has an unbound type variable in it.
pub open spec fn sp_is_generic(t: TableView, ty: usize, fuel: nat) -> Option<bool> {
    match sp_generic(t, ty, Set::empty(), fuel) {
        Some((b, _)) => Some(b),
        None => None,
    }
}

/// The first handle recorded for an anonymous type.
pub open spec fn anon_lookup(anon: Seq<(KindView, usize)>, k: KindView) -> Option<usize>
    decreases anon.len(),
{
    if anon.len() == 0 {
        None
    } else if anon[0].0 == k {
        Some(anon[0].1)
    } else {
        anon_lookup(anon.drop_first(), k)
    }
}

/// A new node under the root, with the given type.
pub open spec fn push_kind(t: TableView, k: KindView) -> TableView {
    TableView { kinds: t.kinds.push(Some(k)), parents: t.parents.push(0), ..t }
}

/// A new inferred type, under the root.
pub open spec fn sp_new_inferred(t: TableView) -> (usize, TableView) {
    (t.kinds.len() as usize, push_kind(t, KindView::Inferred))
}

/// The handle of the anonymous type `k`: the one made before, if any, or
/// else a new node under the root, recorded for `k`.
pub open spec fn sp_anon_type(t: TableView, k: KindView) -> (usize, TableView) {
    match anon_lookup(t.anon, k) {
        Some(h) => (h, t),
        None => {
            let h = t.kinds.len() as usize;
            let t2 = push_kind(t, k);
            (h, TableView { anon: t.anon.push((k, h)), ..t2 })
        },
    }
}

/// The members of an [Adt] with their handles replaced, in order.
pub open spec fn adt_with_handles(a: AdtView, hs: Seq<usize>) -> AdtView {
    match a {
        AdtView::Enum(v) => AdtView::Enum(Seq::new(v.len(), |i: int| (v[i].0, hs[i]))),
        AdtView::Struct(v) => AdtView::Struct(Seq::new(v.len(), |i: int| (v[i].0, v[i].1, hs[i]))),
        AdtView::TupleStruct(v) => AdtView::TupleStruct(Seq::new(v.len(), |i: int| (v[i].0, hs[i]))),
        AdtView::UnitStruct => AdtView::UnitStruct,
        AdtView::Union(v) => AdtView::Union(Seq::new(v.len(), |i: int| (v[i].0, hs[i]))),
    }
}

/// Makes a deep copy of a type expression: types that are not generic are
/// shared, unbound variables become new inferred types, and every other
/// generic type is rebuilt as an anonymous type over copies of its parts.
pub open spec fn sp_deep_clone(t: TableView, ty: usize, fuel: nat) -> Option<(usize, TableView)>
    decreases fuel, 0nat, 0nat,
{
    if fuel == 0 {
        None
    } else {
        match sp_is_generic(t, ty, fuel) {
            None => None,
            Some(false) => Some((ty, t)),
            Some(true) => match kind_of(t, ty) {
                None => Some((ty, t)),
                Some(k) => sp_clone_kind(t, ty, k, (fuel - 1) as nat),
            },
        }
    }
}

/// Rebuilds a type with one part copied.
pub open spec fn sp_clone_one(t: TableView, h: usize, f: nat, make: spec_fn(usize) -> KindView) -> Option<(usize, TableView)>
    decreases f, 1nat, 1nat,
{
    match sp_deep_clone(t, h, f) {
        Some((h2, t2)) => Some(sp_anon_type(t2, make(h2))),
        None => None,
    }
}

/// The deep copy of generic type `ty`, whose type is `k`.
pub open spec fn sp_clone_kind(t: TableView, ty: usize, k: KindView, f: nat) -> Option<(usize, TableView)>
    decreases f, 2nat, 0nat,
{
    match k {
        KindView::Variable => Some(sp_new_inferred(t)),
        KindView::Array(h, s) => sp_clone_one(t, h, f, |x: usize| KindView::Array(x, s)),
        KindView::Instance(h) => sp_clone_one(t, h, f, |x: usize| KindView::Instance(x)),
        KindView::Adt(a) => match a {
            AdtView::UnitStruct => Some((ty, t)),
            _ => match sp_clone_list(t, adt_handles(a), 0, Seq::empty(), f) {
                Some((hs, t2)) => Some(sp_anon_type(t2, KindView::Adt(adt_with_handles(a, hs)))),
                None => None,
            },
        },
        KindView::Ref(h) => sp_clone_one(t, h, f, |x: usize| KindView::Ref(x)),
        KindView::Ptr(h) => sp_clone_one(t, h, f, |x: usize| KindView::Ptr(x)),
        KindView::Slice(h) => sp_clone_one(t, h, f, |x: usize| KindView::Slice(x)),
        KindView::Tuple(hs) => match sp_clone_list(t, hs, 0, Seq::empty(), f) {
            Some((hs2, t2)) => Some(sp_anon_type(t2, KindView::Tuple(hs2))),
            None => None,
        },
        KindView::FnSig { args, rety } => match sp_deep_clone(t, args, f) {
            None => None,
            Some((a2, t2)) => match sp_deep_clone(t2, rety, f) {
                None => None,
                Some((r2, t3)) => Some(sp_anon_type(t3, KindView::FnSig { args: a2, rety: r2 })),
            },
        },
        _ => Some((ty, t)),
    }
}

/// Deep copies of `hs` from index `i` on, in order, after the copies `acc`
/// made so far.
pub open spec fn sp_clone_list(t: TableView, hs: Seq<usize>, i: int, acc: Seq<usize>, f: nat) -> Option<(Seq<usize>, TableView)>
    decreases f, 1nat, (hs.len() - i) as nat + 2,
{
    if i < 0 || i >= hs.len() {
        Some((acc, t))
    } else {
        match sp_deep_clone(t, hs[i], f) {
            None => None,
            Some((h2, t2)) => sp_clone_list(t2, hs, i + 1, acc.push(h2), f),
        }
    }
}

// ---------------------------------------------------------------------
// Inference over expressions
// ---------------------------------------------------------------------

pub type Outcome = Option<(Result<usize, InferenceError>, TableView)>;

/// A new node under `parent`, with no type.
pub open spec fn push_node(t: TableView, parent: usize) -> (usize, TableView) {
    (t.kinds.len() as usize, TableView { kinds: t.kinds.push(None), parents: t.parents.push(parent), ..t })
}

/// The unit type: the anonymous empty tuple.
pub open spec fn sp_unit(t: TableView) -> Outcome {
    let (h, t2) = sp_anon_type(t, KindView::Tuple(Seq::empty()));
    Some((Ok(h), t2))
}

/// A language item; looking up one that was never marked panics.
pub open spec fn sp_lang(t: TableView, i: LangItem) -> Outcome {
    match lang_of(t, i) {
        Some(h) => Some((Ok(h), t)),
        None => None,
    }
}

/// Unifies `a` with `b`, then gives `then`.
pub open spec fn sp_unify_then(t: TableView, a: usize, b: usize, then: usize, fuel: nat) -> Outcome {
    match sp_unify(t, a, b, fuel) {
        None => None,
        Some((Err(e), t2)) => Some((Err(e), t2)),
        Some((Ok(_), t2)) => Some((Ok(then), t2)),
    }
}

/// The type of an expression: the literals, the empty expression, `use`
/// and the operators have one; the other kinds are not modelled (`None`).
pub open spec fn sp_infer(t: TableView, at: usize, e: Expr, fuel: nat) -> Outcome
    decreases e, 0nat,
{
    match e {
        Expr::Omitted => sp_unit(t),
        Expr::Lit(l) => match l {
            Literal::Bool(_) => sp_lang(t, LangItem::Bool),
            Literal::Char(_) => sp_lang(t, LangItem::Char),
            Literal::Int(_) => {
                let (h, t2) = push_node(t, at);
                Some((Ok(h), with_kind(t2, h, KindView::Primitive(Primitive::Integer))))
            },
            Literal::Str(_) => sp_lang(t, LangItem::Str),
        },
        Expr::Use => sp_unit(t),
        Expr::Op(op, args) => sp_infer_op(t, at, op, args@, fuel),
        _ => None,
    }
}

/// Infers `args[i..end]` in order, collecting their types after `acc`;
/// stops at the first error.
pub open spec fn sp_infer_each(
    t: TableView,
    at: usize,
    args: Seq<Expr>,
    i: int,
    end: int,
    acc: Seq<usize>,
    fuel: nat,
) -> Option<(Result<Seq<usize>, InferenceError>, TableView)>
    decreases args, (end - i) as nat,
{
    if i < 0 || i >= end || end > args.len() {
        Some((Ok(acc), t))
    } else {
        match sp_infer(t, at, args[i], fuel) {
            None => None,
            Some((Err(e), t2)) => Some((Err(e), t2)),
            Some((Ok(h), t2)) => sp_infer_each(t2, at, args, i + 1, end, acc.push(h), fuel),
        }
    }
}

/// Infers each of `args[i..]` in order and unifies `out` with its type.
pub open spec fn sp_infer_unify_each(t: TableView, at: usize, args: Seq<Expr>, i: int, out: usize, fuel: nat) -> Option<(Result<(), InferenceError>, TableView)>
    decreases args, (args.len() - i) as nat,
{
    if i < 0 || i >= args.len() {
        Some((Ok(()), t))
    } else {
        match sp_infer(t, at, args[i], fuel) {
            None => None,
            Some((Err(e), t2)) => Some((Err(e), t2)),
            Some((Ok(h), t2)) => match sp_unify(t2, out, h, fuel) {
                None => None,
                Some((Err(e), t3)) => Some((Err(e), t3)),
                Some((Ok(_), t3)) => sp_infer_unify_each(t3, at, args, i + 1, out, fuel),
            },
        }
    }
}

/// Infers two operands in order, unifies their types, and gives the left
/// one's type (or the boolean type, or the unit type, as `give` says).
pub open spec fn sp_infer_pair(t: TableView, at: usize, args: Seq<Expr>, give: int, fuel: nat) -> Outcome
    decreases args, 1nat,
{
    if args.len() != 2 {
        None
    } else {
    match sp_infer(t, at, args[0], fuel) {
        None => None,
        Some((Err(e), t1)) => Some((Err(e), t1)),
        Some((Ok(lt), t1)) => match sp_infer(t1, at, args[1], fuel) {
            None => None,
            Some((Err(e), t2)) => Some((Err(e), t2)),
            Some((Ok(rt), t2)) => match sp_unify(t2, lt, rt, fuel) {
                None => None,
                Some((Err(e), t3)) => Some((Err(e), t3)),
                Some((Ok(_), t3)) => if give == 0 {
                    Some((Ok(lt), t3))
                } else if give == 1 {
                    sp_lang(t3, LangItem::Bool)
                } else {
                    sp_unit(t3)
                },
            },
        },
    }
    }
}

pub open spec fn is_arith(op: Op) -> bool {
    op == Op::Mul || op == Op::Div || op == Op::Rem || op == Op::Add || op == Op::Sub
}

pub open spec fn is_bitwise(op: Op) -> bool {
    op == Op::And || op == Op::Xor || op == Op::Or
}

pub open spec fn is_compare(op: Op) -> bool {
    op == Op::Lt || op == Op::Leq || op == Op::Eq || op == Op::Neq || op == Op::Geq || op == Op::Gt
}

pub open spec fn is_logic(op: Op) -> bool {
    op == Op::LogAnd || op == Op::LogXor || op == Op::LogOr
}

/// The type of an operator expression with operands `args`, rule by rule.
/// `None` where the original panics (unfinished or malformed forms) or
/// relies on break and return sets, which are not modelled.
pub open spec fn sp_infer_op(t: TableView, at: usize, op: Op, args: Seq<Expr>, fuel: nat) -> Outcome
    decreases args, args.len() + 3,
{
    let n = args.len();
    if op == Op::Do && n == 0 {
        sp_unit(t)
    } else if op == Op::Do {
        match sp_infer_each(t, at, args, 0, n - 1, Seq::empty(), fuel) {
            None => None,
            Some((Err(e), t2)) => Some((Err(e), t2)),
            Some((Ok(_), t2)) => sp_infer(t2, at, args[n - 1], fuel),
        }
    } else if op == Op::Block && n == 0 {
        sp_unit(t)
    } else if op == Op::Block && n == 1 {
        sp_infer(t, at, args[0], fuel)
    } else if op == Op::Array {
        let (out, t1) = sp_new_inferred(t);
        match sp_infer_unify_each(t1, at, args, 0, out, fuel) {
            None => None,
            Some((Err(e), t2)) => Some((Err(e), t2)),
            Some((Ok(_), t2)) => {
                let (h, t3) = sp_anon_type(t2, KindView::Array(out, #[verifier::truncate] (n as usize)));
                Some((Ok(h), t3))
            },
        }
    } else if op == Op::ArRep && n == 2 {
        if !args[1].evaluable() {
            None
        } else {
            match args[1].spec_value() {
                Some(v) if v.spec_uint() is Some => match sp_infer(t, at, args[0], fuel) {
                    None => None,
                    Some((Err(e), t2)) => Some((Err(e), t2)),
                    Some((Ok(ty), t2)) => {
                        let (h, t3) = sp_anon_type(t2, KindView::Array(ty, #[verifier::truncate] (v.spec_uint()->0 as usize)));
                        Some((Ok(h), t3))
                    },
                },
                _ => Some((Err(InferenceError::ConstEval(at)), t)),
            }
        }
    } else if op == Op::Group && n == 1 {
        sp_infer(t, at, args[0], fuel)
    } else if op == Op::Tuple && n == 0 {
        sp_unit(t)
    } else if op == Op::Tuple {
        match sp_infer_each(t, at, args, 0, n as int, Seq::empty(), fuel) {
            None => None,
            Some((Err(e), t2)) => Some((Err(e), t2)),
            Some((Ok(tys), t2)) => {
                let (h, t3) = sp_anon_type(t2, KindView::Tuple(tys));
                Some((Ok(h), t3))
            },
        }
    } else if (op == Op::MetaInner || op == Op::MetaOuter) && n == 2 {
        sp_infer(t, at, args[1], fuel)
    } else if (op == Op::Pub || op == Op::Const || op == Op::Static) && n == 1 {
        sp_infer(t, at, args[0], fuel)
    } else if op == Op::If && n >= 2 {
        let (scope, t1) = push_node(t, at);
        match sp_infer(t1, scope, args[0], fuel) {
            None => None,
            Some((Err(e), t2)) => Some((Err(e), t2)),
            Some((Ok(cond), t2)) => match lang_of(t2, LangItem::Bool) {
                None => None,
                Some(b) => match sp_unify(t2, b, cond, fuel) {
                    None => None,
                    Some((Err(e), t3)) => Some((Err(e), t3)),
                    Some((Ok(_), t3)) => match sp_infer(t3, scope, args[1], fuel) {
                        None => None,
                        Some((Err(e), t4)) => Some((Err(e), t4)),
                        Some((Ok(pass), t4)) => {
                            let fail = if n == 3 {
                                let (s2, t5) = push_node(t4, at);
                                sp_infer(t5, s2, args[2], fuel)
                            } else {
                                sp_unit(t4)
                            };
                            match fail {
                                None => None,
                                Some((Err(e), t6)) => Some((Err(e), t6)),
                                Some((Ok(f), t6)) => sp_unify_then(t6, pass, f, pass, fuel),
                            }
                        },
                    },
                },
            },
        }
    } else if op == Op::Continue && n == 0 {
        sp_lang(t, LangItem::Never)
    } else if op == Op::Identity && n == 1 {
        sp_infer(t, at, args[0], fuel)
    } else if op == Op::Refer && n == 1 {
        match sp_infer(t, at, args[0], fuel) {
            None => None,
            Some((Err(e), t2)) => Some((Err(e), t2)),
            Some((Ok(ty), t2)) => {
                let (h, t3) = sp_anon_type(t2, KindView::Ref(ty));
                Some((Ok(h), t3))
            },
        }
    } else if (is_arith(op) || is_bitwise(op) || is_logic(op)) && n == 2 {
        sp_infer_pair(t, at, args, 0, fuel)
    } else if is_compare(op) && n == 2 {
        sp_infer_pair(t, at, args, 1, fuel)
    } else if op == Op::Assign && n == 2 {
        sp_infer_pair(t, at, args, 2, fuel)
    } else if (op == Op::Shl || op == Op::Shr) && n == 2 {
        match sp_infer(t, at, args[0], fuel) {
            None => None,
            Some((Err(e), t1)) => Some((Err(e), t1)),
            Some((Ok(lt), t1)) => match sp_infer(t1, at, args[1], fuel) {
                None => None,
                Some((Err(e), t2)) => Some((Err(e), t2)),
                Some((Ok(rt), t2)) => match lang_of(t2, LangItem::I32) {
                    None => None,
                    Some(i) => sp_unify_then(t2, rt, i, lt, fuel),
                },
            },
        }
    } else {
        None
    }
}

// ---------------------------------------------------------------------
// A larger budget changes no result
// ---------------------------------------------------------------------

pub proof fn lemma_prune_fuel(t: TableView, h: usize, f1: nat, f2: nat)
    requires
        f1 <= f2,
        sp_prune(t, h, f1) is Some,
    ensures
        sp_prune(t, h, f2) == sp_prune(t, h, f1),
    decreases f1,
{
    if let Some(KindView::Instance(n)) = kind_of(t, h) {
        lemma_prune_fuel(t, n, (f1 - 1) as nat, (f2 - 1) as nat);
    }
}

pub proof fn lemma_def_usage_fuel(t: TableView, h: usize, f1: nat, f2: nat)
    requires
        f1 <= f2,
        sp_def_usage(t, h, f1) is Some,
    ensures
        sp_def_usage(t, h, f2) == sp_def_usage(t, h, f1),
    decreases f1,
{
    if let Some(KindView::Instance(n)) = kind_of(t, h) {
        lemma_def_usage_fuel(t, n, (f1 - 1) as nat, (f2 - 1) as nat);
    }
}

pub proof fn lemma_occurs_fuel(t: TableView, this: usize, other: usize, f1: nat, f2: nat)
    requires
        f1 <= f2,
        sp_occurs(t, this, other, f1) is Some,
    ensures
        sp_occurs(t, this, other, f2) == sp_occurs(t, this, other, f1),
    decreases f1, 0nat, 0nat,
{
    if this != other {
        let g1 = (f1 - 1) as nat;
        let g2 = (f2 - 1) as nat;
        match kind_of(t, other) {
            None => {},
            Some(k) => match k {
                KindView::Instance(o) => lemma_occurs_fuel(t, this, o, g1, g2),
                KindView::Adt(a) => lemma_occurs_any_fuel(t, this, adt_handles(a), 0, g1, g2),
                KindView::Slice(o) => lemma_occurs_fuel(t, this, o, g1, g2),
                KindView::Array(o, _) => lemma_occurs_fuel(t, this, o, g1, g2),
                KindView::Tuple(hs) => lemma_occurs_any_fuel(t, this, hs, 0, g1, g2),
                KindView::FnSig { args, rety } => lemma_occurs_any_fuel(t, this, seq![args, rety], 0, g1, g2),
                _ => {},
            },
        }
    }
}

pub proof fn lemma_occurs_any_fuel(t: TableView, this: usize, hs: Seq<usize>, i: int, f1: nat, f2: nat)
    requires
        f1 <= f2,
        sp_occurs_any(t, this, hs, i, f1) is Some,
    ensures
        sp_occurs_any(t, this, hs, i, f2) == sp_occurs_any(t, this, hs, i, f1),
    decreases f1, 1nat, (hs.len() - i) as nat,
{
    if 0 <= i < hs.len() {
        lemma_occurs_fuel(t, this, hs[i], f1, f2);
        if sp_occurs(t, this, hs[i], f1) == Some(false) {
            lemma_occurs_any_fuel(t, this, hs, i + 1, f1, f2);
        }
    }
}

pub proof fn lemma_enum_has_fuel(t: TableView, hs: Seq<usize>, i: int, bh: usize, f1: nat, f2: nat)
    requires
        f1 <= f2,
        sp_enum_has(t, hs, i, bh, f1) is Some,
    ensures
        sp_enum_has(t, hs, i, bh, f2) == sp_enum_has(t, hs, i, bh, f1),
    decreases (hs.len() - i) as nat,
{
    if 0 <= i < hs.len() {
        lemma_def_usage_fuel(t, hs[i], f1, f2);
        if sp_def_usage(t, hs[i], f1) != Some(bh) {
            lemma_enum_has_fuel(t, hs, i + 1, bh, f1, f2);
        }
    }
}

pub proof fn lemma_unify_fuel(t: TableView, this: usize, other: usize, f1: nat, f2: nat)
    requires
        f1 <= f2,
        sp_unify(t, this, other, f1) is Some,
    ensures
        sp_unify(t, this, other, f2) == sp_unify(t, this, other, f1),
    decreases f1, 1nat, 0nat,
{
    lemma_prune_fuel(t, this, f1, f2);
    let (ah, t1) = sp_prune(t, this, f1)->0;
    lemma_prune_fuel(t1, other, f1, f2);
    let (bh, t2) = sp_prune(t1, other, f1)->0;
    if ah != bh {
        if let (Some(a), Some(b)) = (kind_of(t2, ah), kind_of(t2, bh)) {
            lemma_unify_kinds_fuel(t2, ah, bh, a, b, f1, f2);
        }
    }
}

pub proof fn lemma_unify_kinds_fuel(
    t: TableView,
    ah: usize,
    bh: usize,
    a: KindView,
    b: KindView,
    f1: nat,
    f2: nat,
)
    requires
        f1 <= f2,
        sp_unify_kinds(t, ah, bh, a, b, f1) is Some,
    ensures
        sp_unify_kinds(t, ah, bh, a, b, f2) == sp_unify_kinds(t, ah, bh, a, b, f1),
    decreases f1, 0nat, 0nat,
{
    let g1 = (f1 - 1) as nat;
    let g2 = (f2 - 1) as nat;
    if a == KindView::Variable && b == KindView::Variable {
    } else if a == KindView::Inferred {
    } else if b == KindView::Inferred {
        lemma_unify_fuel(t, bh, ah, g1, g2);
    } else if a == KindView::Variable {
    } else if a is Instance {
        if b is Instance {
            lemma_occurs_fuel(t, a->Instance_0, b->Instance_0, g1, g2);
        }
    } else if (is_prim(a, Primitive::Float) && is_prim(b, Primitive::Integer)) || (is_prim(
        a,
        Primitive::Integer,
    ) && is_prim(b, Primitive::Float)) {
    } else if is_prim(a, Primitive::Integer) && b is Primitive && b->Primitive_0.spec_is_integer() {
    } else if is_prim(a, Primitive::Float) && b is Primitive && b->Primitive_0.spec_is_float() {
    } else if b == KindView::Variable || b is Instance || (a is Primitive && (is_prim(
        b,
        Primitive::Integer,
    ) || is_prim(b, Primitive::Float))) {
        lemma_unify_fuel(t, bh, ah, g1, g2);
    } else {
        lemma_unify_shapes_fuel(t, ah, bh, a, b, g1, g2);
    }
}

pub proof fn lemma_unify_shapes_fuel(
    t: TableView,
    ah: usize,
    bh: usize,
    a: KindView,
    b: KindView,
    f1: nat,
    f2: nat,
)
    requires
        f1 <= f2,
        sp_unify_shapes(t, ah, bh, a, b, f1) is Some,
    ensures
        sp_unify_shapes(t, ah, bh, a, b, f2) == sp_unify_shapes(t, ah, bh, a, b, f1),
    decreases f1, 3nat, 0nat,
{
    match (a, b) {
        (KindView::Adt(AdtView::Enum(ia)), KindView::Adt(AdtView::Enum(ib))) if ia.len() == ib.len() => {
            lemma_unify_from_fuel(t, ah, bh, adt_keyed(a->Adt_0), adt_keyed(b->Adt_0), 0, f1, f2);
        },
        (KindView::Adt(AdtView::Enum(en)), KindView::Adt(_)) => {
            if parent_of(t, bh) == Some(ah) {
                lemma_enum_has_fuel(t, adt_handles(a->Adt_0), 0, bh, f1, f2);
            }
        },
        (KindView::Adt(AdtView::Struct(ia)), KindView::Adt(AdtView::Struct(ib))) if ia.len() == ib.len() => {
            lemma_unify_from_fuel(t, ah, bh, adt_keyed(a->Adt_0), adt_keyed(b->Adt_0), 0, f1, f2);
        },
        (KindView::Adt(AdtView::TupleStruct(ia)), KindView::Adt(AdtView::TupleStruct(ib))) if ia.len()
            == ib.len() => {
            lemma_unify_from_fuel(t, ah, bh, adt_keyed(a->Adt_0), adt_keyed(b->Adt_0), 0, f1, f2);
        },
        (KindView::Adt(AdtView::Union(ia)), KindView::Adt(AdtView::Union(ib))) if ia.len() == ib.len() => {},
        (KindView::Ref(x), KindView::Ref(y)) => lemma_unify_fuel(t, x, y, f1, f2),
        (KindView::Ptr(x), KindView::Ptr(y)) => lemma_unify_fuel(t, x, y, f1, f2),
        (KindView::Slice(x), KindView::Slice(y)) => lemma_unify_fuel(t, x, y, f1, f2),
        (KindView::Array(x, _), KindView::Slice(y)) => lemma_unify_fuel(t, x, y, f1, f2),
        (KindView::Slice(_), KindView::Array(_, _)) => lemma_unify_fuel(t, bh, ah, f1, f2),
        (KindView::Array(x, sx), KindView::Array(y, sy)) if sx == sy => lemma_unify_fuel(t, x, y, f1, f2),
        (KindView::Tuple(xs), KindView::Tuple(ys)) => if xs.len() == ys.len() {
            lemma_unify_from_fuel(t, ah, bh, unkeyed(xs), unkeyed(ys), 0, f1, f2);
        },
        (KindView::FnSig { args: a1, rety: r1 }, KindView::FnSig { args: a2, rety: r2 }) => {
            lemma_unify_from_fuel(t, ah, bh, unkeyed(seq![a1, r1]), unkeyed(seq![a2, r2]), 0, f1, f2);
        },
        _ => {},
    }
}

pub proof fn lemma_unify_from_fuel(
    t: TableView,
    ah: usize,
    bh: usize,
    xs: Seq<((usize, u8), usize)>,
    ys: Seq<((usize, u8), usize)>,
    i: int,
    f1: nat,
    f2: nat,
)
    requires
        f1 <= f2,
        sp_unify_from(t, ah, bh, xs, ys, i, f1) is Some,
    ensures
        sp_unify_from(t, ah, bh, xs, ys, i, f2) == sp_unify_from(t, ah, bh, xs, ys, i, f1),
    decreases f1, 2nat, (xs.len() - i) as nat,
{
    if 0 <= i < xs.len() && i < ys.len() && xs[i].0 == ys[i].0 {
        lemma_unify_fuel(t, xs[i].1, ys[i].1, f1, f2);
        if let Some((Ok(_), t2)) = sp_unify(t, xs[i].1, ys[i].1, f1) {
            lemma_unify_from_fuel(t2, ah, bh, xs, ys, i + 1, f1, f2);
        }
    }
}

pub proof fn lemma_generic_fuel(t: TableView, ty: usize, seen: Set<usize>, f1: nat, f2: nat)
    requires
        f1 <= f2,
        sp_generic(t, ty, seen, f1) is Some,
    ensures
        sp_generic(t, ty, seen, f2) == sp_generic(t, ty, seen, f1),
    decreases f1, 0nat, 0nat,
{
    if !seen.contains(ty) {
        let s1 = seen.insert(ty);
        let g1 = (f1 - 1) as nat;
        let g2 = (f2 - 1) as nat;
        match kind_of(t, ty) {
            None => {},
            Some(k) => match k {
                KindView::Array(h, _) => lemma_generic_fuel(t, h, s1, g1, g2),
                KindView::Instance(h) => lemma_generic_fuel(t, h, s1, g1, g2),
                KindView::Adt(a) => lemma_generic_any_fuel(t, adt_handles(a), 0, s1, g1, g2),
                KindView::Ref(h) => lemma_generic_fuel(t, h, s1, g1, g2),
                KindView::Ptr(h) => lemma_generic_fuel(t, h, s1, g1, g2),
                KindView::Slice(h) => lemma_generic_fuel(t, h, s1, g1, g2),
                KindView::Tuple(hs) => lemma_generic_any_fuel(t, hs, 0, s1, g1, g2),
                KindView::FnSig { args, rety } => lemma_generic_any_fuel(t, seq![args, rety], 0, s1, g1, g2),
                _ => {},
            },
        }
    }
}

pub proof fn lemma_generic_any_fuel(t: TableView, hs: Seq<usize>, i: int, seen: Set<usize>, f1: nat, f2: nat)
    requires
        f1 <= f2,
        sp_generic_any(t, hs, i, seen, f1) is Some,
    ensures
        sp_generic_any(t, hs, i, seen, f2) == sp_generic_any(t, hs, i, seen, f1),
    decreases f1, 1nat, (hs.len() - i) as nat,
{
    if 0 <= i < hs.len() {
        lemma_generic_fuel(t, hs[i], seen, f1, f2);
        if let Some((false, s)) = sp_generic(t, hs[i], seen, f1) {
            lemma_generic_any_fuel(t, hs, i + 1, s, f1, f2);
        }
    }
}

pub proof fn lemma_is_generic_fuel(t: TableView, ty: usize, f1: nat, f2: nat)
    requires
        sp_is_generic(t, ty, f1) is Some,
        sp_is_generic(t, ty, f2) is Some,
    ensures
        sp_is_generic(t, ty, f2) == sp_is_generic(t, ty, f1),
{
    if f1 <= f2 {
        lemma_generic_fuel(t, ty, Set::empty(), f1, f2);
    } else {
        lemma_generic_fuel(t, ty, Set::empty(), f2, f1);
    }
}

pub proof fn lemma_deep_clone_fuel(t: TableView, ty: usize, f1: nat, f2: nat)
    requires
        f1 <= f2,
        sp_deep_clone(t, ty, f1) is Some,
    ensures
        sp_deep_clone(t, ty, f2) == sp_deep_clone(t, ty, f1),
    decreases f1, 0nat, 0nat,
{
    lemma_generic_fuel(t, ty, Set::empty(), f1, f2);
    if sp_is_generic(t, ty, f1) == Some(true) {
        if let Some(k) = kind_of(t, ty) {
            lemma_clone_kind_fuel(t, ty, k, (f1 - 1) as nat, (f2 - 1) as nat);
        }
    }
}

pub proof fn lemma_clone_kind_fuel(t: TableView, ty: usize, k: KindView, f1: nat, f2: nat)
    requires
        f1 <= f2,
        sp_clone_kind(t, ty, k, f1) is Some,
    ensures
        sp_clone_kind(t, ty, k, f2) == sp_clone_kind(t, ty, k, f1),
    decreases f1, 2nat, 0nat,
{
    match k {
        KindView::Array(h, s) => lemma_deep_clone_fuel(t, h, f1, f2),
        KindView::Instance(h) => lemma_deep_clone_fuel(t, h, f1, f2),
        KindView::Adt(a) => match a {
            AdtView::UnitStruct => {},
            _ => lemma_clone_list_fuel(t, adt_handles(a), 0, Seq::empty(), f1, f2),
        },
        KindView::Ref(h) => lemma_deep_clone_fuel(t, h, f1, f2),
        KindView::Ptr(h) => lemma_deep_clone_fuel(t, h, f1, f2),
        KindView::Slice(h) => lemma_deep_clone_fuel(t, h, f1, f2),
        KindView::Tuple(hs) => lemma_clone_list_fuel(t, hs, 0, Seq::empty(), f1, f2),
        KindView::FnSig { args, rety } => {
            lemma_deep_clone_fuel(t, args, f1, f2);
            if let Some((a2, t2)) = sp_deep_clone(t, args, f1) {
                lemma_deep_clone_fuel(t2, rety, f1, f2);
            }
        },
        _ => {},
    }
}

pub proof fn lemma_clone_list_fuel(t: TableView, hs: Seq<usize>, i: int, acc: Seq<usize>, f1: nat, f2: nat)
    requires
        f1 <= f2,
        sp_clone_list(t, hs, i, acc, f1) is Some,
    ensures
        sp_clone_list(t, hs, i, acc, f2) == sp_clone_list(t, hs, i, acc, f1),
    decreases f1, 1nat, (hs.len() - i) as nat + 2,
{
    if 0 <= i < hs.len() {
        lemma_deep_clone_fuel(t, hs[i], f1, f2);
        if let Some((h2, t2)) = sp_deep_clone(t, hs[i], f1) {
            lemma_clone_list_fuel(t2, hs, i + 1, acc.push(h2), f1, f2);
        }
    }
}

pub proof fn lemma_unify_then_fuel(t: TableView, a: usize, b: usize, then: usize, f1: nat, f2: nat)
    requires
        f1 <= f2,
        sp_unify_then(t, a, b, then, f1) is Some,
    ensures
        sp_unify_then(t, a, b, then, f2) == sp_unify_then(t, a, b, then, f1),
{
    lemma_unify_fuel(t, a, b, f1, f2);
}

pub proof fn lemma_infer_fuel(t: TableView, at: usize, e: Expr, f1: nat, f2: nat)
    requires
        f1 <= f2,
        sp_infer(t, at, e, f1) is Some,
    ensures
        sp_infer(t, at, e, f2) == sp_infer(t, at, e, f1),
    decreases e, 0nat,
{
    if let Expr::Op(op, args) = e {
        lemma_infer_op_fuel(t, at, op, args@, f1, f2);
    }
}

pub proof fn lemma_infer_each_fuel(
    t: TableView,
    at: usize,
    args: Seq<Expr>,
    i: int,
    end: int,
    acc: Seq<usize>,
    f1: nat,
    f2: nat,
)
    requires
        f1 <= f2,
        sp_infer_each(t, at, args, i, end, acc, f1) is Some,
    ensures
        sp_infer_each(t, at, args, i, end, acc, f2) == sp_infer_each(t, at, args, i, end, acc, f1),
    decreases args, (end - i) as nat,
{
    if 0 <= i < end && end <= args.len() {
        lemma_infer_fuel(t, at, args[i], f1, f2);
        if let Some((Ok(h), t2)) = sp_infer(t, at, args[i], f1) {
            lemma_infer_each_fuel(t2, at, args, i + 1, end, acc.push(h), f1, f2);
        }
    }
}

pub proof fn lemma_infer_unify_each_fuel(t: TableView, at: usize, args: Seq<Expr>, i: int, out: usize, f1: nat, f2: nat)
    requires
        f1 <= f2,
        sp_infer_unify_each(t, at, args, i, out, f1) is Some,
    ensures
        sp_infer_unify_each(t, at, args, i, out, f2) == sp_infer_unify_each(t, at, args, i, out, f1),
    decreases args, (args.len() - i) as nat,
{
    if 0 <= i < args.len() {
        lemma_infer_fuel(t, at, args[i], f1, f2);
        if let Some((Ok(h), t2)) = sp_infer(t, at, args[i], f1) {
            lemma_unify_fuel(t2, out, h, f1, f2);
            if let Some((Ok(_), t3)) = sp_unify(t2, out, h, f1) {
                lemma_infer_unify_each_fuel(t3, at, args, i + 1, out, f1, f2);
            }
        }
    }
}

pub proof fn lemma_infer_pair_fuel(t: TableView, at: usize, args: Seq<Expr>, give: int, f1: nat, f2: nat)
    requires
        f1 <= f2,
        sp_infer_pair(t, at, args, give, f1) is Some,
    ensures
        sp_infer_pair(t, at, args, give, f2) == sp_infer_pair(t, at, args, give, f1),
    decreases args, 1nat,
{
    if args.len() == 2 {
        lemma_infer_fuel(t, at, args[0], f1, f2);
        if let Some((Ok(lt), t1)) = sp_infer(t, at, args[0], f1) {
            lemma_infer_fuel(t1, at, args[1], f1, f2);
            if let Some((Ok(rt), t2)) = sp_infer(t1, at, args[1], f1) {
                lemma_unify_fuel(t2, lt, rt, f1, f2);
            }
        }
    }
}

pub proof fn lemma_infer_op_fuel(t: TableView, at: usize, op: Op, args: Seq<Expr>, f1: nat, f2: nat)
    requires
        f1 <= f2,
        sp_infer_op(t, at, op, args, f1) is Some,
    ensures
        sp_infer_op(t, at, op, args, f2) == sp_infer_op(t, at, op, args, f1),
    decreases args, args.len() + 3,
{
    let n = args.len();
    if op == Op::Do && n == 0 {
    } else if op == Op::Do {
        lemma_infer_each_fuel(t, at, args, 0, n - 1, Seq::empty(), f1, f2);
        if let Some((Ok(_), t2)) = sp_infer_each(t, at, args, 0, n - 1, Seq::empty(), f1) {
            lemma_infer_fuel(t2, at, args[n - 1], f1, f2);
        }
    } else if op == Op::Block && n == 0 {
    } else if op == Op::Block && n == 1 {
        lemma_infer_fuel(t, at, args[0], f1, f2);
    } else if op == Op::Array {
        let (out, t1) = sp_new_inferred(t);
        lemma_infer_unify_each_fuel(t1, at, args, 0, out, f1, f2);
    } else if op == Op::ArRep && n == 2 {
        if args[1].evaluable() {
            if let Some(v) = args[1].spec_value() {
                if v.spec_uint() is Some {
                    lemma_infer_fuel(t, at, args[0], f1, f2);
                }
            }
        }
    } else if op == Op::Group && n == 1 {
        lemma_infer_fuel(t, at, args[0], f1, f2);
    } else if op == Op::Tuple && n == 0 {
    } else if op == Op::Tuple {
        lemma_infer_each_fuel(t, at, args, 0, n as int, Seq::empty(), f1, f2);
    } else if (op == Op::MetaInner || op == Op::MetaOuter) && n == 2 {
        lemma_infer_fuel(t, at, args[1], f1, f2);
    } else if (op == Op::Pub || op == Op::Const || op == Op::Static) && n == 1 {
        lemma_infer_fuel(t, at, args[0], f1, f2);
    } else if op == Op::If && n >= 2 {
        let (scope, t1) = push_node(t, at);
        lemma_infer_fuel(t1, scope, args[0], f1, f2);
        if let Some((Ok(cond), t2)) = sp_infer(t1, scope, args[0], f1) {
            if let Some(b) = lang_of(t2, LangItem::Bool) {
                lemma_unify_fuel(t2, b, cond, f1, f2);
                if let Some((Ok(_), t3)) = sp_unify(t2, b, cond, f1) {
                    lemma_infer_fuel(t3, scope, args[1], f1, f2);
                    if let Some((Ok(pass), t4)) = sp_infer(t3, scope, args[1], f1) {
                        if n == 3 {
                            let (s2, t5) = push_node(t4, at);
                            lemma_infer_fuel(t5, s2, args[2], f1, f2);
                            if let Some((Ok(f), t6)) = sp_infer(t5, s2, args[2], f1) {
                                lemma_unify_then_fuel(t6, pass, f, pass, f1, f2);
                            }
                        } else {
                            if let Some((Ok(f), t6)) = sp_unit(t4) {
                                lemma_unify_then_fuel(t6, pass, f, pass, f1, f2);
                            }
                        }
                    }
                }
            }
        }
    } else if op == Op::Continue && n == 0 {
    } else if op == Op::Identity && n == 1 {
        lemma_infer_fuel(t, at, args[0], f1, f2);
    } else if op == Op::Refer && n == 1 {
        lemma_infer_fuel(t, at, args[0], f1, f2);
    } else if (is_arith(op) || is_bitwise(op) || is_logic(op)) && n == 2 {
        lemma_infer_pair_fuel(t, at, args, 0, f1, f2);
    } else if is_compare(op) && n == 2 {
        lemma_infer_pair_fuel(t, at, args, 1, f1, f2);
    } else if op == Op::Assign && n == 2 {
        lemma_infer_pair_fuel(t, at, args, 2, f1, f2);
    } else if (op == Op::Shl || op == Op::Shr) && n == 2 {
        lemma_infer_fuel(t, at, args[0], f1, f2);
        if let Some((Ok(lt), t1)) = sp_infer(t, at, args[0], f1) {
            lemma_infer_fuel(t1, at, args[1], f1, f2);
            if let Some((Ok(rt), t2)) = sp_infer(t1, at, args[1], f1) {
                if let Some(i) = lang_of(t2, LangItem::I32) {
                    lemma_unify_then_fuel(t2, rt, i, lt, f1, f2);
                }
            }
        }
    }
}

// ---------------------------------------------------------------------
// The search for type variables always ends
// ---------------------------------------------------------------------

/// How many of the nodes below `n` are not in `seen`.
pub open spec fn unseen(n: nat, seen: Set<usize>) -> nat
    decreases n,
{
    if n == 0 {
        0
    } else {
        unseen((n - 1) as nat, seen) + if seen.contains((n - 1) as usize) {
            0nat
        } else {
            1nat
        }
    }
}

proof fn lemma_unseen_insert(n: nat, seen: Set<usize>, h: usize)
    requires
        h < n,
        !seen.contains(h),
        n <= usize::MAX + 1,
    ensures
        unseen(n, seen.insert(h)) + 1 == unseen(n, seen),
    decreases n,
{
    if n - 1 != h {
        lemma_unseen_insert((n - 1) as nat, seen, h);
    } else {
        lemma_unseen_grow((n - 1) as nat, seen, seen.insert(h));
        lemma_unseen_grow((n - 1) as nat, seen.insert(h), seen);
    }
}

proof fn lemma_unseen_grow(n: nat, a: Set<usize>, b: Set<usize>)
    requires
        forall|h: usize| (h as int) < n && #[trigger] a.contains(h) ==> b.contains(h),
        n <= usize::MAX + 1,
    ensures
        unseen(n, b) <= unseen(n, a),
        (forall|h: usize| (h as int) < n ==> (#[trigger] a.contains(h) <==> b.contains(h))) ==> unseen(n, b)
            == unseen(n, a),
    decreases n,
{
    if n > 0 {
        lemma_unseen_grow((n - 1) as nat, a, b);
    }
}

proof fn lemma_unseen_empty(n: nat)
    requires
        n <= usize::MAX + 1,
    ensures
        unseen(n, Set::empty()) == n,
    decreases n,
{
    if n > 0 {
        lemma_unseen_empty((n - 1) as nat);
    }
}

/// With a budget above the number of unvisited nodes, the search for type
/// variables ends, and only adds to what it has seen.
pub proof fn lemma_generic_ends(t: TableView, ty: usize, seen: Set<usize>, fuel: nat)
    requires
        t.kinds.len() <= usize::MAX,
        fuel > unseen(t.kinds.len(), seen),
    ensures
        sp_generic(t, ty, seen, fuel) is Some,
        forall|h: usize| #[trigger] seen.contains(h) ==> (sp_generic(t, ty, seen, fuel)->0).1.contains(h),
    decreases fuel, 0nat, 0nat,
{
    if !seen.contains(ty) {
        let s1 = seen.insert(ty);
        let f = (fuel - 1) as nat;
        if let Some(k) = kind_of(t, ty) {
            lemma_unseen_insert(t.kinds.len(), seen, ty);
            match k {
                KindView::Array(h, _) => lemma_generic_ends(t, h, s1, f),
                KindView::Instance(h) => lemma_generic_ends(t, h, s1, f),
                KindView::Adt(a) => lemma_generic_any_ends(t, adt_handles(a), 0, s1, f),
                KindView::Ref(h) => lemma_generic_ends(t, h, s1, f),
                KindView::Ptr(h) => lemma_generic_ends(t, h, s1, f),
                KindView::Slice(h) => lemma_generic_ends(t, h, s1, f),
                KindView::Tuple(hs) => lemma_generic_any_ends(t, hs, 0, s1, f),
                KindView::FnSig { args, rety } => lemma_generic_any_ends(t, seq![args, rety], 0, s1, f),
                _ => {},
            }
        }
        assert forall|h: usize| #[trigger] seen.contains(h) implies (sp_generic(t, ty, seen, fuel)->0).1.contains(h) by {
            assert(s1.contains(h));
        }
    }
}

pub proof fn lemma_generic_any_ends(t: TableView, hs: Seq<usize>, i: int, seen: Set<usize>, fuel: nat)
    requires
        t.kinds.len() <= usize::MAX,
        fuel > unseen(t.kinds.len(), seen),
    ensures
        sp_generic_any(t, hs, i, seen, fuel) is Some,
        forall|h: usize| #[trigger] seen.contains(h) ==> (sp_generic_any(t, hs, i, seen, fuel)->0).1.contains(h),
    decreases fuel, 1nat, (hs.len() - i) as nat,
{
    if 0 <= i < hs.len() {
        lemma_generic_ends(t, hs[i], seen, fuel);
        let (b, s) = sp_generic(t, hs[i], seen, fuel)->0;
        if !b {
            lemma_unseen_grow(t.kinds.len(), seen, s);
            lemma_generic_any_ends(t, hs, i + 1, s, fuel);
        }
    }
}

// ---------------------------------------------------------------------
// Laws of unification and inference
// ---------------------------------------------------------------------

/// Two distinct references (or raw pointers, or slices, or an array and a
/// slice, or arrays of one size) unify exactly as the types they hold do:
/// the outcome, error and new table included, is that of unifying the held
/// types.
pub proof fn law_unify_follows_held_types(t: TableView, ah: usize, bh: usize, x: usize, y: usize, fuel: nat)
    requires
        fuel > 0,
        ah != bh,
        ({
            ||| kind_of(t, ah) == Some(KindView::Ref(x)) && kind_of(t, bh) == Some(KindView::Ref(y))
            ||| kind_of(t, ah) == Some(KindView::Ptr(x)) && kind_of(t, bh) == Some(KindView::Ptr(y))
            ||| kind_of(t, ah) == Some(KindView::Slice(x)) && kind_of(t, bh) == Some(KindView::Slice(y))
            ||| (exists|n: usize| kind_of(t, ah) == Some(KindView::Array(x, n))) && kind_of(t, bh) == Some(
                KindView::Slice(y),
            )
            ||| exists|n: usize|
                kind_of(t, ah) == Some(KindView::Array(x, n)) && kind_of(t, bh) == Some(KindView::Array(y, n))
        }),
    ensures
        sp_unify(t, ah, bh, fuel) == sp_unify(t, x, y, (fuel - 1) as nat),
{
    let a = kind_of(t, ah)->0;
    let b = kind_of(t, bh)->0;
    assert(sp_prune(t, ah, fuel) == Some((ah, t)));
    assert(sp_prune(t, bh, fuel) == Some((bh, t)));
    assert(sp_unify(t, ah, bh, fuel) == sp_unify_kinds(t, ah, bh, a, b, fuel));
    assert(sp_unify_kinds(t, ah, bh, a, b, fuel) == sp_unify_shapes(t, ah, bh, a, b, (fuel - 1) as nat));
}

/// Two distinct sized primitive types (neither an unsized integer or float,
/// nor the never type) do not unify: the outcome is a mismatch of the two,
/// with the table unchanged.
pub proof fn law_unify_distinct_primitives(t: TableView, ah: usize, bh: usize, p: Primitive, q: Primitive, fuel: nat)
    requires
        fuel > 0,
        ah != bh,
        kind_of(t, ah) == Some(KindView::Primitive(p)),
        kind_of(t, bh) == Some(KindView::Primitive(q)),
        p != q,
        p != Primitive::Integer && p != Primitive::Float && p != Primitive::Never,
        q != Primitive::Integer && q != Primitive::Float && q != Primitive::Never,
    ensures
        sp_unify(t, ah, bh, fuel) == Some((Err::<(), InferenceError>(InferenceError::Mismatch(ah, bh)), t)),
{
    let a = KindView::Primitive(p);
    let b = KindView::Primitive(q);
    assert(sp_prune(t, ah, fuel) == Some((ah, t)));
    assert(sp_prune(t, bh, fuel) == Some((bh, t)));
    assert(sp_unify(t, ah, bh, fuel) == sp_unify_kinds(t, ah, bh, a, b, fuel));
    assert(!p.spec_is_integer() || !q.spec_is_integer() || p != Primitive::Integer);
    assert(sp_unify_kinds(t, ah, bh, a, b, fuel) == sp_unify_shapes(t, ah, bh, a, b, (fuel - 1) as nat));
    assert(a != b);
}

/// The base rules of unification, for two distinct types that are not
/// instances: two variables make the first an instance of the second; an
/// inferred type takes a copy of the other type; an unsized integer meets
/// a sized integer by becoming its instance, and never meets a float;
/// tuples of different lengths do not unify. The never type unifies with
/// anything, leaving the table as it was.
pub proof fn law_unify_base_rules(t: TableView, ah: usize, bh: usize, fuel: nat)
    requires
        fuel > 0,
        ah != bh,
        kind_of(t, ah) is Some,
        kind_of(t, bh) is Some,
        !(kind_of(t, ah)->0 is Instance),
        !(kind_of(t, bh)->0 is Instance),
    ensures
        kind_of(t, ah) == Some(KindView::Variable) && kind_of(t, bh) == Some(KindView::Variable) ==> sp_unify(
            t,
            ah,
            bh,
            fuel,
        ) == Some((Ok::<(), InferenceError>(()), with_kind(t, ah, KindView::Instance(bh)))),
        kind_of(t, ah) == Some(KindView::Inferred) ==> sp_unify(t, ah, bh, fuel) == Some(
            (Ok::<(), InferenceError>(()), with_kind(t, ah, kind_of(t, bh)->0)),
        ),
        kind_of(t, ah) == Some(KindView::Primitive(Primitive::Integer)) && kind_of(t, bh)->0 is Primitive && (kind_of(
            t,
            bh,
        )->0)->Primitive_0.spec_is_integer() ==> sp_unify(t, ah, bh, fuel) == Some(
            (Ok::<(), InferenceError>(()), with_kind(t, ah, KindView::Instance(bh))),
        ),
        kind_of(t, ah) == Some(KindView::Primitive(Primitive::Integer)) && kind_of(t, bh) == Some(
            KindView::Primitive(Primitive::Float),
        ) ==> sp_unify(t, ah, bh, fuel) == Some((Err::<(), InferenceError>(InferenceError::Mismatch(ah, bh)), t)),
        (kind_of(t, ah)->0 is Tuple && kind_of(t, bh)->0 is Tuple && (kind_of(t, ah)->0)->Tuple_0.len() != (kind_of(
            t,
            bh,
        )->0)->Tuple_0.len()) ==> sp_unify(t, ah, bh, fuel) == Some(
            (Err::<(), InferenceError>(InferenceError::Mismatch(ah, bh)), t),
        ),
        kind_of(t, ah) == Some(KindView::Primitive(Primitive::Never)) && !(kind_of(t, bh)->0 is Inferred) && !(kind_of(
            t,
            bh,
        )->0 is Variable) && !(kind_of(t, bh) == Some(KindView::Primitive(Primitive::Integer))) && !(kind_of(t, bh)
            == Some(KindView::Primitive(Primitive::Float))) ==> sp_unify(t, ah, bh, fuel) == Some(
            (Ok::<(), InferenceError>(()), t),
        ),
{
    let a = kind_of(t, ah)->0;
    let b = kind_of(t, bh)->0;
    assert(sp_prune(t, ah, fuel) == Some((ah, t)));
    assert(sp_prune(t, bh, fuel) == Some((bh, t)));
    assert(sp_unify(t, ah, bh, fuel) == sp_unify_kinds(t, ah, bh, a, b, fuel));
}

/// So two references to distinct sized primitives do not unify: unifying
/// `&A` with `&B` reports the mismatch of `A` and `B`.
pub proof fn law_refs_to_distinct_primitives(
    t: TableView,
    ah: usize,
    bh: usize,
    x: usize,
    y: usize,
    p: Primitive,
    q: Primitive,
    fuel: nat,
)
    requires
        fuel > 1,
        ah != bh,
        x != y,
        kind_of(t, ah) == Some(KindView::Ref(x)),
        kind_of(t, bh) == Some(KindView::Ref(y)),
        kind_of(t, x) == Some(KindView::Primitive(p)),
        kind_of(t, y) == Some(KindView::Primitive(q)),
        p != q,
        p != Primitive::Integer && p != Primitive::Float && p != Primitive::Never,
        q != Primitive::Integer && q != Primitive::Float && q != Primitive::Never,
    ensures
        sp_unify(t, ah, bh, fuel) == Some((Err::<(), InferenceError>(InferenceError::Mismatch(x, y)), t)),
{
    law_unify_follows_held_types(t, ah, bh, x, y, fuel);
    law_unify_distinct_primitives(t, x, y, p, q, (fuel - 1) as nat);
}

/// Whether an inference outcome is a type.
pub open spec fn succeeds(o: Outcome) -> bool {
    o matches Some((Ok(_), _))
}

/// The type an inference outcome gives.
pub open spec fn type_of(o: Outcome) -> usize {
    (o->0).0->Ok_0
}

/// The table an inference outcome leaves.
pub open spec fn table_after(o: Outcome) -> TableView {
    (o->0).1
}

/// A shift `a << b` or `a >> b` has the type of its left operand `a`: when
/// inference succeeds, the type it gives is the one it gives for `a`, and
/// the `i32` language item, which the right operand is unified with, is
/// marked.
pub proof fn law_shift_has_left_type(t: TableView, at: usize, op: Op, a: Expr, b: Expr, fuel: nat)
    requires
        op == Op::Shl || op == Op::Shr,
        succeeds(sp_infer_op(t, at, op, seq![a, b], fuel)),
    ensures
        succeeds(sp_infer(t, at, a, fuel)),
        type_of(sp_infer_op(t, at, op, seq![a, b], fuel)) == type_of(sp_infer(t, at, a, fuel)),
        succeeds(sp_infer(table_after(sp_infer(t, at, a, fuel)), at, b, fuel)),
        lang_of(table_after(sp_infer(table_after(sp_infer(t, at, a, fuel)), at, b, fuel)), LangItem::I32) is Some,
{
    let args = seq![a, b];
    assert(args[0] == a && args[1] == b);
}

/// A shift whose operands both have types, and whose right operand's type
/// unifies with the `i32` language item, is typed: its type is the left
/// operand's, and the table is the one that unification leaves.
pub proof fn law_shift_typed_when_right_is_i32(t: TableView, at: usize, op: Op, a: Expr, b: Expr, fuel: nat)
    requires
        op == Op::Shl || op == Op::Shr,
        succeeds(sp_infer(t, at, a, fuel)),
        succeeds(sp_infer(table_after(sp_infer(t, at, a, fuel)), at, b, fuel)),
        lang_of(table_after(sp_infer(table_after(sp_infer(t, at, a, fuel)), at, b, fuel)), LangItem::I32) is Some,
        ({
            let t2 = table_after(sp_infer(table_after(sp_infer(t, at, a, fuel)), at, b, fuel));
            let rt = type_of(sp_infer(table_after(sp_infer(t, at, a, fuel)), at, b, fuel));
            sp_unify(t2, rt, lang_of(t2, LangItem::I32)->0, fuel) matches Some((Ok(_), _))
        }),
    ensures
        succeeds(sp_infer_op(t, at, op, seq![a, b], fuel)),
        type_of(sp_infer_op(t, at, op, seq![a, b], fuel)) == type_of(sp_infer(t, at, a, fuel)),
        ({
            let t2 = table_after(sp_infer(table_after(sp_infer(t, at, a, fuel)), at, b, fuel));
            let rt = type_of(sp_infer(table_after(sp_infer(t, at, a, fuel)), at, b, fuel));
            table_after(sp_infer_op(t, at, op, seq![a, b], fuel)) == (sp_unify(
                t2,
                rt,
                lang_of(t2, LangItem::I32)->0,
                fuel,
            )->0).1
        }),
{
    let args = seq![a, b];
    assert(args[0] == a && args[1] == b);
}

/// An arithmetic, bitwise or logical operator has the type of its left
/// operand; a comparison has the boolean language item's type; a group,
/// a block of one expression, `pub`/`const`/`static` and the identity
/// operator have exactly the outcome of their operand.
pub proof fn law_operator_types(t: TableView, at: usize, op: Op, a: Expr, b: Expr, fuel: nat)
    ensures
        (is_arith(op) || is_bitwise(op) || is_logic(op)) && succeeds(sp_infer_op(t, at, op, seq![a, b], fuel))
            ==> succeeds(sp_infer(t, at, a, fuel)) && type_of(sp_infer_op(t, at, op, seq![a, b], fuel)) == type_of(
            sp_infer(t, at, a, fuel),
        ),
        is_compare(op) && succeeds(sp_infer_op(t, at, op, seq![a, b], fuel)) ==> lang_of(
            table_after(sp_infer_op(t, at, op, seq![a, b], fuel)),
            LangItem::Bool,
        ) == Some(type_of(sp_infer_op(t, at, op, seq![a, b], fuel))),
        (op == Op::Group || op == Op::Block || op == Op::Identity || op == Op::Pub || op == Op::Const || op
            == Op::Static) ==> sp_infer_op(t, at, op, seq![a], fuel) == sp_infer(t, at, a, fuel),
{
    let args = seq![a, b];
    assert(args[0] == a && args[1] == b);
    let one = seq![a];
    assert(one[0] == a);
}

// ---------------------------------------------------------------------
// The table
// ---------------------------------------------------------------------

/// The type graph: each node has a parent and may have a type.
#[derive(Debug)]
pub struct TypeTable {
    kinds: Vec<Option<TypeKind>>,
    parents: Vec<usize>,
    anon_types: Vec<(TypeKind, usize)>,
    lang_items: Vec<Option<usize>>,
}

pub open spec fn opt_view(o: Option<TypeKind>) -> Option<KindView> {
    match o {
        Some(k) => Some(k@),
        None => None,
    }
}

impl View for TypeTable {
    type V = TableView;

    closed spec fn view(&self) -> TableView {
        TableView {
            kinds: self.kinds@.map_values(|o: Option<TypeKind>| opt_view(o)),
            parents: self.parents@,
            anon: self.anon_types@.map_values(|p: (TypeKind, usize)| (p.0@, p.1)),
            lang: self.lang_items@,
        }
    }
}

impl TypeTable {
    /// Every node has a parent.
    pub closed spec fn wf(&self) -> bool {
        &&& self.kinds@.len() == self.parents@.len()
        &&& self.lang_items@.len() == 5
    }

    /// A table holding only its root, which is its own parent and has no type.
    pub fn new() -> (r: Self)
        ensures
            r.wf(),
            r@.kinds == seq![None::<KindView>],
            r@.parents == seq![0usize],
            r@.anon == Seq::<(KindView, usize)>::empty(),
            forall|i: LangItem| lang_of(r@, i) is None,
    {
        let r = TypeTable {
            kinds: vec![None],
            parents: vec![0],
            anon_types: Vec::new(),
            lang_items: vec![None, None, None, None, None],
        };
        assert(r@.anon =~= Seq::<(KindView, usize)>::empty());
        assert(r@.kinds =~= seq![None::<KindView>]);
        r
    }

    /// How many nodes the table holds.
    pub fn len(&self) -> (r: usize)
        requires
            self.wf(),
        ensures
            r == self@.kinds.len(),
            r == self@.parents.len(),
    {
        self.kinds.len()
    }

    /// Creates a new node under `parent`, with no type, and returns its handle.
    pub fn new_entry(&mut self, parent: usize) -> (r: usize)
        requires
            old(self).wf(),
        ensures
            final(self).wf(),
            r == old(self)@.kinds.len(),
            final(self)@.kinds == old(self)@.kinds.push(None),
            final(self)@.parents == old(self)@.parents.push(parent),
            final(self)@.anon == old(self)@.anon,
            final(self)@.lang == old(self)@.lang,
    {
        let r = self.kinds.len();
        self.kinds.push(None);
        self.parents.push(parent);
        assert(self@.kinds =~= old(self)@.kinds.push(None));
        r
    }

    /// Sets the type of a node.
    pub fn set_ty(&mut self, node: usize, kind: TypeKind)
        requires
            old(self).wf(),
            node < old(self)@.kinds.len(),
        ensures
            final(self).wf(),
            final(self)@ == with_kind(old(self)@, node, kind@),
    {
        let ghost k = kind@;
        self.kinds.set(node, Some(kind));
        assert(self@.kinds =~= old(self)@.kinds.update(node as int, Some(k)));
    }

    /// The type of a node, if it has one.
    pub fn ty(&self, node: usize) -> (r: Option<&TypeKind>)
        requires
            self.wf(),
        ensures
            match r {
                Some(k) => kind_of(self@, node) == Some(k@),
                None => kind_of(self@, node) is None,
            },
    {
        if node < self.kinds.len() {
            match &self.kinds[node] {
                Some(k) => Some(k),
                None => None,
            }
        } else {
            None
        }
    }

    /// The parent of a node, if it is in the table.
    pub fn parent(&self, node: usize) -> (r: Option<usize>)
        requires
            self.wf(),
        ensures
            r == parent_of(self@, node),
    {
        if node < self.parents.len() {
            Some(self.parents[node])
        } else {
            None
        }
    }

    /// Marks a node as a language item, to be retrieved later.
    pub fn mark_lang_item(&mut self, name: LangItem, item: usize)
        requires
            old(self).wf(),
        ensures
            final(self).wf(),
            final(self)@ == (TableView { lang: old(self)@.lang.update(lang_index(name), Some(item)), ..old(self)@ }),
    {
        let i: usize = match name {
            LangItem::Bool => 0,
            LangItem::Char => 1,
            LangItem::Str => 2,
            LangItem::I32 => 3,
            LangItem::Never => 4,
        };
        self.lang_items.set(i, Some(item));
    }

    /// The node marked for a language item, if one was.
    pub fn lang_item(&self, name: LangItem) -> (r: Option<usize>)
        requires
            self.wf(),
        ensures
            r == lang_of(self@, name),
    {
        let i: usize = match name {
            LangItem::Bool => 0,
            LangItem::Char => 1,
            LangItem::Str => 2,
            LangItem::I32 => 3,
            LangItem::Never => 4,
        };
        self.lang_items[i]
    }

    /// A new inferred type, under the root.
    pub fn inferred_type(&mut self) -> (r: usize)
        requires
            old(self).wf(),
        ensures
            final(self).wf(),
            (r, final(self)@) == sp_new_inferred(old(self)@),
    {
        let r = self.kinds.len();
        self.kinds.push(Some(TypeKind::Inferred));
        self.parents.push(0);
        assert(self@.kinds =~= old(self)@.kinds.push(Some(KindView::Inferred)));
        r
    }

    /// The handle of the anonymous type `kind`: the one made before for an
    /// equal type, if any, or else a new node under the root.
    pub fn anon_type(&mut self, kind: TypeKind) -> (r: usize)
        requires
            old(self).wf(),
        ensures
            final(self).wf(),
            (r, final(self)@) == sp_anon_type(old(self)@, kind@),
    {
        let ghost k = kind@;
        let ghost anon = self@.anon;
        assert(anon.subrange(0, anon.len() as int) =~= anon);
        let mut i: usize = 0;
        while i < self.anon_types.len()
            invariant
                self.wf(),
                self@ == old(self)@,
                anon == self@.anon,
                k == kind@,
                i <= self.anon_types.len(),
                anon.len() == self.anon_types@.len(),
                anon_lookup(anon.subrange(i as int, anon.len() as int), k) == anon_lookup(anon, k),
            decreases self.anon_types.len() - i,
        {
            assert(anon.subrange(i as int, anon.len() as int)[0] == anon[i as int]);
            if kind_eq(&self.anon_types[i].0, &kind) {
                return self.anon_types[i].1;
            }
            assert(anon.subrange(i as int, anon.len() as int).drop_first() =~= anon.subrange(
                (i + 1) as int,
                anon.len() as int,
            ));
            i = i + 1;
        }
        assert(anon.subrange(i as int, anon.len() as int) =~= Seq::<(KindView, usize)>::empty());
        let h = self.kinds.len();
        let copy = copy_kind(&kind);
        self.kinds.push(Some(copy));
        self.parents.push(0);
        self.anon_types.push((kind, h));
        assert(self@.kinds =~= old(self)@.kinds.push(Some(k)));
        assert(self@.anon =~= old(self)@.anon.push((k, h)));
        h
    }

    /// A copy of the type of a node, if it has one.
    fn ty_copy(&self, node: usize) -> (r: Option<TypeKind>)
        requires
            self.wf(),
        ensures
            opt_view(r) == kind_of(self@, node),
    {
        match self.ty(node) {
            Some(k) => Some(copy_kind(k)),
            None => None,
        }
    }
}

fn copy_vec<T: Copy>(v: &Vec<T>) -> (r: Vec<T>)
    ensures
        r@ == v@,
{
    let mut r: Vec<T> = Vec::new();
    let mut i: usize = 0;
    while i < v.len()
        invariant
            i <= v.len(),
            r@ == v@.take(i as int),
        decreases v.len() - i,
    {
        r.push(v[i]);
        assert(v@.take(i as int).push(v@[i as int]) =~= v@.take((i + 1) as int));
        i = i + 1;
    }
    assert(v@.take(v@.len() as int) =~= v@);
    r
}

/// A copy of a type.
pub fn copy_kind(k: &TypeKind) -> (r: TypeKind)
    ensures
        r@ == k@,
{
    match k {
        TypeKind::Inferred => TypeKind::Inferred,
        TypeKind::Variable => TypeKind::Variable,
        TypeKind::Instance(h) => TypeKind::Instance(*h),
        TypeKind::Primitive(p) => TypeKind::Primitive(*p),
        TypeKind::Adt(a) => TypeKind::Adt(
            match a {
                Adt::Enum(v) => Adt::Enum(copy_vec(v)),
                Adt::Struct(v) => Adt::Struct(copy_vec(v)),
                Adt::TupleStruct(v) => Adt::TupleStruct(copy_vec(v)),
                Adt::UnitStruct => Adt::UnitStruct,
                Adt::Union(v) => Adt::Union(copy_vec(v)),
            },
        ),
        TypeKind::Ref(h) => TypeKind::Ref(*h),
        TypeKind::Ptr(h) => TypeKind::Ptr(*h),
        TypeKind::Slice(h) => TypeKind::Slice(*h),
        TypeKind::Array(h, n) => TypeKind::Array(*h, *n),
        TypeKind::Tuple(v) => TypeKind::Tuple(copy_vec(v)),
        TypeKind::FnSig { args, rety } => TypeKind::FnSig { args: *args, rety: *rety },
        TypeKind::Module => TypeKind::Module,
    }
}

// ---------------------------------------------------------------------
// The engine
// ---------------------------------------------------------------------

/// Infers types by unifying them in a [TypeTable].
pub struct InferenceEngine {
    table: TypeTable,
    /// The node inference works in: new scopes and literals go under it.
    at: usize,
}

impl View for InferenceEngine {
    type V = TableView;

    closed spec fn view(&self) -> TableView {
        self.table@
    }
}

/// The handles an [Adt] holds, in order.
fn adt_handle_vec(a: &Adt) -> (r: Vec<usize>)
    ensures
        r@ == adt_handles(a@),
{
    let mut r: Vec<usize> = Vec::new();
    match a {
        Adt::Enum(v) | Adt::Union(v) => {
            let mut i: usize = 0;
            while i < v.len()
                invariant
                    i <= v.len(),
                    r@ == v@.take(i as int).map_values(|p: (usize, usize)| p.1),
                decreases v.len() - i,
            {
                r.push(v[i].1);
                assert(v@.take((i + 1) as int) =~= v@.take(i as int).push(v@[i as int]));
                i = i + 1;
            }
            assert(v@.take(v@.len() as int) =~= v@);
        },
        Adt::Struct(v) => {
            let mut i: usize = 0;
            while i < v.len()
                invariant
                    i <= v.len(),
                    r@ == v@.take(i as int).map_values(|p: (usize, Visibility, usize)| p.2),
                decreases v.len() - i,
            {
                r.push(v[i].2);
                assert(v@.take((i + 1) as int) =~= v@.take(i as int).push(v@[i as int]));
                i = i + 1;
            }
            assert(v@.take(v@.len() as int) =~= v@);
        },
        Adt::TupleStruct(v) => {
            let mut i: usize = 0;
            while i < v.len()
                invariant
                    i <= v.len(),
                    r@ == v@.take(i as int).map_values(|p: (Visibility, usize)| p.1),
                decreases v.len() - i,
            {
                r.push(v[i].1);
                assert(v@.take((i + 1) as int) =~= v@.take(i as int).push(v@[i as int]));
                i = i + 1;
            }
            assert(v@.take(v@.len() as int) =~= v@);
        },
        Adt::UnitStruct => {
            assert(r@ =~= adt_handles(a@));
        },
    }
    r
}

impl InferenceEngine {
    /// The table is well formed.
    pub closed spec fn wf(&self) -> bool {
        self.table.wf()
    }

    /// The node inference works in.
    pub closed spec fn spec_at(&self) -> usize {
        self.at
    }

    /// An engine working on the given table, at the given node.
    pub fn new(table: TypeTable, at: usize) -> (r: Self)
        requires
            table.wf(),
        ensures
            r.wf(),
            r@ == table@,
            r.spec_at() == at,
    {
        InferenceEngine { table, at }
    }

    /// The table, as inference has left it.
    pub fn into_table(self) -> (r: TypeTable)
        requires
            self.wf(),
        ensures
            r.wf(),
            r@ == self@,
    {
        self.table
    }

    /// The table, as inference has left it so far.
    pub fn table(&self) -> (r: &TypeTable)
        requires
            self.wf(),
        ensures
            r.wf(),
            r@ == self@,
    {
        &self.table
    }

    fn prune_rec(&mut self, ty: usize, Ghost(fuel): Ghost<nat>) -> (r: usize)
        requires
            old(self).wf(),
            sp_prune(old(self)@, ty, fuel) is Some,
        ensures
            final(self).wf(),
            final(self).spec_at() == old(self).spec_at(),
            Some((r, final(self)@)) == sp_prune(old(self)@, ty, fuel),
            final(self)@.kinds.len() == old(self)@.kinds.len(),
        decreases fuel,
    {
        let next: Option<usize> = match self.table.ty(ty) {
            Some(TypeKind::Instance(n)) => Some(*n),
            _ => None,
        };
        match next {
            Some(n) => {
                let r = self.prune_rec(n, Ghost((fuel - 1) as nat));
                self.table.set_ty(ty, TypeKind::Instance(r));
                r
            },
            None => ty,
        }
    }

    /// Returns the defining instance of `ty`, collapsing type instances
    /// along the way. Admitted where the chain of instances ends.
    pub fn prune(&mut self, ty: usize) -> (r: usize)
        requires
            old(self).wf(),
            exists|fuel: nat| #[trigger] sp_prune(old(self)@, ty, fuel) is Some,
        ensures
            final(self).wf(),
            final(self).spec_at() == old(self).spec_at(),
            forall|fuel: nat| #[trigger] sp_prune(old(self)@, ty, fuel) is Some ==> sp_prune(old(self)@, ty, fuel) == Some(
                (r, final(self)@),
            ),
    {
        let ghost fuel = choose|fuel: nat| #[trigger] sp_prune(old(self)@, ty, fuel) is Some;
        let r = self.prune_rec(ty, Ghost(fuel));
        assert forall|g: nat| #[trigger] sp_prune(old(self)@, ty, g) is Some implies sp_prune(old(self)@, ty, g) == Some(
            (r, self@),
        ) by {
            if g <= fuel {
                lemma_prune_fuel(old(self)@, ty, g, fuel);
            } else {
                lemma_prune_fuel(old(self)@, ty, fuel, g);
            }
        }
        r
    }

    fn def_usage_rec(&self, to: usize, Ghost(fuel): Ghost<nat>) -> (r: usize)
        requires
            self.wf(),
            sp_def_usage(self@, to, fuel) is Some,
        ensures
            Some(r) == sp_def_usage(self@, to, fuel),
        decreases fuel,
    {
        match self.table.ty(to) {
            Some(TypeKind::Instance(id)) => self.def_usage_rec(*id, Ghost((fuel - 1) as nat)),
            _ => to,
        }
    }

    /// Gets the defining usage of a type without collapsing intermediates.
    /// Admitted where the chain of instances ends.
    pub fn def_usage(&self, to: usize) -> (r: usize)
        requires
            self.wf(),
            exists|fuel: nat| #[trigger] sp_def_usage(self@, to, fuel) is Some,
        ensures
            forall|fuel: nat| #[trigger] sp_def_usage(self@, to, fuel) is Some ==> sp_def_usage(self@, to, fuel) == Some(r),
    {
        let ghost fuel = choose|fuel: nat| #[trigger] sp_def_usage(self@, to, fuel) is Some;
        let r = self.def_usage_rec(to, Ghost(fuel));
        assert forall|g: nat| #[trigger] sp_def_usage(self@, to, g) is Some implies sp_def_usage(self@, to, g) == Some(r) by {
            if g <= fuel {
                lemma_def_usage_fuel(self@, to, g, fuel);
            } else {
                lemma_def_usage_fuel(self@, to, fuel, g);
            }
        }
        r
    }

    fn occurs_rec(&self, this: usize, other: usize, Ghost(fuel): Ghost<nat>) -> (r: bool)
        requires
            self.wf(),
            sp_occurs(self@, this, other, fuel) is Some,
        ensures
            Some(r) == sp_occurs(self@, this, other, fuel),
        decreases fuel, 0nat, 0nat,
    {
        if this == other {
            return true;
        }
        let f = Ghost((fuel - 1) as nat);
        match self.table.ty(other) {
            None => false,
            Some(k) => match k {
                TypeKind::Instance(o) => self.occurs_rec(this, *o, f),
                TypeKind::Adt(a) => {
                    let hs = adt_handle_vec(a);
                    self.occurs_any(this, &hs, f)
                },
                TypeKind::Slice(o) => self.occurs_rec(this, *o, f),
                TypeKind::Array(o, _) => self.occurs_rec(this, *o, f),
                TypeKind::Tuple(hs) => self.occurs_any(this, hs, f),
                TypeKind::FnSig { args, rety } => {
                    let hs = vec![*args, *rety];
                    assert(hs@ =~= seq![*args, *rety]);
                    self.occurs_any(this, &hs, f)
                },
                _ => false,
            },
        }
    }

    fn occurs_any(&self, this: usize, hs: &Vec<usize>, Ghost(fuel): Ghost<nat>) -> (r: bool)
        requires
            self.wf(),
            sp_occurs_any(self@, this, hs@, 0, fuel) is Some,
        ensures
            Some(r) == sp_occurs_any(self@, this, hs@, 0, fuel),
        decreases fuel, 1nat, hs@.len(),
    {
        let mut i: usize = 0;
        while i < hs.len()
            invariant
                self.wf(),
                i <= hs.len(),
                sp_occurs_any(self@, this, hs@, i as int, fuel) == sp_occurs_any(self@, this, hs@, 0, fuel),
                sp_occurs_any(self@, this, hs@, 0, fuel) is Some,
            decreases hs.len() - i,
        {
            if self.occurs_rec(this, hs[i], Ghost(fuel)) {
                return true;
            }
            i = i + 1;
        }
        false
    }

    /// Checks whether type `this` occurs in type `other`. Admitted where the
    /// search ends.
    pub fn occurs_in(&self, this: usize, other: usize) -> (r: bool)
        requires
            self.wf(),
            exists|fuel: nat| #[trigger] sp_occurs(self@, this, other, fuel) is Some,
        ensures
            forall|fuel: nat| #[trigger] sp_occurs(self@, this, other, fuel) is Some ==> sp_occurs(self@, this, other, fuel)
                == Some(r),
    {
        let ghost fuel = choose|fuel: nat| #[trigger] sp_occurs(self@, this, other, fuel) is Some;
        let r = self.occurs_rec(this, other, Ghost(fuel));
        assert forall|g: nat| #[trigger] sp_occurs(self@, this, other, g) is Some implies sp_occurs(self@, this, other, g)
            == Some(r) by {
            if g <= fuel {
                lemma_occurs_fuel(self@, this, other, g, fuel);
            } else {
                lemma_occurs_fuel(self@, this, other, fuel, g);
            }
        }
        r
    }

    /// Sets this type variable `to` be an instance `of` the other. Only
    /// inferred types, variables and unsized integers and floats can be set.
    pub fn set_instance(&mut self, to: usize, of: usize)
        requires
            old(self).wf(),
            sp_set_instance(old(self)@, to, of) is Some,
        ensures
            final(self).wf(),
            final(self).spec_at() == old(self).spec_at(),
            Some(final(self)@) == sp_set_instance(old(self)@, to, of),
    {
        let k = self.table.ty_copy(to);
        match k {
            Some(TypeKind::Inferred) => {
                let o = self.table.ty_copy(of);
                match o {
                    Some(ty) => self.table.set_ty(to, ty),
                    None => {},
                }
            },
            Some(TypeKind::Variable) => self.table.set_ty(to, TypeKind::Instance(of)),
            Some(TypeKind::Primitive(Primitive::Float)) => self.table.set_ty(to, TypeKind::Instance(of)),
            Some(TypeKind::Primitive(Primitive::Integer)) => self.table.set_ty(to, TypeKind::Instance(of)),
            _ => {},
        }
    }
}

// ---------------------------------------------------------------------
// Comparing and listing the parts of types
// ---------------------------------------------------------------------

fn eq_handles(a: &Vec<usize>, b: &Vec<usize>) -> (r: bool)
    ensures
        r == (a@ == b@),
{
    if a.len() != b.len() {
        return false;
    }
    let mut i: usize = 0;
    while i < a.len()
        invariant
            a.len() == b.len(),
            i <= a.len(),
            forall|j: int| 0 <= j < i ==> a@[j] == b@[j],
        decreases a.len() - i,
    {
        if a[i] != b[i] {
            return false;
        }
        i = i + 1;
    }
    assert(a@ =~= b@);
    true
}

fn eq_named(a: &Vec<(usize, usize)>, b: &Vec<(usize, usize)>) -> (r: bool)
    ensures
        r == (a@ == b@),
{
    if a.len() != b.len() {
        return false;
    }
    let mut i: usize = 0;
    while i < a.len()
        invariant
            a.len() == b.len(),
            i <= a.len(),
            forall|j: int| 0 <= j < i ==> a@[j] == b@[j],
        decreases a.len() - i,
    {
        if a[i].0 != b[i].0 || a[i].1 != b[i].1 {
            return false;
        }
        i = i + 1;
    }
    assert(a@ =~= b@);
    true
}

fn eq_members(a: &Vec<(usize, Visibility, usize)>, b: &Vec<(usize, Visibility, usize)>) -> (r: bool)
    ensures
        r == (a@ == b@),
{
    if a.len() != b.len() {
        return false;
    }
    let mut i: usize = 0;
    while i < a.len()
        invariant
            a.len() == b.len(),
            i <= a.len(),
            forall|j: int| 0 <= j < i ==> a@[j] == b@[j],
        decreases a.len() - i,
    {
        if a[i].0 != b[i].0 || a[i].1 != b[i].1 || a[i].2 != b[i].2 {
            return false;
        }
        i = i + 1;
    }
    assert(a@ =~= b@);
    true
}

fn eq_fields(a: &Vec<(Visibility, usize)>, b: &Vec<(Visibility, usize)>) -> (r: bool)
    ensures
        r == (a@ == b@),
{
    if a.len() != b.len() {
        return false;
    }
    let mut i: usize = 0;
    while i < a.len()
        invariant
            a.len() == b.len(),
            i <= a.len(),
            forall|j: int| 0 <= j < i ==> a@[j] == b@[j],
        decreases a.len() - i,
    {
        if a[i].0 != b[i].0 || a[i].1 != b[i].1 {
            return false;
        }
        i = i + 1;
    }
    assert(a@ =~= b@);
    true
}

/// Whether two types are the same.
pub fn kind_eq(a: &TypeKind, b: &TypeKind) -> (r: bool)
    ensures
        r == (a@ == b@),
{
    match (a, b) {
        (TypeKind::Inferred, TypeKind::Inferred) => true,
        (TypeKind::Variable, TypeKind::Variable) => true,
        (TypeKind::Instance(x), TypeKind::Instance(y)) => *x == *y,
        (TypeKind::Primitive(x), TypeKind::Primitive(y)) => *x == *y,
        (TypeKind::Adt(x), TypeKind::Adt(y)) => match (x, y) {
            (Adt::Enum(v), Adt::Enum(w)) => eq_named(v, w),
            (Adt::Struct(v), Adt::Struct(w)) => eq_members(v, w),
            (Adt::TupleStruct(v), Adt::TupleStruct(w)) => eq_fields(v, w),
            (Adt::UnitStruct, Adt::UnitStruct) => true,
            (Adt::Union(v), Adt::Union(w)) => eq_named(v, w),
            _ => false,
        },
        (TypeKind::Ref(x), TypeKind::Ref(y)) => *x == *y,
        (TypeKind::Ptr(x), TypeKind::Ptr(y)) => *x == *y,
        (TypeKind::Slice(x), TypeKind::Slice(y)) => *x == *y,
        (TypeKind::Array(x, n), TypeKind::Array(y, m)) => *x == *y && *n == *m,
        (TypeKind::Tuple(v), TypeKind::Tuple(w)) => eq_handles(v, w),
        (TypeKind::FnSig { args: a1, rety: r1 }, TypeKind::FnSig { args: a2, rety: r2 }) => *a1 == *a2
            && *r1 == *r2,
        (TypeKind::Module, TypeKind::Module) => true,
        _ => false,
    }
}

fn vis_byte(v: Visibility) -> (r: u8)
    ensures
        r == vis_code(v),
{
    match v {
        Visibility::Public => 0,
        Visibility::Private => 1,
    }
}

/// The members of an [Adt] with their keys.
fn adt_keyed_vec(a: &Adt) -> (r: Vec<((usize, u8), usize)>)
    ensures
        r@ == adt_keyed(a@),
{
    let mut r: Vec<((usize, u8), usize)> = Vec::new();
    match a {
        Adt::Enum(v) | Adt::Union(v) => {
            let mut i: usize = 0;
            while i < v.len()
                invariant
                    i <= v.len(),
                    r@ == v@.take(i as int).map_values(|p: (usize, usize)| ((p.0, 0u8), p.1)),
                decreases v.len() - i,
            {
                r.push(((v[i].0, 0u8), v[i].1));
                assert(v@.take((i + 1) as int) =~= v@.take(i as int).push(v@[i as int]));
                i = i + 1;
            }
            assert(v@.take(v@.len() as int) =~= v@);
        },
        Adt::Struct(v) => {
            let mut i: usize = 0;
            while i < v.len()
                invariant
                    i <= v.len(),
                    r@ == v@.take(i as int).map_values(
                        |p: (usize, Visibility, usize)| ((p.0, vis_code(p.1)), p.2),
                    ),
                decreases v.len() - i,
            {
                r.push(((v[i].0, vis_byte(v[i].1)), v[i].2));
                assert(v@.take((i + 1) as int) =~= v@.take(i as int).push(v@[i as int]));
                i = i + 1;
            }
            assert(v@.take(v@.len() as int) =~= v@);
        },
        Adt::TupleStruct(v) => {
            let mut i: usize = 0;
            while i < v.len()
                invariant
                    i <= v.len(),
                    r@ == v@.take(i as int).map_values(|p: (Visibility, usize)| ((0usize, vis_code(p.0)), p.1)),
                decreases v.len() - i,
            {
                r.push(((0usize, vis_byte(v[i].0)), v[i].1));
                assert(v@.take((i + 1) as int) =~= v@.take(i as int).push(v@[i as int]));
                i = i + 1;
            }
            assert(v@.take(v@.len() as int) =~= v@);
        },
        Adt::UnitStruct => {
            assert(r@ =~= adt_keyed(a@));
        },
    }
    r
}

/// Handles paired with empty keys.
fn unkeyed_vec(hs: &Vec<usize>) -> (r: Vec<((usize, u8), usize)>)
    ensures
        r@ == unkeyed(hs@),
{
    let mut r: Vec<((usize, u8), usize)> = Vec::new();
    let mut i: usize = 0;
    while i < hs.len()
        invariant
            i <= hs.len(),
            r@ == hs@.take(i as int).map_values(|h: usize| ((0usize, 0u8), h)),
        decreases hs.len() - i,
    {
        r.push(((0usize, 0u8), hs[i]));
        assert(hs@.take((i + 1) as int) =~= hs@.take(i as int).push(hs@[i as int]));
        i = i + 1;
    }
    assert(hs@.take(hs@.len() as int) =~= hs@);
    r
}

// ---------------------------------------------------------------------
// Unification
// ---------------------------------------------------------------------

impl InferenceEngine {
    fn unify_rec(&mut self, this: usize, other: usize, Ghost(fuel): Ghost<nat>) -> (r: Result<(), InferenceError>)
        requires
            old(self).wf(),
            sp_unify(old(self)@, this, other, fuel) is Some,
        ensures
            final(self).wf(),
            final(self).spec_at() == old(self).spec_at(),
            Some((r, final(self)@)) == sp_unify(old(self)@, this, other, fuel),
        decreases fuel, 1nat, 0nat,
    {
        let ah = self.prune_rec(this, Ghost(fuel));
        let bh = self.prune_rec(other, Ghost(fuel));
        if ah == bh {
            return Ok(());
        }
        let a = self.table.ty_copy(ah);
        let b = self.table.ty_copy(bh);
        match (a, b) {
            (Some(a), Some(b)) => self.unify_kinds(ah, bh, &a, &b, Ghost(fuel)),
            _ => Err(InferenceError::Mismatch(ah, bh)),
        }
    }

    fn unify_kinds(
        &mut self,
        ah: usize,
        bh: usize,
        a: &TypeKind,
        b: &TypeKind,
        Ghost(fuel): Ghost<nat>,
    ) -> (r: Result<(), InferenceError>)
        requires
            old(self).wf(),
            sp_unify_kinds(old(self)@, ah, bh, a@, b@, fuel) is Some,
        ensures
            final(self).wf(),
            final(self).spec_at() == old(self).spec_at(),
            Some((r, final(self)@)) == sp_unify_kinds(old(self)@, ah, bh, a@, b@, fuel),
        decreases fuel, 0nat, 0nat,
    {
        let f = Ghost((fuel - 1) as nat);
        let a_var = matches!(a, TypeKind::Variable);
        let b_var = matches!(b, TypeKind::Variable);
        let a_int = matches!(a, TypeKind::Primitive(Primitive::Integer));
        let b_int = matches!(b, TypeKind::Primitive(Primitive::Integer));
        let a_float = matches!(a, TypeKind::Primitive(Primitive::Float));
        let b_float = matches!(b, TypeKind::Primitive(Primitive::Float));
        if a_var && b_var {
            self.set_instance(ah, bh);
            Ok(())
        } else if matches!(a, TypeKind::Inferred) {
            self.set_instance(ah, bh);
            Ok(())
        } else if matches!(b, TypeKind::Inferred) {
            self.unify_rec(bh, ah, f)
        } else if a_var {
            Err(InferenceError::Mismatch(ah, bh))
        } else if let TypeKind::Instance(x) = a {
            if let TypeKind::Instance(y) = b {
                if !self.occurs_rec(*x, *y, f) {
                    self.set_instance(*x, *y);
                    Ok(())
                } else {
                    Err(InferenceError::Recursive(ah, bh))
                }
            } else {
                Err(InferenceError::Recursive(ah, bh))
            }
        } else if (a_float && b_int) || (a_int && b_float) {
            Err(InferenceError::Mismatch(ah, bh))
        } else if a_int && (match b {
            TypeKind::Primitive(p) => p.is_integer(),
            _ => false,
        }) {
            self.set_instance(ah, bh);
            Ok(())
        } else if a_float && (match b {
            TypeKind::Primitive(p) => p.is_float(),
            _ => false,
        }) {
            self.set_instance(ah, bh);
            Ok(())
        } else if b_var || matches!(b, TypeKind::Instance(_)) || (matches!(a, TypeKind::Primitive(_)) && (
        b_int || b_float)) {
            self.unify_rec(bh, ah, f)
        } else {
            self.unify_shapes(ah, bh, a, b, f)
        }
    }

    fn unify_shapes(
        &mut self,
        ah: usize,
        bh: usize,
        a: &TypeKind,
        b: &TypeKind,
        Ghost(f): Ghost<nat>,
    ) -> (r: Result<(), InferenceError>)
        requires
            old(self).wf(),
            sp_unify_shapes(old(self)@, ah, bh, a@, b@, f) is Some,
        ensures
            final(self).wf(),
            final(self).spec_at() == old(self).spec_at(),
            Some((r, final(self)@)) == sp_unify_shapes(old(self)@, ah, bh, a@, b@, f),
        decreases f, 3nat, 0nat,
    {
        match (a, b) {
            (TypeKind::Adt(x @ Adt::Enum(ia)), TypeKind::Adt(y @ Adt::Enum(ib))) if ia.len() == ib.len() => {
                let xs = adt_keyed_vec(x);
                let ys = adt_keyed_vec(y);
                self.unify_from(ah, bh, &xs, &ys, Ghost(f))
            },
            (TypeKind::Adt(x @ Adt::Enum(_)), TypeKind::Adt(_)) => match self.table.parent(bh) {
                None => Err(InferenceError::Mismatch(ah, bh)),
                Some(p) => if ah != p {
                    Err(InferenceError::Mismatch(ah, p))
                } else {
                    let hs = adt_handle_vec(x);
                    let ghost outcome = match sp_enum_has(self@, hs@, 0, bh, f) {
                        Some(true) => Some((Ok::<(), InferenceError>(()), self@)),
                        Some(false) => Some((Err::<(), InferenceError>(InferenceError::Mismatch(ah, bh)), self@)),
                        None => None,
                    };
                    assert(sp_unify_shapes(old(self)@, ah, bh, a@, b@, f) == outcome);
                    let mut i: usize = 0;
                    while i < hs.len()
                        invariant
                            self.wf(),
                            self.spec_at() == old(self).spec_at(),
                            self@ == old(self)@,
                            sp_unify_shapes(old(self)@, ah, bh, a@, b@, f) == outcome,
                            outcome == match sp_enum_has(self@, hs@, 0, bh, f) {
                                Some(true) => Some((Ok::<(), InferenceError>(()), self@)),
                                Some(false) => Some((Err::<(), InferenceError>(InferenceError::Mismatch(ah, bh)), self@)),
                                None => None,
                            },
                            i <= hs.len(),
                            sp_enum_has(self@, hs@, i as int, bh, f) == sp_enum_has(self@, hs@, 0, bh, f),
                            sp_enum_has(self@, hs@, 0, bh, f) is Some,
                        decreases hs.len() - i,
                    {
                        let d = self.def_usage_rec(hs[i], Ghost(f));
                        if d == bh {
                            return Ok(());
                        }
                        i = i + 1;
                    }
                    Err(InferenceError::Mismatch(ah, bh))
                },
            },
            (TypeKind::Adt(x @ Adt::Struct(ia)), TypeKind::Adt(y @ Adt::Struct(ib))) if ia.len() == ib.len() => {
                let xs = adt_keyed_vec(x);
                let ys = adt_keyed_vec(y);
                self.unify_from(ah, bh, &xs, &ys, Ghost(f))
            },
            (TypeKind::Adt(x @ Adt::TupleStruct(ia)), TypeKind::Adt(y @ Adt::TupleStruct(ib))) if ia.len()
                == ib.len() => {
                let xs = adt_keyed_vec(x);
                let ys = adt_keyed_vec(y);
                self.unify_from(ah, bh, &xs, &ys, Ghost(f))
            },
            (TypeKind::Adt(Adt::Union(ia)), TypeKind::Adt(Adt::Union(ib))) if ia.len() == ib.len() => {
                proof {
                    assert(false);
                }
                Ok(())
            },
            (TypeKind::Ref(x), TypeKind::Ref(y)) => self.unify_rec(*x, *y, Ghost(f)),
            (TypeKind::Ptr(x), TypeKind::Ptr(y)) => self.unify_rec(*x, *y, Ghost(f)),
            (TypeKind::Slice(x), TypeKind::Slice(y)) => self.unify_rec(*x, *y, Ghost(f)),
            (TypeKind::Array(x, _), TypeKind::Slice(y)) => self.unify_rec(*x, *y, Ghost(f)),
            (TypeKind::Slice(_), TypeKind::Array(_, _)) => self.unify_rec(bh, ah, Ghost(f)),
            (TypeKind::Array(x, sx), TypeKind::Array(y, sy)) if *sx == *sy => self.unify_rec(*x, *y, Ghost(f)),
            (TypeKind::Tuple(xs), TypeKind::Tuple(ys)) => if xs.len() != ys.len() {
                Err(InferenceError::Mismatch(ah, bh))
            } else {
                let xk = unkeyed_vec(xs);
                let yk = unkeyed_vec(ys);
                self.unify_from(ah, bh, &xk, &yk, Ghost(f))
            },
            (TypeKind::FnSig { args: a1, rety: r1 }, TypeKind::FnSig { args: a2, rety: r2 }) => {
                let xs = vec![*a1, *r1];
                let ys = vec![*a2, *r2];
                assert(xs@ =~= seq![*a1, *r1]);
                assert(ys@ =~= seq![*a2, *r2]);
                let xk = unkeyed_vec(&xs);
                let yk = unkeyed_vec(&ys);
                self.unify_from(ah, bh, &xk, &yk, Ghost(f))
            },
            _ => if matches!(a, TypeKind::Primitive(Primitive::Never)) || matches!(
                b,
                TypeKind::Primitive(Primitive::Never)
            ) {
                Ok(())
            } else if kind_eq(a, b) {
                Ok(())
            } else {
                Err(InferenceError::Mismatch(ah, bh))
            },
        }
    }

    fn unify_from(
        &mut self,
        ah: usize,
        bh: usize,
        xs: &Vec<((usize, u8), usize)>,
        ys: &Vec<((usize, u8), usize)>,
        Ghost(fuel): Ghost<nat>,
    ) -> (r: Result<(), InferenceError>)
        requires
            old(self).wf(),
            sp_unify_from(old(self)@, ah, bh, xs@, ys@, 0, fuel) is Some,
        ensures
            final(self).wf(),
            final(self).spec_at() == old(self).spec_at(),
            Some((r, final(self)@)) == sp_unify_from(old(self)@, ah, bh, xs@, ys@, 0, fuel),
        decreases fuel, 2nat, 0nat,
    {
        let ghost whole = sp_unify_from(old(self)@, ah, bh, xs@, ys@, 0, fuel);
        let mut i: usize = 0;
        while i < xs.len() && i < ys.len()
            invariant
                self.wf(),
                self.spec_at() == old(self).spec_at(),
                i <= xs.len(),
                sp_unify_from(self@, ah, bh, xs@, ys@, i as int, fuel) == whole,
                whole == sp_unify_from(old(self)@, ah, bh, xs@, ys@, 0, fuel),
                whole is Some,
            decreases xs.len() - i,
        {
            if (xs[i].0).0 != (ys[i].0).0 || (xs[i].0).1 != (ys[i].0).1 {
                assert(xs@[i as int].0 != ys@[i as int].0);
                assert(sp_unify_from(self@, ah, bh, xs@, ys@, i as int, fuel) == Some(
                    (Err::<(), InferenceError>(InferenceError::Mismatch(ah, bh)), self@),
                ));
                return Err(InferenceError::Mismatch(ah, bh));
            }
            assert(xs@[i as int].0 == ys@[i as int].0);
            let ghost pre = self@;
            let r = self.unify_rec(xs[i].1, ys[i].1, Ghost(fuel));
            match r {
                Err(e) => {
                    assert(sp_unify(pre, xs@[i as int].1, ys@[i as int].1, fuel) == Some((Err::<(), InferenceError>(e), self@)));
                    return Err(e);
                },
                Ok(()) => {},
            }
            i = i + 1;
        }
        Ok(())
    }

    /// Unifies two types. Admitted exactly where unification ends without a
    /// panic (it panics on two unions of one size, and need not end once
    /// the graph has a cycle); there the result and the new table are the
    /// ones [sp_unify] gives.
    pub fn unify(&mut self, this: usize, other: usize) -> (r: Result<(), InferenceError>)
        requires
            old(self).wf(),
            exists|fuel: nat| #[trigger] sp_unify(old(self)@, this, other, fuel) is Some,
        ensures
            final(self).wf(),
            final(self).spec_at() == old(self).spec_at(),
            forall|fuel: nat| #[trigger] sp_unify(old(self)@, this, other, fuel) is Some ==> sp_unify(
                old(self)@,
                this,
                other,
                fuel,
            ) == Some((r, final(self)@)),
    {
        let ghost fuel = choose|fuel: nat| #[trigger] sp_unify(old(self)@, this, other, fuel) is Some;
        let r = self.unify_rec(this, other, Ghost(fuel));
        assert forall|g: nat| #[trigger] sp_unify(old(self)@, this, other, g) is Some implies sp_unify(
            old(self)@,
            this,
            other,
            g,
        ) == Some((r, self@)) by {
            if g <= fuel {
                lemma_unify_fuel(old(self)@, this, other, g, fuel);
            } else {
                lemma_unify_fuel(old(self)@, this, other, fuel, g);
            }
        }
        r
    }
}

// ---------------------------------------------------------------------
// Generic types and deep copies
// ---------------------------------------------------------------------

/// The members of an [Adt] with their handles replaced by `hs`, in order.
fn adt_rebuild(a: &Adt, hs: &Vec<usize>) -> (r: Adt)
    requires
        hs@.len() == adt_handles(a@).len(),
    ensures
        r@ == adt_with_handles(a@, hs@),
{
    match a {
        Adt::Enum(v) => {
            let mut out: Vec<(usize, usize)> = Vec::new();
            let mut i: usize = 0;
            while i < v.len()
                invariant
                    i <= v.len(),
                    hs@.len() == v@.len(),
                    out@ =~= Seq::new(i as nat, |j: int| (v@[j].0, hs@[j])),
                decreases v.len() - i,
            {
                out.push((v[i].0, hs[i]));
                i = i + 1;
            }
            Adt::Enum(out)
        },
        Adt::Union(v) => {
            let mut out: Vec<(usize, usize)> = Vec::new();
            let mut i: usize = 0;
            while i < v.len()
                invariant
                    i <= v.len(),
                    hs@.len() == v@.len(),
                    out@ =~= Seq::new(i as nat, |j: int| (v@[j].0, hs@[j])),
                decreases v.len() - i,
            {
                out.push((v[i].0, hs[i]));
                i = i + 1;
            }
            Adt::Union(out)
        },
        Adt::Struct(v) => {
            let mut out: Vec<(usize, Visibility, usize)> = Vec::new();
            let mut i: usize = 0;
            while i < v.len()
                invariant
                    i <= v.len(),
                    hs@.len() == v@.len(),
                    out@ =~= Seq::new(i as nat, |j: int| (v@[j].0, v@[j].1, hs@[j])),
                decreases v.len() - i,
            {
                out.push((v[i].0, v[i].1, hs[i]));
                i = i + 1;
            }
            Adt::Struct(out)
        },
        Adt::TupleStruct(v) => {
            let mut out: Vec<(Visibility, usize)> = Vec::new();
            let mut i: usize = 0;
            while i < v.len()
                invariant
                    i <= v.len(),
                    hs@.len() == v@.len(),
                    out@ =~= Seq::new(i as nat, |j: int| (v@[j].0, hs@[j])),
                decreases v.len() - i,
            {
                out.push((v[i].0, hs[i]));
                i = i + 1;
            }
            Adt::TupleStruct(out)
        },
        Adt::UnitStruct => Adt::UnitStruct,
    }
}

impl InferenceEngine {
    fn generic_rec(&self, ty: usize, seen: &mut HashSet<usize>, Ghost(fuel): Ghost<nat>) -> (r: bool)
        requires
            self.wf(),
            sp_generic(self@, ty, old(seen)@, fuel) is Some,
        ensures
            Some((r, final(seen)@)) == sp_generic(self@, ty, old(seen)@, fuel),
        decreases fuel, 0nat, 0nat,
    {
        broadcast use vstd::std_specs::hash::group_hash_axioms;
        if !seen.insert(ty) {
            return false;
        }
        let f = Ghost((fuel - 1) as nat);
        match self.table.ty(ty) {
            None => false,
            Some(k) => match k {
                TypeKind::Inferred => false,
                TypeKind::Variable => true,
                TypeKind::Array(h, _) => self.generic_rec(*h, seen, f),
                TypeKind::Instance(h) => self.generic_rec(*h, seen, f),
                TypeKind::Primitive(_) => false,
                TypeKind::Adt(a) => {
                    let hs = adt_handle_vec(a);
                    self.generic_any(&hs, seen, f)
                },
                TypeKind::Ref(h) => self.generic_rec(*h, seen, f),
                TypeKind::Ptr(h) => self.generic_rec(*h, seen, f),
                TypeKind::Slice(h) => self.generic_rec(*h, seen, f),
                TypeKind::Tuple(hs) => self.generic_any(hs, seen, f),
                TypeKind::FnSig { args, rety } => {
                    let hs = vec![*args, *rety];
                    assert(hs@ =~= seq![*args, *rety]);
                    self.generic_any(&hs, seen, f)
                },
                TypeKind::Module => false,
            },
        }
    }

    fn generic_any(&self, hs: &Vec<usize>, seen: &mut HashSet<usize>, Ghost(fuel): Ghost<nat>) -> (r: bool)
        requires
            self.wf(),
            sp_generic_any(self@, hs@, 0, old(seen)@, fuel) is Some,
        ensures
            Some((r, final(seen)@)) == sp_generic_any(self@, hs@, 0, old(seen)@, fuel),
        decreases fuel, 1nat, 0nat,
    {
        let ghost whole = sp_generic_any(self@, hs@, 0, old(seen)@, fuel);
        let mut i: usize = 0;
        while i < hs.len()
            invariant
                self.wf(),
                i <= hs.len(),
                whole == sp_generic_any(self@, hs@, 0, old(seen)@, fuel),
                whole is Some,
                sp_generic_any(self@, hs@, i as int, seen@, fuel) == whole,
            decreases hs.len() - i,
        {
            if self.generic_rec(hs[i], seen, Ghost(fuel)) {
                return true;
            }
            i = i + 1;
        }
        false
    }

    /// Checks whether there are any unbound type variables in this type.
    /// The search visits each node at most once, so it always ends: a
    /// budget of one more step than the table has nodes is enough.
    pub fn is_generic(&self, ty: usize) -> (r: bool)
        requires
            self.wf(),
        ensures
            Some(r) == sp_is_generic(self@, ty, (self@.kinds.len() + 1) as nat),
            forall|fuel: nat| #[trigger] sp_is_generic(self@, ty, fuel) is Some ==> sp_is_generic(self@, ty, fuel) == Some(r),
    {
        let n = self.table.len();
        let ghost fuel = (n + 1) as nat;
        proof {
            lemma_unseen_empty(n as nat);
            lemma_generic_ends(self@, ty, Set::empty(), fuel);
        }
        let mut seen: HashSet<usize> = HashSet::new();
        let r = self.generic_rec(ty, &mut seen, Ghost(fuel));
        assert forall|g: nat| #[trigger] sp_is_generic(self@, ty, g) is Some implies sp_is_generic(self@, ty, g) == Some(r) by {
            lemma_is_generic_fuel(self@, ty, fuel, g);
        }
        r
    }

    fn deep_clone_rec(&mut self, ty: usize, Ghost(fuel): Ghost<nat>) -> (r: usize)
        requires
            old(self).wf(),
            sp_deep_clone(old(self)@, ty, fuel) is Some,
        ensures
            final(self).wf(),
            final(self).spec_at() == old(self).spec_at(),
            Some((r, final(self)@)) == sp_deep_clone(old(self)@, ty, fuel),
        decreases fuel, 0nat, 0nat,
    {
        let mut seen: HashSet<usize> = HashSet::new();
        if !self.generic_rec(ty, &mut seen, Ghost(fuel)) {
            return ty;
        }
        match self.table.ty_copy(ty) {
            None => ty,
            Some(k) => self.clone_kind(ty, k, Ghost((fuel - 1) as nat)),
        }
    }

    fn clone_kind(&mut self, ty: usize, k: TypeKind, Ghost(f): Ghost<nat>) -> (r: usize)
        requires
            old(self).wf(),
            sp_clone_kind(old(self)@, ty, k@, f) is Some,
        ensures
            final(self).wf(),
            final(self).spec_at() == old(self).spec_at(),
            Some((r, final(self)@)) == sp_clone_kind(old(self)@, ty, k@, f),
        decreases f, 2nat, 0nat,
    {
        match k {
            TypeKind::Variable => self.table.inferred_type(),
            TypeKind::Array(h, s) => {
                let h2 = self.deep_clone_rec(h, Ghost(f));
                self.table.anon_type(TypeKind::Array(h2, s))
            },
            TypeKind::Instance(h) => {
                let h2 = self.deep_clone_rec(h, Ghost(f));
                self.table.anon_type(TypeKind::Instance(h2))
            },
            TypeKind::Adt(a) => {
                if matches!(a, Adt::UnitStruct) {
                    return ty;
                }
                let hs = adt_handle_vec(&a);
                let hs2 = self.clone_list(&hs, Ghost(f));
                let b = adt_rebuild(&a, &hs2);
                self.table.anon_type(TypeKind::Adt(b))
            },
            TypeKind::Ref(h) => {
                let h2 = self.deep_clone_rec(h, Ghost(f));
                self.table.anon_type(TypeKind::Ref(h2))
            },
            TypeKind::Ptr(h) => {
                let h2 = self.deep_clone_rec(h, Ghost(f));
                self.table.anon_type(TypeKind::Ptr(h2))
            },
            TypeKind::Slice(h) => {
                let h2 = self.deep_clone_rec(h, Ghost(f));
                self.table.anon_type(TypeKind::Slice(h2))
            },
            TypeKind::Tuple(hs) => {
                let hs2 = self.clone_list(&hs, Ghost(f));
                self.table.anon_type(TypeKind::Tuple(hs2))
            },
            TypeKind::FnSig { args, rety } => {
                let a2 = self.deep_clone_rec(args, Ghost(f));
                let r2 = self.deep_clone_rec(rety, Ghost(f));
                self.table.anon_type(TypeKind::FnSig { args: a2, rety: r2 })
            },
            _ => ty,
        }
    }

    fn clone_list(&mut self, hs: &Vec<usize>, Ghost(f): Ghost<nat>) -> (r: Vec<usize>)
        requires
            old(self).wf(),
            sp_clone_list(old(self)@, hs@, 0, Seq::empty(), f) is Some,
        ensures
            final(self).wf(),
            final(self).spec_at() == old(self).spec_at(),
            Some((r@, final(self)@)) == sp_clone_list(old(self)@, hs@, 0, Seq::empty(), f),
            r@.len() == hs@.len(),
        decreases f, 1nat, 0nat,
    {
        let ghost whole = sp_clone_list(old(self)@, hs@, 0, Seq::empty(), f);
        let mut out: Vec<usize> = Vec::new();
        let mut i: usize = 0;
        while i < hs.len()
            invariant
                self.wf(),
                self.spec_at() == old(self).spec_at(),
                i <= hs.len(),
                out@.len() == i,
                whole == sp_clone_list(old(self)@, hs@, 0, Seq::empty(), f),
                whole is Some,
                sp_clone_list(self@, hs@, i as int, out@, f) == whole,
            decreases hs.len() - i,
        {
            let h2 = self.deep_clone_rec(hs[i], Ghost(f));
            out.push(h2);
            i = i + 1;
        }
        out
    }

    /// Makes a deep copy of a type expression: bound variables are shared,
    /// unbound variables are duplicated. Admitted where the copy ends.
    pub fn deep_clone(&mut self, ty: usize) -> (r: usize)
        requires
            old(self).wf(),
            exists|fuel: nat| #[trigger] sp_deep_clone(old(self)@, ty, fuel) is Some,
        ensures
            final(self).wf(),
            final(self).spec_at() == old(self).spec_at(),
            forall|fuel: nat| #[trigger] sp_deep_clone(old(self)@, ty, fuel) is Some ==> sp_deep_clone(old(self)@, ty, fuel)
                == Some((r, final(self)@)),
            forall|fuel: nat| #[trigger] sp_is_generic(old(self)@, ty, fuel) == Some(false) ==> r == ty && final(self)@
                == old(self)@,
    {
        let ghost fuel = choose|fuel: nat| #[trigger] sp_deep_clone(old(self)@, ty, fuel) is Some;
        let r = self.deep_clone_rec(ty, Ghost(fuel));
        assert forall|g: nat| #[trigger] sp_deep_clone(old(self)@, ty, g) is Some implies sp_deep_clone(old(self)@, ty, g)
            == Some((r, self@)) by {
            if g <= fuel {
                lemma_deep_clone_fuel(old(self)@, ty, g, fuel);
            } else {
                lemma_deep_clone_fuel(old(self)@, ty, fuel, g);
            }
        }
        assert forall|g: nat| #[trigger] sp_is_generic(old(self)@, ty, g) == Some(false) implies r == ty && self@
            == old(self)@ by {
            assert(sp_is_generic(old(self)@, ty, fuel) is Some);
            lemma_is_generic_fuel(old(self)@, ty, g, fuel);
        }
        r
    }
}

// ---------------------------------------------------------------------
// Inference over expressions
// ---------------------------------------------------------------------

impl InferenceEngine {
    fn unit(&mut self) -> (r: usize)
        requires
            old(self).wf(),
        ensures
            final(self).wf(),
            final(self).spec_at() == old(self).spec_at(),
            sp_unit(old(self)@) == Some((Ok::<usize, InferenceError>(r), final(self)@)),
    {
        let v: Vec<usize> = Vec::new();
        assert(v@ =~= Seq::<usize>::empty());
        self.table.anon_type(TypeKind::Tuple(v))
    }

    fn infer_rec(&mut self, at: usize, e: &Expr, Ghost(fuel): Ghost<nat>) -> (r: Result<usize, InferenceError>)
        requires
            old(self).wf(),
            sp_infer(old(self)@, at, *e, fuel) is Some,
        ensures
            final(self).wf(),
            final(self).spec_at() == old(self).spec_at(),
            Some((r, final(self)@)) == sp_infer(old(self)@, at, *e, fuel),
        decreases e, 0nat,
    {
        match e {
            Expr::Omitted => Ok(self.unit()),
            Expr::Lit(l) => match l {
                Literal::Bool(_) => Ok(self.table.lang_item(LangItem::Bool).unwrap()),
                Literal::Char(_) => Ok(self.table.lang_item(LangItem::Char).unwrap()),
                Literal::Int(_) => {
                    let h = self.table.new_entry(at);
                    self.table.set_ty(h, TypeKind::Primitive(Primitive::Integer));
                    Ok(h)
                },
                Literal::Str(_) => Ok(self.table.lang_item(LangItem::Str).unwrap()),
            },
            Expr::Use => Ok(self.unit()),
            Expr::Op(op, args) => self.infer_op(at, *op, args, Ghost(fuel)),
            _ => {
                proof {
                    assert(false);
                }
                Ok(0)
            },
        }
    }

    fn infer_each(&mut self, at: usize, args: &Vec<Expr>, end: usize, Ghost(fuel): Ghost<nat>) -> (r: Result<Vec<usize>, InferenceError>)
        requires
            old(self).wf(),
            end <= args@.len(),
            sp_infer_each(old(self)@, at, args@, 0, end as int, Seq::empty(), fuel) is Some,
        ensures
            final(self).wf(),
            final(self).spec_at() == old(self).spec_at(),
            match (r, sp_infer_each(old(self)@, at, args@, 0, end as int, Seq::empty(), fuel)) {
                (Ok(v), Some((Ok(w), t))) => v@ == w && final(self)@ == t,
                (Err(e), Some((Err(f), t))) => e == f && final(self)@ == t,
                _ => false,
            },
        decreases args@, 0nat,
    {
        let ghost whole = sp_infer_each(old(self)@, at, args@, 0, end as int, Seq::empty(), fuel);
        let mut out: Vec<usize> = Vec::new();
        let mut i: usize = 0;
        while i < end
            invariant
                self.wf(),
                self.spec_at() == old(self).spec_at(),
                i <= end,
                end <= args@.len(),
                whole == sp_infer_each(old(self)@, at, args@, 0, end as int, Seq::empty(), fuel),
                whole is Some,
                sp_infer_each(self@, at, args@, i as int, end as int, out@, fuel) == whole,
            decreases end - i,
        {
            let ghost pre = self@;
            match self.infer_rec(at, &args[i], Ghost(fuel)) {
                Err(e) => {
                    assert(sp_infer_each(pre, at, args@, i as int, end as int, out@, fuel) == Some(
                        (Err::<Seq<usize>, InferenceError>(e), self@),
                    ));
                    return Err(e);
                },
                Ok(h) => {
                    out.push(h);
                },
            }
            i = i + 1;
        }
        Ok(out)
    }

    fn infer_unify_each(&mut self, at: usize, args: &Vec<Expr>, out: usize, Ghost(fuel): Ghost<nat>) -> (r: Result<(), InferenceError>)
        requires
            old(self).wf(),
            sp_infer_unify_each(old(self)@, at, args@, 0, out, fuel) is Some,
        ensures
            final(self).wf(),
            final(self).spec_at() == old(self).spec_at(),
            Some((r, final(self)@)) == sp_infer_unify_each(old(self)@, at, args@, 0, out, fuel),
        decreases args@, 0nat,
    {
        let ghost whole = sp_infer_unify_each(old(self)@, at, args@, 0, out, fuel);
        let mut i: usize = 0;
        while i < args.len()
            invariant
                self.wf(),
                self.spec_at() == old(self).spec_at(),
                i <= args.len(),
                whole == sp_infer_unify_each(old(self)@, at, args@, 0, out, fuel),
                whole is Some,
                sp_infer_unify_each(self@, at, args@, i as int, out, fuel) == whole,
            decreases args.len() - i,
        {
            let ghost pre = self@;
            match self.infer_rec(at, &args[i], Ghost(fuel)) {
                Err(e) => {
                    assert(sp_infer_unify_each(pre, at, args@, i as int, out, fuel) == Some(
                        (Err::<(), InferenceError>(e), self@),
                    ));
                    return Err(e);
                },
                Ok(h) => {
                    let ghost mid = self@;
                    match self.unify_rec(out, h, Ghost(fuel)) {
                        Err(e) => {
                            assert(sp_infer_unify_each(pre, at, args@, i as int, out, fuel) == Some(
                                (Err::<(), InferenceError>(e), self@),
                            ));
                            return Err(e);
                        },
                        Ok(()) => {},
                    }
                },
            }
            i = i + 1;
        }
        Ok(())
    }

    fn infer_pair(&mut self, at: usize, args: &Vec<Expr>, give: u8, Ghost(fuel): Ghost<nat>) -> (r: Result<usize, InferenceError>)
        requires
            old(self).wf(),
            sp_infer_pair(old(self)@, at, args@, give as int, fuel) is Some,
        ensures
            final(self).wf(),
            final(self).spec_at() == old(self).spec_at(),
            Some((r, final(self)@)) == sp_infer_pair(old(self)@, at, args@, give as int, fuel),
        decreases args@, 1nat,
    {
        let lt = match self.infer_rec(at, &args[0], Ghost(fuel)) {
            Err(e) => return Err(e),
            Ok(h) => h,
        };
        let rt = match self.infer_rec(at, &args[1], Ghost(fuel)) {
            Err(e) => return Err(e),
            Ok(h) => h,
        };
        match self.unify_rec(lt, rt, Ghost(fuel)) {
            Err(e) => return Err(e),
            Ok(()) => {},
        }
        if give == 0 {
            Ok(lt)
        } else if give == 1 {
            Ok(self.table.lang_item(LangItem::Bool).unwrap())
        } else {
            Ok(self.unit())
        }
    }

    fn infer_op(&mut self, at: usize, op: Op, args: &Vec<Expr>, Ghost(fuel): Ghost<nat>) -> (r: Result<usize, InferenceError>)
        requires
            old(self).wf(),
            sp_infer_op(old(self)@, at, op, args@, fuel) is Some,
        ensures
            final(self).wf(),
            final(self).spec_at() == old(self).spec_at(),
            Some((r, final(self)@)) == sp_infer_op(old(self)@, at, op, args@, fuel),
        decreases args@, args@.len() + 3,
    {
        let n = args.len();
        if op == Op::Do && n == 0 {
            Ok(self.unit())
        } else if op == Op::Do {
            match self.infer_each(at, args, n - 1, Ghost(fuel)) {
                Err(e) => Err(e),
                Ok(_) => self.infer_rec(at, &args[n - 1], Ghost(fuel)),
            }
        } else if op == Op::Block && n == 0 {
            Ok(self.unit())
        } else if op == Op::Block && n == 1 {
            self.infer_rec(at, &args[0], Ghost(fuel))
        } else if op == Op::Array {
            let out = self.table.inferred_type();
            match self.infer_unify_each(at, args, out, Ghost(fuel)) {
                Err(e) => Err(e),
                Ok(()) => Ok(self.table.anon_type(TypeKind::Array(out, n))),
            }
        } else if op == Op::ArRep && n == 2 {
            let size = match args[1].const_eval() {
                Some(v) => v.uint(),
                None => None,
            };
            match size {
                None => Err(InferenceError::ConstEval(at)),
                Some(s) => match self.infer_rec(at, &args[0], Ghost(fuel)) {
                    Err(e) => Err(e),
                    Ok(ty) => Ok(self.table.anon_type(TypeKind::Array(ty, #[verifier::truncate] (s as usize)))),
                },
            }
        } else if op == Op::Group && n == 1 {
            self.infer_rec(at, &args[0], Ghost(fuel))
        } else if op == Op::Tuple && n == 0 {
            Ok(self.unit())
        } else if op == Op::Tuple {
            match self.infer_each(at, args, n, Ghost(fuel)) {
                Err(e) => Err(e),
                Ok(tys) => Ok(self.table.anon_type(TypeKind::Tuple(tys))),
            }
        } else if (op == Op::MetaInner || op == Op::MetaOuter) && n == 2 {
            self.infer_rec(at, &args[1], Ghost(fuel))
        } else if (op == Op::Pub || op == Op::Const || op == Op::Static) && n == 1 {
            self.infer_rec(at, &args[0], Ghost(fuel))
        } else if op == Op::If && n >= 2 {
            let scope = self.table.new_entry(at);
            let cond = match self.infer_rec(scope, &args[0], Ghost(fuel)) {
                Err(e) => return Err(e),
                Ok(h) => h,
            };
            let b = self.table.lang_item(LangItem::Bool).unwrap();
            match self.unify_rec(b, cond, Ghost(fuel)) {
                Err(e) => return Err(e),
                Ok(()) => {},
            }
            let pass = match self.infer_rec(scope, &args[1], Ghost(fuel)) {
                Err(e) => return Err(e),
                Ok(h) => h,
            };
            let fail = if n == 3 {
                let s2 = self.table.new_entry(at);
                match self.infer_rec(s2, &args[2], Ghost(fuel)) {
                    Err(e) => return Err(e),
                    Ok(h) => h,
                }
            } else {
                self.unit()
            };
            match self.unify_rec(pass, fail, Ghost(fuel)) {
                Err(e) => Err(e),
                Ok(()) => Ok(pass),
            }
        } else if op == Op::Continue && n == 0 {
            Ok(self.table.lang_item(LangItem::Never).unwrap())
        } else if op == Op::Identity && n == 1 {
            self.infer_rec(at, &args[0], Ghost(fuel))
        } else if op == Op::Refer && n == 1 {
            match self.infer_rec(at, &args[0], Ghost(fuel)) {
                Err(e) => Err(e),
                Ok(ty) => Ok(self.table.anon_type(TypeKind::Ref(ty))),
            }
        } else if (op == Op::Mul || op == Op::Div || op == Op::Rem || op == Op::Add || op == Op::Sub || op
            == Op::And || op == Op::Xor || op == Op::Or || op == Op::LogAnd || op == Op::LogXor || op
            == Op::LogOr) && n == 2 {
            self.infer_pair(at, args, 0, Ghost(fuel))
        } else if (op == Op::Lt || op == Op::Leq || op == Op::Eq || op == Op::Neq || op == Op::Geq || op
            == Op::Gt) && n == 2 {
            self.infer_pair(at, args, 1, Ghost(fuel))
        } else if op == Op::Assign && n == 2 {
            self.infer_pair(at, args, 2, Ghost(fuel))
        } else {
            let lt = match self.infer_rec(at, &args[0], Ghost(fuel)) {
                Err(e) => return Err(e),
                Ok(h) => h,
            };
            let rt = match self.infer_rec(at, &args[1], Ghost(fuel)) {
                Err(e) => return Err(e),
                Ok(h) => h,
            };
            let i = self.table.lang_item(LangItem::I32).unwrap();
            match self.unify_rec(rt, i, Ghost(fuel)) {
                Err(e) => Err(e),
                Ok(()) => Ok(lt),
            }
        }
    }
}

impl InferenceEngine {
    /// Infers the type of the operator expression `op` over `args`, in the
    /// engine's node, following the rules of [sp_infer_op]. Admitted where
    /// those rules give a result: the forms whose inference is unfinished
    /// or malformed panic, loops, `while`, `break` and `return` need break
    /// and return sets, and unification must end.
    pub fn infer_expr_op(&mut self, op: Op, args: &Vec<Expr>) -> (r: Result<usize, InferenceError>)
        requires
            old(self).wf(),
            exists|fuel: nat| #[trigger] sp_infer_op(old(self)@, old(self).spec_at(), op, args@, fuel) is Some,
        ensures
            final(self).wf(),
            final(self).spec_at() == old(self).spec_at(),
            forall|fuel: nat| #[trigger] sp_infer_op(old(self)@, old(self).spec_at(), op, args@, fuel) is Some
                ==> sp_infer_op(old(self)@, old(self).spec_at(), op, args@, fuel) == Some((r, final(self)@)),
    {
        let ghost fuel = choose|fuel: nat| #[trigger] sp_infer_op(old(self)@, old(self).spec_at(), op, args@, fuel) is Some;
        let at = self.at;
        let r = self.infer_op(at, op, args, Ghost(fuel));
        assert forall|g: nat| #[trigger] sp_infer_op(old(self)@, at, op, args@, g) is Some implies sp_infer_op(
            old(self)@,
            at,
            op,
            args@,
            g,
        ) == Some((r, self@)) by {
            if g <= fuel {
                lemma_infer_op_fuel(old(self)@, at, op, args@, g, fuel);
            } else {
                lemma_infer_op_fuel(old(self)@, at, op, args@, fuel, g);
            }
        }
        r
    }

    /// Infers the type of an expression in the engine's node, following the
    /// rules of [sp_infer]. Admitted where those rules give a result.
    pub fn infer(&mut self, e: &Expr) -> (r: Result<usize, InferenceError>)
        requires
            old(self).wf(),
            exists|fuel: nat| #[trigger] sp_infer(old(self)@, old(self).spec_at(), *e, fuel) is Some,
        ensures
            final(self).wf(),
            final(self).spec_at() == old(self).spec_at(),
            forall|fuel: nat| #[trigger] sp_infer(old(self)@, old(self).spec_at(), *e, fuel) is Some ==> sp_infer(
                old(self)@,
                old(self).spec_at(),
                *e,
                fuel,
            ) == Some((r, final(self)@)),
    {
        let ghost fuel = choose|fuel: nat| #[trigger] sp_infer(old(self)@, old(self).spec_at(), *e, fuel) is Some;
        let at = self.at;
        let r = self.infer_rec(at, e, Ghost(fuel));
        assert forall|g: nat| #[trigger] sp_infer(old(self)@, at, *e, g) is Some implies sp_infer(old(self)@, at, *e, g)
            == Some((r, self@)) by {
            if g <= fuel {
                lemma_infer_fuel(old(self)@, at, *e, g, fuel);
            } else {
                lemma_infer_fuel(old(self)@, at, *e, fuel, g);
            }
        }
        r
    }

    /// Marks a node of the table as a language item.
    pub fn mark_lang_item(&mut self, name: LangItem, item: usize)
        requires
            old(self).wf(),
        ensures
            final(self).wf(),
            final(self).spec_at() == old(self).spec_at(),
            final(self)@ == (TableView { lang: old(self)@.lang.update(lang_index(name), Some(item)), ..old(self)@ }),
    {
        self.table.mark_lang_item(name, item);
    }
}

} // verus!
