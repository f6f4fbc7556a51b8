//! A simple combinator library: a type says when a value of it is
//! "alright" and how to make one alright, and gets `and`/`or` combinators
//! over functions on it.
use vstd::prelude::*;

verus! {

/// The core trait, [Combinator], generically implements a handful of simple
/// combinators for your type based on two required functions:
/// - [`is_alright(&self) -> bool`](Combinator::is_alright) performs some
///   evaluation on `self`, and returns true if `self` is valid for your
///   problem domain.
/// - [`into_alright(self) -> Self`](Combinator::into_alright) transforms
///   `self` into an alright version of `self`.
pub trait Combinator: Sized {
    /// Whether this value is alright.
    spec fn alright(&self) -> bool;

    /// Evaluates the [Combinator], and returns whether it is alright.
    fn is_alright(&self) -> (r: bool)
        ensures
            r == self.alright(),
    ;

    /// The alright version of this value that [into_alright](Combinator::into_alright) makes.
    spec fn spec_into_alright(self) -> Self;

    /// Does something to make this [Combinator] [alright](Combinator::is_alright())
    fn into_alright(self) -> (r: Self)
        ensures
            r == self.spec_into_alright(),
            r.alright(),
    ;

    /// If self is alright, runs f(self)
    fn and<F: Fn(Self) -> Self>(self, f: F) -> (r: Self)
        requires
            self.alright() ==> f.requires((self,)),
        ensures
            self.alright() ==> f.ensures((self,), r),
            !self.alright() ==> r == self,
    {
        if self.is_alright() {
            f(self)
        } else {
            self
        }
    }

    /// If self is not alright, runs f(self) as if it were alright
    fn or<F: FnOnce(Self) -> Self>(self, f: F) -> (r: Self)
        requires
            !self.alright() ==> f.requires((self.spec_into_alright(),)),
        ensures
            self.alright() ==> r == self,
            !self.alright() ==> f.ensures((self.spec_into_alright(),), r),
    {
        if self.is_alright() {
            self
        } else {
            let a = self.into_alright();
            f(a)
        }
    }

    /// Repeats the function f on self until it would fail, then makes the
    /// last value alright. Only runs that end are admitted.
    fn and_any<F: Fn(Self) -> Self>(self, f: F) -> (r: Self)
        requires
            forall|a: Self| a.alright() ==> f.requires((a,)),
            ({
                let ok = |c: Self| c.alright();
                exists|n: nat| halts_within(ok, f, self, n)
            }),
        ensures
            !self.alright() ==> r == self,
            self.alright() ==> ends_as(|c: Self| c.alright(), |c: Self| c.spec_into_alright(), f, self, r),
    {
        if !self.is_alright() {
            return self;
        }
        let ghost ok = |c: Self| c.alright();
        let ghost fix = |c: Self| c.spec_into_alright();
        let ghost mut n: nat = choose|n: nat| halts_within(ok, f, self, n);
        let ghost start = self;
        let mut this = self;
        let ghost mut trace: Seq<Self> = seq![self];
        while this.is_alright()
            invariant
                forall|a: Self| a.alright() ==> f.requires((a,)),
                ok == (|c: Self| c.alright()),
                halts_within(ok, f, this, n),
                is_run(ok, f, trace),
                trace[0] == start,
                trace.last() == this,
            decreases n,
        {
            let ghost prev = this;
            assert(n > 0);
            this = f(this);
            proof {
                let t2 = trace.push(this);
                assert forall|i: int| 0 <= i < t2.len() - 1 implies ok(#[trigger] t2[i]) && f.ensures(
                    (t2[i],),
                    t2[i + 1],
                ) by {
                    if i < trace.len() - 1 {
                        assert(t2[i] == trace[i] && t2[i + 1] == trace[i + 1]);
                    } else {
                        assert(t2[i] == prev && t2[i + 1] == this);
                    }
                }
                trace = t2;
                n = (n - 1) as nat;
            }
        }
        let r = this.into_alright();
        assert(is_run(ok, f, trace) && trace[0] == start && !ok(trace.last()) && r == fix(trace.last()));
        r
    }

    /// Repeats the function f on self at least once, then until it fails.
    fn and_many<F: Fn(Self) -> Self>(self, f: F) -> (r: Self)
        requires
            forall|a: Self| a.alright() ==> f.requires((a,)),
            ({
                let ok = |c: Self| c.alright();
                exists|n: nat| halts_within(ok, f, self, n)
            }),
        ensures
            !self.alright() ==> r == self,
            self.alright() ==> exists|x: Self|
                #![trigger f.ensures((self,), x)]
                f.ensures((self,), x) && (!x.alright() ==> r == x) && (x.alright() ==> ends_as(
                    |c: Self| c.alright(),
                    |c: Self| c.spec_into_alright(),
                    f,
                    x,
                    r,
                )),
    {
        let ghost ok = |c: Self| c.alright();
        let ghost n0 = choose|n: nat| halts_within(ok, f, self, n);
        let x = self.and(&f);
        proof {
            if self.alright() {
                assert(halts_within(ok, f, x, (n0 - 1) as nat));
            } else {
                assert(halts_within(ok, f, x, n0));
            }
        }
        x.and_any(f)
    }

    /// Returns the result of running f on a clone of self, or if that is
    /// not alright, the result of running g on self
    fn and_either<F: Fn(Self) -> Self, G: Fn(Self) -> Self>(self, f: F, g: G) -> (r: Self)
        where Self: Clone,
        requires
            forall|c: Self| c.alright() ==> f.requires((c,)),
            g.requires((self,)),
        ensures
            exists|c: Self, x: Self|
                #![trigger cloned(self, c), x.alright()]
                cloned(self, c) && (c.alright() ==> f.ensures((c,), x)) && (!c.alright() ==> x == c) && (
                x.alright() ==> r == x) && (!x.alright() ==> g.ensures((self,), r)),
    {
        let c = self.clone();
        let ghost cc = c;
        let x = c.and(f);
        let ghost xx = x;
        assert(cloned(self, cc));
        if x.is_alright() {
            assert(xx.alright());
            x
        } else {
            let r = g(self);
            assert(!xx.alright());
            r
        }
    }

    /// Returns the result of running f on a clone of self, or if that is
    /// not alright, self
    fn and_maybe<F: Fn(Self) -> Self>(self, f: F) -> (r: Self)
        where Self: Clone,
        requires
            forall|c: Self| c.alright() ==> f.requires((c,)),
        ensures
            exists|c: Self, x: Self|
                #![trigger cloned(self, c), x.alright()]
                cloned(self, c) && (c.alright() ==> f.ensures((c,), x)) && (!c.alright() ==> x == c) && (
                x.alright() ==> r == x) && (!x.alright() ==> r == self),
    {
        let c = self.clone();
        let ghost cc = c;
        let x = c.and(f);
        let ghost xx = x;
        assert(cloned(self, cc));
        if x.is_alright() {
            assert(xx.alright());
            x
        } else {
            assert(!xx.alright());
            self
        }
    }
}

/// Every run of `f` from `a`, for as long as the values stay `ok`, ends
/// within `n` steps.
pub open spec fn halts_within<C, F: Fn(C) -> C>(ok: spec_fn(C) -> bool, f: F, a: C, n: nat) -> bool
    decreases n,
{
    if !ok(a) {
        true
    } else if n == 0 {
        false
    } else {
        forall|b: C| #[trigger] f.ensures((a,), b) ==> halts_within(ok, f, b, (n - 1) as nat)
    }
}

/// `s` is a run of `f`: each value but the last is `ok`, and `f` turns it
/// into the next.
pub open spec fn is_run<C, F: Fn(C) -> C>(ok: spec_fn(C) -> bool, f: F, s: Seq<C>) -> bool {
    &&& s.len() > 0
    &&& forall|i: int| 0 <= i < s.len() - 1 ==> ok(#[trigger] s[i]) && f.ensures((s[i],), s[i + 1])
}

/// Running `f` from `a` until a value is not `ok`, and then applying `fix`
/// to that last value, can give `r`.
pub open spec fn ends_as<C, F: Fn(C) -> C>(ok: spec_fn(C) -> bool, fix: spec_fn(C) -> C, f: F, a: C, r: C) -> bool {
    exists|s: Seq<C>| #[trigger] is_run(ok, f, s) && s[0] == a && !ok(s.last()) && r == fix(s.last())
}

} // verus!
