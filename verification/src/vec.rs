//! The ordered-sequence family.
use vstd::prelude::*;
use vstd::arithmetic::div_mod::lemma_fundamental_div_mod_converse;
use crate::kind::{Apply1, Family, Kinded1, TypeCtor1};
use crate::typeclass::{Applicative, Functor, Monad, computes, returns_slots};

verus! {

/// Names the family of `Vec`.
pub struct VecKind;

impl Family for VecKind {
    type Rest = ();

    open spec fn join_rest(first: (), second: ()) -> () {
        ()
    }
}

impl<A> TypeCtor1<A> for VecKind {
    type Type = Vec<A>;

    open spec fn slots(c: Vec<A>) -> Seq<A> {
        c@
    }

    open spec fn rest(c: Vec<A>) -> () {
        ()
    }
}

impl<A> Kinded1<A> for Vec<A> {
    type Kind = VecKind;
}

/// `g` applied to every element of `xs`.
pub open spec fn seq_fmap<A, B>(xs: Seq<A>, g: spec_fn(A) -> B) -> Seq<B> {
    xs.map_values(g)
}

/// Every function of `gs` applied to every element of `xs`: the functions in
/// order, and under each function the elements in order. Element
/// `j * xs.len() + k` is `gs[j](xs[k])`.
pub open spec fn seq_apply<A, B>(xs: Seq<A>, gs: Seq<spec_fn(A) -> B>) -> Seq<B> {
    Seq::new(
        (gs.len() * xs.len()) as nat,
        |i: int| gs[i / (xs.len() as int)](xs[i % (xs.len() as int)]),
    )
}

/// The sequences that `g` returns on the elements of `xs`, one after the
/// other.
pub open spec fn seq_bind<A, B>(xs: Seq<A>, g: spec_fn(A) -> Seq<B>) -> Seq<B> {
    xs.map_values(g).flatten()
}

/// `gs` has a function for each one of `fs`, which that one computes.
pub open spec fn seq_computes<A, B, F: FnOnce(A) -> B>(
    fs: Seq<F>,
    gs: Seq<spec_fn(A) -> B>,
) -> bool {
    &&& gs.len() == fs.len()
    &&& forall|j: int| 0 <= j < fs.len() ==> computes(#[trigger] fs[j], gs[j])
}

/// Whatever vector `f` returns on `a` holds exactly the elements `g(a)`.
pub open spec fn computes_elements<A, B, F: FnOnce(A) -> Vec<B>>(
    f: F,
    g: spec_fn(A) -> Seq<B>,
) -> bool {
    forall|a: A, v: Vec<B>| #[trigger] f.ensures((a,), v) ==> v@ == g(a)
}

/// Every clone of an element of `xs` equals the element.
pub open spec fn clones_exactly<A: Clone>(xs: Seq<A>) -> bool {
    forall|k: int, b: A| 0 <= k < xs.len() && #[trigger] cloned(xs[k], b) ==> b == xs[k]
}

impl<A> Functor<A> for Vec<A> {
    /// Every element is replaced by what `f` returns on it, in order.
    fn fmap<B, M: FnMut(A) -> B>(self, f: M) -> (r: Apply1<Self::Kind, B>)
        ensures
            r@.len() == self@.len(),
            forall|i: int| 0 <= i < self@.len() ==> f.ensures((self@[i],), #[trigger] r@[i]),
            forall|g: spec_fn(A) -> B| #[trigger] computes(f, g) ==> r@ == seq_fmap(self@, g),
    {
        let ghost f0 = f;
        let ghost src = self@;
        let mut f = f;
        let mut out: Vec<B> = Vec::new();
        for a in it: self.into_iter()
            invariant
                it.seq() == src,
                f == f0,
                out@.len() == it.index(),
                forall|i: int| 0 <= i < out@.len() ==> f.ensures((src[i],), #[trigger] out@[i]),
                forall|a: A| src.contains(a) ==> #[trigger] f.requires((a,)),
        {
            out.push(f(a));
        }
        out
    }
}

/// `y` is what `f` returned on some clone of `x`.
pub open spec fn on_clone<A: Clone, B, F: FnOnce(A) -> B>(f: F, x: A, y: B) -> bool {
    exists|b: A| #[trigger] cloned(x, b) && f.ensures((b,), y)
}

impl<A: Clone> Applicative<A> for Vec<A> {
    /// Every function gets a clone of the element, since every element goes
    /// to every function.
    open spec fn hands_out(held: A, given: A) -> bool {
        cloned(held, given)
    }

    /// Lifts `b` to the vector of that one element.
    fn pure(b: A) -> (r: Apply1<Self::Kind, A>)
        ensures
            r@ == seq![b],
    {
        let mut out: Vec<A> = Vec::new();
        out.push(b);
        out
    }

    /// Applies every function to a clone of every element. The results stand
    /// function by function in the order of `ff`, and under one function in
    /// the order of the elements; with no functions or no elements the result
    /// is empty.
    fn apply<B, F: FnMut(A) -> B>(self, ff: Apply1<Self::Kind, F>) -> (r: Apply1<Self::Kind, B>)
        ensures
            r@.len() == ff@.len() * self@.len(),
            forall|j: int, k: int|
                #![trigger ff@[j], self@[k]]
                0 <= j < ff@.len() && 0 <= k < self@.len() ==> on_clone(
                    ff@[j],
                    self@[k],
                    r@[j * self@.len() + k],
                ),
            forall|gs: Seq<spec_fn(A) -> B>| #[trigger]
                seq_computes(ff@, gs) && clones_exactly(self@) ==> r@ == seq_apply(self@, gs),
    {
        let ghost fs = ff@;
        let ghost xs = self@;
        let n = self.len();
        let mut out: Vec<B> = Vec::new();
        for f in it: ff.into_iter()
            invariant
                it.seq() == fs,
                xs == self@,
                n == xs.len(),
                out@.len() == it.index() * n,
                forall|g: F, a: A, b: A|
                    fs.contains(g) && xs.contains(a) && #[trigger] Self::hands_out(a, b)
                        ==> #[trigger] g.requires((b,)),
                forall|j: int, k: int|
                    #![trigger fs[j], xs[k]]
                    0 <= j < it.index() && 0 <= k < n ==> on_clone(fs[j], xs[k], out@[j * n + k]),
        {
            let ghost j0 = it.index();
            let ghost f0 = f;
            let mut f = f;
            let mut k: usize = 0;
            while k < n
                invariant
                    0 <= j0 < fs.len(),
                    fs[j0] == f0,
                    f == f0,
                    fs.contains(f0),
                    xs == self@,
                    n == xs.len(),
                    k <= n,
                    out@.len() == j0 * n + k,
                    forall|g: F, a: A, b: A|
                        fs.contains(g) && xs.contains(a) && #[trigger] Self::hands_out(a, b)
                            ==> #[trigger] g.requires((b,)),
                    forall|j: int, k2: int|
                        #![trigger fs[j], xs[k2]]
                        0 <= j < j0 && 0 <= k2 < n ==> on_clone(fs[j], xs[k2], out@[j * n + k2]),
                    forall|k2: int|
                        #![trigger xs[k2]]
                        0 <= k2 < k ==> on_clone(f0, xs[k2], out@[j0 * n + k2]),
                decreases n - k,
            {
                let a = self[k].clone();
                assert(Self::hands_out(xs[k as int], a));
                let b = f(a);
                out.push(b);
                proof {
                    assert forall|j: int, k2: int|
                        #![trigger fs[j], xs[k2]]
                        0 <= j < j0 && 0 <= k2 < n implies on_clone(
                        fs[j],
                        xs[k2],
                        out@[j * n + k2],
                    ) by {
                        lemma_row_index(j, j0 as int, k2, n as int);
                    }
                }
                k += 1;
            }
            proof {
                assert((j0 + 1) * n == j0 * n + n) by (nonlinear_arith);
            }
        }
        proof {
            lemma_apply_model(xs, fs, out@);
        }
        out
    }
}

impl<A: Clone> Monad<A> for Vec<A> {
    /// The vectors that `f` returns on the elements, one after the other.
    fn bind<B, F: FnMut(A) -> Vec<B>>(self, f: F) -> (r: Apply1<Self::Kind, B>)
        ensures
            forall|g: spec_fn(A) -> Seq<B>| #[trigger]
                computes_elements(f, g) ==> r@ == seq_bind(self@, g),
    {
        let ghost f0 = f;
        let ghost src = self@;
        let ghost mut parts: Seq<Seq<B>> = Seq::empty();
        let mut f = f;
        let mut out: Vec<B> = Vec::new();
        for a in it: self.into_iter()
            invariant
                it.seq() == src,
                f == f0,
                parts.len() == it.index(),
                out@ == parts.flatten(),
                forall|a: A| src.contains(a) ==> #[trigger] f.requires((a,)),
                forall|i: int|
                    0 <= i < parts.len() ==> returns_slots::<VecKind, A, B, F>(
                        f0,
                        src[i],
                        #[trigger] parts[i],
                    ),
        {
            let mut c = f(a);
            proof {
                let ghost old_parts = parts;
                parts.lemma_flatten_push(c@);
                parts = parts.push(c@);
                assert forall|i: int| 0 <= i < parts.len() implies returns_slots::<
                    VecKind,
                    A,
                    B,
                    F,
                >(f0, src[i], #[trigger] parts[i]) by {
                    if i == old_parts.len() {
                        assert(f0.ensures((src[i],), c) && <VecKind as TypeCtor1<B>>::slots(c)
                            == parts[i]);
                    }
                }
            }
            out.append(&mut c);
        }
        proof {
            assert forall|g: spec_fn(A) -> Seq<B>| #[trigger]
                computes_elements(f0, g) implies out@ == seq_bind(src, g) by {
                assert(parts =~= src.map_values(g));
            }
        }
        out
    }
}

/// In a table with rows of `n` cells laid out row by row, a cell of an
/// earlier row comes before the start of a later row.
proof fn lemma_row_index(j: int, j0: int, k: int, n: int)
    requires
        0 <= j < j0,
        0 <= k < n,
    ensures
        0 <= j * n + k < j0 * n,
{
    assert(j * n + k < j0 * n) by (nonlinear_arith)
        requires
            0 <= j < j0,
            0 <= k < n,
    ;
    assert(0 <= j * n + k) by (nonlinear_arith)
        requires
            0 <= j,
            0 <= k < n,
    ;
}

/// A sequence that holds a result of function `j` on a clone of element `k`
/// at place `j * n + k` is `seq_apply` of the functions that they compute,
/// where clones are exact.
proof fn lemma_apply_model<A: Clone, B, F: FnOnce(A) -> B>(xs: Seq<A>, fs: Seq<F>, out: Seq<B>)
    requires
        out.len() == fs.len() * xs.len(),
        forall|j: int, k: int|
            #![trigger fs[j], xs[k]]
            0 <= j < fs.len() && 0 <= k < xs.len() ==> on_clone(
                fs[j],
                xs[k],
                out[j * xs.len() + k],
            ),
    ensures
        forall|gs: Seq<spec_fn(A) -> B>| #[trigger]
            seq_computes(fs, gs) && clones_exactly(xs) ==> out == seq_apply(xs, gs),
{
    assert forall|gs: Seq<spec_fn(A) -> B>| #[trigger]
        seq_computes(fs, gs) && clones_exactly(xs) implies out == seq_apply(xs, gs) by {
        let n = xs.len() as int;
        let model = seq_apply(xs, gs);
        assert forall|i: int| 0 <= i < out.len() implies out[i] == model[i] by {
            assert(n > 0) by (nonlinear_arith)
                requires
                    0 <= i < fs.len() * n,
            ;
            lemma_cell_of_index(i, fs.len() as int, n);
            assert(on_clone(fs[i / n], xs[i % n], out[(i / n) * n + i % n]));
        }
    }
}

/// In a table of `m` rows of `n` cells laid out row by row, place `i` is
/// cell `i % n` of row `i / n`.
proof fn lemma_cell_of_index(i: int, m: int, n: int)
    requires
        0 <= i < m * n,
        0 < n,
    ensures
        0 <= i / n < m,
        0 <= i % n < n,
        i == (i / n) * n + i % n,
{
    vstd::arithmetic::div_mod::lemma_fundamental_div_mod(i, n);
    vstd::arithmetic::div_mod::lemma_mod_bound(i, n);
    let q = i / n;
    let r = i % n;
    assert(0 <= q < m) by (nonlinear_arith)
        requires
            0 <= i < m * n,
            i == n * q + r,
            0 <= r < n,
    ;
    assert(i == q * n + r) by (nonlinear_arith)
        requires
            i == n * q + r,
    ;
}

/// In a table with rows of `n` cells laid out row by row, cell `k` of row
/// `j` is at place `j * n + k`, which determines `j` and `k`.
proof fn lemma_index_of_cell(j: int, k: int, m: int, n: int)
    requires
        0 <= j < m,
        0 <= k < n,
    ensures
        0 <= j * n + k < m * n,
        (j * n + k) / n == j,
        (j * n + k) % n == k,
{
    lemma_fundamental_div_mod_converse(j * n + k, n, j, k);
    assert(0 <= j * n + k < m * n) by (nonlinear_arith)
        requires
            0 <= j < m,
            0 <= k < n,
    ;
}

/// `seq_apply` lays its results out function by function: the result of
/// function `j` on element `k` stands at place `j * xs.len() + k`.
pub proof fn lemma_seq_apply_index<A, B>(xs: Seq<A>, gs: Seq<spec_fn(A) -> B>, j: int, k: int)
    requires
        0 <= j < gs.len(),
        0 <= k < xs.len(),
    ensures
        seq_apply(xs, gs).len() == gs.len() * xs.len(),
        0 <= j * xs.len() + k < seq_apply(xs, gs).len(),
        seq_apply(xs, gs)[j * xs.len() + k] == gs[j](xs[k]),
{
    lemma_index_of_cell(j, k, gs.len() as int, xs.len() as int);
}

/// With no elements or no functions, `seq_apply` is empty.
pub proof fn lemma_seq_apply_empty<A, B>(xs: Seq<A>, gs: Seq<spec_fn(A) -> B>)
    requires
        xs.len() == 0 || gs.len() == 0,
    ensures
        seq_apply(xs, gs) == Seq::<B>::empty(),
{
    assert(gs.len() * xs.len() == 0) by (nonlinear_arith)
        requires
            xs.len() == 0 || gs.len() == 0,
    ;
}

/// Functor identity: mapping the identity function changes nothing.
pub proof fn seq_functor_identity<A>(xs: Seq<A>)
    ensures
        seq_fmap(xs, |a: A| a) == xs,
{
}

/// Functor composition: mapping `f` and then `g` is mapping "`g` after `f`"
/// once.
pub proof fn seq_functor_composition<A, B, C>(xs: Seq<A>, f: spec_fn(A) -> B, g: spec_fn(B) -> C)
    ensures
        seq_fmap(seq_fmap(xs, f), g) == seq_fmap(xs, |a: A| g(f(a))),
{
}

/// Applicative identity: applying the lifted identity function changes
/// nothing.
pub proof fn seq_applicative_identity<A>(v: Seq<A>)
    ensures
        seq_apply(v, seq![|a: A| a]) == v,
{
    let gs = seq![|a: A| a];
    let r = seq_apply(v, gs);
    assert(r.len() == v.len()) by (nonlinear_arith)
        requires
            r.len() == gs.len() * v.len(),
            gs.len() == 1,
    ;
    assert forall|i: int| 0 <= i < v.len() implies r[i] == v[i] by {
        lemma_index_of_cell(0, i, 1, v.len() as int);
    }
}

/// Applicative homomorphism: applying a lifted function to a lifted value is
/// lifting the function's result.
pub proof fn seq_applicative_homomorphism<A, B>(x: A, f: spec_fn(A) -> B)
    ensures
        seq_apply(seq![x], seq![f]) == seq![f(x)],
{
    let r = seq_apply(seq![x], seq![f]);
    lemma_seq_apply_index(seq![x], seq![f], 0, 0);
    assert(r.len() == 1) by (nonlinear_arith)
        requires
            r.len() == 1 * 1,
    ;
}

/// Applicative interchange: applying held functions to a lifted value `y` is
/// applying the lifted "call with `y`" to the held functions.
pub proof fn seq_applicative_interchange<A, B>(u: Seq<spec_fn(A) -> B>, y: A)
    ensures
        seq_apply(seq![y], u) == seq_apply(u, seq![|f: spec_fn(A) -> B| f(y)]),
{
    let left = seq_apply(seq![y], u);
    let right = seq_apply(u, seq![|f: spec_fn(A) -> B| f(y)]);
    assert(left.len() == u.len() && right.len() == u.len()) by (nonlinear_arith)
        requires
            left.len() == u.len() * 1,
            right.len() == 1 * u.len(),
    ;
    assert forall|i: int| 0 <= i < u.len() implies left[i] == right[i] by {
        lemma_index_of_cell(i, 0, u.len() as int, 1);
        lemma_index_of_cell(0, i, 1, u.len() as int);
    }
}

/// Applicative composition: applying `v` and then `u` to `w` is applying to
/// `w` the functions obtained by composing those of `u` with those of `v`.
pub proof fn seq_applicative_composition<A, B, C>(
    u: Seq<spec_fn(B) -> C>,
    v: Seq<spec_fn(A) -> B>,
    w: Seq<A>,
)
    ensures
        seq_apply(seq_apply(w, v), u) == seq_apply(
            w,
            seq_apply(
                v,
                seq_apply(u, seq![|f: spec_fn(B) -> C| |g: spec_fn(A) -> B| |a: A| f(g(a))]),
            ),
        ),
{
    let compose = |f: spec_fn(B) -> C| |g: spec_fn(A) -> B| |a: A| f(g(a));
    let vw = seq_apply(w, v);
    let left = seq_apply(vw, u);
    let uc = seq_apply(u, seq![compose]);
    let vuc = seq_apply(v, uc);
    let right = seq_apply(w, vuc);
    let nu = u.len() as int;
    let nv = v.len() as int;
    let nw = w.len() as int;
    assert(uc.len() == nu) by (nonlinear_arith)
        requires
            uc.len() == 1 * nu,
    ;
    assert(left.len() == right.len()) by (nonlinear_arith)
        requires
            left.len() == nu * (nv * nw),
            right.len() == (nu * nv) * nw,
    ;
    assert forall|i: int| 0 <= i < left.len() implies left[i] == right[i] by {
        assert(nw > 0 && nv > 0) by (nonlinear_arith)
            requires
                0 <= i < nu * (nv * nw),
                nv >= 0,
                nw >= 0,
        ;
        lemma_cell_of_index(i, nu * nv, nw);
        // On the right, place `i` is element `l` under function `t`, which
        // is function `k` of `v` under function `j` of `u`.
        let t = i / nw;
        let l = i % nw;
        lemma_cell_of_index(t, nu, nv);
        let j = t / nv;
        let k = t % nv;
        lemma_index_of_cell(0, j, 1, nu);
        // On the left, place `i` is element `k * nw + l` of `seq_apply(w, v)`
        // under function `j` of `u`.
        lemma_index_of_cell(k, l, nv, nw);
        assert(i == j * (nv * nw) + (k * nw + l)) by (nonlinear_arith)
            requires
                i == t * nw + l,
                t == j * nv + k,
        ;
        lemma_index_of_cell(j, k * nw + l, nu, nv * nw);
    }
}

/// Binding over one more element adds what `g` returns on it at the end.
proof fn lemma_seq_bind_push<A, B>(xs: Seq<A>, x: A, g: spec_fn(A) -> Seq<B>)
    ensures
        seq_bind(xs.push(x), g) == seq_bind(xs, g) + g(x),
{
    assert(xs.push(x).map_values(g) =~= xs.map_values(g).push(g(x)));
    xs.map_values(g).lemma_flatten_push(g(x));
}

/// Binding over two sequences in a row is binding over each and joining.
proof fn lemma_seq_bind_concat<A, B>(xs: Seq<A>, ys: Seq<A>, g: spec_fn(A) -> Seq<B>)
    ensures
        seq_bind(xs + ys, g) == seq_bind(xs, g) + seq_bind(ys, g),
{
    assert((xs + ys).map_values(g) =~= xs.map_values(g) + ys.map_values(g));
    vstd::seq_lib::lemma_flatten_concat(xs.map_values(g), ys.map_values(g));
}

/// Monad left identity: binding a lifted value to `f` is `f` of that value.
pub proof fn seq_monad_left_identity<A, B>(a: A, f: spec_fn(A) -> Seq<B>)
    ensures
        seq_bind(seq![a], f) == f(a),
{
    let parts = seq![a].map_values(f);
    parts.lemma_flatten_one_element();
}

/// Monad right identity: binding to the lifting function changes nothing.
pub proof fn seq_monad_right_identity<A>(m: Seq<A>)
    ensures
        seq_bind(m, |a: A| seq![a]) == m,
    decreases m.len(),
{
    let lift = |a: A| seq![a];
    if m.len() == 0 {
    } else {
        seq_monad_right_identity(m.drop_last());
        lemma_seq_bind_push(m.drop_last(), m.last(), lift);
        assert(m.drop_last().push(m.last()) =~= m);
    }
}

/// Monad associativity: binding `f` and then `g` is binding the step that
/// runs `f` and binds its result to `g`.
pub proof fn seq_monad_associativity<A, B, C>(
    m: Seq<A>,
    f: spec_fn(A) -> Seq<B>,
    g: spec_fn(B) -> Seq<C>,
)
    ensures
        seq_bind(seq_bind(m, f), g) == seq_bind(m, |a: A| seq_bind(f(a), g)),
    decreases m.len(),
{
    let step = |a: A| seq_bind(f(a), g);
    if m.len() == 0 {
    } else {
        let init = m.drop_last();
        let x = m.last();
        assert(init.push(x) =~= m);
        seq_monad_associativity(init, f, g);
        lemma_seq_bind_push(init, x, f);
        lemma_seq_bind_push(init, x, step);
        lemma_seq_bind_concat(seq_bind(init, f), f(x), g);
    }
}

} // verus!
