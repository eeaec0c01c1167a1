//! Fixed-point vectors and square matrices.
//!
//! A vector is a `Vec<i64>` of the channel count's length; a matrix is a
//! `Vec` of such rows.  Every executable operation mirrors a spec function
//! over `Seq`, so the engine's contracts can state the exact value of each
//! entry the adaptation rule produces.

use vstd::prelude::*;
use crate::fixed::{SCALE, fx_mul, fx_mul_spec, sat_add, sat_add_spec, sat_sub, sat_sub_spec};
use crate::score::{Density, phi_spec};

verus! {

/// The rows of a matrix held as a `Vec` of rows, as a sequence of sequences.
pub open spec fn mview(m: Seq<Vec<i64>>) -> Seq<Seq<i64>> {
    Seq::new(m.len(), |i: int| m[i]@)
}

/// A square matrix of the given dimension.
pub open spec fn wf_mat(m: Seq<Seq<i64>>, dim: nat) -> bool {
    m.len() == dim && forall|i: int| 0 <= i < dim ==> (#[trigger] m[i]).len() == dim
}

/// Saturating dot product of the first `n` entries, accumulated left to right.
pub open spec fn dot_prefix(r: Seq<i64>, x: Seq<i64>, n: int) -> i64
    decreases n,
{
    if n <= 0 {
        0
    } else {
        sat_add_spec(dot_prefix(r, x, n - 1), fx_mul_spec(r[n - 1], x[n - 1]))
    }
}

/// Saturating dot product of two vectors of equal length.
pub open spec fn dot_spec(r: Seq<i64>, x: Seq<i64>) -> i64 {
    dot_prefix(r, x, r.len() as int)
}

/// Matrix-vector product `m * x`.
pub open spec fn mat_vec_spec(m: Seq<Seq<i64>>, x: Seq<i64>) -> Seq<i64> {
    Seq::new(m.len(), |i: int| dot_spec(m[i], x))
}

/// A vector of zero magnitude: every component is zero.
pub open spec fn is_zero_spec(v: Seq<i64>) -> bool {
    forall|i: int| 0 <= i < v.len() ==> v[i] == 0
}

/// The score function applied elementwise.
pub open spec fn phi_vec_spec(d: Density, v: Seq<i64>) -> Seq<i64> {
    Seq::new(v.len(), |i: int| phi_spec(d, v[i]))
}

/// An entry of the identity matrix: fixed-point one on the diagonal.
pub open spec fn ident_entry(i: int, j: int) -> i64 {
    if i == j {
        SCALE
    } else {
        0
    }
}

/// The identity matrix of the given dimension.
pub open spec fn ident_spec(dim: nat) -> Seq<Seq<i64>> {
    Seq::new(dim, |i: int| Seq::new(dim, |j: int| ident_entry(i, j)))
}

/// The rank-one-plus-identity update factor `U = I + g * y^T`.
pub open spec fn update_factor_spec(g: Seq<i64>, y: Seq<i64>) -> Seq<Seq<i64>> {
    Seq::new(
        g.len(),
        |i: int| Seq::new(y.len(), |j: int| sat_add_spec(ident_entry(i, j), fx_mul_spec(g[i], y[j]))),
    )
}

/// Entry `(i, j)` of a matrix product, summed over the first `n` terms.
pub open spec fn mm_entry_prefix(arow: Seq<i64>, b: Seq<Seq<i64>>, j: int, n: int) -> i64
    decreases n,
{
    if n <= 0 {
        0
    } else {
        sat_add_spec(mm_entry_prefix(arow, b, j, n - 1), fx_mul_spec(arow[n - 1], b[n - 1][j]))
    }
}

/// Square matrix product `a * b`.
pub open spec fn mat_mul_spec(a: Seq<Seq<i64>>, b: Seq<Seq<i64>>) -> Seq<Seq<i64>> {
    Seq::new(
        a.len(),
        |i: int| Seq::new(a.len(), |j: int| mm_entry_prefix(a[i], b, j, a[i].len() as int)),
    )
}

/// Convex combination `(1 - mu) * w + mu * uw`, elementwise.
pub open spec fn blend_spec(mu: i64, w: Seq<Seq<i64>>, uw: Seq<Seq<i64>>) -> Seq<Seq<i64>> {
    Seq::new(
        w.len(),
        |i: int| Seq::new(
            w[i].len(),
            |j: int| sat_add_spec(
                fx_mul_spec(sat_sub_spec(SCALE, mu), w[i][j]),
                fx_mul_spec(mu, uw[i][j]),
            ),
        ),
    )
}

/// A vector of zeros.
pub fn zero_vec(dim: usize) -> (v: Vec<i64>)
    ensures
        v@.len() == dim,
        forall|i: int| 0 <= i < dim ==> v@[i] == 0,
{
    let mut v: Vec<i64> = Vec::new();
    let mut i: usize = 0;
    while i < dim
        invariant
            i <= dim,
            v@.len() == i,
            forall|k: int| 0 <= k < i ==> v@[k] == 0,
        decreases dim - i,
    {
        v.push(0);
        i = i + 1;
    }
    v
}

/// The identity matrix.
pub fn identity(dim: usize) -> (m: Vec<Vec<i64>>)
    ensures
        mview(m@) == ident_spec(dim as nat),
{
    let mut m: Vec<Vec<i64>> = Vec::new();
    let mut i: usize = 0;
    while i < dim
        invariant
            i <= dim,
            m@.len() == i,
            forall|k: int| 0 <= k < i ==> (#[trigger] m@[k])@ == Seq::new(
                dim as nat,
                |j: int| ident_entry(k, j),
            ),
        decreases dim - i,
    {
        let mut row: Vec<i64> = Vec::new();
        let mut j: usize = 0;
        while j < dim
            invariant
                j <= dim,
                row@.len() == j,
                forall|k: int| 0 <= k < j ==> row@[k] == ident_entry(i as int, k),
            decreases dim - j,
        {
            if i == j {
                row.push(SCALE);
            } else {
                row.push(0);
            }
            j = j + 1;
        }
        proof {
            assert(row@ =~= Seq::new(dim as nat, |j: int| ident_entry(i as int, j)));
        }
        m.push(row);
        i = i + 1;
    }
    proof {
        assert(mview(m@) =~= ident_spec(dim as nat));
    }
    m
}

/// Saturating dot product.
pub fn dot(r: &Vec<i64>, x: &Vec<i64>) -> (s: i64)
    requires
        r@.len() == x@.len(),
    ensures
        s == dot_spec(r@, x@),
{
    let n = r.len();
    let mut acc: i64 = 0;
    let mut j: usize = 0;
    while j < n
        invariant
            n == r@.len(),
            r@.len() == x@.len(),
            j <= n,
            acc == dot_prefix(r@, x@, j as int),
        decreases n - j,
    {
        acc = sat_add(acc, fx_mul(r[j], x[j]));
        j = j + 1;
    }
    acc
}

/// Matrix-vector product.
pub fn mat_vec(m: &Vec<Vec<i64>>, x: &Vec<i64>) -> (y: Vec<i64>)
    requires
        forall|i: int| 0 <= i < m@.len() ==> (#[trigger] m@[i])@.len() == x@.len(),
    ensures
        y@ == mat_vec_spec(mview(m@), x@),
{
    let mut y: Vec<i64> = Vec::new();
    let mut i: usize = 0;
    let n = m.len();
    while i < n
        invariant
            n == m@.len(),
            forall|k: int| 0 <= k < m@.len() ==> (#[trigger] m@[k])@.len() == x@.len(),
            i <= n,
            y@.len() == i,
            forall|k: int| 0 <= k < i ==> y@[k] == dot_spec(m@[k]@, x@),
        decreases n - i,
    {
        let s = dot(&m[i], x);
        y.push(s);
        i = i + 1;
    }
    proof {
        assert(y@ =~= mat_vec_spec(mview(m@), x@));
    }
    y
}

/// Whether the vector has zero magnitude.
pub fn is_zero(v: &Vec<i64>) -> (b: bool)
    ensures
        b == is_zero_spec(v@),
{
    let mut i: usize = 0;
    let n = v.len();
    while i < n
        invariant
            n == v@.len(),
            i <= n,
            forall|k: int| 0 <= k < i ==> v@[k] == 0,
        decreases n - i,
    {
        if v[i] != 0 {
            return false;
        }
        i = i + 1;
    }
    true
}

/// The score function applied elementwise.
pub fn phi_vec(d: Density, v: &Vec<i64>) -> (g: Vec<i64>)
    ensures
        g@ == phi_vec_spec(d, v@),
{
    let mut g: Vec<i64> = Vec::new();
    let mut i: usize = 0;
    let n = v.len();
    while i < n
        invariant
            n == v@.len(),
            i <= n,
            g@.len() == i,
            forall|k: int| 0 <= k < i ==> g@[k] == phi_spec(d, v@[k]),
        decreases n - i,
    {
        let s = d.apply(v[i]);
        g.push(s);
        i = i + 1;
    }
    proof {
        assert(g@ =~= phi_vec_spec(d, v@));
    }
    g
}

/// The update factor `U = I + g * y^T`.
pub fn update_factor(g: &Vec<i64>, y: &Vec<i64>) -> (u: Vec<Vec<i64>>)
    requires
        g@.len() == y@.len(),
    ensures
        mview(u@) == update_factor_spec(g@, y@),
{
    let n = g.len();
    let mut u: Vec<Vec<i64>> = Vec::new();
    let mut i: usize = 0;
    while i < n
        invariant
            n == g@.len(),
            g@.len() == y@.len(),
            i <= n,
            u@.len() == i,
            forall|k: int| 0 <= k < i ==> (#[trigger] u@[k])@ == Seq::new(
                y@.len(),
                |j: int| sat_add_spec(ident_entry(k, j), fx_mul_spec(g@[k], y@[j])),
            ),
        decreases n - i,
    {
        let mut row: Vec<i64> = Vec::new();
        let mut j: usize = 0;
        while j < n
            invariant
                n == g@.len(),
                g@.len() == y@.len(),
                i < n,
                j <= n,
                row@.len() == j,
                forall|k: int| 0 <= k < j ==> row@[k] == sat_add_spec(
                    ident_entry(i as int, k),
                    fx_mul_spec(g@[i as int], y@[k]),
                ),
            decreases n - j,
        {
            let diag: i64 = if i == j {
                SCALE
            } else {
                0
            };
            let e = sat_add(diag, fx_mul(g[i], y[j]));
            row.push(e);
            j = j + 1;
        }
        proof {
            assert(row@ =~= Seq::new(
                y@.len(),
                |j: int| sat_add_spec(ident_entry(i as int, j), fx_mul_spec(g@[i as int], y@[j])),
            ));
        }
        u.push(row);
        i = i + 1;
    }
    proof {
        assert(mview(u@) =~= update_factor_spec(g@, y@));
    }
    u
}

/// Square matrix product.
pub fn mat_mul(a: &Vec<Vec<i64>>, b: &Vec<Vec<i64>>) -> (c: Vec<Vec<i64>>)
    requires
        b@.len() == a@.len(),
        forall|i: int| 0 <= i < a@.len() ==> (#[trigger] a@[i])@.len() == a@.len(),
        forall|i: int| 0 <= i < b@.len() ==> (#[trigger] b@[i])@.len() == b@.len(),
    ensures
        mview(c@) == mat_mul_spec(mview(a@), mview(b@)),
{
    let n = a.len();
    let mut c: Vec<Vec<i64>> = Vec::new();
    let mut i: usize = 0;
    while i < n
        invariant
            n == a@.len(),
            b@.len() == a@.len(),
            forall|k: int| 0 <= k < a@.len() ==> (#[trigger] a@[k])@.len() == a@.len(),
            forall|k: int| 0 <= k < b@.len() ==> (#[trigger] b@[k])@.len() == b@.len(),
            i <= n,
            c@.len() == i,
            forall|k: int| 0 <= k < i ==> (#[trigger] c@[k])@ == Seq::new(
                a@.len(),
                |j: int| mm_entry_prefix(a@[k]@, mview(b@), j, a@.len() as int),
            ),
        decreases n - i,
    {
        let mut row: Vec<i64> = Vec::new();
        let mut j: usize = 0;
        while j < n
            invariant
                n == a@.len(),
                b@.len() == a@.len(),
                forall|k: int| 0 <= k < a@.len() ==> (#[trigger] a@[k])@.len() == a@.len(),
                forall|k: int| 0 <= k < b@.len() ==> (#[trigger] b@[k])@.len() == b@.len(),
                i < n,
                j <= n,
                row@.len() == j,
                forall|k: int| 0 <= k < j ==> row@[k] == mm_entry_prefix(
                    a@[i as int]@,
                    mview(b@),
                    k,
                    a@.len() as int,
                ),
            decreases n - j,
        {
            let mut acc: i64 = 0;
            let mut k: usize = 0;
            while k < n
                invariant
                    n == a@.len(),
                    b@.len() == a@.len(),
                    forall|q: int| 0 <= q < a@.len() ==> (#[trigger] a@[q])@.len() == a@.len(),
                    forall|q: int| 0 <= q < b@.len() ==> (#[trigger] b@[q])@.len() == b@.len(),
                    i < n,
                    j < n,
                    k <= n,
                    acc == mm_entry_prefix(a@[i as int]@, mview(b@), j as int, k as int),
                decreases n - k,
            {
                acc = sat_add(acc, fx_mul(a[i][k], b[k][j]));
                k = k + 1;
            }
            row.push(acc);
            j = j + 1;
        }
        proof {
            assert(row@ =~= Seq::new(
                a@.len(),
                |j: int| mm_entry_prefix(a@[i as int]@, mview(b@), j, a@.len() as int),
            ));
        }
        c.push(row);
        i = i + 1;
    }
    proof {
        assert(mview(c@) =~= mat_mul_spec(mview(a@), mview(b@)));
    }
    c
}

/// Convex combination `(1 - mu) * w + mu * uw`, elementwise.
pub fn blend(mu: i64, w: &Vec<Vec<i64>>, uw: &Vec<Vec<i64>>) -> (r: Vec<Vec<i64>>)
    requires
        uw@.len() == w@.len(),
        forall|i: int| 0 <= i < w@.len() ==> (#[trigger] uw@[i])@.len() == (#[trigger] w@[i])@.len(),
    ensures
        mview(r@) == blend_spec(mu, mview(w@), mview(uw@)),
{
    let one_minus_mu = sat_sub(SCALE, mu);
    let n = w.len();
    let mut r: Vec<Vec<i64>> = Vec::new();
    let mut i: usize = 0;
    while i < n
        invariant
            n == w@.len(),
            uw@.len() == w@.len(),
            forall|k: int| 0 <= k < w@.len() ==> (#[trigger] uw@[k])@.len() == (
            #[trigger] w@[k])@.len(),
            one_minus_mu == sat_sub_spec(SCALE, mu),
            i <= n,
            r@.len() == i,
            forall|k: int| 0 <= k < i ==> (#[trigger] r@[k])@ == Seq::new(
                w@[k]@.len(),
                |j: int| sat_add_spec(
                    fx_mul_spec(sat_sub_spec(SCALE, mu), w@[k]@[j]),
                    fx_mul_spec(mu, uw@[k]@[j]),
                ),
            ),
        decreases n - i,
    {
        let width = w[i].len();
        let mut row: Vec<i64> = Vec::new();
        let mut j: usize = 0;
        while j < width
            invariant
                n == w@.len(),
                uw@.len() == w@.len(),
                i < n,
                width == w@[i as int]@.len(),
                uw@[i as int]@.len() == w@[i as int]@.len(),
                one_minus_mu == sat_sub_spec(SCALE, mu),
                j <= width,
                row@.len() == j,
                forall|k: int| 0 <= k < j ==> row@[k] == sat_add_spec(
                    fx_mul_spec(sat_sub_spec(SCALE, mu), w@[i as int]@[k]),
                    fx_mul_spec(mu, uw@[i as int]@[k]),
                ),
            decreases width - j,
        {
            let e = sat_add(fx_mul(one_minus_mu, w[i][j]), fx_mul(mu, uw[i][j]));
            row.push(e);
            j = j + 1;
        }
        proof {
            assert(row@ =~= Seq::new(
                w@[i as int]@.len(),
                |j: int| sat_add_spec(
                    fx_mul_spec(sat_sub_spec(SCALE, mu), w@[i as int]@[j]),
                    fx_mul_spec(mu, uw@[i as int]@[j]),
                ),
            ));
        }
        r.push(row);
        i = i + 1;
    }
    proof {
        assert(mview(r@) =~= blend_spec(mu, mview(w@), mview(uw@)));
    }
    r
}


/// An element-for-element copy of a vector.
pub fn copy_vec(v: &Vec<i64>) -> (r: Vec<i64>)
    ensures
        r@ == v@,
{
    let mut r: Vec<i64> = Vec::new();
    let mut i: usize = 0;
    let n = v.len();
    while i < n
        invariant
            n == v@.len(),
            i <= n,
            r@.len() == i,
            forall|k: int| 0 <= k < i ==> r@[k] == v@[k],
        decreases n - i,
    {
        r.push(v[i]);
        i = i + 1;
    }
    proof {
        assert(r@ =~= v@);
    }
    r
}

/// A row-for-row copy of a matrix.
pub fn copy_mat(m: &Vec<Vec<i64>>) -> (r: Vec<Vec<i64>>)
    ensures
        mview(r@) == mview(m@),
{
    let mut r: Vec<Vec<i64>> = Vec::new();
    let mut i: usize = 0;
    let n = m.len();
    while i < n
        invariant
            n == m@.len(),
            i <= n,
            r@.len() == i,
            forall|k: int| 0 <= k < i ==> (#[trigger] r@[k])@ == m@[k]@,
        decreases n - i,
    {
        let row = copy_vec(&m[i]);
        r.push(row);
        i = i + 1;
    }
    proof {
        assert(mview(r@) =~= mview(m@));
    }
    r
}

} // verus!
