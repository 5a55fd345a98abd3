//! Vector similarity over fixed-point embeddings.
//!
//! An embedding is a vector of 16-bit signed fixed-point components. The
//! cosine of the angle between two such vectors is kept as exact integer
//! data (the dot product and the two squared magnitudes), so similarities
//! are compared without rounding.

use vstd::prelude::*;

verus! {

/// Largest number of components an embedding can have. With 16-bit
/// components this keeps every dot product within 63 bits.
pub const MAX_DIMENSION: usize = 0xFFFF_FFFF;

/// A vector of fixed-point components, at most `MAX_DIMENSION` long.
#[derive(Debug)]
pub struct Embedding {
    components: Vec<i16>,
}

impl View for Embedding {
    type V = Seq<int>;

    closed spec fn view(&self) -> Seq<int> {
        Seq::new(self.components@.len(), |i: int| self.components@[i] as int)
    }
}

/// Whether every element of `v` is a 16-bit signed value.
pub open spec fn components_in_range(v: Seq<int>) -> bool {
    forall|i: int| 0 <= i < v.len() ==> -0x8000 <= #[trigger] v[i] <= 0x7FFF
}

/// The integers that the elements of `v` stand for.
pub open spec fn component_values(v: Seq<i16>) -> Seq<int> {
    Seq::new(v.len(), |i: int| v[i] as int)
}

impl Embedding {
    #[verifier::type_invariant]
    closed spec fn bounded(self) -> bool {
        self.components@.len() <= MAX_DIMENSION
    }

    /// Wraps `components`, or refuses them when there are more than
    /// `MAX_DIMENSION`.
    pub fn new(components: Vec<i16>) -> (r: Option<Embedding>)
        ensures
            r is Some <==> components@.len() <= MAX_DIMENSION,
            r matches Some(e) ==> e@ == component_values(components@),
    {
        if components.len() <= MAX_DIMENSION {
            Some(Embedding { components })
        } else {
            None
        }
    }

    /// Number of components.
    pub fn dimension(&self) -> (n: usize)
        ensures
            n == self@.len(),
            n <= MAX_DIMENSION,
    {
        proof {
            use_type_invariant(self);
        }
        self.components.len()
    }

    /// A copy of the components.
    pub fn components(&self) -> (r: Vec<i16>)
        ensures
            component_values(r@) == self@,
    {
        let n: usize = self.components.len();
        let mut components: Vec<i16> = Vec::new();
        let mut i: usize = 0;
        while i < n
            invariant
                i <= n,
                n == self.components@.len(),
                components@ == self.components@.take(i as int),
            decreases n - i,
        {
            components.push(self.components[i]);
            i += 1;
        }
        assert(components@ == self.components@);
        components
    }

    /// A copy of this embedding.
    pub fn duplicate(&self) -> (r: Embedding)
        ensures
            r@ == self@,
    {
        proof {
            use_type_invariant(self);
        }
        let components = self.components();
        assert(components@.len() == self@.len());
        Embedding { components }
    }
}

/// Sum of the products of the first `n` components of `a` and `b`.
pub open spec fn dot_prefix(a: Seq<int>, b: Seq<int>, n: nat) -> int
    decreases n,
{
    if n == 0 {
        0
    } else {
        dot_prefix(a, b, (n - 1) as nat) + a[n - 1] * b[n - 1]
    }
}

/// Dot product of two vectors of the same length.
pub open spec fn dot(a: Seq<int>, b: Seq<int>) -> int {
    dot_prefix(a, b, a.len())
}

/// Squared magnitude of a vector.
pub open spec fn norm_sq(a: Seq<int>) -> int {
    dot(a, a)
}

/// The cosine of an angle as exact data: it stands for the number
/// `dot / sqrt(norm_sq_a * norm_sq_b)`, with both squared magnitudes
/// positive.
pub struct Cosine {
    pub dot: int,
    pub norm_sq_a: int,
    pub norm_sq_b: int,
}

impl Cosine {
    /// The number is greater than zero.
    pub open spec fn is_positive(self) -> bool {
        self.dot > 0
    }

    /// The number is exactly one.
    pub open spec fn is_one(self) -> bool {
        self.dot > 0 && self.dot * self.dot == self.norm_sq_a * self.norm_sq_b
    }

    /// The number lies in `[-1, 1]`.
    pub open spec fn is_bounded(self) -> bool {
        self.dot * self.dot <= self.norm_sq_a * self.norm_sq_b
    }

    /// The number is strictly greater than `other`. Two quotients with
    /// positive denominators are compared by their signs and, where the
    /// signs agree, by their cross-multiplied squares.
    pub open spec fn exceeds(self, other: Cosine) -> bool {
        let left = self.dot * self.dot * (other.norm_sq_a * other.norm_sq_b);
        let right = other.dot * other.dot * (self.norm_sq_a * self.norm_sq_b);
        if self.dot > 0 {
            other.dot <= 0 || left > right
        } else {
            other.dot < 0 && left < right
        }
    }
}

/// Cosine similarity of `a` and `b`: undefined when the lengths differ,
/// when the vectors are empty, or when either has zero magnitude.
pub open spec fn cosine(a: Seq<int>, b: Seq<int>) -> Option<Cosine> {
    if a.len() != b.len() || a.len() == 0 || norm_sq(a) == 0 || norm_sq(b) == 0 {
        None
    } else {
        Some(Cosine { dot: dot(a, b), norm_sq_a: norm_sq(a), norm_sq_b: norm_sq(b) })
    }
}

/// A computed cosine similarity.
#[derive(Clone, Copy, Debug)]
pub struct Similarity {
    pub dot: i64,
    pub norm_sq_a: u64,
    pub norm_sq_b: u64,
}

impl View for Similarity {
    type V = Cosine;

    open spec fn view(&self) -> Cosine {
        Cosine {
            dot: self.dot as int,
            norm_sq_a: self.norm_sq_a as int,
            norm_sq_b: self.norm_sq_b as int,
        }
    }
}

proof fn lemma_product_bound(x: int, y: int)
    requires
        -0x8000 <= x <= 0x7FFF,
        -0x8000 <= y <= 0x7FFF,
    ensures
        -0x4000_0000 <= x * y <= 0x4000_0000,
        0 <= x * x,
{
    assert(-0x4000_0000 <= x * y <= 0x4000_0000 && 0 <= x * x) by (nonlinear_arith)
        requires
            -0x8000 <= x <= 0x7FFF,
            -0x8000 <= y <= 0x7FFF,
    ;
}

/// A dot product of `n` pairs of 16-bit components has magnitude at most
/// `n * 2^30`.
pub proof fn lemma_dot_prefix_bound(a: Seq<int>, b: Seq<int>, n: nat)
    requires
        components_in_range(a),
        components_in_range(b),
        n <= a.len(),
        n <= b.len(),
    ensures
        -(n * 0x4000_0000) <= dot_prefix(a, b, n) <= n * 0x4000_0000,
    decreases n,
{
    if n > 0 {
        lemma_dot_prefix_bound(a, b, (n - 1) as nat);
        lemma_product_bound(a[n - 1], b[n - 1]);
    }
}

/// Squared magnitudes are never negative.
pub proof fn lemma_norm_prefix_nonnegative(a: Seq<int>, n: nat)
    ensures
        0 <= dot_prefix(a, a, n),
    decreases n,
{
    if n > 0 {
        lemma_norm_prefix_nonnegative(a, (n - 1) as nat);
        let x = a[n - 1];
        assert(0 <= x * x) by (nonlinear_arith);
    }
}

/// The cosine similarity of two embeddings.
pub fn cosine_similarity(a: &Embedding, b: &Embedding) -> (r: Option<Similarity>)
    ensures
        match r {
            Some(s) => cosine(a@, b@) == Some(s@),
            None => cosine(a@, b@) is None,
        },
{
    let n: usize = a.components.len();
    if n != b.components.len() || n == 0 {
        return None;
    }
    proof {
        use_type_invariant(a);
        use_type_invariant(b);
    }
    let mut dot: i64 = 0;
    let mut norm_sq_a: u64 = 0;
    let mut norm_sq_b: u64 = 0;
    let mut i: usize = 0;
    while i < n
        invariant
            i <= n,
            n == a.components@.len(),
            n == b.components@.len(),
            n <= MAX_DIMENSION,
            a@.len() == n,
            b@.len() == n,
            components_in_range(a@),
            components_in_range(b@),
            forall|k: int| 0 <= k < n ==> a@[k] == a.components@[k] as int,
            forall|k: int| 0 <= k < n ==> b@[k] == b.components@[k] as int,
            dot == dot_prefix(a@, b@, i as nat),
            norm_sq_a == dot_prefix(a@, a@, i as nat),
            norm_sq_b == dot_prefix(b@, b@, i as nat),
        decreases n - i,
    {
        let x: i64 = a.components[i] as i64;
        let y: i64 = b.components[i] as i64;
        proof {
            lemma_dot_prefix_bound(a@, b@, i as nat);
            lemma_dot_prefix_bound(a@, a@, i as nat);
            lemma_dot_prefix_bound(b@, b@, i as nat);
            lemma_product_bound(x as int, y as int);
            lemma_product_bound(x as int, x as int);
            lemma_product_bound(y as int, y as int);
        }
        dot = dot + x * y;
        norm_sq_a = norm_sq_a + (x * x) as u64;
        norm_sq_b = norm_sq_b + (y * y) as u64;
        i += 1;
    }
    if norm_sq_a == 0 || norm_sq_b == 0 {
        None
    } else {
        Some(Similarity { dot, norm_sq_a, norm_sq_b })
    }
}

/// One step of the induction behind the Cauchy-Schwarz inequality: if
/// `d^2 <= a * b` for non-negative `a` and `b`, the inequality survives
/// one more pair of components `x`, `y`.
proof fn lemma_cauchy_schwarz_step(d: int, a: int, b: int, x: int, y: int)
    requires
        0 <= a,
        0 <= b,
        d * d <= a * b,
    ensures
        (d + x * y) * (d + x * y) <= (a + x * x) * (b + y * y),
{
    let p = a * (y * y);
    let q = b * (x * x);
    let t = 2 * d * (x * y);
    let w = (x * x) * (y * y);
    assert(0 <= x * x && 0 <= y * y) by (nonlinear_arith);
    assert(0 <= w) by (nonlinear_arith)
        requires
            w == (x * x) * (y * y),
            0 <= x * x,
            0 <= y * y,
    ;
    assert(0 <= p && 0 <= q) by (nonlinear_arith)
        requires
            p == a * (y * y),
            q == b * (x * x),
            0 <= a,
            0 <= b,
            0 <= x * x,
            0 <= y * y,
    ;
    assert(t * t == 4 * ((d * d) * w)) by (nonlinear_arith)
        requires
            t == 2 * d * (x * y),
            w == (x * x) * (y * y),
    ;
    assert(4 * (p * q) == 4 * ((a * b) * w)) by (nonlinear_arith)
        requires
            p == a * (y * y),
            q == b * (x * x),
            w == (x * x) * (y * y),
    ;
    assert((d * d) * w <= (a * b) * w) by (nonlinear_arith)
        requires
            d * d <= a * b,
            0 <= w,
    ;
    assert(4 * (p * q) <= (p + q) * (p + q)) by (nonlinear_arith);
    assert(t * t <= (p + q) * (p + q));
    assert(t <= p + q) by (nonlinear_arith)
        requires
            t * t <= (p + q) * (p + q),
            0 <= p + q,
    ;
    assert((d + x * y) * (d + x * y) == d * d + t + w) by (nonlinear_arith)
        requires
            t == 2 * d * (x * y),
            w == (x * x) * (y * y),
    ;
    assert((a + x * x) * (b + y * y) == a * b + p + q + w) by (nonlinear_arith)
        requires
            p == a * (y * y),
            q == b * (x * x),
            w == (x * x) * (y * y),
    ;
}

/// The Cauchy-Schwarz inequality on prefixes: the square of a dot product
/// is at most the product of the two squared magnitudes.
pub proof fn lemma_cauchy_schwarz(a: Seq<int>, b: Seq<int>, n: nat)
    ensures
        dot_prefix(a, b, n) * dot_prefix(a, b, n) <= dot_prefix(a, a, n) * dot_prefix(b, b, n),
    decreases n,
{
    if n > 0 {
        let m = (n - 1) as nat;
        lemma_cauchy_schwarz(a, b, m);
        lemma_norm_prefix_nonnegative(a, m);
        lemma_norm_prefix_nonnegative(b, m);
        lemma_cauchy_schwarz_step(
            dot_prefix(a, b, m),
            dot_prefix(a, a, m),
            dot_prefix(b, b, m),
            a[n - 1],
            b[n - 1],
        );
    }
}

/// Both squared magnitudes of a defined cosine similarity are positive,
/// and so is their product.
pub proof fn lemma_cosine_magnitudes_positive(a: Seq<int>, b: Seq<int>)
    ensures
        cosine(a, b) matches Some(c) ==> c.norm_sq_a > 0 && c.norm_sq_b > 0 && c.norm_sq_a
            * c.norm_sq_b > 0,
{
    lemma_norm_prefix_nonnegative(a, a.len());
    lemma_norm_prefix_nonnegative(b, b.len());
    let x = norm_sq(a);
    let y = norm_sq(b);
    if x > 0 && y > 0 {
        assert(x * y > 0) by (nonlinear_arith)
            requires
                x > 0,
                y > 0,
        ;
    }
}

/// A defined cosine similarity lies in `[-1, 1]`.
pub proof fn lemma_cosine_is_bounded(a: Seq<int>, b: Seq<int>)
    ensures
        cosine(a, b) matches Some(c) ==> c.is_bounded(),
{
    if a.len() == b.len() {
        lemma_cauchy_schwarz(a, b, a.len());
    }
}

/// A prefix has zero squared magnitude exactly when all its components
/// are zero.
pub proof fn lemma_zero_norm_prefix(a: Seq<int>, n: nat)
    ensures
        dot_prefix(a, a, n) == 0 <==> forall|i: int| 0 <= i < n ==> a[i] == 0,
    decreases n,
{
    if n > 0 {
        let m = (n - 1) as nat;
        lemma_zero_norm_prefix(a, m);
        lemma_norm_prefix_nonnegative(a, m);
        let x = a[n - 1];
        assert(0 <= x * x && (x * x == 0 <==> x == 0)) by (nonlinear_arith);
        if dot_prefix(a, a, n) == 0 {
            assert forall|i: int| 0 <= i < n implies a[i] == 0 by {
                if i < m {
                } else {
                    assert(i == n - 1);
                }
            }
        }
    }
}

/// A vector has zero magnitude exactly when it is the zero vector.
pub proof fn lemma_zero_magnitude(a: Seq<int>)
    ensures
        norm_sq(a) == 0 <==> forall|i: int| 0 <= i < a.len() ==> a[i] == 0,
        norm_sq(a) >= 0,
{
    lemma_zero_norm_prefix(a, a.len());
    lemma_norm_prefix_nonnegative(a, a.len());
}

/// The similarity of a non-zero vector with itself is exactly one.
pub proof fn lemma_self_similarity_is_one(a: Seq<int>)
    requires
        exists|i: int| 0 <= i < a.len() && a[i] != 0,
    ensures
        cosine(a, a) matches Some(c) && c.is_one(),
{
    lemma_zero_magnitude(a);
}

/// The dot product does not depend on the order of its arguments.
pub proof fn lemma_dot_prefix_symmetric(a: Seq<int>, b: Seq<int>, n: nat)
    ensures
        dot_prefix(a, b, n) == dot_prefix(b, a, n),
    decreases n,
{
    if n > 0 {
        lemma_dot_prefix_symmetric(a, b, (n - 1) as nat);
        let x = a[n - 1];
        let y = b[n - 1];
        assert(x * y == y * x) by (nonlinear_arith);
    }
}

/// Cosine similarity is symmetric: swapping the vectors swaps the two
/// magnitudes and keeps the dot product.
pub proof fn lemma_cosine_symmetric(a: Seq<int>, b: Seq<int>)
    ensures
        cosine(a, b) is Some <==> cosine(b, a) is Some,
        cosine(a, b) matches Some(c) ==> cosine(b, a) == Some(
            Cosine { dot: c.dot, norm_sq_a: c.norm_sq_b, norm_sq_b: c.norm_sq_a },
        ),
{
    if a.len() == b.len() {
        lemma_dot_prefix_symmetric(a, b, a.len());
    }
}

/// Among positive similarities taken against the same vector, the common
/// magnitude cancels from the comparison.
pub proof fn lemma_exceeds_against_same(s: Cosine, t: Cosine)
    requires
        s.dot > 0,
        t.dot > 0,
        s.norm_sq_a > 0,
        t.norm_sq_a > 0,
        s.norm_sq_b > 0,
        s.norm_sq_b == t.norm_sq_b,
    ensures
        s.exceeds(t) <==> s.dot * s.dot * t.norm_sq_a > t.dot * t.dot * s.norm_sq_a,
{
    let q = s.norm_sq_b;
    let x = s.dot * s.dot * t.norm_sq_a;
    let y = t.dot * t.dot * s.norm_sq_a;
    assert(s.dot * s.dot * (t.norm_sq_a * q) == x * q) by (nonlinear_arith)
        requires
            x == s.dot * s.dot * t.norm_sq_a,
    ;
    assert(t.dot * t.dot * (s.norm_sq_a * q) == y * q) by (nonlinear_arith)
        requires
            y == t.dot * t.dot * s.norm_sq_a,
    ;
    assert(x * q > y * q <==> x > y) by (nonlinear_arith)
        requires
            q > 0,
    ;
}

/// No similarity exceeds itself, and of two similarities at most one
/// exceeds the other.
pub proof fn lemma_exceeds_asymmetric(s: Cosine, t: Cosine)
    ensures
        !s.exceeds(s),
        s.exceeds(t) ==> !t.exceeds(s),
{
}

/// Quotients with positive denominators are ordered transitively: if
/// `l / pl <= m / pm` and `m / pm <= h / ph`, one of them strictly, then
/// `l / pl < h / ph`, all stated by cross-multiplication.
proof fn lemma_quotients_in_order(l: int, pl: int, m: int, pm: int, h: int, ph: int)
    requires
        pl > 0,
        pm > 0,
        ph > 0,
        l * pm <= m * pl,
        m * ph <= h * pm,
        l * pm < m * pl || m * ph < h * pm,
    ensures
        l * ph < h * pl,
{
    assert((l * pm) * ph <= (m * pl) * ph) by (nonlinear_arith)
        requires
            l * pm <= m * pl,
            ph > 0,
    ;
    assert((m * ph) * pl <= (h * pm) * pl) by (nonlinear_arith)
        requires
            m * ph <= h * pm,
            pl > 0,
    ;
    if l * pm < m * pl {
        assert((l * pm) * ph < (m * pl) * ph) by (nonlinear_arith)
            requires
                l * pm < m * pl,
                ph > 0,
        ;
    } else {
        assert((m * ph) * pl < (h * pm) * pl) by (nonlinear_arith)
            requires
                m * ph < h * pm,
                pl > 0,
        ;
    }
    assert((m * ph) * pl == (m * pl) * ph) by (nonlinear_arith);
    assert((h * pm) * pl == (h * pl) * pm) by (nonlinear_arith);
    assert((l * pm) * ph == (l * ph) * pm) by (nonlinear_arith);
    assert((l * ph) * pm < (h * pl) * pm);
    assert(l * ph < h * pl) by (nonlinear_arith)
        requires
            (l * ph) * pm < (h * pl) * pm,
            pm > 0,
    ;
}

/// The order of similarities is transitive: if `low` does not exceed
/// `mid` and `high` exceeds `mid`, then `high` exceeds `low`.
pub proof fn lemma_exceeds_transitive(low: Cosine, mid: Cosine, high: Cosine)
    requires
        low.norm_sq_a * low.norm_sq_b > 0,
        mid.norm_sq_a * mid.norm_sq_b > 0,
        high.norm_sq_a * high.norm_sq_b > 0,
        !low.exceeds(mid),
        high.exceeds(mid),
    ensures
        high.exceeds(low),
{
    let l = low.dot * low.dot;
    let m = mid.dot * mid.dot;
    let h = high.dot * high.dot;
    let pl = low.norm_sq_a * low.norm_sq_b;
    let pm = mid.norm_sq_a * mid.norm_sq_b;
    let ph = high.norm_sq_a * high.norm_sq_b;
    if high.dot > 0 {
        if low.dot > 0 {
            lemma_quotients_in_order(l, pl, m, pm, h, ph);
        }
    } else {
        assert(mid.dot < 0 && h * pm < m * ph);
        assert(m > 0) by (nonlinear_arith)
            requires
                m == mid.dot * mid.dot,
                mid.dot < 0,
        ;
        assert(m * pl > 0) by (nonlinear_arith)
            requires
                m > 0,
                pl > 0,
        ;
        assert(low.dot <= 0 && m * pl <= l * pm);
        assert(low.dot != 0) by (nonlinear_arith)
            requires
                l == low.dot * low.dot,
                l * pm > 0,
        ;
        lemma_quotients_in_order(h, ph, m, pm, l, pl);
    }
}

/// The order of similarities is total up to ties: of three similarities,
/// if the first does not exceed the second and the second does not
/// exceed the third, then the first does not exceed the third.
pub proof fn lemma_exceeds_negatively_transitive(first: Cosine, second: Cosine, third: Cosine)
    requires
        first.norm_sq_a * first.norm_sq_b > 0,
        second.norm_sq_a * second.norm_sq_b > 0,
        third.norm_sq_a * third.norm_sq_b > 0,
        !first.exceeds(second),
        !second.exceeds(third),
    ensures
        !first.exceeds(third),
{
    if first.exceeds(third) {
        lemma_exceeds_transitive(second, third, first);
    }
}

/// The product of a 128-bit and a 64-bit number as a pair `(high, low)`
/// that stands for `high * 2^64 + low`.
fn wide_product(x: u128, n: u64) -> (r: (u128, u64))
    ensures
        r.0 * 0x1_0000_0000_0000_0000 + r.1 == x * n,
{
    let low_half: u128 = x % 0x1_0000_0000_0000_0000;
    let high_half: u128 = x / 0x1_0000_0000_0000_0000;
    let factor: u128 = n as u128;
    assert(low_half * factor <= 0xFFFF_FFFF_FFFF_FFFF * 0xFFFF_FFFF_FFFF_FFFF) by (nonlinear_arith)
        requires
            low_half <= 0xFFFF_FFFF_FFFF_FFFF,
            factor <= 0xFFFF_FFFF_FFFF_FFFF,
    ;
    assert(high_half * factor <= 0xFFFF_FFFF_FFFF_FFFF * 0xFFFF_FFFF_FFFF_FFFF) by (nonlinear_arith)
        requires
            high_half <= 0xFFFF_FFFF_FFFF_FFFF,
            factor <= 0xFFFF_FFFF_FFFF_FFFF,
    ;
    let low_product: u128 = low_half * factor;
    let high_product: u128 = high_half * factor;
    let low: u64 = (low_product % 0x1_0000_0000_0000_0000) as u64;
    let carry: u128 = low_product / 0x1_0000_0000_0000_0000;
    let high: u128 = high_product + carry;
    assert(x * n == high_product * 0x1_0000_0000_0000_0000 + low_product) by (nonlinear_arith)
        requires
            x == high_half * 0x1_0000_0000_0000_0000 + low_half,
            high_product == high_half * factor,
            low_product == low_half * factor,
            factor == n,
    ;
    (high, low)
}

impl Similarity {
    /// Whether this similarity is strictly greater than `other`, for two
    /// positive similarities taken against the same vector.
    pub(crate) fn exceeds(&self, other: &Similarity) -> (r: bool)
        requires
            self.dot > 0,
            other.dot > 0,
            self.norm_sq_a > 0,
            other.norm_sq_a > 0,
            self.norm_sq_b > 0,
            self.norm_sq_b == other.norm_sq_b,
        ensures
            r == self@.exceeds(other@),
    {
        let d: u128 = self.dot as u128;
        let e: u128 = other.dot as u128;
        assert(d * d <= 0x7FFF_FFFF_FFFF_FFFF * 0x7FFF_FFFF_FFFF_FFFF
            && e * e <= 0x7FFF_FFFF_FFFF_FFFF * 0x7FFF_FFFF_FFFF_FFFF) by (nonlinear_arith)
            requires
                0 <= d <= 0x7FFF_FFFF_FFFF_FFFF,
                0 <= e <= 0x7FFF_FFFF_FFFF_FFFF,
        ;
        let left: (u128, u64) = wide_product(d * d, other.norm_sq_a);
        let right: (u128, u64) = wide_product(e * e, self.norm_sq_a);
        proof {
            lemma_exceeds_against_same(self@, other@);
        }
        left.0 > right.0 || (left.0 == right.0 && left.1 > right.1)
    }
}

} // verus!
