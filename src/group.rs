//! Scalars and points of the secp256k1 group.
//!
//! Both are held as their canonical byte encodings. A scalar is read as the
//! big-endian integer of its 32 bytes, always below the group order. A point is
//! read through its discrete logarithm: the group is cyclic of prime order with
//! the generator `G`, so each point is `k·G` for exactly one `k` below the
//! order, and its 33-byte compressed encoding determines that `k`. The
//! arithmetic itself is done by secp256kfun.
use vstd::prelude::*;
use secp256kfun::marker::{Normal, Public, Secret, Zero};

verus! {

/// The order `n` of the secp256k1 group.
pub open spec fn group_order() -> nat {
    115792089237316195423570985008687907852837564279074904382605163141518161494337nat
}

/// The integer that a big-endian byte string stands for.
pub open spec fn be_nat(b: Seq<u8>) -> nat
    decreases b.len(),
{
    if b.len() == 0 {
        0
    } else {
        be_nat(b.drop_last()) * 256 + b.last() as nat
    }
}

/// `a - b` reduced into `[0, n)`.
pub open spec fn sub_mod(a: nat, b: nat) -> nat {
    ((a as int - b as int) % (group_order() as int)) as nat
}

/// `-a` reduced into `[0, n)`.
pub open spec fn neg_mod(a: nat) -> nat {
    sub_mod(0, a)
}

/// `a` negated when `flag` is set.
pub open spec fn cond_neg(a: nat, flag: bool) -> nat {
    if flag {
        neg_mod(a)
    } else {
        a
    }
}

/// The 33-byte compressed encoding of the point `k·G`, as secp256kfun writes it
/// (33 zero bytes for the identity).
pub uninterp spec fn point_encoding(k: nat) -> Seq<u8>;

/// `b` is the encoding of `k·G` and of no other multiple of `G` below the order.
pub open spec fn encodes_exactly(b: Seq<u8>, k: nat) -> bool {
    &&& k < group_order()
    &&& point_encoding(k) == b
    &&& forall|j: nat| j < group_order() && #[trigger] point_encoding(j) == b ==> j == k
}

/// The encoding of the point of logarithm `k` has an even y-coordinate.
pub open spec fn has_even_y(k: nat) -> bool {
    point_encoding(k)[0] == 2
}

/// The 32-byte x-coordinate inside a compressed encoding.
pub open spec fn xonly_of(enc: Seq<u8>) -> Seq<u8> {
    enc.subrange(1, 33)
}

/// An integer modulo the group order.
#[derive(Clone, Copy, Debug, PartialEq, Eq)]
pub struct Scalar {
    bytes: [u8; 32],
}

impl Scalar {
    /// The 32 big-endian bytes of the scalar.
    pub closed spec fn encoding(self) -> Seq<u8> {
        self.bytes@
    }

    /// The value of the scalar.
    pub open spec fn val(self) -> nat {
        be_nat(self.encoding())
    }

    /// Every scalar lies below the group order.
    #[verifier::type_invariant]
    pub open spec fn wf(self) -> bool {
        self.val() < group_order()
    }

    /// Reads 32 big-endian bytes; `None` when they stand for `n` or more.
    pub fn from_bytes(bytes: [u8; 32]) -> (r: Option<Scalar>)
        ensures
            r is Some <==> be_nat(bytes@) < group_order(),
            r matches Some(s) ==> s.val() == be_nat(bytes@),
    {
        if is_canonical_scalar(&bytes) {
            Some(Scalar { bytes })
        } else {
            None
        }
    }

    /// The 32 big-endian bytes of the scalar.
    pub fn to_bytes(&self) -> (r: [u8; 32])
        ensures
            r@ == self.encoding(),
    {
        self.bytes
    }

    /// Whether the scalar is zero.
    pub fn is_zero(&self) -> (r: bool)
        ensures
            r == (self.val() == 0),
    {
        scalar_is_zero(self)
    }

    /// The scalar, or its negation when `flag` is set.
    pub fn conditional_negate(&self, flag: bool) -> (r: Scalar)
        ensures
            r.val() == cond_neg(self.val(), flag),
    {
        if flag {
            scalar_negate(self)
        } else {
            *self
        }
    }
}

/// Relies on secp256kfun's `Scalar::from_bytes`: `Some` exactly when the
/// big-endian bytes are below the group order.
#[verifier::external_body]
fn is_canonical_scalar(bytes: &[u8; 32]) -> (r: bool)
    ensures
        r == (be_nat(bytes@) < group_order()),
{
    secp256kfun::Scalar::<Secret, Zero>::from_bytes(*bytes).is_some()
}

/// Relies on secp256kfun's `op::scalar_is_zero`.
#[verifier::external_body]
fn scalar_is_zero(a: &Scalar) -> (r: bool)
    ensures
        r == (a.val() == 0),
{
    let x = secp256kfun::Scalar::<Secret, Zero>::from_bytes_mod_order(a.bytes);
    secp256kfun::op::scalar_is_zero(&x)
}

/// Relies on secp256kfun's `op::scalar_add`: the sum modulo the order.
#[verifier::external_body]
pub(crate) fn scalar_add(a: &Scalar, b: &Scalar) -> (r: Scalar)
    ensures
        r.val() == (a.val() + b.val()) % group_order(),
{
    let x = secp256kfun::Scalar::<Secret, Zero>::from_bytes_mod_order(a.bytes);
    let y = secp256kfun::Scalar::<Secret, Zero>::from_bytes_mod_order(b.bytes);
    Scalar { bytes: secp256kfun::op::scalar_add(x, y).to_bytes() }
}

/// Relies on secp256kfun's `op::scalar_sub`: the difference modulo the order.
#[verifier::external_body]
pub(crate) fn scalar_sub(a: &Scalar, b: &Scalar) -> (r: Scalar)
    ensures
        r.val() == sub_mod(a.val(), b.val()),
{
    let x = secp256kfun::Scalar::<Secret, Zero>::from_bytes_mod_order(a.bytes);
    let y = secp256kfun::Scalar::<Secret, Zero>::from_bytes_mod_order(b.bytes);
    Scalar { bytes: secp256kfun::op::scalar_sub(x, y).to_bytes() }
}

/// Relies on secp256kfun's `op::scalar_mul`: the product modulo the order.
#[verifier::external_body]
pub(crate) fn scalar_mul(a: &Scalar, b: &Scalar) -> (r: Scalar)
    ensures
        r.val() == (a.val() * b.val()) % group_order(),
{
    let x = secp256kfun::Scalar::<Secret, Zero>::from_bytes_mod_order(a.bytes);
    let y = secp256kfun::Scalar::<Secret, Zero>::from_bytes_mod_order(b.bytes);
    Scalar { bytes: secp256kfun::op::scalar_mul(x, y).to_bytes() }
}

/// Relies on secp256kfun's `op::scalar_negate`: the additive inverse modulo the order.
#[verifier::external_body]
fn scalar_negate(a: &Scalar) -> (r: Scalar)
    ensures
        r.val() == neg_mod(a.val()),
{
    let x = secp256kfun::Scalar::<Secret, Zero>::from_bytes_mod_order(a.bytes);
    Scalar { bytes: secp256kfun::op::scalar_negate(x).to_bytes() }
}

/// Builds a scalar from the output of a 32-byte hash, reduced modulo the order.
pub(crate) fn scalar_from_digest(bytes: [u8; 32]) -> (r: Scalar)
    ensures
        r.val() == be_nat(bytes@) % group_order(),
{
    Scalar { bytes: reduce_mod_order(bytes) }
}

/// Relies on secp256kfun's `Scalar::from_bytes_mod_order`: the big-endian value
/// reduced modulo the order, written back as 32 canonical bytes.
#[verifier::external_body]
fn reduce_mod_order(bytes: [u8; 32]) -> (r: [u8; 32])
    ensures
        be_nat(r@) == be_nat(bytes@) % group_order(),
{
    secp256kfun::Scalar::<Secret, Zero>::from_bytes_mod_order(bytes).to_bytes()
}

/// A point of the group, the identity included.
#[derive(Clone, Copy, Debug, PartialEq, Eq)]
pub struct Point {
    bytes: [u8; 33],
}

impl Point {
    /// The compressed encoding of the point.
    pub closed spec fn encoding(self) -> Seq<u8> {
        self.bytes@
    }

    /// Every point is the encoding of exactly one logarithm.
    #[verifier::type_invariant]
    pub open spec fn wf(self) -> bool {
        exists|k: nat| encodes_exactly(self.encoding(), k)
    }

    /// The discrete logarithm of the point to the base `G`.
    pub open spec fn log(self) -> nat {
        choose|k: nat| encodes_exactly(self.encoding(), k)
    }

    /// A valid point is the encoding of its logarithm, and of no other.
    pub proof fn lemma_log(self)
        requires
            self.wf(),
        ensures
            encodes_exactly(self.encoding(), self.log()),
    {
    }

    /// A point whose encoding belongs to `k` has logarithm `k`.
    pub proof fn lemma_log_of(self, k: nat)
        requires
            encodes_exactly(self.encoding(), k),
        ensures
            self.wf(),
            self.log() == k,
    {
    }

    /// `k·G`.
    pub fn from_scalar(k: &Scalar) -> (r: Point)
        ensures
            r.log() == k.val(),
    {
        let r = base_mul(k);
        proof {
            use_type_invariant(k);
            r.lemma_log_of(k.val());
        }
        r
    }

    /// Reads a 33-byte compressed encoding (33 zero bytes for the identity);
    /// `None` when the bytes encode no point of the group.
    pub fn from_bytes(bytes: [u8; 33]) -> (r: Option<Point>)
        ensures
            r is Some <==> exists|k: nat| k < group_order() && point_encoding(k) == bytes@,
            r matches Some(p) ==> p.encoding() == bytes@,
    {
        if is_point_encoding(&bytes) {
            proof {
                let k = choose|k: nat| encodes_exactly(bytes@, k);
                assert(encodes_exactly((Point { bytes }).encoding(), k));
            }
            Some(Point { bytes })
        } else {
            None
        }
    }

    /// The 33-byte compressed encoding.
    pub fn to_bytes(&self) -> (r: [u8; 33])
        ensures
            r@ == self.encoding(),
    {
        self.bytes
    }

    /// The 32-byte x-coordinate.
    pub fn to_xonly_bytes(&self) -> (r: [u8; 32])
        ensures
            r@ == xonly_of(self.encoding()),
    {
        let mut r = [0u8; 32];
        let mut i: usize = 0;
        while i < 32
            invariant
                0 <= i <= 32,
                self.bytes@.len() == 33,
                forall|j: int| 0 <= j < i ==> r@[j] == self.bytes@[j + 1],
            decreases 32 - i,
        {
            r[i] = self.bytes[i + 1];
            i = i + 1;
        }
        assert(r@ =~= xonly_of(self.encoding()));
        r
    }

    /// Whether the y-coordinate is even (false for the identity).
    pub fn is_y_even(&self) -> (r: bool)
        ensures
            r == has_even_y(self.log()),
    {
        proof {
            use_type_invariant(self);
            self.lemma_log();
        }
        self.bytes[0] == 2
    }

    /// Whether two points are the same.
    pub fn equals(&self, other: &Point) -> (r: bool)
        ensures
            r == (self.log() == other.log()),
    {
        proof {
            use_type_invariant(self);
            use_type_invariant(other);
            self.lemma_log();
            other.lemma_log();
        }
        let mut i: usize = 0;
        while i < 33
            invariant
                0 <= i <= 33,
                self.bytes@.len() == 33,
                other.bytes@.len() == 33,
                encodes_exactly(self.encoding(), self.log()),
                encodes_exactly(other.encoding(), other.log()),
                forall|j: int| 0 <= j < i ==> self.bytes@[j] == other.bytes@[j],
            decreases 33 - i,
        {
            if self.bytes[i] != other.bytes[i] {
                assert(self.bytes@[i as int] != other.bytes@[i as int]);
                assert(self.encoding() != other.encoding());
                return false;
            }
            i = i + 1;
        }
        assert(self.bytes@ =~= other.bytes@);
        true
    }
}

/// Whether two 32-byte strings are equal.
pub(crate) fn bytes32_eq(a: &[u8; 32], b: &[u8; 32]) -> (r: bool)
    ensures
        r == (a@ == b@),
{
    let mut i: usize = 0;
    while i < 32
        invariant
            0 <= i <= 32,
            a@.len() == 32,
            b@.len() == 32,
            forall|j: int| 0 <= j < i ==> a@[j] == b@[j],
        decreases 32 - i,
    {
        if a[i] != b[i] {
            return false;
        }
        i = i + 1;
    }
    assert(a@ =~= b@);
    true
}

/// Relies on secp256kfun's `Point::from_bytes`: `Some` exactly for the
/// encodings of points of the group, each of which is `k·G` for one `k` below
/// the order.
#[verifier::external_body]
fn is_point_encoding(bytes: &[u8; 33]) -> (r: bool)
    ensures
        r == (exists|k: nat| k < group_order() && point_encoding(k) == bytes@),
        r ==> (exists|k: nat| encodes_exactly(bytes@, k)),
{
    secp256kfun::Point::<Normal, Public, Zero>::from_bytes(*bytes).is_some()
}

/// Relies on secp256kfun's `op::scalar_mul_point` with the generator `G`:
/// the result is `k·G`.
#[verifier::external_body]
pub(crate) fn base_mul(k: &Scalar) -> (r: Point)
    ensures
        r.encoding() == point_encoding(k.val() % group_order()),
        encodes_exactly(r.encoding(), k.val() % group_order()),
{
    let x = secp256kfun::Scalar::<Secret, Zero>::from_bytes_mod_order(k.bytes);
    Point { bytes: secp256kfun::op::scalar_mul_point(x, secp256kfun::G).normalize().to_bytes() }
}

/// Relies on secp256kfun's `op::scalar_mul_point`: the logarithm of `k·P` is
/// `k` times that of `P`.
#[verifier::external_body]
pub(crate) fn point_mul(k: &Scalar, p: &Point) -> (r: Point)
    ensures
        r.encoding() == point_encoding((k.val() * p.log()) % group_order()),
        encodes_exactly(r.encoding(), (k.val() * p.log()) % group_order()),
{
    let x = secp256kfun::Scalar::<Secret, Zero>::from_bytes_mod_order(k.bytes);
    let q = secp256kfun::Point::<Normal, Public, Zero>::from_bytes(p.bytes).expect("a point holds a valid encoding");
    Point { bytes: secp256kfun::op::scalar_mul_point(x, q).normalize().to_bytes() }
}

/// Relies on secp256kfun's `op::point_add`: logarithms add.
#[verifier::external_body]
pub(crate) fn point_add(a: &Point, b: &Point) -> (r: Point)
    ensures
        r.encoding() == point_encoding((a.log() + b.log()) % group_order()),
        encodes_exactly(r.encoding(), (a.log() + b.log()) % group_order()),
{
    let p = secp256kfun::Point::<Normal, Public, Zero>::from_bytes(a.bytes).expect("a point holds a valid encoding");
    let q = secp256kfun::Point::<Normal, Public, Zero>::from_bytes(b.bytes).expect("a point holds a valid encoding");
    Point { bytes: secp256kfun::op::point_add(p, q).normalize().to_bytes() }
}

/// Relies on secp256kfun's `op::point_sub`: logarithms subtract.
#[verifier::external_body]
pub(crate) fn point_sub(a: &Point, b: &Point) -> (r: Point)
    ensures
        r.encoding() == point_encoding(sub_mod(a.log(), b.log())),
        encodes_exactly(r.encoding(), sub_mod(a.log(), b.log())),
{
    let p = secp256kfun::Point::<Normal, Public, Zero>::from_bytes(a.bytes).expect("a point holds a valid encoding");
    let q = secp256kfun::Point::<Normal, Public, Zero>::from_bytes(b.bytes).expect("a point holds a valid encoding");
    Point { bytes: secp256kfun::op::point_sub(p, q).normalize().to_bytes() }
}

/// Relies on secp256kfun's `Point::non_zero` and
/// `Point::into_point_with_even_y`: `None` for the identity; otherwise the
/// point or its negation, whichever has an even y-coordinate, and whether it
/// was negated.
#[verifier::external_body]
pub(crate) fn into_even_y(p: &Point) -> (r: Option<(Point, bool)>)
    ensures
        r is None <==> p.log() == 0,
        r matches Some((q, flag)) ==> {
            &&& flag == !has_even_y(p.log())
            &&& q.encoding() == point_encoding(cond_neg(p.log(), flag))
            &&& encodes_exactly(q.encoding(), cond_neg(p.log(), flag))
            &&& has_even_y(cond_neg(p.log(), flag))
        },
{
    let q = secp256kfun::Point::<Normal, Public, Zero>::from_bytes(p.bytes).expect("a point holds a valid encoding");
    match q.non_zero() {
        Some(q) => {
            let (even, flag) = q.into_point_with_even_y();
            Some((Point { bytes: even.to_bytes() }, flag))
        },
        None => None,
    }
}

} // verus!
