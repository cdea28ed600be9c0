use vstd::prelude::*;

verus! {

/// `256` raised to the `n`-th power.
pub open spec fn pow256(n: nat) -> nat
    decreases n,
{
    if n == 0 {
        1
    } else {
        256 * pow256((n - 1) as nat)
    }
}

/// The number that a little-endian byte sequence stands for.
pub open spec fn le_value(b: Seq<u8>) -> nat
    decreases b.len(),
{
    if b.len() == 0 {
        0
    } else {
        b[0] as nat + 256 * le_value(b.drop_first())
    }
}

/// The `n` little-endian bytes of `v` (taken modulo `256^n`).
pub open spec fn le_bytes(v: nat, n: nat) -> Seq<u8>
    decreases n,
{
    if n == 0 {
        Seq::empty()
    } else {
        seq![(v % 256) as u8] + le_bytes(v / 256, (n - 1) as nat)
    }
}

proof fn lemma_pow256_positive(n: nat)
    ensures
        pow256(n) >= 1,
    decreases n,
{
    if n > 0 {
        lemma_pow256_positive((n - 1) as nat);
    }
}

proof fn lemma_le_bytes_len(v: nat, n: nat)
    ensures
        le_bytes(v, n).len() == n,
    decreases n,
{
    if n > 0 {
        lemma_le_bytes_len(v / 256, (n - 1) as nat);
    }
}

proof fn lemma_le_value_bound(b: Seq<u8>)
    ensures
        le_value(b) < pow256(b.len()),
    decreases b.len(),
{
    if b.len() > 0 {
        lemma_le_value_bound(b.drop_first());
        let r = le_value(b.drop_first());
        let p = pow256((b.len() - 1) as nat);
        assert(r + 1 <= p);
        assert(256 * (r + 1) <= 256 * p) by (nonlinear_arith)
            requires
                r + 1 <= p,
        ;
    }
}

proof fn lemma_le_round_trip(v: nat, n: nat)
    requires
        v < pow256(n),
    ensures
        le_value(le_bytes(v, n)) == v,
    decreases n,
{
    if n > 0 {
        let p = pow256((n - 1) as nat);
        assert(v / 256 < p) by (nonlinear_arith)
            requires
                v < 256 * p,
        ;
        lemma_le_round_trip(v / 256, (n - 1) as nat);
        let b = le_bytes(v, n);
        assert(b.drop_first() =~= le_bytes(v / 256, (n - 1) as nat));
        assert(v == v % 256 + 256 * (v / 256)) by (nonlinear_arith);
    }
}

/// The little-endian bytes of `v`, `n` of them.
pub fn encode_le(v: u64, n: usize) -> (r: Vec<u8>)
    requires
        n <= 8,
        v < pow256(n as nat),
    ensures
        r@ == le_bytes(v as nat, n as nat),
{
    let mut r: Vec<u8> = Vec::new();
    let mut x: u64 = v;
    let mut i: usize = 0;
    while i < n
        invariant
            i <= n,
            r@ + le_bytes(x as nat, (n - i) as nat) == le_bytes(v as nat, n as nat),
        decreases n - i,
    {
        let ghost rest = le_bytes(x as nat, (n - i) as nat);
        assert(rest =~= seq![(x % 256) as u8] + le_bytes((x / 256) as nat, (n - i - 1) as nat));
        r.push((x % 256) as u8);
        x = x / 256;
        i = i + 1;
        assert(r@ + le_bytes(x as nat, (n - i) as nat) =~= le_bytes(v as nat, n as nat));
    }
    assert(le_bytes(x as nat, 0) =~= Seq::<u8>::empty());
    assert(r@ =~= le_bytes(v as nat, n as nat));
    r
}

/// The number that at most eight little-endian bytes stand for.
pub fn decode_le(b: &[u8]) -> (r: u64)
    requires
        b@.len() <= 8,
    ensures
        r as nat == le_value(b@),
{
    let mut acc: u64 = 0;
    let mut i: usize = b.len();
    while i > 0
        invariant
            i <= b@.len() <= 8,
            acc as nat == le_value(b@.subrange(i as int, b@.len() as int)),
        decreases i,
    {
        let ghost tail = b@.subrange(i as int, b@.len() as int);
        let ghost longer = b@.subrange(i - 1, b@.len() as int);
        assert(longer.drop_first() =~= tail);
        proof {
            lemma_le_value_bound(longer);
            reveal_with_fuel(pow256, 9);
            lemma_pow_le_eight(longer.len());
        }
        let byte = b[i - 1];
        acc = byte as u64 + 256 * acc;
        i = i - 1;
    }
    assert(b@.subrange(0, b@.len() as int) =~= b@);
    acc
}

proof fn lemma_pow_le_eight(n: nat)
    requires
        n <= 8,
    ensures
        pow256(n) <= 0x1_0000_0000_0000_0000,
{
    reveal_with_fuel(pow256, 9);
    lemma_pow_monotone(n, 8);
}

proof fn lemma_pow_monotone(a: nat, b: nat)
    requires
        a <= b,
    ensures
        pow256(a) <= pow256(b),
    decreases b,
{
    if a < b {
        lemma_pow_monotone(a, (b - 1) as nat);
        lemma_pow256_positive((b - 1) as nat);
    }
}

/// A fixed-size value that travels between processes as its little-endian
/// byte image.
pub trait Plain: Sized + Copy {
    /// Size of the byte image.
    spec fn width() -> nat;

    /// The byte image of a value.
    spec fn image(v: Self) -> Seq<u8>;

    /// The value that a byte image of the right size stands for.
    spec fn from_image(b: Seq<u8>) -> Self;

    fn byte_width() -> (r: usize)
        ensures
            r as nat == Self::width(),
            1 <= r <= 8,
    ;

    fn encode(&self) -> (r: Vec<u8>)
        ensures
            r@ == Self::image(*self),
    ;

    fn decode(b: &[u8]) -> (r: Self)
        requires
            b@.len() == Self::width(),
        ensures
            r == Self::from_image(b@),
    ;

    /// A value's image has the type's size and decodes back to the value.
    proof fn lemma_image_round_trip(v: Self)
        ensures
            Self::image(v).len() == Self::width(),
            Self::from_image(Self::image(v)) == v,
    ;
}

impl Plain for u8 {
    open spec fn width() -> nat {
        1
    }

    open spec fn image(v: u8) -> Seq<u8> {
        le_bytes(v as nat, 1)
    }

    open spec fn from_image(b: Seq<u8>) -> u8 {
        le_value(b) as u8
    }

    fn byte_width() -> (r: usize) {
        1
    }

    fn encode(&self) -> (r: Vec<u8>) {
        proof { reveal_with_fuel(pow256, 2); }
        encode_le(*self as u64, 1)
    }

    fn decode(b: &[u8]) -> (r: u8) {
        proof { lemma_le_value_bound(b@); reveal_with_fuel(pow256, 2); }
        decode_le(b) as u8
    }

    proof fn lemma_image_round_trip(v: u8) {
        reveal_with_fuel(pow256, 2);
        lemma_le_bytes_len(v as nat, 1);
        lemma_le_round_trip(v as nat, 1);
    }
}

impl Plain for u16 {
    open spec fn width() -> nat {
        2
    }

    open spec fn image(v: u16) -> Seq<u8> {
        le_bytes(v as nat, 2)
    }

    open spec fn from_image(b: Seq<u8>) -> u16 {
        le_value(b) as u16
    }

    fn byte_width() -> (r: usize) {
        2
    }

    fn encode(&self) -> (r: Vec<u8>) {
        proof { reveal_with_fuel(pow256, 3); }
        encode_le(*self as u64, 2)
    }

    fn decode(b: &[u8]) -> (r: u16) {
        proof { lemma_le_value_bound(b@); reveal_with_fuel(pow256, 3); }
        decode_le(b) as u16
    }

    proof fn lemma_image_round_trip(v: u16) {
        reveal_with_fuel(pow256, 3);
        lemma_le_bytes_len(v as nat, 2);
        lemma_le_round_trip(v as nat, 2);
    }
}

impl Plain for u32 {
    open spec fn width() -> nat {
        4
    }

    open spec fn image(v: u32) -> Seq<u8> {
        le_bytes(v as nat, 4)
    }

    open spec fn from_image(b: Seq<u8>) -> u32 {
        le_value(b) as u32
    }

    fn byte_width() -> (r: usize) {
        4
    }

    fn encode(&self) -> (r: Vec<u8>) {
        proof { reveal_with_fuel(pow256, 5); }
        encode_le(*self as u64, 4)
    }

    fn decode(b: &[u8]) -> (r: u32) {
        proof { lemma_le_value_bound(b@); reveal_with_fuel(pow256, 5); }
        decode_le(b) as u32
    }

    proof fn lemma_image_round_trip(v: u32) {
        reveal_with_fuel(pow256, 5);
        lemma_le_bytes_len(v as nat, 4);
        lemma_le_round_trip(v as nat, 4);
    }
}

impl Plain for u64 {
    open spec fn width() -> nat {
        8
    }

    open spec fn image(v: u64) -> Seq<u8> {
        le_bytes(v as nat, 8)
    }

    open spec fn from_image(b: Seq<u8>) -> u64 {
        le_value(b) as u64
    }

    fn byte_width() -> (r: usize) {
        8
    }

    fn encode(&self) -> (r: Vec<u8>) {
        proof { reveal_with_fuel(pow256, 9); }
        encode_le(*self, 8)
    }

    fn decode(b: &[u8]) -> (r: u64) {
        decode_le(b)
    }

    proof fn lemma_image_round_trip(v: u64) {
        reveal_with_fuel(pow256, 9);
        lemma_le_bytes_len(v as nat, 8);
        lemma_le_round_trip(v as nat, 8);
    }
}

impl Plain for i8 {
    open spec fn width() -> nat {
        1
    }

    open spec fn image(v: i8) -> Seq<u8> {
        le_bytes((#[verifier::truncate] (v as u8)) as nat, 1)
    }

    open spec fn from_image(b: Seq<u8>) -> i8 {
        #[verifier::truncate] ((le_value(b) as u8) as i8)
    }

    fn byte_width() -> (r: usize) {
        1
    }

    fn encode(&self) -> (r: Vec<u8>) {
        proof { reveal_with_fuel(pow256, 2); }
        encode_le((*self as u8) as u64, 1)
    }

    fn decode(b: &[u8]) -> (r: i8) {
        proof { lemma_le_value_bound(b@); reveal_with_fuel(pow256, 2); }
        (decode_le(b) as u8) as i8
    }

    proof fn lemma_image_round_trip(v: i8) {
        reveal_with_fuel(pow256, 2);
        let u = #[verifier::truncate] (v as u8);
        lemma_le_bytes_len(u as nat, 1);
        lemma_le_round_trip(u as nat, 1);
        assert(#[verifier::truncate] ((#[verifier::truncate] (v as u8)) as i8) == v) by (bit_vector);
    }
}

impl Plain for i16 {
    open spec fn width() -> nat {
        2
    }

    open spec fn image(v: i16) -> Seq<u8> {
        le_bytes((#[verifier::truncate] (v as u16)) as nat, 2)
    }

    open spec fn from_image(b: Seq<u8>) -> i16 {
        #[verifier::truncate] ((le_value(b) as u16) as i16)
    }

    fn byte_width() -> (r: usize) {
        2
    }

    fn encode(&self) -> (r: Vec<u8>) {
        proof { reveal_with_fuel(pow256, 3); }
        encode_le((*self as u16) as u64, 2)
    }

    fn decode(b: &[u8]) -> (r: i16) {
        proof { lemma_le_value_bound(b@); reveal_with_fuel(pow256, 3); }
        (decode_le(b) as u16) as i16
    }

    proof fn lemma_image_round_trip(v: i16) {
        reveal_with_fuel(pow256, 3);
        let u = #[verifier::truncate] (v as u16);
        lemma_le_bytes_len(u as nat, 2);
        lemma_le_round_trip(u as nat, 2);
        assert(#[verifier::truncate] ((#[verifier::truncate] (v as u16)) as i16) == v) by (bit_vector);
    }
}

impl Plain for i32 {
    open spec fn width() -> nat {
        4
    }

    open spec fn image(v: i32) -> Seq<u8> {
        le_bytes((#[verifier::truncate] (v as u32)) as nat, 4)
    }

    open spec fn from_image(b: Seq<u8>) -> i32 {
        #[verifier::truncate] ((le_value(b) as u32) as i32)
    }

    fn byte_width() -> (r: usize) {
        4
    }

    fn encode(&self) -> (r: Vec<u8>) {
        proof { reveal_with_fuel(pow256, 5); }
        encode_le((*self as u32) as u64, 4)
    }

    fn decode(b: &[u8]) -> (r: i32) {
        proof { lemma_le_value_bound(b@); reveal_with_fuel(pow256, 5); }
        (decode_le(b) as u32) as i32
    }

    proof fn lemma_image_round_trip(v: i32) {
        reveal_with_fuel(pow256, 5);
        let u = #[verifier::truncate] (v as u32);
        lemma_le_bytes_len(u as nat, 4);
        lemma_le_round_trip(u as nat, 4);
        assert(#[verifier::truncate] ((#[verifier::truncate] (v as u32)) as i32) == v) by (bit_vector);
    }
}

impl Plain for i64 {
    open spec fn width() -> nat {
        8
    }

    open spec fn image(v: i64) -> Seq<u8> {
        le_bytes((#[verifier::truncate] (v as u64)) as nat, 8)
    }

    open spec fn from_image(b: Seq<u8>) -> i64 {
        #[verifier::truncate] ((le_value(b) as u64) as i64)
    }

    fn byte_width() -> (r: usize) {
        8
    }

    fn encode(&self) -> (r: Vec<u8>) {
        proof { reveal_with_fuel(pow256, 9); }
        encode_le(*self as u64, 8)
    }

    fn decode(b: &[u8]) -> (r: i64) {
        decode_le(b) as i64
    }

    proof fn lemma_image_round_trip(v: i64) {
        reveal_with_fuel(pow256, 9);
        let u = #[verifier::truncate] (v as u64);
        lemma_le_bytes_len(u as nat, 8);
        lemma_le_round_trip(u as nat, 8);
        assert(#[verifier::truncate] ((#[verifier::truncate] (v as u64)) as i64) == v) by (bit_vector);
    }
}

} // verus!
