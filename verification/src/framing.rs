//! The frames that carry binary messages between processes and servers: one
//! byte that counts the bytes of the length, the length itself in
//! little-endian order with trailing zero bytes dropped, then the payload.
use vstd::prelude::*;

verus! {

/// How many bytes a `usize` has on this machine.
pub open spec fn usize_width() -> nat {
    (usize::BITS / 8) as nat
}

pub open spec fn pow256(c: nat) -> nat
    decreases c,
{
    if c == 0 {
        1
    } else {
        256 * pow256((c - 1) as nat)
    }
}

/// The first `count` little-endian bytes of `n`.
pub open spec fn le_bytes(n: nat, count: nat) -> Seq<u8>
    decreases count,
{
    if count == 0 {
        Seq::empty()
    } else {
        seq![(n % 256) as u8] + le_bytes(n / 256, (count - 1) as nat)
    }
}

/// The number that little-endian bytes stand for.
pub open spec fn le_value(s: Seq<u8>) -> nat
    decreases s.len(),
{
    if s.len() == 0 {
        0
    } else {
        s[0] as nat + 256 * le_value(s.drop_first())
    }
}

pub open spec fn trim_trailing_zeros(s: Seq<u8>) -> Seq<u8>
    decreases s.len(),
{
    if s.len() > 0 && s.last() == 0 {
        trim_trailing_zeros(s.drop_last())
    } else {
        s
    }
}

/// The length field of a frame whose payload has `n` bytes: the
/// little-endian bytes of `n` up to its last non-zero byte; all of them
/// where `n` is zero.
pub open spec fn size_field(n: nat) -> Seq<u8> {
    if n == 0 {
        le_bytes(0, usize_width())
    } else {
        trim_trailing_zeros(le_bytes(n, usize_width()))
    }
}

/// The frame that carries `payload`.
pub open spec fn frame_of(payload: Seq<u8>) -> Seq<u8> {
    seq![size_field(payload.len()).len() as u8] + size_field(payload.len()) + payload
}

/// Why bytes do not hold a frame.
#[derive(Clone, Copy, Debug, PartialEq, Eq)]
pub enum FrameError {
    /// The length field is longer than a `usize`.
    SizeLimit,
    /// More bytes are needed.
    Incomplete,
}

/// What the bytes at the start of a stream hold: the payload of the first
/// frame and how many bytes that frame takes.
pub open spec fn frame_at(b: Seq<u8>) -> Result<(Seq<u8>, nat), FrameError> {
    if b.len() == 0 {
        Err(FrameError::Incomplete)
    } else if b[0] as nat > usize_width() {
        Err(FrameError::SizeLimit)
    } else if b.len() < 1 + b[0] as nat {
        Err(FrameError::Incomplete)
    } else {
        let size = le_value(b.subrange(1, 1 + b[0] as int));
        let start = 1 + b[0] as nat;
        if b.len() < start + size {
            Err(FrameError::Incomplete)
        } else {
            Ok((b.subrange(start as int, (start + size) as int), start + size))
        }
    }
}

pub proof fn lemma_usize_width()
    ensures
        usize_width() == 4 || usize_width() == 8,
        pow256(usize_width()) == usize::MAX as nat + 1,
{
    reveal_with_fuel(pow256, 9);
    assert(usize::BITS == 32 || usize::BITS == 64);
}

pub proof fn lemma_pow256_positive(c: nat)
    ensures
        pow256(c) >= 1,
    decreases c,
{
    if c > 0 {
        lemma_pow256_positive((c - 1) as nat);
    }
}

/// Little-endian bytes give back the number they were made from.
pub proof fn lemma_le_roundtrip(n: nat, c: nat)
    requires
        n < pow256(c),
    ensures
        le_bytes(n, c).len() == c,
        le_value(le_bytes(n, c)) == n,
    decreases c,
{
    if c > 0 {
        let q = n / 256;
        assert(q < pow256((c - 1) as nat)) by (nonlinear_arith)
            requires
                n < 256 * pow256((c - 1) as nat),
                q == n / 256,
        ;
        lemma_le_roundtrip(q, (c - 1) as nat);
        let s = le_bytes(n, c);
        assert(s.drop_first() =~= le_bytes(q, (c - 1) as nat));
        assert(n == (n % 256) + 256 * q) by (nonlinear_arith)
            requires
                q == n / 256,
        ;
    } else {
        assert(n == 0);
    }
}

/// A trailing zero byte adds nothing to a little-endian number.
pub proof fn lemma_le_value_push_zero(s: Seq<u8>)
    ensures
        le_value(s.push(0)) == le_value(s),
    decreases s.len(),
{
    if s.len() > 0 {
        assert(s.push(0).drop_first() =~= s.drop_first().push(0));
        lemma_le_value_push_zero(s.drop_first());
    } else {
        assert(s.push(0).drop_first() =~= Seq::<u8>::empty());
        assert(le_value(Seq::<u8>::empty()) == 0);
        assert(le_value(s) == 0);
    }
}

/// Dropping trailing zero bytes keeps the number and leaves a prefix.
pub proof fn lemma_trim(s: Seq<u8>)
    ensures
        le_value(trim_trailing_zeros(s)) == le_value(s),
        trim_trailing_zeros(s).len() <= s.len(),
        trim_trailing_zeros(s) =~= s.subrange(0, trim_trailing_zeros(s).len() as int),
    decreases s.len(),
{
    if s.len() > 0 && s.last() == 0 {
        lemma_trim(s.drop_last());
        assert(s.drop_last().push(0) =~= s);
        lemma_le_value_push_zero(s.drop_last());
    }
}

/// A little-endian number is below 256 to the power of its byte count.
pub proof fn lemma_le_value_bound(s: Seq<u8>)
    ensures
        le_value(s) < pow256(s.len()),
    decreases s.len(),
{
    if s.len() > 0 {
        lemma_le_value_bound(s.drop_first());
        let r = le_value(s.drop_first());
        let p = pow256((s.len() - 1) as nat);
        assert(s[0] as nat + 256 * r < 256 * p) by (nonlinear_arith)
            requires
                r < p,
                s[0] < 256,
        ;
    }
}

/// The length field of a payload of `n` bytes fits in a `usize` and gives `n` back.
pub proof fn lemma_size_field(n: nat)
    requires
        n <= usize::MAX,
    ensures
        size_field(n).len() <= usize_width(),
        le_value(size_field(n)) == n,
{
    lemma_usize_width();
    lemma_le_roundtrip(n, usize_width());
    lemma_le_roundtrip(0, usize_width());
    lemma_trim(le_bytes(n, usize_width()));
}

/// Reading a frame gives back the payload it was made from, and tells how
/// many bytes the frame took, whatever follows it.
pub proof fn law_frame_roundtrip(payload: Seq<u8>, rest: Seq<u8>)
    requires
        payload.len() <= usize::MAX,
    ensures
        frame_at(frame_of(payload) + rest) == Ok::<(Seq<u8>, nat), FrameError>(
            (payload, frame_of(payload).len()),
        ),
{
    let n = payload.len();
    lemma_size_field(n);
    let f = size_field(n);
    let b = frame_of(payload) + rest;
    assert(b[0] == f.len() as u8);
    assert(b.subrange(1, 1 + f.len() as int) =~= f);
    assert(b.subrange(1 + f.len() as int, (1 + f.len() + n) as int) =~= payload);
}

/// The length field of a frame whose payload has `n` bytes.
pub fn size_field_of(n: usize) -> (r: Vec<u8>)
    ensures
        r@ == size_field(n as nat),
{
    let ghost full = le_bytes(n as nat, usize_width());
    proof {
        lemma_usize_width();
        lemma_le_roundtrip(n as nat, usize_width());
    }
    let width: usize = (usize::BITS / 8) as usize;
    let mut field: Vec<u8> = Vec::new();
    let mut rest: usize = n;
    let mut i: usize = 0;
    assert(field@ + le_bytes(rest as nat, (width - i) as nat) =~= full);
    while i < width
        invariant
            width == usize_width(),
            i <= width,
            field@.len() == i,
            field@ + le_bytes(rest as nat, (width - i) as nat) =~= full,
        decreases width - i,
    {
        let ghost before = field@;
        field.push((rest % 256) as u8);
        assert(le_bytes(rest as nat, (width - i) as nat) =~= seq![(rest % 256) as u8] + le_bytes(
            (rest / 256) as nat,
            (width - i - 1) as nat,
        ));
        assert(field@ + le_bytes((rest / 256) as nat, (width - i - 1) as nat) =~= before + le_bytes(
            rest as nat,
            (width - i) as nat,
        ));
        rest = rest / 256;
        i = i + 1;
    }
    assert(field@ =~= full);
    if n == 0 {
        return field;
    }
    let mut j: usize = width;
    assert(full.subrange(0, j as int) =~= full);
    while j > 0 && field[j - 1] == 0
        invariant
            j <= width,
            width == full.len(),
            field@ == full,
            trim_trailing_zeros(full) == trim_trailing_zeros(full.subrange(0, j as int)),
        decreases j,
    {
        assert(full.subrange(0, j as int).drop_last() =~= full.subrange(0, j - 1));
        j = j - 1;
    }
    field.truncate(j);
    assert(field@ =~= full.subrange(0, j as int));
    field
}

/// The frame that carries `payload`.
pub fn encode_frame(payload: &[u8]) -> (r: Vec<u8>)
    ensures
        r@ == frame_of(payload@),
{
    let field = size_field_of(payload.len());
    proof {
        lemma_size_field(payload@.len());
        lemma_usize_width();
    }
    let mut out: Vec<u8> = Vec::new();
    out.push(field.len() as u8);
    let mut i: usize = 0;
    while i < field.len()
        invariant
            i <= field.len(),
            out@ =~= seq![field@.len() as u8] + field@.subrange(0, i as int),
        decreases field.len() - i,
    {
        out.push(field[i]);
        i = i + 1;
    }
    let mut k: usize = 0;
    while k < payload.len()
        invariant
            k <= payload.len(),
            out@ =~= seq![field@.len() as u8] + field@ + payload@.subrange(0, k as int),
        decreases payload.len() - k,
    {
        out.push(payload[k]);
        k = k + 1;
    }
    assert(field@.subrange(0, field@.len() as int) =~= field@);
    assert(payload@.subrange(0, payload@.len() as int) =~= payload@);
    out
}

/// How many length bytes follow a frame's first byte; a count longer
/// than a `usize` is refused.
pub fn size_field_len(first: u8) -> (r: Result<usize, FrameError>)
    ensures
        first as nat > usize_width() ==> r == Err::<usize, FrameError>(FrameError::SizeLimit),
        first as nat <= usize_width() ==> r == Ok::<usize, FrameError>(first as usize),
{
    if first as usize > (usize::BITS / 8) as usize {
        Err(FrameError::SizeLimit)
    } else {
        Ok(first as usize)
    }
}

/// The payload length that a frame's length bytes stand for.
pub fn size_from_field(field: &[u8]) -> (r: usize)
    requires
        field@.len() <= usize_width(),
    ensures
        r as nat == le_value(field@),
{
    proof {
        lemma_usize_width();
    }
    let mut v: usize = 0;
    let mut i: usize = field.len();
    assert(field@.subrange(i as int, field@.len() as int) =~= Seq::<u8>::empty());
    while i > 0
        invariant
            i <= field.len(),
            field@.len() <= usize_width(),
            pow256(usize_width()) == usize::MAX as nat + 1,
            v as nat == le_value(field@.subrange(i as int, field@.len() as int)),
        decreases i,
    {
        let ghost tail = field@.subrange(i as int, field@.len() as int);
        let ghost longer = field@.subrange(i - 1, field@.len() as int);
        assert(longer.drop_first() =~= tail);
        proof {
            lemma_le_value_bound(longer);
            lemma_pow_monotone(longer.len(), usize_width());
        }
        v = field[i - 1] as usize + 256 * v;
        i = i - 1;
    }
    assert(field@.subrange(0, field@.len() as int) =~= field@);
    v
}

pub proof fn lemma_pow_monotone(a: nat, b: nat)
    requires
        a <= b,
    ensures
        pow256(a) <= pow256(b),
    decreases b,
{
    if a < b {
        lemma_pow_monotone(a, (b - 1) as nat);
        lemma_pow256_positive((b - 1) as nat);
    }
}

/// Reads the first frame at the start of `bytes`.
pub fn decode_frame(bytes: &[u8]) -> (r: Result<(Vec<u8>, usize), FrameError>)
    ensures
        match frame_at(bytes@) {
            Ok((payload, used)) => r matches Ok((v, u)) && v@ == payload && u as nat == used,
            Err(e) => r == Err::<(Vec<u8>, usize), FrameError>(e),
        },
{
    if bytes.len() == 0 {
        return Err(FrameError::Incomplete);
    }
    let k = match size_field_len(bytes[0]) {
        Ok(k) => k,
        Err(e) => return Err(e),
    };
    if bytes.len() - 1 < k {
        return Err(FrameError::Incomplete);
    }
    let mut field: Vec<u8> = Vec::new();
    let mut i: usize = 0;
    while i < k
        invariant
            i <= k,
            1 + k <= bytes@.len(),
            field@ =~= bytes@.subrange(1, 1 + i as int),
        decreases k - i,
    {
        field.push(bytes[1 + i]);
        i = i + 1;
    }
    let size = size_from_field(field.as_slice());
    let start = 1 + k;
    if bytes.len() - start < size {
        return Err(FrameError::Incomplete);
    }
    let mut payload: Vec<u8> = Vec::new();
    let mut j: usize = 0;
    while j < size
        invariant
            j <= size,
            start <= bytes.len(),
            start + size <= bytes.len(),
            payload@ =~= bytes@.subrange(start as int, start + j),
        decreases size - j,
    {
        payload.push(bytes[start + j]);
        j = j + 1;
    }
    Ok((payload, start + size))
}

} // verus!
