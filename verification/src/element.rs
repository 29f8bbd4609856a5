use vstd::prelude::*;

use vstd::arithmetic::div_mod::{lemma_div_multiples_vanish, lemma_mod_multiples_vanish};

verus! {

/// An element type the container can spill: plain data with a fixed-width
/// byte encoding that decodes back to the same value. Whole batches of
/// elements are serialized by laying their encodings back to back.
pub trait SwapElement: Sized + Copy {
    /// Number of bytes in the fixed-width encoding of one element.
    spec fn width() -> nat;

    /// The encoding of one element.
    spec fn to_bytes(self) -> Seq<u8>;

    /// The element a `width()`-sized block decodes to.
    spec fn of_bytes(b: Seq<u8>) -> Self;

    /// An element occupies at least one byte.
    proof fn lemma_width_pos()
        ensures
            Self::width() > 0,
    ;

    /// Every encoding has exactly `width()` bytes.
    proof fn lemma_to_bytes_len(self)
        ensures
            self.to_bytes().len() == Self::width(),
    ;

    /// Decoding inverts encoding.
    proof fn lemma_element_round_trip(self)
        ensures
            Self::of_bytes(self.to_bytes()) == self,
    ;

    /// The encoding width, as a runtime value.
    fn encoded_width() -> (r: usize)
        ensures
            r as nat == Self::width(),
    ;

    /// Appends the encoding of `self` to `out`.
    fn write_bytes(self, out: &mut Vec<u8>)
        ensures
            final(out)@ == old(out)@ + self.to_bytes(),
    ;

    /// Decodes the `width()`-sized block of `b` starting at `off`.
    fn read_bytes(b: &[u8], off: usize) -> (r: Self)
        requires
            off + Self::width() <= b@.len(),
        ensures
            r == Self::of_bytes(
                b@.subrange(off as int, off as int + Self::width() as int),
            ),
    ;
}

impl SwapElement for u64 {
    open spec fn width() -> nat {
        8
    }

    open spec fn to_bytes(self) -> Seq<u8> {
        seq![
            (self & 0xff) as u8,
            ((self >> 8) & 0xff) as u8,
            ((self >> 16) & 0xff) as u8,
            ((self >> 24) & 0xff) as u8,
            ((self >> 32) & 0xff) as u8,
            ((self >> 40) & 0xff) as u8,
            ((self >> 48) & 0xff) as u8,
            ((self >> 56) & 0xff) as u8,
        ]
    }

    open spec fn of_bytes(b: Seq<u8>) -> u64 {
        (b[0] as u64) | ((b[1] as u64) << 8) | ((b[2] as u64) << 16) | ((b[3] as u64) << 24)
            | ((b[4] as u64) << 32) | ((b[5] as u64) << 40) | ((b[6] as u64) << 48)
            | ((b[7] as u64) << 56)
    }

    proof fn lemma_width_pos() {
    }

    proof fn lemma_to_bytes_len(self) {
    }

    proof fn lemma_element_round_trip(self) {
        let x = self;
        assert((((x & 0xff) as u8) as u64) | (((((x >> 8) & 0xff) as u8) as u64) << 8)
            | (((((x >> 16) & 0xff) as u8) as u64) << 16)
            | (((((x >> 24) & 0xff) as u8) as u64) << 24)
            | (((((x >> 32) & 0xff) as u8) as u64) << 32)
            | (((((x >> 40) & 0xff) as u8) as u64) << 40)
            | (((((x >> 48) & 0xff) as u8) as u64) << 48)
            | (((((x >> 56) & 0xff) as u8) as u64) << 56) == x) by (bit_vector);
    }

    fn encoded_width() -> (r: usize) {
        8
    }

    fn write_bytes(self, out: &mut Vec<u8>) {
        let x = self;
        proof {
            assert((x & 0xff) < 256 && ((x >> 8) & 0xff) < 256 && ((x >> 16) & 0xff) < 256
                && ((x >> 24) & 0xff) < 256 && ((x >> 32) & 0xff) < 256
                && ((x >> 40) & 0xff) < 256 && ((x >> 48) & 0xff) < 256
                && ((x >> 56) & 0xff) < 256) by (bit_vector);
        }
        out.push((x & 0xff) as u8);
        out.push(((x >> 8) & 0xff) as u8);
        out.push(((x >> 16) & 0xff) as u8);
        out.push(((x >> 24) & 0xff) as u8);
        out.push(((x >> 32) & 0xff) as u8);
        out.push(((x >> 40) & 0xff) as u8);
        out.push(((x >> 48) & 0xff) as u8);
        out.push(((x >> 56) & 0xff) as u8);
        proof {
            assert(final(out)@ =~= old(out)@ + x.to_bytes());
        }
    }

    fn read_bytes(b: &[u8], off: usize) -> (r: u64) {
        let r = (b[off] as u64) | ((b[off + 1] as u64) << 8) | ((b[off + 2] as u64) << 16)
            | ((b[off + 3] as u64) << 24) | ((b[off + 4] as u64) << 32)
            | ((b[off + 5] as u64) << 40) | ((b[off + 6] as u64) << 48)
            | ((b[off + 7] as u64) << 56);
        proof {
            let s = b@.subrange(off as int, off as int + 8);
            assert(s[0] == b@[off as int]);
            assert(s[1] == b@[off as int + 1]);
            assert(s[2] == b@[off as int + 2]);
            assert(s[3] == b@[off as int + 3]);
            assert(s[4] == b@[off as int + 4]);
            assert(s[5] == b@[off as int + 5]);
            assert(s[6] == b@[off as int + 6]);
            assert(s[7] == b@[off as int + 7]);
        }
        r
    }
}

impl SwapElement for i32 {
    open spec fn width() -> nat {
        4
    }

    open spec fn to_bytes(self) -> Seq<u8> {
        let v = (self + 0x8000_0000) as u32;
        seq![
            (v & 0xff) as u8,
            ((v >> 8) & 0xff) as u8,
            ((v >> 16) & 0xff) as u8,
            ((v >> 24) & 0xff) as u8,
        ]
    }

    open spec fn of_bytes(b: Seq<u8>) -> i32 {
        let v = (b[0] as u32) | ((b[1] as u32) << 8) | ((b[2] as u32) << 16)
            | ((b[3] as u32) << 24);
        (v - 0x8000_0000) as i32
    }

    proof fn lemma_width_pos() {
    }

    proof fn lemma_to_bytes_len(self) {
    }

    proof fn lemma_element_round_trip(self) {
        let v = (self + 0x8000_0000) as u32;
        assert((((v & 0xff) as u8) as u32) | (((((v >> 8) & 0xff) as u8) as u32) << 8)
            | (((((v >> 16) & 0xff) as u8) as u32) << 16)
            | (((((v >> 24) & 0xff) as u8) as u32) << 24) == v) by (bit_vector);
    }

    fn encoded_width() -> (r: usize) {
        4
    }

    fn write_bytes(self, out: &mut Vec<u8>) {
        let v: u32 = if self >= 0 {
            (self as u32) + 0x8000_0000u32
        } else {
            ((self as i64) + 0x8000_0000i64) as u32
        };
        proof {
            assert((v & 0xff) < 256 && ((v >> 8) & 0xff) < 256 && ((v >> 16) & 0xff) < 256
                && ((v >> 24) & 0xff) < 256) by (bit_vector);
        }
        out.push((v & 0xff) as u8);
        out.push(((v >> 8) & 0xff) as u8);
        out.push(((v >> 16) & 0xff) as u8);
        out.push(((v >> 24) & 0xff) as u8);
        proof {
            assert(final(out)@ =~= old(out)@ + self.to_bytes());
        }
    }

    fn read_bytes(b: &[u8], off: usize) -> (r: i32) {
        let v = (b[off] as u32) | ((b[off + 1] as u32) << 8) | ((b[off + 2] as u32) << 16)
            | ((b[off + 3] as u32) << 24);
        let r = ((v as i64) - 0x8000_0000i64) as i32;
        proof {
            let s = b@.subrange(off as int, off as int + 4);
            assert(s[0] == b@[off as int]);
            assert(s[1] == b@[off as int + 1]);
            assert(s[2] == b@[off as int + 2]);
            assert(s[3] == b@[off as int + 3]);
        }
        r
    }
}

/// The serialized form of a whole batch: the elements' encodings laid back
/// to back, in order.
pub open spec fn encode_batch_spec<T: SwapElement>(batch: Seq<T>) -> Seq<u8>
    decreases batch.len(),
{
    if batch.len() == 0 {
        Seq::empty()
    } else {
        encode_batch_spec(batch.drop_last()) + batch.last().to_bytes()
    }
}

/// The batch a byte block decodes to: one element per `width()`-sized slice,
/// or nothing if the block is not a whole number of slices.
pub open spec fn decode_batch_spec<T: SwapElement>(bytes: Seq<u8>) -> Option<Seq<T>> {
    if T::width() > 0 && bytes.len() as int % (T::width() as int) == 0 {
        Some(
            Seq::new(
                (bytes.len() as int / T::width() as int) as nat,
                |i: int|
                    T::of_bytes(
                        bytes.subrange(i * T::width() as int, (i + 1) * T::width() as int),
                    ),
            ),
        )
    } else {
        None
    }
}

/// A batch of n elements serializes to exactly n * width() bytes.
pub proof fn lemma_encode_batch_len<T: SwapElement>(batch: Seq<T>)
    ensures
        encode_batch_spec(batch).len() == batch.len() * T::width(),
    decreases batch.len(),
{
    if batch.len() == 0 {
    } else {
        lemma_encode_batch_len::<T>(batch.drop_last());
        batch.last().lemma_to_bytes_len();
        assert((batch.len() - 1) * T::width() + T::width() == batch.len() * T::width())
            by (nonlinear_arith);
    }
}

/// The i-th `width()`-sized slice of a serialized batch is the encoding of
/// its i-th element.
proof fn lemma_encode_batch_index<T: SwapElement>(batch: Seq<T>, i: int)
    requires
        0 <= i < batch.len(),
    ensures
        encode_batch_spec(batch).subrange(
            i * T::width() as int,
            (i + 1) * T::width() as int,
        ) == batch[i].to_bytes(),
    decreases batch.len(),
{
    let w = T::width() as int;
    lemma_encode_batch_len::<T>(batch);
    lemma_encode_batch_len::<T>(batch.drop_last());
    batch.last().lemma_to_bytes_len();
    assert((i + 1) * w == i * w + w) by (nonlinear_arith);
    if i == batch.len() - 1 {
        assert(i * w == (batch.len() - 1) * w);
        assert(encode_batch_spec(batch).subrange(i * w, (i + 1) * w) =~= batch.last()
            .to_bytes());
    } else {
        lemma_encode_batch_index::<T>(batch.drop_last(), i);
        assert((i + 1) * w <= (batch.len() - 1) * w) by (nonlinear_arith)
            requires
                i + 1 <= batch.len() - 1,
                w >= 0,
        ;
        assert(encode_batch_spec(batch).subrange(i * w, (i + 1) * w) =~= encode_batch_spec(
            batch.drop_last()).subrange(i * w, (i + 1) * w));
        assert(batch.drop_last()[i] == batch[i]);
    }
}

/// Serializing a batch and decoding the bytes gives the batch back: the
/// element-level codec loses nothing, whatever the elements and however many.
pub proof fn lemma_batch_round_trip<T: SwapElement>(batch: Seq<T>)
    ensures
        decode_batch_spec::<T>(encode_batch_spec(batch)) == Some(batch),
{
    T::lemma_width_pos();
    lemma_encode_batch_len::<T>(batch);
    let w = T::width() as int;
    let bytes = encode_batch_spec(batch);
    lemma_mod_multiples_vanish(batch.len() as int, 0, w);
    assert(bytes.len() as int % w == 0);
    lemma_div_multiples_vanish(batch.len() as int, w);
    assert(w * (batch.len() as int) == (batch.len() as int) * w) by (nonlinear_arith);
    assert(bytes.len() as int / w == batch.len() as int);
    let dec = decode_batch_spec::<T>(bytes).unwrap();
    assert forall|i: int| 0 <= i < batch.len() implies dec[i] == batch[i] by {
        lemma_encode_batch_index::<T>(batch, i);
        batch[i].lemma_element_round_trip();
    }
    assert(dec =~= batch);
}

/// Serializes a batch of elements to bytes. Cannot fail.
pub fn encode_batch<T: SwapElement>(batch: &Vec<T>) -> (r: Vec<u8>)
    ensures
        r@ == encode_batch_spec(batch@),
{
    let mut out: Vec<u8> = Vec::new();
    let mut i: usize = 0;
    while i < batch.len()
        invariant
            0 <= i <= batch@.len(),
            out@ == encode_batch_spec(batch@.take(i as int)),
        decreases batch@.len() - i,
    {
        proof {
            assert(batch@.take(i + 1).drop_last() =~= batch@.take(i as int));
            assert(batch@.take(i + 1).last() == batch@[i as int]);
        }
        let el = batch[i];
        el.write_bytes(&mut out);
        i = i + 1;
    }
    proof {
        assert(batch@.take(batch@.len() as int) =~= batch@);
    }
    out
}

/// Decodes a byte block back into a batch of elements, or reports that the
/// block cannot be a serialized batch.
pub fn decode_batch<T: SwapElement>(bytes: &Vec<u8>) -> (r: Option<Vec<T>>)
    ensures
        match decode_batch_spec::<T>(bytes@) {
            Some(s) => r is Some && r.unwrap()@ == s,
            None => r is None,
        },
{
    let w = T::encoded_width();
    proof {
        T::lemma_width_pos();
    }
    let total = bytes.len();
    if total % w != 0 {
        return None;
    }
    let count = total / w;
    proof {
        vstd::arithmetic::div_mod::lemma_fundamental_div_mod(bytes@.len() as int, w as int);
    }
    let mut out: Vec<T> = Vec::new();
    let mut j: usize = 0;
    while j < count
        invariant
            0 <= j <= count,
            w as nat == T::width(),
            w > 0,
            count == bytes@.len() as int / w as int,
            bytes@.len() == (w as int) * (count as int),
            (w as int) * (count as int) <= usize::MAX,
            out@.len() == j,
            forall|i: int|
                0 <= i < j ==> out@[i] == T::of_bytes(
                    #[trigger] bytes@.subrange(i * T::width() as int, (i + 1) * T::width() as int),
                ),
        decreases count - j,
    {
        proof {
            assert((j as int + 1) * (w as int) <= (count as int) * (w as int))
                by (nonlinear_arith)
                requires
                    j as int + 1 <= count as int,
                    w as int >= 0,
            ;
            assert((count as int) * (w as int) == (w as int) * (count as int))
                by (nonlinear_arith);
            assert((j as int + 1) * (w as int) == (j as int) * (w as int) + (w as int))
                by (nonlinear_arith);
            assert((j as int) * (w as int) <= (j as int + 1) * (w as int))
                by (nonlinear_arith)
                requires
                    w as int >= 0,
            ;
        }
        let off = j * w;
        let el = T::read_bytes(bytes.as_slice(), off);
        out.push(el);
        j = j + 1;
    }
    proof {
        let s = decode_batch_spec::<T>(bytes@).unwrap();
        assert(out@ =~= s);
    }
    Some(out)
}

} // verus!
