//! The bounded text buffer itself: construction, capacity-checked mutation,
//! and maintenance of the two invariants (length never exceeds the capacity,
//! contents are always valid UTF-8).

use vstd::prelude::*;

verus! {

use vstd::std_specs::iter::IteratorSpec;

use vstd::string::StringSliceAdditionalSpecFns;
use vstd::utf8::decode_utf8;
use vstd::utf8::encode_utf8;
use vstd::utf8::encode_utf8_decode_utf8;
use vstd::utf8::encode_utf8_valid_utf8;
use vstd::utf8::is_ascii_chars;
use vstd::utf8::is_ascii_chars_encode_utf8;
use vstd::utf8::is_leading_byte_width_1;
use vstd::utf8::length_of_first_scalar;
use vstd::utf8::pop_first_scalar;
use vstd::utf8::valid_first_scalar;
use vstd::utf8::valid_utf8;
use vstd::utf8::valid_utf8_concat;

/// The single failure of this library: an operation would have made a
/// buffer longer than its fixed capacity.
#[derive(Debug, Copy, Clone, PartialEq, Eq, Structural)]
pub enum StaticStringError {
    CapacityExceeded,
}

/// A fixed-capacity text buffer: at most `N` bytes, always valid UTF-8.
///
/// The buffer is a plain value; it is created empty (or from bytes it can
/// hold) and grows only through capacity-checked appends, which fail with
/// [`StaticStringError::CapacityExceeded`] rather than growing past `N`.
pub struct StaticString<const N: usize> {
    data: Vec<u8>,
}

impl<const N: usize> View for StaticString<N> {
    type V = Seq<u8>;

    closed spec fn view(&self) -> Seq<u8> {
        self.data@
    }
}

/// Every byte of `s` is in the ASCII range.
pub open spec fn all_ascii(s: Seq<u8>) -> bool {
    forall|i: int| 0 <= i < s.len() ==> s[i] < 0x80
}

/// A sequence of ASCII bytes is valid UTF-8: each byte stands for one
/// one-byte scalar.
pub proof fn lemma_ascii_bytes_valid_utf8(s: Seq<u8>)
    requires
        all_ascii(s),
    ensures
        valid_utf8(s),
    decreases s.len(),
{
    if s.len() != 0 {
        assert(is_leading_byte_width_1(s[0]));
        assert(valid_first_scalar(s));
        assert(length_of_first_scalar(s) == 1);
        let rest = s.subrange(1, s.len() as int);
        assert(pop_first_scalar(s) =~= rest);
        lemma_ascii_bytes_valid_utf8(rest);
    }
}

/// Round trip of construction and text view: a buffer that holds exactly
/// the UTF-8 encoding of some text — as one built by
/// [`StaticString::from_text`] or [`StaticString::from_array`] does — reads
/// back through [`StaticString::as_str`] as exactly that text.
pub proof fn lemma_text_round_trip<const N: usize>(s: StaticString<N>, text: Seq<char>)
    requires
        s@ == encode_utf8(text),
    ensures
        decode_utf8(s@) == text,
{
    encode_utf8_decode_utf8(text);
}

impl<const N: usize> StaticString<N> {
    /// Well-formed: never longer than the capacity `N`, and the bytes form
    /// valid UTF-8. Every constructor establishes this and every method
    /// preserves it.
    pub open spec fn wf(&self) -> bool {
        &&& self@.len() <= N
        &&& valid_utf8(self@)
    }

    /// Number of bytes currently in the buffer.
    pub fn len(&self) -> (r: usize)
        ensures
            r == self@.len(),
    {
        self.data.len()
    }

    /// True when the buffer holds no bytes.
    pub fn is_empty(&self) -> (r: bool)
        ensures
            r == (self@.len() == 0),
    {
        self.data.len() == 0
    }

    /// A buffer with `len` reserved zero bytes, or `CapacityExceeded` when
    /// `len` exceeds the capacity `N`.
    pub fn new(len: usize) -> (r: Result<Self, StaticStringError>)
        ensures
            len <= N ==> (r matches Ok(s) && s.wf() && s@ == Seq::new(
                len as nat,
                |i: int| 0u8,
            )),
            len > N ==> r == Err::<Self, StaticStringError>(StaticStringError::CapacityExceeded),
    {
        if len <= N {
            let data = vec![0u8; len];
            let s = StaticString { data };
            proof {
                assert(s@ =~= Seq::new(len as nat, |i: int| 0u8));
                lemma_ascii_bytes_valid_utf8(s@);
            }
            Ok(s)
        } else {
            Err(StaticStringError::CapacityExceeded)
        }
    }

    /// Read access to the buffer's bytes.
    pub fn as_slice(&self) -> (r: &[u8])
        ensures
            r@ == self@,
    {
        self.data.as_slice()
    }

    /// Appends `other`, or fails with `CapacityExceeded` — leaving the buffer
    /// untouched — when the result would be longer than the capacity `N`.
    /// The append is all-or-nothing: on failure not a single byte is taken.
    pub fn try_extend_from_slice(&mut self, other: &[u8]) -> (r: Result<(), StaticStringError>)
        requires
            old(self).wf(),
            valid_utf8(other@),
        ensures
            final(self).wf(),
            old(self)@.len() + other@.len() <= N ==> r == Ok::<(), StaticStringError>(())
                && final(self)@ == old(self)@ + other@,
            old(self)@.len() + other@.len() > N ==> r == Err::<(), StaticStringError>(
                StaticStringError::CapacityExceeded,
            ) && final(self)@ == old(self)@,
    {
        if other.len() <= N - self.data.len() {
            self.data.extend_from_slice(other);
            proof {
                assert(self@ =~= old(self)@ + other@);
                valid_utf8_concat(old(self)@, other@);
            }
            Ok(())
        } else {
            Err(StaticStringError::CapacityExceeded)
        }
    }

    /// Appends the bytes that `iter` will yield, with the same all-or-nothing
    /// contract as [`StaticString::try_extend_from_slice`]: either every byte
    /// is taken, or the buffer is left exactly as it was and
    /// `CapacityExceeded` is returned.
    #[verifier::loop_isolation(false)]
    pub fn try_extend_from_iter<I: Iterator<Item = u8>>(&mut self, iter: I) -> (r: Result<
        (),
        StaticStringError,
    >)
        requires
            old(self).wf(),
            iter.obeys_prophetic_iter_laws(),
            iter.decrease() is Some,
            valid_utf8(iter.remaining()),
        ensures
            final(self).wf(),
            old(self)@.len() + iter.remaining().len() <= N ==> r == Ok::<(), StaticStringError>(())
                && final(self)@ == old(self)@ + iter.remaining(),
            old(self)@.len() + iter.remaining().len() > N ==> r == Err::<(), StaticStringError>(
                StaticStringError::CapacityExceeded,
            ) && final(self)@ == old(self)@,
    {
        let ghost orig = self@;
        let ghost rem0 = iter.remaining();
        let start = self.data.len();
        let mut it = iter;
        loop
            invariant
                it.obeys_prophetic_iter_laws(),
                it.decrease() is Some,
                start == orig.len(),
                orig.len() <= N,
                valid_utf8(orig),
                self.data@.len() <= N,
                it.remaining().len() <= rem0.len(),
                self.data@ == orig + rem0.subrange(0, rem0.len() - it.remaining().len()),
                it.remaining() == rem0.subrange(
                    rem0.len() - it.remaining().len(),
                    rem0.len() as int,
                ),
            decreases it.decrease()->0,
        {
            let ghost it_pre = it;
            match it.next() {
                Some(b) => {
                    let ghost k = rem0.len() - it_pre.remaining().len();
                    if self.data.len() < N {
                        self.data.push(b);
                        proof {
                            assert(b == rem0[k]);
                            assert(self.data@ =~= orig + rem0.subrange(0, k + 1));
                            assert(it.remaining() =~= rem0.subrange(k + 1, rem0.len() as int));
                        }
                    } else {
                        self.data.truncate(start);
                        proof {
                            assert(self.data@ =~= orig);
                            assert(rem0.len() - it_pre.remaining().len() == N - orig.len());
                            assert(orig.len() + rem0.len() > N);
                        }
                        return Err(StaticStringError::CapacityExceeded);
                    }
                },
                None => {
                    proof {
                        assert(it.remaining().len() == 0);
                        assert(self.data@ =~= orig + rem0);
                    }
                    break ;
                },
            }
        }
        proof {
            valid_utf8_concat(orig, rem0);
        }
        Ok(())
    }

    /// The by-reference form of [`StaticString::try_extend_from_iter`]: takes
    /// an iterator over borrowed bytes and appends the bytes themselves,
    /// all or nothing.
    #[verifier::loop_isolation(false)]
    pub fn try_extend_from_iter_ref<'a, I: Iterator<Item = &'a u8>>(&mut self, iter: I) -> (r:
        Result<(), StaticStringError>)
        requires
            old(self).wf(),
            iter.obeys_prophetic_iter_laws(),
            iter.decrease() is Some,
            valid_utf8(iter.remaining().unref()),
        ensures
            final(self).wf(),
            old(self)@.len() + iter.remaining().len() <= N ==> r == Ok::<(), StaticStringError>(())
                && final(self)@ == old(self)@ + iter.remaining().unref(),
            old(self)@.len() + iter.remaining().len() > N ==> r == Err::<(), StaticStringError>(
                StaticStringError::CapacityExceeded,
            ) && final(self)@ == old(self)@,
    {
        let ghost orig = self@;
        let ghost rem0 = iter.remaining();
        let start = self.data.len();
        let mut it = iter;
        loop
            invariant
                it.obeys_prophetic_iter_laws(),
                it.decrease() is Some,
                start == orig.len(),
                orig.len() <= N,
                valid_utf8(orig),
                self.data@.len() <= N,
                it.remaining().len() <= rem0.len(),
                self.data@ == orig + rem0.subrange(
                    0,
                    rem0.len() - it.remaining().len(),
                ).unref(),
                it.remaining() == rem0.subrange(
                    rem0.len() - it.remaining().len(),
                    rem0.len() as int,
                ),
            decreases it.decrease()->0,
        {
            let ghost it_pre = it;
            match it.next() {
                Some(b) => {
                    let ghost k = rem0.len() - it_pre.remaining().len();
                    if self.data.len() < N {
                        self.data.push(*b);
                        proof {
                            assert(b == rem0[k]);
                            assert(self.data@ =~= orig + rem0.subrange(0, k + 1).unref());
                            assert(it.remaining() =~= rem0.subrange(k + 1, rem0.len() as int));
                        }
                    } else {
                        self.data.truncate(start);
                        proof {
                            assert(self.data@ =~= orig);
                            assert(orig.len() + rem0.len() > N);
                        }
                        return Err(StaticStringError::CapacityExceeded);
                    }
                },
                None => {
                    proof {
                        assert(it.remaining().len() == 0);
                        assert(self.data@ =~= orig + rem0.unref());
                    }
                    break ;
                },
            }
        }
        proof {
            valid_utf8_concat(orig, rem0.unref());
        }
        Ok(())
    }

    /// A buffer holding exactly the `A` bytes of `value`, for `A` up to the
    /// capacity `N`. This is the exact-length construction: the remaining
    /// capacity stays unused.
    pub fn from_array<const A: usize>(value: [u8; A]) -> (r: Self)
        requires
            A <= N,
            valid_utf8(value@),
        ensures
            r.wf(),
            r@ == value@,
    {
        let mut data: Vec<u8> = Vec::new();
        data.extend_from_slice(value.as_slice());
        let s = StaticString { data };
        proof {
            assert(s@ =~= value@);
        }
        s
    }

    /// A buffer holding the `A` bytes of `value` followed by `N - A` copies
    /// of the ASCII byte `fill`: the fill-and-extend construction, which
    /// always yields a full-capacity buffer. It exists for embedding
    /// fixed-width literal constants; [`StaticString::from_array`] is the
    /// general-purpose form.
    pub fn from_array_filled<const A: usize>(value: [u8; A], fill: u8) -> (r: Self)
        requires
            A <= N,
            valid_utf8(value@),
            fill < 0x80,
        ensures
            r.wf(),
            r@.len() == N,
            r@ == value@ + Seq::new((N - A) as nat, |i: int| fill),
    {
        let mut data: Vec<u8> = Vec::new();
        data.extend_from_slice(value.as_slice());
        proof {
            assert(data@ =~= value@);
        }
        while data.len() < N
            invariant
                A <= data@.len() <= N,
                data@ == value@ + Seq::new((data@.len() - A) as nat, |i: int| fill),
            decreases N - data@.len(),
        {
            data.push(fill);
            proof {
                assert(data@ =~= value@ + Seq::new((data@.len() - A) as nat, |i: int| fill));
            }
        }
        let s = StaticString { data };
        proof {
            let pad = Seq::new((N - A) as nat, |i: int| fill);
            lemma_ascii_bytes_valid_utf8(pad);
            valid_utf8_concat(value@, pad);
        }
        s
    }
}

/// The fixed text to which [`StaticStringError`] converts: the UTF-8 bytes
/// of `"CapacityExceeded"` (16 bytes, all ASCII).
pub open spec fn capacity_error_text() -> Seq<u8> {
    encode_utf8("CapacityExceeded"@)
}

impl<const N: usize> StaticString<N> {
    /// Appends the UTF-8 bytes of `s`: the sink side of the formatting
    /// protocol, with the same all-or-nothing capacity contract as
    /// [`StaticString::try_extend_from_slice`].
    pub fn write_str(&mut self, s: &str) -> (r: Result<(), StaticStringError>)
        requires
            old(self).wf(),
        ensures
            final(self).wf(),
            old(self)@.len() + s.spec_bytes().len() <= N ==> r == Ok::<(), StaticStringError>(())
                && final(self)@ == old(self)@ + s.spec_bytes(),
            old(self)@.len() + s.spec_bytes().len() > N ==> r == Err::<(), StaticStringError>(
                StaticStringError::CapacityExceeded,
            ) && final(self)@ == old(self)@,
    {
        let bytes = s.as_bytes();
        proof {
            encode_utf8_valid_utf8(s@);
        }
        self.try_extend_from_slice(bytes)
    }

    /// A buffer holding exactly the UTF-8 bytes of `text`, or
    /// `CapacityExceeded` when they do not fit within the capacity `N`.
    pub fn from_text(text: &str) -> (r: Result<Self, StaticStringError>)
        ensures
            text.spec_bytes().len() <= N ==> (r matches Ok(s) && s.wf() && s@
                == text.spec_bytes()),
            text.spec_bytes().len() > N ==> r == Err::<Self, StaticStringError>(
                StaticStringError::CapacityExceeded,
            ),
    {
        let mut s = Self::default();
        match s.write_str(text) {
            Ok(()) => {
                proof {
                    assert(s@ =~= text.spec_bytes());
                }
                Ok(s)
            },
            Err(e) => Err(e),
        }
    }

    /// The buffer as text. The well-formedness invariant makes this view
    /// safe without any re-validation: the returned text's UTF-8 encoding
    /// is exactly the buffer's bytes.
    pub fn as_str(&self) -> (r: &str)
        requires
            self.wf(),
        ensures
            r.spec_bytes() == self@,
            r@ == decode_utf8(self@),
    {
        let r = bytes_as_str(self.data.as_slice());
        proof {
            encode_utf8_decode_utf8(r@);
        }
        r
    }

    /// The error rendered as bounded text: exactly the 16-byte literal
    /// `"CapacityExceeded"`, which is why this conversion asks for a
    /// capacity of at least 16.
    pub fn from_error(e: StaticStringError) -> (r: Self)
        requires
            16 <= N,
        ensures
            r.wf(),
            r@ == capacity_error_text(),
            r@.len() == 16,
    {
        match e {
            StaticStringError::CapacityExceeded => {
                let text = "CapacityExceeded";
                let mut data: Vec<u8> = Vec::new();
                data.extend_from_slice(text.as_bytes());
                let s = StaticString { data };
                proof {
                    reveal_strlit("CapacityExceeded");
                    assert(is_ascii_chars(text@));
                    is_ascii_chars_encode_utf8(text@);
                    encode_utf8_valid_utf8(text@);
                    assert(s@ =~= capacity_error_text());
                }
                s
            },
        }
    }

    /// Byte-level iteration over the buffer's contents.
    pub fn iter(&self) -> (r: core::slice::Iter<'_, u8>)
        ensures
            r.obeys_prophetic_iter_laws(),
            r.decrease() is Some,
            r.remaining().unref() == self@,
    {
        let sl = self.data.as_slice();
        let r = sl.iter();
        proof {
            vstd::std_specs::slice::axiom_spec_slice_iter(sl);
            assert(r.remaining().unref() =~= self@);
        }
        r
    }

    /// Collapses a two-variant result into one buffer by rendering whichever
    /// variant is present — the success value as it is, the error as its
    /// fixed text — with no tag distinguishing which variant produced it.
    pub fn from_result(value: Result<Self, StaticStringError>) -> (r: Self)
        requires
            16 <= N,
            value matches Ok(s) ==> s.wf(),
        ensures
            r.wf(),
            value matches Ok(s) ==> r@ == s@,
            value matches Err(e) ==> r@ == capacity_error_text(),
    {
        match value {
            Ok(s) => s,
            Err(e) => Self::from_error(e),
        }
    }
}

/// Relies on `core::str::from_utf8`: on bytes that are valid UTF-8 it
/// returns the text whose UTF-8 encoding is exactly those bytes (mirroring
/// the contract vstd gives `core::str::from_utf8_unchecked`).
#[verifier::external_body]
fn bytes_as_str(v: &[u8]) -> (r: &str)
    requires
        valid_utf8(v@),
    ensures
        r.spec_bytes() == v@,
{
    match core::str::from_utf8(v) {
        Ok(s) => s,
        Err(_) => "",
    }
}

impl<const N: usize> Clone for StaticString<N> {
    /// The clone holds the same bytes as the original.
    fn clone(&self) -> (r: Self)
        ensures
            r@ == self@,
    {
        let data = self.data.clone();
        proof {
            assert(data@ =~= self.data@);
        }
        StaticString { data }
    }
}

impl<const N: usize> PartialEq for StaticString<N> {
    /// Equality between two buffers of the same capacity: exact equality of
    /// their content bytes.
    fn eq(&self, other: &Self) -> (r: bool) {
        let r = self.data == other.data;
        proof {
            if self@ == other@ {
                assert(vstd::std_specs::cmp::PartialEqSpec::eq_spec(&self.data, &other.data));
            } else {
                assert(!(self.data@ =~= other.data@));
            }
        }
        r
    }
}

impl<const N: usize> vstd::std_specs::cmp::PartialEqSpecImpl for StaticString<N> {
    open spec fn obeys_eq_spec() -> bool {
        true
    }

    open spec fn eq_spec(&self, other: &Self) -> bool {
        self@ == other@
    }
}

impl<const N: usize> Default for StaticString<N> {
    /// The empty buffer; it trivially satisfies both invariants.
    fn default() -> (r: Self)
        ensures
            r.wf(),
            r@ == Seq::<u8>::empty(),
    {
        StaticString { data: Vec::new() }
    }
}

} // verus!
