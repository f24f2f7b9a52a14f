//! `DecInt`: the decimal text of one integer in a fixed inline buffer.

use crate::decimal::{
    decimal, lemma_decimal_bytes, lemma_decimal_len, lemma_one_component, lemma_round_trip,
    parse_decimal,
};
use vstd::prelude::*;
use vstd::slice::slice_subrange;

verus! {

/// Whether `v` lies between `i64::MIN` and `u64::MAX`, the values whose text
/// fits in the buffer of a `DecInt`.
pub open spec fn in_supported_range(v: int) -> bool {
    i64::MIN <= v <= u64::MAX
}

/// An integer type of at most 64 bits, which a `DecInt` can be built from.
pub trait DecimalInteger: crate::sealed::Sealed {
    /// The mathematical value of `self`.
    spec fn int_value(&self) -> int;

    /// `self` widened to `i128`, without loss.
    fn to_i128(self) -> (r: i128)
        ensures
            r as int == self.int_value(),
            in_supported_range(r as int),
    ;
}

impl DecimalInteger for i8 {
    open spec fn int_value(&self) -> int {
        *self as int
    }

    fn to_i128(self) -> (r: i128) {
        self as i128
    }
}

impl DecimalInteger for i16 {
    open spec fn int_value(&self) -> int {
        *self as int
    }

    fn to_i128(self) -> (r: i128) {
        self as i128
    }
}

impl DecimalInteger for i32 {
    open spec fn int_value(&self) -> int {
        *self as int
    }

    fn to_i128(self) -> (r: i128) {
        self as i128
    }
}

impl DecimalInteger for i64 {
    open spec fn int_value(&self) -> int {
        *self as int
    }

    fn to_i128(self) -> (r: i128) {
        self as i128
    }
}

impl DecimalInteger for isize {
    open spec fn int_value(&self) -> int {
        *self as int
    }

    fn to_i128(self) -> (r: i128) {
        self as i128
    }
}

impl DecimalInteger for u8 {
    open spec fn int_value(&self) -> int {
        *self as int
    }

    fn to_i128(self) -> (r: i128) {
        self as i128
    }
}

impl DecimalInteger for u16 {
    open spec fn int_value(&self) -> int {
        *self as int
    }

    fn to_i128(self) -> (r: i128) {
        self as i128
    }
}

impl DecimalInteger for u32 {
    open spec fn int_value(&self) -> int {
        *self as int
    }

    fn to_i128(self) -> (r: i128) {
        self as i128
    }
}

impl DecimalInteger for u64 {
    open spec fn int_value(&self) -> int {
        *self as int
    }

    fn to_i128(self) -> (r: i128) {
        self as i128
    }
}

impl DecimalInteger for usize {
    open spec fn int_value(&self) -> int {
        *self as int
    }

    fn to_i128(self) -> (r: i128) {
        self as i128
    }
}

/// Relies on `itoa::write` with a `&mut [u8]` sink: it writes the decimal text
/// of `v` at the start of the slice and returns its length, and fails only
/// when the slice is too short for the text.
#[verifier::external_body]
fn write_decimal(buf: &mut [u8; 20], v: i128) -> (r: Option<usize>)
    ensures
        r is Some <==> decimal(v as int).len() <= 20,
        r is Some ==> r->0 == decimal(v as int).len(),
        r is Some ==> final(buf)@.subrange(0, r->0 as int) == decimal(v as int),
{
    itoa::write(&mut buf[..], v).ok()
}

/// Whether every byte of `b` is below 128.
pub open spec fn all_ascii(b: Seq<u8>) -> bool {
    forall|k: int| 0 <= k < b.len() ==> b[k] < 128
}

/// The characters that ASCII bytes stand for, one for each byte.
pub open spec fn ascii_chars(b: Seq<u8>) -> Seq<char> {
    b.map_values(|c: u8| c as char)
}

/// Relies on `std::str::from_utf8`: bytes below 128 are valid UTF-8, and each
/// of them decodes to the one character of that code.
#[verifier::external_body]
fn ascii_str(b: &[u8]) -> (r: Option<&str>)
    ensures
        all_ascii(b@) ==> r is Some,
        all_ascii(b@) ==> r->0@ == ascii_chars(b@),
{
    std::str::from_utf8(b).ok()
}

/// The characters of a path's text.
pub uninterp spec fn path_text(p: &std::path::Path) -> Seq<char>;

/// Relies on `std::path::Path::new`: a borrowed path whose text is `s`.
#[verifier::external_body]
fn path_of(s: &str) -> (r: &std::path::Path)
    ensures
        path_text(r) == s@,
{
    std::path::Path::new(s)
}

/// Declares `std::path::Path`, kept opaque, so that a borrowed path can be
/// handed out.
#[verifier::external_type_specification]
#[verifier::external_body]
pub struct ExPath(std::path::Path);

/// The decimal text of an integer, stored inline: `buf[..len]` is that text.
pub struct DecInt {
    buf: [u8; 20],
    len: usize,
}

impl View for DecInt {
    type V = Seq<u8>;

    /// The text, as bytes.
    closed spec fn view(&self) -> Seq<u8> {
        self.buf@.subrange(0, self.len as int)
    }
}

impl DecInt {
    /// The text stored is that of a supported value.
    #[verifier::type_invariant]
    spec fn inv(&self) -> bool {
        &&& self.len <= 20
        &&& exists|v: int|
            in_supported_range(v) && self.buf@.subrange(0, self.len as int) == decimal(v)
    }

    /// The decimal text of `i`.
    pub fn new<I: DecimalInteger>(i: I) -> (r: DecInt)
        ensures
            r@ == decimal(i.int_value()),
    {
        let v = i.to_i128();
        let mut buf = [0u8; 20];
        proof {
            lemma_decimal_len(v as int);
        }
        let len = write_decimal(&mut buf, v).unwrap();
        DecInt { buf, len }
    }

    /// The decimal text of the raw file descriptor number `fd`.
    pub fn from_fd(fd: i32) -> (r: DecInt)
        ensures
            r@ == decimal(fd as int),
    {
        Self::new(fd)
    }

    /// The text, as bytes: ASCII digits after an optional `'-'`.
    pub fn as_bytes(&self) -> (r: &[u8])
        ensures
            r@ == self@,
    {
        proof {
            use_type_invariant(self);
        }
        slice_subrange(self.buf.as_slice(), 0, self.len)
    }

    /// The text, as a string slice.
    pub fn as_str(&self) -> (r: &str)
        ensures
            r@ == ascii_chars(self@),
    {
        let b = self.as_bytes();
        proof {
            use_type_invariant(self);
            let v = choose|v: int| in_supported_range(v) && self@ == decimal(v);
            lemma_decimal_bytes(v);
            assert forall|k: int| 0 <= k < b@.len() implies #[trigger] b@[k] < 128 by {
                assert(b@[k] == decimal(v)[k]);
            }
        }
        ascii_str(b).unwrap()
    }

    /// The text, as a one-component relative path.
    pub fn as_path(&self) -> (r: &std::path::Path)
        ensures
            path_text(r) == ascii_chars(self@),
    {
        path_of(self.as_str())
    }
}

/// The path text of a value is one component: not empty, without `'/'` or
/// NUL, neither `"."` nor `".."`; and it names the value alone, as two values
/// with the same path text are equal.
pub proof fn lemma_path_text(v: int, w: int)
    ensures
        ascii_chars(decimal(v)).len() >= 1,
        forall|k: int|
            0 <= k < ascii_chars(decimal(v)).len() ==> #[trigger] ascii_chars(decimal(v))[k]
                != '/' && ascii_chars(decimal(v))[k] != '\0',
        ascii_chars(decimal(v)) != seq!['.'],
        ascii_chars(decimal(v)) != seq!['.', '.'],
        ascii_chars(decimal(v)) == ascii_chars(decimal(w)) ==> v == w,
{
    lemma_one_component(v);
    let t = ascii_chars(decimal(v));
    assert forall|k: int| 0 <= k < t.len() implies #[trigger] t[k] != '/' && t[k] != '\0' by {
        assert(t[k] == decimal(v)[k] as char);
    }
    assert(t != seq!['.']) by {
        assert(t[0] == decimal(v)[0] as char);
        assert(seq!['.'][0] == '.');
    }
    assert(t != seq!['.', '.']) by {
        assert(t[0] == decimal(v)[0] as char);
        assert(seq!['.', '.'][0] == '.');
    }
    if t == ascii_chars(decimal(w)) {
        let u = ascii_chars(decimal(w));
        assert(decimal(v) =~= decimal(w)) by {
            assert(decimal(v).len() == t.len() && decimal(w).len() == u.len());
            assert forall|k: int| 0 <= k < decimal(v).len() implies decimal(v)[k] == decimal(
                w,
            )[k] by {
                assert(t[k] == decimal(v)[k] as char);
                assert(u[k] == decimal(w)[k] as char);
            }
        }
        lemma_round_trip(v);
        lemma_round_trip(w);
        assert(parse_decimal(decimal(v)) == parse_decimal(decimal(w)));
    }
}

/// Building from a descriptor number `fd` gives the same text as building
/// from the integer `fd`.
pub proof fn lemma_from_fd_is_new(fd: i32)
    ensures
        decimal(fd as int) == decimal(fd.int_value()),
{
}

impl std::ops::Deref for DecInt {
    type Target = std::path::Path;

    fn deref(&self) -> (r: &std::path::Path)
        ensures
            path_text(r) == ascii_chars(self@),
    {
        self.as_path()
    }
}

impl AsRef<std::path::Path> for DecInt {
    fn as_ref(&self) -> (r: &std::path::Path)
        ensures
            path_text(r) == ascii_chars(self@),
    {
        self.as_path()
    }
}

} // verus!
