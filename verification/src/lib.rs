//! Window layout management: matching live windows against a declarative
//! layout, resolving symbolic geometry into pixels, and planning the batch of
//! moves that a platform commits in one step.

use vstd::prelude::*;
use vstd::string::StringSliceAdditionalSpecFns;
use vstd::utf8::{decode_utf8, encode_utf8, is_char_boundary};
use crate::text::{decimal, to_decimal};

pub mod batch;
pub mod cascade;
pub mod config;
pub mod error;
pub mod geometry;
pub mod layout;
pub mod monitor;
pub mod pattern;
pub mod plan;
pub mod profile;
pub mod platform;
pub mod resolved;
pub mod text;

verus! {

/// A position on the desktop, in pixels.
#[derive(Debug, Clone, Copy, PartialEq, Eq, Structural)]
pub struct Point {
    pub x: i32,
    pub y: i32,
}

impl Point {
    pub fn new(x: i32, y: i32) -> (p: Self)
        ensures
            p.x == x,
            p.y == y,
    {
        Point { x, y }
    }

    /// How a point is written: `(x, y)`.
    pub open spec fn written(self) -> Seq<char> {
        "("@ + decimal(self.x as int) + ", "@ + decimal(self.y as int) + ")"@
    }

    /// Writes the point as `(x, y)`.
    pub fn text(&self) -> (s: String)
        ensures
            s@ == self.written(),
    {
        let mut s = String::from_str("(");
        s.append(to_decimal(self.x).as_str());
        s.append(", ");
        s.append(to_decimal(self.y).as_str());
        s.append(")");
        s
    }
}

/// The extent of a window or a screen, in pixels.
#[derive(Debug, Clone, Copy, PartialEq, Eq, Structural)]
pub struct Dimensions {
    pub width: i32,
    pub height: i32,
}

impl Dimensions {
    pub fn new(width: i32, height: i32) -> (d: Self)
        ensures
            d.width == width,
            d.height == height,
    {
        Dimensions { width, height }
    }

    /// How dimensions are written: the width, an `x`, the height.
    pub open spec fn written(self) -> Seq<char> {
        decimal(self.width as int) + "x"@ + decimal(self.height as int)
    }

    /// Writes the dimensions as width, `x`, height.
    pub fn text(&self) -> (s: String)
        ensures
            s@ == self.written(),
    {
        let mut s = to_decimal(self.width);
        s.append("x");
        s.append(to_decimal(self.height).as_str());
        s
    }
}

/// What stands for the part that was cut out of a string.
pub const ELLIPSIS: &'static str = "...";

/// The greatest character boundary of `bytes` that is at most `at`.
pub open spec fn boundary_before(bytes: Seq<u8>, at: int) -> int
    decreases at,
{
    if at <= 0 {
        0
    } else if is_char_boundary(bytes, at) {
        at
    } else {
        boundary_before(bytes, at - 1)
    }
}

/// The least character boundary of `bytes` that is at least `at`.
pub open spec fn boundary_after(bytes: Seq<u8>, at: int) -> int
    decreases bytes.len() - at,
{
    if at >= bytes.len() {
        bytes.len() as int
    } else if is_char_boundary(bytes, at) {
        at
    } else {
        boundary_after(bytes, at + 1)
    }
}

/// The characters of the first `n` bytes of `s`; where `n` falls inside a
/// character, that character is left out.
pub open spec fn head(s: Seq<char>, n: int) -> Seq<char> {
    let bytes = encode_utf8(s);
    decode_utf8(bytes.subrange(0, boundary_before(bytes, n)))
}

/// The characters of the last `n` bytes of `s`; where they begin inside a
/// character, that character is left out.
pub open spec fn tail(s: Seq<char>, n: int) -> Seq<char> {
    let bytes = encode_utf8(s);
    decode_utf8(bytes.subrange(boundary_after(bytes, bytes.len() - n), bytes.len() as int))
}

/// The first `n` characters of the ellipsis.
pub open spec fn dots(n: int) -> Seq<char> {
    ELLIPSIS@.take(n)
}

/// A string shortened to `max_length` bytes by cutting on the right.
pub open spec fn shrunk_right(s: Seq<char>, max_length: int) -> Seq<char> {
    if encode_utf8(s).len() <= max_length {
        s
    } else if max_length < 3 {
        dots(max_length)
    } else {
        head(s, max_length - 3) + ELLIPSIS@
    }
}

/// A string shortened to `max_length` bytes by cutting on the left.
pub open spec fn shrunk_left(s: Seq<char>, max_length: int) -> Seq<char> {
    if encode_utf8(s).len() <= max_length {
        s
    } else if max_length < 3 {
        dots(max_length)
    } else {
        ELLIPSIS@ + tail(s, max_length - 3)
    }
}

/// A string shortened to `max_length` bytes by cutting in the middle. Of an
/// odd number of bytes to keep, the end gets one more than the start.
pub open spec fn shrunk_center(s: Seq<char>, max_length: int) -> Seq<char> {
    if encode_utf8(s).len() <= max_length {
        s
    } else if max_length < 3 {
        dots(max_length)
    } else {
        let keep = max_length - 3;
        head(s, keep / 2) + ELLIPSIS@ + tail(s, keep - keep / 2)
    }
}

/// The length of a string in bytes.
fn byte_len(s: &str) -> (len: usize)
    ensures
        len == s.spec_bytes().len(),
        s.spec_bytes() == encode_utf8(s@),
{
    s.as_bytes().len()
}

fn ellipsis_prefix(n: usize) -> (s: String)
    requires
        n < 3,
    ensures
        s@ == dots(n as int),
{
    proof {
        reveal_strlit("...");
        reveal_strlit("..");
        reveal_strlit(".");
        reveal_strlit("");
    }
    let s = if n == 0 {
        String::from_str("")
    } else if n == 1 {
        String::from_str(".")
    } else {
        String::from_str("..")
    };
    assert(s@ =~= ELLIPSIS@.take(n as int));
    s
}

/// The first `n` bytes of `s`, cut back to a character boundary.
fn head_of(s: &str, n: usize) -> (part: &str)
    requires
        n <= s.spec_bytes().len(),
    ensures
        part@ == head(s@, n as int),
{
    proof {
        vstd::utf8::encode_utf8_valid_utf8(s@);
    }
    let mut cut = n;
    while cut > 0 && !s.is_char_boundary(cut)
        invariant
            cut <= n <= s.spec_bytes().len(),
            vstd::utf8::valid_utf8(s.spec_bytes()),
            boundary_before(s.spec_bytes(), n as int) == boundary_before(s.spec_bytes(), cut as int),
        decreases cut,
    {
        cut -= 1;
    }
    let (part, _) = s.split_at(cut);
    proof {
        vstd::utf8::encode_utf8_decode_utf8(part@);
    }
    part
}

/// The last `n` bytes of `s`, cut forward to a character boundary.
fn tail_of(s: &str, n: usize) -> (part: &str)
    requires
        n <= s.spec_bytes().len(),
    ensures
        part@ == tail(s@, n as int),
{
    proof {
        vstd::utf8::encode_utf8_valid_utf8(s@);
        vstd::utf8::is_char_boundary_start_end_of_seq(s.spec_bytes());
    }
    let len = byte_len(s);
    let mut cut = len - n;
    while cut < len && !s.is_char_boundary(cut)
        invariant
            cut <= len == s.spec_bytes().len(),
            vstd::utf8::valid_utf8(s.spec_bytes()),
            boundary_after(s.spec_bytes(), len - n) == boundary_after(s.spec_bytes(), cut as int),
        decreases len - cut,
    {
        cut += 1;
    }
    let (_, part) = s.split_at(cut);
    proof {
        vstd::utf8::encode_utf8_decode_utf8(part@);
    }
    part
}

/// Shrinks a string to a specified maximum length by keeping the left portion
/// and replacing the right portion with an ellipsis ("...").
///
/// Lengths are in bytes. A string of at most `max_length` bytes is returned
/// as it is. With a `max_length` below the length of the ellipsis, the result
/// is that much of the ellipsis.
pub fn shrink_right(s: &str, max_length: usize) -> (shrunk: String)
    ensures
        shrunk@ == shrunk_right(s@, max_length as int),
{
    if byte_len(s) <= max_length {
        String::from_str(s)
    } else if max_length < 3 {
        ellipsis_prefix(max_length)
    } else {
        let mut shrunk = String::from_str(head_of(s, max_length - 3));
        shrunk.append(ELLIPSIS);
        shrunk
    }
}

/// Shrinks a string to a specified maximum length by keeping the right portion
/// and replacing the left portion with an ellipsis ("...").
///
/// Lengths are in bytes. A string of at most `max_length` bytes is returned
/// as it is. With a `max_length` below the length of the ellipsis, the result
/// is that much of the ellipsis.
pub fn shrink_left(s: &str, max_length: usize) -> (shrunk: String)
    ensures
        shrunk@ == shrunk_left(s@, max_length as int),
{
    if byte_len(s) <= max_length {
        String::from_str(s)
    } else if max_length < 3 {
        ellipsis_prefix(max_length)
    } else {
        let mut shrunk = String::from_str(ELLIPSIS);
        shrunk.append(tail_of(s, max_length - 3));
        shrunk
    }
}

/// Shrinks a string to a specified length by keeping equal parts from the
/// start and end and replacing the middle part with an ellipsis ("..."). If
/// the number of bytes to keep is odd, one more is taken from the end.
///
/// Lengths are in bytes. A string of at most `max_length` bytes is returned
/// as it is. With a `max_length` below the length of the ellipsis, the result
/// is that much of the ellipsis.
pub fn shrink_center(s: &str, max_length: usize) -> (shrunk: String)
    ensures
        shrunk@ == shrunk_center(s@, max_length as int),
{
    if byte_len(s) <= max_length {
        String::from_str(s)
    } else if max_length < 3 {
        ellipsis_prefix(max_length)
    } else {
        let keep = max_length - 3;
        let half = keep / 2;
        let mut shrunk = String::from_str(head_of(s, half));
        shrunk.append(ELLIPSIS);
        shrunk.append(tail_of(s, keep - half));
        shrunk
    }
}

/// The encoding of two texts put together is their encodings put together.
pub proof fn lemma_encode_concat(a: Seq<char>, b: Seq<char>)
    ensures
        encode_utf8(a + b) == encode_utf8(a) + encode_utf8(b),
    decreases a.len(),
{
    if a.len() == 0 {
        assert(a + b =~= b);
        assert(encode_utf8(a) + encode_utf8(b) =~= encode_utf8(b));
    } else {
        lemma_encode_concat(a.drop_first(), b);
        assert((a + b).drop_first() =~= a.drop_first() + b);
        assert((a + b)[0] == a[0]);
        assert(encode_utf8(a + b) =~= encode_utf8(a) + encode_utf8(b));
    }
}

/// The boundary before `at` is a character boundary between 0 and `at`.
pub proof fn lemma_boundary_before(bytes: Seq<u8>, at: int)
    requires
        vstd::utf8::valid_utf8(bytes),
        0 <= at <= bytes.len(),
    ensures
        0 <= boundary_before(bytes, at) <= at,
        is_char_boundary(bytes, boundary_before(bytes, at)),
    decreases at,
{
    if at > 0 && !is_char_boundary(bytes, at) {
        lemma_boundary_before(bytes, at - 1);
    }
}

/// The boundary after `at` is a character boundary between `at` and the end.
pub proof fn lemma_boundary_after(bytes: Seq<u8>, at: int)
    requires
        vstd::utf8::valid_utf8(bytes),
        0 <= at <= bytes.len(),
    ensures
        at <= boundary_after(bytes, at) <= bytes.len(),
        is_char_boundary(bytes, boundary_after(bytes, at)),
    decreases bytes.len() - at,
{
    if at >= bytes.len() {
        vstd::utf8::is_char_boundary_start_end_of_seq(bytes);
    } else if !is_char_boundary(bytes, at) {
        lemma_boundary_after(bytes, at + 1);
    }
}

/// The head of a text takes at most `n` bytes.
pub proof fn lemma_head_fits(s: Seq<char>, n: int)
    requires
        0 <= n <= encode_utf8(s).len(),
    ensures
        encode_utf8(head(s, n)).len() <= n,
{
    let bytes = encode_utf8(s);
    vstd::utf8::encode_utf8_valid_utf8(s);
    lemma_boundary_before(bytes, n);
    let cut = boundary_before(bytes, n);
    vstd::utf8::valid_utf8_split(bytes, cut);
    vstd::utf8::decode_utf8_encode_utf8(bytes.subrange(0, cut));
}

/// The tail of a text takes at most `n` bytes.
pub proof fn lemma_tail_fits(s: Seq<char>, n: int)
    requires
        0 <= n <= encode_utf8(s).len(),
    ensures
        encode_utf8(tail(s, n)).len() <= n,
{
    let bytes = encode_utf8(s);
    vstd::utf8::encode_utf8_valid_utf8(s);
    lemma_boundary_after(bytes, bytes.len() - n);
    let cut = boundary_after(bytes, bytes.len() - n);
    vstd::utf8::valid_utf8_split(bytes, cut);
    vstd::utf8::decode_utf8_encode_utf8(bytes.subrange(cut, bytes.len() as int));
}

/// So much of the ellipsis takes so many bytes.
pub proof fn lemma_dots_len(n: int)
    requires
        0 <= n <= 3,
    ensures
        encode_utf8(dots(n)).len() == n,
{
    reveal_strlit("...");
    let d = dots(n);
    assert(d.len() == n);
    assert(vstd::utf8::is_ascii_chars(d)) by {
        assert forall|i: int| 0 <= i < d.len() implies '\0' <= #[trigger] d[i] <= '\u{7f}' by {
            assert(d[i] == '.');
        }
    }
    vstd::utf8::is_ascii_chars_encode_utf8(d);
}

/// A shrunk string is never longer than `max_length` bytes.
pub proof fn lemma_shrunk_fits(s: Seq<char>, max_length: int)
    requires
        0 <= max_length,
    ensures
        encode_utf8(shrunk_right(s, max_length)).len() <= max_length,
        encode_utf8(shrunk_left(s, max_length)).len() <= max_length,
        encode_utf8(shrunk_center(s, max_length)).len() <= max_length,
{
    if encode_utf8(s).len() > max_length {
        if max_length < 3 {
            lemma_dots_len(max_length);
        } else {
            let keep = max_length - 3;
            lemma_dots_len(3);
            assert(dots(3) =~= ELLIPSIS@) by {
                reveal_strlit("...");
            }
            lemma_head_fits(s, keep);
            lemma_encode_concat(head(s, keep), ELLIPSIS@);
            lemma_tail_fits(s, keep);
            lemma_encode_concat(ELLIPSIS@, tail(s, keep));
            lemma_head_fits(s, keep / 2);
            lemma_tail_fits(s, keep - keep / 2);
            lemma_encode_concat(head(s, keep / 2), ELLIPSIS@);
            lemma_encode_concat(head(s, keep / 2) + ELLIPSIS@, tail(s, keep - keep / 2));
        }
    }
}

/// A source of the screens of a desktop with their windows, which can also
/// lay the windows out.
pub trait WindowProvider {
    /// The screens, each with the windows that are on it.
    fn screens(&self) -> Vec<layout::Screen>;

    /// Arranges the windows as `config` asks.
    fn layout(&self, config: &layout::Layout);
}

} // verus!
