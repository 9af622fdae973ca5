//! The parsed form of the geometry text format, and the verified token rules
//! of that format.
//!
//! The format is line-based: `v x y z` adds a vertex, `f i1 i2 ...` adds a
//! face of 1-based vertex indices (each index token may carry slash-suffixed
//! attributes, which are ignored), the tags `vt vn vp l s o g` are recognized
//! and skipped, and any other tag is an error. The driver owns the line
//! splitting and the floating-point vertex coordinates; the tag
//! classification and the face-index tokens are decided here.

use vstd::prelude::*;
use crate::lin::Vec3;

verus! {

/// Parsed geometry: vertex positions, and faces as lists of 1-based vertex
/// indices.
#[derive(Debug)]
pub struct Obj {
    pub verts: Vec<Vec3>,
    pub faces: Vec<Vec<usize>>,
}

impl Obj {
    /// Every face has at least one index and every index points at a vertex:
    /// what the parser guarantees before a mesh is built.
    pub open spec fn wf(&self) -> bool {
        forall|i: int|
            0 <= i < self.faces@.len() ==> {
                &&& (#[trigger] self.faces@[i])@.len() >= 1
                &&& forall|j: int|
                    0 <= j < self.faces@[i]@.len() ==> 1 <= #[trigger] self.faces@[i]@[j]
                        <= self.verts@.len()
            }
    }
}

impl Default for Obj {
    /// Geometry with no vertices and no faces.
    fn default() -> (o: Self)
        ensures
            o.verts@.len() == 0,
            o.faces@.len() == 0,
            o.wf(),
    {
        Obj { verts: Vec::new(), faces: Vec::new() }
    }
}

/// How one line of the geometry text is to be handled, decided by its first
/// token.
#[derive(Clone, Copy, Debug, PartialEq, Eq, Structural)]
pub enum LineTag {
    /// `v`: the rest of the line is a vertex position.
    Vertex,
    /// `f`: the rest of the line is a face of vertex indices.
    Face,
    /// `vt`, `vn`, `vp`, `l`, `s`, `o`, `g`: recognized and skipped.
    Skip,
    /// Anything else: a fatal parse error.
    Unknown,
}

/// The tag of a line by its first token's bytes.
pub open spec fn spec_line_tag(s: Seq<u8>) -> LineTag {
    if s.len() == 1 {
        if s[0] == 118 {
            LineTag::Vertex
        } else if s[0] == 102 {
            LineTag::Face
        } else if s[0] == 108 || s[0] == 115 || s[0] == 111 || s[0] == 103 {
            LineTag::Skip
        } else {
            LineTag::Unknown
        }
    } else if s.len() == 2 && s[0] == 118 && (s[1] == 116 || s[1] == 110 || s[1] == 112) {
        LineTag::Skip
    } else {
        LineTag::Unknown
    }
}

/// Classifies a line's leading token: `v` and `f` carry data, the no-op tags
/// are skipped, anything else is unknown and fatal to the parse.
pub fn classify_tag(tag: &[u8]) -> (r: LineTag)
    ensures
        r == spec_line_tag(tag@),
{
    if tag.len() == 1 {
        let b = tag[0];
        if b == 118 {
            LineTag::Vertex
        } else if b == 102 {
            LineTag::Face
        } else if b == 108 || b == 115 || b == 111 || b == 103 {
            LineTag::Skip
        } else {
            LineTag::Unknown
        }
    } else if tag.len() == 2 {
        let b0 = tag[0];
        let b1 = tag[1];
        if b0 == 118 && (b1 == 116 || b1 == 110 || b1 == 112) {
            LineTag::Skip
        } else {
            LineTag::Unknown
        }
    } else {
        LineTag::Unknown
    }
}

/// Where a line's trailing comment begins: the position of the first `#`
/// byte, or the line's length when it has none. Everything from there on is
/// ignored.
pub fn comment_start(line: &[u8]) -> (i: usize)
    ensures
        0 <= i <= line@.len(),
        forall|j: int| 0 <= j < i ==> line@[j] != 35,
        i == line@.len() || line@[i as int] == 35,
{
    let n = line.len();
    let mut i: usize = 0;
    while i < n && line[i] != 35
        invariant
            n == line@.len(),
            0 <= i <= n,
            forall|j: int| 0 <= j < i ==> line@[j] != 35,
        decreases n - i,
    {
        i += 1;
    }
    i
}

pub open spec fn is_ascii_digit(b: u8) -> bool {
    48 <= b <= 57
}

pub open spec fn all_digits(s: Seq<u8>) -> bool {
    forall|i: int| 0 <= i < s.len() ==> is_ascii_digit(#[trigger] s[i])
}

/// The number written by a sequence of decimal digit bytes, most significant
/// first.
pub open spec fn digits_value(s: Seq<u8>) -> int
    decreases s.len(),
{
    if s.len() == 0 {
        0
    } else {
        digits_value(s.drop_last()) * 10 + (s.last() - 48)
    }
}

/// The bytes of a face token before its first slash: the vertex index; any
/// slash-suffixed attribute references are ignored.
pub open spec fn index_digits(s: Seq<u8>) -> Seq<u8>
    decreases s.len(),
{
    if s.len() == 0 {
        Seq::empty()
    } else if s.first() == 47 {
        Seq::empty()
    } else {
        seq![s.first()] + index_digits(s.drop_first())
    }
}

/// What a face token means: the decimal value of the bytes before the first
/// slash, or nothing when that part is empty, is not all digits, or does not
/// fit the machine's index type.
pub open spec fn spec_face_index(s: Seq<u8>) -> Option<usize> {
    let d = index_digits(s);
    if d.len() > 0 && all_digits(d) && digits_value(d) <= usize::MAX {
        Some(digits_value(d) as usize)
    } else {
        None
    }
}

/// A digit sequence's value is never negative.
proof fn lemma_digits_value_nonneg(s: Seq<u8>)
    requires
        all_digits(s),
    ensures
        digits_value(s) >= 0,
    decreases s.len(),
{
    if s.len() > 0 {
        assert(all_digits(s.drop_last()));
        lemma_digits_value_nonneg(s.drop_last());
    }
}

/// Extending a digit sequence never shrinks its value, so a prefix that
/// already overflows the index type decides the whole token.
proof fn lemma_digits_value_grows(s: Seq<u8>, k: int)
    requires
        all_digits(s),
        0 <= k <= s.len(),
    ensures
        digits_value(s.take(k)) <= digits_value(s),
    decreases s.len() - k,
{
    if k < s.len() {
        assert(all_digits(s.take(k + 1)));
        assert(s.take(k + 1).drop_last() =~= s.take(k));
        lemma_digits_value_nonneg(s.take(k));
        lemma_digits_value_grows(s, k + 1);
    } else {
        assert(s.take(k) =~= s);
    }
}

/// When the first `i` bytes are slash-free and byte `i` (if any) is the first
/// slash, the index part is exactly the first `i` bytes.
proof fn lemma_index_digits_prefix(s: Seq<u8>, i: int)
    requires
        0 <= i <= s.len(),
        forall|j: int| 0 <= j < i ==> s[j] != 47,
        i == s.len() || s[i] == 47,
    ensures
        index_digits(s) == s.take(i),
    decreases s.len(),
{
    if s.len() == 0 {
        assert(s.take(i) =~= Seq::<u8>::empty());
    } else if s.first() == 47 {
        assert(i == 0);
        assert(s.take(0) =~= Seq::<u8>::empty());
    } else {
        assert(i >= 1);
        let t = s.drop_first();
        assert(forall|j: int| 0 <= j < i - 1 ==> t[j] == s[j + 1] && s[j + 1] != 47);
        assert(i - 1 == t.len() || t[i - 1] == 47);
        lemma_index_digits_prefix(t, i - 1);
        assert(seq![s.first()] + t.take(i - 1) =~= s.take(i));
    }
}

/// Reads a face token's vertex index: the decimal number before the first
/// slash. Returns nothing on an empty index part, a non-digit byte, or a
/// value that does not fit the machine's index type — exactly the tokens the
/// format rejects.
pub fn parse_face_token(tok: &[u8]) -> (r: Option<usize>)
    ensures
        r == spec_face_index(tok@),
{
    let n = tok.len();
    let mut end: usize = 0;
    while end < n && tok[end] != 47
        invariant
            n == tok@.len(),
            0 <= end <= n,
            forall|j: int| 0 <= j < end ==> tok@[j] != 47,
        decreases n - end,
    {
        end += 1;
    }
    proof {
        lemma_index_digits_prefix(tok@, end as int);
    }
    if end == 0 {
        return None;
    }
    let ghost d = index_digits(tok@);
    let mut val: usize = 0;
    let mut j: usize = 0;
    while j < end
        invariant
            n == tok@.len(),
            0 < end <= n,
            0 <= j <= end,
            d == index_digits(tok@),
            d == tok@.take(end as int),
            all_digits(d.take(j as int)),
            val == digits_value(d.take(j as int)),
        decreases end - j,
    {
        let b = tok[j];
        if b < 48 || b > 57 {
            proof {
                assert(d[j as int] == tok@[j as int]);
                assert(!is_ascii_digit(d[j as int]));
                assert(!all_digits(d));
            }
            return None;
        }
        let digit = (b - 48) as usize;
        proof {
            assert(d.take(j as int + 1).drop_last() =~= d.take(j as int));
            assert(d.take(j as int + 1).last() == d[j as int]);
        }
        if val > (usize::MAX - digit) / 10 {
            proof {
                assert(all_digits(d.take(j as int + 1)));
                assert(digits_value(d.take(j as int + 1)) == val * 10 + digit);
                assert(val > (usize::MAX - digit) / 10 ==> val * 10 + digit > usize::MAX)
                    by (nonlinear_arith);
                if all_digits(d) {
                    lemma_digits_value_grows(d, j as int + 1);
                }
            }
            return None;
        }
        proof {
            assert(val <= (usize::MAX - digit) / 10 ==> val * 10 + digit <= usize::MAX)
        by (nonlinear_arith);
        }
        val = val * 10 + digit;
        j += 1;
    }
    proof {
        assert(d.take(end as int) =~= d);
    }
    Some(val)
}

} // verus!
