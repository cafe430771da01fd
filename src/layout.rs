//! The vertex layout description: `;`-separated attributes such as `"3f;3f;2f"`.
//!
//! Each attribute is a component count from 1 to 4 followed by a type letter:
//! `f` float, `i` signed int, `u` unsigned int (four bytes each) or `b` boolean
//! (one byte). Attributes are packed in order; the stride is their total size.
use vstd::prelude::*;
use vstd::string::*;

verus! {

/// The component type of a vertex attribute.
#[derive(Clone, Copy, PartialEq, Eq, Debug, Structural)]
pub enum AttribKind {
    Float,
    Int,
    UnsignedInt,
    Bool,
}

/// One attribute: its type, its component count and its byte offset in a vertex.
#[derive(Clone, Copy, PartialEq, Eq, Debug, Structural)]
pub struct Attribute {
    pub kind: AttribKind,
    pub count: u32,
    pub offset: u32,
}

/// The attributes of a vertex and the size of a whole vertex in bytes.
#[derive(Clone, PartialEq, Eq, Debug)]
pub struct VertexLayout {
    pub attributes: Vec<Attribute>,
    pub stride: u32,
}

/// Why a description was refused.
#[derive(Clone, Copy, PartialEq, Eq, Debug, Structural)]
pub enum LayoutError {
    /// Some attribute is not a count from 1 to 4 followed by `f`, `i`, `u` or `b`.
    Malformed,
    /// The vertex would be larger than `MAX_STRIDE` bytes.
    TooLarge,
}

/// The largest stride a vertex may have: the least `GL_MAX_VERTEX_ATTRIB_STRIDE`
/// that OpenGL guarantees.
pub const MAX_STRIDE: u64 = 2048;

/// The attribute type a letter names.
pub open spec fn kind_of(c: char) -> Option<AttribKind> {
    if c == 'f' {
        Some(AttribKind::Float)
    } else if c == 'i' {
        Some(AttribKind::Int)
    } else if c == 'u' {
        Some(AttribKind::UnsignedInt)
    } else if c == 'b' {
        Some(AttribKind::Bool)
    } else {
        None
    }
}

/// The size in bytes of one component of `k`.
pub open spec fn kind_size(k: AttribKind) -> nat {
    match k {
        AttribKind::Bool => 1,
        _ => 4,
    }
}

/// The pieces of `s` between the `;` separators (one piece for a string without any).
pub open spec fn split_semis(s: Seq<char>) -> Seq<Seq<char>>
    decreases s.len(),
{
    if s.len() == 0 {
        seq![Seq::<char>::empty()]
    } else {
        let init = split_semis(s.drop_last());
        if s.last() == ';' {
            init.push(Seq::<char>::empty())
        } else {
            init.update(init.len() - 1, init.last().push(s.last()))
        }
    }
}

/// The type and count that one piece describes, if it is well formed.
pub open spec fn token_attr(t: Seq<char>) -> Option<(AttribKind, nat)> {
    if t.len() == 2 && '1' <= t[0] <= '4' && kind_of(t[1]) is Some {
        Some((kind_of(t[1])->0, (t[0] as nat - '0' as nat) as nat))
    } else {
        None
    }
}

/// Every piece is well formed.
pub open spec fn all_valid(toks: Seq<Seq<char>>) -> bool {
    forall|i: int| 0 <= i < toks.len() ==> (#[trigger] token_attr(toks[i])) is Some
}

/// The size in bytes of the attribute a well-formed piece describes.
pub open spec fn token_size(t: Seq<char>) -> nat {
    match token_attr(t) {
        Some((k, n)) => n * kind_size(k),
        None => 0,
    }
}

/// The byte offset of attribute `k`: the total size of those before it.
pub open spec fn offset_at(toks: Seq<Seq<char>>, k: int) -> nat
    decreases k,
{
    if k <= 0 {
        0
    } else {
        offset_at(toks, k - 1) + token_size(toks[k - 1])
    }
}

/// `layout` is what the pieces `toks` describe.
pub open spec fn describes(layout: VertexLayout, toks: Seq<Seq<char>>) -> bool {
    &&& layout.attributes@.len() == toks.len()
    &&& layout.stride == offset_at(toks, toks.len() as int)
    &&& forall|i: int|
        0 <= i < toks.len() ==> {
            let a = #[trigger] layout.attributes@[i];
            &&& token_attr(toks[i]) == Some((a.kind, a.count as nat))
            &&& a.offset == offset_at(toks, i)
        }
}

/// Splits `s` at each `;`.
fn split_description(s: &str) -> (r: Vec<Vec<char>>)
    ensures
        r@.map_values(|t: Vec<char>| t@) == split_semis(s@),
{
    let n = s.unicode_len();
    let mut toks: Vec<Vec<char>> = Vec::new();
    let mut cur: Vec<char> = Vec::new();
    let mut i: usize = 0;
    proof {
        assert(s@.subrange(0, 0) =~= Seq::<char>::empty());
        assert(toks@.map_values(|t: Vec<char>| t@).push(cur@) =~= split_semis(s@.subrange(0, 0)));
    }
    while i < n
        invariant
            n == s@.len(),
            i <= n,
            toks@.map_values(|t: Vec<char>| t@).push(cur@) == split_semis(s@.subrange(0, i as int)),
        decreases n - i,
    {
        let c = s.get_char(i);
        let ghost before = toks@.map_values(|t: Vec<char>| t@).push(cur@);
        proof {
            let p = s@.subrange(0, i + 1);
            assert(p.drop_last() =~= s@.subrange(0, i as int));
            assert(p.last() == c);
        }
        if c == ';' {
            let done = cur;
            toks.push(done);
            cur = Vec::new();
            assert(toks@.map_values(|t: Vec<char>| t@).push(cur@) =~= before.push(Seq::<char>::empty()));
        } else {
            cur.push(c);
            assert(toks@.map_values(|t: Vec<char>| t@).push(cur@) =~= before.update(
                before.len() - 1,
                before.last().push(c),
            ));
        }
        i += 1;
    }
    toks.push(cur);
    assert(s@.subrange(0, n as int) =~= s@);
    assert(toks@.map_values(|t: Vec<char>| t@) =~= split_semis(s@));
    toks
}

/// The type and count a piece describes, if it is well formed.
fn read_token(t: &Vec<char>) -> (r: Option<(AttribKind, u32)>)
    ensures
        match r {
            Some((k, n)) => token_attr(t@) == Some((k, n as nat)),
            None => token_attr(t@) is None,
        },
{
    if t.len() != 2 {
        return None;
    }
    let d = t[0];
    let letter = t[1];
    let kind = if letter == 'f' {
        AttribKind::Float
    } else if letter == 'i' {
        AttribKind::Int
    } else if letter == 'u' {
        AttribKind::UnsignedInt
    } else if letter == 'b' {
        AttribKind::Bool
    } else {
        return None;
    };
    if '1' <= d && d <= '4' {
        Some((kind, (d as u32) - ('0' as u32)))
    } else {
        None
    }
}

/// Offsets never decrease along the attributes.
proof fn lemma_offset_grows(toks: Seq<Seq<char>>, i: int, j: int)
    requires
        0 <= i <= j,
    ensures
        offset_at(toks, i) <= offset_at(toks, j),
    decreases j - i,
{
    if i < j {
        lemma_offset_grows(toks, i, j - 1);
    }
}

/// Reads the layout that `description` gives.
pub fn parse_layout(description: &str) -> (r: Result<VertexLayout, LayoutError>)
    ensures
        ({
            let toks = split_semis(description@);
            &&& r is Ok <==> all_valid(toks) && offset_at(toks, toks.len() as int) <= MAX_STRIDE
            &&& r is Ok ==> describes(r->Ok_0, toks)
            &&& (r matches Err(LayoutError::Malformed)) <==> !all_valid(toks)
            &&& (r matches Err(LayoutError::TooLarge)) <==> all_valid(toks) && offset_at(
                toks,
                toks.len() as int,
            ) > MAX_STRIDE
        }),
{
    let toks = split_description(description);
    let ghost ts = split_semis(description@);
    let mut parsed: Vec<(AttribKind, u32)> = Vec::new();
    let mut i: usize = 0;
    while i < toks.len()
        invariant
            ts == split_semis(description@),
            toks@.map_values(|t: Vec<char>| t@) == ts,
            i <= toks@.len(),
            parsed@.len() == i,
            forall|j: int|
                0 <= j < i ==> token_attr(#[trigger] ts[j]) == Some(
                    (parsed@[j].0, parsed@[j].1 as nat),
                ),
        decreases toks@.len() - i,
    {
        assert(toks[i as int]@ == ts[i as int]);
        match read_token(&toks[i]) {
            Some(a) => parsed.push(a),
            None => {
                assert(token_attr(ts[i as int]) is None);
                assert(!all_valid(ts));
                return Err(LayoutError::Malformed);
            },
        }
        i += 1;
    }
    assert(all_valid(ts)) by {
        assert forall|j: int| 0 <= j < ts.len() implies (#[trigger] token_attr(ts[j])) is Some by {
            assert(token_attr(ts[j]) == Some((parsed@[j].0, parsed@[j].1 as nat)));
        }
    }
    let mut attributes: Vec<Attribute> = Vec::new();
    let mut offset: u64 = 0;
    let mut i: usize = 0;
    while i < parsed.len()
        invariant
            ts == split_semis(description@),
            all_valid(ts),
            parsed@.len() == ts.len(),
            forall|j: int|
                0 <= j < ts.len() ==> token_attr(#[trigger] ts[j]) == Some(
                    (parsed@[j].0, parsed@[j].1 as nat),
                ),
            i <= parsed@.len(),
            offset == offset_at(ts, i as int),
            offset <= MAX_STRIDE,
            attributes@.len() == i,
            forall|j: int|
                0 <= j < i ==> {
                    let a = #[trigger] attributes@[j];
                    &&& token_attr(ts[j]) == Some((a.kind, a.count as nat))
                    &&& a.offset == offset_at(ts, j)
                },
        decreases parsed@.len() - i,
    {
        let (kind, count) = parsed[i];
        assert(token_attr(ts[i as int]) == Some((kind, count as nat)));
        assert(1 <= count <= 4);
        let bytes: u64 = match kind {
            AttribKind::Bool => count as u64,
            _ => 4 * (count as u64),
        };
        let next = offset + bytes;
        assert(next == offset_at(ts, i + 1));
        if next > MAX_STRIDE {
            proof {
                lemma_offset_grows(ts, i + 1, ts.len() as int);
                assert(offset_at(ts, ts.len() as int) > MAX_STRIDE);
            }
            return Err(LayoutError::TooLarge);
        }
        attributes.push(Attribute { kind, count, offset: offset as u32 });
        offset = next;
        i += 1;
    }
    Ok(VertexLayout { attributes, stride: offset as u32 })
}

/// How many whole vertices `values` four-byte values make under `layout`, if that
/// count is a valid draw count (at most `i32::MAX`).
pub fn vertex_count(layout: &VertexLayout, values: usize) -> (r: Option<i32>)
    ensures
        layout.stride == 0 ==> r is None,
        layout.stride > 0 ==> r == if (values * 4) / (layout.stride as int) <= i32::MAX {
            Some(((values * 4) / (layout.stride as int)) as i32)
        } else {
            None::<i32>
        },
{
    if layout.stride == 0 {
        return None;
    }
    let bytes = values as u128 * 4;
    let count = bytes / (layout.stride as u128);
    if count <= 0x7fff_ffff {
        Some(count as i32)
    } else {
        None
    }
}

} // verus!
