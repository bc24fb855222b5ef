//! Split of an encoded frame into the writes that the transport carries.
use vstd::prelude::*;

verus! {

/// Largest number of bytes in one transport write.
pub const MTU: usize = 20;

/// How the transport writes the fragments of one frame.
#[derive(Debug, Clone, Copy, PartialEq, Eq, Structural)]
pub enum WriteMode {
    /// Each write waits for the peripheral's confirmation.
    WithResponse,
    /// Writes follow one another without confirmation.
    WithoutResponse,
}

/// Number of fragments of a frame of `len` bytes: `len / 20`, rounded up.
pub open spec fn fragment_count(len: nat) -> nat {
    (len + 19) / 20
}

/// Fragment `i` of `frame`: the bytes from `20 * i`, at most 20 of them.
pub open spec fn fragment_at(frame: Seq<u8>, i: nat) -> Seq<u8> {
    let end: int = if (i + 1) * 20 <= frame.len() { ((i + 1) * 20) as int } else { frame.len() as int };
    frame.subrange((i * 20) as int, end)
}

/// The fragments put back together, in order.
pub open spec fn joined(parts: Seq<Vec<u8>>) -> Seq<u8>
    decreases parts.len(),
{
    if parts.len() == 0 {
        Seq::empty()
    } else {
        joined(parts.drop_last()) + parts.last()@
    }
}

/// Write mode for a frame of `count` fragments: confirmed for a single one, unconfirmed
/// for a run of several.
pub open spec fn mode_for(count: nat) -> WriteMode {
    if count == 1 { WriteMode::WithResponse } else { WriteMode::WithoutResponse }
}

/// Splits `frame` into consecutive fragments of at most 20 bytes.
pub fn fragment(frame: &[u8]) -> (r: Vec<Vec<u8>>)
    ensures
        r@.len() == fragment_count(frame@.len()),
        forall|i: int| 0 <= i < r@.len() ==> #[trigger] r@[i]@ == fragment_at(frame@, i as nat),
        forall|i: int| 0 <= i < r@.len() ==> 0 < #[trigger] r@[i]@.len() <= MTU,
        joined(r@) == frame@,
{
    let len = frame.len();
    let mut out: Vec<Vec<u8>> = Vec::new();
    let mut start: usize = 0;
    while start < len
        invariant
            len == frame@.len(),
            start <= len,
            start == len || start == out@.len() * 20,
            start < len ==> out@.len() < fragment_count(len as nat),
            start >= len ==> out@.len() == fragment_count(len as nat),
            forall|i: int| 0 <= i < out@.len() ==> #[trigger] out@[i]@ == fragment_at(frame@, i as nat),
            forall|i: int| 0 <= i < out@.len() ==> 0 < #[trigger] out@[i]@.len() <= MTU,
            joined(out@) == frame@.subrange(0, start as int),
        decreases len - start,
    {
        let end = if len - start > MTU { start + MTU } else { len };
        let mut piece: Vec<u8> = Vec::new();
        let mut k: usize = start;
        while k < end
            invariant
                start <= k <= end <= len == frame@.len(),
                piece@ == frame@.subrange(start as int, k as int),
            decreases end - k,
        {
            piece.push(frame[k]);
            k += 1;
            assert(piece@ =~= frame@.subrange(start as int, k as int));
        }
        let ghost before = out@;
        out.push(piece);
        assert(out@.drop_last() =~= before);
        assert(frame@.subrange(0, end as int) =~= frame@.subrange(0, start as int)
            + frame@.subrange(start as int, end as int));
        start = end;
    }
    assert(frame@.subrange(0, len as int) =~= frame@);
    out
}

/// Chooses the write mode for a frame of `count` fragments.
pub fn write_mode(count: usize) -> (m: WriteMode)
    ensures
        m == mode_for(count as nat),
        m == WriteMode::WithResponse <==> count == 1,
{
    if count == 1 {
        WriteMode::WithResponse
    } else {
        WriteMode::WithoutResponse
    }
}

/// The fragments of `frame` and the mode in which to write them.
pub fn plan_transfer(frame: &[u8]) -> (r: (Vec<Vec<u8>>, WriteMode))
    ensures
        r.0@.len() == fragment_count(frame@.len()),
        forall|i: int| 0 <= i < r.0@.len() ==> #[trigger] r.0@[i]@ == fragment_at(frame@, i as nat),
        joined(r.0@) == frame@,
        r.1 == mode_for(r.0@.len()),
{
    let fragments = fragment(frame);
    let mode = write_mode(fragments.len());
    (fragments, mode)
}

} // verus!
