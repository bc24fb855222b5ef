//! Byte-level layout shared by the encoders: little-endian fields and the
//! block records of image uploads.
use vstd::prelude::*;

verus! {

/// Low two bytes of `v`, least significant first.
pub open spec fn le16(v: nat) -> Seq<u8> {
    let w = v % 0x1_0000;
    seq![(w % 256) as u8, (w / 256) as u8]
}

/// Low four bytes of `v`, least significant first.
pub open spec fn le32(v: nat) -> Seq<u8> {
    let w = v % 0x1_0000_0000;
    seq![(w % 256) as u8, ((w / 256) % 256) as u8, ((w / 0x1_0000) % 256) as u8, (w / 0x100_0000) as u8]
}

/// Appends `v` as two little-endian bytes.
fn push_le16(out: &mut Vec<u8>, v: u16)
    ensures
        final(out)@ == old(out)@ + le16(v as nat),
{
    out.push((v % 256) as u8);
    out.push((v / 256) as u8);
    assert(final(out)@ =~= old(out)@ + le16(v as nat));
}

/// Appends `v` as four little-endian bytes.
fn push_le32(out: &mut Vec<u8>, v: u32)
    ensures
        final(out)@ == old(out)@ + le32(v as nat),
{
    out.push((v % 256) as u8);
    out.push(((v / 256) % 256) as u8);
    out.push(((v / 0x1_0000) % 256) as u8);
    out.push((v / 0x100_0000) as u8);
    assert(final(out)@ =~= old(out)@ + le32(v as nat));
}

/// Appends `src[lo..hi]`.
fn push_range(out: &mut Vec<u8>, src: &[u8], lo: usize, hi: usize)
    requires
        lo <= hi <= src@.len(),
    ensures
        final(out)@ == old(out)@ + src@.subrange(lo as int, hi as int),
{
    let mut k: usize = lo;
    while k < hi
        invariant
            lo <= k <= hi <= src@.len(),
            out@ == old(out)@ + src@.subrange(lo as int, k as int),
        decreases hi - k,
    {
        out.push(src[k]);
        k += 1;
        assert(out@ =~= old(out)@ + src@.subrange(lo as int, k as int));
    }
}

/// Largest number of data bytes in one block of an image upload.
pub const BLOCK_SIZE: usize = 4096;

/// Header bytes in front of each block of an animated-image upload.
pub const ANIMATED_HEADER_LEN: usize = 16;

/// Number of blocks that `len` data bytes are cut into.
pub open spec fn block_count(len: nat) -> nat {
    (len + 4095) / 4096
}

/// Data bytes of block `i`: at most 4096, taken in order.
pub open spec fn block(data: Seq<u8>, i: nat) -> Seq<u8> {
    let end: int = if (i + 1) * 4096 <= data.len() { ((i + 1) * 4096) as int } else { data.len() as int };
    data.subrange((i * 4096) as int, end)
}

/// Third flag byte of block `i`: 0 on the first block, 2 on each continuation.
pub open spec fn continuation_flag(i: nat) -> u8 {
    if i == 0 { 0 } else { 2 }
}

/// Nine header bytes of block `i` of a still-image upload: the input length plus the
/// block count, the flags, the input length.
pub open spec fn still_header(data: Seq<u8>, i: nat) -> Seq<u8> {
    le16(data.len() + block_count(data.len())) + seq![0u8, 0u8, continuation_flag(i)] + le32(
        data.len(),
    )
}

/// Block `i` of a still-image upload behind its header.
pub open spec fn still_record(data: Seq<u8>, i: nat) -> Seq<u8> {
    still_header(data, i) + block(data, i)
}

/// The records of the first `k` blocks of a still-image upload, in order.
pub open spec fn still_records(data: Seq<u8>, k: nat) -> Seq<u8>
    decreases k,
{
    if k == 0 {
        Seq::empty()
    } else {
        still_records(data, (k - 1) as nat) + still_record(data, (k - 1) as nat)
    }
}

/// Whole frame of a still-image upload.
pub open spec fn still_frame(data: Seq<u8>) -> Seq<u8> {
    still_records(data, block_count(data.len()))
}

/// Sixteen header bytes of block `i` of an animated-image upload: the record length,
/// the flags, the input length plus 16, the CRC of the whole input, and `05 00 0D`.
pub open spec fn animated_header(data: Seq<u8>, crc: u32, i: nat) -> Seq<u8> {
    le16(block(data, i).len() + 16) + seq![1u8, 0u8, continuation_flag(i)] + le32(
        data.len() + 16,
    ) + le32(crc as nat) + seq![5u8, 0u8, 13u8]
}

/// Block `i` of an animated-image upload behind its header.
pub open spec fn animated_record(data: Seq<u8>, crc: u32, i: nat) -> Seq<u8> {
    animated_header(data, crc, i) + block(data, i)
}

/// The records of the first `k` blocks of an animated-image upload, in order.
pub open spec fn animated_records(data: Seq<u8>, crc: u32, k: nat) -> Seq<u8>
    decreases k,
{
    if k == 0 {
        Seq::empty()
    } else {
        animated_records(data, crc, (k - 1) as nat) + animated_record(data, crc, (k - 1) as nat)
    }
}

/// Whole frame of an animated-image upload whose input has checksum `crc`.
pub open spec fn animated_frame(data: Seq<u8>, crc: u32) -> Seq<u8> {
    animated_records(data, crc, block_count(data.len()))
}

/// `len` reduced to four bytes, as the length fields hold it.
fn low32(len: usize) -> (r: u32)
    ensures
        r as nat == len as nat % 0x1_0000_0000,
{
    ((len as u64) % 0x1_0000_0000) as u32
}

/// Number of blocks, computed without overflow.
fn count_blocks(len: usize) -> (n: usize)
    ensures
        n as nat == block_count(len as nat),
{
    len / BLOCK_SIZE + if len % BLOCK_SIZE == 0 { 0 } else { 1 }
}

/// Bounds of block `i` in an input of `len` bytes.
fn block_bounds(len: usize, i: usize) -> (r: (usize, usize))
    requires
        i < block_count(len as nat),
    ensures
        r.0 as int == i * 4096,
        r.1 as int == (if (i + 1) * 4096 <= len { (i + 1) * 4096 } else { len as int }),
        r.0 <= r.1 <= len,
{
    let start = i * BLOCK_SIZE;
    if len - start > BLOCK_SIZE {
        (start, start + BLOCK_SIZE)
    } else {
        (start, len)
    }
}

/// Encodes a still image: the input cut into blocks of 4096 bytes, each behind its header.
pub fn create_png_payload(png_data: &[u8]) -> (r: Vec<u8>)
    ensures
        r@ == still_frame(png_data@),
{
    let len = png_data.len();
    let n = count_blocks(len);
    let size_field = ((len % 0x1_0000 + n % 0x1_0000) % 0x1_0000) as u16;
    proof {
        vstd::arithmetic::div_mod::lemma_add_mod_noop(len as int, n as int, 0x1_0000);
    }
    let total = low32(len);
    let mut payload: Vec<u8> = Vec::new();
    let mut i: usize = 0;
    while i < n
        invariant
            i <= n,
            n as nat == block_count(len as nat),
            len == png_data@.len(),
            le16(size_field as nat) == le16(len as nat + n as nat),
            le32(total as nat) == le32(len as nat),
            payload@ == still_records(png_data@, i as nat),
        decreases n - i,
    {
        let ghost before = payload@;
        let (start, end) = block_bounds(len, i);
        push_le16(&mut payload, size_field);
        payload.push(0);
        payload.push(0);
        payload.push(if i > 0 { 2 } else { 0 });
        push_le32(&mut payload, total);
        push_range(&mut payload, png_data, start, end);
        assert(payload@ =~= before + still_record(png_data@, i as nat));
        i += 1;
    }
    payload
}

/// The standard CRC-32 (IEEE) of `data`, as crc32fast computes it.
pub uninterp spec fn crc32_of(data: Seq<u8>) -> u32;

/// Relies on `crc32fast::hash`: the CRC-32 of the whole slice, a function of its bytes alone.
#[verifier::external_body]
fn crc32(data: &[u8]) -> (r: u32)
    ensures
        r == crc32_of(data@),
{
    crc32fast::hash(data)
}

/// Encodes an animated image whose checksum `crc` is already known: the input cut into
/// blocks of 4096 bytes, each behind a sixteen-byte header that repeats `crc`.
pub fn gif_payload_with_crc(gif_data: &[u8], crc: u32) -> (r: Vec<u8>)
    ensures
        r@ == animated_frame(gif_data@, crc),
{
    let len = gif_data.len();
    let n = count_blocks(len);
    let total = ((low32(len) as u64 + ANIMATED_HEADER_LEN as u64) % 0x1_0000_0000) as u32;
    proof {
        vstd::arithmetic::div_mod::lemma_add_mod_noop(len as int, 16, 0x1_0000_0000);
    }
    let mut payload: Vec<u8> = Vec::new();
    let mut i: usize = 0;
    while i < n
        invariant
            i <= n,
            n as nat == block_count(len as nat),
            len == gif_data@.len(),
            le32(total as nat) == le32(len as nat + 16),
            payload@ == animated_records(gif_data@, crc, i as nat),
        decreases n - i,
    {
        let ghost before = payload@;
        let (start, end) = block_bounds(len, i);
        push_le16(&mut payload, ((end - start) + ANIMATED_HEADER_LEN) as u16);
        payload.push(1);
        payload.push(0);
        payload.push(if i > 0 { 2 } else { 0 });
        push_le32(&mut payload, total);
        push_le32(&mut payload, crc);
        payload.push(5);
        payload.push(0);
        payload.push(13);
        push_range(&mut payload, gif_data, start, end);
        assert(payload@ =~= before + animated_record(gif_data@, crc, i as nat));
        i += 1;
    }
    payload
}

/// Encodes an animated image: its CRC-32 is computed once, then repeated in every block.
pub fn create_gif_payload(gif_data: &[u8]) -> (r: Vec<u8>)
    ensures
        r@ == animated_frame(gif_data@, crc32_of(gif_data@)),
{
    let crc = crc32(gif_data);
    gif_payload_with_crc(gif_data, crc)
}

proof fn lemma_still_records_len(data: Seq<u8>, k: nat)
    requires
        k <= block_count(data.len()),
    ensures
        still_records(data, k).len() == 9 * k + (if k * 4096 <= data.len() { (k * 4096) as int } else { data.len() as int }),
    decreases k,
{
    if k > 0 {
        lemma_still_records_len(data, (k - 1) as nat);
    }
}

proof fn lemma_still_records_prefix(data: Seq<u8>, k: nat, m: nat)
    requires
        k <= m,
    ensures
        still_records(data, k).len() <= still_records(data, m).len(),
        still_records(data, m).subrange(0, still_records(data, k).len() as int) == still_records(data, k),
    decreases m,
{
    if k < m {
        lemma_still_records_prefix(data, k, (m - 1) as nat);
        let prev = still_records(data, (m - 1) as nat);
        assert(still_records(data, m).subrange(0, still_records(data, k).len() as int)
            =~= prev.subrange(0, still_records(data, k).len() as int));
    } else {
        assert(still_records(data, m).subrange(0, still_records(data, k).len() as int)
            =~= still_records(data, k));
    }
}

/// Block `i` of an input starts inside it.
proof fn lemma_block_start(len: nat, i: int)
    requires
        0 <= i < block_count(len),
    ensures
        i * 4096 < len,
{
}

/// Where a frame begins with `head + rec`, the bytes of `rec` stand right after `head`.
proof fn lemma_window(f: Seq<u8>, head: Seq<u8>, rec: Seq<u8>, a: int, b: int)
    requires
        head.len() + rec.len() <= f.len(),
        f.subrange(0, (head.len() + rec.len()) as int) == head + rec,
        0 <= a <= b <= rec.len(),
    ensures
        f.subrange(head.len() + a, head.len() + b) == rec.subrange(a, b),
{
    let w = f.subrange(head.len() + a, head.len() + b);
    assert forall|j: int| 0 <= j < b - a implies #[trigger] w[j] == rec.subrange(a, b)[j] by {
        let k = head.len() + a + j;
        assert(w[j] == f[k]);
        assert(f.subrange(0, (head.len() + rec.len()) as int)[k] == f[k]);
        assert((head + rec)[k] == rec[a + j]);
    }
    assert(w =~= rec.subrange(a, b));
}

/// A still-image frame holds one nine-byte header per block besides the input itself.
/// Block `i` starts at byte `4105 * i`, after `i` full blocks and their headers; its flag
/// bytes are `00 00 00` on the first block and `00 00 02` on every later one, its
/// four-byte field holds the input length, and its data bytes follow in order.
pub proof fn lemma_still_block_layout(data: Seq<u8>, i: int)
    requires
        0 <= i < block_count(data.len()),
    ensures
        still_frame(data).len() == 9 * block_count(data.len()) + data.len(),
        still_frame(data).subrange(4105 * i + 2, 4105 * i + 5) == seq![0u8, 0u8, continuation_flag(i as nat)],
        still_frame(data).subrange(4105 * i + 5, 4105 * i + 9) == le32(data.len()),
        still_frame(data).subrange(4105 * i + 9, 4105 * i + 9 + block(data, i as nat).len())
            == block(data, i as nat),
{
    let n = block_count(data.len());
    lemma_block_start(data.len(), n - 1);
    lemma_block_start(data.len(), i);
    lemma_still_records_len(data, n);
    lemma_still_records_len(data, i as nat);
    lemma_still_records_prefix(data, (i + 1) as nat, n);
    let head = still_records(data, i as nat);
    let rec = still_record(data, i as nat);
    assert(still_records(data, (i + 1) as nat) == head + rec);
    assert(head.len() == 4105 * i);
    let f = still_frame(data);
    lemma_window(f, head, rec, 2, 5);
    lemma_window(f, head, rec, 5, 9);
    lemma_window(f, head, rec, 9, rec.len() as int);
    assert(rec.subrange(2, 5) =~= seq![0u8, 0u8, continuation_flag(i as nat)]);
    assert(rec.subrange(5, 9) =~= le32(data.len()));
    assert(rec.subrange(9, rec.len() as int) =~= block(data, i as nat));
}

proof fn lemma_animated_records_len(data: Seq<u8>, crc: u32, k: nat)
    requires
        k <= block_count(data.len()),
    ensures
        animated_records(data, crc, k).len() == 16 * k + (if k * 4096 <= data.len() { (k * 4096) as int } else { data.len() as int }),
    decreases k,
{
    if k > 0 {
        lemma_animated_records_len(data, crc, (k - 1) as nat);
    }
}

proof fn lemma_animated_records_prefix(data: Seq<u8>, crc: u32, k: nat, m: nat)
    requires
        k <= m,
    ensures
        animated_records(data, crc, k).len() <= animated_records(data, crc, m).len(),
        animated_records(data, crc, m).subrange(0, animated_records(data, crc, k).len() as int)
            == animated_records(data, crc, k),
    decreases m,
{
    let len_k = animated_records(data, crc, k).len() as int;
    if k < m {
        lemma_animated_records_prefix(data, crc, k, (m - 1) as nat);
        let prev = animated_records(data, crc, (m - 1) as nat);
        assert(animated_records(data, crc, m).subrange(0, len_k) =~= prev.subrange(0, len_k));
    } else {
        assert(animated_records(data, crc, m).subrange(0, len_k) =~= animated_records(data, crc, k));
    }
}

/// An animated-image frame holds one sixteen-byte header per block besides the input
/// itself. Block `i` starts at byte `4112 * i`, and its four-byte checksum field holds
/// the CRC-32 of the whole input, the same in every block; its flag bytes are `01 00 00`
/// on the first block and `01 00 02` on every later one.
pub proof fn lemma_animated_crc_in_every_block(data: Seq<u8>, i: int)
    requires
        0 <= i < block_count(data.len()),
    ensures
        animated_frame(data, crc32_of(data)).len() == 16 * block_count(data.len()) + data.len(),
        animated_frame(data, crc32_of(data)).subrange(4112 * i + 9, 4112 * i + 13)
            == le32(crc32_of(data) as nat),
        animated_frame(data, crc32_of(data)).subrange(4112 * i + 2, 4112 * i + 5)
            == seq![1u8, 0u8, continuation_flag(i as nat)],
{
    let crc = crc32_of(data);
    let n = block_count(data.len());
    lemma_block_start(data.len(), n - 1);
    lemma_block_start(data.len(), i);
    lemma_animated_records_len(data, crc, n);
    lemma_animated_records_len(data, crc, i as nat);
    lemma_animated_records_prefix(data, crc, (i + 1) as nat, n);
    let head = animated_records(data, crc, i as nat);
    let rec = animated_record(data, crc, i as nat);
    assert(animated_records(data, crc, (i + 1) as nat) == head + rec);
    assert(head.len() == 4112 * i);
    let f = animated_frame(data, crc);
    lemma_window(f, head, rec, 9, 13);
    lemma_window(f, head, rec, 2, 5);
    assert(rec.subrange(9, 13) =~= le32(crc as nat));
    assert(rec.subrange(2, 5) =~= seq![1u8, 0u8, continuation_flag(i as nat)]);
}

} // verus!
