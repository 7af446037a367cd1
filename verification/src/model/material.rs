use vstd::prelude::*;

verus! {

/// `n` bytes of full opacity.
pub open spec fn opaque_fill(n: nat) -> Seq<u8> {
    Seq::new(n, |i: int| 255u8)
}

/// Each run of `c` bytes of `p` (the last one possibly shorter) followed by
/// `4 - c` bytes of 255, turning pixels of `c < 4` channels into four.
pub open spec fn pad_chunks(p: Seq<u8>, c: nat) -> Seq<u8>
    decreases p.len(),
{
    if p.len() == 0 || c == 0 || c >= 4 {
        Seq::empty()
    } else if p.len() <= c {
        p + opaque_fill((4 - c) as nat)
    } else {
        p.take(c as int) + opaque_fill((4 - c) as nat) + pad_chunks(p.skip(c as int), c)
    }
}

/// Channels per pixel of an image of `len` bytes: its byte count, taken as a
/// 32-bit number, divided by its pixel count.
pub open spec fn channel_count(len: nat, width: u32, height: u32) -> int {
    (len % 0x1_0000_0000) as int / (width * height)
}

/// Pixel bytes with four channels per pixel: images with fewer channels get
/// every pixel padded with opaque bytes, others are kept as they are.
pub open spec fn rgba_bytes(p: Seq<u8>, width: u32, height: u32) -> Seq<u8> {
    let c = channel_count(p.len(), width, height);
    if c < 4 {
        pad_chunks(p, c as nat)
    } else {
        p
    }
}

/// Turns decoded image bytes into four-channel bytes for an RGBA texture.
pub fn rgba_pixels(pixels: &Vec<u8>, width: u32, height: u32) -> (out: Vec<u8>)
    requires
        0 < width * height <= u32::MAX,
        channel_count(pixels@.len(), width, height) > 0,
        channel_count(pixels@.len(), width, height) < 4 ==> pixels@.len() <= usize::MAX / 4,
    ensures
        out@ == rgba_bytes(pixels@, width, height),
{
    let len32: u32 = (pixels.len() as u64 % 0x1_0000_0000u64) as u32;
    assert(width * height == height * width) by (nonlinear_arith);
    let channels: u32 = len32 / (height * width);
    assert(channels == channel_count(pixels@.len(), width, height));
    if channels >= 4 {
        return pixels.clone();
    }
    let c: usize = channels as usize;
    let n: usize = pixels.len();
    let mut out: Vec<u8> = Vec::new();
    let mut i: usize = 0;
    assert(pixels@.skip(0) =~= pixels@);
    while i < n
        invariant
            n == pixels@.len(),
            1 <= c < 4,
            n <= usize::MAX / 4,
            i <= n,
            out@.len() <= 4 * i,
            out@ + pad_chunks(pixels@.skip(i as int), c as nat) =~= pad_chunks(pixels@, c as nat),
        decreases n - i,
    {
        let end: usize = if n - i < c { n } else { i + c };
        let ghost before = out@;
        let mut j: usize = i;
        while j < end
            invariant
                i <= j <= end <= n,
                n == pixels@.len(),
                out@ =~= before + pixels@.subrange(i as int, j as int),
            decreases end - j,
        {
            out.push(pixels[j]);
            j = j + 1;
        }
        let mut k: usize = c;
        while k < 4
            invariant
                c <= k <= 4,
                out@ =~= before + pixels@.subrange(i as int, end as int) + opaque_fill((k - c) as nat),
                i <= end <= n,
                n == pixels@.len(),
            decreases 4 - k,
        {
            out.push(255u8);
            k = k + 1;
        }
        let ghost rest = pixels@.skip(i as int);
        assert(rest.len() > 0);
        if n - i <= c {
            assert(rest =~= pixels@.subrange(i as int, end as int));
            assert(pixels@.skip(end as int) =~= Seq::<u8>::empty());
        } else {
            assert(rest.take(c as int) =~= pixels@.subrange(i as int, end as int));
            assert(rest.skip(c as int) =~= pixels@.skip(end as int));
        }
        i = end;
    }
    assert(pixels@.skip(n as int) =~= Seq::<u8>::empty());
    out
}


/// Padding a full image of `n` pixels with `c < 4` channels gives `n` pixels
/// of four bytes: the pixel's own channels first, then opaque bytes.
pub proof fn lemma_pad_chunks_layout(p: Seq<u8>, c: nat, n: nat)
    requires
        1 <= c < 4,
        p.len() == c * n,
    ensures
        pad_chunks(p, c).len() == 4 * n,
        forall|idx: int, ch: int| 0 <= idx < n && 0 <= ch < 4 ==>
            #[trigger] pad_chunks(p, c)[4 * idx + ch] == (if ch < c { p[c * idx + ch] } else { 255u8 }),
    decreases n,
{
    if n == 0 {
        assert(p.len() == 0) by (nonlinear_arith)
            requires p.len() == c * n, n == 0;
    } else if n == 1 {
        assert(p.len() == c) by (nonlinear_arith)
            requires p.len() == c * n, n == 1;
        let out = pad_chunks(p, c);
        assert forall|idx: int, ch: int| 0 <= idx < n && 0 <= ch < 4 implies
            #[trigger] out[4 * idx + ch] == (if ch < c { p[c * idx + ch] } else { 255u8 }) by {
            assert(idx == 0);
            assert(c * idx == 0) by (nonlinear_arith) requires idx == 0;
        }
    } else {
        assert(p.len() > c) by (nonlinear_arith)
            requires p.len() == c * n, n > 1, c >= 1;
        let rest = p.skip(c as int);
        assert(rest.len() == c * (n - 1) as nat) by (nonlinear_arith)
            requires rest.len() == p.len() - c, p.len() == c * n;
        lemma_pad_chunks_layout(rest, c, (n - 1) as nat);
        let head = p.take(c as int) + opaque_fill((4 - c) as nat);
        let tail = pad_chunks(rest, c);
        let out = pad_chunks(p, c);
        assert(out == head + tail);
        assert(head.len() == 4);
        assert forall|idx: int, ch: int| 0 <= idx < n && 0 <= ch < 4 implies
            #[trigger] out[4 * idx + ch] == (if ch < c { p[c * idx + ch] } else { 255u8 }) by {
            if idx == 0 {
                assert(c * idx == 0) by (nonlinear_arith) requires idx == 0;
                assert(out[ch] == head[ch]);
            } else {
                let i2 = idx - 1;
                assert(4 * idx + ch == 4 + (4 * i2 + ch));
                assert(out[4 * idx + ch] == tail[4 * i2 + ch]);
                assert(tail[4 * i2 + ch] == (if ch < c { rest[c * i2 + ch] } else { 255u8 }));
                assert(c * idx == c + c * i2) by (nonlinear_arith) requires i2 == idx - 1;
                if ch < c {
                    assert(c * i2 + ch < c * (n - 1)) by (nonlinear_arith)
                        requires 0 <= i2 < n - 1, 0 <= ch < c;
                    assert(rest[c * i2 + ch] == p[c + (c * i2 + ch)]);
                }
            }
        }
    }
}

/// An image of `width * height` pixels stored with `c` bytes a pixel: fewer
/// than four channels come out as four bytes a pixel, the pixel's own bytes
/// first and opaque bytes after them; four or more are kept as they are.
pub proof fn lemma_rgba_bytes_per_pixel(p: Seq<u8>, width: u32, height: u32, c: nat)
    requires
        0 < width * height,
        1 <= c,
        p.len() == c * (width * height),
        p.len() < 0x1_0000_0000,
    ensures
        c < 4 ==> rgba_bytes(p, width, height).len() == 4 * (width * height),
        c < 4 ==> forall|idx: int, ch: int| 0 <= idx < width * height && 0 <= ch < 4 ==>
            #[trigger] rgba_bytes(p, width, height)[4 * idx + ch] == (if ch < c { p[c * idx + ch] } else { 255u8 }),
        c >= 4 ==> rgba_bytes(p, width, height) == p,
{
    let n: nat = (width * height) as nat;
    assert(p.len() % 0x1_0000_0000 == p.len());
    assert(((c * n) as int) / (n as int) == c as int) by (nonlinear_arith)
        requires n > 0;
    assert(channel_count(p.len(), width, height) == c);
    if c < 4 {
        lemma_pad_chunks_layout(p, c, n);
    }
}

} // verus!
