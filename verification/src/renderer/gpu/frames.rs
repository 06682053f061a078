//! Frame buffer arithmetic of the export path: row alignment of copies and
//! turning a bottom-up RGBA image right side up.
use vstd::prelude::*;

verus! {

/// `value` rounded up with the mask of `alignment` (a power of two in
/// practice); unchanged when `alignment` is 0 or the rounding would
/// overflow.
pub open spec fn aligned(value: u32, alignment: u32) -> u32 {
    if alignment == 0 {
        value
    } else if value + (alignment - 1) > u32::MAX {
        value
    } else {
        ((value + (alignment - 1)) as u32) & !((alignment - 1) as u32)
    }
}

/// See `aligned`.
pub fn align_to(value: u32, alignment: u32) -> (r: u32)
    ensures
        r == aligned(value, alignment),
{
    if alignment == 0 {
        return value;
    }
    let mask = alignment - 1;
    match value.checked_add(mask) {
        Some(adj) => adj & !mask,
        None => value,
    }
}

/// For a power-of-two alignment, a rounded value is a multiple of it, not
/// below the value, and less than one alignment above it.
pub proof fn lemma_aligned_pow2(value: u32, k: u32)
    requires
        k < 32,
        value + ((1u32 << k) - 1) <= u32::MAX,
    ensures
        aligned(value, 1u32 << k) % (1u32 << k) == 0,
        value <= aligned(value, 1u32 << k),
        aligned(value, 1u32 << k) < value + (1u32 << k),
{
    let a: u32 = 1u32 << k;
    assert(a > 0) by (bit_vector)
        requires
            k < 32,
            a == 1u32 << k,
    ;
    let m: u32 = (a - 1) as u32;
    let s: u32 = (value + m) as u32;
    assert((s & !m) % a == 0 && s - m <= (s & !m) && (s & !m) <= s) by (bit_vector)
        requires
            k < 32,
            a == 1u32 << k,
            m == a - 1,
            s >= m,
    ;
}

/// `flipped` holds the rows of `data` (each `row_len` bytes, `rows` of
/// them) in reverse order; bytes after the image are kept.
pub open spec fn rows_reversed(data: Seq<u8>, flipped: Seq<u8>, row_len: int, rows: int) -> bool {
    &&& flipped.len() == data.len()
    &&& forall|r: int, c: int|
        0 <= r < rows && 0 <= c < row_len ==> #[trigger] flipped[r * row_len + c] == data[(rows - 1 - r) * row_len
            + c]
    &&& forall|i: int| rows * row_len <= i < data.len() ==> #[trigger] flipped[i] == data[i]
}

proof fn lemma_row_index(r: int, c: int, row_len: int, rows: int)
    requires
        0 <= r < rows,
        0 <= c < row_len,
    ensures
        0 <= r * row_len + c < rows * row_len,
        0 <= (rows - 1 - r) * row_len + c < rows * row_len,
{
    assert(0 <= r * row_len) by (nonlinear_arith)
        requires
            0 <= r,
            0 <= row_len,
    ;
    assert(r * row_len + c < rows * row_len) by (nonlinear_arith)
        requires
            r < rows,
            c < row_len,
            0 <= c,
    ;
    assert(0 <= (rows - 1 - r) * row_len) by (nonlinear_arith)
        requires
            r < rows,
            0 <= row_len,
    ;
    assert((rows - 1 - r) * row_len + c < rows * row_len) by (nonlinear_arith)
        requires
            0 <= r,
            c < row_len,
            0 <= c,
    ;
}

/// Turns an RGBA image of `width` by `height` pixels upside down in place.
pub fn flip_rgba_vertical(width: u32, height: u32, data: &mut Vec<u8>)
    requires
        width as int * 4 * height as int <= old(data)@.len(),
    ensures
        rows_reversed(old(data)@, final(data)@, width as int * 4, height as int),
{
    let ghost d0 = data@;
    let len = data.len();
    if height == 0 || width == 0 {
        return;
    }
    proof {
        assert(width as int * 4 <= width as int * 4 * height as int) by (nonlinear_arith)
            requires
                height >= 1,
                width >= 1,
        ;
    }
    let row_len: usize = width as usize * 4;
    let rows: usize = height as usize;
    proof {
        assert(rows * row_len == width as int * 4 * height as int) by (nonlinear_arith)
            requires
                rows == height as int,
                row_len == width as int * 4,
        ;
    }
    let mut row: usize = 0;
    while row < rows / 2
        invariant
            row_len == width as int * 4,
            rows == height as int,
            row_len > 0,
            row <= rows / 2,
            rows * row_len <= d0.len(),
            data@.len() == d0.len(),
            data.len() == d0.len(),
            forall|r: int, c: int|
                (0 <= r < row || rows - row <= r < rows) && 0 <= c < row_len ==> #[trigger] data@[r * row_len + c]
                    == d0[(rows - 1 - r) * row_len + c],
            forall|r: int, c: int|
                row <= r < rows - row && 0 <= c < row_len ==> #[trigger] data@[r * row_len + c] == d0[r * row_len + c],
            forall|i: int| rows * row_len <= i < d0.len() ==> #[trigger] data@[i] == d0[i],
        decreases rows / 2 - row,
    {
        proof {
            assert(row * row_len <= rows * row_len) by (nonlinear_arith)
                requires
                    row < rows,
                    row_len > 0,
            ;
            assert((rows - 1 - row) * row_len <= rows * row_len) by (nonlinear_arith)
                requires
                    row < rows,
                    row_len > 0,
            ;
        }
        let top: usize = row * row_len;
        let bottom: usize = (rows - 1 - row) * row_len;
        proof {
            lemma_row_index(row as int, 0, row_len as int, rows as int);
            assert(top + row_len <= bottom) by (nonlinear_arith)
                requires
                    top == row * row_len,
                    bottom == (rows - 1 - row) * row_len,
                    row < rows / 2,
                    row_len > 0,
            ;
            assert(bottom + row_len <= rows * row_len) by (nonlinear_arith)
                requires
                    bottom == (rows - 1 - row) * row_len,
                    row < rows,
            ;
        }
        let ghost before = data@;
        let mut c: usize = 0;
        while c < row_len
            invariant
                c <= row_len,
                top + row_len <= bottom,
                bottom + row_len <= before.len(),
                data@.len() == before.len(),
                data.len() == before.len(),
                forall|j: int| 0 <= j < c ==> #[trigger] data@[top + j] == before[bottom + j],
                forall|j: int| 0 <= j < c ==> #[trigger] data@[bottom + j] == before[top + j],
                forall|i: int|
                    0 <= i < before.len() && !(top <= i < top + c) && !(bottom <= i < bottom + c) ==> #[trigger] data@[i]
                        == before[i],
            decreases row_len - c,
        {
            let a = data[top + c];
            let b = data[bottom + c];
            data.set(top + c, b);
            data.set(bottom + c, a);
            c += 1;
        }
        proof {
            assert forall|r: int, cc: int|
                (0 <= r < row + 1 || rows - (row + 1) <= r < rows) && 0 <= cc < row_len implies #[trigger] data@[r
                * row_len + cc] == d0[(rows - 1 - r) * row_len + cc] by {
                lemma_row_index(r, cc, row_len as int, rows as int);
                if r == row {
                    assert(data@[top + cc] == before[bottom + cc]);
                    assert(r * row_len + cc == top + cc);
                    assert((rows - 1 - r) * row_len + cc == bottom + cc);
                    assert(before[bottom + cc] == d0[bottom + cc]) by {
                        assert(row <= rows - 1 - row < rows - row);
                        assert(before[(rows - 1 - row) * row_len + cc] == d0[(rows - 1 - row) * row_len + cc]);
                    }
                } else if r == rows - 1 - row {
                    assert(r * row_len + cc == bottom + cc);
                    assert((rows - 1 - r) * row_len + cc == top + cc);
                    assert(data@[bottom + cc] == before[top + cc]);
                    assert(before[row * row_len + cc] == d0[row * row_len + cc]);
                } else {
                    let i = r * row_len + cc;
                    assert(!(top <= i < top + row_len)) by (nonlinear_arith)
                        requires
                            i == r * row_len + cc,
                            top == row * row_len,
                            r != row,
                            0 <= cc < row_len,
                            0 <= r,
                    ;
                    assert(!(bottom <= i < bottom + row_len)) by (nonlinear_arith)
                        requires
                            i == r * row_len + cc,
                            bottom == (rows - 1 - row) * row_len,
                            r != rows - 1 - row,
                            0 <= cc < row_len,
                            0 <= r,
                    ;
                    assert(data@[i] == before[i]);
                }
            }
            assert forall|r: int, cc: int|
                row + 1 <= r < rows - (row + 1) && 0 <= cc < row_len implies #[trigger] data@[r * row_len + cc]
                == d0[r * row_len + cc] by {
                lemma_row_index(r, cc, row_len as int, rows as int);
                let i = r * row_len + cc;
                assert(!(top <= i < top + row_len)) by (nonlinear_arith)
                    requires
                        i == r * row_len + cc,
                        top == row * row_len,
                        r > row,
                        0 <= cc < row_len,
                ;
                assert(!(bottom <= i < bottom + row_len)) by (nonlinear_arith)
                    requires
                        i == r * row_len + cc,
                        bottom == (rows - 1 - row) * row_len,
                        r < rows - 1 - row,
                        0 <= cc < row_len,
                        0 <= r,
                ;
                assert(data@[i] == before[i]);
            }
        }
        row += 1;
    }
    proof {
        assert forall|r: int, cc: int| 0 <= r < rows && 0 <= cc < row_len implies #[trigger] data@[r * row_len + cc]
            == d0[(rows - 1 - r) * row_len + cc] by {
            if row <= r < rows - row {
                assert(r == rows - 1 - r);
            }
        }
    }
}

/// Turning an image upside down twice gives it back.
pub proof fn lemma_flip_twice(a: Seq<u8>, b: Seq<u8>, c: Seq<u8>, row_len: int, rows: int)
    requires
        0 <= row_len,
        0 <= rows,
        rows * row_len <= a.len(),
        rows_reversed(a, b, row_len, rows),
        rows_reversed(b, c, row_len, rows),
    ensures
        c == a,
{
    assert forall|i: int| 0 <= i < a.len() implies c[i] == a[i] by {
        if i < rows * row_len {
            let r = i / row_len;
            let cc = i % row_len;
            assert(row_len > 0) by (nonlinear_arith)
                requires
                    0 <= i < rows * row_len,
                    0 <= rows,
                    0 <= row_len,
            ;
            vstd::arithmetic::div_mod::lemma_fundamental_div_mod(i, row_len);
            assert(0 <= r < rows) by (nonlinear_arith)
                requires
                    i == row_len * r + cc,
                    0 <= cc < row_len,
                    0 <= i < rows * row_len,
            ;
            assert(r * row_len + cc == i) by (nonlinear_arith)
                requires
                    i == row_len * r + cc,
            ;
            lemma_row_index(r, cc, row_len, rows);
            let r2 = rows - 1 - r;
            lemma_row_index(r2, cc, row_len, rows);
            assert(c[r * row_len + cc] == b[r2 * row_len + cc]);
            assert(b[r2 * row_len + cc] == a[(rows - 1 - r2) * row_len + cc]);
            assert(rows - 1 - r2 == r);
        }
    }
    assert(c =~= a);
}

} // verus!
