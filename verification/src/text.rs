//! Text layout and mesh generation: a string becomes one textured quad per
//! glyph, taken from a fixed 8-by-8-pixel monospace bitmap font laid out in
//! 16 columns; lines split on line breaks, stack downward two glyph heights
//! apart, and shift horizontally by the chosen alignment.

use crate::geometry::div_trunc;
use crate::geometry::div_trunc_i64;
use crate::geometry::lemma_div_trunc_bound;
use crate::geometry::screen_ok;
use crate::geometry::HIDPI_MAX;
use crate::geometry::MeshData;
use crate::widgets::TextAlign;
use vstd::prelude::*;
use vstd::string::StrSliceExecFns;

verus! {

/// One glyph cell across the font bitmap, in fixed-point texture space
/// (8 of 128 pixels).
pub const UV_U: i64 = 4096;

/// One glyph cell down the font bitmap, in fixed-point texture space
/// (8 of 64 pixels).
pub const UV_V: i64 = 8192;

/// The most glyphs one mesh can hold: four vertices per glyph must stay
/// addressable by a 16-bit index.
pub const GLYPHS_MAX: usize = 16383;

/// The bitmap cell a character is drawn from: its code point, with every
/// code beyond the ASCII range clamped to cell 128.
pub open spec fn glyph_cell(c: char) -> u8 {
    if c as u32 >= 128 {
        128u8
    } else {
        (c as u32) as u8
    }
}

/// Executable form of [`glyph_cell`].
fn glyph_cell_of(c: char) -> (r: u8)
    ensures
        r == glyph_cell(c),
{
    let u: u32 = c as u32;
    if u >= 128 {
        128
    } else {
        u as u8
    }
}

/// The text split on line breaks, each line mapped to its bitmap cells;
/// `cur` accumulates the line being read.  A trailing line break yields a
/// final empty line, as splitting does.
pub open spec fn code_lines(s: Seq<char>, cur: Seq<u8>) -> Seq<Seq<u8>>
    decreases s.len(),
{
    if s.len() == 0 {
        seq![cur]
    } else if s[0] == '\n' {
        seq![cur] + code_lines(s.drop_first(), seq![])
    } else {
        code_lines(s.drop_first(), cur.push(glyph_cell(s[0])))
    }
}

/// The lines of a text, as bitmap-cell sequences.
pub open spec fn text_lines(s: Seq<char>) -> Seq<Seq<u8>> {
    code_lines(s, seq![])
}

/// The number of glyphs over all lines.
pub open spec fn total_glyphs(lines: Seq<Seq<u8>>) -> int
    decreases lines.len(),
{
    if lines.len() == 0 {
        0
    } else {
        lines[0].len() + total_glyphs(lines.drop_first())
    }
}

/// The length of the longest line.
pub open spec fn max_line_len(lines: Seq<Seq<u8>>) -> int
    decreases lines.len(),
{
    if lines.len() == 0 {
        0
    } else {
        let m = max_line_len(lines.drop_first());
        if lines[0].len() > m {
            lines[0].len() as int
        } else {
            m
        }
    }
}

/// The longest line is never negative in length.
pub proof fn lemma_max_line_len_nonneg(lines: Seq<Seq<u8>>)
    ensures
        max_line_len(lines) >= 0,
    decreases lines.len(),
{
    if lines.len() > 0 {
        lemma_max_line_len_nonneg(lines.drop_first());
    }
}

/// Every line fits under the longest.
pub proof fn lemma_line_le_max(lines: Seq<Seq<u8>>, i: int)
    requires
        0 <= i < lines.len(),
    ensures
        lines[i].len() <= max_line_len(lines),
    decreases lines.len(),
{
    if i > 0 {
        lemma_line_le_max(lines.drop_first(), i - 1);
    } else {
        lemma_max_line_len_nonneg(lines.drop_first());
    }
}

/// Splitting consumes each character at most once: glyph count and line
/// length are bounded by the text length.
pub proof fn lemma_code_lines_bound(s: Seq<char>, cur: Seq<u8>)
    ensures
        total_glyphs(code_lines(s, cur)) <= s.len() + cur.len(),
        max_line_len(code_lines(s, cur)) <= s.len() + cur.len(),
        code_lines(s, cur).len() <= s.len() + 1,
    decreases s.len(),
{
    let cl = code_lines(s, cur);
    if s.len() == 0 {
        assert(cl == seq![cur]);
        assert(cl[0] == cur);
        assert(cl.drop_first() =~= Seq::<Seq<u8>>::empty());
        assert(total_glyphs(cl.drop_first()) == 0);
        assert(max_line_len(cl.drop_first()) == 0);
        assert(total_glyphs(cl) == cur.len());
        assert(max_line_len(cl) == cur.len());
    } else if s[0] == '\n' {
        lemma_code_lines_bound(s.drop_first(), seq![]);
        let tail = code_lines(s.drop_first(), seq![]);
        assert(cl == seq![cur] + tail);
        assert(cl.drop_first() =~= tail);
        assert(cl[0] == cur);
        assert(total_glyphs(cl) == cur.len() + total_glyphs(tail));
        assert(max_line_len(cl) <= s.len() + cur.len());
    } else {
        lemma_code_lines_bound(s.drop_first(), cur.push(glyph_cell(s[0])));
        assert(cl == code_lines(s.drop_first(), cur.push(glyph_cell(s[0]))));
    }
}

/// Splits a text into its lines of bitmap cells.
pub fn split_glyph_lines(s: &str) -> (lines: Vec<Vec<u8>>)
    ensures
        lines@.map_values(|l: Vec<u8>| l@) == text_lines(s@),
        lines@.len() >= 1,
{
    let n = s.unicode_len();
    let mut lines: Vec<Vec<u8>> = Vec::new();
    let mut cur: Vec<u8> = Vec::new();
    let mut i: usize = 0;
    proof {
        assert(s@.skip(0) =~= s@);
    }
    while i < n
        invariant
            n == s@.len(),
            i <= n,
            text_lines(s@) == lines@.map_values(|l: Vec<u8>| l@) + code_lines(
                s@.skip(i as int),
                cur@,
            ),
        decreases n - i,
    {
        let ghost lines0 = lines@.map_values(|l: Vec<u8>| l@);
        let ghost rem = s@.skip(i as int);
        let ghost cur0 = cur@;
        let c = s.get_char(i);
        proof {
            assert(rem[0] == s@[i as int]);
            assert(rem.drop_first() =~= s@.skip(i + 1));
        }
        if c == '\n' {
            lines.push(cur);
            cur = Vec::new();
            proof {
                assert(code_lines(rem, cur0) == seq![cur0] + code_lines(rem.drop_first(), seq![]));
                assert(lines@.map_values(|l: Vec<u8>| l@) =~= lines0.push(cur0));
                assert(lines0 + (seq![cur0] + code_lines(s@.skip(i + 1), cur@)) =~= lines0.push(
                    cur0,
                ) + code_lines(s@.skip(i + 1), cur@));
            }
        } else {
            let cell = glyph_cell_of(c);
            cur.push(cell);
            proof {
                assert(code_lines(rem, cur0) == code_lines(
                    rem.drop_first(),
                    cur0.push(glyph_cell(s@[i as int])),
                ));
                assert(cur@ =~= cur0.push(glyph_cell(s@[i as int])));
            }
        }
        i = i + 1;
    }
    proof {
        assert(s@.skip(n as int).len() == 0);
        assert(code_lines(s@.skip(n as int), cur@) == seq![cur@]);
    }
    let ghost lines0 = lines@.map_values(|l: Vec<u8>| l@);
    let ghost curv = cur@;
    lines.push(cur);
    proof {
        assert(lines@.map_values(|l: Vec<u8>| l@) =~= lines0.push(curv));
        assert(lines0 + seq![curv] =~= lines0.push(curv));
    }
    lines
}

/// The length of the longest line of a split text.
pub fn max_len_of(lines: &Vec<Vec<u8>>) -> (r: usize)
    ensures
        r as int == max_line_len(lines@.map_values(|l: Vec<u8>| l@)),
{
    let ghost lm = lines@.map_values(|l: Vec<u8>| l@);
    let mut r: usize = 0;
    let mut i: usize = 0;
    proof {
        assert(lm.skip(0) =~= lm);
        lemma_max_line_len_nonneg(lm);
    }
    while i < lines.len()
        invariant
            i <= lines@.len(),
            lm == lines@.map_values(|l: Vec<u8>| l@),
            max_line_len(lm) == if r as int > max_line_len(lm.skip(i as int)) {
                r as int
            } else {
                max_line_len(lm.skip(i as int))
            },
        decreases lines@.len() - i,
    {
        let ghost rem = lm.skip(i as int);
        proof {
            assert(rem[0] == lm[i as int]);
            assert(rem.drop_first() =~= lm.skip(i + 1));
            lemma_max_line_len_nonneg(lm.skip(i + 1));
        }
        let len = lines[i].len();
        if len > r {
            r = len;
        }
        i = i + 1;
    }
    proof {
        assert(lm.skip(lines@.len() as int).len() == 0);
    }
    r
}

/// The largest magnitude a text-mesh vertex coordinate can reach.
pub const VERT_MAX: i64 = 0x100_0000_0000;

/// A line's horizontal shift, in half-glyph units: none for left alignment,
/// the full slack for right, half the slack for centered.
pub open spec fn align_halves(align: TextAlign, maxl: int, len: int) -> int {
    match align {
        TextAlign::Left => 0,
        TextAlign::Right => 2 * (maxl - len),
        TextAlign::Center => maxl - len,
    }
}

/// A line's horizontal shift in fixed-point coordinates.
pub open spec fn line_xoff(align: TextAlign, maxl: int, len: int, gw: int) -> int {
    div_trunc(align_halves(align, maxl, len) * gw, 2)
}

/// One coordinate of one glyph quad: four corners, each `(x, y, 0)`, layed
/// out top-left, bottom-left, bottom-right, top-right.
pub open spec fn vert_val(ci: int, xoff: int, l: int, gw: int, gh: int, k: int) -> int {
    let gx = ci * gw + xoff;
    let by = -2 * l * gh;
    if k == 0 || k == 3 {
        gx
    } else if k == 6 || k == 9 {
        gx + gw
    } else if k == 1 || k == 10 {
        by
    } else if k == 4 || k == 7 {
        by - gh
    } else {
        0
    }
}

/// One texture coordinate of one glyph quad: the bitmap cell of the glyph's
/// code, sixteen cells per row.
pub open spec fn uv_val(code: u8, k: int) -> int {
    let col = (code % 16) as int;
    let row = (code / 16) as int;
    if k == 0 || k == 2 {
        col * UV_U
    } else if k == 4 || k == 6 {
        col * UV_U + UV_U
    } else if k == 1 || k == 7 {
        row * UV_V
    } else {
        row * UV_V + UV_V
    }
}

/// One index of one glyph quad: two triangles over its four vertices.
pub open spec fn idx_val(g: int, j: int) -> int {
    if j == 0 || j == 3 {
        4 * g
    } else if j == 1 {
        4 * g + 1
    } else if j == 2 || j == 4 {
        4 * g + 2
    } else {
        4 * g + 3
    }
}

/// The vertex buffer of one line of `len` glyphs on row `l`.
pub open spec fn line_verts(len: int, xoff: int, l: int, gw: int, gh: int) -> Seq<int> {
    Seq::new((12 * len) as nat, |k: int| vert_val(k / 12, xoff, l, gw, gh, k % 12))
}

/// The texture-coordinate buffer of one line.
pub open spec fn line_uvs(line: Seq<u8>) -> Seq<int> {
    Seq::new(8 * line.len(), |k: int| uv_val(line[k / 8], k % 8))
}

/// The vertex buffer of a whole text, line `l` first.
pub open spec fn text_verts(
    lines: Seq<Seq<u8>>,
    maxl: int,
    align: TextAlign,
    gw: int,
    gh: int,
    l: int,
) -> Seq<int>
    decreases lines.len(),
{
    if lines.len() == 0 {
        Seq::empty()
    } else {
        line_verts(
            lines[0].len() as int,
            line_xoff(align, maxl, lines[0].len() as int, gw),
            l,
            gw,
            gh,
        ) + text_verts(lines.drop_first(), maxl, align, gw, gh, l + 1)
    }
}

/// The texture-coordinate buffer of a whole text.
pub open spec fn text_uvs(lines: Seq<Seq<u8>>) -> Seq<int>
    decreases lines.len(),
{
    if lines.len() == 0 {
        Seq::empty()
    } else {
        line_uvs(lines[0]) + text_uvs(lines.drop_first())
    }
}

/// The index buffer over `n` glyph quads.
pub open spec fn mesh_indices(n: int) -> Seq<int> {
    Seq::new((6 * n) as nat, |k: int| idx_val(k / 6, k % 6))
}

/// Glyph counting distributes over appending a line.
pub proof fn lemma_total_glyphs_snoc(lines: Seq<Seq<u8>>, ln: Seq<u8>)
    ensures
        total_glyphs(lines.push(ln)) == total_glyphs(lines) + ln.len(),
    decreases lines.len(),
{
    if lines.len() == 0 {
        assert(lines.push(ln)[0] == ln);
        assert(lines.push(ln).drop_first() =~= Seq::<Seq<u8>>::empty());
        assert(total_glyphs(lines.push(ln).drop_first()) == 0);
    } else {
        assert(lines.push(ln)[0] == lines[0]);
        assert(lines.push(ln).drop_first() =~= lines.drop_first().push(ln));
        lemma_total_glyphs_snoc(lines.drop_first(), ln);
    }
}

/// A prefix never holds more glyphs than the whole.
pub proof fn lemma_total_glyphs_take_le(lines: Seq<Seq<u8>>, j: int)
    requires
        0 <= j <= lines.len(),
    ensures
        total_glyphs(lines.take(j)) <= total_glyphs(lines),
    decreases lines.len() - j,
{
    if j < lines.len() {
        lemma_total_glyphs_snoc(lines.take(j), lines[j]);
        assert(lines.take(j + 1) =~= lines.take(j).push(lines[j]));
        lemma_total_glyphs_take_le(lines, j + 1);
    } else {
        assert(lines.take(j) =~= lines);
    }
}

/// Building the vertex buffer distributes over appending a line.
pub proof fn lemma_text_verts_snoc(
    lines: Seq<Seq<u8>>,
    ln: Seq<u8>,
    maxl: int,
    align: TextAlign,
    gw: int,
    gh: int,
    l: int,
)
    ensures
        text_verts(lines.push(ln), maxl, align, gw, gh, l) == text_verts(
            lines,
            maxl,
            align,
            gw,
            gh,
            l,
        ) + line_verts(
            ln.len() as int,
            line_xoff(align, maxl, ln.len() as int, gw),
            l + lines.len(),
            gw,
            gh,
        ),
    decreases lines.len(),
{
    let lv = line_verts(
        ln.len() as int,
        line_xoff(align, maxl, ln.len() as int, gw),
        l + lines.len(),
        gw,
        gh,
    );
    if lines.len() == 0 {
        assert(lines.push(ln)[0] == ln);
        assert(lines.push(ln).drop_first() =~= Seq::<Seq<u8>>::empty());
        assert(text_verts(lines.push(ln).drop_first(), maxl, align, gw, gh, l + 1)
            =~= Seq::<int>::empty());
        assert(lv + Seq::<int>::empty() =~= lv);
        assert(Seq::<int>::empty() + lv =~= lv);
    } else {
        assert(lines.push(ln)[0] == lines[0]);
        assert(lines.push(ln).drop_first() =~= lines.drop_first().push(ln));
        lemma_text_verts_snoc(lines.drop_first(), ln, maxl, align, gw, gh, l + 1);
        let lv0 = line_verts(
            lines[0].len() as int,
            line_xoff(align, maxl, lines[0].len() as int, gw),
            l,
            gw,
            gh,
        );
        let mid = text_verts(lines.drop_first(), maxl, align, gw, gh, l + 1);
        assert(lv0 + (mid + lv) =~= (lv0 + mid) + lv);
    }
}

/// Building the texture-coordinate buffer distributes over appending a line.
pub proof fn lemma_text_uvs_snoc(lines: Seq<Seq<u8>>, ln: Seq<u8>)
    ensures
        text_uvs(lines.push(ln)) == text_uvs(lines) + line_uvs(ln),
    decreases lines.len(),
{
    if lines.len() == 0 {
        assert(lines.push(ln)[0] == ln);
        assert(lines.push(ln).drop_first() =~= Seq::<Seq<u8>>::empty());
        assert(text_uvs(lines.push(ln).drop_first()) =~= Seq::<int>::empty());
        assert(line_uvs(ln) + Seq::<int>::empty() =~= line_uvs(ln));
        assert(Seq::<int>::empty() + line_uvs(ln) =~= line_uvs(ln));
    } else {
        assert(lines.push(ln)[0] == lines[0]);
        assert(lines.push(ln).drop_first() =~= lines.drop_first().push(ln));
        lemma_text_uvs_snoc(lines.drop_first(), ln);
        assert(line_uvs(lines[0]) + (text_uvs(lines.drop_first()) + line_uvs(ln)) =~= (line_uvs(
            lines[0],
        ) + text_uvs(lines.drop_first())) + line_uvs(ln));
    }
}

/// Builds the text mesh: one textured quad per glyph, lines split on line
/// breaks, aligned horizontally and stacked downward two glyph heights
/// apart.  The glyph cell spans `8 * 2 * hidpi / screen` per axis in
/// normalized device coordinates.
pub fn make_text_mesh_data(s: &str, ssize: (u32, u32), hidpi: i64, align: TextAlign) -> (r:
    MeshData)
    requires
        screen_ok(ssize.0, ssize.1, hidpi),
        s@.len() <= GLYPHS_MAX,
    ensures
        ({
            let lines = text_lines(s@);
            let maxl = max_line_len(lines);
            let gw = div_trunc(16 * hidpi, ssize.0 as int);
            let gh = div_trunc(16 * hidpi, ssize.1 as int);
            &&& r.vertices@.map_values(|v: i64| v as int) == text_verts(
                lines,
                maxl,
                align,
                gw,
                gh,
                0,
            )
            &&& r.uvs@.map_values(|v: i64| v as int) == text_uvs(lines)
            &&& r.indices@.map_values(|x: u16| x as int) == mesh_indices(total_glyphs(lines))
            &&& forall|k: int|
                0 <= k < r.vertices@.len() ==> -VERT_MAX <= #[trigger] r.vertices@[k] <= VERT_MAX
        }),
{
    proof {
        lemma_code_lines_bound(s@, Seq::<u8>::empty());
        assert(text_lines(s@) == code_lines(s@, Seq::<u8>::empty()));
    }
    let lines = split_glyph_lines(s);
    let ghost lm = lines@.map_values(|l: Vec<u8>| l@);
    let maxl = max_len_of(&lines);
    proof {
        lemma_max_line_len_nonneg(lm);
        lemma_div_trunc_bound(16 * hidpi, ssize.0 as int);
        lemma_div_trunc_bound(16 * hidpi, ssize.1 as int);
    }
    let gw = div_trunc_i64(16 * hidpi, ssize.0 as i64);
    let gh = div_trunc_i64(16 * hidpi, ssize.1 as i64);
    let mut vertices: Vec<i64> = Vec::new();
    let mut uvs: Vec<i64> = Vec::new();
    let mut indices: Vec<u16> = Vec::new();
    let mut g: u16 = 0;
    let mut li: usize = 0;
    proof {
        assert(lm.take(0) =~= Seq::<Seq<u8>>::empty());
        assert(vertices@.map_values(|v: i64| v as int) =~= Seq::<int>::empty());
        assert(uvs@.map_values(|v: i64| v as int) =~= Seq::<int>::empty());
        assert(indices@.map_values(|x: u16| x as int) =~= Seq::<int>::empty());
        assert(mesh_indices(0) =~= Seq::<int>::empty());
    }
    while li < lines.len()
        invariant
            li <= lines@.len(),
            lm == lines@.map_values(|l: Vec<u8>| l@),
            lm == text_lines(s@),
            maxl as int == max_line_len(lm),
            maxl <= GLYPHS_MAX,
            total_glyphs(lm) <= GLYPHS_MAX,
            lines@.len() <= GLYPHS_MAX + 1,
            0 <= gw <= 16 * HIDPI_MAX,
            0 <= gh <= 16 * HIDPI_MAX,
            gw as int == div_trunc(16 * hidpi, ssize.0 as int),
            gh as int == div_trunc(16 * hidpi, ssize.1 as int),
            g as int == total_glyphs(lm.take(li as int)),
            vertices@.map_values(|v: i64| v as int) == text_verts(
                lm.take(li as int),
                maxl as int,
                align,
                gw as int,
                gh as int,
                0,
            ),
            uvs@.map_values(|v: i64| v as int) == text_uvs(lm.take(li as int)),
            indices@.map_values(|x: u16| x as int) == mesh_indices(g as int),
            forall|k: int|
                0 <= k < vertices@.len() ==> -VERT_MAX <= #[trigger] vertices@[k] <= VERT_MAX,
        decreases lines@.len() - li,
    {
        let ghost prefix = lm.take(li as int);
        proof {
            assert(lm[li as int] == lines@[li as int]@);
            lemma_line_le_max(lm, li as int);
            lemma_total_glyphs_snoc(prefix, lm[li as int]);
            assert(lm.take(li + 1) =~= prefix.push(lm[li as int]));
            lemma_total_glyphs_take_le(lm, li + 1);
        }
        let line = &lines[li];
        let llen = line.len();
        let halves: i64 = match align {
            TextAlign::Left => 0,
            TextAlign::Right => 2 * ((maxl - llen) as i64),
            TextAlign::Center => (maxl - llen) as i64,
        };
        proof {
            assert(halves == align_halves(align, maxl as int, llen as int));
            assert(0 <= halves <= 2 * GLYPHS_MAX);
            assert(halves * gw <= 2 * 16384 * 16777216 && halves * gw >= 0) by (nonlinear_arith)
                requires
                    0 <= halves <= 2 * 16384,
                    0 <= gw <= 16777216,
            ;
            lemma_div_trunc_bound(halves * gw, 2);
        }
        let xoff = div_trunc_i64(halves * gw, 2);
        let liw = li as i64;
        proof {
            assert(-2 * liw * gh >= -(2 * 16384 * 16777216) && -2 * liw * gh <= 0)
                by (nonlinear_arith)
                requires
                    0 <= liw <= 16384,
                    0 <= gh <= 16777216,
            ;
        }
        let by = -2 * liw * gh;
        let ghost g0 = g as int;
        let mut ci: usize = 0;
        proof {
            assert(Seq::new((12 * 0) as nat, |k: int| vert_val(
                k / 12,
                xoff as int,
                li as int,
                gw as int,
                gh as int,
                k % 12,
            )) =~= Seq::<int>::empty());
            assert(Seq::new((8 * 0) as nat, |k: int| uv_val(lm[li as int][k / 8], k % 8))
                =~= Seq::<int>::empty());
            assert(vertices@.map_values(|v: i64| v as int) =~= text_verts(
                prefix,
                maxl as int,
                align,
                gw as int,
                gh as int,
                0,
            ) + Seq::<int>::empty());
            assert(uvs@.map_values(|v: i64| v as int) =~= text_uvs(prefix) + Seq::<int>::empty());
        }
        while ci < llen
            invariant
                ci <= llen,
                llen == line@.len(),
                line@ == lm[li as int],
                li < lines@.len(),
                lm == lines@.map_values(|l: Vec<u8>| l@),
                prefix == lm.take(li as int),
                maxl as int == max_line_len(lm),
                llen <= maxl,
                maxl <= GLYPHS_MAX,
                total_glyphs(lm) <= GLYPHS_MAX,
                lines@.len() <= GLYPHS_MAX + 1,
                0 <= gw <= 16 * HIDPI_MAX,
                0 <= gh <= 16 * HIDPI_MAX,
                0 <= xoff,
                xoff as int == line_xoff(align, maxl as int, llen as int, gw as int),
                xoff <= 2 * 16384 * 16777216,
                liw == li as i64,
                by as int == -2 * (li as int) * (gh as int),
                -(2 * 16384 * 16777216) <= by <= 0,
                g0 == total_glyphs(prefix),
                g as int == g0 + ci,
                g0 + llen == total_glyphs(lm.take(li + 1)),
                total_glyphs(lm.take(li + 1)) <= total_glyphs(lm),
                vertices@.map_values(|v: i64| v as int) == text_verts(
                    prefix,
                    maxl as int,
                    align,
                    gw as int,
                    gh as int,
                    0,
                ) + Seq::new((12 * ci) as nat, |k: int| vert_val(
                    k / 12,
                    xoff as int,
                    li as int,
                    gw as int,
                    gh as int,
                    k % 12,
                )),
                uvs@.map_values(|v: i64| v as int) == text_uvs(prefix) + Seq::new(
                    (8 * ci) as nat,
                    |k: int| uv_val(lm[li as int][k / 8], k % 8),
                ),
                indices@.map_values(|x: u16| x as int) == mesh_indices(g as int),
                forall|k: int|
                    0 <= k < vertices@.len() ==> -VERT_MAX <= #[trigger] vertices@[k] <= VERT_MAX,
            decreases llen - ci,
        {
            let ghost ci0 = ci as int;
            let ghost verts_vec0 = vertices@;
            let ghost uvs_vec0 = uvs@;
            let ghost idx_vec0 = indices@;
            let code = line[ci];
            let ciw = ci as i64;
            proof {
                assert(ciw * gw <= 16384 * 16777216 && ciw * gw >= 0) by (nonlinear_arith)
                    requires
                        0 <= ciw <= 16384,
                        0 <= gw <= 16777216,
                ;
            }
            let gx = ciw * gw + xoff;
            let xr = gx + gw;
            let yb = by - gh;
            vertices.push(gx);
            vertices.push(by);
            vertices.push(0);
            vertices.push(gx);
            vertices.push(yb);
            vertices.push(0);
            vertices.push(xr);
            vertices.push(yb);
            vertices.push(0);
            vertices.push(xr);
            vertices.push(by);
            vertices.push(0);
            let col = (code % 16) as i64;
            let row = (code / 16) as i64;
            let u0 = col * UV_U;
            let u1 = col * UV_U + UV_U;
            let v0 = row * UV_V;
            let v1 = row * UV_V + UV_V;
            uvs.push(u0);
            uvs.push(v0);
            uvs.push(u0);
            uvs.push(v1);
            uvs.push(u1);
            uvs.push(v1);
            uvs.push(u1);
            uvs.push(v0);
            let base = g * 4;
            indices.push(base);
            indices.push(base + 1);
            indices.push(base + 2);
            indices.push(base);
            indices.push(base + 2);
            indices.push(base + 3);
            g = g + 1;
            ci = ci + 1;
            proof {
                let gprev = g as int - 1;
                assert(idx_vec0.map_values(|x: u16| x as int) == mesh_indices(gprev));
                assert(mesh_indices(gprev + 1) =~= mesh_indices(gprev) + seq![
                    4 * gprev,
                    4 * gprev + 1,
                    4 * gprev + 2,
                    4 * gprev,
                    4 * gprev + 2,
                    4 * gprev + 3,
                ]);
                vstd::arithmetic::div_mod::lemma_fundamental_div_mod_converse(12 * ci0, 12, ci0, 0);
                vstd::arithmetic::div_mod::lemma_fundamental_div_mod_converse(12 * ci0 + 1, 12, ci0, 1);
                vstd::arithmetic::div_mod::lemma_fundamental_div_mod_converse(12 * ci0 + 2, 12, ci0, 2);
                vstd::arithmetic::div_mod::lemma_fundamental_div_mod_converse(12 * ci0 + 3, 12, ci0, 3);
                vstd::arithmetic::div_mod::lemma_fundamental_div_mod_converse(12 * ci0 + 4, 12, ci0, 4);
                vstd::arithmetic::div_mod::lemma_fundamental_div_mod_converse(12 * ci0 + 5, 12, ci0, 5);
                vstd::arithmetic::div_mod::lemma_fundamental_div_mod_converse(12 * ci0 + 6, 12, ci0, 6);
                vstd::arithmetic::div_mod::lemma_fundamental_div_mod_converse(12 * ci0 + 7, 12, ci0, 7);
                vstd::arithmetic::div_mod::lemma_fundamental_div_mod_converse(12 * ci0 + 8, 12, ci0, 8);
                vstd::arithmetic::div_mod::lemma_fundamental_div_mod_converse(12 * ci0 + 9, 12, ci0, 9);
                vstd::arithmetic::div_mod::lemma_fundamental_div_mod_converse(12 * ci0 + 10, 12, ci0, 10);
                vstd::arithmetic::div_mod::lemma_fundamental_div_mod_converse(12 * ci0 + 11, 12, ci0, 11);
                vstd::arithmetic::div_mod::lemma_fundamental_div_mod_converse(8 * ci0, 8, ci0, 0);
                vstd::arithmetic::div_mod::lemma_fundamental_div_mod_converse(8 * ci0 + 1, 8, ci0, 1);
                vstd::arithmetic::div_mod::lemma_fundamental_div_mod_converse(8 * ci0 + 2, 8, ci0, 2);
                vstd::arithmetic::div_mod::lemma_fundamental_div_mod_converse(8 * ci0 + 3, 8, ci0, 3);
                vstd::arithmetic::div_mod::lemma_fundamental_div_mod_converse(8 * ci0 + 4, 8, ci0, 4);
                vstd::arithmetic::div_mod::lemma_fundamental_div_mod_converse(8 * ci0 + 5, 8, ci0, 5);
                vstd::arithmetic::div_mod::lemma_fundamental_div_mod_converse(8 * ci0 + 6, 8, ci0, 6);
                vstd::arithmetic::div_mod::lemma_fundamental_div_mod_converse(8 * ci0 + 7, 8, ci0, 7);
                vstd::arithmetic::div_mod::lemma_fundamental_div_mod_converse(6 * gprev, 6, gprev, 0);
                vstd::arithmetic::div_mod::lemma_fundamental_div_mod_converse(6 * gprev + 1, 6, gprev, 1);
                vstd::arithmetic::div_mod::lemma_fundamental_div_mod_converse(6 * gprev + 2, 6, gprev, 2);
                vstd::arithmetic::div_mod::lemma_fundamental_div_mod_converse(6 * gprev + 3, 6, gprev, 3);
                vstd::arithmetic::div_mod::lemma_fundamental_div_mod_converse(6 * gprev + 4, 6, gprev, 4);
                vstd::arithmetic::div_mod::lemma_fundamental_div_mod_converse(6 * gprev + 5, 6, gprev, 5);
                assert(vertices@ =~= verts_vec0 + seq![gx, by, 0i64, gx, yb, 0i64, xr, yb, 0i64, xr, by, 0i64]);
                assert(0 <= gx <= VERT_MAX && 0 <= xr <= VERT_MAX);
                assert(-VERT_MAX <= yb <= 0);
                assert forall|k: int| 0 <= k < vertices@.len() implies -VERT_MAX <= #[trigger] vertices@[k]
                    <= VERT_MAX by {
                    if k < verts_vec0.len() {
                        assert(vertices@[k] == verts_vec0[k]);
                    }
                }
                assert(Seq::new((12 * (ci0 + 1)) as nat, |k: int| vert_val(
                    k / 12,
                    xoff as int,
                    li as int,
                    gw as int,
                    gh as int,
                    k % 12,
                )) =~= Seq::new((12 * ci0) as nat, |k: int| vert_val(
                    k / 12,
                    xoff as int,
                    li as int,
                    gw as int,
                    gh as int,
                    k % 12,
                )) + seq![
                    gx as int,
                    by as int,
                    0int,
                    gx as int,
                    yb as int,
                    0int,
                    xr as int,
                    by as int - gh as int,
                    0int,
                    xr as int,
                    by as int,
                    0int,
                ]);
                assert(vertices@.map_values(|v: i64| v as int) =~= verts_vec0.map_values(
                    |v: i64| v as int,
                ) + seq![
                    gx as int,
                    by as int,
                    0int,
                    gx as int,
                    yb as int,
                    0int,
                    xr as int,
                    by as int - gh as int,
                    0int,
                    xr as int,
                    by as int,
                    0int,
                ]);
                assert(Seq::new((8 * (ci0 + 1)) as nat, |k: int| uv_val(lm[li as int][k / 8], k % 8))
                    =~= Seq::new((8 * ci0) as nat, |k: int| uv_val(lm[li as int][k / 8], k % 8))
                    + seq![
                    u0 as int,
                    v0 as int,
                    u0 as int,
                    v1 as int,
                    u1 as int,
                    v1 as int,
                    u1 as int,
                    v0 as int,
                ]);
                assert(uvs@.map_values(|v: i64| v as int) =~= uvs_vec0.map_values(|v: i64| v as int)
                    + seq![
                    u0 as int,
                    v0 as int,
                    u0 as int,
                    v1 as int,
                    u1 as int,
                    v1 as int,
                    u1 as int,
                    v0 as int,
                ]);
                assert(uvs@ =~= uvs_vec0 + seq![
                    u0,
                    v0,
                    u0,
                    v1,
                    u1,
                    v1,
                    u1,
                    v0,
                ]);
                assert(indices@ =~= idx_vec0 + seq![
                    base,
                    (base + 1) as u16,
                    (base + 2) as u16,
                    base,
                    (base + 2) as u16,
                    (base + 3) as u16,
                ]);
                assert(vertices@.map_values(|v: i64| v as int) =~= text_verts(
                    prefix,
                    maxl as int,
                    align,
                    gw as int,
                    gh as int,
                    0,
                ) + Seq::new((12 * (ci0 + 1)) as nat, |k: int| vert_val(
                    k / 12,
                    xoff as int,
                    li as int,
                    gw as int,
                    gh as int,
                    k % 12,
                )));
                assert(uvs@.map_values(|v: i64| v as int) =~= text_uvs(prefix) + Seq::new(
                    (8 * (ci0 + 1)) as nat,
                    |k: int| uv_val(lm[li as int][k / 8], k % 8),
                ));
                assert(indices@.map_values(|x: u16| x as int) =~= mesh_indices(g as int));
            }
        }
        li = li + 1;
        proof {
            lemma_text_verts_snoc(prefix, lm[li - 1], maxl as int, align, gw as int, gh as int, 0);
            lemma_text_uvs_snoc(prefix, lm[li - 1]);
            assert(lm.take(li as int) =~= prefix.push(lm[li - 1]));
            assert(line_verts(
                lm[li - 1].len() as int,
                line_xoff(align, maxl as int, lm[li - 1].len() as int, gw as int),
                li - 1,
                gw as int,
                gh as int,
            ) =~= Seq::new((12 * lm[li - 1].len()) as nat, |k: int| vert_val(
                k / 12,
                xoff as int,
                (li - 1) as int,
                gw as int,
                gh as int,
                k % 12,
            )));
            assert(line_uvs(lm[li - 1]) =~= Seq::new((8 * lm[li - 1].len()) as nat, |k: int|
                uv_val(lm[li - 1][k / 8], k % 8)));
        }
    }
    proof {
        assert(lm.take(lines@.len() as int) =~= lm);
    }
    MeshData { vertices, uvs, indices }
}

/// The vertex buffer holds twelve values for each glyph.
pub proof fn lemma_text_verts_len(
    lines: Seq<Seq<u8>>,
    maxl: int,
    align: TextAlign,
    gw: int,
    gh: int,
    l: int,
)
    ensures
        text_verts(lines, maxl, align, gw, gh, l).len() == 12 * total_glyphs(lines),
    decreases lines.len(),
{
    if lines.len() > 0 {
        lemma_text_verts_len(lines.drop_first(), maxl, align, gw, gh, l + 1);
    }
}

} // verus!
