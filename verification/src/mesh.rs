//! The mesh model: an immutable vertex list, indexed triangular faces with
//! flat colors, and the per-mesh transform state the animation mutates.

use crate::color::Color;
use crate::fixed::tdiv;
use crate::triangle::Face;
use crate::vector::Vec3;
use vstd::prelude::*;

verus! {

/// Why a mesh source failed to load: a malformed numeric token, a missing
/// token on a vertex or face line, a coordinate outside the representable
/// range, or a face index outside `[1, vertex_count]`.
#[derive(Debug, Clone, Copy, PartialEq, Eq, Structural)]
pub enum MeshError {
    BadNumber,
    MissingToken,
    OutOfRange,
    BadIndex,
}

/// Mesh coordinates stay within this fixed-point bound (256 in real
/// units), which keeps the whole transform pipeline free of overflow.
pub const MESH_COORD_MAX: i64 = 0x100_0000;

pub open spec fn coord_small(v: int) -> bool {
    -0x100_0000 <= v <= 0x100_0000
}

pub open spec fn vec3_small(v: Vec3) -> bool {
    coord_small(v.x as int) && coord_small(v.y as int) && coord_small(v.z as int)
}

/// A face is valid for a mesh of `n` vertices when its 1-based indices all
/// lie in `[1, n]`.
pub open spec fn face_ok(f: Face, n: int) -> bool {
    1 <= f.a <= n && 1 <= f.b <= n && 1 <= f.c <= n
}

pub struct Mesh {
    pub vertices: Vec<Vec3>,
    pub faces: Vec<Face>,
    pub rotation: Vec3,
    pub scale: Vec3,
    pub translation: Vec3,
}

/// A well-formed mesh: every face's indices address the vertex list, and
/// every vertex is small enough for the pipeline's arithmetic.
pub open spec fn mesh_wf(m: Mesh) -> bool {
    &&& forall|i: int|
        0 <= i < m.faces@.len() ==> face_ok(#[trigger] m.faces@[i], m.vertices@.len() as int)
    &&& forall|i: int| 0 <= i < m.vertices@.len() ==> vec3_small(#[trigger] m.vertices@[i])
}

pub const N_CUBE_VERTICES: usize = 8;

pub const N_CUBE_FACES: usize = 12;

/// The unit cube's corners, in fixed point.
pub open spec fn cube_vertices() -> Seq<Vec3> {
    seq![
        Vec3 { x: -65536i64, y: -65536i64, z: -65536i64 },
        Vec3 { x: -65536i64, y: 65536i64, z: -65536i64 },
        Vec3 { x: 65536i64, y: 65536i64, z: -65536i64 },
        Vec3 { x: 65536i64, y: -65536i64, z: -65536i64 },
        Vec3 { x: 65536i64, y: 65536i64, z: 65536i64 },
        Vec3 { x: 65536i64, y: -65536i64, z: 65536i64 },
        Vec3 { x: -65536i64, y: 65536i64, z: 65536i64 },
        Vec3 { x: -65536i64, y: -65536i64, z: 65536i64 },
    ]
}

/// The cube's twelve faces; each side's two triangles share a flat color.
pub open spec fn cube_faces() -> Seq<Face> {
    seq![
        Face { a: 1usize, b: 2usize, c: 3usize, color: Color { r: 255u8, g: 0u8, b: 0u8, a: 255u8 } },
        Face { a: 1usize, b: 3usize, c: 4usize, color: Color { r: 255u8, g: 0u8, b: 0u8, a: 255u8 } },
        Face { a: 4usize, b: 3usize, c: 5usize, color: Color { r: 0u8, g: 255u8, b: 0u8, a: 255u8 } },
        Face { a: 4usize, b: 5usize, c: 6usize, color: Color { r: 0u8, g: 255u8, b: 0u8, a: 255u8 } },
        Face { a: 6usize, b: 5usize, c: 7usize, color: Color { r: 0u8, g: 0u8, b: 255u8, a: 255u8 } },
        Face { a: 6usize, b: 7usize, c: 8usize, color: Color { r: 0u8, g: 0u8, b: 255u8, a: 255u8 } },
        Face { a: 8usize, b: 7usize, c: 2usize, color: Color { r: 255u8, g: 255u8, b: 0u8, a: 255u8 } },
        Face { a: 8usize, b: 2usize, c: 1usize, color: Color { r: 255u8, g: 255u8, b: 0u8, a: 255u8 } },
        Face { a: 7usize, b: 5usize, c: 3usize, color: Color { r: 0u8, g: 255u8, b: 255u8, a: 255u8 } },
        Face { a: 7usize, b: 3usize, c: 2usize, color: Color { r: 0u8, g: 255u8, b: 255u8, a: 255u8 } },
        Face { a: 8usize, b: 1usize, c: 4usize, color: Color { r: 255u8, g: 0u8, b: 255u8, a: 255u8 } },
        Face { a: 8usize, b: 4usize, c: 6usize, color: Color { r: 255u8, g: 0u8, b: 255u8, a: 255u8 } },
    ]
}

pub open spec fn is_space(c: u8) -> bool {
    c == 32 || c == 9 || c == 13
}

pub open spec fn is_digit(c: u8) -> bool {
    48 <= c <= 57
}

/// The first index at or after `i` holding a non-space byte (or `e`).
pub open spec fn skip_spaces_s(data: Seq<u8>, i: int, e: int) -> int
    decreases e - i,
{
    if i < 0 || i >= e || !is_space(data[i]) {
        i
    } else {
        skip_spaces_s(data, i + 1, e)
    }
}

/// The first index at or after `i` holding a space (or `e`).
pub open spec fn token_end_s(data: Seq<u8>, i: int, e: int) -> int
    decreases e - i,
{
    if i < 0 || i >= e || is_space(data[i]) {
        i
    } else {
        token_end_s(data, i + 1, e)
    }
}

/// The first index at or after `i` holding a line feed (or the end).
pub open spec fn line_end_s(data: Seq<u8>, i: int) -> int
    decreases data.len() - i,
{
    if i < 0 || i >= data.len() || data[i] == 10 {
        i
    } else {
        line_end_s(data, i + 1)
    }
}

/// The first index at or after `i` holding a non-digit (or `e`).
pub open spec fn digits_end_s(data: Seq<u8>, i: int, e: int) -> int
    decreases e - i,
{
    if i < 0 || i >= e || !is_digit(data[i]) {
        i
    } else {
        digits_end_s(data, i + 1, e)
    }
}

/// The first index at or after `i` holding a slash (or `e`).
pub open spec fn slash_end_s(data: Seq<u8>, i: int, e: int) -> int
    decreases e - i,
{
    if i < 0 || i >= e || data[i] == 47 {
        i
    } else {
        slash_end_s(data, i + 1, e)
    }
}

/// The value of a run of decimal digits, left to right; a non-digit byte or
/// a value beyond 2^32 - 1 yields nothing.
pub open spec fn digits_val_capped(data: Seq<u8>, s: int, e: int) -> Option<int>
    decreases e - s,
{
    if e <= s {
        Some(0int)
    } else {
        match digits_val_capped(data, s, e - 1) {
            Option::None => Option::None,
            Option::Some(a) => if !is_digit(data[e - 1]) {
                Option::None
            } else {
                let v = a * 10 + (data[e - 1] - 48);
                if v > 0xffff_ffff {
                    Option::None
                } else {
                    Option::Some(v)
                }
            },
        }
    }
}

pub open spec fn pow10(k: nat) -> int
    decreases k,
{
    if k == 0 {
        1
    } else {
        10 * pow10((k - 1) as nat)
    }
}

/// The unsigned magnitude of a decimal token (digits, then optionally a
/// point and more digits, of which only the first nine contribute: the
/// tenth would already be below one fixed-point unit).
pub open spec fn dec_mag(data: Seq<u8>, s1: int, e: int) -> Option<int> {
    let ip_end = digits_end_s(data, s1, e);
    if ip_end == e {
        if ip_end == s1 {
            Option::None
        } else {
            match digits_val_capped(data, s1, ip_end) {
                Option::None => Option::None,
                Option::Some(ip) => Option::Some(ip * 65536),
            }
        }
    } else if data[ip_end] == 46 {
        let fstart = ip_end + 1;
        let fend = digits_end_s(data, fstart, e);
        if fend != e {
            Option::None
        } else if ip_end == s1 && fend == fstart {
            Option::None
        } else {
            let k: int = if fend - fstart > 9 {
                9
            } else {
                fend - fstart
            };
            match (digits_val_capped(data, s1, ip_end), digits_val_capped(
                data,
                fstart,
                fstart + k,
            )) {
                (Option::Some(ip), Option::Some(fr)) => Option::Some(
                    ip * 65536 + tdiv(fr * 65536, pow10(k as nat)),
                ),
                _ => Option::None,
            }
        }
    } else {
        Option::None
    }
}

/// The fixed-point value of one vertex-coordinate token: an optional sign,
/// then plain decimal notation.
pub open spec fn dec_token_val(data: Seq<u8>, s: int, e: int) -> Option<int> {
    if s >= e {
        Option::None
    } else {
        let s1: int = if data[s] == 45 || data[s] == 43 {
            s + 1
        } else {
            s
        };
        match dec_mag(data, s1, e) {
            Option::None => Option::None,
            Option::Some(m) => Option::Some(
                if data[s] == 45 {
                    -m
                } else {
                    m
                },
            ),
        }
    }
}

/// The value of one face-index token: the digits before the first slash;
/// texture and normal indices after it are ignored.
pub open spec fn idx_val(data: Seq<u8>, s: int, e: int) -> Option<int> {
    let se = slash_end_s(data, s, e);
    if se == s {
        Option::None
    } else {
        digits_val_capped(data, s, se)
    }
}

/// All index tokens of a face line, in order.
pub open spec fn face_tokens_s(data: Seq<u8>, i: int, le: int, acc: Seq<int>) -> Result<
    Seq<int>,
    MeshError,
>
    decreases le - i + 1,
{
    let ts0 = skip_spaces_s(data, i, le);
    let ts: int = if ts0 < i {
        i
    } else {
        ts0
    };
    if ts >= le {
        Result::Ok(acc)
    } else {
        let te0 = token_end_s(data, ts, le);
        let te1: int = if te0 <= ts {
            ts + 1
        } else {
            te0
        };
        let te: int = if te1 > le {
            le
        } else {
            te1
        };
        match idx_val(data, ts, te) {
            Option::None => Result::Err(MeshError::BadNumber),
            Option::Some(v) => face_tokens_s(data, te, le, acc.push(v)),
        }
    }
}

/// One coordinate token of a vertex line: its start, its end, and its
/// value; too few tokens or a malformed or oversized one is an error.
pub open spec fn vertex_coord(data: Seq<u8>, from: int, le: int) -> Result<(int, int), MeshError> {
    let ts = skip_spaces_s(data, from, le);
    if ts >= le {
        Result::Err(MeshError::MissingToken)
    } else {
        let te = token_end_s(data, ts, le);
        match dec_token_val(data, ts, te) {
            Option::None => Result::Err(MeshError::BadNumber),
            Option::Some(v) => if v > 0x100_0000 || v < -0x100_0000 {
                Result::Err(MeshError::OutOfRange)
            } else {
                Result::Ok((v, te))
            },
        }
    }
}

/// What one `v` line contributes: its three coordinates.
pub open spec fn vertex_line_val(data: Seq<u8>, from: int, le: int) -> Result<Vec3, MeshError> {
    match vertex_coord(data, from, le) {
        Result::Err(e) => Result::Err(e),
        Result::Ok((x, e1)) => match vertex_coord(data, e1, le) {
            Result::Err(e) => Result::Err(e),
            Result::Ok((y, e2)) => match vertex_coord(data, e2, le) {
                Result::Err(e) => Result::Err(e),
                Result::Ok((z, _e3)) => Result::Ok(Vec3 { x: x as i64, y: y as i64, z: z as i64 }),
            },
        },
    }
}

/// What one `f` line contributes: a face over its first three index
/// tokens, in the default flat color; fewer than three is an error.
pub open spec fn face_line_val(data: Seq<u8>, from: int, le: int) -> Result<Face, MeshError> {
    match face_tokens_s(data, from, le, Seq::empty()) {
        Result::Err(e) => Result::Err(e),
        Result::Ok(toks) => if toks.len() < 3 {
            Result::Err(MeshError::MissingToken)
        } else {
            Result::Ok(
                Face {
                    a: toks[0] as usize,
                    b: toks[1] as usize,
                    c: toks[2] as usize,
                    color: Color { r: 240u8, g: 240u8, b: 240u8, a: 255u8 },
                },
            )
        },
    }
}

/// How one line extends the vertex and face lists: `v` and `f` lines
/// contribute, anything else is ignored.
pub open spec fn parse_line_s(data: Seq<u8>, ls: int, le: int, vs: Seq<Vec3>, fs: Seq<Face>) -> Result<
    (Seq<Vec3>, Seq<Face>),
    MeshError,
> {
    let ts = skip_spaces_s(data, ls, le);
    if ts >= le {
        Result::Ok((vs, fs))
    } else {
        let te = token_end_s(data, ts, le);
        if te == ts + 1 && data[ts] == 118 {
            match vertex_line_val(data, te, le) {
                Result::Err(e) => Result::Err(e),
                Result::Ok(v) => Result::Ok((vs.push(v), fs)),
            }
        } else if te == ts + 1 && data[ts] == 102 {
            match face_line_val(data, te, le) {
                Result::Err(e) => Result::Err(e),
                Result::Ok(f) => Result::Ok((vs, fs.push(f))),
            }
        } else {
            Result::Ok((vs, fs))
        }
    }
}

/// The whole line-by-line scan.
pub open spec fn parse_obj_s(data: Seq<u8>, i: int, vs: Seq<Vec3>, fs: Seq<Face>) -> Result<
    (Seq<Vec3>, Seq<Face>),
    MeshError,
>
    decreases data.len() - i + 1,
{
    if i < 0 || i >= data.len() {
        Result::Ok((vs, fs))
    } else {
        let le0 = line_end_s(data, i);
        let le1: int = if le0 < i {
            i
        } else {
            le0
        };
        let le: int = if le1 > data.len() {
            data.len() as int
        } else {
            le1
        };
        match parse_line_s(data, i, le, vs, fs) {
            Result::Err(e) => Result::Err(e),
            Result::Ok((vs2, fs2)) => parse_obj_s(data, le + 1, vs2, fs2),
        }
    }
}

/// Every face's indices address a vertex list of length `n`.
pub open spec fn all_faces_ok(fs: Seq<Face>, n: int) -> bool {
    forall|k: int| 0 <= k < fs.len() ==> face_ok(#[trigger] fs[k], n)
}

/// What loading a mesh source yields: the parsed vertex and face lists,
/// with every face index checked against the final vertex count.
pub open spec fn spec_load(data: Seq<u8>) -> Result<(Seq<Vec3>, Seq<Face>), MeshError> {
    match parse_obj_s(data, 0, Seq::empty(), Seq::empty()) {
        Result::Err(e) => Result::Err(e),
        Result::Ok((vs, fs)) => if all_faces_ok(fs, vs.len() as int) {
            Result::Ok((vs, fs))
        } else {
            Result::Err(MeshError::BadIndex)
        },
    }
}

fn skip_spaces(data: &[u8], i: usize, e: usize) -> (r: usize)
    requires
        i <= e <= data@.len(),
    ensures
        r as int == skip_spaces_s(data@, i as int, e as int),
        i <= r <= e,
{
    let mut j: usize = i;
    while j < e && (data[j] == 32 || data[j] == 9 || data[j] == 13)
        invariant
            i <= j <= e <= data@.len(),
            skip_spaces_s(data@, i as int, e as int) == skip_spaces_s(data@, j as int, e as int),
        decreases e - j,
    {
        j = j + 1;
    }
    j
}

fn token_end(data: &[u8], i: usize, e: usize) -> (r: usize)
    requires
        i <= e <= data@.len(),
    ensures
        r as int == token_end_s(data@, i as int, e as int),
        i <= r <= e,
{
    let mut j: usize = i;
    while j < e && !(data[j] == 32 || data[j] == 9 || data[j] == 13)
        invariant
            i <= j <= e <= data@.len(),
            token_end_s(data@, i as int, e as int) == token_end_s(data@, j as int, e as int),
        decreases e - j,
    {
        j = j + 1;
    }
    j
}

fn digits_end(data: &[u8], i: usize, e: usize) -> (r: usize)
    requires
        i <= e <= data@.len(),
    ensures
        r as int == digits_end_s(data@, i as int, e as int),
        i <= r <= e,
{
    let mut j: usize = i;
    while j < e && 48 <= data[j] && data[j] <= 57
        invariant
            i <= j <= e <= data@.len(),
            digits_end_s(data@, i as int, e as int) == digits_end_s(data@, j as int, e as int),
        decreases e - j,
    {
        j = j + 1;
    }
    j
}

fn slash_end(data: &[u8], i: usize, e: usize) -> (r: usize)
    requires
        i <= e <= data@.len(),
    ensures
        r as int == slash_end_s(data@, i as int, e as int),
        i <= r <= e,
{
    let mut j: usize = i;
    while j < e && data[j] != 47
        invariant
            i <= j <= e <= data@.len(),
            slash_end_s(data@, i as int, e as int) == slash_end_s(data@, j as int, e as int),
        decreases e - j,
    {
        j = j + 1;
    }
    j
}

fn line_end(data: &[u8], i: usize) -> (r: usize)
    requires
        i <= data@.len(),
    ensures
        r as int == line_end_s(data@, i as int),
        i <= r <= data@.len(),
{
    let mut j: usize = i;
    while j < data.len() && data[j] != 10
        invariant
            i <= j <= data@.len(),
            line_end_s(data@, i as int) == line_end_s(data@, j as int),
        decreases data@.len() - j,
    {
        j = j + 1;
    }
    j
}

/// Once the digit scan has failed, lengthening the run cannot repair it.
proof fn lemma_digits_none(data: Seq<u8>, s: int, m: int, e: int)
    requires
        s <= m <= e,
        digits_val_capped(data, s, m) is None,
    ensures
        digits_val_capped(data, s, e) is None,
    decreases e - m,
{
    if e > m {
        lemma_digits_none(data, s, m, e - 1);
    }
}

fn parse_digits(data: &[u8], s: usize, e: usize) -> (r: Option<u64>)
    requires
        s <= e <= data@.len(),
    ensures
        match r {
            Option::Some(v) => digits_val_capped(data@, s as int, e as int) == Option::Some(
                v as int,
            ) && v <= 0xffff_ffff,
            Option::None => digits_val_capped(data@, s as int, e as int) is None,
        },
{
    let mut acc: u64 = 0;
    let mut j: usize = s;
    while j < e
        invariant
            s <= j <= e <= data@.len(),
            acc <= 0xffff_ffff,
            digits_val_capped(data@, s as int, j as int) == Option::Some(acc as int),
        decreases e - j,
    {
        let c = data[j];
        if c < 48 || c > 57 {
            proof {
                lemma_digits_none(data@, s as int, j + 1, e as int);
            }
            return Option::None;
        }
        let v: u64 = acc * 10 + ((c - 48) as u64);
        if v > 0xffff_ffff {
            proof {
                lemma_digits_none(data@, s as int, j + 1, e as int);
            }
            return Option::None;
        }
        acc = v;
        j = j + 1;
    }
    Option::Some(acc)
}

fn pow10_val(k: usize) -> (r: u64)
    requires
        k <= 9,
    ensures
        r as int == pow10(k as nat),
        1 <= r <= 1_000_000_000,
{
    proof {
        assert(pow10(0) == 1);
        assert(pow10(1) == 10);
        assert(pow10(2) == 100);
        assert(pow10(3) == 1000);
        assert(pow10(4) == 10000);
        assert(pow10(5) == 100000);
        assert(pow10(6) == 1000000);
        assert(pow10(7) == 10000000);
        assert(pow10(8) == 100000000);
        assert(pow10(9) == 1000000000);
    }
    if k == 0 {
        1
    } else if k == 1 {
        10
    } else if k == 2 {
        100
    } else if k == 3 {
        1000
    } else if k == 4 {
        10000
    } else if k == 5 {
        100000
    } else if k == 6 {
        1000000
    } else if k == 7 {
        10000000
    } else if k == 8 {
        100000000
    } else {
        1000000000
    }
}

fn parse_index_token(data: &[u8], ts: usize, te: usize) -> (r: Option<u64>)
    requires
        ts <= te <= data@.len(),
    ensures
        match r {
            Option::Some(v) => idx_val(data@, ts as int, te as int) == Option::Some(v as int) && v
                <= 0xffff_ffff,
            Option::None => idx_val(data@, ts as int, te as int) is None,
        },
{
    let se = slash_end(data, ts, te);
    if se == ts {
        Option::None
    } else {
        parse_digits(data, ts, se)
    }
}

fn parse_decimal_token(data: &[u8], ts: usize, te: usize) -> (r: Option<i64>)
    requires
        ts <= te <= data@.len(),
    ensures
        match r {
            Option::Some(v) => dec_token_val(data@, ts as int, te as int) == Option::Some(v as int),
            Option::None => dec_token_val(data@, ts as int, te as int) is None,
        },
{
    if ts >= te {
        return Option::None;
    }
    let c0 = data[ts];
    let neg = c0 == 45;
    let s1: usize = if c0 == 45 || c0 == 43 {
        ts + 1
    } else {
        ts
    };
    let ip_end = digits_end(data, s1, te);
    if ip_end == te {
        if ip_end == s1 {
            return Option::None;
        }
        match parse_digits(data, s1, ip_end) {
            Option::None => Option::None,
            Option::Some(ip) => {
                let m: i64 = (ip as i64) * 65536;
                proof {
                    assert(dec_mag(data@, s1 as int, te as int) == Option::Some(ip as int * 65536));
                }
                if neg {
                    Option::Some(-m)
                } else {
                    Option::Some(m)
                }
            },
        }
    } else if data[ip_end] == 46 {
        let fstart = ip_end + 1;
        let fend = digits_end(data, fstart, te);
        if fend != te {
            return Option::None;
        }
        if ip_end == s1 && fend == fstart {
            return Option::None;
        }
        let k: usize = if fend - fstart > 9 {
            9
        } else {
            fend - fstart
        };
        let ipo = parse_digits(data, s1, ip_end);
        let fro = parse_digits(data, fstart, fstart + k);
        match (ipo, fro) {
            (Option::Some(ip), Option::Some(fr)) => {
                let p = pow10_val(k);
                let fr_scaled: u64 = (fr * 65536) / p;
                proof {
                    crate::fixed::lemma_tdiv_bound(
                        fr as int * 65536,
                        p as int,
                        0xffff_ffffint * 65536,
                    );
                }
                let m: i64 = (ip as i64) * 65536 + (fr_scaled as i64);
                proof {
                    assert(fr_scaled as int == tdiv(fr as int * 65536, pow10(k as nat)));
                    assert(dec_mag(data@, s1 as int, te as int) == Option::Some(
                        ip as int * 65536 + tdiv(fr as int * 65536, pow10(k as nat)),
                    ));
                }
                if neg {
                    Option::Some(-m)
                } else {
                    Option::Some(m)
                }
            },
            _ => Option::None,
        }
    } else {
        Option::None
    }
}

fn parse_vertex_coord(data: &[u8], from: usize, le: usize) -> (r: Result<(i64, usize), MeshError>)
    requires
        from <= le <= data@.len(),
    ensures
        match r {
            Result::Ok((v, e1)) => vertex_coord(data@, from as int, le as int) == Result::Ok::<
                (int, int),
                MeshError,
            >((v as int, e1 as int)) && from <= e1 <= le && -0x100_0000 <= v <= 0x100_0000,
            Result::Err(e) => vertex_coord(data@, from as int, le as int) == Result::Err::<
                (int, int),
                MeshError,
            >(e),
        },
{
    let ts = skip_spaces(data, from, le);
    if ts >= le {
        return Result::Err(MeshError::MissingToken);
    }
    let te = token_end(data, ts, le);
    match parse_decimal_token(data, ts, te) {
        Option::None => Result::Err(MeshError::BadNumber),
        Option::Some(v) => {
            if v > 0x100_0000 || v < -0x100_0000 {
                Result::Err(MeshError::OutOfRange)
            } else {
                Result::Ok((v, te))
            }
        },
    }
}

fn parse_vertex_line(data: &[u8], from: usize, le: usize) -> (r: Result<Vec3, MeshError>)
    requires
        from <= le <= data@.len(),
    ensures
        match r {
            Result::Ok(v) => vertex_line_val(data@, from as int, le as int) == Result::Ok::<
                Vec3,
                MeshError,
            >(v) && vec3_small(v),
            Result::Err(e) => vertex_line_val(data@, from as int, le as int) == Result::Err::<
                Vec3,
                MeshError,
            >(e),
        },
{
    let c1 = parse_vertex_coord(data, from, le);
    match c1 {
        Result::Err(e) => Result::Err(e),
        Result::Ok((x, e1)) => {
            let c2 = parse_vertex_coord(data, e1, le);
            match c2 {
                Result::Err(e) => Result::Err(e),
                Result::Ok((y, e2)) => {
                    let c3 = parse_vertex_coord(data, e2, le);
                    match c3 {
                        Result::Err(e) => Result::Err(e),
                        Result::Ok((z, _e3)) => Result::Ok(Vec3 { x, y, z }),
                    }
                },
            }
        },
    }
}

fn parse_face_line(data: &[u8], from: usize, le: usize) -> (r: Result<Face, MeshError>)
    requires
        from <= le <= data@.len(),
    ensures
        match r {
            Result::Ok(f) => face_line_val(data@, from as int, le as int) == Result::Ok::<
                Face,
                MeshError,
            >(f),
            Result::Err(e) => face_line_val(data@, from as int, le as int) == Result::Err::<
                Face,
                MeshError,
            >(e),
        },
{
    let ghost mut acc: Seq<int> = Seq::empty();
    let mut count: usize = 0;
    let mut a: u64 = 0;
    let mut b: u64 = 0;
    let mut c: u64 = 0;
    let mut j: usize = from;
    loop
        invariant
            from <= j <= le <= data@.len(),
            count <= j,
            count == acc.len(),
            count >= 1 ==> a as int == acc[0] && a <= 0xffff_ffff,
            count >= 2 ==> b as int == acc[1] && b <= 0xffff_ffff,
            count >= 3 ==> c as int == acc[2] && c <= 0xffff_ffff,
            face_tokens_s(data@, from as int, le as int, Seq::empty()) == face_tokens_s(
                data@,
                j as int,
                le as int,
                acc,
            ),
        ensures
            face_tokens_s(data@, from as int, le as int, Seq::empty()) == Result::Ok::<
                Seq<int>,
                MeshError,
            >(acc),
            count == acc.len(),
            count >= 1 ==> a as int == acc[0] && a <= 0xffff_ffff,
            count >= 2 ==> b as int == acc[1] && b <= 0xffff_ffff,
            count >= 3 ==> c as int == acc[2] && c <= 0xffff_ffff,
        decreases le - j,
    {
        let ts = skip_spaces(data, j, le);
        if ts >= le {
            break ;
        }
        let te0 = token_end(data, ts, le);
        let te1: usize = if te0 <= ts {
            ts + 1
        } else {
            te0
        };
        let te: usize = if te1 > le {
            le
        } else {
            te1
        };
        match parse_index_token(data, ts, te) {
            Option::None => {
                return Result::Err(MeshError::BadNumber);
            },
            Option::Some(v) => {
                if count == 0 {
                    a = v;
                } else if count == 1 {
                    b = v;
                } else if count == 2 {
                    c = v;
                }
                proof {
                    acc = acc.push(v as int);
                }
                count = count + 1;
                j = te;
            },
        }
    }
    if count < 3 {
        Result::Err(MeshError::MissingToken)
    } else {
        Result::Ok(
            Face {
                a: a as usize,
                b: b as usize,
                c: c as usize,
                color: Color { r: 240, g: 240, b: 240, a: 255 },
            },
        )
    }
}

impl Mesh {
    /// The built-in cube scene: eight corners, twelve colored faces, and an
    /// untouched transform state.
    pub fn new_cube() -> (m: Mesh)
        ensures
            m.vertices@ == cube_vertices(),
            m.faces@ == cube_faces(),
            m.rotation == (Vec3 { x: 0, y: 0, z: 0 }),
            m.scale == (Vec3 { x: 65536, y: 65536, z: 65536 }),
            m.translation == (Vec3 { x: 0, y: 0, z: 0 }),
            mesh_wf(m),
    {
        let mut vertices: Vec<Vec3> = Vec::new();
        vertices.push(Vec3 { x: -65536, y: -65536, z: -65536 });
        vertices.push(Vec3 { x: -65536, y: 65536, z: -65536 });
        vertices.push(Vec3 { x: 65536, y: 65536, z: -65536 });
        vertices.push(Vec3 { x: 65536, y: -65536, z: -65536 });
        vertices.push(Vec3 { x: 65536, y: 65536, z: 65536 });
        vertices.push(Vec3 { x: 65536, y: -65536, z: 65536 });
        vertices.push(Vec3 { x: -65536, y: 65536, z: 65536 });
        vertices.push(Vec3 { x: -65536, y: -65536, z: 65536 });
        let mut faces: Vec<Face> = Vec::new();
        faces.push(Face { a: 1, b: 2, c: 3, color: Color { r: 255, g: 0, b: 0, a: 255 } });
        faces.push(Face { a: 1, b: 3, c: 4, color: Color { r: 255, g: 0, b: 0, a: 255 } });
        faces.push(Face { a: 4, b: 3, c: 5, color: Color { r: 0, g: 255, b: 0, a: 255 } });
        faces.push(Face { a: 4, b: 5, c: 6, color: Color { r: 0, g: 255, b: 0, a: 255 } });
        faces.push(Face { a: 6, b: 5, c: 7, color: Color { r: 0, g: 0, b: 255, a: 255 } });
        faces.push(Face { a: 6, b: 7, c: 8, color: Color { r: 0, g: 0, b: 255, a: 255 } });
        faces.push(Face { a: 8, b: 7, c: 2, color: Color { r: 255, g: 255, b: 0, a: 255 } });
        faces.push(Face { a: 8, b: 2, c: 1, color: Color { r: 255, g: 255, b: 0, a: 255 } });
        faces.push(Face { a: 7, b: 5, c: 3, color: Color { r: 0, g: 255, b: 255, a: 255 } });
        faces.push(Face { a: 7, b: 3, c: 2, color: Color { r: 0, g: 255, b: 255, a: 255 } });
        faces.push(Face { a: 8, b: 1, c: 4, color: Color { r: 255, g: 0, b: 255, a: 255 } });
        faces.push(Face { a: 8, b: 4, c: 6, color: Color { r: 255, g: 0, b: 255, a: 255 } });
        proof {
            assert(vertices@ =~= cube_vertices());
            assert(faces@ =~= cube_faces());
        }
        Mesh {
            vertices,
            faces,
            rotation: Vec3 { x: 0, y: 0, z: 0 },
            scale: Vec3 { x: 65536, y: 65536, z: 65536 },
            translation: Vec3 { x: 0, y: 0, z: 0 },
        }
    }

    /// Parses a line-oriented mesh source: `v x y z` lines define vertices,
    /// `f i1 i2 i3` lines define faces by 1-based vertex index (only the
    /// part of each token before a slash is read), and any other line is
    /// ignored. A malformed or oversized number, a vertex or face line with
    /// too few tokens, or a face index outside `[1, vertex_count]` is a
    /// load error. The surrounding application reads the file; this
    /// consumes its bytes.
    pub fn from_source(data: &[u8]) -> (r: Result<Mesh, MeshError>)
        requires
            data@.len() < usize::MAX,
        ensures
            r matches Result::Ok(m) ==> spec_load(data@) == Result::Ok::<
                (Seq<Vec3>, Seq<Face>),
                MeshError,
            >((m.vertices@, m.faces@)) && mesh_wf(m) && m.rotation == (Vec3 { x: 0, y: 0, z: 0 })
                && m.scale == (Vec3 { x: 65536, y: 65536, z: 65536 }) && m.translation == (Vec3 {
                x: 0,
                y: 0,
                z: 0,
            }),
            r matches Result::Err(e) ==> spec_load(data@) == Result::Err::<
                (Seq<Vec3>, Seq<Face>),
                MeshError,
            >(e),
    {
        let mut vertices: Vec<Vec3> = Vec::new();
        let mut faces: Vec<Face> = Vec::new();
        let mut i: usize = 0;
        proof {
            assert(vertices@ =~= Seq::<Vec3>::empty());
            assert(faces@ =~= Seq::<Face>::empty());
        }
        while i < data.len()
            invariant
                i <= data@.len() + 1,
                data@.len() < usize::MAX,
                parse_obj_s(data@, 0, Seq::empty(), Seq::empty()) == parse_obj_s(
                    data@,
                    i as int,
                    vertices@,
                    faces@,
                ),
                forall|k: int| 0 <= k < vertices@.len() ==> vec3_small(#[trigger] vertices@[k]),
            decreases data@.len() + 1 - i,
        {
            let le = line_end(data, i);
            let ghost vs0 = vertices@;
            let ghost fs0 = faces@;
            let ts = skip_spaces(data, i, le);
            if ts < le {
                let te = token_end(data, ts, le);
                let cls = data[ts];
                if te == ts + 1 && cls == 118 {
                    match parse_vertex_line(data, te, le) {
                        Result::Err(e) => {
                            proof {
                                assert(parse_line_s(data@, i as int, le as int, vs0, fs0)
                                    == Result::Err::<(Seq<Vec3>, Seq<Face>), MeshError>(e));
                                assert(parse_obj_s(data@, i as int, vs0, fs0) == Result::Err::<
                                    (Seq<Vec3>, Seq<Face>),
                                    MeshError,
                                >(e));
                            }
                            return Result::Err(e);
                        },
                        Result::Ok(v) => {
                            vertices.push(v);
                            proof {
                                assert(parse_line_s(data@, i as int, le as int, vs0, fs0)
                                    == Result::Ok::<(Seq<Vec3>, Seq<Face>), MeshError>(
                                    (vs0.push(v), fs0),
                                ));
                            }
                        },
                    }
                } else if te == ts + 1 && cls == 102 {
                    match parse_face_line(data, te, le) {
                        Result::Err(e) => {
                            proof {
                                assert(parse_line_s(data@, i as int, le as int, vs0, fs0)
                                    == Result::Err::<(Seq<Vec3>, Seq<Face>), MeshError>(e));
                                assert(parse_obj_s(data@, i as int, vs0, fs0) == Result::Err::<
                                    (Seq<Vec3>, Seq<Face>),
                                    MeshError,
                                >(e));
                            }
                            return Result::Err(e);
                        },
                        Result::Ok(f) => {
                            faces.push(f);
                            proof {
                                assert(parse_line_s(data@, i as int, le as int, vs0, fs0)
                                    == Result::Ok::<(Seq<Vec3>, Seq<Face>), MeshError>(
                                    (vs0, fs0.push(f)),
                                ));
                            }
                        },
                    }
                } else {
                    proof {
                        assert(parse_line_s(data@, i as int, le as int, vs0, fs0) == Result::Ok::<
                            (Seq<Vec3>, Seq<Face>),
                            MeshError,
                        >((vs0, fs0)));
                    }
                }
            } else {
                proof {
                    assert(parse_line_s(data@, i as int, le as int, vs0, fs0) == Result::Ok::<
                        (Seq<Vec3>, Seq<Face>),
                        MeshError,
                    >((vs0, fs0)));
                }
            }
            i = le + 1;
        }
        proof {
            assert(parse_obj_s(data@, i as int, vertices@, faces@) == Result::Ok::<
                (Seq<Vec3>, Seq<Face>),
                MeshError,
            >((vertices@, faces@)));
        }
        let n = vertices.len();
        let mut k: usize = 0;
        while k < faces.len()
            invariant
                k <= faces@.len(),
                n == vertices@.len(),
                forall|j: int| 0 <= j < k ==> face_ok(#[trigger] faces@[j], n as int),
                parse_obj_s(data@, 0, Seq::empty(), Seq::empty()) == Result::Ok::<
                    (Seq<Vec3>, Seq<Face>),
                    MeshError,
                >((vertices@, faces@)),
                forall|j: int| 0 <= j < vertices@.len() ==> vec3_small(#[trigger] vertices@[j]),
            decreases faces@.len() - k,
        {
            let f = faces[k];
            if f.a == 0 || f.a > n || f.b == 0 || f.b > n || f.c == 0 || f.c > n {
                proof {
                    assert(!face_ok(faces@[k as int], n as int));
                    assert(!all_faces_ok(faces@, n as int));
                }
                return Result::Err(MeshError::BadIndex);
            }
            k = k + 1;
        }
        proof {
            assert(all_faces_ok(faces@, n as int));
        }
        Result::Ok(
            Mesh {
                vertices,
                faces,
                rotation: Vec3 { x: 0, y: 0, z: 0 },
                scale: Vec3 { x: 65536, y: 65536, z: 65536 },
                translation: Vec3 { x: 0, y: 0, z: 0 },
            },
        )
    }
}

} // verus!
