//! Output file names for tiles.
//!
//! Each tile is written as `<stem>_<row>_<col>.png`, where `stem` is the
//! source file's base name with its extension stripped. Names are a pure
//! function of the stem and the grid position, so a repeated run produces
//! the same names and overwrites instead of duplicating.

use vstd::prelude::*;

verus! {

use vstd::arithmetic::div_mod::lemma_fundamental_div_mod;
use vstd::string::StringExecFns;

/// The decimal digit character for `d`, which must be 0 through 9.
pub open spec fn spec_digit_char(d: int) -> char {
    if d == 0 {
        '0'
    } else if d == 1 {
        '1'
    } else if d == 2 {
        '2'
    } else if d == 3 {
        '3'
    } else if d == 4 {
        '4'
    } else if d == 5 {
        '5'
    } else if d == 6 {
        '6'
    } else if d == 7 {
        '7'
    } else if d == 8 {
        '8'
    } else {
        '9'
    }
}

/// The decimal representation of `n`, most significant digit first, with
/// no leading zeros (a single `'0'` for zero).
pub open spec fn spec_decimal(n: nat) -> Seq<char>
    decreases n,
{
    if n < 10 {
        seq![spec_digit_char(n as int)]
    } else {
        spec_decimal(n / 10) + seq![spec_digit_char((n % 10) as int)]
    }
}

/// The output file name for the tile at `(row, col)` of a source whose
/// base name is `stem`.
pub open spec fn spec_tile_name(stem: Seq<char>, row: u32, col: u32) -> Seq<char> {
    stem + seq!['_'] + spec_decimal(row as nat) + seq!['_'] + spec_decimal(col as nat) + seq![
        '.',
        'p',
        'n',
        'g',
    ]
}

/// The one-character string for a single decimal digit.
fn digit_str(d: u32) -> (s: &'static str)
    requires
        d < 10,
    ensures
        s@ == seq![spec_digit_char(d as int)],
{
    proof {
        reveal_strlit("0");
        reveal_strlit("1");
        reveal_strlit("2");
        reveal_strlit("3");
        reveal_strlit("4");
        reveal_strlit("5");
        reveal_strlit("6");
        reveal_strlit("7");
        reveal_strlit("8");
        reveal_strlit("9");
    }
    let s = match d {
        0 => "0",
        1 => "1",
        2 => "2",
        3 => "3",
        4 => "4",
        5 => "5",
        6 => "6",
        7 => "7",
        8 => "8",
        _ => "9",
    };
    proof {
        assert(s@ =~= seq![spec_digit_char(d as int)]);
    }
    s
}

/// Appends the decimal representation of `n` to `out`.
pub fn push_decimal(out: &mut String, n: u32)
    ensures
        final(out)@ == old(out)@ + spec_decimal(n as nat),
    decreases n,
{
    let ghost entry = out@;
    if n >= 10 {
        push_decimal(out, n / 10);
    }
    out.append(digit_str(n % 10));
    proof {
        assert(out@ =~= entry + spec_decimal(n as nat));
    }
}

/// Renders `n` in decimal.
pub fn u32_to_string(n: u32) -> (s: String)
    ensures
        s@ == spec_decimal(n as nat),
{
    let mut s = String::new();
    push_decimal(&mut s, n);
    proof {
        assert(s@ =~= spec_decimal(n as nat));
    }
    s
}

/// Builds the output file name `<stem>_<row>_<col>.png`.
pub fn tile_file_name(stem: &str, row: u32, col: u32) -> (name: String)
    ensures
        name@ == spec_tile_name(stem@, row, col),
{
    proof {
        reveal_strlit("_");
        reveal_strlit(".png");
    }
    let mut name = stem.to_owned();
    name.append("_");
    push_decimal(&mut name, row);
    name.append("_");
    push_decimal(&mut name, col);
    name.append(".png");
    proof {
        assert(name@ =~= spec_tile_name(stem@, row, col));
    }
    name
}

/// Determinism of output names: the name of a tile depends only on the
/// source stem and the tile's grid position, so running the same request
/// twice yields identical names — a repeated batch overwrites its earlier
/// output rather than adding new files.
pub proof fn lemma_names_deterministic(
    first: Seq<char>,
    second: Seq<char>,
    stem: Seq<char>,
    row: u32,
    col: u32,
)
    requires
        first == spec_tile_name(stem, row, col),
        second == spec_tile_name(stem, row, col),
    ensures
        first == second,
{
}

/// A decimal representation never contains the separator `'_'`.
proof fn lemma_decimal_no_underscore(n: nat)
    ensures
        forall|j: int| 0 <= j < spec_decimal(n).len() ==> spec_decimal(n)[j] != '_',
    decreases n,
{
    if n >= 10 {
        lemma_decimal_no_underscore(n / 10);
        assert forall|j: int| 0 <= j < spec_decimal(n).len() implies spec_decimal(n)[j] != '_' by {
            if j < spec_decimal(n / 10).len() {
                assert(spec_decimal(n)[j] == spec_decimal(n / 10)[j]);
            }
        }
    }
}

/// Decimal representations are one-to-one.
proof fn lemma_decimal_injective(a: nat, b: nat)
    requires
        spec_decimal(a) == spec_decimal(b),
    ensures
        a == b,
    decreases a,
{
    if a < 10 && b < 10 {
        assert(spec_decimal(a)[0] == spec_digit_char(a as int));
        assert(spec_decimal(b)[0] == spec_digit_char(b as int));
    } else if a < 10 {
        assert(spec_decimal(b).len() == spec_decimal(b / 10).len() + 1);
        assert(false);
    } else if b < 10 {
        assert(spec_decimal(a).len() == spec_decimal(a / 10).len() + 1);
        assert(false);
    } else {
        let pa = spec_decimal(a / 10);
        let pb = spec_decimal(b / 10);
        assert(spec_decimal(a) == pa + seq![spec_digit_char((a % 10) as int)]);
        assert(spec_decimal(b) == pb + seq![spec_digit_char((b % 10) as int)]);
        assert(pa.len() == pb.len());
        assert(pa =~= pb) by {
            assert(forall|j: int|
                0 <= j < pa.len() ==> pa[j] == spec_decimal(a)[j] && pb[j] == spec_decimal(b)[j]);
        }
        lemma_decimal_injective(a / 10, b / 10);
        assert(spec_decimal(a).last() == spec_digit_char((a % 10) as int));
        assert(spec_decimal(b).last() == spec_digit_char((b % 10) as int));
        assert(a % 10 == b % 10);
        lemma_fundamental_div_mod(a as int, 10);
        lemma_fundamental_div_mod(b as int, 10);
    }
}

/// No collision between output names: for one source stem, two different
/// grid positions never produce the same file name — so the tiles of one
/// file can be written concurrently with no risk of one overwriting
/// another.
pub proof fn lemma_tile_name_injective(stem: Seq<char>, r1: u32, c1: u32, r2: u32, c2: u32)
    requires
        spec_tile_name(stem, r1, c1) == spec_tile_name(stem, r2, c2),
    ensures
        r1 == r2,
        c1 == c2,
{
    let n1 = spec_tile_name(stem, r1, c1);
    let n2 = spec_tile_name(stem, r2, c2);
    let ra = spec_decimal(r1 as nat);
    let rb = spec_decimal(r2 as nat);
    let ca = spec_decimal(c1 as nat);
    let cb = spec_decimal(c2 as nat);
    let base = stem.len() + 1;
    assert(n1.len() == stem.len() + 1 + ra.len() + 1 + ca.len() + 4);
    assert(n2.len() == stem.len() + 1 + rb.len() + 1 + cb.len() + 4);
    lemma_decimal_no_underscore(r1 as nat);
    lemma_decimal_no_underscore(r2 as nat);
    if ra.len() < rb.len() {
        let idx = base + ra.len();
        assert(n1[idx as int] == '_');
        assert(n2[idx as int] == rb[ra.len() as int]);
        assert(false);
    }
    if rb.len() < ra.len() {
        let idx = base + rb.len();
        assert(n2[idx as int] == '_');
        assert(n1[idx as int] == ra[rb.len() as int]);
        assert(false);
    }
    assert(ra =~= rb) by {
        assert(forall|j: int|
            0 <= j < ra.len() ==> ra[j] == n1[base + j] && rb[j] == n2[base + j]);
    }
    lemma_decimal_injective(r1 as nat, r2 as nat);
    let base2 = base + ra.len() + 1;
    assert(ca.len() == cb.len());
    assert(ca =~= cb) by {
        assert(forall|j: int|
            0 <= j < ca.len() ==> ca[j] == n1[base2 + j] && cb[j] == n2[base2 + j]);
    }
    lemma_decimal_injective(c1 as nat, c2 as nat);
}

} // verus!
