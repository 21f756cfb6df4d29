use vstd::prelude::*;
use vstd::string::StringExecFns;

verus! {

/// The character of the alternating test pattern at row `r`, column `c`, for
/// a given phase: a mark where exactly one of "odd row" and "column parity
/// matches the phase" holds, a space elsewhere. Successive phases swap the
/// marked columns, so the pattern appears to flicker.
pub open spec fn checker_char(phase: int, r: int, c: int) -> char {
    if (r % 2 == 1) != (c % 2 == phase % 2) {
        'X'
    } else {
        ' '
    }
}

/// Characters of columns `[1, c)` of row `r` of the pattern.
pub open spec fn sp_checker_row(phase: int, r: int, c: int) -> Seq<char>
    decreases c,
{
    if c <= 1 {
        Seq::empty()
    } else {
        sp_checker_row(phase, r, c - 1) + seq![checker_char(phase, r, c - 1)]
    }
}

/// Rows `[1, r)` of the pattern, each 43 columns wide and closed by a
/// newline.
pub open spec fn sp_checker_rows(phase: int, r: int) -> Seq<char>
    decreases r,
{
    if r <= 1 {
        Seq::empty()
    } else {
        sp_checker_rows(phase, r - 1) + sp_checker_row(phase, r - 1, 44) + seq!['\n']
    }
}

/// The full 19-row test frame for a phase.
pub open spec fn sp_checker_frame(phase: int) -> Seq<char> {
    sp_checker_rows(phase, 20)
}

/// Builds one frame of the alternating test pattern.
pub fn checker_frame(phase: usize) -> (t: String)
    ensures
        t@ == sp_checker_frame(phase as int),
{
    let mut t = String::new();
    proof {
        assert(t@ =~= sp_checker_rows(phase as int, 1));
    }
    let mut r: usize = 1;
    while r < 20
        invariant
            1 <= r <= 20,
            t@ == sp_checker_rows(phase as int, r as int),
        decreases 20 - r,
    {
        let mut c: usize = 1;
        proof {
            assert(t@ =~= sp_checker_rows(phase as int, r as int)
                + sp_checker_row(phase as int, r as int, 1));
        }
        while c < 44
            invariant
                1 <= c <= 44,
                1 <= r < 20,
                t@ == sp_checker_rows(phase as int, r as int)
                    + sp_checker_row(phase as int, r as int, c as int),
            decreases 44 - c,
        {
            if (r % 2 == 1) ^ (c % 2 == phase % 2) {
                t.append("X");
            } else {
                t.append(" ");
            }
            proof {
                reveal_strlit("X");
                reveal_strlit(" ");
                assert("X"@ =~= seq!['X']);
                assert(" "@ =~= seq![' ']);
                assert(t@ =~= sp_checker_rows(phase as int, r as int)
                    + sp_checker_row(phase as int, r as int, c as int + 1));
            }
            c += 1;
        }
        t.append("\n");
        proof {
            reveal_strlit("\n");
            assert("\n"@ =~= seq!['\n']);
            assert(t@ =~= sp_checker_rows(phase as int, r as int + 1));
        }
        r += 1;
    }
    t
}

} // verus!
