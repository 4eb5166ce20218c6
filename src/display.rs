use crate::scoring::{default_weights, position_weights};
use vstd::prelude::*;
use vstd::string::{StrSliceExecFns, StringExecFns};

verus! {

/// Terminal style of a matched position: bold white.
pub const STYLE_MATCH: &'static str = "\x1b[1;97m";

/// Terminal style of an unmatched position: bold gray.
pub const STYLE_MISS: &'static str = "\x1b[1;90m";

/// Terminal style reset.
pub const STYLE_RESET: &'static str = "\x1b[0m";

/// Gray ellipsis between the shown prefix and suffix.
pub const SEPARATOR: &'static str = "\x1b[1;90m..\x1b[0m";

/// Whether `score` holds the bit of weight `w`, that is, whether the
/// position of that weight matched.
pub open spec fn weight_bit_set(score: u8, w: u8) -> bool {
    score & (1u8 << w) != 0
}

/// One character in its style.
pub open spec fn styled(c: Seq<char>, matched: bool) -> Seq<char> {
    (if matched {
        STYLE_MATCH@
    } else {
        STYLE_MISS@
    }) + c + STYLE_RESET@
}

/// The first `n` characters from `start` of `candidate`, each styled by the
/// bit of the weight of scored position `first_position + k`.
pub open spec fn styled_run(
    candidate: Seq<char>,
    score: u8,
    start: int,
    first_position: int,
    n: nat,
) -> Seq<char>
    decreases n,
{
    if n == 0 {
        Seq::empty()
    } else {
        let k = n - 1;
        styled_run(candidate, score, start, first_position, k as nat) + styled(
            candidate.subrange(start + k, start + k + 1),
            weight_bit_set(score, default_weights()[first_position + k]),
        )
    }
}

/// The display form of a candidate: its first and last four characters, each
/// bright where `score` says the position matched and gray elsewhere.
pub open spec fn format_match_spec(candidate: Seq<char>, score: u8) -> Seq<char> {
    styled_run(candidate, score, 0, 0, 4) + SEPARATOR@ + styled_run(
        candidate,
        score,
        candidate.len() - 4,
        4,
        4,
    )
}

/// Render `candidate` with the positions that `score` marks as matched
/// highlighted.
pub fn format_match(candidate: &str, score: u8) -> (r: String)
    requires
        candidate.is_ascii(),
        candidate@.len() >= 4,
    ensures
        r@ == format_match_spec(candidate@, score),
{
    let w = position_weights();
    let n = candidate.unicode_len();
    let mut result = String::new();
    let mut part: usize = 0;
    while part < 2
        invariant
            part <= 2,
            w@ == default_weights(),
            n == candidate@.len(),
            n >= 4,
            candidate.is_ascii(),
            part == 0 ==> result@ == Seq::<char>::empty(),
            part == 1 ==> result@ == styled_run(candidate@, score, 0, 0, 4) + SEPARATOR@,
            part == 2 ==> result@ == format_match_spec(candidate@, score),
        decreases 2 - part,
    {
        let start: usize = if part == 0 { 0 } else { n - 4 };
        let ghost before = result@;
        let mut i: usize = 0;
        while i < 4
            invariant
                i <= 4,
                part < 2,
                w@ == default_weights(),
                n == candidate@.len(),
                n >= 4,
                start + 4 <= n,
                candidate.is_ascii(),
                result@ == before + styled_run(candidate@, score, start as int, 4 * part, i as nat),
            decreases 4 - i,
        {
            let weight = w[4 * part + i];
            assert(default_weights()[4 * part + i] < 8) by {
                assert(default_weights() =~= seq![7u8, 5, 3, 1, 0, 2, 4, 6]);
            }
            let matched = score & (1u8 << weight) != 0;
            result.append(if matched { STYLE_MATCH } else { STYLE_MISS });
            result.append(candidate.substring_ascii(start + i, start + i + 1));
            result.append(STYLE_RESET);
            assert(result@ =~= before + styled_run(
                candidate@,
                score,
                start as int,
                4 * part,
                (i + 1) as nat,
            ));
            i = i + 1;
        }
        if part == 0 {
            result.append(SEPARATOR);
        }
        part = part + 1;
    }
    result
}

} // verus!
