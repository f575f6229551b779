//! Codecs between short textual tokens and the closed enumerations: the
//! transaction-code alphabet. A code string maps character by character; one
//! unrecognized character discards the whole string.

use vstd::prelude::*;
use crate::model::TransactionCode;

verus! {

/// The code a single letter stands for, if any.
pub open spec fn code_of_char(c: char) -> Option<TransactionCode> {
    if c == 'P' {
        Some(TransactionCode::P)
    } else if c == 'S' {
        Some(TransactionCode::S)
    } else if c == 'V' {
        Some(TransactionCode::V)
    } else if c == 'A' {
        Some(TransactionCode::A)
    } else if c == 'D' {
        Some(TransactionCode::D)
    } else if c == 'F' {
        Some(TransactionCode::F)
    } else if c == 'I' {
        Some(TransactionCode::I)
    } else if c == 'M' {
        Some(TransactionCode::M)
    } else if c == 'C' {
        Some(TransactionCode::C)
    } else if c == 'E' {
        Some(TransactionCode::E)
    } else if c == 'H' {
        Some(TransactionCode::H)
    } else if c == 'O' {
        Some(TransactionCode::O)
    } else if c == 'X' {
        Some(TransactionCode::X)
    } else if c == 'G' {
        Some(TransactionCode::G)
    } else if c == 'L' {
        Some(TransactionCode::L)
    } else if c == 'W' {
        Some(TransactionCode::W)
    } else if c == 'Z' {
        Some(TransactionCode::Z)
    } else if c == 'J' {
        Some(TransactionCode::J)
    } else if c == 'K' {
        Some(TransactionCode::K)
    } else if c == 'U' {
        Some(TransactionCode::U)
    } else {
        None
    }
}

/// What a code string denotes: one code per character, or nothing at all as
/// soon as any character falls outside the alphabet.
pub open spec fn codes_of(s: Seq<char>) -> Option<Seq<TransactionCode>> {
    if forall|i: int| 0 <= i < s.len() ==> code_of_char(#[trigger] s[i]) is Some {
        Some(Seq::new(s.len(), |i: int| code_of_char(s[i])->Some_0))
    } else {
        None
    }
}

fn exec_code_of_char(c: char) -> (r: Option<TransactionCode>)
    ensures
        r == code_of_char(c),
{
    match c {
        'P' => Some(TransactionCode::P),
        'S' => Some(TransactionCode::S),
        'V' => Some(TransactionCode::V),
        'A' => Some(TransactionCode::A),
        'D' => Some(TransactionCode::D),
        'F' => Some(TransactionCode::F),
        'I' => Some(TransactionCode::I),
        'M' => Some(TransactionCode::M),
        'C' => Some(TransactionCode::C),
        'E' => Some(TransactionCode::E),
        'H' => Some(TransactionCode::H),
        'O' => Some(TransactionCode::O),
        'X' => Some(TransactionCode::X),
        'G' => Some(TransactionCode::G),
        'L' => Some(TransactionCode::L),
        'W' => Some(TransactionCode::W),
        'Z' => Some(TransactionCode::Z),
        'J' => Some(TransactionCode::J),
        'K' => Some(TransactionCode::K),
        'U' => Some(TransactionCode::U),
        _ => None,
    }
}

impl TransactionCode {
    /// Maps each character of `codes` to its transaction code; absent as a
    /// whole when any character is unrecognized.
    pub fn from_str(codes: &str) -> (r: Option<Vec<TransactionCode>>)
        ensures
            match r {
                Some(v) => codes_of(codes@) == Some(v@),
                None => codes_of(codes@) is None,
            },
    {
        let n = codes.unicode_len();
        let mut out: Vec<TransactionCode> = Vec::new();
        let mut i: usize = 0;
        while i < n
            invariant
                n == codes@.len(),
                0 <= i <= n,
                out@.len() == i,
                forall|j: int|
                    0 <= j < i ==> code_of_char(#[trigger] codes@[j]) == Some(out@[j]),
            decreases n - i,
        {
            let c = codes.get_char(i);
            match exec_code_of_char(c) {
                Some(code) => {
                    out.push(code);
                },
                None => {
                    return None;
                },
            }
            i = i + 1;
        }
        proof {
            assert(out@ =~= Seq::new(codes@.len(), |i: int| code_of_char(codes@[i])->Some_0));
        }
        Some(out)
    }
}

/// One character outside the alphabet discards the whole code string; a
/// string of recognized characters maps character by character.
pub proof fn lemma_codes_all_or_nothing(s: Seq<char>)
    ensures
        (exists|i: int| 0 <= i < s.len() && code_of_char(#[trigger] s[i]) is None) ==> codes_of(
            s,
        ) is None,
        codes_of(s) is Some ==> codes_of(s)->Some_0.len() == s.len() && forall|i: int|
            0 <= i < s.len() ==> Some(codes_of(s)->Some_0[i]) == code_of_char(#[trigger] s[i]),
{
}

} // verus!
