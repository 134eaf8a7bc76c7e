//! Short text forms of pieces and stacks.

use crate::board::{Piece, PieceType};
use vstd::prelude::*;
use vstd::string::StringExecFns;

verus! {

/// The letter of an archetype.
pub open spec fn type_letter(t: PieceType) -> char {
    match t {
        PieceType::Soldier => 'S',
        PieceType::Jester => 'J',
        PieceType::Commander => 'C',
        PieceType::Paladin => 'P',
        PieceType::Guard => 'G',
        PieceType::Dragon => 'D',
        PieceType::Ballista => 'B',
        PieceType::King => 'K',
    }
}

/// A piece as text: its letter, or `top+bottom` for a stack.
pub open spec fn stack_text(p: Piece) -> Seq<char> {
    match p.top {
        Some(t) => seq![type_letter(t), '+', type_letter(p.bottom)],
        None => seq![type_letter(p.bottom)],
    }
}

pub fn piece_to_char(piece_type: &PieceType) -> (r: String)
    ensures
        r@ == seq![type_letter(*piece_type)],
{
    let letter: &str = match piece_type {
        PieceType::Soldier => {
            proof {
                reveal_strlit("S");
            }
            "S"
        },
        PieceType::Jester => {
            proof {
                reveal_strlit("J");
            }
            "J"
        },
        PieceType::Commander => {
            proof {
                reveal_strlit("C");
            }
            "C"
        },
        PieceType::Paladin => {
            proof {
                reveal_strlit("P");
            }
            "P"
        },
        PieceType::Guard => {
            proof {
                reveal_strlit("G");
            }
            "G"
        },
        PieceType::Dragon => {
            proof {
                reveal_strlit("D");
            }
            "D"
        },
        PieceType::Ballista => {
            proof {
                reveal_strlit("B");
            }
            "B"
        },
        PieceType::King => {
            proof {
                reveal_strlit("K");
            }
            "K"
        },
    };
    String::from_str(letter)
}

pub fn display_stack(piece: &Piece) -> (r: String)
    ensures
        r@ == stack_text(*piece),
{
    let mut output = String::new();
    if let Some(top_piece) = piece.top {
        let top_text = piece_to_char(&top_piece);
        output.append(top_text.as_str());
        proof {
            reveal_strlit("+");
        }
        output.append("+");
    }
    let bottom_text = piece_to_char(&piece.bottom);
    output.append(bottom_text.as_str());
    assert(output@ =~= stack_text(*piece));
    output
}

} // verus!
