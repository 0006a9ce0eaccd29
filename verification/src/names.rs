//! Debug-style names of token types, as `format!("{:?}", ..)` spells them.

use vstd::prelude::*;

use crate::types::TokenType;

verus! {

pub open spec fn digit_char(d: nat) -> char {
    if d == 0 {
        '0'
    } else if d == 1 {
        '1'
    } else if d == 2 {
        '2'
    } else if d == 3 {
        '3'
    } else if d == 4 {
        '4'
    } else if d == 5 {
        '5'
    } else if d == 6 {
        '6'
    } else if d == 7 {
        '7'
    } else if d == 8 {
        '8'
    } else {
        '9'
    }
}

/// The decimal digits of `n`, most significant first.
pub open spec fn decimal(n: nat) -> Seq<char>
    decreases n,
{
    if n < 10 {
        seq![digit_char(n)]
    } else {
        decimal(n / 10).push(digit_char(n % 10))
    }
}

/// The name that `Debug` gives a token type.
pub open spec fn token_name(t: TokenType) -> Seq<char> {
    match t {
        TokenType::ProductionUnit => "ProductionUnit"@,
        TokenType::Energy => "Energy"@,
        TokenType::QualityPoint => "QualityPoint"@,
        TokenType::Innovation => "Innovation"@,
        TokenType::Heat => "Heat"@,
        TokenType::Waste => "Waste"@,
        TokenType::Pollution => "Pollution"@,
        TokenType::ContractsTierCompleted(n) => "ContractsTierCompleted("@ + decimal(n as nat)
            + ")"@,
        TokenType::DeckSlots => "DeckSlots"@,
    }
}

fn digit_str(d: u32) -> (r: &'static str)
    requires
        d < 10,
    ensures
        r@ == seq![digit_char(d as nat)],
{
    proof {
        reveal_strlit("0");
        reveal_strlit("1");
        reveal_strlit("2");
        reveal_strlit("3");
        reveal_strlit("4");
        reveal_strlit("5");
        reveal_strlit("6");
        reveal_strlit("7");
        reveal_strlit("8");
        reveal_strlit("9");
    }
    if d == 0 {
        "0"
    } else if d == 1 {
        "1"
    } else if d == 2 {
        "2"
    } else if d == 3 {
        "3"
    } else if d == 4 {
        "4"
    } else if d == 5 {
        "5"
    } else if d == 6 {
        "6"
    } else if d == 7 {
        "7"
    } else if d == 8 {
        "8"
    } else {
        "9"
    }
}

/// Appends the decimal digits of `n`.
pub fn push_decimal(s: &mut String, n: u32)
    ensures
        final(s)@ == old(s)@ + decimal(n as nat),
    decreases n,
{
    if n >= 10 {
        push_decimal(s, n / 10);
    }
    s.append(digit_str(n % 10));
    proof {
        if n >= 10 {
            assert(old(s)@ + decimal(n as nat) =~= old(s)@ + decimal((n / 10) as nat) + seq![
                digit_char((n % 10) as nat),
            ]);
        } else {
            assert(decimal(n as nat) == seq![digit_char(n as nat)]);
        }
    }
}

/// The `Debug` name of a token type.
pub fn token_type_name(t: TokenType) -> (r: String)
    ensures
        r@ == token_name(t),
{
    match t {
        TokenType::ProductionUnit => String::from_str("ProductionUnit"),
        TokenType::Energy => String::from_str("Energy"),
        TokenType::QualityPoint => String::from_str("QualityPoint"),
        TokenType::Innovation => String::from_str("Innovation"),
        TokenType::Heat => String::from_str("Heat"),
        TokenType::Waste => String::from_str("Waste"),
        TokenType::Pollution => String::from_str("Pollution"),
        TokenType::ContractsTierCompleted(n) => {
            let mut s = String::from_str("ContractsTierCompleted(");
            push_decimal(&mut s, n);
            s.append(")");
            s
        },
        TokenType::DeckSlots => String::from_str("DeckSlots"),
    }
}

/// The `Debug` name of a token type followed by `suffix`.
pub fn token_name_with(t: TokenType, suffix: &str) -> (r: String)
    ensures
        r@ == token_name(t) + suffix@,
{
    let mut s = token_type_name(t);
    s.append(suffix);
    s
}

} // verus!
