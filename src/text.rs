use vstd::prelude::*;

verus! {

/// The decimal digit for `d < 10`.
pub open spec fn digit_char(d: nat) -> char {
    if d == 0 {
        '0'
    } else if d == 1 {
        '1'
    } else if d == 2 {
        '2'
    } else if d == 3 {
        '3'
    } else if d == 4 {
        '4'
    } else if d == 5 {
        '5'
    } else if d == 6 {
        '6'
    } else if d == 7 {
        '7'
    } else if d == 8 {
        '8'
    } else {
        '9'
    }
}

/// The decimal digits of `n`, most significant first, without leading zeros.
pub open spec fn digits(n: nat) -> Seq<char>
    decreases n,
{
    if n < 10 {
        seq![digit_char(n)]
    } else {
        digits(n / 10).push(digit_char(n % 10))
    }
}

/// The decimal text of `i`, with a leading `-` when negative.
pub open spec fn decimal(i: int) -> Seq<char> {
    if i < 0 {
        seq!['-'] + digits((-i) as nat)
    } else {
        digits(i as nat)
    }
}

fn digit_str(d: u128) -> (r: &'static str)
    requires
        d < 10,
    ensures
        r@ == seq![digit_char(d as nat)],
{
    proof {
        reveal_strlit("0");
        reveal_strlit("1");
        reveal_strlit("2");
        reveal_strlit("3");
        reveal_strlit("4");
        reveal_strlit("5");
        reveal_strlit("6");
        reveal_strlit("7");
        reveal_strlit("8");
        reveal_strlit("9");
    }
    if d == 0 {
        "0"
    } else if d == 1 {
        "1"
    } else if d == 2 {
        "2"
    } else if d == 3 {
        "3"
    } else if d == 4 {
        "4"
    } else if d == 5 {
        "5"
    } else if d == 6 {
        "6"
    } else if d == 7 {
        "7"
    } else if d == 8 {
        "8"
    } else {
        "9"
    }
}

/// The decimal digits of `n`.
fn nat_text(n: u128) -> (r: String)
    ensures
        r@ == digits(n as nat),
{
    let mut m: u128 = n;
    let mut acc = String::new();
    loop
        invariant
            digits(n as nat) == digits(m as nat) + acc@,
        decreases m,
    {
        let d = m % 10;
        let next = String::from_str(digit_str(d)).concat(acc.as_str());
        proof {
            if m >= 10 {
                assert(digits(m as nat) == digits((m / 10) as nat).push(digit_char(d as nat)));
                assert(digits(m as nat) + acc@ =~= digits((m / 10) as nat) + next@);
            } else {
                assert(digits(m as nat) + acc@ =~= next@);
            }
        }
        acc = next;
        if m < 10 {
            return acc;
        }
        m = m / 10;
    }
}

/// The decimal text of `i`, with a leading `-` when negative.
pub fn int_text(i: i128) -> (r: String)
    ensures
        r@ == decimal(i as int),
{
    if i < 0 {
        let m: u128 = ((-(i + 1)) as u128) + 1;
        let s = String::from_str("-").concat(nat_text(m).as_str());
        proof {
            reveal_strlit("-");
        }
        s
    } else {
        nat_text(i as u128)
    }
}

} // verus!
