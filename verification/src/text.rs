//! Numbers as text.
use vstd::prelude::*;
use vstd::string::StringExecFns;

verus! {

/// The character of a decimal digit.
pub open spec fn digit(d: nat) -> char {
    if d == 0 {
        '0'
    } else if d == 1 {
        '1'
    } else if d == 2 {
        '2'
    } else if d == 3 {
        '3'
    } else if d == 4 {
        '4'
    } else if d == 5 {
        '5'
    } else if d == 6 {
        '6'
    } else if d == 7 {
        '7'
    } else if d == 8 {
        '8'
    } else {
        '9'
    }
}

/// The decimal digits of `n`, most significant first, without leading zeros.
pub open spec fn decimal(n: nat) -> Seq<char>
    decreases n,
{
    if n < 10 {
        seq![digit(n)]
    } else {
        decimal(n / 10).push(digit(n % 10))
    }
}

/// `digits` with zeros put in front until there are at least `width` characters.
pub open spec fn zero_padded(digits: Seq<char>, width: nat) -> Seq<char> {
    if digits.len() >= width {
        digits
    } else {
        Seq::new((width - digits.len()) as nat, |i: int| '0') + digits
    }
}

/// The string of one decimal digit.
fn digit_str(d: u8) -> (r: &'static str)
    requires
        d < 10,
    ensures
        r@ == seq![digit(d as nat)],
{
    proof {
        reveal_strlit("0");
        reveal_strlit("1");
        reveal_strlit("2");
        reveal_strlit("3");
        reveal_strlit("4");
        reveal_strlit("5");
        reveal_strlit("6");
        reveal_strlit("7");
        reveal_strlit("8");
        reveal_strlit("9");
    }
    let r = if d == 0 {
        "0"
    } else if d == 1 {
        "1"
    } else if d == 2 {
        "2"
    } else if d == 3 {
        "3"
    } else if d == 4 {
        "4"
    } else if d == 5 {
        "5"
    } else if d == 6 {
        "6"
    } else if d == 7 {
        "7"
    } else if d == 8 {
        "8"
    } else {
        "9"
    };
    r
}

/// The last `taken` digits of `n`, padded with zeros in front where `n` has fewer.
spec fn tail_digits(n: nat, taken: nat) -> Seq<char>
    decreases taken,
{
    if taken == 0 {
        Seq::empty()
    } else {
        tail_digits(n / 10, (taken - 1) as nat).push(digit(n % 10))
    }
}

/// What is left of `n` when its last `taken` digits are cut off.
spec fn cut(n: nat, taken: nat) -> nat
    decreases taken,
{
    if taken == 0 {
        n
    } else {
        cut(n / 10, (taken - 1) as nat)
    }
}

/// Cutting one more digit divides what is left by ten, and the digit cut
/// goes in front of those cut before.
proof fn lemma_cut_one_more(n: nat, taken: nat)
    ensures
        cut(n, taken + 1) == cut(n, taken) / 10,
        tail_digits(n, taken + 1) == seq![digit(cut(n, taken) % 10)] + tail_digits(n, taken),
        tail_digits(n, taken).len() == taken,
    decreases taken,
{
    if taken == 0 {
        assert(tail_digits(n, 1) == tail_digits(n / 10, 0).push(digit(n % 10)));
        assert(tail_digits(n, 1) =~= seq![digit(n % 10)] + tail_digits(n, 0));
    } else {
        lemma_cut_one_more(n / 10, (taken - 1) as nat);
        assert(cut(n, taken + 1) == cut(n / 10, taken));
    }
}

/// Once what is left of `n` is a single digit, that digit followed by the
/// digits cut is the decimal form of `n`.
proof fn lemma_decimal_by_cutting(n: nat, taken: nat)
    requires
        cut(n, taken) < 10,
        taken == 0 || cut(n, (taken - 1) as nat) >= 10,
    ensures
        decimal(n) == seq![digit(cut(n, taken))] + tail_digits(n, taken),
    decreases taken,
{
    if taken > 0 {
        lemma_cut_monotone(n, (taken - 1) as nat);
        if taken > 1 {
            lemma_cut_shift(n, (taken - 1) as nat);
        }
        lemma_decimal_by_cutting(n / 10, (taken - 1) as nat);
    }
}

/// What is left after cutting digits is no more than the number itself.
proof fn lemma_cut_monotone(n: nat, taken: nat)
    ensures
        cut(n, taken) <= n,
    decreases taken,
{
    if taken > 0 {
        lemma_cut_monotone(n / 10, (taken - 1) as nat);
    }
}

/// Cutting `taken` digits is cutting one digit and then the others.
proof fn lemma_cut_shift(n: nat, taken: nat)
    requires
        taken > 0,
    ensures
        cut(n, taken) == cut(n / 10, (taken - 1) as nat),
{
}

/// Writes a number in decimal, with zeros in front until there are at least
/// `width` digits.
pub fn decimal_padded(index: usize, width: usize) -> (r: String)
    ensures
        r@ == zero_padded(decimal(index as nat), width as nat),
{
    let mut digits: Vec<u8> = Vec::new();
    let mut rest: usize = index;
    let ghost n = index as nat;
    while rest >= 10
        invariant
            rest == cut(n, digits@.len()),
            digits@.len() == 0 || cut(n, (digits@.len() - 1) as nat) >= 10,
            forall|k: int| 0 <= k < digits@.len() ==> digits@[k] < 10,
            forall|k: int|
                0 <= k < digits@.len() ==> digit(digits@[k] as nat) == tail_digits(
                    n,
                    digits@.len(),
                )[digits@.len() - 1 - k],
            tail_digits(n, digits@.len()).len() == digits@.len(),
        decreases rest,
    {
        proof {
            lemma_cut_one_more(n, digits@.len());
        }
        let ghost before = digits@;
        digits.push((rest % 10) as u8);
        rest = rest / 10;
        proof {
            lemma_cut_one_more(n, before.len());
        }
    }
    proof {
        lemma_cut_one_more(n, digits@.len());
        lemma_decimal_by_cutting(n, digits@.len());
    }
    let ghost tail = tail_digits(n, digits@.len());
    let mut text: String = String::from_str("");
    proof {
        reveal_strlit("");
        reveal_strlit("0");
    }
    let mut zeros: usize = 0;
    let missing: usize = if digits.len() < width && width - digits.len() > 1 {
        width - digits.len() - 1
    } else {
        0
    };
    while zeros < missing
        invariant
            zeros <= missing,
            text@ == Seq::new(zeros as nat, |i: int| '0'),
        decreases missing - zeros,
    {
        proof {
            reveal_strlit("0");
        }
        text.append("0");
        zeros += 1;
    }
    text.append(digit_str(rest as u8));
    let mut k: usize = digits.len();
    while k > 0
        invariant
            k <= digits@.len(),
            tail.len() == digits@.len(),
            forall|j: int| 0 <= j < digits@.len() ==> digits@[j] < 10,
            forall|j: int|
                0 <= j < digits@.len() ==> digit(digits@[j] as nat) == tail[digits@.len() - 1
                    - j],
            text@ == Seq::new(missing as nat, |i: int| '0') + seq![digit(rest as nat)]
                + tail.subrange(0, digits@.len() - k),
        decreases k,
    {
        k -= 1;
        text.append(digit_str(digits[k]));
    }
    text
}


} // verus!
