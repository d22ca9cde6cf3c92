use vstd::prelude::*;
use vstd::string::StringExecFns;

verus! {

/// The character for the decimal digit `d`.
pub open spec fn digit_char(d: nat) -> char {
    seq!['0', '1', '2', '3', '4', '5', '6', '7', '8', '9'][d as int]
}

/// The decimal numeral of `n`, without leading zeros.
pub open spec fn decimal(n: nat) -> Seq<char>
    decreases n,
{
    if n < 10 {
        seq![digit_char(n)]
    } else {
        decimal(n / 10).push(digit_char(n % 10))
    }
}

/// The line that the output device prints for `value`: the word `out`, a
/// space, the value in decimal, and a line feed.
pub open spec fn output_text(value: u8) -> Seq<char> {
    seq!['o', 'u', 't', ' '] + decimal(value as nat) + seq!['\n']
}

/// The numeral of a single decimal digit.
fn digit_str(d: u8) -> (s: &'static str)
    requires
        d < 10,
    ensures
        s@ == seq![digit_char(d as nat)],
{
    proof {
        reveal_strlit("0");
        reveal_strlit("1");
        reveal_strlit("2");
        reveal_strlit("3");
        reveal_strlit("4");
        reveal_strlit("5");
        reveal_strlit("6");
        reveal_strlit("7");
        reveal_strlit("8");
        reveal_strlit("9");
    }
    let s = match d {
        0 => "0",
        1 => "1",
        2 => "2",
        3 => "3",
        4 => "4",
        5 => "5",
        6 => "6",
        7 => "7",
        8 => "8",
        _ => "9",
    };
    assert(s@ =~= seq![digit_char(d as nat)]);
    s
}

/// Formats the line that the output device prints for `value`.
pub fn output_line(value: u8) -> (line: String)
    ensures
        line@ == output_text(value),
{
    proof {
        reveal_strlit("out ");
        reveal_strlit("\n");
        reveal_with_fuel(decimal, 3);
    }
    let mut line = String::from_str("out ");
    assert(line@ =~= seq!['o', 'u', 't', ' ']);
    if value >= 100 {
        line.append(digit_str(value / 100));
    }
    if value >= 10 {
        line.append(digit_str((value / 10) % 10));
    }
    line.append(digit_str(value % 10));
    assert(line@ =~= seq!['o', 'u', 't', ' '] + decimal(value as nat));
    line.append("\n");
    assert(line@ =~= output_text(value));
    line
}

} // verus!
