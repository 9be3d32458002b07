//! How numbers and states are written out as text.

use vstd::prelude::*;
use vstd::string::StringExecFns;

verus! {

/// The mark that stands for a task's state: a check mark where it is
/// completed, a cross where it is not.
pub open spec fn status_mark(completed: bool) -> Seq<char> {
    if completed {
        seq!['\u{2713}']
    } else {
        seq!['\u{2717}']
    }
}

/// The character of the decimal digit `d`.
pub open spec fn digit(d: nat) -> char
    recommends
        d < 10,
{
    seq!['0', '1', '2', '3', '4', '5', '6', '7', '8', '9'][d as int]
}

/// `n` written in decimal, without leading zeros.
pub open spec fn decimal(n: nat) -> Seq<char>
    decreases n,
{
    if n < 10 {
        seq![digit(n)]
    } else {
        decimal(n / 10).push(digit(n % 10))
    }
}

/// The message that says that no task carries `id`.
pub open spec fn not_found_text(id: nat) -> Seq<char> {
    "Task with ID "@ + decimal(id) + " not found."@
}

/// The status mark as text.
pub(crate) fn mark_text(completed: bool) -> (text: &'static str)
    ensures
        text@ == status_mark(completed),
{
    proof {
        reveal_strlit("\u{2713}");
        reveal_strlit("\u{2717}");
    }
    let text = if completed { "\u{2713}" } else { "\u{2717}" };
    assert(text@ =~= status_mark(completed));
    text
}

/// The decimal digit `d` as text.
fn digit_text(d: usize) -> (text: &'static str)
    requires
        d < 10,
    ensures
        text@ == seq![digit(d as nat)],
{
    proof {
        reveal_strlit("0");
        reveal_strlit("1");
        reveal_strlit("2");
        reveal_strlit("3");
        reveal_strlit("4");
        reveal_strlit("5");
        reveal_strlit("6");
        reveal_strlit("7");
        reveal_strlit("8");
        reveal_strlit("9");
    }
    let text = match d {
        0 => "0",
        1 => "1",
        2 => "2",
        3 => "3",
        4 => "4",
        5 => "5",
        6 => "6",
        7 => "7",
        8 => "8",
        _ => "9",
    };
    assert(text@ =~= seq![digit(d as nat)]);
    text
}

/// Writes `n` in decimal at the end of `text`.
pub(crate) fn append_decimal(text: &mut String, n: usize)
    ensures
        final(text)@ == old(text)@ + decimal(n as nat),
    decreases n,
{
    if n >= 10 {
        append_decimal(text, n / 10);
    }
    text.append(digit_text(n % 10));
    assert(text@ =~= old(text)@ + decimal(n as nat));
}

} // verus!
