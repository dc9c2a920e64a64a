//! The names under which the transports of a rendezvous are opened.
use vstd::prelude::*;
use vstd::string::*;

verus! {

/// The decimal digit for `d`.
pub open spec fn digit(d: nat) -> char
    recommends
        d < 10,
{
    seq!['0', '1', '2', '3', '4', '5', '6', '7', '8', '9'][d as int]
}

/// `n` in decimal, most significant digit first, without leading zeros.
pub open spec fn decimal(n: nat) -> Seq<char>
    decreases n,
{
    if n < 10 {
        seq![digit(n)]
    } else {
        decimal(n / 10).push(digit(n % 10))
    }
}

/// The name of the transport of conductor `index`: `sweet-reticulum-` and the index in decimal.
pub open spec fn conductor_name_spec(index: nat) -> Seq<char> {
    "sweet-reticulum-"@ + decimal(index)
}

/// The one-character string that holds the digit for `d`.
fn digit_str(d: usize) -> (s: &'static str)
    requires
        d < 10,
    ensures
        s@ == seq![digit(d as nat)],
{
    proof {
        reveal_strlit("0");
        reveal_strlit("1");
        reveal_strlit("2");
        reveal_strlit("3");
        reveal_strlit("4");
        reveal_strlit("5");
        reveal_strlit("6");
        reveal_strlit("7");
        reveal_strlit("8");
        reveal_strlit("9");
    }
    match d {
        0 => "0",
        1 => "1",
        2 => "2",
        3 => "3",
        4 => "4",
        5 => "5",
        6 => "6",
        7 => "7",
        8 => "8",
        _ => "9",
    }
}

/// Writes `n` in decimal behind `prefix`.
fn append_decimal(prefix: &str, n: usize) -> (s: String)
    ensures
        s@ == prefix@ + decimal(n as nat),
    decreases n,
{
    if n < 10 {
        let mut s: String = prefix.to_owned();
        s.append(digit_str(n));
        s
    } else {
        let mut s: String = append_decimal(prefix, n / 10);
        s.append(digit_str(n % 10));
        s
    }
}

/// The name under which the transport of conductor `index` is opened.
pub fn conductor_name(index: usize) -> (name: String)
    ensures
        name@ == conductor_name_spec(index as nat),
        name@.len() > 16,
        name@.take(16) == "sweet-reticulum-"@,
        read_decimal(name@.skip(16)) == index,
        name@[16] == '0' ==> index == 0,
{
    proof {
        lemma_conductor_name_reads_back(index as nat);
    }
    append_decimal("sweet-reticulum-", index)
}

/// The number that a row of decimal digits stands for, each digit by its place among the
/// characters.
pub open spec fn read_decimal(digits: Seq<char>) -> int
    decreases digits.len(),
{
    if digits.len() == 0 {
        0
    } else {
        10 * read_decimal(digits.drop_last()) + (digits.last() as int - '0' as int)
    }
}

/// A number that is written in decimal reads back as itself. It is written in digits alone, the
/// first of which is a zero only where the number is zero, and then nothing follows.
pub proof fn lemma_decimal_reads_back(n: nat)
    ensures
        read_decimal(decimal(n)) == n,
        decimal(n).len() >= 1,
        forall|i: int|
            0 <= i < decimal(n).len() ==> '0' as int <= (#[trigger] decimal(n)[i]) as int <= '9' as int,
        decimal(n)[0] == '0' ==> n == 0,
        n == 0 ==> decimal(n).len() == 1,
    decreases n,
{
    reveal_with_fuel(read_decimal, 2);
    if n < 10 {
        assert(decimal(n) == seq![digit(n)]);
        assert(decimal(n).last() == digit(n));
        assert(decimal(n).drop_last().len() == 0);
    } else {
        lemma_decimal_reads_back(n / 10);
        assert(decimal(n).drop_last() == decimal(n / 10));
        assert(decimal(n).last() == digit(n % 10));
        assert(decimal(n)[0] == decimal(n / 10)[0]);
    }
}

/// The name of a transport is `sweet-reticulum-` and behind it, in decimal, the index of the
/// conductor, which can be read back from it.
pub proof fn lemma_conductor_name_reads_back(index: nat)
    ensures
        conductor_name_spec(index).len() > 16,
        conductor_name_spec(index).take(16) == "sweet-reticulum-"@,
        conductor_name_spec(index).skip(16) == decimal(index),
        read_decimal(conductor_name_spec(index).skip(16)) == index,
        conductor_name_spec(index)[16] == '0' ==> index == 0,
        forall|i: int|
            16 <= i < conductor_name_spec(index).len() ==> '0' as int
                <= (#[trigger] conductor_name_spec(index)[i]) as int <= '9' as int,
{
    reveal_strlit("sweet-reticulum-");
    lemma_decimal_reads_back(index);
    assert("sweet-reticulum-"@.len() == 16);
    assert(conductor_name_spec(index).take(16) == "sweet-reticulum-"@);
    assert(conductor_name_spec(index).skip(16) == decimal(index));
    assert(conductor_name_spec(index)[16] == decimal(index)[0]);
    assert forall|i: int| 16 <= i < conductor_name_spec(index).len() implies '0' as int
        <= (#[trigger] conductor_name_spec(index)[i]) as int <= '9' as int by {
        assert(conductor_name_spec(index)[i] == decimal(index)[i - 16]);
    }
}

proof fn lemma_digit_injective(a: nat, b: nat)
    requires
        a < 10,
        b < 10,
        digit(a) == digit(b),
    ensures
        a == b,
{
}

/// No two numbers are written alike in decimal.
pub proof fn lemma_decimal_injective(a: nat, b: nat)
    requires
        decimal(a) == decimal(b),
    ensures
        a == b,
    decreases a,
{
    lemma_decimal_nonempty(a / 10);
    lemma_decimal_nonempty(b / 10);
    if a < 10 {
        assert(decimal(a).len() == 1);
        assert(b < 10);
        assert(decimal(a)[0] == digit(a));
        assert(decimal(b)[0] == digit(b));
        lemma_digit_injective(a, b);
    } else {
        assert(decimal(a).len() >= 2);
        assert(b >= 10);
        assert(decimal(a).drop_last() == decimal(a / 10));
        assert(decimal(b).drop_last() == decimal(b / 10));
        lemma_decimal_injective(a / 10, b / 10);
        assert(decimal(a).last() == digit(a % 10));
        assert(decimal(b).last() == digit(b % 10));
        lemma_digit_injective(a % 10, b % 10);
    }
}

proof fn lemma_decimal_nonempty(n: nat)
    ensures
        decimal(n).len() >= 1,
{
}

/// No two conductors of a rendezvous get transports of the same name.
pub proof fn lemma_conductor_names_distinct(i: nat, j: nat)
    requires
        i != j,
    ensures
        conductor_name_spec(i) != conductor_name_spec(j),
{
    if conductor_name_spec(i) == conductor_name_spec(j) {
        let prefix = "sweet-reticulum-"@;
        let len = prefix.len() as int;
        assert(conductor_name_spec(i).skip(len) == decimal(i));
        assert(conductor_name_spec(j).skip(len) == decimal(j));
        lemma_decimal_injective(i, j);
    }
}

} // verus!
