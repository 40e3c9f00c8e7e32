//! The names of the fixture files.

use vstd::prelude::*;

verus! {

/// The decimal digits of `n` in ASCII, without leading zeros.
pub open spec fn decimal_digits(n: nat) -> Seq<u8>
    decreases n,
{
    if n < 10 {
        seq![(48 + n) as u8]
    } else {
        decimal_digits(n / 10).push((48 + n % 10) as u8)
    }
}

/// The ASCII bytes of `block`.
pub open spec fn block_prefix() -> Seq<u8> {
    seq![98u8, 108u8, 111u8, 99u8, 107u8]
}

/// The ASCII bytes of `.json`.
pub open spec fn json_suffix() -> Seq<u8> {
    seq![46u8, 106u8, 115u8, 111u8, 110u8]
}

/// The ASCII bytes of `withdrawal_info.json`.
pub open spec fn withdrawal_info_name() -> Seq<u8> {
    seq![
        119u8, 105u8, 116u8, 104u8, 100u8, 114u8, 97u8, 119u8, 97u8, 108u8, 95u8, 105u8, 110u8,
        102u8, 111u8,
    ] + json_suffix()
}

/// The ASCII bytes of `pairing_test_data.json`.
pub open spec fn pairing_test_data_name() -> Seq<u8> {
    seq![
        112u8, 97u8, 105u8, 114u8, 105u8, 110u8, 103u8, 95u8, 116u8, 101u8, 115u8, 116u8, 95u8,
        100u8, 97u8, 116u8, 97u8,
    ] + json_suffix()
}

/// The name of the file of the block with this number: `block`, the number
/// in decimal, `.json`.
pub open spec fn block_file_name_spec(block_number: nat) -> Seq<u8> {
    block_prefix() + decimal_digits(block_number) + json_suffix()
}

/// The decimal digits of `n`.
pub fn decimal(n: u32) -> (r: Vec<u8>)
    ensures
        r@ == decimal_digits(n as nat),
{
    let mut r: Vec<u8> = Vec::new();
    let mut rest: u32 = n;
    r.push(48u8 + (rest % 10) as u8);
    rest = rest / 10;
    proof {
        assert(r@ =~= seq![(48 + n % 10) as u8]);
        if n >= 10 {
            assert(decimal_digits(n as nat) =~= decimal_digits(rest as nat) + r@);
        }
    }
    while rest > 0
        invariant
            rest > 0 ==> decimal_digits(n as nat) == decimal_digits(rest as nat) + r@,
            rest == 0 ==> decimal_digits(n as nat) == r@,
        decreases rest,
    {
        let ghost before = r@;
        let ghost whole = rest;
        let digit: u8 = 48u8 + (rest % 10) as u8;
        r.insert(0, digit);
        rest = rest / 10;
        proof {
            assert(r@ =~= seq![digit] + before);
            if whole >= 10 {
                assert(decimal_digits(whole as nat) == decimal_digits(rest as nat).push(digit));
                assert(decimal_digits(rest as nat).push(digit) + before =~= decimal_digits(
                    rest as nat,
                ) + r@);
            } else {
                assert(decimal_digits(whole as nat) =~= seq![digit]);
            }
        }
    }
    r
}

/// Appends `tail` to `name`.
fn append(name: &mut Vec<u8>, tail: &Vec<u8>)
    ensures
        final(name)@ == old(name)@ + tail@,
{
    let mut i: usize = 0;
    while i < tail.len()
        invariant
            i <= tail.len(),
            name@ == old(name)@ + tail@.take(i as int),
        decreases tail.len() - i,
    {
        name.push(tail[i]);
        proof {
            tail@.lemma_take_succ_push(i as int);
            assert(name@ =~= old(name)@ + tail@.take(i + 1));
        }
        i += 1;
    }
    proof {
        assert(tail@.take(tail.len() as int) =~= tail@);
    }
}

/// The name of the file that holds the block with this number.
pub fn block_file_name(block_number: u32) -> (name: Vec<u8>)
    ensures
        name@ == block_file_name_spec(block_number as nat),
{
    let mut name: Vec<u8> = vec![98u8, 108u8, 111u8, 99u8, 107u8];
    let digits = decimal(block_number);
    let suffix: Vec<u8> = vec![46u8, 106u8, 115u8, 111u8, 110u8];
    proof {
        assert(name@ =~= block_prefix());
        assert(suffix@ =~= json_suffix());
    }
    append(&mut name, &digits);
    append(&mut name, &suffix);
    name
}

/// The name of the file that holds the withdrawals.
pub fn withdrawal_info_file_name() -> (name: Vec<u8>)
    ensures
        name@ == withdrawal_info_name(),
{
    let name: Vec<u8> = vec![
        119u8, 105u8, 116u8, 104u8, 100u8, 114u8, 97u8, 119u8, 97u8, 108u8, 95u8, 105u8, 110u8,
        102u8, 111u8, 46u8, 106u8, 115u8, 111u8, 110u8,
    ];
    proof {
        assert(name@ =~= withdrawal_info_name());
    }
    name
}

/// The name of the file that holds the pairing points.
pub fn pairing_test_data_file_name() -> (name: Vec<u8>)
    ensures
        name@ == pairing_test_data_name(),
{
    let name: Vec<u8> = vec![
        112u8, 97u8, 105u8, 114u8, 105u8, 110u8, 103u8, 95u8, 116u8, 101u8, 115u8, 116u8, 95u8,
        100u8, 97u8, 116u8, 97u8, 46u8, 106u8, 115u8, 111u8, 110u8,
    ];
    proof {
        assert(name@ =~= pairing_test_data_name());
    }
    name
}

/// Two block numbers give two file names: no block file overwrites another.
pub proof fn lemma_block_file_names_differ(a: nat, b: nat)
    requires
        a != b,
    ensures
        block_file_name_spec(a) != block_file_name_spec(b),
{
    lemma_decimal_digits_differ(a, b);
    let da = decimal_digits(a);
    let db = decimal_digits(b);
    if block_file_name_spec(a) == block_file_name_spec(b) {
        let fa = block_file_name_spec(a);
        let fb = block_file_name_spec(b);
        assert(fa.len() == fb.len());
        assert(da.len() == db.len());
        assert forall|i: int| 0 <= i < da.len() implies da[i] == db[i] by {
            assert(fa[5 + i] == da[i]);
            assert(fb[5 + i] == db[i]);
        }
        assert(da =~= db);
    }
}

/// Two numbers have two decimal forms.
pub proof fn lemma_decimal_digits_differ(a: nat, b: nat)
    requires
        a != b,
    ensures
        decimal_digits(a) != decimal_digits(b),
    decreases a,
{
    let da = decimal_digits(a);
    let db = decimal_digits(b);
    if da == db {
        if a < 10 && b < 10 {
            assert(da[0] == (48 + a) as u8);
            assert(db[0] == (48 + b) as u8);
        } else if a >= 10 && b >= 10 {
            assert(da.drop_last() =~= decimal_digits(a / 10));
            assert(db.drop_last() =~= decimal_digits(b / 10));
            assert(da.last() == (48 + a % 10) as u8);
            assert(db.last() == (48 + b % 10) as u8);
            if a / 10 != b / 10 {
                lemma_decimal_digits_differ(a / 10, b / 10);
            }
        } else if a >= 10 {
            lemma_decimal_digits_nonempty(a / 10);
            assert(da.len() >= 2);
            assert(db.len() == 1);
        } else {
            lemma_decimal_digits_nonempty(b / 10);
            assert(db.len() >= 2);
            assert(da.len() == 1);
        }
    }
}

/// A decimal form has a digit.
pub proof fn lemma_decimal_digits_nonempty(n: nat)
    ensures
        decimal_digits(n).len() >= 1,
    decreases n,
{
    if n >= 10 {
        lemma_decimal_digits_nonempty(n / 10);
    }
}

} // verus!
