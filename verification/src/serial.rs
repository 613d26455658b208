use vstd::prelude::*;
use crate::types::address::Address;

verus! {

/// `256` to the power `n`.
pub open spec fn pow256(n: nat) -> nat
    decreases n,
{
    if n == 0 {
        1
    } else {
        256 * pow256((n - 1) as nat)
    }
}

/// The number that the bytes spell, the first byte counting most.
pub open spec fn be_value(bytes: Seq<u8>) -> nat
    decreases bytes.len(),
{
    if bytes.len() == 0 {
        0
    } else {
        be_value(bytes.drop_last()) * 256 + bytes.last() as nat
    }
}

/// The four bytes that say, in the serial form of a value, that it is an address.
pub open spec fn tag_address() -> Seq<u8> {
    seq![0u8, 0u8, 0u8, 18u8]
}

/// The four bytes that say that an address is of an account.
pub open spec fn tag_account() -> Seq<u8> {
    seq![0u8, 0u8, 0u8, 0u8]
}

/// The four bytes that say that an address is of a contract.
pub open spec fn tag_contract() -> Seq<u8> {
    seq![0u8, 0u8, 0u8, 1u8]
}

/// The four bytes that say that the key of an account is of the one kind
/// that there is.
pub open spec fn tag_key() -> Seq<u8> {
    seq![0u8, 0u8, 0u8, 0u8]
}

/// The bytes before the key in the serial form of an address of that kind.
pub open spec fn serial_head(is_contract: bool) -> Seq<u8> {
    if is_contract {
        tag_address() + tag_contract()
    } else {
        tag_address() + tag_account() + tag_key()
    }
}

/// The address that the bytes are the serial form of, if they are one: the
/// head of an account or of a contract, and then the 32 bytes of the key.
pub open spec fn parse_address(bytes: Seq<u8>) -> Option<Address> {
    if bytes.len() == 40 && bytes.subrange(0, 8) == serial_head(true) {
        Some(
            Address {
                is_contract: true,
                hi: be_value(bytes.subrange(8, 24)) as u128,
                lo: be_value(bytes.subrange(24, 40)) as u128,
            },
        )
    } else if bytes.len() == 44 && bytes.subrange(0, 12) == serial_head(false) {
        Some(
            Address {
                is_contract: false,
                hi: be_value(bytes.subrange(12, 28)) as u128,
                lo: be_value(bytes.subrange(28, 44)) as u128,
            },
        )
    } else {
        None
    }
}

/// Sixteen bytes spell a number that fits `u128`.
pub proof fn lemma_be_value_bound(bytes: Seq<u8>)
    ensures
        be_value(bytes) < pow256(bytes.len()),
        bytes.len() <= 16 ==> be_value(bytes) <= u128::MAX,
    decreases bytes.len(),
{
    if bytes.len() > 0 {
        lemma_be_value_bound(bytes.drop_last());
    }
    if bytes.len() <= 16 {
        lemma_pow256_rises(bytes.len(), 16);
        lemma_pow256_16();
    }
}

/// Powers of 256 rise with the exponent.
pub proof fn lemma_pow256_rises(m: nat, n: nat)
    requires
        m <= n,
    ensures
        0 < pow256(m) <= pow256(n),
    decreases n,
{
    if m < n {
        lemma_pow256_rises(m, (n - 1) as nat);
    } else if n > 0 {
        lemma_pow256_rises((m - 1) as nat, (n - 1) as nat);
    }
}

/// `256` to the sixteenth is one more than the largest `u128`.
pub proof fn lemma_pow256_16()
    ensures
        pow256(16) == u128::MAX + 1,
        pow256(15) == 0x1_00_0000_0000_0000_0000_0000_0000_0000,
{
    reveal_with_fuel(pow256, 17);
}

/// The number that the sixteen bytes of `bytes` from `start` on spell.
fn read_u128(bytes: &Vec<u8>, start: usize) -> (r: u128)
    requires
        start + 16 <= bytes.len(),
    ensures
        r == be_value(bytes@.subrange(start as int, start + 16)),
{
    let mut value: u128 = 0;
    let mut i: usize = 0;
    while i < 16
        invariant
            0 <= i <= 16,
            start + 16 <= bytes.len(),
            value == be_value(bytes@.subrange(start as int, start + i)),
        decreases 16 - i,
    {
        let ghost before = bytes@.subrange(start as int, start + i);
        let ghost after = bytes@.subrange(start as int, start + i + 1);
        proof {
            assert(after.drop_last() =~= before);
            assert(after.last() == bytes@[start + i]);
            lemma_be_value_bound(after);
        }
        value = value * 256 + bytes[start + i] as u128;
        i = i + 1;
    }
    value
}

/// Whether the bytes of `bytes` from `start` on begin with `head`.
fn begins_with(bytes: &Vec<u8>, head: &Vec<u8>) -> (b: bool)
    ensures
        b == (head.len() <= bytes.len() && bytes@.subrange(0, head.len() as int) == head@),
{
    if head.len() > bytes.len() {
        return false;
    }
    let mut i: usize = 0;
    while i < head.len()
        invariant
            0 <= i <= head.len() <= bytes.len(),
            forall|j: int| 0 <= j < i ==> bytes@[j] == head@[j],
        decreases head.len() - i,
    {
        if bytes[i] != head[i] {
            assert(bytes@.subrange(0, head.len() as int)[i as int] != head@[i as int]);
            return false;
        }
        i = i + 1;
    }
    assert(bytes@.subrange(0, head.len() as int) =~= head@);
    true
}

/// The bytes before the key in the serial form of an address of that kind.
fn head_of(is_contract: bool) -> (head: Vec<u8>)
    ensures
        head@ == serial_head(is_contract),
{
    let mut head: Vec<u8> = Vec::new();
    head.push(0);
    head.push(0);
    head.push(0);
    head.push(18);
    head.push(0);
    head.push(0);
    head.push(0);
    if is_contract {
        head.push(1);
        assert(head@ =~= serial_head(true));
    } else {
        head.push(0);
        head.push(0);
        head.push(0);
        head.push(0);
        head.push(0);
        assert(head@ =~= serial_head(false));
    }
    head
}

/// The address that `bytes` are the serial form of, if they are one.
pub fn address_from_bytes(bytes: &Vec<u8>) -> (r: Option<Address>)
    ensures
        r == parse_address(bytes@),
{
    if bytes.len() == 40 && begins_with(bytes, &head_of(true)) {
        Some(Address { is_contract: true, hi: read_u128(bytes, 8), lo: read_u128(bytes, 24) })
    } else if bytes.len() == 44 && begins_with(bytes, &head_of(false)) {
        Some(Address { is_contract: false, hi: read_u128(bytes, 12), lo: read_u128(bytes, 28) })
    } else {
        None
    }
}

/// Puts after `out` the sixteen bytes that spell `x`.
fn write_u128(out: &mut Vec<u8>, x: u128)
    ensures
        final(out)@.len() == old(out)@.len() + 16,
        final(out)@.subrange(0, old(out)@.len() as int) == old(out)@,
        be_value(final(out)@.subrange(old(out)@.len() as int, old(out)@.len() as int + 16)) == x,
{
    let ghost start = out@.len() as int;
    let ghost head = out@;
    let mut unit: u128 = 0x1_00_0000_0000_0000_0000_0000_0000_0000;
    let mut i: usize = 0;
    proof {
        lemma_pow256_16();
        assert(out@.subrange(start, start) =~= Seq::<u8>::empty());
        assert(out@.subrange(0, start) =~= head);
        assert(x as int / (256 * unit as int) == 0) by (nonlinear_arith)
            requires
                0 <= x < 256 * unit,
                unit > 0,
        ;
    }
    while i < 16
        invariant
            0 <= i <= 16,
            0 <= start,
            out@.len() == start + i,
            out@.subrange(0, start) == head,
            i < 16 ==> unit == pow256((15 - i) as nat),
            i < 16 ==> be_value(out@.subrange(start, start + i)) == x as int / (256 * unit as int),
            i == 16 ==> be_value(out@.subrange(start, start + i)) == x,
        decreases 16 - i,
    {
        let ghost written = out@.subrange(start, start + i);
        proof {
            lemma_pow256_rises((15 - i) as nat, 15);
            lemma_pow256_16();
        }
        let shifted: u128 = x / unit;
        let digit: u8 = (shifted % 256) as u8;
        out.push(digit);
        proof {
            let next = out@.subrange(start, start + i + 1);
            assert(next.drop_last() =~= written);
            assert(next.last() == digit);
            assert(out@.subrange(0, start) =~= head);
            vstd::arithmetic::div_mod::lemma_div_denominator(x as int, unit as int, 256);
            assert(unit as int * 256 == 256 * unit as int);
            vstd::arithmetic::div_mod::lemma_fundamental_div_mod(shifted as int, 256);
            assert(be_value(next) == shifted);
        }
        if i < 15 {
            proof {
                assert(unit == 256 * pow256((14 - i) as nat));
            }
            unit = unit / 256;
        } else {
            assert(unit == 1) by {
                reveal_with_fuel(pow256, 2);
            }
            assert(shifted == x) by (nonlinear_arith)
                requires
                    shifted as int == x as int / unit as int,
                    unit == 1,
            ;
            assert(be_value(out@.subrange(start, start + i + 1)) == x);
        }
        i = i + 1;
    }
}

/// The serial form of `address`, from which `address_from_bytes` gives it back.
pub fn address_to_bytes(address: &Address) -> (bytes: Vec<u8>)
    ensures
        parse_address(bytes@) == Some(*address),
        bytes@.len() == if address.is_contract {
            40int
        } else {
            44int
        },
        bytes@.subrange(0, serial_head(address.is_contract).len() as int) == serial_head(
            address.is_contract,
        ),
{
    let mut bytes = head_of(address.is_contract);
    let ghost head = bytes@;
    write_u128(&mut bytes, address.hi);
    let ghost middle = bytes@;
    write_u128(&mut bytes, address.lo);
    proof {
        let n = head.len() as int;
        assert(bytes@.subrange(0, n) =~= head) by {
            assert(bytes@.subrange(0, n + 16) == middle);
            assert(middle.subrange(0, n) == head);
            assert forall|j: int| 0 <= j < n implies #[trigger] bytes@.subrange(0, n)[j]
                == head[j] by {
                assert(bytes@.subrange(0, n + 16)[j] == middle[j]);
                assert(middle.subrange(0, n)[j] == head[j]);
            }
        }
        assert(bytes@.subrange(n, n + 16) =~= middle.subrange(n, n + 16)) by {
            assert forall|j: int| 0 <= j < 16 implies #[trigger] bytes@.subrange(n, n + 16)[j]
                == middle.subrange(n, n + 16)[j] by {
                assert(bytes@.subrange(0, n + 16)[n + j] == middle[n + j]);
            }
        }
    }
    bytes
}

} // verus!
