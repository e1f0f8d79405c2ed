//! The account identifier: a server-assigned binary key whose external form
//! is a fixed-width string of hexadecimal digits, as a document store renders
//! a 12-byte object identifier.
use vstd::prelude::*;
use vstd::arithmetic::div_mod::lemma_div_denominator;
use vstd::arithmetic::div_mod::lemma_mod_breakdown;
use vstd::arithmetic::div_mod::lemma_small_mod;
use vstd::string::StrSliceExecFns;
use vstd::string::StringExecFns;

verus! {

/// Width of the identifier's string form: 24 hex digits for a 12-byte value.
pub const ID_HEX_LEN: usize = 24;

/// A server-assigned account identifier. The value is a 96-bit quantity held
/// in a wider machine word; `id_wf` bounds it.
#[derive(Clone, Copy, Debug, PartialEq, Eq, Structural, Hash)]
pub struct AccountId {
    pub value: u128,
}

/// 16 to the `n`th power: the number of identifier values that `n` hex
/// digits can spell.
pub open spec fn pow16(n: nat) -> nat
    decreases n,
{
    if n == 0 {
        1
    } else {
        16 * pow16((n - 1) as nat)
    }
}

/// A well-formed identifier fits in the 24 hex digits of its string form.
pub open spec fn id_wf(id: AccountId) -> bool {
    id.value < pow16(ID_HEX_LEN as nat)
}

/// The numeric value of a hex digit, upper or lower case; 16 marks a
/// character that is no hex digit.
pub open spec fn hex_char_val(c: char) -> nat {
    match c {
        '0' => 0,
        '1' => 1,
        '2' => 2,
        '3' => 3,
        '4' => 4,
        '5' => 5,
        '6' => 6,
        '7' => 7,
        '8' => 8,
        '9' => 9,
        'a' => 10,
        'b' => 11,
        'c' => 12,
        'd' => 13,
        'e' => 14,
        'f' => 15,
        'A' => 10,
        'B' => 11,
        'C' => 12,
        'D' => 13,
        'E' => 14,
        'F' => 15,
        _ => 16,
    }
}

pub open spec fn is_hex_digit(c: char) -> bool {
    hex_char_val(c) < 16
}

/// The lower-case hex digit that spells a nibble.
pub open spec fn nibble_char(d: nat) -> char {
    if d == 0 {
        '0'
    } else if d == 1 {
        '1'
    } else if d == 2 {
        '2'
    } else if d == 3 {
        '3'
    } else if d == 4 {
        '4'
    } else if d == 5 {
        '5'
    } else if d == 6 {
        '6'
    } else if d == 7 {
        '7'
    } else if d == 8 {
        '8'
    } else if d == 9 {
        '9'
    } else if d == 10 {
        'a'
    } else if d == 11 {
        'b'
    } else if d == 12 {
        'c'
    } else if d == 13 {
        'd'
    } else if d == 14 {
        'e'
    } else {
        'f'
    }
}

/// The value a sequence of hex digits spells, most significant digit first.
pub open spec fn parse_val(s: Seq<char>) -> nat
    decreases s.len(),
{
    if s.len() == 0 {
        0
    } else {
        parse_val(s.drop_last()) * 16 + hex_char_val(s.last())
    }
}

pub open spec fn all_hex(s: Seq<char>) -> bool {
    forall|i: int| 0 <= i < s.len() ==> is_hex_digit(s[i])
}

/// A string is a valid identifier form iff it is exactly 24 hex digits.
pub open spec fn valid_id_string(s: Seq<char>) -> bool {
    s.len() == ID_HEX_LEN && all_hex(s)
}

/// The identifier an identifier string denotes; meaningful on valid
/// identifier strings, whose value always fits the identifier type.
pub open spec fn spec_parsed_id(s: Seq<char>) -> AccountId {
    AccountId { value: parse_val(s) as u128 }
}

/// The `n`-digit lower-case hex spelling of `v`'s low `n` nibbles, most
/// significant digit first.
pub open spec fn hex_str_of(v: nat, n: nat) -> Seq<char>
    decreases n,
{
    if n == 0 {
        Seq::empty()
    } else {
        hex_str_of(v / 16, (n - 1) as nat).push(nibble_char(v % 16))
    }
}

proof fn lemma_pow16_pos(n: nat)
    ensures
        0 < pow16(n),
    decreases n,
{
    if n > 0 {
        lemma_pow16_pos((n - 1) as nat);
    }
}

proof fn lemma_pow16_mono(a: nat, b: nat)
    requires
        a <= b,
    ensures
        pow16(a) <= pow16(b),
        0 < pow16(a),
    decreases b,
{
    lemma_pow16_pos(a);
    if a < b {
        lemma_pow16_mono(a, (b - 1) as nat);
        lemma_pow16_pos((b - 1) as nat);
    }
}

/// Reading back the spelling of `v` recovers `v`'s low `n` nibbles.
proof fn lemma_parse_of_hex_str(v: nat, n: nat)
    ensures
        parse_val(hex_str_of(v, n)) == v % pow16(n),
        hex_str_of(v, n).len() == n,
        all_hex(hex_str_of(v, n)),
    decreases n,
{
    if n == 0 {
        lemma_small_mod(0, 1);
        assert(hex_str_of(v, n).len() == 0);
    } else {
        lemma_parse_of_hex_str(v / 16, (n - 1) as nat);
        lemma_pow16_mono((n - 1) as nat, (n - 1) as nat);
        let tail = hex_str_of(v / 16, (n - 1) as nat);
        let whole = hex_str_of(v, n);
        assert(whole == tail.push(nibble_char(v % 16)));
        assert(whole.drop_last() =~= tail);
        assert(whole.last() == nibble_char(v % 16));
        assert(hex_char_val(nibble_char(v % 16)) == v % 16);
        assert(parse_val(whole) == parse_val(tail) * 16 + (v % 16));
        lemma_mod_breakdown(v as int, 16, pow16((n - 1) as nat) as int);
        assert(pow16(n) == 16 * pow16((n - 1) as nat));
        assert(v % pow16(n) == 16 * ((v as int / 16) % pow16((n - 1) as nat) as int) + v % 16);
        assert(forall|i: int|
            0 <= i < whole.len() ==> is_hex_digit(#[trigger] whole[i])) by {
            assert forall|i: int| 0 <= i < whole.len() implies is_hex_digit(
                #[trigger] whole[i],
            ) by {
                if i < whole.len() - 1 {
                    assert(whole[i] == tail[i]);
                } else {
                    assert(whole[i] == nibble_char(v % 16));
                }
            }
        }
    }
}

/// One hex digit read in executable code, agreeing with `hex_char_val`.
fn hex_digit(c: char) -> (r: Option<u8>)
    ensures
        r is Some <==> is_hex_digit(c),
        r is Some ==> r.unwrap() as nat == hex_char_val(c),
{
    match c {
        '0' => Some(0),
        '1' => Some(1),
        '2' => Some(2),
        '3' => Some(3),
        '4' => Some(4),
        '5' => Some(5),
        '6' => Some(6),
        '7' => Some(7),
        '8' => Some(8),
        '9' => Some(9),
        'a' => Some(10),
        'b' => Some(11),
        'c' => Some(12),
        'd' => Some(13),
        'e' => Some(14),
        'f' => Some(15),
        'A' => Some(10),
        'B' => Some(11),
        'C' => Some(12),
        'D' => Some(13),
        'E' => Some(14),
        'F' => Some(15),
        _ => None,
    }
}

/// Parses the external string form of an identifier. Succeeds exactly on
/// strings of 24 hex digits, upper or lower case, and returns the value
/// those digits spell.
pub fn parse_id(s: &str) -> (r: Option<AccountId>)
    ensures
        r is Some <==> valid_id_string(s@),
        r is Some ==> r.unwrap().value as nat == parse_val(s@) && id_wf(r.unwrap()),
{
    let n = s.unicode_len();
    if n != ID_HEX_LEN {
        return None;
    }
    let mut acc: u128 = 0;
    let mut i: usize = 0;
    while i < ID_HEX_LEN
        invariant
            0 <= i <= ID_HEX_LEN,
            s@.len() == ID_HEX_LEN,
            acc as nat == parse_val(s@.take(i as int)),
            (acc as nat) < pow16(i as nat),
            all_hex(s@.take(i as int)),
        decreases ID_HEX_LEN - i,
    {
        let c = s.get_char(i);
        match hex_digit(c) {
            Some(d) => {
                proof {
                    lemma_pow16_mono(i as nat, 23);
                    lemma_pow16_mono(23, 24);
                    assert(pow16(24) == 0x1000000000000000000000000nat) by {
                        reveal_with_fuel(pow16, 25);
                    }
                    assert(16 * (acc as nat) + (d as nat) < pow16((i + 1) as nat));
                    assert(s@.take(i + 1).drop_last() =~= s@.take(i as int));
                    assert(s@.take(i + 1).last() == s@[i as int]);
                }
                acc = acc * 16 + (d as u128);
                proof {
                    assert(all_hex(s@.take(i + 1))) by {
                        assert forall|j: int| 0 <= j < i + 1 implies is_hex_digit(
                            #[trigger] s@.take(i + 1)[j],
                        ) by {
                            if j < i {
                                assert(s@.take(i + 1)[j] == s@.take(i as int)[j]);
                            } else {
                                assert(s@.take(i + 1)[j] == c);
                            }
                        }
                    }
                }
                i = i + 1;
            },
            None => {
                proof {
                    assert(!is_hex_digit(s@[i as int]));
                }
                return None;
            },
        }
    }
    proof {
        assert(s@.take(ID_HEX_LEN as int) =~= s@);
    }
    Some(AccountId { value: acc })
}

/// The lower-case hex digit of one nibble, as a one-character string.
fn nibble_str(d: u8) -> (r: &'static str)
    requires
        d < 16,
    ensures
        r@ =~= seq![nibble_char(d as nat)],
{
    proof {
        reveal_strlit("0");
        reveal_strlit("1");
        reveal_strlit("2");
        reveal_strlit("3");
        reveal_strlit("4");
        reveal_strlit("5");
        reveal_strlit("6");
        reveal_strlit("7");
        reveal_strlit("8");
        reveal_strlit("9");
        reveal_strlit("a");
        reveal_strlit("b");
        reveal_strlit("c");
        reveal_strlit("d");
        reveal_strlit("e");
        reveal_strlit("f");
    }
    match d {
        0 => "0",
        1 => "1",
        2 => "2",
        3 => "3",
        4 => "4",
        5 => "5",
        6 => "6",
        7 => "7",
        8 => "8",
        9 => "9",
        10 => "a",
        11 => "b",
        12 => "c",
        13 => "d",
        14 => "e",
        _ => "f",
    }
}

/// Renders an identifier in its external form: exactly 24 lower-case hex
/// digits, which `parse_id` reads back to the same identifier.
pub fn id_to_string(id: &AccountId) -> (r: String)
    requires
        id_wf(*id),
    ensures
        r@ == hex_str_of(id.value as nat, ID_HEX_LEN as nat),
        valid_id_string(r@),
        parse_val(r@) == id.value as nat,
{
    let v = id.value;
    let mut digits: Vec<u8> = Vec::new();
    let mut w: u128 = v;
    let mut j: usize = 0;
    proof {
        assert(pow16(0) == 1);
        assert((v as nat) / 1 == v as nat);
    }
    while j < ID_HEX_LEN
        invariant
            0 <= j <= ID_HEX_LEN,
            digits@.len() == j,
            w as nat == (v as nat) / pow16(j as nat),
            forall|k: int|
                0 <= k < j ==> (digits@[k] as nat) == ((v as nat) / pow16(k as nat)) % 16
                    && digits@[k] < 16,
        decreases ID_HEX_LEN - j,
    {
        let d = (w % 16) as u8;
        proof {
            lemma_pow16_pos(j as nat);
            lemma_div_denominator(v as int, pow16(j as nat) as int, 16);
            assert(pow16((j + 1) as nat) == 16 * pow16(j as nat));
            assert((v as nat) / pow16(j as nat) / 16 == (v as nat) / pow16((j + 1) as nat));
        }
        digits.push(d);
        w = w / 16;
        j = j + 1;
    }
    let mut out = String::new();
    let mut i: usize = 0;
    proof {
        assert(out@ =~= hex_str_of((v as nat) / pow16(ID_HEX_LEN as nat), 0));
    }
    while i < ID_HEX_LEN
        invariant
            0 <= i <= ID_HEX_LEN,
            digits@.len() == ID_HEX_LEN,
            forall|k: int|
                0 <= k < ID_HEX_LEN ==> (digits@[k] as nat) == ((v as nat) / pow16(k as nat)) % 16
                    && digits@[k] < 16,
            out@ == hex_str_of((v as nat) / pow16((ID_HEX_LEN - i) as nat), i as nat),
        decreases ID_HEX_LEN - i,
    {
        let d = digits[ID_HEX_LEN - 1 - i];
        let piece = nibble_str(d);
        let ghost prev = out@;
        proof {
            let k = (ID_HEX_LEN - 1 - i) as nat;
            lemma_pow16_pos(k);
            lemma_div_denominator(v as int, pow16(k) as int, 16);
            assert(pow16((k + 1) as nat) == 16 * pow16(k));
            assert((v as nat) / pow16(k) / 16 == (v as nat) / pow16((k + 1) as nat));
            assert(hex_str_of((v as nat) / pow16(k), (i + 1) as nat) == hex_str_of(
                (v as nat) / pow16(k) / 16,
                i as nat,
            ).push(nibble_char(((v as nat) / pow16(k)) % 16)));
            assert(prev.push(nibble_char(d as nat)) == hex_str_of(
                (v as nat) / pow16(k),
                (i + 1) as nat,
            ));
        }
        out.append(piece);
        proof {
            assert(piece@ == seq![nibble_char(d as nat)]);
            assert(out@ =~= prev.push(nibble_char(d as nat)));
        }
        i = i + 1;
    }
    proof {
        assert((v as nat) / pow16(0) == v as nat) by {
            assert(pow16(0) == 1);
        }
        lemma_parse_of_hex_str(v as nat, ID_HEX_LEN as nat);
        lemma_small_mod(v as nat, pow16(ID_HEX_LEN as nat));
    }
    out
}

} // verus!
