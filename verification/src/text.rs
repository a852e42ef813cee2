//! Decimal numbers and NUL-terminated strings.
use vstd::prelude::*;
use vstd::string::StringExecFns;

verus! {

/// The character for a decimal digit.
pub open spec fn digit(d: nat) -> char {
    (d + 48) as char
}

/// A number in decimal notation, without leading zeros.
pub open spec fn decimal(n: nat) -> Seq<char>
    decreases n,
{
    if n < 10 {
        seq![digit(n)]
    } else {
        decimal(n / 10).push(digit(n % 10))
    }
}

fn digit_str(d: u64) -> (r: &'static str)
    requires
        d < 10,
    ensures
        r@ == seq![digit(d as nat)],
{
    proof {
        reveal_strlit("0");
        reveal_strlit("1");
        reveal_strlit("2");
        reveal_strlit("3");
        reveal_strlit("4");
        reveal_strlit("5");
        reveal_strlit("6");
        reveal_strlit("7");
        reveal_strlit("8");
        reveal_strlit("9");
    }
    if d == 0 {
        "0"
    } else if d == 1 {
        "1"
    } else if d == 2 {
        "2"
    } else if d == 3 {
        "3"
    } else if d == 4 {
        "4"
    } else if d == 5 {
        "5"
    } else if d == 6 {
        "6"
    } else if d == 7 {
        "7"
    } else if d == 8 {
        "8"
    } else {
        "9"
    }
}

/// Writes a number in decimal notation.
pub fn to_decimal(n: u64) -> (r: String)
    ensures
        r@ == decimal(n as nat),
    decreases n,
{
    if n < 10 {
        digit_str(n).to_owned()
    } else {
        let mut s = to_decimal(n / 10);
        s.append(digit_str(n % 10));
        assert(s@ =~= decimal((n / 10) as nat).push(digit((n % 10) as nat)));
        s
    }
}

/// The decimal notation consists of digits.
pub proof fn lemma_decimal_digits(n: nat)
    ensures
        forall|i: int|
            0 <= i < decimal(n).len() ==> '0' <= #[trigger] decimal(n)[i] && decimal(n)[i] <= '9',
    decreases n,
{
    if n >= 10 {
        let (front, last) = (decimal(n / 10), digit(n % 10));
        lemma_decimal_digits(n / 10);
        assert('0' <= last <= '9');
        assert forall|i: int| 0 <= i < decimal(n).len() implies '0' <= #[trigger] decimal(n)[i]
            && decimal(n)[i] <= '9' by {
            assert(decimal(n) == front.push(last));
            if i < front.len() {
                assert(decimal(n)[i] == front[i]);
            }
        }
    }
}

/// The number that a sequence of decimal digits denotes.
pub open spec fn denoted(digits: Seq<char>) -> int
    decreases digits.len(),
{
    if digits.len() == 0 {
        0
    } else {
        denoted(digits.drop_last()) * 10 + (digits.last() as int - '0' as int)
    }
}

/// The decimal notation of a number denotes that number, consists of digits, and does not start with a
/// zero unless it is the zero alone.
pub proof fn law_decimal_denotes_the_number(n: nat)
    ensures
        denoted(decimal(n)) == n,
        decimal(n).len() > 0,
        decimal(n)[0] == '0' ==> decimal(n) == seq!['0'],
        forall|i: int|
            0 <= i < decimal(n).len() ==> '0' <= #[trigger] decimal(n)[i] && decimal(n)[i] <= '9',
    decreases n,
{
    lemma_decimal_digits(n);
    if n >= 10 {
        law_decimal_denotes_the_number(n / 10);
        let (front, last) = (decimal(n / 10), digit(n % 10));
        assert(decimal(n) == front.push(last));
        assert(decimal(n).drop_last() =~= front);
        assert(decimal(n)[0] == front[0]);
        if front[0] == '0' {
            assert(denoted(front) == 0) by {
                reveal_with_fuel(denoted, 2);
                assert(front.drop_last() =~= Seq::empty());
            }
        }
    } else {
        reveal_with_fuel(denoted, 2);
        assert(decimal(n).drop_last() =~= Seq::empty());
        assert(decimal(n) =~= seq![digit(n)]);
    }
}

/// A character is encoded with a zero byte only where it is the NUL character.
proof fn lemma_scalar_nul(ch: char)
    ensures
        vstd::utf8::encode_scalar(ch as u32).contains(0u8) <==> ch == '\0',
{
    let c = ch as u32;
    let head = vstd::utf8::encode_scalar(c);
    assert(c <= 0x7F ==> ((c & 0x7F) as u8 == 0 <==> c == 0)) by (bit_vector);
    assert((0xC0u8 | ((c >> 6) & 0x1F) as u8) != 0) by (bit_vector);
    assert((0xE0u8 | ((c >> 12) & 0x0F) as u8) != 0) by (bit_vector);
    assert((0xF0u8 | ((c >> 18) & 0x7) as u8) != 0) by (bit_vector);
    assert((0x80u8 | (c & 0x3F) as u8) != 0) by (bit_vector);
    assert((0x80u8 | ((c >> 6) & 0x3F) as u8) != 0) by (bit_vector);
    assert((0x80u8 | ((c >> 12) & 0x3F) as u8) != 0) by (bit_vector);
    if ch == '\0' {
        assert(head[0] == 0u8);
    }
}

/// A zero byte in an encoded string comes from a NUL character, and the other way round.
pub proof fn lemma_encoded_nul(chars: Seq<char>)
    ensures
        vstd::utf8::encode_utf8(chars).contains(0u8) <==> chars.contains('\0'),
    decreases chars.len(),
{
    let bytes = vstd::utf8::encode_utf8(chars);
    if chars.len() > 0 {
        let head = vstd::utf8::encode_scalar(chars[0] as u32);
        let rest = chars.drop_first();
        let tail = vstd::utf8::encode_utf8(rest);
        lemma_encoded_nul(rest);
        lemma_scalar_nul(chars[0]);
        assert(bytes == head + tail);
        if bytes.contains(0u8) {
            let k = choose|k: int| 0 <= k < bytes.len() && bytes[k] == 0u8;
            if k < head.len() {
                assert(head[k] == 0u8);
                assert(chars[0] == '\0');
            } else {
                assert(tail[k - head.len()] == 0u8);
                let j = choose|j: int| 0 <= j < rest.len() && rest[j] == '\0';
                assert(chars[j + 1] == '\0');
            }
        }
        if chars.contains('\0') {
            let j = choose|j: int| 0 <= j < chars.len() && chars[j] == '\0';
            if j == 0 {
                let k = choose|k: int| 0 <= k < head.len() && head[k] == 0u8;
                assert(bytes[k] == 0u8);
            } else {
                assert(rest[j - 1] == '\0');
                let k = choose|k: int| 0 <= k < tail.len() && tail[k] == 0u8;
                assert(bytes[k + head.len()] == 0u8);
            }
        }
    }
}

/// A string that cannot be terminated by a NUL, because it holds one.
pub struct NulError {
    /// Where the first zero byte stands.
    pub position: usize,
    /// The bytes of the string.
    pub bytes: Vec<u8>,
}

/// The bytes of `s`, with a NUL behind them.
pub fn terminated(s: &str) -> (r: Result<Vec<u8>, NulError>)
    ensures
        match r {
            Ok(bytes) => {
                &&& !s@.contains('\0')
                &&& bytes@ == vstd::utf8::encode_utf8(s@).push(0u8)
            },
            Err(e) => {
                &&& s@.contains('\0')
                &&& e.bytes@ == vstd::utf8::encode_utf8(s@)
                &&& crate::search::is_first_where(e.bytes@, |b: u8| b == 0, e.position as int)
            },
        },
{
    let bytes = s.as_bytes();
    let mut out: Vec<u8> = Vec::new();
    let mut nul: Option<usize> = None;
    let n: usize = bytes.len();
    let mut i: usize = 0;
    while i < n
        invariant
            n == bytes@.len(),
            i <= n,
            out@ == bytes@.take(i as int),
            match nul {
                Some(p) => p < i && bytes@[p as int] == 0 && forall|j: int|
                    0 <= j < p ==> #[trigger] bytes@[j] != 0,
                None => forall|j: int| 0 <= j < i ==> #[trigger] bytes@[j] != 0,
            },
        decreases n - i,
    {
        let b: u8 = bytes[i];
        if b == 0 && nul.is_none() {
            nul = Some(i);
        }
        out.push(b);
        assert(bytes@.take(i + 1) =~= bytes@.take(i as int).push(b));
        i = i + 1;
    }
    proof {
        assert(out@ =~= bytes@);
        lemma_encoded_nul(s@);
    }
    match nul {
        Some(position) => Err(NulError { position, bytes: out }),
        None => {
            out.push(0);
            Ok(out)
        },
    }
}

/// Every call of [`to_decimal`] writes digits that denote the number.
pub proof fn law_to_decimal()
    ensures
        forall|n: u64, r: String| #[trigger]
            call_ensures(to_decimal, (n,), r) ==> denoted(r@) == n && r@.len() > 0 && (r@[0] == '0'
                ==> n == 0),
{
    assert forall|n: u64, r: String| #[trigger]
        call_ensures(to_decimal, (n,), r) implies denoted(r@) == n && r@.len() > 0 && (r@[0] == '0'
        ==> n == 0) by {
        law_decimal_denotes_the_number(n as nat);
        if r@[0] == '0' {
            reveal_with_fuel(denoted, 2);
            assert(r@ =~= seq!['0']);
            assert(r@.drop_last() =~= Seq::empty());
        }
    }
}

} // verus!
