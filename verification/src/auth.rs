//! Session credentials: opaque tokens whose possession is the authority.
//!
//! A token is a secret. It is read only through [`CapToken::expose`] and
//! compared only through [`CapToken::verify`], which looks at every byte
//! wherever the first difference lies.

use vstd::prelude::*;
use vstd::string::*;
use vstd::utf8::encode_utf8_decode_utf8;

use crate::error::{Error, ErrorView};

verus! {

/// Number of random bytes in a token.
pub const TOKEN_BYTES: usize = 32;

/// Whether the operating system's entropy source gave these bytes to some call.
pub uninterp spec fn drawn(bytes: Seq<u8>) -> bool;

/// `getrandom::getrandom`: bytes from the operating system, or nothing where it
/// fails. The bytes are random, so nothing is stated of them but their number
/// and where they are from.
#[verifier::external_body]
fn random_bytes() -> (r: Option<[u8; 32]>)
    ensures
        r matches Some(bytes) ==> drawn(bytes@),
{
    let mut bytes = [0u8; 32];
    match getrandom::getrandom(&mut bytes) {
        Ok(()) => Some(bytes),
        Err(_) => None,
    }
}

/// The lower-case hexadecimal digit of a number below 16.
pub open spec fn hex_digit(n: int) -> char {
    if n == 0 {
        '0'
    } else if n == 1 {
        '1'
    } else if n == 2 {
        '2'
    } else if n == 3 {
        '3'
    } else if n == 4 {
        '4'
    } else if n == 5 {
        '5'
    } else if n == 6 {
        '6'
    } else if n == 7 {
        '7'
    } else if n == 8 {
        '8'
    } else if n == 9 {
        '9'
    } else if n == 10 {
        'a'
    } else if n == 11 {
        'b'
    } else if n == 12 {
        'c'
    } else if n == 13 {
        'd'
    } else if n == 14 {
        'e'
    } else {
        'f'
    }
}

/// Bytes written as two lower-case hexadecimal digits each.
pub open spec fn hex(bytes: Seq<u8>) -> Seq<char> {
    Seq::new(
        2 * bytes.len(),
        |i: int|
            if i % 2 == 0 {
                hex_digit(bytes[i / 2] as int / 16)
            } else {
                hex_digit(bytes[i / 2] as int % 16)
            },
    )
}

/// Whether a text is a fresh token: it writes as many bytes as a token has, drawn
/// from the operating system's entropy.
pub open spec fn minted(text: Seq<char>) -> bool {
    exists|bytes: Seq<u8>|
        {
            &&& bytes.len() == TOKEN_BYTES
            &&& drawn(bytes)
            &&& text == "ct_"@ + #[trigger] hex(bytes)
        }
}

fn hex_digit_of(n: u8) -> (c: char)
    requires
        n < 16,
    ensures
        c == hex_digit(n as int),
{
    if n == 0 {
        '0'
    } else if n == 1 {
        '1'
    } else if n == 2 {
        '2'
    } else if n == 3 {
        '3'
    } else if n == 4 {
        '4'
    } else if n == 5 {
        '5'
    } else if n == 6 {
        '6'
    } else if n == 7 {
        '7'
    } else if n == 8 {
        '8'
    } else if n == 9 {
        '9'
    } else if n == 10 {
        'a'
    } else if n == 11 {
        'b'
    } else if n == 12 {
        'c'
    } else if n == 13 {
        'd'
    } else if n == 14 {
        'e'
    } else {
        'f'
    }
}

/// An unforgeable session credential.
pub struct CapToken(String);

impl View for CapToken {
    type V = Seq<char>;

    closed spec fn view(&self) -> Seq<char> {
        self.0@
    }
}

impl Clone for CapToken {
    fn clone(&self) -> (r: Self)
        ensures
            r == *self,
    {
        CapToken(self.0.clone())
    }
}

impl CapToken {
    /// The token of the given random bytes: `ct_` and their lower-case hex form.
    pub fn from_random(bytes: &[u8]) -> (r: CapToken)
        ensures
            r@ == "ct_"@ + hex(bytes@),
    {
        let mut token = "ct_".to_owned();
        let mut i: usize = 0;
        assert(token@ =~= "ct_"@ + hex(bytes@).take(0));
        while i < bytes.len()
            invariant
                i <= bytes@.len(),
                token@ == "ct_"@ + hex(bytes@).take(2 * i),
            decreases bytes@.len() - i,
        {
            let b: u8 = bytes[i];
            token.push(hex_digit_of(b / 16));
            token.push(hex_digit_of(b % 16));
            proof {
                let digits = hex(bytes@);
                assert(digits[2 * i] == hex_digit(b as int / 16));
                assert(digits[2 * i + 1] == hex_digit(b as int % 16));
                assert(token@ =~= "ct_"@ + digits.take(2 * (i + 1)));
            }
            i = i + 1;
        }
        assert(hex(bytes@).take((2 * bytes@.len()) as int) =~= hex(bytes@));
        CapToken(token)
    }

    /// Mint a fresh token from the operating system's entropy.
    ///
    /// Fails only where the entropy source cannot be read.
    pub fn generate() -> (r: Result<CapToken, Error>)
        ensures
            match r {
                Ok(token) => minted(token@),
                Err(e) => e@ == ErrorView::Entropy,
            },
    {
        match random_bytes() {
            None => Err(Error::Entropy),
            Some(bytes) => {
                let token = CapToken::from_random(bytes.as_slice());
                assert(token@ == "ct_"@ + hex(bytes@));
                Ok(token)
            },
        }
    }

    /// Expose the raw token.
    pub fn expose(&self) -> (r: &str)
        ensures
            r@ == self@,
    {
        self.0.as_str()
    }

    /// What diagnostics show in place of the token: the same for every token.
    pub fn redacted(&self) -> (r: &'static str)
        ensures
            r@ == "CapToken(\"ct_\u{2026}redacted\")"@,
    {
        "CapToken(\"ct_\u{2026}redacted\")"
    }

    /// Whether `presented` is exactly this token.
    ///
    /// Texts of different length are told apart at once; of the same length,
    /// every byte is looked at before the answer is given.
    pub fn verify(&self, presented: &str) -> (r: bool)
        ensures
            r == (presented@ == self@),
    {
        let stored = self.0.as_str().as_bytes();
        let given = presented.as_bytes();
        proof {
            encode_utf8_decode_utf8(self.0@);
            encode_utf8_decode_utf8(presented@);
        }
        if stored.len() != given.len() {
            return false;
        }
        let mut acc: u8 = 0;
        let mut i: usize = 0;
        while i < stored.len()
            invariant
                i <= stored@.len() == given@.len(),
                acc == 0 <==> forall|k: int| 0 <= k < i ==> stored@[k] == given@[k],
            decreases stored@.len() - i,
        {
            let a: u8 = stored[i];
            let b: u8 = given[i];
            let was: u8 = acc;
            assert(was | (a ^ b) == 0 <==> was == 0 && a == b) by (bit_vector);
            acc = acc | (a ^ b);
            proof {
                if acc == 0 {
                    assert forall|k: int| 0 <= k < i + 1 implies stored@[k] == given@[k] by {}
                }
                if forall|k: int| 0 <= k < i + 1 ==> stored@[k] == given@[k] {
                    assert(stored@[i as int] == given@[i as int]);
                    assert(forall|k: int| 0 <= k < i ==> stored@[k] == given@[k]);
                }
            }
            i = i + 1;
        }
        if acc == 0 {
            assert(stored@ =~= given@);
        }
        acc == 0
    }
}

/// The value of a hexadecimal digit in lower case.
pub open spec fn digit_value(c: char) -> int {
    if '0' <= c <= '9' {
        c as int - '0' as int
    } else {
        c as int - 'a' as int + 10
    }
}

/// Every byte can be read off its two digits, so tokens of different bytes are
/// different texts.
pub proof fn hex_writes_every_byte(bytes: Seq<u8>, other: Seq<u8>, i: int)
    ensures
        hex(bytes).len() == 2 * bytes.len(),
        0 <= i < bytes.len() ==> digit_value(hex(bytes)[2 * i]) * 16 + digit_value(
            hex(bytes)[2 * i + 1],
        ) == bytes[i],
        0 <= i < 2 * bytes.len() ==> '0' <= hex(bytes)[i] <= '9' || 'a' <= hex(bytes)[i] <= 'f',
        hex(bytes) == hex(other) ==> bytes == other,
{
    lemma_hex_digits();
    lemma_hex_byte(bytes, i);
    if hex(bytes) == hex(other) {
        assert(hex(bytes).len() == hex(other).len());
        assert forall|k: int| 0 <= k < bytes.len() implies bytes[k] == other[k] by {
            lemma_hex_byte(bytes, k);
            lemma_hex_byte(other, k);
        }
        assert(bytes =~= other);
    }
    if 0 <= i < 2 * bytes.len() {
        assert(0 <= bytes[i / 2] / 16 < 16);
    }
}

proof fn lemma_hex_digits()
    ensures
        forall|n: int|
            0 <= n < 16 ==> digit_value(#[trigger] hex_digit(n)) == n && ('0' <= hex_digit(n)
                <= '9' || 'a' <= hex_digit(n) <= 'f'),
{
}

proof fn lemma_hex_byte(bytes: Seq<u8>, i: int)
    ensures
        0 <= i < bytes.len() ==> digit_value(hex(bytes)[2 * i]) * 16 + digit_value(
            hex(bytes)[2 * i + 1],
        ) == bytes[i],
{
    lemma_hex_digits();
    if 0 <= i < bytes.len() {
        let b = bytes[i] as int;
        assert(hex(bytes)[2 * i] == hex_digit(b / 16));
        assert(hex(bytes)[2 * i + 1] == hex_digit(b % 16));
        assert(b == (b / 16) * 16 + b % 16);
    }
}

/// A token has the mark `ct_` and 64 digits.
pub proof fn tokens_have_one_form(text: Seq<char>)
    requires
        minted(text),
    ensures
        text.len() == 67,
        text.take(3) == "ct_"@,
        exists|bytes: Seq<u8>| bytes.len() == 32 && drawn(bytes) && #[trigger] hex(bytes)
            == text.skip(3),
{
    reveal_strlit("ct_");
    let bytes = choose|bytes: Seq<u8>|
        {
            &&& bytes.len() == TOKEN_BYTES
            &&& drawn(bytes)
            &&& text == "ct_"@ + #[trigger] hex(bytes)
        };
    assert(text.take(3) =~= "ct_"@);
    assert(text.skip(3) =~= hex(bytes));
}

} // verus!
