//! Bytes as text, for the clipboard of the terminal.
use vstd::prelude::*;

verus! {

/// The symbol that stands for a number under 64.
pub open spec fn symbol(n: nat) -> char {
    if n < 26 {
        ('A' as nat + n) as char
    } else if n < 52 {
        ('a' as nat + n - 26) as char
    } else if n < 62 {
        ('0' as nat + n - 52) as char
    } else if n == 62 {
        '+'
    } else {
        '/'
    }
}

/// The number that a symbol stands for.
pub open spec fn value(c: char) -> nat {
    if 'A' <= c <= 'Z' {
        (c as nat - 'A' as nat) as nat
    } else if 'a' <= c <= 'z' {
        (c as nat - 'a' as nat + 26) as nat
    } else if '0' <= c <= '9' {
        (c as nat - '0' as nat + 52) as nat
    } else if c == '+' {
        62
    } else {
        63
    }
}

fn symbol_of(n: u8) -> (c: char)
    requires
        n < 64,
    ensures
        c == symbol(n as nat),
{
    if n < 26 {
        (65 + n) as char
    } else if n < 52 {
        (97 + (n - 26)) as char
    } else if n < 62 {
        (48 + (n - 52)) as char
    } else if n == 62 {
        '+'
    } else {
        '/'
    }
}

/// Three bytes, of which the last or the last two may be missing, as four symbols.
pub open spec fn quad(bytes: Seq<u8>) -> Seq<char> {
    let b0 = bytes[0] as nat;
    let b1 = if bytes.len() > 1 {
        bytes[1] as nat
    } else {
        0
    };
    let b2 = if bytes.len() > 2 {
        bytes[2] as nat
    } else {
        0
    };
    seq![
        symbol(b0 / 4),
        symbol((b0 % 4) * 16 + b1 / 16),
        if bytes.len() > 1 {
            symbol((b1 % 16) * 4 + b2 / 64)
        } else {
            '='
        },
        if bytes.len() > 2 {
            symbol(b2 % 64)
        } else {
            '='
        },
    ]
}

/// Bytes in Base64.
pub open spec fn encoded(bytes: Seq<u8>) -> Seq<char>
    decreases bytes.len(),
{
    if bytes.len() == 0 {
        Seq::empty()
    } else if bytes.len() <= 3 {
        quad(bytes)
    } else {
        quad(bytes.take(3)) + encoded(bytes.skip(3))
    }
}

pub fn base64_encode(bytes: &[u8]) -> (r: String)
    ensures
        r@ == encoded(bytes@),
{
    let mut out = String::new();
    let mut i: usize = 0;
    assert(out@ =~= Seq::empty());
    assert(bytes@.skip(0) =~= bytes@);
    while i < bytes.len()
        invariant
            i <= bytes.len(),
            encoded(bytes@) == out@ + encoded(bytes@.skip(i as int)),
        decreases bytes.len() - i,
    {
        let ghost rest = bytes@.skip(i as int);
        let ghost before = out@;
        let left: usize = bytes.len() - i;
        let b0: u8 = bytes[i];
        let b1: u8 = if left > 1 {
            bytes[i + 1]
        } else {
            0
        };
        let b2: u8 = if left > 2 {
            bytes[i + 2]
        } else {
            0
        };
        out.push(symbol_of(b0 / 4));
        out.push(symbol_of((b0 % 4) * 16 + b1 / 16));
        if left > 1 {
            out.push(symbol_of((b1 % 16) * 4 + b2 / 64));
        } else {
            out.push('=');
        }
        if left > 2 {
            out.push(symbol_of(b2 % 64));
        } else {
            out.push('=');
        }
        if left <= 3 {
            assert(out@ =~= before + quad(rest));
            return out;
        }
        assert(out@ =~= before + quad(rest.take(3)));
        i += 3;
        assert(rest.skip(3) =~= bytes@.skip(i as int));
        assert((before + quad(rest.take(3))) + encoded(bytes@.skip(i as int)) =~= before + (quad(
            rest.take(3),
        ) + encoded(bytes@.skip(i as int))));
    }
    assert(out@ + encoded(bytes@.skip(i as int)) =~= out@);
    out
}

/// The bytes of a text in Base64.
pub open spec fn decoded(s: Seq<char>) -> Seq<u8>
    decreases s.len(),
{
    if s.len() < 4 {
        Seq::empty()
    } else {
        let b0 = (value(s[0]) * 4 + value(s[1]) / 16) as u8;
        let b1 = ((value(s[1]) % 16) * 16 + value(s[2]) / 4) as u8;
        let b2 = ((value(s[2]) % 4) * 64 + value(s[3])) as u8;
        if s[2] == '=' {
            seq![b0]
        } else if s[3] == '=' {
            seq![b0, b1]
        } else {
            seq![b0, b1, b2] + decoded(s.skip(4))
        }
    }
}

proof fn lemma_symbol(n: nat)
    requires
        n < 64,
    ensures
        value(symbol(n)) == n,
        symbol(n) != '=',
{
}

proof fn lemma_quad(bytes: Seq<u8>, rest: Seq<char>)
    requires
        1 <= bytes.len() <= 3,
        bytes.len() < 3 ==> rest.len() == 0,
    ensures
        decoded(quad(bytes) + rest) == bytes + (if bytes.len() == 3 {
            decoded(rest)
        } else {
            Seq::empty()
        }),
{
    let b0 = bytes[0] as nat;
    let b1 = if bytes.len() > 1 {
        bytes[1] as nat
    } else {
        0
    };
    let b2 = if bytes.len() > 2 {
        bytes[2] as nat
    } else {
        0
    };
    lemma_symbol(b0 / 4);
    lemma_symbol((b0 % 4) * 16 + b1 / 16);
    lemma_symbol((b1 % 16) * 4 + b2 / 64);
    lemma_symbol(b2 % 64);
    let s = quad(bytes) + rest;
    assert(s[0] == symbol(b0 / 4));
    assert(s[1] == symbol((b0 % 4) * 16 + b1 / 16));
    assert(s.skip(4) =~= rest);
    if bytes.len() == 1 {
        assert(decoded(s) =~= bytes + Seq::<u8>::empty());
    } else if bytes.len() == 2 {
        assert(decoded(s) =~= bytes + Seq::<u8>::empty());
    } else {
        assert(decoded(s) =~= bytes + decoded(rest));
    }
}

/// Bytes that were encoded are decoded to what they were.
pub proof fn law_decoding_undoes_encoding(bytes: Seq<u8>)
    ensures
        decoded(encoded(bytes)) == bytes,
    decreases bytes.len(),
{
    if bytes.len() == 0 {
        assert(decoded(encoded(bytes)) =~= bytes);
    } else if bytes.len() <= 3 {
        lemma_quad(bytes, Seq::empty());
        assert(quad(bytes) + Seq::<char>::empty() =~= quad(bytes));
        assert(decoded(Seq::<char>::empty()) =~= Seq::<u8>::empty());
        assert(bytes + Seq::<u8>::empty() =~= bytes);
    } else {
        law_decoding_undoes_encoding(bytes.skip(3));
        lemma_quad(bytes.take(3), encoded(bytes.skip(3)));
        assert(bytes.take(3) + bytes.skip(3) =~= bytes);
    }
}

/// The text has four symbols for every three bytes, the last of which need not be complete.
pub proof fn law_encoded_length(bytes: Seq<u8>)
    ensures
        encoded(bytes).len() == (bytes.len() + 2) / 3 * 4,
    decreases bytes.len(),
{
    if bytes.len() > 3 {
        law_encoded_length(bytes.skip(3));
    }
}

} // verus!
