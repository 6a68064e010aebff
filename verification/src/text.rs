//! Addresses written as text: numbers separated by a separator, such as
//! `10.0.0.1` or `02:00:00:00:00:01`.
use vstd::prelude::*;

verus! {

/// The value of the digit `c` in base `radix` (10 or 16), if it is one.
pub open spec fn spec_digit(c: u8, radix: u8) -> Option<nat> {
    if 0x30 <= c <= 0x39 {
        Some((c - 0x30) as nat)
    } else if radix == 16 && 0x61 <= c <= 0x66 {
        Some((c - 0x61 + 10) as nat)
    } else if radix == 16 && 0x41 <= c <= 0x46 {
        Some((c - 0x41 + 10) as nat)
    } else {
        None
    }
}

/// Whether every byte of `d` is a digit in base `radix`.
pub open spec fn spec_all_digits(d: Seq<u8>, radix: u8) -> bool {
    forall|i: int| 0 <= i < d.len() ==> #[trigger] spec_digit(d[i], radix) is Some
}

/// The number that the digits `d` write in base `radix`.
pub open spec fn spec_value(d: Seq<u8>, radix: u8) -> nat
    decreases d.len(),
{
    if d.len() == 0 {
        0
    } else {
        spec_value(d.drop_last(), radix) * (radix as nat) + spec_digit(d.last(), radix)->Some_0
    }
}

/// The digits of a token: the token without a leading `+`.
pub open spec fn spec_unsigned_digits(t: Seq<u8>) -> Seq<u8> {
    if t.len() > 0 && t[0] == 0x2B {
        t.skip(1)
    } else {
        t
    }
}

/// The byte that a token writes in base `radix`, as `u8::from_str_radix`
/// reads it: an optional `+`, at least one digit, and a value below 256.
pub open spec fn spec_parse_u8(t: Seq<u8>, radix: u8) -> Option<u8> {
    let d = spec_unsigned_digits(t);
    if d.len() == 0 || !spec_all_digits(d, radix) || spec_value(d, radix) > 255 {
        None
    } else {
        Some(spec_value(d, radix) as u8)
    }
}

/// The tokens of `s` between the occurrences of `sep`; there is always one
/// more token than separators, and tokens may be empty.
pub open spec fn spec_tokens(s: Seq<u8>, sep: u8) -> Seq<Seq<u8>>
    decreases s.len(),
{
    if s.len() == 0 {
        seq![Seq::<u8>::empty()]
    } else {
        let t = spec_tokens(s.drop_last(), sep);
        if s.last() == sep {
            t.push(Seq::<u8>::empty())
        } else {
            t.update(t.len() - 1, t.last().push(s.last()))
        }
    }
}

/// The `n` bytes that `s` writes as `n` tokens separated by `sep`, each a byte
/// in base `radix`; none when a token is not a byte or the count differs.
pub open spec fn spec_parse_fields(s: Seq<u8>, sep: u8, radix: u8, n: nat) -> Option<Seq<u8>> {
    let tokens = spec_tokens(s, sep);
    if tokens.len() == n && forall|i: int|
        0 <= i < tokens.len() ==> #[trigger] spec_parse_u8(tokens[i], radix) is Some {
        Some(Seq::new(n, |i: int| spec_parse_u8(tokens[i], radix)->Some_0))
    } else {
        None
    }
}

/// There is always at least one token.
proof fn lemma_tokens_len(s: Seq<u8>, sep: u8)
    ensures
        spec_tokens(s, sep).len() >= 1,
    decreases s.len(),
{
    if s.len() > 0 {
        lemma_tokens_len(s.drop_last(), sep);
    }
}

/// Parses one token as a byte in base `radix`.
pub fn parse_u8(t: &[u8], radix: u8) -> (r: Option<u8>)
    requires
        radix == 10 || radix == 16,
    ensures
        r == spec_parse_u8(t@, radix),
{
    let start: usize = if t.len() > 0 && t[0] == 0x2B {
        1
    } else {
        0
    };
    let ghost d = spec_unsigned_digits(t@);
    if start == t.len() {
        return None;
    }
    let mut value: u32 = 0;
    let mut i: usize = start;
    proof {
        assert(t@.subrange(start as int, start as int) =~= d.take(0));
    }
    while i < t.len()
        invariant
            radix == 10 || radix == 16,
            start <= i <= t@.len(),
            d == t@.skip(start as int),
            d == spec_unsigned_digits(t@),
            spec_all_digits(t@.subrange(start as int, i as int), radix),
            value as nat == if spec_value(d.take(i - start), radix) > 256 {
                256
            } else {
                spec_value(d.take(i - start), radix)
            },
        decreases t@.len() - i,
    {
        let c = t[i];
        let digit: u32 = if 0x30 <= c && c <= 0x39 {
            (c - 0x30) as u32
        } else if radix == 16 && 0x61 <= c && c <= 0x66 {
            (c - 0x61 + 10) as u32
        } else if radix == 16 && 0x41 <= c && c <= 0x46 {
            (c - 0x41 + 10) as u32
        } else {
            proof {
                assert(d[i - start] == c);
                assert(spec_digit(d[i - start], radix) is None);
                assert(!spec_all_digits(d, radix));
            }
            return None;
        };
        let ghost prefix = d.take(i - start);
        let ghost next = d.take(i - start + 1);
        proof {
            assert(next.drop_last() =~= prefix);
            assert(next.last() == c);
            assert(spec_value(next, radix) == spec_value(prefix, radix) * radix + digit);
            if spec_value(prefix, radix) > 256 {
                assert(spec_value(prefix, radix) * radix >= spec_value(prefix, radix)) by (nonlinear_arith)
                    requires
                        radix >= 1,
                ;
            }
        }
        if value == 256 {
            proof {
                assert(spec_value(prefix, radix) * radix >= spec_value(prefix, radix)) by (nonlinear_arith)
                    requires
                        radix >= 1,
                ;
            }
        } else {
            let scaled = value * (radix as u32) + digit;
            value = if scaled > 256 {
                256
            } else {
                scaled
            };
        }
        i += 1;
        proof {
            assert forall|j: int| 0 <= j < i - start implies #[trigger] spec_digit(
                t@.subrange(start as int, i as int)[j],
                radix,
            ) is Some by {
                if j < i - 1 - start {
                    assert(t@.subrange(start as int, i as int)[j] == t@.subrange(
                        start as int,
                        i - 1,
                    )[j]);
                }
            }
        }
    }
    proof {
        assert(d.take(i - start) =~= d);
        assert(t@.subrange(start as int, i as int) =~= d);
    }
    if value > 255 {
        None
    } else {
        Some(value as u8)
    }
}

/// Parses `n` tokens separated by `sep`, each a byte in base `radix`.
pub fn parse_fields(s: &[u8], sep: u8, radix: u8, n: usize) -> (r: Option<Vec<u8>>)
    requires
        radix == 10 || radix == 16,
        n < usize::MAX,
    ensures
        match r {
            Some(v) => spec_parse_fields(s@, sep, radix, n as nat) == Some(v@),
            None => spec_parse_fields(s@, sep, radix, n as nat) is None,
        },
{
    let mut values: Vec<u8> = Vec::new();
    let mut all_ok = true;
    let mut count: usize = 0;
    let mut start: usize = 0;
    let mut i: usize = 0;
    proof {
        assert(s@.take(0) =~= Seq::<u8>::empty());
    }
    while i < s.len()
        invariant
            radix == 10 || radix == 16,
            n < usize::MAX,
            start <= i <= s@.len(),
            ({
                let tokens = spec_tokens(s@.take(i as int), sep);
                &&& tokens.len() >= 1
                &&& tokens.last() == s@.subrange(start as int, i as int)
                &&& count == if tokens.len() - 1 > n {
                    n + 1
                } else {
                    tokens.len() - 1
                }
                &&& all_ok == forall|j: int|
                    0 <= j < tokens.len() - 1 ==> #[trigger] spec_parse_u8(tokens[j], radix) is Some
                &&& all_ok && count <= n ==> values@.len() == count && forall|j: int|
                    0 <= j < count ==> values@[j] == #[trigger] spec_parse_u8(tokens[j], radix)->Some_0
            }),
        decreases s@.len() - i,
    {
        let ghost before = spec_tokens(s@.take(i as int), sep);
        let ghost after = spec_tokens(s@.take(i + 1), sep);
        proof {
            assert(s@.take(i + 1).drop_last() =~= s@.take(i as int));
        }
        if s[i] == sep {
            let token = &s[start..i];
            let parsed = parse_u8(token, radix);
            match parsed {
                Some(v) => {
                    if all_ok && count < n {
                        values.push(v);
                    }
                },
                None => {
                    all_ok = false;
                },
            }
            if count <= n {
                count = count + 1;
            }
            start = i + 1;
            proof {
                assert(after == before.push(Seq::<u8>::empty()));
                assert(after[before.len() - 1] == before.last());
                assert(token@ == before.last());
                assert forall|j: int| 0 <= j < before.len() - 1 implies after[j] == before[j] by {}
            }
        } else {
            proof {
                assert(after == before.update(before.len() - 1, before.last().push(s[i as int])));
                assert(after.last() =~= s@.subrange(start as int, i + 1));
                assert forall|j: int| 0 <= j < before.len() - 1 implies after[j] == before[j] by {}
            }
        }
        i = i + 1;
    }
    let ghost tokens = spec_tokens(s@, sep);
    proof {
        assert(s@.take(i as int) =~= s@);
    }
    let last = &s[start..i];
    match parse_u8(last, radix) {
        Some(v) => {
            if all_ok && count < n {
                values.push(v);
            }
        },
        None => {
            all_ok = false;
        },
    }
    if count <= n {
        count = count + 1;
    }
    if all_ok && count == n {
        proof {
            assert(values@ =~= Seq::new(
                n as nat,
                |j: int| spec_parse_u8(tokens[j], radix)->Some_0,
            ));
        }
        Some(values)
    } else {
        proof {
            if spec_parse_fields(s@, sep, radix, n as nat) is Some {
                assert(tokens.len() == n);
                if !all_ok {
                    let j = choose|j: int|
                        0 <= j < tokens.len() && !(spec_parse_u8(tokens[j], radix) is Some);
                    assert(spec_parse_u8(tokens[j], radix) is Some);
                }
            }
        }
        None
    }
}

/// The ASCII code of the decimal digit `d`.
pub open spec fn spec_dec_char(d: int) -> u8 {
    (0x30 + d) as u8
}

/// The decimal digits of `n`, without leading zeros.
pub open spec fn spec_decimal(n: u8) -> Seq<u8> {
    if n >= 100 {
        seq![
            spec_dec_char(n as int / 100),
            spec_dec_char((n as int / 10) % 10),
            spec_dec_char(n as int % 10),
        ]
    } else if n >= 10 {
        seq![spec_dec_char(n as int / 10), spec_dec_char(n as int % 10)]
    } else {
        seq![spec_dec_char(n as int)]
    }
}

/// The ASCII code of the upper case hexadecimal digit `d`.
pub open spec fn spec_hex_char(d: int) -> u8 {
    if d < 10 {
        (0x30 + d) as u8
    } else {
        (0x41 + d - 10) as u8
    }
}

/// The two upper case hexadecimal digits of `n`.
pub open spec fn spec_hex2(n: u8) -> Seq<u8> {
    seq![spec_hex_char(n as int / 16), spec_hex_char(n as int % 16)]
}

/// The parts joined with `sep` between each two of them.
pub open spec fn spec_join(parts: Seq<Seq<u8>>, sep: u8) -> Seq<u8>
    decreases parts.len(),
{
    if parts.len() == 0 {
        Seq::empty()
    } else if parts.len() == 1 {
        parts[0]
    } else {
        spec_join(parts.drop_last(), sep) + seq![sep] + parts.last()
    }
}

/// The text of the bytes `b` in decimal, separated by `sep`.
pub open spec fn spec_decimal_text(b: Seq<u8>, sep: u8) -> Seq<u8> {
    spec_join(Seq::new(b.len(), |i: int| spec_decimal(b[i])), sep)
}

/// The text of the bytes `b` in two digit hexadecimal, separated by `sep`.
pub open spec fn spec_hex_text(b: Seq<u8>, sep: u8) -> Seq<u8> {
    spec_join(Seq::new(b.len(), |i: int| spec_hex2(b[i])), sep)
}

/// Whether every byte of a text is ASCII.
pub open spec fn spec_is_ascii(b: Seq<u8>) -> bool {
    forall|i: int| 0 <= i < b.len() ==> #[trigger] b[i] < 128
}

/// The characters of an ASCII text.
pub open spec fn spec_ascii_chars(b: Seq<u8>) -> Seq<char> {
    Seq::new(b.len(), |i: int| b[i] as char)
}

/// Makes a string of ASCII bytes with `String::from_utf8`, which accepts
/// every valid UTF-8 byte sequence, ASCII ones among them, and then holds one
/// character per ASCII byte, the character with that code.
#[verifier::external_body]
pub(crate) fn ascii_to_string(bytes: Vec<u8>) -> (s: String)
    requires
        spec_is_ascii(bytes@),
    ensures
        s@ == spec_ascii_chars(bytes@),
{
    String::from_utf8(bytes).unwrap_or_default()
}

/// Appends the decimal digits of `n`.
pub(crate) fn push_decimal(v: &mut Vec<u8>, n: u8)
    ensures
        final(v)@ == old(v)@ + spec_decimal(n),
        spec_is_ascii(old(v)@) ==> spec_is_ascii(final(v)@),
{
    if n >= 100 {
        v.push(0x30 + n / 100);
        v.push(0x30 + (n / 10) % 10);
        v.push(0x30 + n % 10);
    } else if n >= 10 {
        v.push(0x30 + n / 10);
        v.push(0x30 + n % 10);
    } else {
        v.push(0x30 + n);
    }
    assert(v@ =~= old(v)@ + spec_decimal(n));
}

/// Appends the two hexadecimal digits of `n`.
fn push_hex2(v: &mut Vec<u8>, n: u8)
    ensures
        final(v)@ == old(v)@ + spec_hex2(n),
        spec_is_ascii(old(v)@) ==> spec_is_ascii(final(v)@),
{
    let high = n / 16;
    let low = n % 16;
    v.push(if high < 10 {
        0x30 + high
    } else {
        0x41 + high - 10
    });
    v.push(if low < 10 {
        0x30 + low
    } else {
        0x41 + low - 10
    });
    assert(v@ =~= old(v)@ + spec_hex2(n));
}

/// Writes the bytes `b` as text: in decimal or in hexadecimal, separated by
/// `sep`.
pub fn write_fields(b: &[u8], sep: u8, hex: bool) -> (text: Vec<u8>)
    requires
        sep < 128,
    ensures
        spec_is_ascii(text@),
        text@ == if hex {
            spec_hex_text(b@, sep)
        } else {
            spec_decimal_text(b@, sep)
        },
{
    let ghost parts = if hex {
        Seq::new(b@.len(), |i: int| spec_hex2(b@[i]))
    } else {
        Seq::new(b@.len(), |i: int| spec_decimal(b@[i]))
    };
    let mut text: Vec<u8> = Vec::new();
    let mut i: usize = 0;
    while i < b.len()
        invariant
            i <= b@.len(),
            parts.len() == b@.len(),
            forall|j: int|
                0 <= j < b@.len() ==> #[trigger] parts[j] == if hex {
                    spec_hex2(b@[j])
                } else {
                    spec_decimal(b@[j])
                },
            text@ == spec_join(parts.take(i as int), sep),
            sep < 128,
            spec_is_ascii(text@),
        decreases b@.len() - i,
    {
        let ghost before = text@;
        if i > 0 {
            text.push(sep);
        }
        if hex {
            push_hex2(&mut text, b[i]);
        } else {
            push_decimal(&mut text, b[i]);
        }
        proof {
            let t = parts.take(i + 1);
            assert(t.drop_last() =~= parts.take(i as int));
            assert(t.last() == parts[i as int]);
            if i == 0 {
                assert(text@ =~= spec_join(t, sep));
            } else {
                assert(text@ =~= spec_join(t, sep));
            }
        }
        i += 1;
    }
    proof {
        assert(parts.take(i as int) =~= parts);
        if hex {
            assert(parts =~= Seq::new(b@.len(), |i: int| spec_hex2(b@[i])));
        } else {
            assert(parts =~= Seq::new(b@.len(), |i: int| spec_decimal(b@[i])));
        }
    }
    text
}

/// Appending bytes without a separator extends the last token.
proof fn lemma_tokens_extend(s: Seq<u8>, t: Seq<u8>, sep: u8)
    requires
        forall|i: int| 0 <= i < t.len() ==> #[trigger] t[i] != sep,
    ensures
        ({
            let tokens = spec_tokens(s, sep);
            spec_tokens(s + t, sep) == tokens.update(tokens.len() - 1, tokens.last() + t)
        }),
    decreases t.len(),
{
    lemma_tokens_len(s, sep);
    let tokens = spec_tokens(s, sep);
    if t.len() == 0 {
        assert(s + t =~= s);
        assert(tokens.last() + t =~= tokens.last());
        assert(tokens.update(tokens.len() - 1, tokens.last()) =~= tokens);
    } else {
        let u = t.drop_last();
        lemma_tokens_extend(s, u, sep);
        assert((s + t).drop_last() =~= s + u);
        assert((s + t).last() == t.last());
        let tu = spec_tokens(s + u, sep);
        assert(tu.last() == tokens.last() + u);
        assert(tu.last().push(t.last()) =~= tokens.last() + t);
        assert(spec_tokens(s + t, sep) =~= tokens.update(tokens.len() - 1, tokens.last() + t));
    }
}

/// Joining parts without separators with a separator and splitting the
/// result at the separator gives the parts back.
proof fn lemma_tokens_join(parts: Seq<Seq<u8>>, sep: u8)
    requires
        parts.len() >= 1,
        forall|i: int, j: int|
            0 <= i < parts.len() && 0 <= j < parts[i].len() ==> #[trigger] parts[i][j] != sep,
    ensures
        spec_tokens(spec_join(parts, sep), sep) == parts,
    decreases parts.len(),
{
    let last = parts.last();
    assert forall|j: int| 0 <= j < last.len() implies #[trigger] last[j] != sep by {
        assert(parts[parts.len() - 1][j] != sep);
    }
    if parts.len() == 1 {
        lemma_tokens_extend(Seq::empty(), parts[0], sep);
        assert(Seq::<u8>::empty() + parts[0] =~= parts[0]);
        assert(Seq::<u8>::empty() + parts[0] =~= parts[0]);
        assert(spec_tokens(Seq::<u8>::empty(), sep).update(0, Seq::<u8>::empty() + parts[0])
            =~= parts);
    } else {
        let rest = parts.drop_last();
        assert forall|i: int, j: int| 0 <= i < rest.len() && 0 <= j < rest[i].len() implies #[trigger] rest[i][j] != sep by {
            assert(rest[i] == parts[i]);
        }
        lemma_tokens_join(rest, sep);
        let head = spec_join(rest, sep) + seq![sep];
        assert(head.drop_last() =~= spec_join(rest, sep));
        assert(spec_tokens(head, sep) == rest.push(Seq::<u8>::empty()));
        lemma_tokens_extend(head, last, sep);
        assert(Seq::<u8>::empty() + last =~= last);
        assert(rest.push(Seq::<u8>::empty()).update(rest.len() as int, Seq::<u8>::empty() + last)
            =~= parts);
    }
}

/// The decimal digits of a byte read back as the byte.
proof fn lemma_decimal_parses(n: u8)
    ensures
        spec_parse_u8(spec_decimal(n), 10) == Some(n),
        forall|j: int|
            0 <= j < spec_decimal(n).len() ==> #[trigger] spec_digit(spec_decimal(n)[j], 10) is Some,
{
    let d = spec_decimal(n);
    assert(spec_unsigned_digits(d) == d);
    reveal_with_fuel(spec_value, 4);
    if n >= 100 {
        assert(d.drop_last() =~= seq![d[0], d[1]]);
        assert(d.drop_last().drop_last() =~= seq![d[0]]);
        assert(seq![d[0]].drop_last() =~= Seq::<u8>::empty());
        assert(spec_value(d, 10) == n) by (nonlinear_arith)
            requires
                spec_value(d, 10) == ((n / 100) * 10 + (n / 10) % 10) * 10 + n % 10,
        ;
    } else if n >= 10 {
        assert(d.drop_last() =~= seq![d[0]]);
        assert(seq![d[0]].drop_last() =~= Seq::<u8>::empty());
    } else {
        assert(d.drop_last() =~= Seq::<u8>::empty());
    }
}

/// The two hexadecimal digits of a byte read back as the byte.
proof fn lemma_hex_parses(n: u8)
    ensures
        spec_parse_u8(spec_hex2(n), 16) == Some(n),
        forall|j: int| 0 <= j < 2 ==> #[trigger] spec_digit(spec_hex2(n)[j], 16) is Some,
{
    let d = spec_hex2(n);
    assert(spec_unsigned_digits(d) == d);
    reveal_with_fuel(spec_value, 3);
    assert(d.drop_last() =~= seq![d[0]]);
    assert(seq![d[0]].drop_last() =~= Seq::<u8>::empty());
    assert(spec_digit(d[0], 16) == Some((n / 16) as nat));
    assert(spec_digit(d[1], 16) == Some((n % 16) as nat));
}

/// Bytes written as decimal text read back as the bytes, whatever separator
/// that is no digit stands between them.
pub proof fn lemma_decimal_text_round_trip(b: Seq<u8>, sep: u8)
    requires
        b.len() >= 1,
        spec_digit(sep, 10) is None,
    ensures
        spec_parse_fields(spec_decimal_text(b, sep), sep, 10, b.len()) == Some(b),
{
    let parts = Seq::new(b.len(), |i: int| spec_decimal(b[i]));
    assert forall|i: int, j: int| 0 <= i < parts.len() && 0 <= j < parts[i].len() implies #[trigger] parts[i][j] != sep by {
        lemma_decimal_parses(b[i]);
        assert(spec_digit(parts[i][j], 10) is Some);
    }
    lemma_tokens_join(parts, sep);
    assert forall|i: int| 0 <= i < parts.len() implies #[trigger] spec_parse_u8(parts[i], 10) == Some(b[i]) by {
        lemma_decimal_parses(b[i]);
    }
    assert(Seq::new(b.len(), |i: int| spec_parse_u8(parts[i], 10)->Some_0) =~= b);
}

/// Bytes written as hexadecimal text read back as the bytes, whatever
/// separator that is no hexadecimal digit stands between them.
pub proof fn lemma_hex_text_round_trip(b: Seq<u8>, sep: u8)
    requires
        b.len() >= 1,
        spec_digit(sep, 16) is None,
    ensures
        spec_parse_fields(spec_hex_text(b, sep), sep, 16, b.len()) == Some(b),
{
    let parts = Seq::new(b.len(), |i: int| spec_hex2(b[i]));
    assert forall|i: int, j: int| 0 <= i < parts.len() && 0 <= j < parts[i].len() implies #[trigger] parts[i][j] != sep by {
        lemma_hex_parses(b[i]);
        assert(spec_digit(parts[i][j], 16) is Some);
    }
    lemma_tokens_join(parts, sep);
    assert forall|i: int| 0 <= i < parts.len() implies #[trigger] spec_parse_u8(parts[i], 16) == Some(b[i]) by {
        lemma_hex_parses(b[i]);
    }
    assert(Seq::new(b.len(), |i: int| spec_parse_u8(parts[i], 16)->Some_0) =~= b);
}

/// The decimal digits of a byte are its shortest decimal numeral in ASCII:
/// one to three characters from `0` (0x30) to `9` (0x39), no leading zero but
/// for 0 itself, whose value is the byte.
pub proof fn lemma_decimal_form(n: u8)
    ensures
        ({
            let d = spec_decimal(n);
            &&& 1 <= d.len() <= 3
            &&& forall|i: int| 0 <= i < d.len() ==> 0x30 <= #[trigger] d[i] <= 0x39
            &&& d.len() > 1 ==> d[0] != 0x30
            &&& d.len() == 1 ==> d[0] - 0x30 == n
            &&& d.len() == 2 ==> (d[0] - 0x30) * 10 + (d[1] - 0x30) == n
            &&& d.len() == 3 ==> (d[0] - 0x30) * 100 + (d[1] - 0x30) * 10 + (d[2] - 0x30) == n
        }),
{
}

/// The value of an upper case hexadecimal digit character.
pub open spec fn spec_upper_hex_value(c: u8) -> int {
    if c <= 0x39 {
        c - 0x30
    } else {
        c - 0x41 + 10
    }
}

/// The hexadecimal digits of a byte are two upper case ASCII hexadecimal
/// digits (`0` to `9` then `A` to `F`), most significant first, whose value
/// is the byte.
pub proof fn lemma_hex_form(n: u8)
    ensures
        ({
            let d = spec_hex2(n);
            &&& d.len() == 2
            &&& forall|i: int|
                0 <= i < 2 ==> (0x30 <= #[trigger] d[i] <= 0x39 || 0x41 <= d[i] <= 0x46)
            &&& spec_upper_hex_value(d[0]) * 16 + spec_upper_hex_value(d[1]) == n
        }),
{
}

/// Joined parts read from the first to the last: the first part, the
/// separator, and the others joined.
proof fn lemma_join_front(parts: Seq<Seq<u8>>, sep: u8)
    requires
        parts.len() >= 2,
    ensures
        spec_join(parts, sep) == parts[0] + seq![sep] + spec_join(parts.skip(1), sep),
    decreases parts.len(),
{
    if parts.len() == 2 {
        assert(parts.drop_last() =~= seq![parts[0]]);
        assert(parts.skip(1) =~= seq![parts[1]]);
        assert(spec_join(parts.drop_last(), sep) == parts[0]);
        assert(spec_join(parts.skip(1), sep) == parts[1]);
        assert(spec_join(parts, sep) =~= parts[0] + seq![sep] + spec_join(parts.skip(1), sep));
    } else {
        let init = parts.drop_last();
        lemma_join_front(init, sep);
        assert(init.skip(1) =~= parts.skip(1).drop_last());
        assert(parts.skip(1).last() == parts.last());
        assert(spec_join(parts, sep) =~= parts[0] + seq![sep] + spec_join(parts.skip(1), sep));
    }
}

/// Text is written in the order of the bytes: the first byte's numeral, the
/// separator, then the text of the other bytes.
pub proof fn lemma_text_order(b: Seq<u8>, sep: u8)
    requires
        b.len() >= 2,
    ensures
        spec_decimal_text(b, sep) == spec_decimal(b[0]) + seq![sep] + spec_decimal_text(
            b.skip(1),
            sep,
        ),
        spec_hex_text(b, sep) == spec_hex2(b[0]) + seq![sep] + spec_hex_text(b.skip(1), sep),
{
    let dp = Seq::new(b.len(), |i: int| spec_decimal(b[i]));
    let hp = Seq::new(b.len(), |i: int| spec_hex2(b[i]));
    lemma_join_front(dp, sep);
    lemma_join_front(hp, sep);
    assert(dp.skip(1) =~= Seq::new(b.skip(1).len(), |i: int| spec_decimal(b.skip(1)[i])));
    assert(hp.skip(1) =~= Seq::new(b.skip(1).len(), |i: int| spec_hex2(b.skip(1)[i])));
}

} // verus!
