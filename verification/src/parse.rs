//! Reading a CIDR range from text of the form `address/prefix`.
//!
//! The text is taken as its UTF-8 bytes. What counts as an address is left to
//! the caller, who passes the function that reads one; the rest of the grammar
//! (one slash, a decimal prefix length, the bound that the family sets) is
//! decided here.

use vstd::prelude::*;
use vstd::string::StringSliceAdditionalSpecFns;
use vstd::utf8::*;
use crate::addr::IpAddress;
use crate::allowed_ip::AllowedIP;
use crate::error::ParseError;

verus! {

/// The byte `/`, which parts the address from the prefix length.
pub const SLASH: u8 = 0x2f;

/// The byte `+`, which may stand before the digits of a number.
pub const PLUS: u8 = 0x2b;

/// Whether `b` is one of the digits `0` to `9`.
pub open spec fn is_digit(b: u8) -> bool {
    0x30 <= b <= 0x39
}

/// The number that a digit stands for, and 0 for any other byte.
pub open spec fn digit_value(b: u8) -> nat {
    if is_digit(b) {
        (b - 0x30) as nat
    } else {
        0
    }
}

/// Whether every byte of `text` is a digit.
pub open spec fn all_digits(text: Seq<u8>) -> bool {
    forall|i: int| 0 <= i < text.len() ==> is_digit(#[trigger] text[i])
}

/// The number that the digits of `text` denote in base ten.
pub open spec fn decimal_value(text: Seq<u8>) -> nat
    decreases text.len(),
{
    if text.len() == 0 {
        0
    } else {
        decimal_value(text.drop_last()) * 10 + digit_value(text.last())
    }
}

/// The digits of a number: the text without a `+` in front.
pub open spec fn unsigned_part(text: Seq<u8>) -> Seq<u8> {
    if text.len() > 0 && text[0] == PLUS {
        text.skip(1)
    } else {
        text
    }
}

/// The prefix length that `text` denotes: one or more decimal digits, with or
/// without a `+` in front and nothing else around them, that make a number
/// of at most 255.
pub open spec fn spec_parse_prefix(text: Seq<u8>) -> Option<u8> {
    let digits = unsigned_part(text);
    if digits.len() > 0 && all_digits(digits) && decimal_value(digits) <= 255 {
        Some(decimal_value(digits) as u8)
    } else {
        None
    }
}

/// The position of the first slash in `text`, or the length of `text` if it
/// has none.
pub open spec fn first_slash(text: Seq<u8>) -> int
    decreases text.len(),
{
    if text.len() == 0 || text[0] == SLASH {
        0
    } else {
        1 + first_slash(text.skip(1))
    }
}

/// What stands before the first slash of `text`.
pub open spec fn address_field(text: Seq<u8>) -> Seq<u8> {
    text.take(first_slash(text))
}

/// What stands after the first slash of `text`.
pub open spec fn prefix_field(text: Seq<u8>) -> Seq<u8> {
    text.skip(first_slash(text) + 1)
}

/// Whether `text` has exactly one slash.
pub open spec fn splits(text: Seq<u8>) -> bool {
    first_slash(text) < text.len() && !prefix_field(text).contains(SLASH)
}

/// The two fields of `text`, before and after its slash, if it has exactly one.
pub open spec fn spec_split(text: Seq<u8>) -> Option<(Seq<u8>, Seq<u8>)> {
    if splits(text) {
        Some((address_field(text), prefix_field(text)))
    } else {
        None
    }
}

/// The range that an address and a prefix length make, if both were read and
/// the prefix is no longer than an address of that family.
pub open spec fn spec_from_fields(addr: Option<IpAddress>, cidr: Option<u8>) -> Result<
    AllowedIP,
    ParseError,
> {
    match (addr, cidr) {
        (Some(addr), Some(cidr)) => if cidr <= addr.spec_max_prefix() {
            Ok(AllowedIP { addr, cidr })
        } else {
            Err(ParseError::InvalidFormat)
        },
        _ => Err(ParseError::InvalidFormat),
    }
}

/// The range that `text` denotes when its address field reads as `addr`.
pub open spec fn spec_parse(text: Seq<u8>, addr: Option<IpAddress>) -> Result<
    AllowedIP,
    ParseError,
> {
    if splits(text) {
        spec_from_fields(addr, spec_parse_prefix(prefix_field(text)))
    } else {
        Err(ParseError::InvalidFormat)
    }
}

/// The digits of `n` in base ten, without leading zeros.
pub open spec fn decimal_text(n: nat) -> Seq<u8>
    decreases n,
{
    if n < 10 {
        seq![(0x30 + n) as u8]
    } else {
        decimal_text(n / 10).push((0x30 + n % 10) as u8)
    }
}

/// The first slash lies within the text or at its end; no slash stands before
/// it, and one stands at it unless it is the end.
pub proof fn lemma_first_slash(text: Seq<u8>)
    ensures
        0 <= first_slash(text) <= text.len(),
        first_slash(text) < text.len() ==> text[first_slash(text)] == SLASH,
        forall|i: int| 0 <= i < first_slash(text) ==> #[trigger] text[i] != SLASH,
    decreases text.len(),
{
    if text.len() != 0 && text[0] != SLASH {
        let rest = text.skip(1);
        lemma_first_slash(rest);
        assert forall|i: int| 0 <= i < first_slash(text) implies #[trigger] text[i] != SLASH by {
            if i > 0 {
                assert(text[i] == rest[i - 1]);
            }
        }
    }
}

/// A position that holds a slash and has none before it is the first slash.
pub proof fn lemma_first_slash_is(text: Seq<u8>, at: int)
    requires
        0 <= at <= text.len(),
        at < text.len() ==> text[at] == SLASH,
        forall|i: int| 0 <= i < at ==> #[trigger] text[i] != SLASH,
    ensures
        first_slash(text) == at,
{
    lemma_first_slash(text);
    let f = first_slash(text);
    if f < at {
        assert(text[f] != SLASH);
    }
}

/// A longer number is no smaller than what its first digits denote.
pub proof fn lemma_decimal_value_grows(text: Seq<u8>, n: int)
    requires
        0 <= n <= text.len(),
    ensures
        decimal_value(text.take(n)) <= decimal_value(text),
    decreases text.len(),
{
    if n == text.len() {
        assert(text.take(n) =~= text);
    } else {
        lemma_decimal_value_grows(text.drop_last(), n);
        assert(text.drop_last().take(n) =~= text.take(n));
    }
}

/// Reads a prefix length.
pub fn parse_prefix(text: &[u8]) -> (r: Option<u8>)
    ensures
        r == spec_parse_prefix(text@),
{
    let n = text.len();
    let start: usize = if n > 0 && text[0] == PLUS {
        1
    } else {
        0
    };
    let ghost digits = unsigned_part(text@);
    assert(digits =~= text@.skip(start as int));
    if start == n {
        return None;
    }
    let mut value: u16 = 0;
    let mut i: usize = start;
    assert(digits.take(0) =~= Seq::<u8>::empty());
    while i < n
        invariant
            start <= i <= n,
            n == text@.len(),
            digits == text@.skip(start as int),
            digits == unsigned_part(text@),
            all_digits(digits.take(i - start)),
            value == decimal_value(digits.take(i - start)),
            value <= 255,
        decreases n - i,
    {
        let b = text[i];
        let ghost k = i - start;
        if b < 0x30 || b > 0x39 {
            assert(!is_digit(digits[k]));
            return None;
        }
        proof {
            let longer = digits.take(k + 1);
            assert(longer.drop_last() =~= digits.take(k));
            assert(longer.last() == b);
            lemma_decimal_value_grows(digits, k + 1);
            assert forall|j: int| 0 <= j < longer.len() implies is_digit(#[trigger] longer[j]) by {
                if j < k {
                    assert(digits.take(k)[j] == longer[j]);
                }
            }
        }
        let next: u16 = value * 10 + (b - 0x30) as u16;
        if next > 255 {
            return None;
        }
        value = next;
        i += 1;
    }
    assert(digits.take(n - start) =~= digits);
    Some(value as u8)
}

/// Parts a text at its slash.
pub fn split_fields(text: &str) -> (r: Option<(&str, &str)>)
    ensures
        match r {
            Some((head, tail)) => spec_split(text.spec_bytes()) == Some(
                (head.spec_bytes(), tail.spec_bytes()),
            ),
            None => spec_split(text.spec_bytes()) is None,
        },
{
    broadcast use encode_utf8_valid_utf8;

    let bytes = text.as_bytes();
    let n = bytes.len();
    let mut at: usize = 0;
    while at < n && bytes[at] != SLASH
        invariant
            at <= n,
            n == bytes@.len(),
            forall|i: int| 0 <= i < at ==> #[trigger] bytes@[i] != SLASH,
        decreases n - at,
    {
        at += 1;
    }
    proof {
        lemma_first_slash_is(bytes@, at as int);
    }
    if at == n {
        return None;
    }
    let mut i: usize = at + 1;
    while i < n
        invariant
            at < i <= n,
            n == bytes@.len(),
            bytes@ == text.spec_bytes(),
            first_slash(bytes@) == at,
            forall|j: int| at < j < i ==> #[trigger] bytes@[j] != SLASH,
        decreases n - i,
    {
        if bytes[i] == SLASH {
            assert(bytes@.skip(at + 1)[i - at - 1] == SLASH);
            return None;
        }
        i += 1;
    }
    assert(!bytes@.skip(at + 1).contains(SLASH));
    proof {
        is_char_boundary_iff_not_is_continuation_byte(bytes@, at as int);
    }
    let (head, rest) = text.split_at(at);
    proof {
        let rb = rest.spec_bytes();
        assert(rb[0] == SLASH);
        assert(valid_utf8(rb));
        reveal_with_fuel(is_char_boundary, 2);
        assert(is_char_boundary(rb, 1));
    }
    let (_, tail) = rest.split_at(1);
    assert(head.spec_bytes() =~= bytes@.take(at as int));
    assert(tail.spec_bytes() =~= bytes@.skip(at + 1));
    Some((head, tail))
}

impl AllowedIP {
    /// Makes a range of what was read from the two fields of a text.
    pub fn from_fields(addr: Option<IpAddress>, cidr: Option<u8>) -> (r: Result<
        AllowedIP,
        ParseError,
    >)
        ensures
            r == spec_from_fields(addr, cidr),
            r is Ok ==> r->Ok_0.wf(),
    {
        match (addr, cidr) {
            (Some(addr), Some(cidr)) => {
                if cidr <= addr.max_prefix() {
                    Ok(AllowedIP { addr, cidr })
                } else {
                    Err(ParseError::InvalidFormat)
                }
            },
            _ => Err(ParseError::InvalidFormat),
        }
    }

    /// Reads a range from `text`, with `parse_addr` to read the address.
    ///
    /// A text that is not two fields around one slash is refused without
    /// `parse_addr` being asked. Otherwise the result is made of what
    /// `parse_addr` returns for the first field and of the prefix length that
    /// the second denotes.
    pub fn from_str(text: &str, parse_addr: impl Fn(&str) -> Option<IpAddress>) -> (r: Result<
        AllowedIP,
        ParseError,
    >)
        requires
            forall|field: &str| call_requires(parse_addr, (field,)),
        ensures
            !splits(text.spec_bytes()) ==> r == Err::<AllowedIP, ParseError>(
                ParseError::InvalidFormat,
            ),
            splits(text.spec_bytes()) ==> exists|field: &str, addr: Option<IpAddress>|
                {
                    &&& field.spec_bytes() == address_field(text.spec_bytes())
                    &&& call_ensures(parse_addr, (field,), addr)
                    &&& r == spec_parse(text.spec_bytes(), addr)
                },
            r is Ok ==> r->Ok_0.wf(),
    {
        match split_fields(text) {
            None => Err(ParseError::InvalidFormat),
            Some((head, tail)) => {
                let addr = parse_addr(head);
                let cidr = parse_prefix(tail.as_bytes());
                Self::from_fields(addr, cidr)
            },
        }
    }
}

/// A text with a slash between two fields that hold none splits into these
/// two fields.
pub proof fn lemma_split(head: Seq<u8>, tail: Seq<u8>)
    requires
        !head.contains(SLASH),
        !tail.contains(SLASH),
    ensures
        spec_split(head + seq![SLASH] + tail) == Some((head, tail)),
{
    let text = head + seq![SLASH] + tail;
    let at = head.len() as int;
    assert(text[at] == SLASH);
    assert forall|i: int| 0 <= i < at implies #[trigger] text[i] != SLASH by {
        assert(text[i] == head[i]);
        assert(head.contains(head[i]));
    }
    lemma_first_slash_is(text, at);
    assert(text.take(at) =~= head);
    assert(text.skip(at + 1) =~= tail);
}

/// A text that splits has exactly one slash: the one between its fields.
pub proof fn lemma_split_one_slash(text: Seq<u8>)
    requires
        splits(text),
    ensures
        text == address_field(text) + seq![SLASH] + prefix_field(text),
        !address_field(text).contains(SLASH),
        !prefix_field(text).contains(SLASH),
{
    lemma_first_slash(text);
    let at = first_slash(text);
    let head = text.take(at);
    assert(text =~= head + seq![SLASH] + text.skip(at + 1));
    if head.contains(SLASH) {
        let i = choose|i: int| 0 <= i < head.len() && head[i] == SLASH;
        assert(text[i] == SLASH);
    }
}

/// The digits of a number of at most 255 read back as that number.
pub proof fn lemma_decimal_round_trip(n: nat)
    requires
        n <= 255,
    ensures
        spec_parse_prefix(decimal_text(n)) == Some(n as u8),
{
    lemma_decimal_text(n);
    let text = decimal_text(n);
    assert(is_digit(text[0]));
}

/// The digits of a number are digits, at least one, and denote the number.
pub proof fn lemma_decimal_text(n: nat)
    ensures
        decimal_text(n).len() > 0,
        all_digits(decimal_text(n)),
        decimal_value(decimal_text(n)) == n,
    decreases n,
{
    let text = decimal_text(n);
    if n < 10 {
        assert(text.drop_last() =~= Seq::<u8>::empty());
        assert(decimal_value(text.drop_last()) == 0);
    } else {
        let front = decimal_text(n / 10);
        lemma_decimal_text(n / 10);
        assert(text.drop_last() =~= front);
        assert forall|i: int| 0 <= i < text.len() implies is_digit(#[trigger] text[i]) by {
            if i < front.len() {
                assert(text[i] == front[i]);
            }
        }
    }
}

/// Valid texts are read as what they say. Let `addr_text` be a text without
/// a slash that reads as the address `addr`, and let `prefix_text` denote a
/// prefix length `cidr` that the family of `addr` allows. Then the text made
/// of `addr_text`, a slash and `prefix_text` is read as the range of `addr`
/// and `cidr`. The decimal digits of any such `cidr` are such a `prefix_text`.
pub proof fn lemma_valid_text_is_read(
    addr_text: Seq<u8>,
    prefix_text: Seq<u8>,
    addr: IpAddress,
    cidr: u8,
)
    requires
        !addr_text.contains(SLASH),
        spec_parse_prefix(prefix_text) == Some(cidr),
        cidr <= addr.spec_max_prefix(),
    ensures
        spec_split(addr_text + seq![SLASH] + prefix_text) == Some((addr_text, prefix_text)),
        spec_parse(addr_text + seq![SLASH] + prefix_text, Some(addr)) == Ok::<
            AllowedIP,
            ParseError,
        >(AllowedIP { addr, cidr }),
        spec_parse_prefix(decimal_text(cidr as nat)) == Some(cidr),
{
    let digits = unsigned_part(prefix_text);
    if prefix_text.contains(SLASH) {
        let i = choose|i: int| 0 <= i < prefix_text.len() && prefix_text[i] == SLASH;
        if prefix_text[0] == PLUS {
            assert(is_digit(digits[i - 1]));
        } else {
            assert(is_digit(digits[i]));
        }
    }
    lemma_split(addr_text, prefix_text);
    lemma_decimal_round_trip(cidr as nat);
}

/// Invalid texts are refused. A text is read as no range, whatever its
/// address field reads as, if it has no slash or more than one, if what
/// follows the slash is empty, holds anything but digits after an optional
/// `+`, or denotes a number above 255. It is read as no range either if its
/// address field reads as no address, or if the prefix length is longer than
/// an address of that family.
pub proof fn lemma_invalid_text_is_refused(text: Seq<u8>, addr: Option<IpAddress>)
    ensures
        !text.contains(SLASH) ==> spec_parse(text, addr) is Err,
        (exists|i: int, j: int|
            0 <= i < j < text.len() && text[i] == SLASH && text[j] == SLASH) ==> spec_parse(
            text,
            addr,
        ) is Err,
        spec_parse_prefix(prefix_field(text)) is None ==> spec_parse(text, addr) is Err,
        addr is None ==> spec_parse(text, addr) is Err,
        addr is Some && spec_parse_prefix(prefix_field(text)) is Some && spec_parse_prefix(
            prefix_field(text),
        )->0 > addr->0.spec_max_prefix() ==> spec_parse(text, addr) is Err,
        spec_parse(text, addr) is Err ==> spec_parse(text, addr) == Err::<AllowedIP, ParseError>(
            ParseError::InvalidFormat,
        ),
{
    lemma_first_slash(text);
    let at = first_slash(text);
    if !text.contains(SLASH) {
        if at < text.len() {
            assert(text.contains(text[at]));
        }
    }
    if exists|i: int, j: int| 0 <= i < j < text.len() && text[i] == SLASH && text[j] == SLASH {
        let (i, j) = choose|i: int, j: int|
            0 <= i < j < text.len() && text[i] == SLASH && text[j] == SLASH;
        assert(at <= i);
        assert(text.skip(at + 1)[j - at - 1] == SLASH);
    }
}

/// What a prefix length is not: the empty text, a text with a byte that is no
/// digit after the optional `+`, and a number above 255 denote none.
pub proof fn lemma_not_a_prefix(text: Seq<u8>)
    ensures
        unsigned_part(text).len() == 0 ==> spec_parse_prefix(text) is None,
        !all_digits(unsigned_part(text)) ==> spec_parse_prefix(text) is None,
        decimal_value(unsigned_part(text)) > 255 ==> spec_parse_prefix(text) is None,
{
}

} // verus!
