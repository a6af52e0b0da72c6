//! Reading of request headers: what a request's headers say about the
//! connection and about the framing of the body.
//!
//! Where a header that is read for its value occurs more than once, the
//! last one counts. Names are matched whatever the case of their letters,
//! and so are the values that are keywords; blanks around a value are not
//! part of it.

use vstd::prelude::*;
use vstd::slice::slice_subrange;
use vstd::string::StringSliceAdditionalSpecFns;
use crate::encoder::{digits, headers_view, names_match, same_name, Fields, Header};
use crate::message::{ConnectionType, Method, ParseError, RequestHead, Version};

verus! {

/// Whether `b` is a blank: a space or a tab.
pub open spec fn is_blank(b: u8) -> bool {
    b == 32 || b == 9
}

/// `s` without the blanks at its start.
pub open spec fn trim_start(s: Seq<u8>) -> Seq<u8>
    decreases s.len(),
{
    if s.len() > 0 && is_blank(s[0]) {
        trim_start(s.drop_first())
    } else {
        s
    }
}

/// `s` without the blanks at its end.
pub open spec fn trim_end(s: Seq<u8>) -> Seq<u8>
    decreases s.len(),
{
    if s.len() > 0 && is_blank(s.last()) {
        trim_end(s.drop_last())
    } else {
        s
    }
}

/// `s` without the blanks around it.
pub open spec fn trimmed(s: Seq<u8>) -> Seq<u8> {
    trim_end(trim_start(s))
}

/// Whether `b` is a decimal digit.
pub open spec fn is_digit(b: u8) -> bool {
    48 <= b <= 57
}

/// Whether `s` is made of decimal digits, at least one.
pub open spec fn is_decimal(s: Seq<u8>) -> bool {
    s.len() > 0 && forall|i: int| 0 <= i < s.len() ==> is_digit(#[trigger] s[i])
}

/// The number that the decimal digits `s` write.
pub open spec fn decimal_value(s: Seq<u8>) -> nat
    decreases s.len(),
{
    if s.len() == 0 {
        0
    } else {
        (10 * decimal_value(s.drop_last()) + (s.last() - 48)) as nat
    }
}

/// The number that `s` writes in decimal, if it writes one that fits.
pub open spec fn decimal_spec(s: Seq<u8>) -> Option<u64> {
    if is_decimal(s) && decimal_value(s) <= u64::MAX {
        Some(decimal_value(s) as u64)
    } else {
        None
    }
}

/// The position of the last header named `name`, if there is one.
pub open spec fn last_named(headers: Fields, name: Seq<u8>) -> Option<int>
    decreases headers.len(),
{
    if headers.len() == 0 {
        None
    } else if same_name(headers.last().0, name) {
        Some(headers.len() - 1)
    } else {
        last_named(headers.drop_last(), name)
    }
}

/// The value of the last header named `name`, without the blanks around it.
pub open spec fn value_of(headers: Fields, name: Seq<u8>) -> Option<Seq<u8>> {
    match last_named(headers, name) {
        Some(i) => Some(trimmed(headers[i].1)),
        None => None,
    }
}

/// What the `Connection` header asks for, if it is there and asks for
/// something known.
pub open spec fn connection_spec(headers: Fields) -> Option<ConnectionType> {
    match value_of(headers, "connection".spec_bytes()) {
        Some(v) => if same_name(v, "keep-alive".spec_bytes()) {
            Some(ConnectionType::KeepAlive)
        } else if same_name(v, "close".spec_bytes()) {
            Some(ConnectionType::Close)
        } else if same_name(v, "upgrade".spec_bytes()) {
            Some(ConnectionType::Upgrade)
        } else {
            None
        },
        None => None,
    }
}

/// Whether the last header named `name` has the value `keyword`.
pub open spec fn says(headers: Fields, name: Seq<u8>, keyword: Seq<u8>) -> bool {
    match value_of(headers, name) {
        Some(v) => same_name(v, keyword),
        None => false,
    }
}

/// The content length the headers give: none without the header, and a
/// refusal where its value is no number that fits.
pub open spec fn content_length_spec(headers: Fields) -> Result<Option<u64>, ParseError> {
    match value_of(headers, "content-length".spec_bytes()) {
        Some(v) => match decimal_spec(v) {
            Some(n) => Ok(Some(n)),
            None => Err(ParseError::Malformed),
        },
        None => Ok(None),
    }
}

/// What the connection logic reads of a request with the method `method`,
/// the version `version` and the headers `headers`.
pub open spec fn interpret_spec(method: Method, version: Version, headers: Fields) -> Result<
    RequestHead,
    ParseError,
> {
    match content_length_spec(headers) {
        Ok(content_length) => Ok(
            RequestHead {
                method,
                version,
                connection: connection_spec(headers),
                upgrade: last_named(headers, "upgrade".spec_bytes()) is Some,
                expect_continue: says(
                    headers,
                    "expect".spec_bytes(),
                    "100-continue".spec_bytes(),
                ),
                chunked: says(
                    headers,
                    "transfer-encoding".spec_bytes(),
                    "chunked".spec_bytes(),
                ),
                content_length,
            },
        ),
        Err(e) => Err(e),
    }
}

/// `s` without the blanks around it.
pub fn trim(s: &[u8]) -> (r: &[u8])
    ensures
        r@ == trimmed(s@),
{
    let mut start: usize = 0;
    assert(s@.skip(0) =~= s@);
    while start < s.len() && (s[start] == 32 || s[start] == 9)
        invariant
            0 <= start <= s@.len(),
            trim_start(s@) == trim_start(s@.skip(start as int)),
        decreases s.len() - start,
    {
        proof {
            let rest = s@.skip(start as int);
            assert(rest[0] == s@[start as int]);
            assert(rest.drop_first() =~= s@.skip(start + 1));
        }
        start = start + 1;
    }
    proof {
        let rest = s@.skip(start as int);
        if rest.len() > 0 {
            assert(rest[0] == s@[start as int]);
        }
        assert(trim_start(s@) == rest);
    }
    let mut end: usize = s.len();
    while end > start && (s[end - 1] == 32 || s[end - 1] == 9)
        invariant
            start <= end <= s@.len(),
            trim_end(s@.skip(start as int)) == trim_end(s@.subrange(start as int, end as int)),
        decreases end - start,
    {
        proof {
            let part = s@.subrange(start as int, end as int);
            assert(part.last() == s@[end - 1]);
            assert(part.drop_last() =~= s@.subrange(start as int, end - 1));
        }
        end = end - 1;
    }
    proof {
        let part = s@.subrange(start as int, end as int);
        if part.len() > 0 {
            assert(part.last() == s@[end - 1]);
        }
        assert(s@.skip(start as int) =~= s@.subrange(start as int, s@.len() as int));
        assert(trim_end(part) == part);
    }
    slice_subrange(s, start, end)
}

proof fn lemma_decimal_grows(s: Seq<u8>)
    requires
        s.len() > 0,
        is_digit(s.last()),
    ensures
        decimal_value(s.drop_last()) <= decimal_value(s),
{
}

/// The number that `s` writes in decimal, if it writes one that fits.
pub fn parse_decimal(s: &[u8]) -> (r: Option<u64>)
    ensures
        r == decimal_spec(s@),
{
    if s.len() == 0 {
        return None;
    }
    let mut acc: u64 = 0;
    let mut i: usize = 0;
    assert(s@.take(0) =~= Seq::<u8>::empty());
    while i < s.len()
        invariant
            0 <= i <= s@.len(),
            s@.len() > 0,
            forall|j: int| 0 <= j < i ==> is_digit(#[trigger] s@[j]),
            acc == decimal_value(s@.take(i as int)),
        decreases s.len() - i,
    {
        let b: u8 = s[i];
        if b < 48 || b > 57 {
            return None;
        }
        let d: u64 = (b - 48) as u64;
        proof {
            let next = s@.take(i + 1);
            assert(next.drop_last() =~= s@.take(i as int));
            assert(next.last() == b);
        }
        if acc > (u64::MAX - d) / 10 {
            proof {
                assert(decimal_value(s@.take(i + 1)) > u64::MAX);
                if is_decimal(s@) {
                    lemma_decimal_prefix(s@, i + 1);
                }
            }
            return None;
        }
        acc = acc * 10 + d;
        i = i + 1;
    }
    assert(s@.take(i as int) =~= s@);
    Some(acc)
}

proof fn lemma_decimal_prefix(s: Seq<u8>, k: int)
    requires
        0 <= k <= s.len(),
        is_decimal(s),
    ensures
        decimal_value(s.take(k)) <= decimal_value(s),
    decreases s.len() - k,
{
    if k < s.len() {
        lemma_decimal_prefix(s, k + 1);
        let next = s.take(k + 1);
        assert(next.drop_last() =~= s.take(k));
        assert(next.last() == s[k]);
        lemma_decimal_grows(next);
    } else {
        assert(s.take(k) =~= s);
    }
}

/// The position of the last header named `name`, if there is one.
pub fn find_last(headers: &Vec<Header>, name: &[u8]) -> (r: Option<usize>)
    ensures
        match r {
            Some(i) => last_named(headers_view(headers@), name@) == Some(i as int) && i
                < headers@.len(),
            None => last_named(headers_view(headers@), name@) is None,
        },
{
    let ghost fields = headers_view(headers@);
    let mut i: usize = headers.len();
    assert(fields.take(i as int) =~= fields);
    while i > 0
        invariant
            fields == headers_view(headers@),
            0 <= i <= headers@.len(),
            last_named(fields, name@) == last_named(fields.take(i as int), name@),
        decreases i,
    {
        proof {
            let part = fields.take(i as int);
            assert(part.last() == fields[i - 1]);
            assert(part.last().0 == headers@[i - 1].0@);
            assert(part.drop_last() =~= fields.take(i - 1));
        }
        i = i - 1;
        if names_match(headers[i].0.as_slice(), name) {
            return Some(i);
        }
    }
    None
}

fn value<'a>(headers: &'a Vec<Header>, name: &[u8]) -> (r: Option<&'a [u8]>)
    ensures
        match r {
            Some(v) => value_of(headers_view(headers@), name@) == Some(v@),
            None => value_of(headers_view(headers@), name@) is None,
        },
{
    match find_last(headers, name) {
        Some(i) => Some(trim(headers[i].1.as_slice())),
        None => None,
    }
}

fn header_says(headers: &Vec<Header>, name: &str, keyword: &str) -> (r: bool)
    ensures
        r == says(headers_view(headers@), name.spec_bytes(), keyword.spec_bytes()),
{
    match value(headers, name.as_bytes()) {
        Some(v) => names_match(v, keyword.as_bytes()),
        None => false,
    }
}

fn connection(headers: &Vec<Header>) -> (r: Option<ConnectionType>)
    ensures
        r == connection_spec(headers_view(headers@)),
{
    match value(headers, "connection".as_bytes()) {
        Some(v) => {
            if names_match(v, "keep-alive".as_bytes()) {
                Some(ConnectionType::KeepAlive)
            } else if names_match(v, "close".as_bytes()) {
                Some(ConnectionType::Close)
            } else if names_match(v, "upgrade".as_bytes()) {
                Some(ConnectionType::Upgrade)
            } else {
                None
            }
        },
        None => None,
    }
}

fn content_length(headers: &Vec<Header>) -> (r: Result<Option<u64>, ParseError>)
    ensures
        r == content_length_spec(headers_view(headers@)),
{
    match value(headers, "content-length".as_bytes()) {
        Some(v) => match parse_decimal(v) {
            Some(n) => Ok(Some(n)),
            None => Err(ParseError::Malformed),
        },
        None => Ok(None),
    }
}

/// Reads from the headers of a request what the connection logic needs:
/// what the `Connection` header asks for, whether an `Upgrade` header is
/// there, whether `Expect` says `100-continue`, whether `Transfer-Encoding`
/// says `chunked`, and the `Content-Length`. A content length that is no
/// number, or does not fit, refuses the request.
pub fn interpret(method: Method, version: Version, headers: &Vec<Header>) -> (r: Result<
    RequestHead,
    ParseError,
>)
    ensures
        r == interpret_spec(method, version, headers_view(headers@)),
{
    let length = match content_length(headers) {
        Ok(n) => n,
        Err(e) => {
            return Err(e);
        },
    };
    Ok(
        RequestHead {
            method,
            version,
            connection: connection(headers),
            upgrade: find_last(headers, "upgrade".as_bytes()).is_some(),
            expect_continue: header_says(headers, "expect", "100-continue"),
            chunked: header_says(headers, "transfer-encoding", "chunked"),
            content_length: length,
        },
    )
}

proof fn lemma_digits_decimal(n: nat)
    ensures
        is_decimal(digits(n)),
        decimal_value(digits(n)) == n,
    decreases n,
{
    if n < 10 {
        let s = digits(n);
        assert(s.len() == 1);
        assert(s.drop_last() =~= Seq::<u8>::empty());
        assert(decimal_value(s.drop_last()) == 0);
    } else {
        lemma_digits_decimal(n / 10);
        let s = digits(n);
        let front = digits(n / 10);
        assert(s.drop_last() =~= front);
        assert(s.last() == (48 + n % 10) as u8);
        assert forall|i: int| 0 <= i < s.len() implies is_digit(#[trigger] s[i]) by {
            if i < front.len() {
                assert(s[i] == front[i]);
            }
        }
    }
}

/// A length is read back as it was written.
///
/// The digits that the encoder writes for a length `n` are read by
/// [`parse_decimal`] as `n`.
pub proof fn lemma_length_round_trip(n: u64)
    ensures
        decimal_spec(digits(n as nat)) == Some(n),
{
    lemma_digits_decimal(n as nat);
}

} // verus!
