use vstd::prelude::*;
use sha2::{Digest, Sha224};
use vstd::string::StringSliceAdditionalSpecFns;
use vstd::utf8::{encode_utf8, is_ascii_chars, is_ascii_chars_encode_utf8};
use crate::tproto::common::command::Command;
use crate::tproto::common::request::{InboundProtocol, InboundRequest, InboundRequestView};
use crate::tproto::trojan::base::{spec_into_request, HEX_SIZE};
use crate::tproto::trojan::base::RequestView;
use crate::tproto::trojan::parser::{
    lemma_parse_request_roundtrip, parse_trojan, spec_parse_request, spec_request_wf,
    spec_request_wire, ParseError,
};

verus! {

/// The SHA-224 digest of `data`, as `sha2::Sha224` computes it.
pub uninterp spec fn sha224(data: Seq<u8>) -> Seq<u8>;

/// `sha2::Sha224::digest` (the `Digest::digest` of `sha2`): trusted to return the SHA-224 digest
/// of `data`, named `sha224`, whose output type holds 28 bytes.
#[verifier::external_body]
pub(crate) fn sha224_digest(data: &[u8]) -> (d: Vec<u8>)
    ensures
        d@ == sha224(data@),
        d@.len() == 28,
{
    Sha224::digest(data).to_vec()
}

/// The lower-case hexadecimal digit (an ASCII byte) for a number below 16.
pub open spec fn spec_hex_digit(n: u8) -> u8 {
    if n < 10 {
        (48 + n) as u8
    } else {
        (87 + n) as u8
    }
}

/// The `i`-th character of the lower-case hex form of `d`: two digits per byte, high first.
pub open spec fn spec_hex_digit_at(d: Seq<u8>, i: int) -> u8 {
    if i % 2 == 0 {
        spec_hex_digit(d[i / 2] / 16)
    } else {
        spec_hex_digit(d[i / 2] % 16)
    }
}

/// The lower-case hex form of `d`, as ASCII bytes (each byte written as `{:02x}`).
pub open spec fn spec_hex_lower(d: Seq<u8>) -> Seq<u8> {
    Seq::new(2 * d.len(), |i: int| spec_hex_digit_at(d, i))
}

/// The lower-case hex form of `d`, as characters.
pub open spec fn spec_hex_lower_chars(d: Seq<u8>) -> Seq<char> {
    Seq::new(2 * d.len(), |i: int| spec_hex_digit_at(d, i) as char)
}

/// The digit for a number below 16.
fn hex_digit(n: u8) -> (c: u8)
    requires
        n < 16,
    ensures
        c == spec_hex_digit(n),
{
    if n < 10 {
        48 + n
    } else {
        87 + n
    }
}

/// Writes each byte of `d` as two lower-case hex digits.
pub fn hex_lower(d: &[u8]) -> (h: Vec<u8>)
    ensures
        h@ == spec_hex_lower(d@),
{
    let mut h: Vec<u8> = Vec::new();
    let mut k: usize = 0;
    while k < d.len()
        invariant
            k <= d@.len(),
            h@.len() == 2 * k,
            forall|j: int| 0 <= j < 2 * k ==> h@[j] == #[trigger] spec_hex_digit_at(d@, j),
        decreases d@.len() - k,
    {
        let b = d[k];
        h.push(hex_digit(b / 16));
        h.push(hex_digit(b % 16));
        assert forall|j: int| 0 <= j < 2 * (k + 1) implies h@[j] == #[trigger] spec_hex_digit_at(d@, j) by {
            if j == 2 * k {
                assert(j / 2 == k && j % 2 == 0);
            } else if j == 2 * k + 1 {
                assert(j / 2 == k && j % 2 == 1);
            }
        }
        k = k + 1;
    }
    assert(h@ =~= spec_hex_lower(d@));
    h
}

/// The lower-case hex form of the SHA-224 digest of `sec`: the 56-byte secret a Trojan client
/// sends.
pub fn secret_to_passeord_temp(sec: &[u8]) -> (hash: Vec<u8>)
    ensures
        hash@ == spec_hex_lower(sha224(sec@)),
        hash@.len() == HEX_SIZE,
{
    let digest = sha224_digest(sec);
    let hash = hex_lower(digest.as_slice());
    hash
}


/// The digit for a number below 16, as a one-character string.
fn hex_digit_str(n: u8) -> (s: &'static str)
    requires
        n < 16,
    ensures
        s@ == seq![spec_hex_digit(n) as char],
{
    if n == 0 {
        proof {
            reveal_strlit("0");
        }
        "0"
    } else if n == 1 {
        proof {
            reveal_strlit("1");
        }
        "1"
    } else if n == 2 {
        proof {
            reveal_strlit("2");
        }
        "2"
    } else if n == 3 {
        proof {
            reveal_strlit("3");
        }
        "3"
    } else if n == 4 {
        proof {
            reveal_strlit("4");
        }
        "4"
    } else if n == 5 {
        proof {
            reveal_strlit("5");
        }
        "5"
    } else if n == 6 {
        proof {
            reveal_strlit("6");
        }
        "6"
    } else if n == 7 {
        proof {
            reveal_strlit("7");
        }
        "7"
    } else if n == 8 {
        proof {
            reveal_strlit("8");
        }
        "8"
    } else if n == 9 {
        proof {
            reveal_strlit("9");
        }
        "9"
    } else if n == 10 {
        proof {
            reveal_strlit("a");
        }
        "a"
    } else if n == 11 {
        proof {
            reveal_strlit("b");
        }
        "b"
    } else if n == 12 {
        proof {
            reveal_strlit("c");
        }
        "c"
    } else if n == 13 {
        proof {
            reveal_strlit("d");
        }
        "d"
    } else if n == 14 {
        proof {
            reveal_strlit("e");
        }
        "e"
    } else {
        proof {
            reveal_strlit("f");
        }
        "f"
    }
}

/// The lower-case hex form of the SHA-224 digest of a password, as a string: the key under
/// which the password's secret is registered.
pub fn password_to_sha2_hex(pass: &str) -> (hex: String)
    ensures
        hex@ == spec_hex_lower_chars(sha224(pass.spec_bytes())),
        hex@.len() == HEX_SIZE,
{
    let digest = sha224_digest(pass.as_bytes());
    let mut hex = String::new();
    let mut k: usize = 0;
    while k < digest.len()
        invariant
            k <= digest@.len(),
            hex@.len() == 2 * k,
            forall|j: int| 0 <= j < 2 * k ==> hex@[j] == #[trigger] spec_hex_digit_at(digest@, j) as char,
        decreases digest@.len() - k,
    {
        let b = digest[k];
        hex.append(hex_digit_str(b / 16));
        hex.append(hex_digit_str(b % 16));
        assert forall|j: int| 0 <= j < 2 * (k + 1) implies hex@[j] == #[trigger] spec_hex_digit_at(digest@, j) as char by {
            if j == 2 * k {
                assert(j / 2 == k && j % 2 == 0);
            } else if j == 2 * k + 1 {
                assert(j / 2 == k && j % 2 == 1);
            }
        }
        k = k + 1;
    }
    assert(hex@ =~= spec_hex_lower_chars(digest@));
    hex
}

/// Computes the secret of `sec` as `secret_to_passeord_temp` does, discards it, and returns the fixed
/// string "st".
pub fn secret_to_passeord(sec: &str) -> (s: String)
    ensures
        s@ == seq!['s', 't'],
{
    let _hash = secret_to_passeord_temp(sec.as_bytes());
    proof {
        reveal_strlit("st");
    }
    String::from_str("st")
}

/// Why a client's request was refused.
#[derive(Clone, Copy, Debug, PartialEq, Eq, Structural)]
pub enum AcceptError {
    /// The request header could not be read.
    Parse(ParseError),
    /// The header carries a hex other than the server's secret.
    InvalidHex,
}

/// What accepting a connection from the bytes `buf` gives: the header's error, a refusal when
/// its hex is not `secret`, or the request to relay and the header's length.
pub open spec fn spec_accept(buf: Seq<u8>, secret: Seq<u8>) -> Result<(InboundRequestView, int), AcceptError> {
    match spec_parse_request(buf) {
        Err(e) => Err(AcceptError::Parse(e)),
        Ok((req, n)) => if req.hex == secret {
            Ok((spec_into_request(req), n))
        } else {
            Err(AcceptError::InvalidHex)
        },
    }
}

/// The view of what `trojan_accept` returns.
pub open spec fn accept_result_view(r: Result<(InboundRequest, usize), AcceptError>) -> Result<(InboundRequestView, int), AcceptError> {
    match r {
        Ok((ir, n)) => Ok((ir@, n as int)),
        Err(e) => Err(e),
    }
}

/// Accepts a Trojan connection from the bytes a client sent: reads the request header, checks
/// its hex against `secret`, and turns it into the request to relay. Gives the request and the
/// length of the header, the bytes after it being payload.
pub fn trojan_accept(buf: &[u8], secret: &[u8]) -> (r: Result<(InboundRequest, usize), AcceptError>)
    ensures
        accept_result_view(r) == spec_accept(buf@, secret@),
{
    let (request, n) = match parse_trojan(buf) {
        Err(e) => return Err(AcceptError::Parse(e)),
        Ok(p) => p,
    };
    if !request.validate(secret) {
        return Err(AcceptError::InvalidHex);
    }
    Ok((request.into_request(), n))
}


/// Law: a well-formed request header followed by any payload is accepted exactly when its hex is
/// the server's secret; accepted, it becomes the request `into_request` makes of it, and the
/// payload starts right after the header. Refused, the answer is `InvalidHex`.
pub proof fn lemma_accept_decides_on_secret(r: RequestView, rest: Seq<u8>, secret: Seq<u8>)
    requires
        spec_request_wf(r),
    ensures
        spec_accept(spec_request_wire(r) + rest, secret) == (if r.hex == secret {
            Ok::<(InboundRequestView, int), AcceptError>((spec_into_request(r), spec_request_wire(r).len() as int))
        } else {
            Err::<(InboundRequestView, int), AcceptError>(AcceptError::InvalidHex)
        }),
{
    lemma_parse_request_roundtrip(r, rest);
}

/// Law: the hex form has two digits per byte, each a lower-case hexadecimal digit.
pub proof fn lemma_hex_lower_digits(d: Seq<u8>)
    ensures
        spec_hex_lower(d).len() == 2 * d.len(),
        forall|i: int| 0 <= i < spec_hex_lower(d).len() ==> {
            let c = #[trigger] spec_hex_lower(d)[i];
            (48 <= c <= 57) || (97 <= c <= 102)
        },
{
    assert forall|i: int| 0 <= i < spec_hex_lower(d).len() implies {
        let c = #[trigger] spec_hex_lower(d)[i];
        (48 <= c <= 57) || (97 <= c <= 102)
    } by {
        let b = d[i / 2];
        assert(b / 16 < 16 && b % 16 < 16);
    }
}

/// Law: the string form of a digest's hex, encoded in UTF-8, is the byte form: the key that
/// `password_to_sha2_hex` gives a password is, byte for byte, the secret that
/// `secret_to_passeord_temp` computes from the password's bytes.
pub proof fn lemma_hex_chars_bytes(d: Seq<u8>)
    ensures
        encode_utf8(spec_hex_lower_chars(d)) == spec_hex_lower(d),
{
    let cs = spec_hex_lower_chars(d);
    assert forall|i: int| 0 <= i < cs.len() implies '\0' <= #[trigger] cs[i] <= '\u{7f}' by {
        let b = d[i / 2];
        assert(b / 16 < 16 && b % 16 < 16);
    }
    assert(is_ascii_chars(cs));
    is_ascii_chars_encode_utf8(cs);
    let e = encode_utf8(cs);
    assert forall|i: int| 0 <= i < e.len() implies e[i] == spec_hex_lower(d)[i] by {
        let b = d[i / 2];
        assert(b / 16 < 16 && b % 16 < 16);
        assert(cs[i] as u8 == e[i]);
    }
    assert(e =~= spec_hex_lower(d));
}


/// Law: an accepted connection is relayed over UDP exactly when the CMD byte of its header (the
/// byte after the hex and CRLF) is 3, a UDP association, and over TCP exactly when it is 1, a
/// connect; the accepted request's command is the one that byte names.
pub proof fn lemma_accept_transport_follows_command_byte(buf: Seq<u8>, secret: Seq<u8>)
    requires
        spec_accept(buf, secret) is Ok,
    ensures
        buf.len() > 58,
        (spec_accept(buf, secret)->Ok_0.0.transport_protocol == InboundProtocol::UDP) <==> buf[58] == 3,
        (spec_accept(buf, secret)->Ok_0.0.transport_protocol == InboundProtocol::TCP) <==> buf[58] == 1,
        (spec_accept(buf, secret)->Ok_0.0.command == Command::Udp) <==> buf[58] == 3,
{
    let (r, n) = spec_parse_request(buf)->Ok_0;
    crate::tproto::trojan::base::lemma_into_request_transport(r);
}

} // verus!
