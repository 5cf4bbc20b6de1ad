//! The text of the progress lines of an upload run.

use crate::content::CONTENT_ENCODING_IDENTITY;
use crate::digest::{digest_text, spec_hex};
use crate::text::str_equal;
use vstd::prelude::*;
use vstd::string::StringExecFns;

verus! {

/// What a progress line puts behind the key of an asset to name the
/// encoding: nothing for the identity encoding, and otherwise the label in
/// round brackets after a blank.
pub open spec fn spec_descriptive_suffix(content_encoding: Seq<char>) -> Seq<char> {
    if content_encoding == CONTENT_ENCODING_IDENTITY@ {
        Seq::empty()
    } else {
        " ("@ + content_encoding + ")"@
    }
}

/// Makes what a progress line puts behind the key of an asset to name the
/// encoding.
pub fn content_encoding_descriptive_suffix(content_encoding: &str) -> (suffix: String)
    ensures
        suffix@ == spec_descriptive_suffix(content_encoding@),
{
    if str_equal(content_encoding, CONTENT_ENCODING_IDENTITY) {
        String::new()
    } else {
        let mut suffix = String::from_str(" (");
        suffix.append(content_encoding);
        suffix.append(")");
        suffix
    }
}

/// The ten decimal digits.
pub open spec fn spec_decimal_digits() -> Seq<char> {
    seq!['0', '1', '2', '3', '4', '5', '6', '7', '8', '9']
}

/// The text of `value` in decimal, without leading zeros.
pub open spec fn spec_decimal(value: nat) -> Seq<char>
    decreases value,
{
    if value < 10 {
        seq![spec_decimal_digits()[value as int]]
    } else {
        spec_decimal(value / 10).push(spec_decimal_digits()[(value % 10) as int])
    }
}

fn decimal_digit(digit: u128) -> (text: &'static str)
    requires
        digit < 10,
    ensures
        text@ == seq![spec_decimal_digits()[digit as int]],
{
    proof {
        reveal_strlit("0");
        reveal_strlit("1");
        reveal_strlit("2");
        reveal_strlit("3");
        reveal_strlit("4");
        reveal_strlit("5");
        reveal_strlit("6");
        reveal_strlit("7");
        reveal_strlit("8");
        reveal_strlit("9");
    }
    let text = if digit == 0 {
        "0"
    } else if digit == 1 {
        "1"
    } else if digit == 2 {
        "2"
    } else if digit == 3 {
        "3"
    } else if digit == 4 {
        "4"
    } else if digit == 5 {
        "5"
    } else if digit == 6 {
        "6"
    } else if digit == 7 {
        "7"
    } else if digit == 8 {
        "8"
    } else {
        "9"
    };
    assert(text@ =~= seq![spec_decimal_digits()[digit as int]]);
    text
}

/// Writes `value` in decimal, without leading zeros.
pub fn decimal(value: u128) -> (text: String)
    ensures
        text@ == spec_decimal(value as nat),
    decreases value,
{
    if value < 10 {
        String::from_str(decimal_digit(value))
    } else {
        let mut text = decimal(value / 10);
        text.append(decimal_digit(value % 10));
        assert(text@ =~= spec_decimal(value as nat));
        text
    }
}

/// The line that tells that an encoding of `len` bytes with digest `sha256`
/// of the asset `key` is held by the remote store already.
pub open spec fn spec_already_installed_line(
    key: Seq<char>,
    content_encoding: Seq<char>,
    len: nat,
    sha256: Seq<u8>,
) -> Seq<char> {
    "  "@ + key + spec_descriptive_suffix(content_encoding) + " ("@ + spec_decimal(len)
        + " bytes) sha "@ + spec_hex(sha256) + " is already installed"@
}

/// Makes the line that tells that an encoding of the asset `key` is held by
/// the remote store already.
pub fn already_installed_line(key: &str, content_encoding: &str, len: usize, sha256: &[u8]) -> (line:
    String)
    ensures
        line@ == spec_already_installed_line(key@, content_encoding@, len as nat, sha256@),
{
    let mut line = String::from_str("  ");
    line.append(key);
    line.append(content_encoding_descriptive_suffix(content_encoding).as_str());
    line.append(" (");
    line.append(decimal(len as u128).as_str());
    line.append(" bytes) sha ");
    line.append(digest_text(sha256).as_str());
    line.append(" is already installed");
    line
}

/// The line that tells that chunk `index`, counted from zero, of `count`
/// chunks was created: its number counted from one, the count, the bytes it
/// carries, the digest of the whole encoding, and the configuration of the
/// asset where there is one to show.
pub open spec fn spec_chunk_line(
    key: Seq<char>,
    content_encoding: Seq<char>,
    index: nat,
    count: nat,
    len: nat,
    sha256: Seq<u8>,
    config: Option<Seq<char>>,
) -> Seq<char> {
    "  "@ + key + spec_descriptive_suffix(content_encoding) + " "@ + spec_decimal(index + 1)
        + "/"@ + spec_decimal(count) + " ("@ + spec_decimal(len) + " bytes) sha "@ + spec_hex(
        sha256,
    ) + match config {
        Some(shown) => " "@ + shown,
        None => Seq::empty(),
    }
}

/// Makes the line that tells that a chunk was created. The line for the one
/// chunk of an empty payload shows no configuration.
pub fn chunk_line(
    key: &str,
    content_encoding: &str,
    index: usize,
    count: usize,
    len: usize,
    sha256: &[u8],
    config: Option<&str>,
) -> (line: String)
    ensures
        line@ == spec_chunk_line(
            key@,
            content_encoding@,
            index as nat,
            count as nat,
            len as nat,
            sha256@,
            match config {
                Some(shown) => Some(shown@),
                None => None,
            },
        ),
{
    let mut line = String::from_str("  ");
    line.append(key);
    line.append(content_encoding_descriptive_suffix(content_encoding).as_str());
    line.append(" ");
    line.append(decimal(index as u128 + 1).as_str());
    line.append("/");
    line.append(decimal(count as u128).as_str());
    line.append(" (");
    line.append(decimal(len as u128).as_str());
    line.append(" bytes) sha ");
    line.append(digest_text(sha256).as_str());
    match config {
        Some(shown) => {
            line.append(" ");
            line.append(shown);
        },
        None => {
            assert(line@ + Seq::<char>::empty() =~= line@);
        },
    }
    line
}

} // verus!
