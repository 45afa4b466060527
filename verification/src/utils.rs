//! Utilities around the scan pipeline: the feed file's path, the feed
//! checksum, subprocess exit handling, and the sync decision.

use vstd::prelude::*;

use crate::strutil::{push_char, str_eq};

verus! {

/// The digit character for one decimal digit.
pub open spec fn spec_digit_char(d: nat) -> char {
    if d == 0 {
        '0'
    } else if d == 1 {
        '1'
    } else if d == 2 {
        '2'
    } else if d == 3 {
        '3'
    } else if d == 4 {
        '4'
    } else if d == 5 {
        '5'
    } else if d == 6 {
        '6'
    } else if d == 7 {
        '7'
    } else if d == 8 {
        '8'
    } else {
        '9'
    }
}

/// The decimal digits of `n`, most significant first.
pub open spec fn spec_nat_digits(n: nat) -> Seq<char>
    decreases n,
{
    if n < 10 {
        seq![spec_digit_char(n)]
    } else {
        spec_nat_digits(n / 10).push(spec_digit_char(n % 10))
    }
}

/// The decimal spelling of a signed number.
pub open spec fn spec_i32_string(n: int) -> Seq<char> {
    if n < 0 {
        seq!['-'] + spec_nat_digits((-n) as nat)
    } else {
        spec_nat_digits(n as nat)
    }
}

fn digit_char(d: u32) -> (r: char)
    requires
        d < 10,
    ensures
        r == spec_digit_char(d as nat),
{
    match d {
        0 => '0',
        1 => '1',
        2 => '2',
        3 => '3',
        4 => '4',
        5 => '5',
        6 => '6',
        7 => '7',
        8 => '8',
        _ => '9',
    }
}

/// Appends the decimal digits of `n`.
fn push_u32(s: &mut String, n: u32)
    ensures
        final(s)@ == old(s)@ + spec_nat_digits(n as nat),
    decreases n,
{
    if n < 10 {
        push_char(s, digit_char(n));
        proof {
            assert(s@ =~= old(s)@ + spec_nat_digits(n as nat));
        }
    } else {
        push_u32(s, n / 10);
        push_char(s, digit_char(n % 10));
        proof {
            assert(s@ =~= old(s)@ + spec_nat_digits(n as nat));
        }
    }
}

/// Appends the decimal spelling of a signed exit code.
fn push_i32(s: &mut String, n: i32)
    ensures
        final(s)@ == old(s)@ + spec_i32_string(n as int),
{
    if n < 0 {
        push_char(s, '-');
        let m: i64 = n as i64;
        let u: u32 = (-m) as u32;
        push_u32(s, u);
        proof {
            assert(u as nat == (-(n as int)) as nat);
            assert(s@ =~= old(s)@ + spec_i32_string(n as int));
        }
    } else {
        push_u32(s, n as u32);
    }
}

/// A helper process's failure: whether a signal ended it, and the
/// message the log carries.
#[derive(Debug)]
pub struct ProcessError {
    pub interrupted: bool,
    pub message: String,
}

/// The message for a process that exited with a code.
pub open spec fn spec_exit_message(name: Seq<char>, code: int) -> Seq<char> {
    name + " process exited with code "@ + spec_i32_string(code)
}

/// The message for a process that a signal ended.
pub open spec fn spec_signal_message(name: Seq<char>) -> Seq<char> {
    name + " process terminated by signal"@
}

/// Turns a helper process's failed exit into this library's error: one
/// message for an exit code, another for a death by signal.
pub fn handle_process_err(code: Option<i32>, process_name: &str) -> (r: Result<(), ProcessError>)
    ensures
        r is Err,
        r matches Err(e) ==> e.interrupted == (code is None),
        r matches Err(e) ==> e.message@ == match code {
            Some(c) => spec_exit_message(process_name@, c as int),
            None => spec_signal_message(process_name@),
        },
{
    match code {
        Some(c) => {
            let mut m = process_name.to_owned();
            m.append(" process exited with code ");
            push_i32(&mut m, c);
            Err(ProcessError { interrupted: false, message: m })
        },
        None => {
            let mut m = process_name.to_owned();
            m.append(" process terminated by signal");
            Err(ProcessError { interrupted: true, message: m })
        },
    }
}

/// Where the feed file stands under the feed directory.
pub open spec fn spec_feed_path(dir: Seq<char>) -> Seq<char> {
    if dir.len() > 0 && dir.last() == '/' {
        dir + "nvdcpematch-1.0.json"@
    } else {
        dir + "/"@ + "nvdcpematch-1.0.json"@
    }
}

/// The path of the feed file under a feed directory.
pub fn get_feed_path(feed_dir: &str) -> (r: String)
    ensures
        r@ == spec_feed_path(feed_dir@),
{
    let n = feed_dir.unicode_len();
    let mut p = feed_dir.to_owned();
    if n == 0 || feed_dir.get_char(n - 1) != '/' {
        p.append("/");
        p.append("nvdcpematch-1.0.json");
        proof {
            assert(p@ =~= spec_feed_path(feed_dir@));
        }
    } else {
        p.append("nvdcpematch-1.0.json");
        proof {
            assert(p@ =~= spec_feed_path(feed_dir@));
        }
    }
    p
}

/// What a sync run decides to do.
#[derive(Clone, Copy, Debug, PartialEq, Eq, Structural)]
pub enum SyncAction {
    Download,
    UpToDate,
}

/// The sync rule: fetch the feed when it is absent on disk, or when the
/// published checksum differs from the local file's; otherwise leave it
/// alone.
pub fn decide_sync(feed_present: bool, remote_checksum: &str, local_checksum: &str) -> (r:
    SyncAction)
    ensures
        (r == SyncAction::Download) == (!feed_present || remote_checksum@ != local_checksum@),
{
    if !feed_present {
        SyncAction::Download
    } else if !str_eq(remote_checksum, local_checksum) {
        SyncAction::Download
    } else {
        SyncAction::UpToDate
    }
}

/// What the SHA-256 digest of a byte sequence spells in hex.
pub uninterp spec fn sha256_hex_of(data: Seq<u8>) -> Seq<char>;

/// Relies on `sha2::Sha256`: the digest is a function of the input
/// bytes alone, 32 bytes long, here spelled as 64 lower-case hex
/// digits.
#[verifier::external_body]
fn sha256_hex(data: &[u8]) -> (r: String)
    ensures
        r@ == sha256_hex_of(data@),
        r@.len() == 64,
{
    let digest = <sha2::Sha256 as sha2::Digest>::digest(data);
    let bytes: &[u8] = digest.as_ref();
    let mut out = String::new();
    for b in bytes {
        out.push_str(&format!("{:02x}", b));
    }
    out
}

/// The checksum of a file's contents, in the spelling the feed
/// metadata uses; the sync decision compares it against the published
/// one.
pub fn get_file_checksum(data: &[u8]) -> (r: String)
    ensures
        r@ == sha256_hex_of(data@),
        r@.len() == 64,
{
    sha256_hex(data)
}

} // verus!
