//! The failure taxonomy of a download, and its human-readable rendering.

use vstd::prelude::*;

verus! {

/// Every way one invocation can end without a complete file.
///
/// All of these are terminal: nothing is retried or recovered.
#[derive(Clone, Copy, Debug, PartialEq, Eq, Structural)]
pub enum DownloadError {
    /// No output name was given and the URL has no final path segment.
    UnresolvableFilename,
    /// The request itself failed at the transport level.
    Request,
    /// The server answered with a non-success status, carried here.
    HttpStatus(u16),
    /// The connection dropped while the body was being read.
    Stream,
    /// Creating or writing the destination file failed.
    Io,
}

/// The decimal digit characters of `n`, most significant first.
pub open spec fn dec_digits(n: nat) -> Seq<char>
    decreases n,
{
    if n < 10 {
        seq![digit_char(n)]
    } else {
        dec_digits(n / 10).push(digit_char(n % 10))
    }
}

/// The character for a single decimal digit.
pub open spec fn digit_char(d: nat) -> char {
    if d == 0 {
        '0'
    } else if d == 1 {
        '1'
    } else if d == 2 {
        '2'
    } else if d == 3 {
        '3'
    } else if d == 4 {
        '4'
    } else if d == 5 {
        '5'
    } else if d == 6 {
        '6'
    } else if d == 7 {
        '7'
    } else if d == 8 {
        '8'
    } else {
        '9'
    }
}

fn digit_str(d: u16) -> (s: &'static str)
    requires
        d < 10,
    ensures
        s@ == seq![digit_char(d as nat)],
{
    let r: &'static str = match d {
        0 => "0",
        1 => "1",
        2 => "2",
        3 => "3",
        4 => "4",
        5 => "5",
        6 => "6",
        7 => "7",
        8 => "8",
        _ => "9",
    };
    proof {
        reveal_strlit("0");
        reveal_strlit("1");
        reveal_strlit("2");
        reveal_strlit("3");
        reveal_strlit("4");
        reveal_strlit("5");
        reveal_strlit("6");
        reveal_strlit("7");
        reveal_strlit("8");
        reveal_strlit("9");
        assert(r@ =~= seq![digit_char(d as nat)]);
    }
    r
}

/// Renders `n` in decimal, exactly as `dec_digits` describes.
pub fn u16_to_decimal(n: u16) -> (s: String)
    ensures
        s@ == dec_digits(n as nat),
    decreases n,
{
    if n < 10 {
        String::from_str(digit_str(n))
    } else {
        let mut s = u16_to_decimal(n / 10);
        s.append(digit_str(n % 10));
        proof {
            assert(s@ =~= dec_digits((n / 10) as nat).push(digit_char((n % 10) as nat)));
        }
        s
    }
}

/// The message text for each error, as the program writes it to standard
/// error.
pub open spec fn spec_message(e: DownloadError) -> Seq<char> {
    match e {
        DownloadError::UnresolvableFilename => "could not determine filename from URL"@,
        DownloadError::Request => "failed to send HTTP request"@,
        DownloadError::HttpStatus(code) => "HTTP request failed with status: "@ + dec_digits(
            code as nat,
        ),
        DownloadError::Stream => "error while downloading file chunk"@,
        DownloadError::Io => "failed to create or write the output file"@,
    }
}

impl DownloadError {
    /// The human-readable description of this error.
    pub fn message(&self) -> (s: String)
        ensures
            s@ == spec_message(*self),
    {
        match self {
            DownloadError::UnresolvableFilename => String::from_str(
                "could not determine filename from URL",
            ),
            DownloadError::Request => String::from_str("failed to send HTTP request"),
            DownloadError::HttpStatus(code) => {
                let mut s = String::from_str("HTTP request failed with status: ");
                let digits = u16_to_decimal(*code);
                s.append(digits.as_str());
                s
            },
            DownloadError::Stream => String::from_str("error while downloading file chunk"),
            DownloadError::Io => String::from_str("failed to create or write the output file"),
        }
    }
}

} // verus!
