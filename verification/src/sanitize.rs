//! Display names for upstreams: a URL reduced to `scheme://host[:port]`, so
//! that paths, queries and credentials never reach a log line.

use vstd::prelude::*;
use vstd::string::StringExecFns;

verus! {

/// What the sanitizer reads of a URL once it has been parsed.
#[derive(Debug)]
pub struct UrlParts {
    /// The scheme, without the colon.
    pub scheme: String,
    /// The host as it is serialized, where the URL has one.
    pub host: Option<String>,
    /// The port, where one is given and it is not the scheme's default.
    pub port: Option<u16>,
    /// The whole URL as the parser serializes it.
    pub text: String,
}

pub struct UrlPartsView {
    pub scheme: Seq<char>,
    pub host: Option<Seq<char>>,
    pub port: Option<u16>,
    pub text: Seq<char>,
}

impl View for UrlParts {
    type V = UrlPartsView;

    open spec fn view(&self) -> UrlPartsView {
        UrlPartsView {
            scheme: self.scheme@,
            host: match self.host {
                Some(h) => Some(h@),
                None => None,
            },
            port: self.port,
            text: self.text@,
        }
    }
}

/// The parts of `input` read as an absolute URL, or `None` where it is not one.
pub uninterp spec fn parsed_url(input: Seq<char>) -> Option<UrlPartsView>;

/// Calls `url::Url::parse` and reads `scheme`, `host_str`, `port` and the
/// serialization off the parsed value. Trusted: the result is a function of
/// the input text alone, named `parsed_url`; parsing is not modelled further.
#[verifier::external_body]
pub(crate) fn parse_url(input: &str) -> (parts: Option<UrlParts>)
    ensures
        match parts {
            Some(p) => parsed_url(input@) == Some(p@),
            None => parsed_url(input@) is None,
        },
{
    match url::Url::parse(input) {
        Ok(u) => Some(UrlParts {
            scheme: u.scheme().to_string(),
            host: u.host_str().map(|h| h.to_string()),
            port: u.port(),
            text: u.as_str().to_string(),
        }),
        Err(_) => None,
    }
}

/// The decimal digit `d`, for `d < 10`.
pub open spec fn digit(d: nat) -> char {
    if d == 0 {
        '0'
    } else if d == 1 {
        '1'
    } else if d == 2 {
        '2'
    } else if d == 3 {
        '3'
    } else if d == 4 {
        '4'
    } else if d == 5 {
        '5'
    } else if d == 6 {
        '6'
    } else if d == 7 {
        '7'
    } else if d == 8 {
        '8'
    } else {
        '9'
    }
}

/// `n` written in decimal, without leading zeros.
pub open spec fn decimal(n: nat) -> Seq<char>
    decreases n,
{
    if n < 10 {
        seq![digit(n)]
    } else {
        decimal(n / 10).push(digit(n % 10))
    }
}

/// The text `scheme://host[:port]` made of the parts of a parsed URL; a
/// missing host counts as empty.
pub open spec fn origin_text(parts: UrlPartsView) -> Seq<char> {
    parts.scheme + seq![':', '/', '/'] + match parts.host {
        Some(h) => h,
        None => Seq::empty(),
    } + match parts.port {
        Some(p) => seq![':'] + decimal(p as nat),
        None => Seq::empty(),
    }
}

/// The sanitized form of `url`: its origin text, parsed and serialized once
/// more. `None` where either parse fails.
pub open spec fn sanitized(url: Seq<char>) -> Option<Seq<char>> {
    match parsed_url(url) {
        Some(parts) => match parsed_url(origin_text(parts)) {
            Some(origin) => Some(origin.text),
            None => None,
        },
        None => None,
    }
}

fn digit_str(d: u16) -> (s: &'static str)
    requires
        d < 10,
    ensures
        s@ == seq![digit(d as nat)],
{
    proof {
        reveal_strlit("0");
        reveal_strlit("1");
        reveal_strlit("2");
        reveal_strlit("3");
        reveal_strlit("4");
        reveal_strlit("5");
        reveal_strlit("6");
        reveal_strlit("7");
        reveal_strlit("8");
        reveal_strlit("9");
    }
    let s = if d == 0 {
        "0"
    } else if d == 1 {
        "1"
    } else if d == 2 {
        "2"
    } else if d == 3 {
        "3"
    } else if d == 4 {
        "4"
    } else if d == 5 {
        "5"
    } else if d == 6 {
        "6"
    } else if d == 7 {
        "7"
    } else if d == 8 {
        "8"
    } else {
        "9"
    };
    assert(s@ =~= seq![digit(d as nat)]);
    s
}

/// Appends `n` in decimal to `text`.
pub fn push_decimal(text: &mut String, n: u16)
    ensures
        final(text)@ == old(text)@ + decimal(n as nat),
    decreases n,
{
    if n >= 10 {
        push_decimal(text, n / 10);
        text.append(digit_str(n % 10));
        assert(text@ =~= old(text)@ + decimal(n as nat));
    } else {
        text.append(digit_str(n));
        assert(text@ =~= old(text)@ + decimal(n as nat));
    }
}

/// Builds `scheme://host[:port]` from the parts of a parsed URL.
pub fn origin_of(parts: &UrlParts) -> (text: String)
    ensures
        text@ == origin_text(parts@),
{
    proof {
        reveal_strlit("://");
        reveal_strlit(":");
    }
    let mut text = parts.scheme.clone();
    text.append("://");
    match &parts.host {
        Some(h) => {
            text.append(h.as_str());
        },
        None => {},
    }
    match parts.port {
        Some(p) => {
            text.append(":");
            push_decimal(&mut text, p);
        },
        None => {},
    }
    assert(text@ =~= origin_text(parts@));
    text
}

/// Strips a URL down to `scheme://host[:port]/`-style text: path, query,
/// fragment and credentials are dropped. `None` where the URL, or the
/// origin text built from it, does not parse.
pub fn sanitize_url(url: &str) -> (name: Option<String>)
    ensures
        match name {
            Some(n) => sanitized(url@) == Some(n@),
            None => sanitized(url@) is None,
        },
{
    match parse_url(url) {
        Some(parts) => {
            let origin = origin_of(&parts);
            match parse_url(origin.as_str()) {
                Some(again) => Some(again.text),
                None => None,
            }
        },
        None => None,
    }
}

} // verus!
