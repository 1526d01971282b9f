//! How a client's request maps onto the request sent upstream: the target
//! URL and the headers that are let through.

use crate::rpc::Rpc;
use vstd::prelude::*;
use vstd::string::StringExecFns;

verus! {

/// One header of a request: its name, and its value as raw bytes.
#[derive(Debug)]
pub struct HeaderField {
    pub name: String,
    pub value: Vec<u8>,
}

pub struct HeaderFieldView {
    pub name: Seq<char>,
    pub value: Seq<u8>,
}

impl View for HeaderField {
    type V = HeaderFieldView;

    open spec fn view(&self) -> HeaderFieldView {
        HeaderFieldView { name: self.name@, value: self.value@ }
    }
}

/// The views of a list of headers, in order.
pub open spec fn fields_view(headers: Seq<HeaderField>) -> Seq<HeaderFieldView> {
    headers.map_values(|h: HeaderField| h@)
}

/// `c` with an ASCII capital turned into its small letter.
pub open spec fn ascii_lower(c: char) -> char {
    if 'A' as u32 <= c as u32 && c as u32 <= 'Z' as u32 {
        ((c as u32) + 32) as char
    } else {
        c
    }
}

/// Whether two header names are the same but for the case of ASCII letters.
pub open spec fn same_name(a: Seq<char>, b: Seq<char>) -> bool {
    &&& a.len() == b.len()
    &&& forall|i: int| 0 <= i < a.len() ==> ascii_lower(#[trigger] a[i]) == ascii_lower(b[i])
}

/// `str::eq_ignore_ascii_case`. Trusted: true exactly where the two texts
/// are equal once every ASCII capital is made small.
#[verifier::external_body]
fn eq_ignore_case(a: &str, b: &str) -> (same: bool)
    ensures
        same == same_name(a@, b@),
{
    a.eq_ignore_ascii_case(b)
}

/// Whether `i` is the place of the first header named `name`.
pub open spec fn is_first_named(headers: Seq<HeaderFieldView>, name: Seq<char>, i: int) -> bool {
    &&& 0 <= i < headers.len()
    &&& same_name(headers[i].name, name)
    &&& forall|j: int| 0 <= j < i ==> !same_name((#[trigger] headers[j]).name, name)
}

/// Whether some header is named `name`.
pub open spec fn has_named(headers: Seq<HeaderFieldView>, name: Seq<char>) -> bool {
    exists|i: int| 0 <= i < headers.len() && same_name((#[trigger] headers[i]).name, name)
}

/// The place of the first header named `name`, if there is one.
pub fn find_header(headers: &Vec<HeaderField>, name: &str) -> (place: Option<usize>)
    ensures
        match place {
            Some(i) => is_first_named(fields_view(headers@), name@, i as int),
            None => !has_named(fields_view(headers@), name@),
        },
{
    let mut i: usize = 0;
    while i < headers.len()
        invariant
            i <= headers.len(),
            forall|j: int|
                0 <= j < i ==> !same_name((#[trigger] fields_view(headers@)[j]).name, name@),
        decreases headers.len() - i,
    {
        if eq_ignore_case(headers[i].name.as_str(), name) {
            return Some(i);
        }
        i = i + 1;
    }
    None
}

/// What is sent upstream for the allowed header `name`: the first value the
/// client gave under that name, or nothing.
pub open spec fn let_through(headers: Seq<HeaderFieldView>, name: Seq<char>) -> Seq<
    HeaderFieldView,
> {
    if has_named(headers, name) {
        let i = choose|i: int| is_first_named(headers, name, i);
        seq![HeaderFieldView { name, value: headers[i].value }]
    } else {
        Seq::empty()
    }
}

/// The headers sent upstream: of the client's headers only content type,
/// authorization and the CORS origin grant pass, one value each, in that
/// order.
pub open spec fn forwarded(headers: Seq<HeaderFieldView>) -> Seq<HeaderFieldView> {
    let_through(headers, "content-type"@) + let_through(headers, "authorization"@) + let_through(
        headers,
        "access-control-allow-origin"@,
    )
}

fn pass_header(headers: &Vec<HeaderField>, name: &str, out: &mut Vec<HeaderField>)
    ensures
        fields_view(final(out)@) == fields_view(old(out)@) + let_through(
            fields_view(headers@),
            name@,
        ),
{
    let ghost all = fields_view(headers@);
    match find_header(headers, name) {
        Some(i) => {
            proof {
                assert(same_name(all[i as int].name, name@));
                let first = choose|k: int| is_first_named(all, name@, k);
                assert(is_first_named(all, name@, i as int));
                assert(first == i) by {
                    if first < i {
                        assert(!same_name(all[first].name, name@));
                    } else if i < first {
                        assert(!same_name(all[i as int].name, name@));
                    }
                }
            }
            out.push(HeaderField { name: String::from_str(name), value: headers[i].value.clone() });
            assert(fields_view(out@) =~= fields_view(old(out)@) + let_through(all, name@));
        },
        None => {
            assert(fields_view(out@) =~= fields_view(old(out)@) + let_through(all, name@));
        },
    }
}

/// Picks the headers that are sent upstream out of the client's headers.
pub fn forwarded_headers(headers: &Vec<HeaderField>) -> (out: Vec<HeaderField>)
    ensures
        fields_view(out@) == forwarded(fields_view(headers@)),
{
    let mut out: Vec<HeaderField> = Vec::new();
    assert(fields_view(out@) =~= Seq::empty());
    pass_header(headers, "content-type", &mut out);
    pass_header(headers, "authorization", &mut out);
    pass_header(headers, "access-control-allow-origin", &mut out);
    assert(fields_view(out@) =~= forwarded(fields_view(headers@)));
    out
}

/// The URL a request for `path` and `query` is sent to on the upstream at
/// `base`: base and path joined as they are, then `?` and the query where
/// there is one.
pub open spec fn target_url(base: Seq<char>, path: Seq<char>, query: Seq<char>) -> Seq<char> {
    if query.len() == 0 {
        base + path
    } else {
        base + path + seq!['?'] + query
    }
}

impl Rpc {
    /// The URL that a client's request for `path` and `query` is forwarded
    /// to on this upstream.
    pub fn request_url(&self, path: &str, query: &str) -> (url: String)
        ensures
            url@ == target_url(self@.url, path@, query@),
    {
        let mut url = self.url.clone();
        url.append(path);
        if !query.is_empty() {
            proof {
                reveal_strlit("?");
            }
            url.append("?");
            url.append(query);
            assert(url@ =~= target_url(self@.url, path@, query@));
        }
        url
    }

    /// The URL of this upstream's health probe.
    pub fn health_url(&self) -> (url: String)
        ensures
            url@ == self@.url + "/v1"@,
    {
        let mut url = self.url.clone();
        url.append("/v1");
        url
    }
}

} // verus!
