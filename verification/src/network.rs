//! The patch-check wire protocol: the request body this library sends and
//! the response it reads.  Sending and receiving bytes is the caller's
//! business; what the bytes mean is specified and verified here.
//!
//! The response parser takes the fields in any order, skips unknown keys
//! with primitive values, and tolerates whitespace.

use vstd::prelude::*;

use crate::json::{
    match_lit, parse_jstring, parse_uint, render_jstring_into, skip_ws, spec_jstring,
    spec_match_lit, spec_parse_jstring, spec_parse_uint, spec_skip_ws,
};
use crate::text::{append_str_chars, chars_to_string, render_uint_into, spec_uint_chars, str_to_chars};

verus! {

/// A patch the server offers: its number, where to fetch it, its content
/// hash, and whether it is a binary diff against the shipped library.
#[derive(Debug)]
pub struct Patch {
    pub number: usize,
    pub hash: String,
    pub download_url: String,
    pub is_diff: bool,
}

/// Mathematical image of a `Patch`.
#[verifier::ext_equal]
pub ghost struct PatchV {
    pub number: usize,
    pub hash: Seq<char>,
    pub download_url: Seq<char>,
    pub is_diff: bool,
}

impl View for Patch {
    type V = PatchV;

    open spec fn view(&self) -> PatchV {
        PatchV {
            number: self.number,
            hash: self.hash@,
            download_url: self.download_url@,
            is_diff: self.is_diff,
        }
    }
}

/// What this library tells the server when asking for a patch.
#[derive(Debug)]
pub struct PatchCheckRequest {
    pub app_id: String,
    pub channel: String,
    pub release_version: String,
    pub patch_number: Option<usize>,
    pub platform: String,
    pub arch: String,
}

/// Mathematical image of a `PatchCheckRequest`.
#[verifier::ext_equal]
pub ghost struct RequestV {
    pub app_id: Seq<char>,
    pub channel: Seq<char>,
    pub release_version: Seq<char>,
    pub patch_number: Option<usize>,
    pub platform: Seq<char>,
    pub arch: Seq<char>,
}

impl View for PatchCheckRequest {
    type V = RequestV;

    open spec fn view(&self) -> RequestV {
        RequestV {
            app_id: self.app_id@,
            channel: self.channel@,
            release_version: self.release_version@,
            patch_number: self.patch_number,
            platform: self.platform@,
            arch: self.arch@,
        }
    }
}

/// What the server answers: whether a patch is available and, if so, which.
#[derive(Debug)]
pub struct PatchCheckResponse {
    pub patch_available: bool,
    pub patch: Option<Patch>,
}

/// Mathematical image of a `PatchCheckResponse`.
#[verifier::ext_equal]
pub ghost struct ResponseV {
    pub patch_available: bool,
    pub patch: Option<PatchV>,
}

impl View for PatchCheckResponse {
    type V = ResponseV;

    open spec fn view(&self) -> ResponseV {
        ResponseV {
            patch_available: self.patch_available,
            patch: match self.patch {
                Some(ref p) => Some(p@),
                None => None,
            },
        }
    }
}

/// The patch-check endpoint under a server's base URL.
pub fn patches_check_url(base_url: &str) -> (r: String)
    ensures
        r@ == base_url@ + "/api/v1/patches/check"@,
{
    base_url.to_owned().concat("/api/v1/patches/check")
}

// ---------------------------------------------------------------------------
// Request rendering
// ---------------------------------------------------------------------------
/// The request body: the identifiers as JSON strings, and the running patch
/// number when one is active.
pub open spec fn spec_render_request(r: RequestV) -> Seq<char> {
    "{\"app_id\":"@ + spec_jstring(r.app_id) + ",\"channel\":"@ + spec_jstring(r.channel)
        + ",\"release_version\":"@ + spec_jstring(r.release_version) + (match r.patch_number {
        None => Seq::<char>::empty(),
        Some(n) => ",\"patch_number\":"@ + spec_uint_chars(n as nat),
    }) + ",\"platform\":"@ + spec_jstring(r.platform) + ",\"arch\":"@ + spec_jstring(r.arch)
        + seq!['}']
}

impl PatchCheckRequest {
    /// Render the request body to send to the patch-check endpoint.
    pub fn render(&self) -> (r: String)
        ensures
            r@ == spec_render_request(self@),
    {
        let mut out: Vec<char> = Vec::new();
        append_str_chars(&mut out, "{\"app_id\":");
        render_jstring_into(&mut out, self.app_id.as_str());
        append_str_chars(&mut out, ",\"channel\":");
        render_jstring_into(&mut out, self.channel.as_str());
        append_str_chars(&mut out, ",\"release_version\":");
        render_jstring_into(&mut out, self.release_version.as_str());
        match self.patch_number {
            None => {},
            Some(n) => {
                append_str_chars(&mut out, ",\"patch_number\":");
                render_uint_into(&mut out, n);
            },
        }
        append_str_chars(&mut out, ",\"platform\":");
        render_jstring_into(&mut out, self.platform.as_str());
        append_str_chars(&mut out, ",\"arch\":");
        render_jstring_into(&mut out, self.arch.as_str());
        out.push('}');
        proof {
            assert(out@ =~= spec_render_request(self@));
        }
        chars_to_string(&out)
    }
}

// ---------------------------------------------------------------------------
// Response parsing (specification)
// ---------------------------------------------------------------------------
/// `true` or `false`.
pub open spec fn spec_parse_bool(s: Seq<char>, i: int) -> Option<(bool, int)> {
    if spec_match_lit(s, i, "true"@) {
        Some((true, i + "true"@.len()))
    } else if spec_match_lit(s, i, "false"@) {
        Some((false, i + "false"@.len()))
    } else {
        None
    }
}

/// Step over one primitive value (string, number, boolean or null), as under
/// an unknown key.  A nested array or object under an unknown key is not
/// taken.
pub open spec fn spec_skip_value(s: Seq<char>, i: int) -> Option<int> {
    if spec_match_lit(s, i, "null"@) {
        Some(i + "null"@.len())
    } else if spec_match_lit(s, i, "true"@) {
        Some(i + "true"@.len())
    } else if spec_match_lit(s, i, "false"@) {
        Some(i + "false"@.len())
    } else if 0 <= i && i < s.len() && s[i] == '"' {
        match spec_parse_jstring(s, i) {
            Some((q, j)) => Some(j),
            None => None,
        }
    } else {
        match spec_parse_uint(s, i) {
            Some((n, j)) => Some(j),
            None => None,
        }
    }
}

/// The members of the `patch` object, any order, unknown keys skipped;
/// `number`, `download_url` and `hash` must all appear, `is_diff` defaults
/// to false.
pub open spec fn spec_patch_members(
    s: Seq<char>,
    i: int,
    number: Option<usize>,
    url: Option<Seq<char>>,
    hash: Option<Seq<char>>,
    is_diff: Option<bool>,
) -> Option<(PatchV, int)>
    decreases s.len() - i, 1int when 0 <= i <= s.len()
{
    let k0 = spec_skip_ws(s, i);
    match spec_parse_jstring(s, k0) {
        None => None,
        Some((key, k1)) => {
            let k2 = spec_skip_ws(s, k1);
            if !(i <= k2 && k2 < s.len() && s[k2] == ':') {
                None
            } else {
                let k3 = spec_skip_ws(s, k2 + 1);
                if key == "number"@ {
                    match spec_parse_uint(s, k3) {
                        Some((n, j)) => if i < j && j <= s.len() {
                            spec_patch_after_value(s, j, Some(n), url, hash, is_diff)
                        } else {
                            None
                        },
                        None => None,
                    }
                } else if key == "download_url"@ {
                    match spec_parse_jstring(s, k3) {
                        Some((q, j)) => if i < j && j <= s.len() {
                            spec_patch_after_value(s, j, number, Some(q), hash, is_diff)
                        } else {
                            None
                        },
                        None => None,
                    }
                } else if key == "hash"@ {
                    match spec_parse_jstring(s, k3) {
                        Some((q, j)) => if i < j && j <= s.len() {
                            spec_patch_after_value(s, j, number, url, Some(q), is_diff)
                        } else {
                            None
                        },
                        None => None,
                    }
                } else if key == "is_diff"@ {
                    match spec_parse_bool(s, k3) {
                        Some((b, j)) => if i < j && j <= s.len() {
                            spec_patch_after_value(s, j, number, url, hash, Some(b))
                        } else {
                            None
                        },
                        None => None,
                    }
                } else {
                    match spec_skip_value(s, k3) {
                        Some(j) => if i < j && j <= s.len() {
                            spec_patch_after_value(s, j, number, url, hash, is_diff)
                        } else {
                            None
                        },
                        None => None,
                    }
                }
            }
        },
    }
}

/// After a member of the `patch` object: a comma continues, a closing brace
/// ends the object if the required keys were seen.
pub open spec fn spec_patch_after_value(
    s: Seq<char>,
    j: int,
    number: Option<usize>,
    url: Option<Seq<char>>,
    hash: Option<Seq<char>>,
    is_diff: Option<bool>,
) -> Option<(PatchV, int)>
    decreases s.len() - j, 0int when 0 <= j <= s.len()
{
    let j1 = spec_skip_ws(s, j);
    if j <= j1 && j1 < s.len() && s[j1] == ',' {
        spec_patch_members(s, j1 + 1, number, url, hash, is_diff)
    } else if j1 < s.len() && s[j1] == '}' {
        match (number, url, hash) {
            (Some(n), Some(u), Some(h)) => Some(
                (
                    PatchV {
                        number: n,
                        hash: h,
                        download_url: u,
                        is_diff: match is_diff {
                            Some(b) => b,
                            None => false,
                        },
                    },
                    j1 + 1,
                ),
            ),
            _ => None,
        }
    } else {
        None
    }
}

/// The `patch` object: `null`, or a brace-enclosed object of members.
pub open spec fn spec_parse_patch_value(s: Seq<char>, i: int) -> Option<(Option<PatchV>, int)>
    decreases s.len() - i, 2int when 0 <= i <= s.len()
{
    if spec_match_lit(s, i, "null"@) {
        Some((None, i + "null"@.len()))
    } else if i < s.len() && s[i] == '{' {
        match spec_patch_members(s, i + 1, None, None, None, None) {
            Some((p, j)) => Some((Some(p), j)),
            None => None,
        }
    } else {
        None
    }
}

/// The members of the response object, any order, unknown keys skipped;
/// `patch_available` must appear, `patch` defaults to absent.
pub open spec fn spec_resp_members(
    s: Seq<char>,
    i: int,
    avail: Option<bool>,
    patch: Option<Option<PatchV>>,
) -> Option<(ResponseV, int)>
    decreases s.len() - i, 4int when 0 <= i <= s.len()
{
    let k0 = spec_skip_ws(s, i);
    match spec_parse_jstring(s, k0) {
        None => None,
        Some((key, k1)) => {
            let k2 = spec_skip_ws(s, k1);
            if !(i <= k2 && k2 < s.len() && s[k2] == ':') {
                None
            } else {
                let k3 = spec_skip_ws(s, k2 + 1);
                if key == "patch_available"@ {
                    match spec_parse_bool(s, k3) {
                        Some((b, j)) => if i < j && j <= s.len() {
                            spec_resp_after_value(s, j, Some(b), patch)
                        } else {
                            None
                        },
                        None => None,
                    }
                } else if key == "patch"@ {
                    if i < k3 && k3 <= s.len() {
                        match spec_parse_patch_value(s, k3) {
                            Some((p, j)) => if i < j && j <= s.len() {
                                spec_resp_after_value(s, j, avail, Some(p))
                            } else {
                                None
                            },
                            None => None,
                        }
                    } else {
                        None
                    }
                } else {
                    match spec_skip_value(s, k3) {
                        Some(j) => if i < j && j <= s.len() {
                            spec_resp_after_value(s, j, avail, patch)
                        } else {
                            None
                        },
                        None => None,
                    }
                }
            }
        },
    }
}

/// After a member of the response object: a comma continues, a closing
/// brace ends it if `patch_available` was seen.
pub open spec fn spec_resp_after_value(
    s: Seq<char>,
    j: int,
    avail: Option<bool>,
    patch: Option<Option<PatchV>>,
) -> Option<(ResponseV, int)>
    decreases s.len() - j, 3int when 0 <= j <= s.len()
{
    let j1 = spec_skip_ws(s, j);
    if j <= j1 && j1 < s.len() && s[j1] == ',' {
        spec_resp_members(s, j1 + 1, avail, patch)
    } else if j1 < s.len() && s[j1] == '}' {
        match avail {
            Some(b) => Some(
                (
                    ResponseV {
                        patch_available: b,
                        patch: match patch {
                            Some(p) => p,
                            None => None,
                        },
                    },
                    j1 + 1,
                ),
            ),
            None => None,
        }
    } else {
        None
    }
}

/// A whole patch-check response: one object, nothing but whitespace around
/// it.
pub open spec fn spec_parse_response(s: Seq<char>) -> Option<ResponseV> {
    let i0 = spec_skip_ws(s, 0);
    if 0 <= i0 && i0 < s.len() && s[i0] == '{' {
        match spec_resp_members(s, i0 + 1, None, None) {
            Some((r, j)) => if 0 <= j <= s.len() && spec_skip_ws(s, j) == s.len() {
                Some(r)
            } else {
                None
            },
            None => None,
        }
    } else {
        None
    }
}

// ---------------------------------------------------------------------------
// Response parsing (executable)
// ---------------------------------------------------------------------------
/// The view of an optional string.
pub open spec fn opt_str_view(o: Option<String>) -> Option<Seq<char>> {
    match o {
        Some(s) => Some(s@),
        None => None,
    }
}

/// Parse `true` or `false`.
fn parse_bool(v: &Vec<char>, i: usize) -> (r: Option<(bool, usize)>)
    requires
        i <= v@.len(),
    ensures
        match r {
            Some((b, j)) => spec_parse_bool(v@, i as int) == Some((b, j as int)) && i < j
                <= v@.len(),
            None => spec_parse_bool(v@, i as int) is None,
        },
{
    let vlen = v.len();
    if match_lit(v, i, "true") {
        proof {
            reveal_strlit("true");
        }
        Some((true, i + "true".unicode_len()))
    } else if match_lit(v, i, "false") {
        proof {
            reveal_strlit("false");
        }
        Some((false, i + "false".unicode_len()))
    } else {
        None
    }
}

/// Step over one primitive value.
fn skip_value(v: &Vec<char>, i: usize) -> (r: Option<usize>)
    requires
        i <= v@.len(),
    ensures
        match r {
            Some(j) => spec_skip_value(v@, i as int) == Some(j as int) && i < j <= v@.len(),
            None => spec_skip_value(v@, i as int) is None,
        },
{
    let vlen = v.len();
    if match_lit(v, i, "null") {
        proof {
            reveal_strlit("null");
        }
        Some(i + "null".unicode_len())
    } else if match_lit(v, i, "true") {
        proof {
            reveal_strlit("true");
        }
        Some(i + "true".unicode_len())
    } else if match_lit(v, i, "false") {
        proof {
            reveal_strlit("false");
        }
        Some(i + "false".unicode_len())
    } else if i < vlen && v[i] == '"' {
        match parse_jstring(v, i) {
            Some((q, j)) => Some(j),
            None => None,
        }
    } else {
        match parse_uint(v, i) {
            Some((n, j)) => Some(j),
            None => None,
        }
    }
}

/// Parse the members of the `patch` object.
fn patch_members(
    v: &Vec<char>,
    i: usize,
    number: Option<usize>,
    url: Option<String>,
    hash: Option<String>,
    is_diff: Option<bool>,
) -> (r: Option<(Patch, usize)>)
    requires
        i <= v@.len(),
    ensures
        match r {
            Some((p, j)) => spec_patch_members(
                v@,
                i as int,
                number,
                opt_str_view(url),
                opt_str_view(hash),
                is_diff,
            ) == Some((p@, j as int)) && i <= j <= v@.len(),
            None => spec_patch_members(
                v@,
                i as int,
                number,
                opt_str_view(url),
                opt_str_view(hash),
                is_diff,
            ) is None,
        },
    decreases v@.len() - i, 1int,
{
    let k0 = skip_ws(v, i);
    match parse_jstring(v, k0) {
        None => None,
        Some((key, k1)) => {
            let k2 = skip_ws(v, k1);
            if !(k2 < v.len() && v[k2] == ':') {
                return None;
            }
            let k3 = skip_ws(v, k2 + 1);
            if crate::text::str_eq(key.as_str(), "number") {
                match parse_uint(v, k3) {
                    Some((n, j)) => patch_after_value(v, j, Some(n), url, hash, is_diff),
                    None => None,
                }
            } else if crate::text::str_eq(key.as_str(), "download_url") {
                match parse_jstring(v, k3) {
                    Some((q, j)) => patch_after_value(v, j, number, Some(q), hash, is_diff),
                    None => None,
                }
            } else if crate::text::str_eq(key.as_str(), "hash") {
                match parse_jstring(v, k3) {
                    Some((q, j)) => patch_after_value(v, j, number, url, Some(q), is_diff),
                    None => None,
                }
            } else if crate::text::str_eq(key.as_str(), "is_diff") {
                match parse_bool(v, k3) {
                    Some((b, j)) => patch_after_value(v, j, number, url, hash, Some(b)),
                    None => None,
                }
            } else {
                match skip_value(v, k3) {
                    Some(j) => patch_after_value(v, j, number, url, hash, is_diff),
                    None => None,
                }
            }
        },
    }
}

/// Parse what follows a member of the `patch` object.
fn patch_after_value(
    v: &Vec<char>,
    j: usize,
    number: Option<usize>,
    url: Option<String>,
    hash: Option<String>,
    is_diff: Option<bool>,
) -> (r: Option<(Patch, usize)>)
    requires
        j <= v@.len(),
    ensures
        match r {
            Some((p, e)) => spec_patch_after_value(
                v@,
                j as int,
                number,
                opt_str_view(url),
                opt_str_view(hash),
                is_diff,
            ) == Some((p@, e as int)) && j <= e <= v@.len(),
            None => spec_patch_after_value(
                v@,
                j as int,
                number,
                opt_str_view(url),
                opt_str_view(hash),
                is_diff,
            ) is None,
        },
    decreases v@.len() - j, 0int,
{
    let j1 = skip_ws(v, j);
    if j1 < v.len() && v[j1] == ',' {
        patch_members(v, j1 + 1, number, url, hash, is_diff)
    } else if j1 < v.len() && v[j1] == '}' {
        match (number, url, hash) {
            (Some(n), Some(u), Some(h)) => {
                let p = Patch {
                    number: n,
                    hash: h,
                    download_url: u,
                    is_diff: match is_diff {
                        Some(b) => b,
                        None => false,
                    },
                };
                Some((p, j1 + 1))
            },
            _ => None,
        }
    } else {
        None
    }
}

/// Parse the `patch` value: `null` or the patch object.
fn parse_patch_value(v: &Vec<char>, i: usize) -> (r: Option<(Option<Patch>, usize)>)
    requires
        i <= v@.len(),
    ensures
        match r {
            Some((p, j)) => spec_parse_patch_value(v@, i as int) == Some(
                (
                    match p {
                        Some(pp) => Some(pp@),
                        None => None,
                    },
                    j as int,
                ),
            ) && i <= j <= v@.len(),
            None => spec_parse_patch_value(v@, i as int) is None,
        },
    decreases v@.len() - i, 2int,
{
    let vlen = v.len();
    if match_lit(v, i, "null") {
        Some((None, i + "null".unicode_len()))
    } else if i < vlen && v[i] == '{' {
        match patch_members(v, i + 1, None, None, None, None) {
            Some((p, j)) => Some((Some(p), j)),
            None => None,
        }
    } else {
        None
    }
}

/// Parse the members of the response object.
fn resp_members(v: &Vec<char>, i: usize, avail: Option<bool>, patch: Option<Option<Patch>>) -> (r:
    Option<(PatchCheckResponse, usize)>)
    requires
        i <= v@.len(),
    ensures
        match r {
            Some((resp, j)) => spec_resp_members(v@, i as int, avail, opt_patch_view(patch))
                == Some((resp@, j as int)) && i <= j <= v@.len(),
            None => spec_resp_members(v@, i as int, avail, opt_patch_view(patch)) is None,
        },
    decreases v@.len() - i, 4int,
{
    let k0 = skip_ws(v, i);
    match parse_jstring(v, k0) {
        None => None,
        Some((key, k1)) => {
            let k2 = skip_ws(v, k1);
            if !(k2 < v.len() && v[k2] == ':') {
                return None;
            }
            let k3 = skip_ws(v, k2 + 1);
            if crate::text::str_eq(key.as_str(), "patch_available") {
                match parse_bool(v, k3) {
                    Some((b, j)) => resp_after_value(v, j, Some(b), patch),
                    None => None,
                }
            } else if crate::text::str_eq(key.as_str(), "patch") {
                match parse_patch_value(v, k3) {
                    Some((p, j)) => resp_after_value(v, j, avail, Some(p)),
                    None => None,
                }
            } else {
                match skip_value(v, k3) {
                    Some(j) => resp_after_value(v, j, avail, patch),
                    None => None,
                }
            }
        },
    }
}

/// The view of an optional `patch` value.
pub open spec fn opt_patch_view(o: Option<Option<Patch>>) -> Option<Option<PatchV>> {
    match o {
        Some(Some(p)) => Some(Some(p@)),
        Some(None) => Some(None),
        None => None,
    }
}

/// Parse what follows a member of the response object.
fn resp_after_value(v: &Vec<char>, j: usize, avail: Option<bool>, patch: Option<Option<Patch>>) -> (r:
    Option<(PatchCheckResponse, usize)>)
    requires
        j <= v@.len(),
    ensures
        match r {
            Some((resp, e)) => spec_resp_after_value(v@, j as int, avail, opt_patch_view(patch))
                == Some((resp@, e as int)) && j <= e <= v@.len(),
            None => spec_resp_after_value(v@, j as int, avail, opt_patch_view(patch)) is None,
        },
    decreases v@.len() - j, 3int,
{
    let j1 = skip_ws(v, j);
    if j1 < v.len() && v[j1] == ',' {
        resp_members(v, j1 + 1, avail, patch)
    } else if j1 < v.len() && v[j1] == '}' {
        match avail {
            Some(b) => {
                let resp = PatchCheckResponse {
                    patch_available: b,
                    patch: match patch {
                        Some(p) => p,
                        None => None,
                    },
                };
                Some((resp, j1 + 1))
            },
            None => None,
        }
    } else {
        None
    }
}

/// Parse a whole patch-check response body.  `None` means the text is not a
/// response this library understands.
pub fn parse_patch_check_response(body: &str) -> (r: Option<PatchCheckResponse>)
    ensures
        match r {
            Some(resp) => spec_parse_response(body@) == Some(resp@),
            None => spec_parse_response(body@) is None,
        },
{
    let v = str_to_chars(body);
    let i0 = skip_ws(&v, 0);
    if i0 < v.len() && v[i0] == '{' {
        match resp_members(&v, i0 + 1, None, None) {
            Some((resp, j)) => {
                if skip_ws(&v, j) == v.len() {
                    Some(resp)
                } else {
                    None
                }
            },
            None => None,
        }
    } else {
        None
    }
}

} // verus!
