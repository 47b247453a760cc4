//! Data URIs of the form `data:image/<ext>;base64,<payload>`.
//!
//! Building is plain concatenation.  Parsing splits at the first `;`
//! after the prefix, so building then parsing round-trips exactly when
//! the extension itself is free of `;`.

use vstd::prelude::*;
use vstd::string::StrSliceExecFns;
use vstd::string::StringExecFns;

use crate::b64::b64_decode;
use crate::b64::b64_encoding;

verus! {

/// The data URI carrying `payload` as base64 text under the media
/// type `image/<ext>`.
pub open spec fn spec_data_uri(ext: Seq<char>, payload: Seq<char>) -> Seq<char> {
    "data:image/"@ + ext + ";base64,"@ + payload
}

/// No `;` anywhere in `s`.
pub open spec fn semicolon_free(s: Seq<char>) -> bool {
    forall|i: int| 0 <= i < s.len() ==> s[i] != ';'
}

/// The concrete shape of the two pieces of text a data URI is built
/// from.
proof fn lemma_data_uri_literals()
    ensures
        "data:image/"@.len() == 11,
        ";base64,"@.len() == 8,
        forall|i: int| 0 <= i < 11 ==> #[trigger] "data:image/"@[i] != ';',
        ";base64,"@[0] == ';',
{
    reveal_strlit("data:image/");
    reveal_strlit(";base64,");
    assert forall|i: int| 0 <= i < 11 implies #[trigger] "data:image/"@[i] != ';' by {
        if i == 0 {
            assert("data:image/"@[0] == 'd');
        } else if i == 1 {
            assert("data:image/"@[1] == 'a');
        } else if i == 2 {
            assert("data:image/"@[2] == 't');
        } else if i == 3 {
            assert("data:image/"@[3] == 'a');
        } else if i == 4 {
            assert("data:image/"@[4] == ':');
        } else if i == 5 {
            assert("data:image/"@[5] == 'i');
        } else if i == 6 {
            assert("data:image/"@[6] == 'm');
        } else if i == 7 {
            assert("data:image/"@[7] == 'a');
        } else if i == 8 {
            assert("data:image/"@[8] == 'g');
        } else if i == 9 {
            assert("data:image/"@[9] == 'e');
        } else {
            assert("data:image/"@[10] == '/');
        }
    }
}

/// Builds the data URI for an extension and a base64 payload.
pub fn make_data_uri(ext: &str, payload: &str) -> (r: String)
    ensures
        r@ == spec_data_uri(ext@, payload@),
{
    let mut r = "data:image/".to_owned();
    r.append(ext);
    r.append(";base64,");
    r.append(payload);
    proof {
        assert(r@ =~= spec_data_uri(ext@, payload@));
    }
    r
}

/// A data URI built from a `;`-free extension determines its parts.
pub proof fn lemma_data_uri_parts_unique(
    e1: Seq<char>,
    p1: Seq<char>,
    e2: Seq<char>,
    p2: Seq<char>,
)
    requires
        semicolon_free(e1),
        semicolon_free(e2),
        spec_data_uri(e1, p1) == spec_data_uri(e2, p2),
    ensures
        e1 == e2,
        p1 == p2,
{
    lemma_data_uri_literals();
    let s = spec_data_uri(e1, p1);
    assert(s.len() == 19 + e1.len() + p1.len());
    assert(s.len() == 19 + e2.len() + p2.len());
    if e1.len() < e2.len() {
        let i = 11 + e1.len() as int;
        assert(s[i] == ";base64,"@[0]);
        assert(s[i] == e2[e1.len() as int]);
        assert(false);
    }
    if e2.len() < e1.len() {
        let i = 11 + e2.len() as int;
        assert(s[i] == ";base64,"@[0]);
        assert(s[i] == e1[e2.len() as int]);
        assert(false);
    }
    assert(e1 =~= e2) by {
        assert forall|i: int| 0 <= i < e1.len() implies e1[i] == e2[i] by {
            assert(s[11 + i] == e1[i]);
            assert(s[11 + i] == e2[i]);
        }
    }
    assert(p1 =~= p2) by {
        assert forall|i: int| 0 <= i < p1.len() implies p1[i] == p2[i] by {
            assert(s[19 + e1.len() + i] == p1[i]);
            assert(s[19 + e2.len() + i] == p2[i]);
        }
    }
}

/// Whether `pat` occurs in `s` starting at `pos`.
fn matches_at(s: &str, pos: usize, pat: &str) -> (r: bool)
    requires
        pos + pat@.len() <= s@.len(),
    ensures
        r <==> s@.subrange(pos as int, pos as int + pat@.len()) == pat@,
{
    let len_s = s.unicode_len();
    let n = pat.unicode_len();
    let mut k: usize = 0;
    while k < n
        invariant
            0 <= k <= n,
            n == pat@.len(),
            len_s == s@.len(),
            pos + n <= len_s,
            forall|m: int| 0 <= m < k ==> s@[pos + m] == pat@[m],
        decreases n - k,
    {
        if s.get_char(pos + k) != pat.get_char(k) {
            proof {
                let sub = s@.subrange(pos as int, pos as int + pat@.len());
                assert(sub[k as int] == s@[pos + k as int]);
            }
            return false;
        }
        k = k + 1;
    }
    proof {
        assert(s@.subrange(pos as int, pos as int + pat@.len()) =~= pat@);
    }
    true
}

/// The first `;` of `s` at or after `start`, if any.
fn find_semicolon(s: &str, start: usize) -> (r: Option<usize>)
    requires
        start <= s@.len(),
    ensures
        r matches Some(j) ==> start <= j < s@.len() && s@[j as int] == ';' && (forall|m: int|
            start <= m < j ==> s@[m] != ';'),
        r is None ==> forall|m: int| start <= m < s@.len() ==> s@[m] != ';',
{
    let n = s.unicode_len();
    let mut j = start;
    while j < n
        invariant
            start <= j <= n,
            n == s@.len(),
            forall|m: int| start <= m < j ==> s@[m] != ';',
        decreases n - j,
    {
        if s.get_char(j) == ';' {
            return Some(j);
        }
        j = j + 1;
    }
    None
}

/// Splits a data URI into its extension and base64 payload.
///
/// Parsing succeeds on exactly the strings that `spec_data_uri` builds
/// from a `;`-free extension, and returns those parts.
pub fn split_data_uri(uri: &str) -> (r: Option<(String, String)>)
    ensures
        r matches Some(p) ==> semicolon_free(p.0@) && uri@ == spec_data_uri(p.0@, p.1@),
        forall|e: Seq<char>, pay: Seq<char>|
            semicolon_free(e) && uri@ == #[trigger] spec_data_uri(e, pay) ==> r is Some,
{
    proof {
        lemma_data_uri_literals();
    }
    let n = uri.unicode_len();
    if n < 11 {
        return None;
    }
    if !matches_at(uri, 0, "data:image/") {
        proof {
            assert forall|e: Seq<char>, pay: Seq<char>|
                semicolon_free(e) && uri@ == #[trigger] spec_data_uri(e, pay) implies false by {
                assert(uri@.subrange(0, 11) =~= "data:image/"@);
            }
        }
        return None;
    }
    let found = find_semicolon(uri, 11);
    match found {
        None => {
            proof {
                assert forall|e: Seq<char>, pay: Seq<char>|
                    semicolon_free(e) && uri@ == #[trigger] spec_data_uri(e, pay) implies false by {
                    assert(uri@[11 + e.len() as int] == ";base64,"@[0]);
                }
            }
            None
        },
        Some(j) => {
            if n - j < 8 {
                proof {
                    assert forall|e: Seq<char>, pay: Seq<char>|
                        semicolon_free(e) && uri@ == #[trigger] spec_data_uri(e, pay) implies false by {
                        lemma_first_semicolon(uri@, e, pay, j as int);
                    }
                }
                return None;
            }
            if !matches_at(uri, j, ";base64,") {
                proof {
                    assert forall|e: Seq<char>, pay: Seq<char>|
                        semicolon_free(e) && uri@ == #[trigger] spec_data_uri(e, pay) implies false by {
                        lemma_first_semicolon(uri@, e, pay, j as int);
                        assert(uri@.subrange(j as int, j as int + 8) =~= ";base64,"@);
                    }
                }
                return None;
            }
            let ext = uri.substring_char(11, j).to_owned();
            let payload = uri.substring_char(j + 8, n).to_owned();
            proof {
                assert(ext@ == uri@.subrange(11, j as int));
                assert(semicolon_free(ext@));
                assert(uri@ =~= spec_data_uri(ext@, payload@)) by {
                    let built = spec_data_uri(ext@, payload@);
                    assert(uri@.subrange(0, 11) == "data:image/"@);
                    assert(uri@.subrange(j as int, j as int + 8) == ";base64,"@);
                    assert(built.len() == 19 + (j - 11) + (n - j - 8));
                    assert forall|i: int| 0 <= i < uri@.len() implies uri@[i] == built[i] by {
                        if i < 11 {
                            assert(uri@.subrange(0, 11)[i] == uri@[i]);
                            assert(built[i] == "data:image/"@[i]);
                        } else if i < j {
                            assert(built[i] == ext@[i - 11]);
                            assert(ext@[i - 11] == uri@[i]);
                        } else if i < j + 8 {
                            assert(uri@.subrange(j as int, j as int + 8)[i - j] == uri@[i]);
                            assert(built[i] == ";base64,"@[i - j]);
                        } else {
                            assert(built[i] == payload@[i - j - 8]);
                            assert(payload@[i - j - 8] == uri@[i]);
                        }
                    }
                }
            }
            Some((ext, payload))
        },
    }
}

/// In a data URI with a `;`-free extension, the first `;` at or after
/// the prefix sits exactly where `;base64,` begins.
proof fn lemma_first_semicolon(s: Seq<char>, e: Seq<char>, pay: Seq<char>, j: int)
    requires
        semicolon_free(e),
        s == spec_data_uri(e, pay),
        11 <= j < s.len(),
        s[j] == ';',
        forall|m: int| 11 <= m < j ==> s[m] != ';',
    ensures
        j == 11 + e.len(),
        s.len() - j >= 8,
        s.subrange(j, j + 8) == ";base64,"@,
{
    lemma_data_uri_literals();
    let dot = 11 + e.len() as int;
    assert(s[dot] == ";base64,"@[0]);
    if j < dot {
        assert(s[j] == e[j - 11]);
        assert(false);
    }
    if j > dot {
        assert(false);
    }
    assert(s.subrange(j, j + 8) =~= ";base64,"@) by {
        assert forall|i: int| 0 <= i < 8 implies s.subrange(j, j + 8)[i] == ";base64,"@[i] by {
            assert(s[j + i] == ";base64,"@[i]);
        }
    }
}

/// Parses a data URI and decodes its payload.
///
/// For every byte sequence and every `;`-free extension, decoding the
/// data URI built from them yields the extension and the bytes back.
pub fn decode_data_uri(uri: &str) -> (r: Option<(String, Vec<u8>)>)
    ensures
        forall|e: Seq<char>, bytes: Seq<u8>|
            semicolon_free(e) && uri@ == #[trigger] spec_data_uri(e, b64_encoding(bytes)) ==> (r
                matches Some(p) && p.0@ == e && p.1@ == bytes),
        r matches Some(p) ==> semicolon_free(p.0@) && (exists|pay: Seq<char>|
            uri@ == #[trigger] spec_data_uri(p.0@, pay)),
{
    let split = split_data_uri(uri);
    match split {
        None => None,
        Some((ext, payload)) => {
            let decoded = b64_decode(payload.as_str());
            match decoded {
                None => {
                    proof {
                        assert forall|e: Seq<char>, bytes: Seq<u8>|
                            semicolon_free(e) && uri@ == #[trigger] spec_data_uri(
                                e,
                                b64_encoding(bytes),
                            ) implies false by {
                            lemma_data_uri_parts_unique(ext@, payload@, e, b64_encoding(bytes));
                        }
                    }
                    None
                },
                Some(v) => {
                    proof {
                        assert forall|e: Seq<char>, bytes: Seq<u8>|
                            semicolon_free(e) && uri@ == #[trigger] spec_data_uri(
                                e,
                                b64_encoding(bytes),
                            ) implies ext@ == e && v@ == bytes by {
                            lemma_data_uri_parts_unique(ext@, payload@, e, b64_encoding(bytes));
                        }
                    }
                    Some((ext, v))
                },
            }
        },
    }
}

} // verus!
