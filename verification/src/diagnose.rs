use vstd::prelude::*;
use vstd::string::StrSliceExecFns;

use crate::text::{
    find_char, find_str, i64_to_string, replace_pair, rfind_char, spec_i64_dec, spec_matches_at,
    spec_replace_pair, str_eq,
};

verus! {

/// Whether a string is well-formed JSON.
pub uninterp spec fn json_parses(s: Seq<char>) -> bool;

/// Relies on serde_json::from_str::<serde_json::Value>: whether the text
/// parses as JSON, a function of the text alone.
#[verifier::external_body]
fn json_is_valid(s: &str) -> (r: bool)
    ensures
        r == json_parses(s@),
{
    serde_json::from_str::<serde_json::Value>(s).is_ok()
}

/// Mathematical model of the fields of an embedded error object.
pub ghost struct ErrorFieldsView {
    pub code: Option<i64>,
    pub status: Option<Seq<char>>,
    pub message: Option<Seq<char>>,
}

/// The fields of the `error` object inside a structured error payload;
/// each is absent when the payload does not carry it in the expected
/// shape.
pub struct ErrorFields {
    pub code: Option<i64>,
    pub status: Option<String>,
    pub message: Option<String>,
}

impl View for ErrorFields {
    type V = ErrorFieldsView;

    open spec fn view(&self) -> ErrorFieldsView {
        ErrorFieldsView {
            code: self.code,
            status: self.status.deep_view(),
            message: self.message.deep_view(),
        }
    }
}

/// The `error` object's fields inside a JSON text, when the text parses
/// and holds an `error` key; a function of the text alone.
pub uninterp spec fn json_error_of(s: Seq<char>) -> Option<ErrorFieldsView>;

/// Relies on serde_json::from_str::<serde_json::Value>, Value::get,
/// Value::as_i64 and Value::as_str: parses the text and reads the
/// `code`, `status` and `message` fields of its `error` object. The
/// result is `Some` exactly when the text parses and has an `error` key,
/// and then the text parses as JSON.
#[verifier::external_body]
fn json_extract_error(s: &str) -> (r: Option<ErrorFields>)
    ensures
        (match (r, json_error_of(s@)) {
            (Some(f), Some(g)) => f@ == g,
            (None, None) => true,
            _ => false,
        }),
        r is Some ==> json_parses(s@),
{
    let v: serde_json::Value = serde_json::from_str(s).ok()?;
    let e = v.get("error")?;
    Some(ErrorFields {
        code: e.get("code").and_then(|c| c.as_i64()),
        status: e.get("status").and_then(|c| c.as_str()).map(|c| c.to_string()),
        message: e.get("message").and_then(|c| c.as_str()).map(|c| c.to_string()),
    })
}

/// The pretty-printed form of a JSON text, a function of the text alone.
pub uninterp spec fn json_pretty(s: Seq<char>) -> Seq<char>;

/// Relies on serde_json::from_str::<serde_json::Value> and
/// serde_json::to_string_pretty: parses the text and prints it back with
/// indentation; `None` when the text does not parse or printing fails.
#[verifier::external_body]
fn json_pretty_print(s: &str) -> (r: Option<String>)
    ensures
        r matches Some(p) ==> json_parses(s@) && p@ == json_pretty(s@),
{
    let v: serde_json::Value = serde_json::from_str(s).ok()?;
    serde_json::to_string_pretty(&v).ok()
}

/// The error code shown: absent counts as zero.
pub open spec fn spec_code_of(f: ErrorFieldsView) -> int {
    match f.code {
        Some(c) => c as int,
        None => 0,
    }
}

/// The status shown: absent counts as unknown.
pub open spec fn spec_status_of(f: ErrorFieldsView) -> Seq<char> {
    match f.status {
        Some(s) => s,
        None => "UNKNOWN"@,
    }
}

/// The message shown when the payload carries none.
pub open spec fn spec_message_of(f: ErrorFieldsView) -> Seq<char> {
    match f.message {
        Some(m) => m,
        None => "No message"@,
    }
}

/// The first position where the pattern occurs.
pub open spec fn spec_first_match(s: Seq<char>, pat: Seq<char>, p: int) -> bool {
    spec_matches_at(s, pat, p) && forall|j: int| 0 <= j < p ==> !spec_matches_at(s, pat, j)
}

/// The retry suggestion: the message's own retry advice, from its first
/// occurrence on, when it gives one.
pub open spec fn spec_retry_part(message: Seq<char>) -> Seq<char> {
    if exists|p: int| spec_first_match(message, "retry in "@, p) {
        "\n\n\u{23f3} **Suggestion:** "@ + message.skip(
            choose|p: int| spec_first_match(message, "retry in "@, p),
        )
    } else {
        Seq::<char>::empty()
    }
}

/// The human-readable explanation for a structured error: known status
/// codes map to templated advice, anything else to a generic report of
/// code, status and message.
pub open spec fn spec_error_template(f: ErrorFieldsView) -> Seq<char> {
    let status = spec_status_of(f);
    let message = spec_message_of(f);
    if status == "RESOURCE_EXHAUSTED"@ {
        "\u{1f6d1} **Quota Exhausted (429)**\n\nYou've hit the Gemini API rate limit. Please wait a bit or check your Google AI Studio quota."@
            + spec_retry_part(message)
    } else if status == "NOT_FOUND"@ {
        "\u{1f6ab} **Model Not Found (404)**\n\nThe model you selected is either not found or not supported for this operation. Try choosing a different model.\n\n**Details:** "@
            + message
    } else if status == "PERMISSION_DENIED"@ {
        "\u{1f512} **Permission Denied (403)**\n\nCheck your API Key and project permissions. Make sure the Key is valid for the selected region.\n\n**Details:** "@
            + message
    } else if status == "INVALID_ARGUMENT"@ {
        "\u{274c} **Invalid Request (400)**\n\nSomething is wrong with the request parameters.\n\n**Details:** "@
            + message
    } else {
        "\u{2757} **Gemini API Error ("@ + spec_i64_dec(spec_code_of(f)) + ")**\n\n**Status:** "@
            + status + "\n**Message:** "@ + message
    }
}

/// Renders the explanation for extracted error fields.
pub fn diagnose_fields(f: &ErrorFields) -> (r: String)
    ensures
        r@ == spec_error_template(f@),
{
    let status: &str = match &f.status {
        Some(s) => s.as_str(),
        None => "UNKNOWN",
    };
    let message: &str = match &f.message {
        Some(m) => m.as_str(),
        None => "No message",
    };
    let mut out = String::new();
    if str_eq(status, "RESOURCE_EXHAUSTED") {
        out.append(
            "\u{1f6d1} **Quota Exhausted (429)**\n\nYou've hit the Gemini API rate limit. Please wait a bit or check your Google AI Studio quota.",
        );
        match find_str(message, "retry in ") {
            Some(p) => {
                proof {
                    assert(spec_first_match(message@, "retry in "@, p as int));
                    let cp = choose|q: int| spec_first_match(message@, "retry in "@, q);
                    assert(spec_matches_at(message@, "retry in "@, cp));
                    if cp < p {
                        assert(false);
                    }
                    if cp > p {
                        assert(!spec_matches_at(message@, "retry in "@, p as int));
                        assert(false);
                    }
                    assert(cp == p as int);
                }
                out.append("\n\n\u{23f3} **Suggestion:** ");
                let n = message.unicode_len();
                out.append(message.substring_char(p, n));
            },
            None => {
                proof {
                    if exists|q: int| spec_first_match(message@, "retry in "@, q) {
                        let q = choose|q: int| spec_first_match(message@, "retry in "@, q);
                        assert(spec_matches_at(message@, "retry in "@, q));
                        assert(false);
                    }
                    assert(out@ + Seq::<char>::empty() =~= out@);
                }
            },
        }
    } else if str_eq(status, "NOT_FOUND") {
        out.append(
            "\u{1f6ab} **Model Not Found (404)**\n\nThe model you selected is either not found or not supported for this operation. Try choosing a different model.\n\n**Details:** ",
        );
        out.append(message);
    } else if str_eq(status, "PERMISSION_DENIED") {
        out.append(
            "\u{1f512} **Permission Denied (403)**\n\nCheck your API Key and project permissions. Make sure the Key is valid for the selected region.\n\n**Details:** ",
        );
        out.append(message);
    } else if str_eq(status, "INVALID_ARGUMENT") {
        out.append(
            "\u{274c} **Invalid Request (400)**\n\nSomething is wrong with the request parameters.\n\n**Details:** ",
        );
        out.append(message);
    } else {
        let code: i64 = match f.code {
            Some(c) => c,
            None => 0,
        };
        out.append("\u{2757} **Gemini API Error (");
        let code_str = i64_to_string(code);
        out.append(code_str.as_str());
        out.append(")**\n\n**Status:** ");
        out.append(status);
        out.append("\n**Message:** ");
        out.append(message);
    }
    out
}

/// A character occurs in the string.
pub open spec fn spec_has_char(s: Seq<char>, c: char) -> bool {
    exists|k: int| 0 <= k < s.len() && s[k] == c
}

/// `i` is the first occurrence of `c`.
pub open spec fn spec_first_at(s: Seq<char>, c: char, i: int) -> bool {
    0 <= i < s.len() && s[i] == c && forall|k: int| 0 <= k < i ==> s[k] != c
}

/// `j` is the last occurrence of `c`.
pub open spec fn spec_last_at(s: Seq<char>, c: char, j: int) -> bool {
    0 <= j < s.len() && s[j] == c && forall|k: int| j < k < s.len() ==> s[k] != c
}

/// `c` is the JSON candidate cut out of `s`: from the first opening
/// brace through the last closing brace, or to the end when no closing
/// brace follows.
pub open spec fn spec_is_candidate(s: Seq<char>, c: Seq<char>) -> bool {
    exists|i: int|
        #[trigger] spec_first_at(s, '{', i) && ({
            let suf = s.skip(i);
            if spec_has_char(suf, '}') {
                exists|j: int| #[trigger] spec_last_at(suf, '}', j) && c == suf.take(j + 1)
            } else {
                c == suf
            }
        })
}

/// The candidate after tolerating escaped-string encoding: escaped
/// quotes and newlines written back as the characters themselves.
pub open spec fn spec_unescaped(c: Seq<char>) -> Seq<char> {
    spec_replace_pair(spec_replace_pair(c, '\\', '"', "\""@), '\\', 'n', "\n"@)
}

/// What the diagnosis returns for a given candidate: the template when
/// an error object can be read from the candidate (taken literally when
/// it parses, unescaped otherwise), the pretty print when it is JSON
/// without an error object, and the raw text when all else fails.
pub open spec fn spec_diag_result(msg: Seq<char>, cand: Seq<char>, r: Seq<char>) -> bool {
    let t = if json_parses(cand) {
        cand
    } else {
        spec_unescaped(cand)
    };
    match json_error_of(t) {
        Some(f) => r == spec_error_template(f),
        None => if json_parses(t) {
            r == json_pretty(t) || r == msg
        } else {
            r == msg
        },
    }
}

/// The diagnosis contract: raw text without an opening brace is shown
/// verbatim; otherwise the candidate between the braces decides.
pub open spec fn spec_diagnosed(msg: Seq<char>, r: Seq<char>) -> bool {
    if spec_has_char(msg, '{') {
        exists|c: Seq<char>| #[trigger] spec_is_candidate(msg, c) && spec_diag_result(msg, c, r)
    } else {
        r == msg
    }
}

/// Best-effort structured diagnosis of a raw error text: looks for an
/// embedded JSON error object — tolerating both literal and
/// escaped-string encodings — and maps known status codes to a
/// human-readable explanation. Never used to alter control flow, only to
/// improve the text shown.
pub fn diagnose_error_text(msg: &str) -> (r: String)
    ensures
        spec_diagnosed(msg@, r@),
{
    match find_char(msg, '{') {
        None => msg.to_owned(),
        Some(i) => {
            let n = msg.unicode_len();
            let cand: &str = msg.substring_char(i, n);
            let ghost suf = msg@.skip(i as int);
            proof {
                assert(spec_first_at(msg@, '{', i as int));
                assert(cand@ == suf);
            }
            let close = rfind_char(cand, '}');
            let end: usize = match close {
                Some(j) => j + 1,
                None => cand.unicode_len(),
            };
            let json_str: &str = cand.substring_char(0, end);
            let ghost c = json_str@;
            proof {
                match close {
                    Some(j) => {
                        assert(spec_last_at(suf, '}', j as int));
                        assert(spec_has_char(suf, '}'));
                        assert(c =~= suf.take(j + 1));
                    },
                    None => {
                        assert(!spec_has_char(suf, '}'));
                        assert(c =~= suf);
                    },
                }
                assert(spec_is_candidate(msg@, c));
            }
            let unescaped_once = replace_pair(json_str, '\\', '"', "\"");
            let unescaped = replace_pair(unescaped_once.as_str(), '\\', 'n', "\n");
            proof {
                assert(unescaped@ == spec_unescaped(c));
            }
            let target: &str = if json_is_valid(json_str) {
                json_str
            } else {
                unescaped.as_str()
            };
            let r = match json_extract_error(target) {
                Some(fields) => diagnose_fields(&fields),
                None => {
                    if json_is_valid(target) {
                        match json_pretty_print(target) {
                            Some(p) => p,
                            None => msg.to_owned(),
                        }
                    } else {
                        msg.to_owned()
                    }
                },
            };
            proof {
                assert(spec_diag_result(msg@, c, r@));
            }
            r
        },
    }
}

} // verus!
