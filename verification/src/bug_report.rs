//! Bug-report formatting for unexpected internal errors.
//!
//! Builds the message that suggests filing an issue, with the error
//! detail sanitized for an issue title and shell-quoted for a ready-made
//! command line; the caller's logging layer emits the finished text.

use vstd::prelude::*;

verus! {

/// Shell escaping for single-quoted strings: each quote becomes the
/// four-character sequence quote, backslash, quote, quote.
pub open spec fn spec_shell_escape(s: Seq<char>) -> Seq<char>
    decreases s.len(),
{
    if s.len() == 0 {
        Seq::empty()
    } else {
        spec_shell_escape(s.drop_last()) + (if s.last() == '\'' {
            seq!['\'', '\\', '\'', '\'']
        } else {
            seq![s.last()]
        })
    }
}

/// Escape single quotes for use inside a shell single-quoted string.
pub fn shell_escape(s: &str) -> (r: String)
    ensures
        r@ == spec_shell_escape(s@),
{
    let n = s.unicode_len();
    let mut out = String::new();
    let mut j: usize = 0;
    proof {
        assert(s@.take(0) =~= Seq::<char>::empty());
    }
    while j < n
        invariant
            n == s@.len(),
            j <= n,
            out@ == spec_shell_escape(s@.take(j as int)),
        decreases n - j,
    {
        let c = s.get_char(j);
        if c == '\'' {
            out.append("'\\''");
            proof {
                reveal_strlit("'\\''");
                assert("'\\''"@ =~= seq!['\'', '\\', '\'', '\'']);
            }
        } else {
            let piece = s.substring_char(j, j + 1);
            out.append(piece);
            proof {
                assert(piece@ =~= seq![s@[j as int]]);
            }
        }
        proof {
            assert(s@.take(j as int + 1).drop_last() =~= s@.take(j as int));
            assert(s@.take(j as int + 1).last() == s@[j as int]);
        }
        j = j + 1;
    }
    proof {
        assert(s@.take(n as int) =~= s@);
    }
    out
}

/// A string with newlines flattened to spaces.
pub open spec fn spec_flattened(s: Seq<char>) -> Seq<char> {
    s.map_values(
        |c: char|
            if c == '\n' {
                ' '
            } else {
                c
            },
    )
}

/// A string sanitized for an issue title: newlines flattened, and the
/// text cut to the given length with a trailing ellipsis where it is
/// longer.
pub open spec fn spec_sanitized(s: Seq<char>, max_len: int) -> Seq<char> {
    let cleaned = spec_flattened(s);
    if cleaned.len() <= max_len {
        cleaned
    } else {
        cleaned.take(max_len - 3) + "..."@
    }
}

/// Flatten newlines to spaces and cut the text to `max_len` characters,
/// ending a cut text with an ellipsis.
pub fn sanitize_for_title(s: &str, max_len: usize) -> (r: String)
    requires
        max_len >= 3,
    ensures
        r@ == spec_sanitized(s@, max_len as int),
{
    let n = s.unicode_len();
    let mut cleaned = String::new();
    let mut j: usize = 0;
    proof {
        assert(spec_flattened(s@).take(0) =~= Seq::<char>::empty());
    }
    while j < n
        invariant
            n == s@.len(),
            j <= n,
            cleaned@ =~= spec_flattened(s@).take(j as int),
        decreases n - j,
    {
        let c = s.get_char(j);
        if c == '\n' {
            cleaned.append(" ");
            proof {
                reveal_strlit(" ");
                assert(" "@ =~= seq![' ']);
            }
        } else {
            let piece = s.substring_char(j, j + 1);
            cleaned.append(piece);
            proof {
                assert(piece@ =~= seq![s@[j as int]]);
            }
        }
        proof {
            assert(cleaned@ =~= spec_flattened(s@).take(j as int + 1));
        }
        j = j + 1;
    }
    proof {
        assert(spec_flattened(s@).take(n as int) =~= spec_flattened(s@));
    }
    let cleaned_len = cleaned.as_str().unicode_len();
    if cleaned_len <= max_len {
        cleaned
    } else {
        let keep = max_len - 3;
        let head = cleaned.as_str().substring_char(0, keep);
        let mut out = String::from_str(head);
        out.append("...");
        proof {
            assert(head@ =~= spec_flattened(s@).take(keep as int));
        }
        out
    }
}

/// The full bug-report message for an unexpected internal error: the
/// context and detail, followed by a ready-made issue-filing command with
/// the sanitized title and shell-escaped body.
pub open spec fn spec_bug_report_message(context: Seq<char>, detail: Seq<char>) -> Seq<char> {
    let title = "Unexpected error: "@ + spec_sanitized(detail, 80);
    let body = "aerospike-py version: 0.1.0\nContext: "@ + context + "\nError: "@ + detail;
    "Unexpected internal error in aerospike-py ("@ + context + "): "@ + detail
        + "\n\nThis error may be a bug in aerospike-py. Please report it by running:\ngh issue create --repo KimSoungRyoul/aerospike-py --title '"@
        + spec_shell_escape(title) + "' --body '"@ + spec_shell_escape(body) + "'"@
}

/// Build the report for an unexpected internal error — one that is not
/// an expected server error — for the caller to log.
pub fn log_unexpected_error(context: &str, error_detail: &str) -> (r: String)
    ensures
        r@ == spec_bug_report_message(context@, error_detail@),
{
    let mut title = String::from_str("Unexpected error: ");
    let sanitized = sanitize_for_title(error_detail, 80);
    title.append(sanitized.as_str());

    let mut body = String::from_str("aerospike-py version: 0.1.0\nContext: ");
    body.append(context);
    body.append("\nError: ");
    body.append(error_detail);

    let mut msg = String::from_str("Unexpected internal error in aerospike-py (");
    msg.append(context);
    msg.append("): ");
    msg.append(error_detail);
    msg.append(
        "\n\nThis error may be a bug in aerospike-py. Please report it by running:\ngh issue create --repo KimSoungRyoul/aerospike-py --title '",
    );
    let escaped_title = shell_escape(title.as_str());
    msg.append(escaped_title.as_str());
    msg.append("' --body '");
    let escaped_body = shell_escape(body.as_str());
    msg.append(escaped_body.as_str());
    msg.append("'");
    msg
}

} // verus!
