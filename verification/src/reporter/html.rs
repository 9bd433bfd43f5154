//! HTML report support: escaping and the embedded styles.

use vstd::prelude::*;

verus! {

/// What one character becomes in escaped HTML text.
pub open spec fn spec_html_escape_char(c: char) -> Seq<char> {
    if c == '&' {
        "&amp;"@
    } else if c == '<' {
        "&lt;"@
    } else if c == '>' {
        "&gt;"@
    } else if c == '"' {
        "&quot;"@
    } else if c == '\'' {
        "&#39;"@
    } else {
        seq![c]
    }
}

/// The escaped form of `s[i..]`.
pub open spec fn spec_html_escape_from(s: Seq<char>, i: int) -> Seq<char>
    decreases s.len() - i,
{
    if i < 0 || i >= s.len() {
        Seq::empty()
    } else {
        spec_html_escape_char(s[i]) + spec_html_escape_from(s, i + 1)
    }
}

/// Renders test reports as a standalone HTML page.
pub struct HtmlReporter;

impl HtmlReporter {
    /// Escapes text for HTML: the five significant characters become
    /// entities, all others stay.
    pub fn html_escape(s: &str) -> (r: String)
        ensures
            r@ == spec_html_escape_from(s@, 0),
    {
        let n = s.unicode_len();
        let mut r = String::new();
        let mut i: usize = 0;
        while i < n
            invariant
                i <= n,
                n == s@.len(),
                spec_html_escape_from(s@, 0) == r@ + spec_html_escape_from(s@, i as int),
            decreases n - i,
        {
            let ghost before = r@;
            let c = s.get_char(i);
            if c == '&' {
                r.append("&amp;");
            } else if c == '<' {
                r.append("&lt;");
            } else if c == '>' {
                r.append("&gt;");
            } else if c == '"' {
                r.append("&quot;");
            } else if c == '\'' {
                r.append("&#39;");
            } else {
                r.push(c);
                proof {
                    assert(r@ =~= before + seq![c]);
                }
            }
            proof {
                assert(before + spec_html_escape_char(s@[i as int]) + spec_html_escape_from(
                    s@,
                    i + 1,
                ) =~= before + (spec_html_escape_char(s@[i as int]) + spec_html_escape_from(
                    s@,
                    i + 1,
                )));
            }
            i = i + 1;
        }
        proof {
            assert(r@ =~= r@ + spec_html_escape_from(s@, n as int));
        }
        r
    }

    /// The embedded framework styles of the report page.
    pub fn embedded_bootstrap_css() -> (r: &'static str)
        ensures
            r@.len() > 0,
    {
        let r =
            "<style>.badge{display:inline-block;padding:2px 8px;border-radius:4px;color:#fff}.badge-danger{background:#dc3545}.badge-warning{background:#ffc107;color:#212529}.badge-info{background:#0dcaf0;color:#212529}.badge-secondary{background:#6c757d}.card{border:1px solid #dee2e6;border-radius:6px;margin:12px 0;padding:12px}</style>";
        proof {
            reveal_strlit(
                "<style>.badge{display:inline-block;padding:2px 8px;border-radius:4px;color:#fff}.badge-danger{background:#dc3545}.badge-warning{background:#ffc107;color:#212529}.badge-info{background:#0dcaf0;color:#212529}.badge-secondary{background:#6c757d}.card{border:1px solid #dee2e6;border-radius:6px;margin:12px 0;padding:12px}</style>",
            );
        }
        r
    }

    /// The embedded page styles of the report.
    pub fn embedded_css() -> (r: &'static str)
        ensures
            r@.len() > 0,
    {
        let r =
            "<style>body{font-family:sans-serif;margin:24px}table{border-collapse:collapse;width:100%}td,th{border:1px solid #ccc;padding:6px;text-align:left}tr.failed{background:#fdecea}tr.passed{background:#eafaf0}pre{background:#f6f8fa;padding:8px;overflow:auto}</style>";
        proof {
            reveal_strlit(
                "<style>body{font-family:sans-serif;margin:24px}table{border-collapse:collapse;width:100%}td,th{border:1px solid #ccc;padding:6px;text-align:left}tr.failed{background:#fdecea}tr.passed{background:#eafaf0}pre{background:#f6f8fa;padding:8px;overflow:auto}</style>",
            );
        }
        r
    }

    /// The embedded script that folds and unfolds test details.
    pub fn embedded_javascript() -> (r: &'static str)
        ensures
            r@.len() > 0,
    {
        let r =
            "<script>function toggleDetails(id){var e=document.getElementById(id);if(e){e.hidden=!e.hidden;}}</script>";
        proof {
            reveal_strlit(
                "<script>function toggleDetails(id){var e=document.getElementById(id);if(e){e.hidden=!e.hidden;}}</script>",
            );
        }
        r
    }
}

} // verus!
