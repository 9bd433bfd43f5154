//! JUnit XML report support: escaping.

use vstd::prelude::*;

verus! {

/// What one character becomes in escaped XML text.
pub open spec fn spec_xml_escape_char(c: char) -> Seq<char> {
    if c == '&' {
        "&amp;"@
    } else if c == '<' {
        "&lt;"@
    } else if c == '>' {
        "&gt;"@
    } else if c == '"' {
        "&quot;"@
    } else if c == '\'' {
        "&apos;"@
    } else {
        seq![c]
    }
}

/// The escaped form of `s[i..]`.
pub open spec fn spec_xml_escape_from(s: Seq<char>, i: int) -> Seq<char>
    decreases s.len() - i,
{
    if i < 0 || i >= s.len() {
        Seq::empty()
    } else {
        spec_xml_escape_char(s[i]) + spec_xml_escape_from(s, i + 1)
    }
}

/// Renders test reports as JUnit XML.
pub struct JunitReporter;

impl JunitReporter {
    /// Escapes text for XML: the five significant characters become
    /// entities, all others stay.
    pub fn xml_escape(s: &str) -> (r: String)
        ensures
            r@ == spec_xml_escape_from(s@, 0),
    {
        let n = s.unicode_len();
        let mut r = String::new();
        let mut i: usize = 0;
        while i < n
            invariant
                i <= n,
                n == s@.len(),
                spec_xml_escape_from(s@, 0) == r@ + spec_xml_escape_from(s@, i as int),
            decreases n - i,
        {
            let ghost before = r@;
            let c = s.get_char(i);
            if c == '&' {
                r.append("&amp;");
            } else if c == '<' {
                r.append("&lt;");
            } else if c == '>' {
                r.append("&gt;");
            } else if c == '"' {
                r.append("&quot;");
            } else if c == '\'' {
                r.append("&apos;");
            } else {
                r.push(c);
                proof {
                    assert(r@ =~= before + seq![c]);
                }
            }
            proof {
                assert(before + spec_xml_escape_char(s@[i as int]) + spec_xml_escape_from(
                    s@,
                    i + 1,
                ) =~= before + (spec_xml_escape_char(s@[i as int]) + spec_xml_escape_from(
                    s@,
                    i + 1,
                )));
            }
            i = i + 1;
        }
        proof {
            assert(r@ =~= r@ + spec_xml_escape_from(s@, n as int));
        }
        r
    }
}

} // verus!
