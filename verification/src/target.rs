//! The target model: one identified unit of capture work, its classification,
//! and the normalized outcome of one capture attempt.

use vstd::prelude::*;
use vstd::string::StrSliceExecFns;
use vstd::string::StringExecFns;

use crate::text::clean_spec;
use crate::text::has_prefix;
use crate::text::is_digit;
use crate::text::is_special;
use crate::text::trim_spec;
use crate::text::char_is_digit;
use crate::text::char_is_special;
use crate::text::str_has_prefix;
use crate::text::trimmed;

verus! {

/// A run of one to three decimal digits filling `s[a..b)`.
pub open spec fn digit_run(s: Seq<char>, a: int, b: int) -> bool {
    1 <= b - a <= 3 && forall|m: int| a <= m < b ==> is_digit(#[trigger] s[m])
}

/// The dots at `i < j < k` split `s` into four runs of one to three
/// digits: the dotted-quad shape.
pub open spec fn ip_split(s: Seq<char>, i: int, j: int, k: int) -> bool {
    &&& 0 <= i < j < k < s.len()
    &&& s[i] == '.'
    &&& s[j] == '.'
    &&& s[k] == '.'
    &&& digit_run(s, 0, i)
    &&& digit_run(s, i + 1, j)
    &&& digit_run(s, j + 1, k)
    &&& digit_run(s, k + 1, s.len() as int)
}

/// `s` has the dotted-quad shape: four runs of one to three digits joined
/// by single dots.
pub open spec fn is_ip_text(s: Seq<char>) -> bool {
    exists|i: int, j: int, k: int| ip_split(s, i, j, k)
}

/// `s` is a dotted quad, a colon, and at least one digit of port.
pub open spec fn is_ip_port_text(s: Seq<char>) -> bool {
    exists|p: int|
        {
            &&& 0 <= p < s.len()
            &&& #[trigger] s[p] == ':'
            &&& is_ip_text(s.take(p))
            &&& p + 1 < s.len()
            &&& forall|m: int| p < m < s.len() ==> is_digit(#[trigger] s[m])
        }
}

/// In a dotted quad, every position that is not one of the three dots
/// holds a digit.
proof fn lemma_split_nondot_is_digit(s: Seq<char>, i: int, j: int, k: int, t: int)
    requires
        ip_split(s, i, j, k),
        0 <= t < s.len(),
        t != i,
        t != j,
        t != k,
    ensures
        is_digit(s[t]),
{
    if t < i {
        assert(is_digit(s[t]));
    } else if t < j {
        assert(is_digit(s[t]));
    } else if t < k {
        assert(is_digit(s[t]));
    } else {
        assert(is_digit(s[t]));
    }
}

/// Every character of a dotted quad is a digit or a dot.
proof fn lemma_ip_text_chars(s: Seq<char>, t: int)
    requires
        is_ip_text(s),
        0 <= t < s.len(),
    ensures
        is_digit(s[t]) || s[t] == '.',
{
    let (i, j, k) = choose|i: int, j: int, k: int| ip_split(s, i, j, k);
    if t != i && t != j && t != k {
        lemma_split_nondot_is_digit(s, i, j, k, t);
    }
}

/// Whether `s` has the dotted-quad shape, decided in one left-to-right
/// scan that tracks the positions of the first three dots.
pub fn is_ip_str(s: &str) -> (r: bool)
    ensures
        r == is_ip_text(s@),
{
    let len = s.unicode_len();
    let mut dot_count: usize = 0;
    let mut d1: usize = 0;
    let mut d2: usize = 0;
    let mut d3: usize = 0;
    let mut m: usize = 0;
    while m < len
        invariant
            0 <= m <= len,
            len == s@.len(),
            dot_count <= 3,
            dot_count >= 1 ==> d1 < m && s@[d1 as int] == '.',
            dot_count >= 2 ==> d1 < d2 < m && s@[d2 as int] == '.',
            dot_count >= 3 ==> d2 < d3 < m && s@[d3 as int] == '.',
            forall|t: int|
                0 <= t < m && !(dot_count >= 1 && t == d1) && !(dot_count >= 2 && t == d2) && !(
                dot_count >= 3 && t == d3) ==> is_digit(#[trigger] s@[t]),
        decreases len - m,
    {
        let c = s.get_char(m);
        if c == '.' {
            if dot_count == 0 {
                d1 = m;
            } else if dot_count == 1 {
                d2 = m;
            } else if dot_count == 2 {
                d3 = m;
            } else {
                proof {
                    assert(!is_digit('.'));
                    assert forall|i: int, j: int, k: int| !ip_split(s@, i, j, k) by {
                        if ip_split(s@, i, j, k) {
                            if d1 != i && d1 != j && d1 != k {
                                lemma_split_nondot_is_digit(s@, i, j, k, d1 as int);
                            }
                            if d2 != i && d2 != j && d2 != k {
                                lemma_split_nondot_is_digit(s@, i, j, k, d2 as int);
                            }
                            if d3 != i && d3 != j && d3 != k {
                                lemma_split_nondot_is_digit(s@, i, j, k, d3 as int);
                            }
                            if m != i && m != j && m != k {
                                lemma_split_nondot_is_digit(s@, i, j, k, m as int);
                            }
                        }
                    }
                }
                return false;
            }
            dot_count = dot_count + 1;
        } else if !char_is_digit(c) {
            proof {
                assert forall|i: int, j: int, k: int| !ip_split(s@, i, j, k) by {
                    if ip_split(s@, i, j, k) {
                        if m != i && m != j && m != k {
                            lemma_split_nondot_is_digit(s@, i, j, k, m as int);
                        }
                    }
                }
            }
            return false;
        }
        m = m + 1;
    }
    if dot_count != 3 {
        proof {
            assert(!is_digit('.'));
            assert forall|i: int, j: int, k: int| !ip_split(s@, i, j, k) by {
                if ip_split(s@, i, j, k) {
                    assert(s@[i] == '.');
                    assert(s@[j] == '.');
                    assert(s@[k] == '.');
                }
            }
        }
        return false;
    }
    let g1_ok = 1 <= d1 && d1 <= 3;
    let g2_ok = 2 <= d2 - d1 && d2 - d1 <= 4;
    let g3_ok = 2 <= d3 - d2 && d3 - d2 <= 4;
    let g4_ok = 2 <= len - d3 && len - d3 <= 4;
    proof {
        assert(!is_digit('.'));
    }
    if g1_ok && g2_ok && g3_ok && g4_ok {
        proof {
            assert(ip_split(s@, d1 as int, d2 as int, d3 as int));
        }
        true
    } else {
        proof {
            assert forall|i: int, j: int, k: int| !ip_split(s@, i, j, k) by {
                if ip_split(s@, i, j, k) {
                    assert(s@[i] == '.');
                    assert(s@[j] == '.');
                    assert(s@[k] == '.');
                    assert(i == d1 && j == d2 && k == d3);
                }
            }
        }
        false
    }
}

/// Whether `s` is a dotted quad, a colon, and at least one digit of port,
/// decided by locating the single possible colon.
pub fn is_ip_port_str(s: &str) -> (r: bool)
    ensures
        r == is_ip_port_text(s@),
{
    let len = s.unicode_len();
    let mut p: usize = 0;
    while p < len && s.get_char(p) != ':'
        invariant
            0 <= p <= len,
            len == s@.len(),
            forall|t: int| 0 <= t < p ==> #[trigger] s@[t] != ':',
        decreases len - p,
    {
        p = p + 1;
    }
    if p == len {
        proof {
            assert forall|q: int| !(0 <= q < s@.len() && #[trigger] s@[q] == ':') by {}
        }
        return false;
    }
    if p + 1 == len {
        proof {
            assert(!is_digit(':'));
            assert forall|q: int|
                !({
                    &&& 0 <= q < s@.len()
                    &&& #[trigger] s@[q] == ':'
                    &&& is_ip_text(s@.take(q))
                    &&& q + 1 < s@.len()
                    &&& forall|m: int| q < m < s@.len() ==> is_digit(#[trigger] s@[m])
                }) by {
                if 0 <= q < s@.len() && s@[q] == ':' && is_ip_text(s@.take(q)) {
                    if q < p {
                        assert(false);
                    } else if q > p {
                        assert(s@.take(q)[p as int] == ':');
                        lemma_ip_text_chars(s@.take(q), p as int);
                    }
                }
            }
        }
        return false;
    }
    let mut m: usize = p + 1;
    while m < len
        invariant
            p + 1 <= m <= len,
            p < len,
            len == s@.len(),
            s@[p as int] == ':',
            forall|t: int| 0 <= t < p ==> #[trigger] s@[t] != ':',
            forall|t: int| p < t < m ==> is_digit(#[trigger] s@[t]),
        decreases len - m,
    {
        if !char_is_digit(s.get_char(m)) {
            proof {
                assert(!is_digit(':'));
                let ghost bad = m as int;
                assert forall|q: int|
                    !({
                        &&& 0 <= q < s@.len()
                        &&& #[trigger] s@[q] == ':'
                        &&& is_ip_text(s@.take(q))
                        &&& q + 1 < s@.len()
                        &&& forall|mm: int| q < mm < s@.len() ==> is_digit(#[trigger] s@[mm])
                    }) by {
                    if 0 <= q < s@.len() && s@[q] == ':' && is_ip_text(s@.take(q)) {
                        if q < p {
                            assert(false);
                        } else if q > p {
                            assert(s@.take(q)[p as int] == ':');
                            lemma_ip_text_chars(s@.take(q), p as int);
                        } else {
                            assert(!is_digit(s@[bad]));
                        }
                    }
                }
            }
            return false;
        }
        m = m + 1;
    }
    let head = s.substring_char(0, p);
    let head_is_ip = is_ip_str(head);
    proof {
        assert(head@ =~= s@.take(p as int));
        assert(!is_digit(':'));
    }
    if head_is_ip {
        proof {
            assert({
                &&& 0 <= p < s@.len()
                &&& s@[p as int] == ':'
                &&& is_ip_text(s@.take(p as int))
                &&& p + 1 < s@.len()
                &&& forall|mm: int| p < mm < s@.len() ==> is_digit(#[trigger] s@[mm])
            });
        }
        true
    } else {
        proof {
            assert forall|q: int|
                !({
                    &&& 0 <= q < s@.len()
                    &&& #[trigger] s@[q] == ':'
                    &&& is_ip_text(s@.take(q))
                    &&& q + 1 < s@.len()
                    &&& forall|mm: int| q < mm < s@.len() ==> is_digit(#[trigger] s@[mm])
                }) by {
                if 0 <= q < s@.len() && s@[q] == ':' && is_ip_text(s@.take(q)) {
                    if q < p {
                        assert(false);
                    } else if q > p {
                        assert(s@.take(q)[p as int] == ':');
                        lemma_ip_text_chars(s@.take(q), p as int);
                    }
                }
            }
        }
        false
    }
}

/// The syntactic shape of a target's input text.
#[derive(Debug, Clone, Copy, PartialEq, Eq, Structural)]
pub enum TargetType {
    Url,
    Domain,
    Ip,
    IpPort,
}

impl TargetType {
    /// The human-readable name of this shape.
    pub fn label(&self) -> (r: String)
        ensures
            *self is Url ==> r@ == "URL"@,
            *self is Domain ==> r@ == "域名"@,
            *self is Ip ==> r@ == "IP地址"@,
            *self is IpPort ==> r@ == "IP:端口"@,
    {
        match self {
            TargetType::Url => String::from_str("URL"),
            TargetType::Domain => String::from_str("域名"),
            TargetType::Ip => String::from_str("IP地址"),
            TargetType::IpPort => String::from_str("IP:端口"),
        }
    }
}

/// The shape of input text `s`: a URL when it carries an `http` or `https`
/// scheme; else a dotted quad with a port, a bare dotted quad, or, when
/// none of those fit, a domain name.
pub open spec fn type_of(s: Seq<char>) -> TargetType {
    if has_prefix(s, "http://"@) || has_prefix(s, "https://"@) {
        TargetType::Url
    } else if is_ip_port_text(s) {
        TargetType::IpPort
    } else if is_ip_text(s) {
        TargetType::Ip
    } else {
        TargetType::Domain
    }
}

/// The address that a line of input resolves to: the trimmed text itself when
/// it already carries an `http` or `https` scheme, otherwise the text behind
/// an `https://` prefix.
pub open spec fn url_spec(s: Seq<char>) -> Seq<char> {
    if has_prefix(s, "http://"@) || has_prefix(s, "https://"@) {
        s
    } else {
        "https://"@ + s
    }
}

/// One identified unit of capture work. Immutable once created.
#[derive(Debug)]
pub struct Target {
    /// The resolved address to capture.
    pub url: String,
    /// The trimmed input text the target was created from.
    pub original_text: String,
}

impl Clone for Target {
    /// An exact copy: both fields are kept as they are.
    fn clone(&self) -> (r: Target)
        ensures
            r == *self,
    {
        Target { url: self.url.clone(), original_text: self.original_text.clone() }
    }
}

impl Target {
    /// Builds a target from one line of input text. Whitespace around the
    /// line is dropped; a line that is blank after trimming yields no
    /// target; a line without an `http://` or `https://` scheme is given
    /// an `https://` prefix.
    pub fn new(text: String) -> (r: Option<Target>)
        ensures
            r is Some <==> trim_spec(text@).len() > 0,
            r matches Some(t) ==> t.original_text@ == trim_spec(text@) && t.url@ == url_spec(
                trim_spec(text@),
            ),
    {
        let t = trimmed(text.as_str());
        if t.is_empty() {
            return None;
        }
        let url = if !str_has_prefix(t, "http://") && !str_has_prefix(t, "https://") {
            let mut u = String::from_str("https://");
            u.append(t);
            u
        } else {
            String::from_str(t)
        };
        Some(Target { url, original_text: String::from_str(t) })
    }

    /// Classifies the target's input text by its shape, whitespace around
    /// it ignored.
    pub fn get_type(&self) -> (r: TargetType)
        ensures
            r == type_of(trim_spec(self.original_text@)),
    {
        let clean_text = trimmed(self.original_text.as_str());
        if str_has_prefix(clean_text, "http://") || str_has_prefix(clean_text, "https://") {
            TargetType::Url
        } else if is_ip_port_str(clean_text) {
            TargetType::IpPort
        } else if is_ip_str(clean_text) {
            TargetType::Ip
        } else {
            TargetType::Domain
        }
    }

    /// The target's text with every path-hostile character replaced by an
    /// underscore, fit for use as a file name.
    pub fn get_clean_filename(&self) -> (r: String)
        ensures
            r@ == clean_spec(self.original_text@),
    {
        let s = self.original_text.as_str();
        let len = s.unicode_len();
        let mut out = String::new();
        let mut i: usize = 0;
        proof {
            assert(s@.skip(0) =~= s@);
            assert(out@ + clean_spec(s@) =~= clean_spec(s@));
            reveal_strlit("_");
        }
        while i < len
            invariant
                0 <= i <= len,
                len == s@.len(),
                clean_spec(s@) == out@ + clean_spec(s@.skip(i as int)),
                "_"@ =~= seq!['_'],
            decreases len - i,
        {
            let ghost rest = s@.skip(i as int);
            let c = s.get_char(i);
            proof {
                assert(rest[0] == s@[i as int]);
            }
            if len - i >= 3 && c == ':' && s.get_char(i + 1) == '/' && s.get_char(i + 2) == '/' {
                proof {
                    assert(rest[1] == s@[i + 1]);
                    assert(rest[2] == s@[i + 2]);
                    assert(rest.skip(3) =~= s@.skip(i + 3));
                    assert(clean_spec(rest) == seq!['_'] + clean_spec(s@.skip(i + 3)));
                    assert(out@ + clean_spec(rest) =~= (out@ + "_"@) + clean_spec(s@.skip(i + 3)));
                }
                out.append("_");
                i = i + 3;
            } else if char_is_special(c) {
                proof {
                    assert(rest.skip(1) =~= s@.skip(i + 1));
                    assert(clean_spec(rest) == seq!['_'] + clean_spec(s@.skip(i + 1)));
                    assert(out@ + clean_spec(rest) =~= (out@ + "_"@) + clean_spec(s@.skip(i + 1)));
                }
                out.append("_");
                i = i + 1;
            } else {
                let piece = s.substring_char(i, i + 1);
                proof {
                    assert(piece@ =~= seq![s@[i as int]]);
                    assert(rest.skip(1) =~= s@.skip(i + 1));
                    assert(clean_spec(rest) == seq![rest[0]] + clean_spec(s@.skip(i + 1)));
                    assert(out@ + clean_spec(rest) =~= (out@ + piece@) + clean_spec(s@.skip(i + 1)));
                }
                out.append(piece);
                i = i + 1;
            }
        }
        proof {
            assert(s@.skip(len as int) =~= Seq::<char>::empty());
            assert(out@ + clean_spec(s@.skip(len as int)) =~= out@);
        }
        out
    }
}

/// The normalized outcome of one capture attempt for one target.
#[derive(Debug)]
pub struct ScreenshotResult {
    /// The target the attempt was made for.
    pub target: Target,
    /// Whether the capture produced an artifact.
    pub success: bool,
    /// Where the artifact was stored, on success.
    pub file_path: Option<String>,
    /// Why the capture failed, on failure.
    pub error_message: Option<String>,
}

impl ScreenshotResult {
    /// A successful outcome carrying the stored artifact's location.
    pub fn success(target: Target, file_path: String) -> (r: ScreenshotResult)
        ensures
            r.target == target,
            r.success == true,
            r.file_path == Some(file_path),
            r.error_message is None,
    {
        ScreenshotResult { target, success: true, file_path: Some(file_path), error_message: None }
    }

    /// A failed outcome carrying the reported reason.
    pub fn failure(target: Target, error_message: String) -> (r: ScreenshotResult)
        ensures
            r.target == target,
            r.success == false,
            r.file_path is None,
            r.error_message == Some(error_message),
    {
        ScreenshotResult {
            target,
            success: false,
            file_path: None,
            error_message: Some(error_message),
        }
    }
}

} // verus!
