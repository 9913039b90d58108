//! Target-list parsing and the CSV record model. Reading the list file and
//! driving the CSV writer are the surrounding application's business; the
//! parsing of the lines and the exact content of each CSV row are decided
//! here.

use vstd::prelude::*;
use vstd::string::StringExecFns;

use crate::target::url_spec;
use crate::target::Target;
use crate::text::dec_spec;
use crate::text::decimal_string;
use crate::text::trim_spec;

verus! {

/// One row of the run's CSV log.
#[derive(Debug)]
pub struct ScreenshotRecord {
    /// When the attempt finished, as seconds since the Unix epoch.
    pub timestamp: u64,
    /// The target's input text.
    pub target: String,
    /// The label of the target's type.
    pub target_type: String,
    /// Whether the capture produced an artifact.
    pub success: bool,
    /// Why the capture failed, on failure.
    pub error_message: Option<String>,
    /// Where the artifact was stored, on success.
    pub screenshot_path: Option<String>,
}

impl Clone for ScreenshotRecord {
    /// An exact copy: every field is kept as it is.
    fn clone(&self) -> (r: ScreenshotRecord)
        ensures
            r == *self,
    {
        ScreenshotRecord {
            timestamp: self.timestamp,
            target: self.target.clone(),
            target_type: self.target_type.clone(),
            success: self.success,
            error_message: match &self.error_message {
                Some(e) => Some(e.clone()),
                None => None,
            },
            screenshot_path: match &self.screenshot_path {
                Some(p) => Some(p.clone()),
                None => None,
            },
        }
    }
}

impl ScreenshotRecord {
    /// The record's six CSV fields, in column order: timestamp in decimal,
    /// target text, type label, `true`/`false`, and the error message and
    /// artifact path with an absent value written as the empty string.
    pub fn csv_fields(&self) -> (r: Vec<String>)
        ensures
            r@.len() == 6,
            r@[0]@ == dec_spec(self.timestamp as nat),
            r@[1]@ == self.target@,
            r@[2]@ == self.target_type@,
            self.success ==> r@[3]@ == "true"@,
            !self.success ==> r@[3]@ == "false"@,
            r@[4]@ == (match self.error_message {
                Some(e) => e@,
                None => Seq::<char>::empty(),
            }),
            r@[5]@ == (match self.screenshot_path {
                Some(p) => p@,
                None => Seq::<char>::empty(),
            }),
    {
        let mut fields: Vec<String> = Vec::new();
        fields.push(decimal_string(self.timestamp));
        fields.push(self.target.clone());
        fields.push(self.target_type.clone());
        if self.success {
            fields.push(String::from_str("true"));
        } else {
            fields.push(String::from_str("false"));
        }
        match &self.error_message {
            Some(e) => fields.push(e.clone()),
            None => fields.push(String::new()),
        }
        match &self.screenshot_path {
            Some(p) => fields.push(p.clone()),
            None => fields.push(String::new()),
        }
        fields
    }
}

/// The targets that a sequence of input lines yields: one per line that is
/// not blank after trimming, each carrying its resolved address and its
/// trimmed text, in line order.
pub open spec fn parsed_targets(lines: Seq<Seq<char>>) -> Seq<(Seq<char>, Seq<char>)>
    decreases lines.len(),
{
    if lines.len() == 0 {
        Seq::empty()
    } else {
        let rest = parsed_targets(lines.drop_first());
        if trim_spec(lines[0]).len() > 0 {
            seq![(url_spec(trim_spec(lines[0])), trim_spec(lines[0]))] + rest
        } else {
            rest
        }
    }
}

/// The `(url, original_text)` views of a sequence of targets.
pub open spec fn target_views(ts: Seq<Target>) -> Seq<(Seq<char>, Seq<char>)> {
    ts.map_values(|t: Target| (t.url@, t.original_text@))
}

/// The character views of a sequence of lines.
pub open spec fn line_views(ls: Seq<String>) -> Seq<Seq<char>> {
    ls.map_values(|l: String| l@)
}

/// File-level operations around the target list and the CSV log. Only the
/// decisions live here; the file handles stay with the caller.
pub struct FileOperations;

impl FileOperations {
    /// Relies on `std::path::Path::exists` to ask the file system whether
    /// the path names anything; the answer depends on the file system's
    /// state, so nothing is claimed of it.
    #[verifier::external_body]
    pub fn file_exists(file_path: &str) -> bool {
        std::path::Path::new(file_path).exists()
    }

    /// Turns the lines of a target list into targets: blank lines are
    /// dropped, every other line yields one target, in line order.
    pub fn parse_targets(lines: Vec<String>) -> (r: Vec<Target>)
        ensures
            target_views(r@) == parsed_targets(line_views(lines@)),
    {
        let ghost lv = line_views(lines@);
        let n = lines.len();
        let mut targets: Vec<Target> = Vec::new();
        let mut i: usize = 0;
        proof {
            assert(lv.skip(0) =~= lv);
            assert(target_views(targets@) =~= Seq::<(Seq<char>, Seq<char>)>::empty());
        }
        while i < n
            invariant
                0 <= i <= n,
                n == lines@.len(),
                lv == line_views(lines@),
                lv.len() == n,
                parsed_targets(lv) == target_views(targets@) + parsed_targets(lv.skip(i as int)),
            decreases n - i,
        {
            let ghost rest = lv.skip(i as int);
            proof {
                assert(rest[0] == lv[i as int]);
                assert(lv[i as int] == lines@[i as int]@);
                assert(rest.drop_first() =~= lv.skip(i + 1));
            }
            let line = lines[i].clone();
            match Target::new(line) {
                Some(t) => {
                    let ghost tv_before = targets@;
                    let ghost pair = (t.url@, t.original_text@);
                    proof {
                        assert(parsed_targets(rest) == seq![
                            (url_spec(trim_spec(rest[0])), trim_spec(rest[0])),
                        ] + parsed_targets(lv.skip(i + 1)));
                        assert(pair == (url_spec(trim_spec(rest[0])), trim_spec(rest[0])));
                    }
                    targets.push(t);
                    proof {
                        assert(target_views(targets@) =~= target_views(tv_before) + seq![pair]);
                        assert(target_views(tv_before) + parsed_targets(rest) =~= target_views(
                            targets@,
                        ) + parsed_targets(lv.skip(i + 1)));
                    }
                },
                None => {
                    proof {
                        assert(parsed_targets(rest) == parsed_targets(lv.skip(i + 1)));
                    }
                },
            }
            i = i + 1;
        }
        proof {
            assert(lv.skip(n as int) =~= Seq::<Seq<char>>::empty());
            assert(target_views(targets@) + parsed_targets(lv.skip(n as int)) =~= target_views(
                targets@,
            ));
        }
        targets
    }

    /// The CSV log's header row, in column order.
    pub fn csv_header() -> (r: Vec<String>)
        ensures
            r@.len() == 6,
            r@[0]@ == "timestamp"@,
            r@[1]@ == "target"@,
            r@[2]@ == "target_type"@,
            r@[3]@ == "success"@,
            r@[4]@ == "error_message"@,
            r@[5]@ == "screenshot_path"@,
    {
        let mut fields: Vec<String> = Vec::new();
        fields.push(String::from_str("timestamp"));
        fields.push(String::from_str("target"));
        fields.push(String::from_str("target_type"));
        fields.push(String::from_str("success"));
        fields.push(String::from_str("error_message"));
        fields.push(String::from_str("screenshot_path"));
        fields
    }
}

} // verus!
