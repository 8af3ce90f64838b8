//! The records that the scanner prints and the build tool's output carries:
//! JSON between two delimiters, one record to a line.
//!
//! JSON is written and read by `serde_json` and the delimiters are found by
//! `regex`; what they return is named, not restated.

use vstd::prelude::*;
use vstd::string::StringExecFns;
use crate::check_info::{CheckInfo, UsedRufs};
use crate::text::{join3, views};

verus! {

/// The first capture group of each match that `regex::Regex::captures_iter`
/// finds for the pattern in the text, in order; a group that took no part in
/// its match is `None`. `None` where `regex::Regex::new` refuses the pattern.
pub uninterp spec fn regex_captures(pattern: Seq<char>, text: Seq<char>) -> Option<
    Seq<Option<Seq<char>>>,
>;

/// The JSON text that `serde_json::to_string` writes for a string.
pub uninterp spec fn json_of_text(s: Seq<char>) -> Seq<char>;

/// The JSON text that `serde_json::to_string` writes for a list of strings.
pub uninterp spec fn json_of_list(v: Seq<Seq<char>>) -> Seq<char>;

/// The string that `serde_json::from_str` reads from a JSON text; `None`
/// where the text is not one JSON string.
pub uninterp spec fn text_of_json(json: Seq<char>) -> Option<Seq<char>>;

/// The list of strings that `serde_json::from_str` reads from a JSON text;
/// `None` where the text is not one JSON array of strings.
pub uninterp spec fn list_of_json(json: Seq<char>) -> Option<Seq<Seq<char>>>;

/// The JSON text of the member `key` of the JSON value that a text holds, as
/// `serde_json::Value::get` finds it and `Value::to_string` writes it; `None`
/// where the text is not JSON or the value has no such member.
pub uninterp spec fn member_of_json(json: Seq<char>, key: Seq<char>) -> Option<Seq<char>>;

/// The text that `str::escape_default` turns a string into.
pub uninterp spec fn escaped_default(s: Seq<char>) -> Seq<char>;

/// The views of a list of optional strings.
pub open spec fn option_views(v: Seq<Option<String>>) -> Seq<Option<Seq<char>>> {
    Seq::new(
        v.len(),
        |i: int|
            match v[i] {
                Some(s) => Some(s@),
                None => None,
            },
    )
}

/// Compiles the pattern with `regex::Regex::new` and collects the first
/// capture group of every match of `captures_iter`.
#[verifier::external_body]
fn capture_all(pattern: &str, text: &str) -> (r: Option<Vec<Option<String>>>)
    ensures
        match r {
            Some(groups) => regex_captures(pattern@, text@) == Some(option_views(groups@)),
            None => regex_captures(pattern@, text@) is None,
        },
{
    let re = regex::Regex::new(pattern).ok()?;
    Some(re.captures_iter(text).map(|c| c.get(1).map(|m| m.as_str().to_string())).collect())
}

/// Writes a string as JSON with `serde_json::to_string`, which cannot fail
/// for a string.
#[verifier::external_body]
fn write_json_text(s: &str) -> (r: String)
    ensures
        r@ == json_of_text(s@),
{
    serde_json::to_string(s).unwrap()
}

/// Writes a list of strings as JSON with `serde_json::to_string`, which
/// cannot fail for such a list.
#[verifier::external_body]
fn write_json_list(v: &[String]) -> (r: String)
    ensures
        r@ == json_of_list(views(v@)),
{
    serde_json::to_string(v).unwrap()
}

/// Reads one JSON string with `serde_json::from_str`.
#[verifier::external_body]
fn read_json_text(json: &str) -> (r: Option<String>)
    ensures
        match r {
            Some(s) => text_of_json(json@) == Some(s@),
            None => text_of_json(json@) is None,
        },
{
    serde_json::from_str::<String>(json).ok()
}

/// Reads one JSON array of strings with `serde_json::from_str`.
#[verifier::external_body]
fn read_json_list(json: &str) -> (r: Option<Vec<String>>)
    ensures
        match r {
            Some(v) => list_of_json(json@) == Some(views(v@)),
            None => list_of_json(json@) is None,
        },
{
    serde_json::from_str::<Vec<String>>(json).ok()
}

/// Reads a JSON value with `serde_json::from_str`, looks a member up with
/// `Value::get` and writes it back with `Value::to_string`.
#[verifier::external_body]
fn read_json_member(json: &str, key: &str) -> (r: Option<String>)
    ensures
        match r {
            Some(s) => member_of_json(json@, key@) == Some(s@),
            None => member_of_json(json@, key@) is None,
        },
{
    serde_json::from_str::<serde_json::Value>(json).ok()?.get(key).map(|v| v.to_string())
}

/// Escapes a string with `str::escape_default`.
#[verifier::external_body]
pub(crate) fn escape_default(s: &str) -> (r: String)
    ensures
        r@ == escaped_default(s@),
{
    s.escape_default().to_string()
}

/// The first capture group of the first match of a pattern in a text.
/// `None` where the pattern is refused, nothing matches, or the group took
/// no part in the match.
pub open spec fn first_payload(pattern: Seq<char>, text: Seq<char>) -> Option<Seq<char>> {
    match regex_captures(pattern, text) {
        None => None,
        Some(groups) => if groups.len() == 0 {
            None
        } else {
            groups[0]
        },
    }
}

/// Finds the first capture group of the first match of a pattern in a text.
pub fn find_first(pattern: &str, text: &str) -> (r: Option<String>)
    ensures
        match r {
            Some(p) => first_payload(pattern@, text@) == Some(p@),
            None => first_payload(pattern@, text@) is None,
        },
{
    let groups = match capture_all(pattern, text) {
        Some(g) => g,
        None => {
            return None;
        },
    };
    if groups.len() == 0 {
        return None;
    }
    assert(option_views(groups@)[0] == match groups[0] {
        Some(s) => Some(s@),
        None => None,
    });
    match &groups[0] {
        Some(s) => Some(s.clone()),
        None => None,
    }
}

/// The pattern that finds the records of a crate scan.
pub open spec fn check_info_pattern() -> Seq<char> {
    "CDelimiter::\\{(.*?)\\}::CDelimiter"@
}

/// The pattern that finds a list of used features.
pub open spec fn used_rufs_pattern() -> Seq<char> {
    "FDelimiter::\\{(.*?)\\}::FDelimiter"@
}

/// The payloads found between delimiters in a text, in order; `None` where
/// the pattern is refused or a match carries no payload.
pub open spec fn payloads(pattern: Seq<char>, text: Seq<char>) -> Option<Seq<Seq<char>>> {
    match regex_captures(pattern, text) {
        None => None,
        Some(groups) => if forall|i: int| 0 <= i < groups.len() ==> groups[i] is Some {
            Some(Seq::new(groups.len(), |i: int| groups[i]->0))
        } else {
            None
        },
    }
}

/// Finds the payloads between delimiters in a text.
pub fn find_payloads(pattern: &str, text: &str) -> (r: Option<Vec<String>>)
    ensures
        match r {
            Some(p) => payloads(pattern@, text@) == Some(views(p@)),
            None => payloads(pattern@, text@) is None,
        },
{
    let groups = match capture_all(pattern, text) {
        Some(g) => g,
        None => {
            return None;
        },
    };
    let ghost gv = option_views(groups@);
    let mut out: Vec<String> = Vec::new();
    let mut i: usize = 0;
    while i < groups.len()
        invariant
            i <= groups.len(),
            gv == option_views(groups@),
            regex_captures(pattern@, text@) == Some(gv),
            out.len() == i,
            forall|j: int| 0 <= j < i ==> gv[j] == Some(out[j]@),
        decreases groups.len() - i,
    {
        match &groups[i] {
            Some(s) => {
                assert(gv[i as int] == Some(s@));
                out.push(s.clone());
            },
            None => {
                assert(gv[i as int] is None);
                return None;
            },
        }
        i += 1;
    }
    assert(views(out@) =~= Seq::new(gv.len(), |i: int| gv[i]->0));
    Some(out)
}

/// A record of a crate scan as plain text.
pub struct CheckInfoView {
    pub crate_name: Seq<char>,
    pub used_rufs: Seq<Seq<char>>,
    pub cfg: Seq<Seq<char>>,
}

impl View for CheckInfo {
    type V = CheckInfoView;

    open spec fn view(&self) -> CheckInfoView {
        CheckInfoView {
            crate_name: self.crate_name@,
            used_rufs: self.used_rufs@,
            cfg: views(self.cfg@),
        }
    }
}

/// The JSON object of a record: its three members in the order name,
/// features, cfg predicates.
pub open spec fn check_info_json(info: CheckInfoView) -> Seq<char> {
    "{\"crate_name\":"@ + json_of_text(info.crate_name) + ",\"used_rufs\":"@ + json_of_list(
        info.used_rufs,
    ) + ",\"cfg\":"@ + json_of_list(info.cfg) + "}"@
}

/// The record that a JSON text holds: the three members, each of its type.
pub open spec fn check_info_of_json(json: Seq<char>) -> Option<CheckInfoView> {
    match member_of_json(json, "crate_name"@) {
        None => None,
        Some(name_json) => match text_of_json(name_json) {
            None => None,
            Some(crate_name) => match member_of_json(json, "used_rufs"@) {
                None => None,
                Some(rufs_json) => match list_of_json(rufs_json) {
                    None => None,
                    Some(used_rufs) => match member_of_json(json, "cfg"@) {
                        None => None,
                        Some(cfg_json) => match list_of_json(cfg_json) {
                            None => None,
                            Some(cfg) => Some(CheckInfoView { crate_name, used_rufs, cfg }),
                        },
                    },
                },
            },
        },
    }
}

/// A payload between the delimiters of a record, on a line of its own.
pub open spec fn check_info_line(payload: Seq<char>) -> Seq<char> {
    "\nCDelimiter::{"@ + payload + "}::CDelimiter\n"@
}

/// A payload between the delimiters of a feature list, on a line of its own.
pub open spec fn used_rufs_line(payload: Seq<char>) -> Seq<char> {
    "\nFDelimiter::{"@ + payload + "}::FDelimiter\n"@
}

impl CheckInfo {
    /// The record as a JSON object.
    pub fn to_json(&self) -> (r: String)
        ensures
            r@ == check_info_json(self@),
    {
        let name = write_json_text(self.crate_name.as_str());
        let rufs = write_json_list(self.used_rufs.as_slice());
        let cfg = write_json_list(self.cfg.as_slice());
        String::from_str("{\"crate_name\":").concat(name.as_str()).concat(",\"used_rufs\":").concat(
            rufs.as_str(),
        ).concat(",\"cfg\":").concat(cfg.as_str()).concat("}")
    }

    /// Reads a record from a JSON object; `None` where a member is missing
    /// or not of its type.
    pub fn from_json(json: &str) -> (r: Option<CheckInfo>)
        ensures
            match r {
                Some(info) => check_info_of_json(json@) == Some(info@),
                None => check_info_of_json(json@) is None,
            },
    {
        let name_json = match read_json_member(json, "crate_name") {
            Some(t) => t,
            None => {
                return None;
            },
        };
        let crate_name = match read_json_text(name_json.as_str()) {
            Some(t) => t,
            None => {
                return None;
            },
        };
        let rufs_json = match read_json_member(json, "used_rufs") {
            Some(t) => t,
            None => {
                return None;
            },
        };
        let rufs = match read_json_list(rufs_json.as_str()) {
            Some(t) => t,
            None => {
                return None;
            },
        };
        let cfg_json = match read_json_member(json, "cfg") {
            Some(t) => t,
            None => {
                return None;
            },
        };
        let cfg = match read_json_list(cfg_json.as_str()) {
            Some(t) => t,
            None => {
                return None;
            },
        };
        Some(CheckInfo { crate_name, used_rufs: UsedRufs::new(rufs), cfg })
    }

    /// The line that a scan prints for the record.
    pub fn to_line(&self) -> (r: String)
        ensures
            r@ == check_info_line(check_info_json(self@)),
    {
        join3("\nCDelimiter::{", self.to_json().as_str(), "}::CDelimiter\n")
    }
}

impl UsedRufs {
    /// The list as a JSON array of strings.
    pub fn to_json(&self) -> (r: String)
        ensures
            r@ == json_of_list(self@),
    {
        write_json_list(self.as_slice())
    }

    /// Reads a list from a JSON array of strings.
    pub fn from_json(json: &str) -> (r: Option<UsedRufs>)
        ensures
            match r {
                Some(rufs) => list_of_json(json@) == Some(rufs@),
                None => list_of_json(json@) is None,
            },
    {
        match read_json_list(json) {
            Some(v) => Some(UsedRufs::new(v)),
            None => None,
        }
    }

    /// The line that a scan prints for the list.
    pub fn to_line(&self) -> (r: String)
        ensures
            r@ == used_rufs_line(json_of_list(self@)),
    {
        join3("\nFDelimiter::{", self.to_json().as_str(), "}::FDelimiter\n")
    }
}

/// Reads a JSON string.
pub(crate) fn unquote_json(json: &str) -> (r: Option<String>)
    ensures
        match r {
            Some(s) => text_of_json(json@) == Some(s@),
            None => text_of_json(json@) is None,
        },
{
    read_json_text(json)
}

} // verus!
