//! Recognition of the label and input files through which the kernel's
//! hardware monitoring interface names and reports a sensor.

use vstd::prelude::*;

use crate::sensors::SensorConfig;
use crate::text::{trim, trimmed};

verus! {

/// Pattern of the path of a sensor's label file, whose `sensor` group is the
/// file prefix of the sensor (such as `fan5` for `.../fan5_label`).
pub const LABEL_REGEX: &'static str = r"\S+/(?<sensor>[\w\d]{2,})\_(?<label>label+)$";

/// Pattern of the name of a sensor's input file, whose `sensor` group is the
/// file prefix of the sensor (such as `fan5` for `fan5_input`).
pub const INPUT_REGEX: &'static str = r"^(?<sensor>[\w\d]{2,})\_(?<input>input+)$";

/// The text of the group named `sensor` in the first match of the regular
/// expression `pattern` in `text`, matched case-insensitively, with Unicode
/// classes, `^` and `$` anchored at the ends of the text; `None` where
/// `pattern` is not a valid expression, does not match, or its group takes
/// no part in the match.
pub uninterp spec fn sensor_capture(pattern: Seq<char>, text: Seq<char>) -> Option<Seq<char>>;

/// Runs `regex::RegexBuilder` with the options of [`sensor_capture`] on
/// `pattern`, then `Regex::captures` on `text`, and gives the text of the
/// group `sensor`. The contract claims that the result is
/// [`sensor_capture`] of the two arguments; what that is on given arguments
/// is left to the regex crate.
#[verifier::external_body]
fn capture_sensor(pattern: &str, text: &str) -> (r: Option<String>)
    ensures
        match r {
            Some(g) => sensor_capture(pattern@, text@) == Some(g@),
            None => sensor_capture(pattern@, text@) is None,
        },
{
    let re = regex::RegexBuilder::new(pattern)
        .case_insensitive(true)
        .multi_line(false)
        .unicode(true)
        .build()
        .ok()?;
    let caps = re.captures(text)?;
    caps.name("sensor").map(|m| m.as_str().to_string())
}

/// The file prefix of the sensor `config` that the label file at `path`,
/// holding `label`, shows: where the trimmed label is the sensor's name, the
/// `sensor` group of [`LABEL_REGEX`] in `path`; else none.
pub fn match_label(config: &SensorConfig, path: &str, label: &str) -> (r: Option<String>)
    ensures
        match r {
            Some(g) => trimmed(label@) == config.name@ && sensor_capture(LABEL_REGEX@, path@)
                == Some(g@),
            None => trimmed(label@) != config.name@ || sensor_capture(LABEL_REGEX@, path@) is None,
        },
{
    let name = trim(label);
    if name == config.name {
        capture_sensor(LABEL_REGEX, path)
    } else {
        None
    }
}

/// The replacement that turns the name of a sensor's input file into that
/// of its label file.
pub const LABEL_REPLACEMENT: &'static str = "${sensor}_label";

/// The text `text` with every non-overlapping match of the regular expression
/// `pattern`, matched with the options of [`sensor_capture`], replaced by
/// `replacement` with its group references expanded; `None` where `pattern`
/// is not a valid expression.
pub uninterp spec fn all_replaced(pattern: Seq<char>, text: Seq<char>, replacement: Seq<char>) -> Option<Seq<char>>;

/// Runs `regex::RegexBuilder` with the options of [`sensor_capture`] on
/// `pattern`, then `Regex::replace_all` on `text` with `replacement`. The
/// contract claims that the result is [`all_replaced`] of the three
/// arguments; what that is on given arguments is left to the regex crate.
#[verifier::external_body]
fn replace_all_matches(pattern: &str, text: &str, replacement: &str) -> (r: Option<String>)
    ensures
        match r {
            Some(s) => all_replaced(pattern@, text@, replacement@) == Some(s@),
            None => all_replaced(pattern@, text@, replacement@) is None,
        },
{
    let re = regex::RegexBuilder::new(pattern)
        .case_insensitive(true)
        .multi_line(false)
        .unicode(true)
        .build()
        .ok()?;
    Some(re.replace_all(text, replacement).into_owned())
}

/// The name of the label file that belongs to the input file `file`: where
/// [`INPUT_REGEX`] matches `file`, `file` with its matches replaced by
/// [`LABEL_REPLACEMENT`] (the `sensor` group followed by `_label`); none where
/// `file` is not an input file's name.
pub fn label_file_name(file: &str) -> (r: Option<String>)
    ensures
        match r {
            Some(l) => sensor_capture(INPUT_REGEX@, file@) is Some && all_replaced(
                INPUT_REGEX@,
                file@,
                LABEL_REPLACEMENT@,
            ) == Some(l@),
            None => sensor_capture(INPUT_REGEX@, file@) is None || all_replaced(
                INPUT_REGEX@,
                file@,
                LABEL_REPLACEMENT@,
            ) is None,
        },
{
    match capture_sensor(INPUT_REGEX, file) {
        Some(_) => replace_all_matches(INPUT_REGEX, file, LABEL_REPLACEMENT),
        None => None,
    }
}

} // verus!
