use crate::classify::Label;
use crate::partition::{sink_enabled, sink_enabled_spec};
use vstd::prelude::*;
use vstd::string::*;

verus! {

/// The settings of one run, as given on the command line.
#[derive(Clone, Debug)]
pub struct Cli {
    input: String,
    bed: String,
    on_target: Option<String>,
    off_target: Option<String>,
    start_no_end: Option<String>,
    end_no_start: Option<String>,
    on_target_only: bool,
    tolerance: u32,
}

/// The settings as plain values.
pub ghost struct CliModel {
    pub input: Seq<char>,
    pub bed: Seq<char>,
    pub on_target: Option<Seq<char>>,
    pub off_target: Option<Seq<char>>,
    pub start_no_end: Option<Seq<char>>,
    pub end_no_start: Option<Seq<char>>,
    pub on_target_only: bool,
    pub tolerance: u32,
}

/// The text of an optional path.
pub open spec fn text_of(path: Option<String>) -> Option<Seq<char>> {
    match path {
        Some(p) => Some(p@),
        None => None,
    }
}

/// The text of an optional borrowed path.
pub open spec fn text_of_str(path: Option<&str>) -> Option<Seq<char>> {
    match path {
        Some(p) => Some(p@),
        None => None,
    }
}

fn as_text(path: &Option<String>) -> (out: Option<&str>)
    ensures
        text_of_str(out) == text_of(*path),
{
    match path {
        Some(p) => Some(p.as_str()),
        None => None,
    }
}

/// The word that stands for a label in a default output path.
pub open spec fn label_name(label: Label) -> Seq<char> {
    match label {
        Label::OnTarget => "on-target"@,
        Label::OffTarget => "off-target"@,
        Label::StartOnly => "start-no-end"@,
        Label::EndOnly => "end-no-start"@,
    }
}

/// Whether a path ends in `.bam`.
pub open spec fn has_bam_suffix(path: Seq<char>) -> bool {
    path.len() >= 4 && path.subrange(path.len() - 4, path.len() as int) == ".bam"@
}

/// A path without its `.bam` suffix, if it has one.
pub open spec fn stem_of(path: Seq<char>) -> Seq<char> {
    if has_bam_suffix(path) {
        path.subrange(0, path.len() - 4)
    } else {
        path
    }
}

/// The path of a sink for which none was given: the input's stem, a dot,
/// the label's word, and `.bam`.
pub open spec fn default_path(input: Seq<char>, label: Label) -> Seq<char> {
    stem_of(input) + "."@ + label_name(label) + ".bam"@
}

/// The path that was given for a label's sink, if any.
pub open spec fn explicit_path(cli: CliModel, label: Label) -> Option<Seq<char>> {
    match label {
        Label::OnTarget => cli.on_target,
        Label::OffTarget => cli.off_target,
        Label::StartOnly => cli.start_no_end,
        Label::EndOnly => cli.end_no_start,
    }
}

/// Where the reads of a label are written: nowhere when the sink is
/// switched off, else to the given path, else to the default one.
pub open spec fn output_path_spec(cli: CliModel, label: Label) -> Option<Seq<char>> {
    if !sink_enabled_spec(label, cli.on_target_only) {
        None
    } else {
        match explicit_path(cli, label) {
            Some(path) => Some(path),
            None => Some(default_path(cli.input, label)),
        }
    }
}

/// Takes the `.bam` suffix off a path that has one.
pub fn strip_bam(path: &str) -> (stem: &str)
    ensures
        stem@ == stem_of(path@),
{
    let n = path.unicode_len();
    proof {
        reveal_strlit(".bam");
    }
    if n < 4 {
        return path;
    }
    let ghost tail = path@.subrange(n - 4, n as int);
    if path.get_char(n - 4) == '.' && path.get_char(n - 3) == 'b' && path.get_char(n - 2) == 'a'
        && path.get_char(n - 1) == 'm' {
        assert(tail =~= ".bam"@);
        path.substring_char(0, n - 4)
    } else {
        assert(tail[0] == path@[n - 4] && tail[1] == path@[n - 3] && tail[2] == path@[n - 2]
            && tail[3] == path@[n - 1]);
        path
    }
}

/// The word that stands for a label in a default output path.
pub fn label_word(label: Label) -> (word: &'static str)
    ensures
        word@ == label_name(label),
{
    match label {
        Label::OnTarget => "on-target",
        Label::OffTarget => "off-target",
        Label::StartOnly => "start-no-end",
        Label::EndOnly => "end-no-start",
    }
}

/// The default path of a label's sink for a given input path.
pub fn default_output_path(input: &str, label: Label) -> (path: String)
    ensures
        path@ == default_path(input@, label),
{
    let mut path = String::from_str(strip_bam(input));
    path.append(".");
    path.append(label_word(label));
    path.append(".bam");
    path
}

impl View for Cli {
    type V = CliModel;

    closed spec fn view(&self) -> CliModel {
        CliModel {
            input: self.input@,
            bed: self.bed@,
            on_target: text_of(self.on_target),
            off_target: text_of(self.off_target),
            start_no_end: text_of(self.start_no_end),
            end_no_start: text_of(self.end_no_start),
            on_target_only: self.on_target_only,
            tolerance: self.tolerance,
        }
    }
}

impl Cli {
    pub fn new(
        input: String,
        bed: String,
        on_target: Option<String>,
        off_target: Option<String>,
        start_no_end: Option<String>,
        end_no_start: Option<String>,
        on_target_only: bool,
        tolerance: u32,
    ) -> (cli: Cli)
        ensures
            cli@ == (CliModel {
                input: input@,
                bed: bed@,
                on_target: text_of(on_target),
                off_target: text_of(off_target),
                start_no_end: text_of(start_no_end),
                end_no_start: text_of(end_no_start),
                on_target_only,
                tolerance,
            }),
    {
        Cli { input, bed, on_target, off_target, start_no_end, end_no_start, on_target_only, tolerance }
    }

    /// The path of the alignment file to read.
    pub fn input(&self) -> (path: &str)
        ensures
            path@ == self@.input,
    {
        self.input.as_str()
    }

    /// The path of the interval list.
    pub fn bed(&self) -> (path: &str)
        ensures
            path@ == self@.bed,
    {
        self.bed.as_str()
    }

    /// The path for on-target reads, where one was given.
    pub fn on_target(&self) -> (path: Option<&str>)
        ensures
            text_of_str(path) == self@.on_target,
    {
        as_text(&self.on_target)
    }

    /// The path for off-target reads, where one was given.
    pub fn off_target(&self) -> (path: Option<&str>)
        ensures
            text_of_str(path) == self@.off_target,
    {
        as_text(&self.off_target)
    }

    /// How far a read's end may lie from a region's end and still match.
    pub fn tolerance(&self) -> (t: u32)
        ensures
            t == self@.tolerance,
    {
        self.tolerance
    }

    /// The path for reads that only start on target, where one was given.
    pub fn start_no_end(&self) -> (path: Option<&str>)
        ensures
            text_of_str(path) == self@.start_no_end,
    {
        as_text(&self.start_no_end)
    }

    /// The path for reads that only end on target, where one was given.
    pub fn end_no_start(&self) -> (path: Option<&str>)
        ensures
            text_of_str(path) == self@.end_no_start,
    {
        as_text(&self.end_no_start)
    }

    /// Where the reads of a label are written, or `None` when its sink is
    /// switched off.
    pub fn output_path(&self, label: Label) -> (path: Option<String>)
        ensures
            text_of(path) == output_path_spec(self@, label),
    {
        if !sink_enabled(label, self.on_target_only) {
            return None;
        }
        let explicit = match label {
            Label::OnTarget => as_text(&self.on_target),
            Label::OffTarget => as_text(&self.off_target),
            Label::StartOnly => as_text(&self.start_no_end),
            Label::EndOnly => as_text(&self.end_no_start),
        };
        match explicit {
            Some(given) => Some(String::from_str(given)),
            None => Some(default_output_path(self.input.as_str(), label)),
        }
    }

    /// Whether only the on-target sink is written.
    pub fn on_target_only(&self) -> (only: bool)
        ensures
            only == self@.on_target_only,
    {
        self.on_target_only
    }
}

} // verus!
