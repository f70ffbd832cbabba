//! What the progress display is set up with, what it shows after each
//! chunk, and what it says at the end.

use vstd::prelude::*;

verus! {

/// The largest position a transfer can show: the advertised total, or, where
/// the server advertised none, the largest count the display can hold.
pub open spec fn limit_of(total: Option<u64>) -> nat {
    match total {
        Some(t) => t as nat,
        None => u64::MAX as nat,
    }
}

/// The position after `len` more bytes: the sum, clamped to the limit.
pub open spec fn advance(total: Option<u64>, position: nat, len: nat) -> nat {
    if position + len <= limit_of(total) {
        position + len
    } else {
        limit_of(total)
    }
}

/// Computes the position to show after a chunk of `len` bytes.
pub fn next_position(total: Option<u64>, position: u64, len: usize) -> (next: u64)
    ensures
        next as nat == advance(total, position as nat, len as nat),
{
    let limit: u64 = match total {
        Some(t) => t,
        None => u64::MAX,
    };
    let room: u64 = if position <= limit {
        limit - position
    } else {
        0
    };
    if len as u64 >= room {
        limit
    } else {
        position + len as u64
    }
}

/// The display's layout where the total is known: the label on a line of
/// its own; then a spinner, the elapsed time, the bar, the bytes transferred
/// over the total, the rate and the estimated time remaining.
pub open spec fn bar_template() -> Seq<char> {
    "{msg}\n{spinner:.green} [{elapsed_precise}] [{wide_bar:.cyan/blue}] {bytes}/{total_bytes} ({bytes_per_sec}, {eta})"@
}

/// The display's layout where the total is unknown: what `bar_template`
/// shows, without the bar, the total and the estimate, none of which can be
/// computed.
pub open spec fn counter_template() -> Seq<char> {
    "{msg}\n{spinner:.green} [{elapsed_precise}] {bytes} ({bytes_per_sec})"@
}

/// The characters the bar is drawn with: filled, current, remaining.
pub open spec fn bar_chars() -> Seq<char> {
    "#>-"@
}

/// What a display is created with, as plain values.
#[derive(Debug, Clone, PartialEq, Eq)]
pub struct BarSetup {
    /// The total to count up to; `None` where the server advertised none.
    pub length: Option<u64>,
    /// The layout, in the display's template language.
    pub template: String,
    /// The characters the bar is drawn with.
    pub progress_chars: String,
    /// The label shown above the bar.
    pub message: String,
}

/// A `BarSetup` with each string as the sequence of its characters.
pub struct BarSetupView {
    pub length: Option<u64>,
    pub template: Seq<char>,
    pub progress_chars: Seq<char>,
    pub message: Seq<char>,
}

impl View for BarSetup {
    type V = BarSetupView;

    open spec fn view(&self) -> BarSetupView {
        BarSetupView {
            length: self.length,
            template: self.template@,
            progress_chars: self.progress_chars@,
            message: self.message@,
        }
    }
}

/// The setup of the display for a transfer of `len` bytes labelled `name`.
pub open spec fn bar_setup_of(len: Option<u64>, name: Seq<char>) -> BarSetupView {
    BarSetupView {
        length: len,
        template: if len is Some {
            bar_template()
        } else {
            counter_template()
        },
        progress_chars: bar_chars(),
        message: "  "@ + name,
    }
}

/// The line that ends a transfer that succeeded.
pub open spec fn completion_message_of(url: Seq<char>, path: Seq<char>) -> Seq<char> {
    "Downloaded "@ + url + " to "@ + path
}

/// Prepares the progress display for a transfer of `len` bytes labelled
/// `name`: the label is indented by two spaces, and the layout depends on
/// whether the total is known.
///
/// A server need not advertise a total. The transfer then goes on, and the
/// display counts bytes without a bar or an estimate.
pub fn prepare_progress_bar(len: Option<u64>, name: &str) -> (setup: BarSetup)
    ensures
        setup@ == bar_setup_of(len, name@),
{
    let template = match len {
        Some(_) => "{msg}\n{spinner:.green} [{elapsed_precise}] [{wide_bar:.cyan/blue}] {bytes}/{total_bytes} ({bytes_per_sec}, {eta})".to_owned(),
        None => "{msg}\n{spinner:.green} [{elapsed_precise}] {bytes} ({bytes_per_sec})".to_owned(),
    };
    let mut message = "  ".to_owned();
    message.append(name);
    BarSetup { length: len, template, progress_chars: "#>-".to_owned(), message }
}

/// Makes the line that ends a transfer that succeeded: it names the source
/// and the destination.
pub fn completion_message(url: &str, path: &str) -> (message: String)
    ensures
        message@ == completion_message_of(url@, path@),
{
    let mut message = "Downloaded ".to_owned();
    message.append(url);
    message.append(" to ");
    message.append(path);
    message
}

} // verus!
