//! Lines for the console. The library only composes them; printing is the caller's part.

use vstd::prelude::*;
use vstd::string::*;

verus! {

/// Where a line goes.
#[derive(Debug, Clone, Copy, PartialEq, Eq, Structural)]
pub enum Channel {
    /// Standard output.
    Stdout,
    /// Standard error.
    Stderr,
}

/// One line for the console, without its final newline.
#[derive(Debug, PartialEq, Eq)]
pub struct Notice {
    pub channel: Channel,
    pub text: String,
}

/// A [`Notice`] as contracts see it.
pub struct NoticeView {
    pub channel: Channel,
    pub text: Seq<char>,
}

impl View for Notice {
    type V = NoticeView;

    open spec fn view(&self) -> NoticeView {
        NoticeView { channel: self.channel, text: self.text@ }
    }
}

/// The line `label` followed by `detail`, on `channel`.
pub open spec fn labelled(channel: Channel, label: Seq<char>, detail: Seq<char>) -> NoticeView {
    NoticeView { channel, text: label + detail }
}

impl Notice {
    /// Composes `label` followed by `detail` into a line for `channel`.
    pub fn labelled(channel: Channel, label: &str, detail: &str) -> (notice: Notice)
        ensures
            notice@ == labelled(channel, label@, detail@),
    {
        let mut text = String::from_str(label);
        text.append(detail);
        Notice { channel, text }
    }
}

} // verus!
