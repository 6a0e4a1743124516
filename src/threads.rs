//! The events that probing workers send to the two consumers, and the
//! consumers' decisions: the progress reporter and the result appender.
use vstd::prelude::*;
use crate::elements::opt_view;

verus! {

/// An event for the progress reporter.
pub enum ProgressBarMessage {
    /// One more host was probed.
    Increment,
    /// A line to show without moving the count.
    Message(String),
    /// Stop now, whatever the count.
    Close,
}

/// An event for the result appender.
pub enum AppendMessage {
    /// A line to append to the results file at once.
    Amendment(String),
    /// Stop appending.
    Close,
}

/// Status shown when the reporter is closed before the count is complete.
pub open spec fn stopped_early_status() -> Seq<char> {
    "prematurely done scanning"@
}

/// Status shown when every host has been counted.
pub open spec fn complete_status() -> Seq<char> {
    "finished sending requests"@
}

/// What the progress display does in answer to one event.
pub struct ProgressStep {
    /// Move the indicator forward by one.
    pub advance: bool,
    /// A line to print above the indicator.
    pub print: Option<String>,
    /// Finish the indicator with this status.
    pub finish: Option<String>,
    /// Stop reading events.
    pub stop: bool,
}

/// The progress reporter: a running count of probed hosts against a known total.
pub struct ProgressTracker {
    pub total: u64,
    pub position: u64,
    pub finished: bool,
}

impl ProgressTracker {
    /// While running, the count stays below the total, but at the very start.
    pub open spec fn wf(&self) -> bool {
        !self.finished ==> (self.position < self.total || self.position == 0)
    }

    /// A reporter that expects `total` hosts.
    pub fn new(total: u64) -> (r: ProgressTracker)
        ensures
            r.wf(),
            r.total == total,
            r.position == 0,
            !r.finished,
    {
        ProgressTracker { total, position: 0, finished: false }
    }

    /// Consumes one event; `None` stands for a channel with no sender left.
    /// An increment or a message that leaves the count at the total or above
    /// finishes with the complete status; a close finishes at once with the
    /// stopped-early status; a closed channel stops without a status.
    pub fn handle(&mut self, event: Option<ProgressBarMessage>) -> (r: ProgressStep)
        requires
            old(self).wf(),
        ensures
            final(self).wf(),
            final(self).total == old(self).total,
            r.stop == final(self).finished,
            old(self).finished ==> *final(self) == *old(self) && !r.advance && r.print is None
                && r.finish is None && r.stop,
            !old(self).finished ==> match event {
                None => final(self).position == old(self).position && final(self).finished
                    && !r.advance && r.print is None && r.finish is None,
                Some(ProgressBarMessage::Close) => final(self).position == old(self).position
                    && final(self).finished && !r.advance && r.print is None && (r.finish matches Some(s)
                    && s@ == stopped_early_status()),
                Some(ProgressBarMessage::Increment) => final(self).position == old(self).position
                    + 1 && r.advance && r.print is None && final(self).finished == (
                old(self).total <= final(self).position) && (final(self).finished ==> (
                r.finish matches Some(s) && s@ == complete_status())) && (!final(self).finished
                    ==> r.finish is None),
                Some(ProgressBarMessage::Message(m)) => final(self).position == old(self).position
                    && !r.advance && (r.print matches Some(p) && p@ == m@) && final(self).finished
                    == (old(self).total <= old(self).position) && (final(self).finished ==> (
                r.finish matches Some(s) && s@ == complete_status())) && (!final(self).finished
                    ==> r.finish is None),
            },
    {
        if self.finished {
            return ProgressStep { advance: false, print: None, finish: None, stop: true };
        }
        let mut step = ProgressStep { advance: false, print: None, finish: None, stop: false };
        match event {
            None => {
                self.finished = true;
                step.stop = true;
                return step;
            },
            Some(ProgressBarMessage::Close) => {
                self.finished = true;
                step.finish = Some(String::from_str("prematurely done scanning"));
                step.stop = true;
                return step;
            },
            Some(ProgressBarMessage::Increment) => {
                self.position = self.position + 1;
                step.advance = true;
            },
            Some(ProgressBarMessage::Message(m)) => {
                step.print = Some(m);
            },
        }
        if self.total <= self.position {
            self.finished = true;
            step.finish = Some(String::from_str("finished sending requests"));
            step.stop = true;
        }
        step
    }
}

/// The line that an event asks to append, if it is an amendment.
pub open spec fn amendment_text(event: Option<AppendMessage>) -> Option<Seq<char>> {
    match event {
        Some(AppendMessage::Amendment(a)) => Some(a@),
        _ => None,
    }
}

/// The result appender: it writes each amendment as it comes, until it is
/// closed or no sender is left.
pub struct ResultAppender {
    /// Still reading events.
    pub draining: bool,
}

impl ResultAppender {
    /// An appender that reads events.
    pub fn new() -> (r: ResultAppender)
        ensures
            r.draining,
    {
        ResultAppender { draining: true }
    }

    /// Consumes one event; `None` stands for a channel with no sender left.
    /// Returns the line to append now, or `None` once reading has stopped.
    pub fn handle(&mut self, event: Option<AppendMessage>) -> (r: Option<String>)
        ensures
            old(self).draining && amendment_text(event) is Some ==> opt_view(r) == amendment_text(
                event,
            ) && final(self).draining,
            !(old(self).draining && amendment_text(event) is Some) ==> r is None
                && !final(self).draining,
    {
        if !self.draining {
            return None;
        }
        match event {
            Some(AppendMessage::Amendment(a)) => Some(a),
            _ => {
                self.draining = false;
                None
            },
        }
    }
}

} // verus!
