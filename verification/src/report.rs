//! The report of a rename run: what was transferred, skipped or failed, and
//! the texts shown to the user about it.
use vstd::prelude::*;
use crate::num::{dec_digits, push_dec};
use crate::text::{push_range, push_str};

verus! {

/// How video files reach the library folder.
#[derive(Debug, Copy, Clone, PartialEq, Eq, Structural)]
pub enum VideoTransferMode {
    HardLink,
    Copy,
}

/// The label of the count of transferred videos.
pub open spec fn success_label(m: VideoTransferMode) -> Seq<char> {
    match m {
        VideoTransferMode::HardLink => "视频硬链接成功"@,
        VideoTransferMode::Copy => "视频复制成功"@,
    }
}

/// The label of the count of videos that could not be transferred.
pub open spec fn failure_label(m: VideoTransferMode) -> Seq<char> {
    match m {
        VideoTransferMode::HardLink => "视频硬链接失败"@,
        VideoTransferMode::Copy => "视频复制失败"@,
    }
}

impl VideoTransferMode {
    /// The label of the count of transferred videos.
    pub fn success_label(self) -> (r: &'static str)
        ensures
            r@ == success_label(self),
    {
        match self {
            VideoTransferMode::HardLink => "视频硬链接成功",
            VideoTransferMode::Copy => "视频复制成功",
        }
    }

    /// The label of the count of videos that could not be transferred.
    pub fn failure_label(self) -> (r: &'static str)
        ensures
            r@ == failure_label(self),
    {
        match self {
            VideoTransferMode::HardLink => "视频硬链接失败",
            VideoTransferMode::Copy => "视频复制失败",
        }
    }
}

/// What a rename run did.
pub struct FileOperationReport {
    pub successful_links: usize,
    pub failed_links: usize,
    pub skipped_files: usize,
    pub subtitle_copied: usize,
    pub subtitle_failed: usize,
    pub subtitle_skipped: usize,
    pub details: Vec<String>,
    pub cancelled: bool,
    pub cancel_message: Option<String>,
    pub transfer_mode: VideoTransferMode,
}

/// The abstract value of a [`FileOperationReport`].
pub struct ReportView {
    pub successful_links: usize,
    pub failed_links: usize,
    pub skipped_files: usize,
    pub subtitle_copied: usize,
    pub subtitle_failed: usize,
    pub subtitle_skipped: usize,
    pub details: Seq<Seq<char>>,
    pub cancelled: bool,
    pub cancel_message: Option<Seq<char>>,
    pub transfer_mode: VideoTransferMode,
}

impl View for FileOperationReport {
    type V = ReportView;

    open spec fn view(&self) -> ReportView {
        ReportView {
            successful_links: self.successful_links,
            failed_links: self.failed_links,
            skipped_files: self.skipped_files,
            subtitle_copied: self.subtitle_copied,
            subtitle_failed: self.subtitle_failed,
            subtitle_skipped: self.subtitle_skipped,
            details: self.details@.map_values(|s: String| s@),
            cancelled: self.cancelled,
            cancel_message: self.cancel_message.deep_view(),
            transfer_mode: self.transfer_mode,
        }
    }
}

/// The pieces joined with `sep` between them.
pub open spec fn join_seqs(list: Seq<Seq<char>>, sep: Seq<char>) -> Seq<char>
    decreases list.len(),
{
    if list.len() == 0 {
        Seq::empty()
    } else if list.len() == 1 {
        list[0]
    } else {
        join_seqs(list.drop_last(), sep) + sep + list.last()
    }
}

/// "label n".
pub open spec fn count_part(label: Seq<char>, n: usize) -> Seq<char> {
    label + seq![' '] + dec_digits(n as nat)
}

/// The counts a summary lists: the two video counts always, the others when not zero.
pub open spec fn summary_parts(r: ReportView) -> Seq<Seq<char>> {
    seq![
        count_part(success_label(r.transfer_mode), r.successful_links),
        count_part(failure_label(r.transfer_mode), r.failed_links),
    ] + (if r.skipped_files > 0 {
        seq![count_part("跳过"@, r.skipped_files)]
    } else {
        Seq::empty()
    }) + (if r.subtitle_copied > 0 {
        seq![count_part("字幕复制"@, r.subtitle_copied)]
    } else {
        Seq::empty()
    }) + (if r.subtitle_failed > 0 {
        seq![count_part("字幕失败"@, r.subtitle_failed)]
    } else {
        Seq::empty()
    }) + (if r.subtitle_skipped > 0 {
        seq![count_part("字幕跳过"@, r.subtitle_skipped)]
    } else {
        Seq::empty()
    })
}

/// The one-line summary of a report.
pub open spec fn summary_text(r: ReportView) -> Seq<char> {
    if r.cancelled {
        match r.cancel_message {
            Some(m) => m,
            None => "已取消"@,
        }
    } else {
        "完成: "@ + join_seqs(summary_parts(r), "，"@)
    }
}

/// The most detail lines a message shows.
pub open spec fn max_detail_lines() -> nat {
    12
}

/// The detail lines shown: the first twelve, and a line counting the rest.
pub open spec fn shown_details(details: Seq<Seq<char>>) -> Seq<Seq<char>> {
    if details.len() > 12 {
        details.take(12) + seq!["... 其余 "@ + dec_digits((details.len() - 12) as nat) + " 条省略"@]
    } else {
        details
    }
}

/// The message with the summary and the details, when there are details.
pub open spec fn detail_text(r: ReportView) -> Option<Seq<char>> {
    if r.details.len() == 0 {
        None
    } else {
        Some(summary_text(r) + "\n\n"@ + join_seqs(shown_details(r.details), "\n"@))
    }
}

/// The pieces of a list joined with `sep` between them.
pub fn join_strings(list: &[String], sep: &str) -> (r: String)
    ensures
        r@ == join_seqs(list@.map_values(|s: String| s@), sep@),
{
    let ghost views = list@.map_values(|s: String| s@);
    let mut out = String::new();
    let mut i: usize = 0;
    while i < list.len()
        invariant
            i <= list@.len(),
            views == list@.map_values(|s: String| s@),
            out@ == join_seqs(views.take(i as int), sep@),
        decreases list@.len() - i,
    {
        if i > 0 {
            push_str(&mut out, sep);
        }
        push_str(&mut out, list[i].as_str());
        assert(views.take(i + 1).drop_last() =~= views.take(i as int));
        i = i + 1;
        proof {
            if i == 1 {
                assert(views.take(0) =~= Seq::<Seq<char>>::empty());
                assert(out@ =~= views.take(1)[0]);
            }
        }
    }
    assert(views.take(list@.len() as int) =~= views);
    out
}

/// "label n" as a string.
fn count_text(label: &str, n: usize) -> (r: String)
    ensures
        r@ == count_part(label@, n),
{
    let mut out = label.to_owned();
    out.push(' ');
    let mut digits: Vec<char> = Vec::new();
    push_dec(&mut digits, n as u64);
    push_range(&mut out, &digits, 0, digits.len());
    assert(digits@.subrange(0, digits@.len() as int) =~= digits@);
    out
}

/// The report of a hard-link run in which nothing has happened yet.
pub open spec fn empty_report() -> ReportView {
    ReportView {
        successful_links: 0,
        failed_links: 0,
        skipped_files: 0,
        subtitle_copied: 0,
        subtitle_failed: 0,
        subtitle_skipped: 0,
        details: Seq::empty(),
        cancelled: false,
        cancel_message: None,
        transfer_mode: VideoTransferMode::HardLink,
    }
}

impl FileOperationReport {
    /// An empty report of a hard-link run.
    pub fn new() -> (r: Self)
        ensures
            r@ == empty_report(),
    {
        let r = FileOperationReport {
            successful_links: 0,
            failed_links: 0,
            skipped_files: 0,
            subtitle_copied: 0,
            subtitle_failed: 0,
            subtitle_skipped: 0,
            details: Vec::new(),
            cancelled: false,
            cancel_message: None,
            transfer_mode: VideoTransferMode::HardLink,
        };
        assert(r@.details =~= Seq::<Seq<char>>::empty());
        r
    }

    /// Nothing was cancelled, failed or skipped.
    pub fn is_clean_success(&self) -> (r: bool)
        ensures
            r == (!self.cancelled && self.failed_links == 0 && self.skipped_files == 0
                && self.subtitle_failed == 0 && self.subtitle_skipped == 0),
    {
        !self.cancelled && self.failed_links == 0 && self.skipped_files == 0 && self.subtitle_failed
            == 0 && self.subtitle_skipped == 0
    }

    /// The one-line summary of the run.
    pub fn summary(&self) -> (r: String)
        ensures
            r@ == summary_text(self@),
    {
        if self.cancelled {
            return match &self.cancel_message {
                Some(m) => m.clone(),
                None => "已取消".to_owned(),
            };
        }
        let mut parts: Vec<String> = Vec::new();
        parts.push(count_text(self.transfer_mode.success_label(), self.successful_links));
        parts.push(count_text(self.transfer_mode.failure_label(), self.failed_links));
        if self.skipped_files > 0 {
            parts.push(count_text("跳过", self.skipped_files));
        }
        if self.subtitle_copied > 0 {
            parts.push(count_text("字幕复制", self.subtitle_copied));
        }
        if self.subtitle_failed > 0 {
            parts.push(count_text("字幕失败", self.subtitle_failed));
        }
        if self.subtitle_skipped > 0 {
            parts.push(count_text("字幕跳过", self.subtitle_skipped));
        }
        assert(parts@.map_values(|s: String| s@) =~= summary_parts(self@));
        let mut out = "完成: ".to_owned();
        let joined = join_strings(parts.as_slice(), "，");
        push_str(&mut out, joined.as_str());
        out
    }

    /// The summary followed by up to twelve detail lines, when there are details.
    pub fn detail_message(&self) -> (r: Option<String>)
        ensures
            r.deep_view() == detail_text(self@),
    {
        if self.details.len() == 0 {
            return None;
        }
        let n = self.details.len();
        let mut lines: Vec<String> = Vec::new();
        let mut i: usize = 0;
        while i < n && i < 12
            invariant
                i <= n == self.details@.len(),
                i <= 12,
                lines@.len() == i,
                forall|j: int| 0 <= j < i ==> #[trigger] lines@[j]@ == self.details@[j]@,
            decreases 12 - i,
        {
            lines.push(self.details[i].clone());
            i = i + 1;
        }
        if n > 12 {
            let mut extra = "... 其余 ".to_owned();
            let mut digits: Vec<char> = Vec::new();
            push_dec(&mut digits, (n - 12) as u64);
            push_range(&mut extra, &digits, 0, digits.len());
            assert(digits@.subrange(0, digits@.len() as int) =~= digits@);
            push_str(&mut extra, " 条省略");
            lines.push(extra);
        }
        assert(lines@.map_values(|s: String| s@) =~= shown_details(self@.details));
        let mut out = self.summary();
        push_str(&mut out, "\n\n");
        let joined = join_strings(lines.as_slice(), "\n");
        push_str(&mut out, joined.as_str());
        Some(out)
    }
}

} // verus!
