//! Progress of a firmware upgrade.

use vstd::prelude::*;

verus! {

/// Phase of an upgrade. The phases follow each other; a failure ends any of them.
#[derive(Debug, Clone, Copy, PartialEq, Eq, Structural)]
pub enum DfuPhase {
    EnteringDfu,
    Preparing,
    Transferring,
    Verifying,
    Rebooting,
    Completed,
    Failed,
}

impl DfuPhase {
    /// Tells whether the upgrade still runs.
    pub fn is_active(self) -> (r: bool)
        ensures
            r == (self != DfuPhase::Completed && self != DfuPhase::Failed),
    {
        match self {
            DfuPhase::Completed => false,
            DfuPhase::Failed => false,
            _ => true,
        }
    }
}

/// Result of trying to get a stuck board out of the upgrade mode.
#[derive(Debug, Clone, Copy, PartialEq, Eq, Structural)]
pub enum RecoveryOutcome {
    /// No board is in the upgrade mode.
    NotStuck,
    /// The board is back in normal mode.
    Recovered,
    /// The board did not come back in time; it has to be replugged.
    StillStuck,
}

/// One progress report.
#[derive(Debug, Clone, PartialEq, Eq)]
pub struct DfuProgress {
    pub phase: DfuPhase,
    pub bytes_written: u32,
    pub total_bytes: u32,
    /// 0 to 100.
    pub percent: u8,
    pub message: Option<String>,
}

/// Mathematical form of a progress report.
pub struct ProgressView {
    pub phase: DfuPhase,
    pub bytes_written: u32,
    pub total_bytes: u32,
    pub percent: u8,
    pub message: Option<Seq<char>>,
}

/// Mathematical form of an optional text.
pub open spec fn message_view(message: Option<String>) -> Option<Seq<char>> {
    match message {
        Some(m) => Some(m@),
        None => None,
    }
}

impl View for DfuProgress {
    type V = ProgressView;

    open spec fn view(&self) -> ProgressView {
        ProgressView {
            phase: self.phase,
            bytes_written: self.bytes_written,
            total_bytes: self.total_bytes,
            percent: self.percent,
            message: message_view(self.message),
        }
    }
}

/// Whole percent written, rounded down and at most 100; 0 of nothing is 0.
pub open spec fn percent_of(written: u32, total: u32) -> u8 {
    if total == 0 {
        0
    } else if written >= total {
        100
    } else {
        (written * 100 / total as int) as u8
    }
}

/// The report of a phase.
pub open spec fn progress_of(
    phase: DfuPhase,
    bytes_written: u32,
    total_bytes: u32,
    message: Option<Seq<char>>,
) -> ProgressView {
    ProgressView {
        phase,
        bytes_written,
        total_bytes,
        percent: percent_of(bytes_written, total_bytes),
        message,
    }
}

impl DfuProgress {
    /// Builds a report; the percentage follows from the byte counts.
    pub fn new(
        phase: DfuPhase,
        bytes_written: u32,
        total_bytes: u32,
        message: Option<String>,
    ) -> (r: Self)
        ensures
            r@ == progress_of(phase, bytes_written, total_bytes, message_view(message)),
            r.percent <= 100,
    {
        let percent: u8 = if total_bytes == 0 {
            0
        } else {
            let whole: u64 = bytes_written as u64 * 100 / total_bytes as u64;
            proof {
                if bytes_written >= total_bytes {
                    assert(bytes_written * 100 / (total_bytes as int) >= 100) by (nonlinear_arith)
                        requires
                            bytes_written >= total_bytes,
                            total_bytes > 0,
                    ;
                } else {
                    assert(bytes_written * 100 / (total_bytes as int) < 100) by (nonlinear_arith)
                        requires
                            bytes_written < total_bytes,
                            total_bytes > 0,
                    ;
                }
            }
            if whole < 100 {
                whole as u8
            } else {
                100
            }
        };
        DfuProgress { phase, bytes_written, total_bytes, percent, message }
    }
}

/// The percentage is the whole percents of the total that were written: 100 exactly from the whole
/// total on, 0 of nothing, and never more.
pub proof fn law_the_percentage_is_rounded_down(written: u32, total: u32)
    ensures
        total > 0 && written < total ==> percent_of(written, total) * total <= 100 * written < (
        percent_of(written, total) + 1) * total && percent_of(written, total) < 100,
        total > 0 && written >= total ==> percent_of(written, total) == 100,
        total == 0 ==> percent_of(written, total) == 0,
{
    if total > 0 && written < total {
        let q = written * 100 / total as int;
        vstd::arithmetic::div_mod::lemma_fundamental_div_mod(written * 100, total as int);
        assert(total * q == q * total) by (nonlinear_arith);
        assert((q + 1) * total == q * total + total) by (nonlinear_arith);
        assert(0 <= q < 100) by (nonlinear_arith)
            requires
                q * total <= written * 100,
                written * 100 < q * total + total,
                written < total,
                0 < total,
                0 <= written,
        ;
    }
}

/// A progress report tells the phase, the bytes and the message that it was made of, and their
/// share in percent.
pub proof fn law_a_progress_report_tells_what_it_was_made_of(
    phase: DfuPhase,
    written: u32,
    total: u32,
    message: Option<Seq<char>>,
)
    ensures
        ({
            let p = progress_of(phase, written, total, message);
            &&& p.phase == phase
            &&& p.bytes_written == written
            &&& p.total_bytes == total
            &&& p.message == message
            &&& p.percent == percent_of(written, total)
        }),
{
}

/// A message is seen by its text, and a missing one as missing.
pub proof fn law_a_message_is_its_text(message: String)
    ensures
        message_view(Some(message)) == Some(message@),
        message_view(None) is None,
{
}

} // verus!
