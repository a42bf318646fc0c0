//! What the status bar and the confirmation dialog say.

use vstd::prelude::*;
use vstd::utf8::{decode_utf8, encode_utf8, encode_utf8_decode_utf8, is_char_boundary};
use crate::text::{append, decimal, owned, push_decimal, push_signed, signed_decimal};
use super::app::{App, DispatchStatus};

verus! {

/// The colouring of the status bar.
#[derive(Debug, Clone, Copy, PartialEq, Eq, Structural)]
pub enum StatusTone {
    /// No dispatch yet, or the last one was cancelled.
    Idle,
    /// A dispatch is in flight.
    Running,
    /// The last dispatch exited with 0.
    Succeeded,
    /// The last dispatch exited with another code.
    Failed,
    /// The last submitted command was denied.
    Denied,
}

/// The status bar's text and tone.
#[derive(Debug, Clone, PartialEq, Eq)]
pub struct StatusBar {
    pub text: String,
    pub tone: StatusTone,
}

/// `s` itself when its UTF-8 encoding has at most `limit` bytes, else the
/// characters of its first `keep` bytes followed by `…`.
pub open spec fn shortened(s: Seq<char>, limit: nat, keep: nat) -> Seq<char> {
    if encode_utf8(s).len() > limit {
        decode_utf8(encode_utf8(s).take(keep as int)).push('…')
    } else {
        s
    }
}

/// Whether `s` can be shortened to fit `limit` bytes by keeping its first
/// `keep` bytes: it fits already, or `keep` falls on a character boundary.
pub open spec fn cuttable(s: Seq<char>, limit: nat, keep: nat) -> bool {
    encode_utf8(s).len() > limit ==> is_char_boundary(encode_utf8(s), keep as int)
}

/// `s` shortened to fit: see [`shortened`]. Lengths are counted in bytes,
/// and the cut must fall on a character boundary.
pub fn shorten(s: &str, limit: usize, keep: usize) -> (r: String)
    requires
        cuttable(s@, limit as nat, keep as nat),
    ensures
        r@ == shortened(s@, limit as nat, keep as nat),
{
    let bytes = s.as_bytes().len();
    if bytes > limit {
        let (head, _) = s.split_at(keep);
        proof {
            assert(encode_utf8(head@) =~= encode_utf8(s@).take(keep as int));
            encode_utf8_decode_utf8(head@);
        }
        let mut r = owned(head);
        append(&mut r, "…");
        proof {
            reveal_strlit("…");
        }
        r
    } else {
        owned(s)
    }
}

/// The status bar text for `status`, with the safety mode `mode`, the
/// phase and the version: `" Phase <phase> | v<version> | Safety: <mode>"`,
/// followed by the running marker or the exit code and duration; a denial
/// shows `" DENIED: "` and its reason, shortened to 40 bytes.
pub open spec fn status_text(status: DispatchStatus, mode: Seq<char>, phase: Seq<char>, version: Seq<char>) -> Seq<char> {
    let base = " Phase "@ + phase + " | v"@ + version + " | Safety: "@ + mode;
    match status {
        DispatchStatus::Idle => base,
        DispatchStatus::Running => base + " | ⏳ Running…"@,
        DispatchStatus::Done { exit_code, duration_ms } => base + " | exit="@ + signed_decimal(
            exit_code as int,
        ) + " ("@ + decimal(duration_ms as nat) + "ms)"@,
        DispatchStatus::Denied { reason } => " DENIED: "@ + shortened(reason@, 40, 40),
    }
}

/// The tone of the status bar for `status`.
pub open spec fn status_tone(status: DispatchStatus) -> StatusTone {
    match status {
        DispatchStatus::Idle => StatusTone::Idle,
        DispatchStatus::Running => StatusTone::Running,
        DispatchStatus::Done { exit_code, .. } => if exit_code == 0 {
            StatusTone::Succeeded
        } else {
            StatusTone::Failed
        },
        DispatchStatus::Denied { .. } => StatusTone::Denied,
    }
}

/// A denial reason longer than 40 bytes is cut at byte 40, which must be a
/// character boundary.
pub open spec fn status_cuttable(status: DispatchStatus) -> bool {
    status matches DispatchStatus::Denied { reason } ==> cuttable(reason@, 40, 40)
}

/// The status bar of `app`.
pub fn status_bar(app: &App, phase: &str, version: &str) -> (b: StatusBar)
    requires
        status_cuttable(app.dispatch_status),
    ensures
        b.text@ == status_text(app.dispatch_status, app.safety_mode@, phase@, version@),
        b.tone == status_tone(app.dispatch_status),
{
    let mut base = owned(" Phase ");
    append(&mut base, phase);
    append(&mut base, " | v");
    append(&mut base, version);
    append(&mut base, " | Safety: ");
    append(&mut base, app.safety_mode.as_str());
    match &app.dispatch_status {
        DispatchStatus::Idle => StatusBar { text: base, tone: StatusTone::Idle },
        DispatchStatus::Running => {
            append(&mut base, " | ⏳ Running…");
            StatusBar { text: base, tone: StatusTone::Running }
        },
        DispatchStatus::Done { exit_code, duration_ms } => {
            append(&mut base, " | exit=");
            push_signed(&mut base, *exit_code);
            append(&mut base, " (");
            push_decimal(&mut base, *duration_ms);
            append(&mut base, "ms)");
            let tone = if *exit_code == 0 {
                StatusTone::Succeeded
            } else {
                StatusTone::Failed
            };
            StatusBar { text: base, tone }
        },
        DispatchStatus::Denied { reason } => {
            let mut text = owned(" DENIED: ");
            let short = shorten(reason.as_str(), 40, 40);
            append(&mut text, short.as_str());
            StatusBar { text, tone: StatusTone::Denied }
        },
    }
}

/// The command line of the confirmation dialog for a popup `width` cells
/// wide: two spaces, then the command shortened to fit (`width - 6` bytes,
/// cut at `width - 7`, each at least 0).
pub fn confirm_line(command: &str, width: u16) -> (s: String)
    requires
        cuttable(
            command@,
            if width >= 6 { (width - 6) as nat } else { 0 },
            if width >= 7 { (width - 7) as nat } else { 0 },
        ),
    ensures
        s@ == "  "@ + shortened(
            command@,
            if width >= 6 { (width - 6) as nat } else { 0 },
            if width >= 7 { (width - 7) as nat } else { 0 },
        ),
{
    let limit: usize = if width >= 6 { (width - 6) as usize } else { 0 };
    let keep: usize = if width >= 7 { (width - 7) as usize } else { 0 };
    let mut s = owned("  ");
    let short = shorten(command, limit, keep);
    append(&mut s, short.as_str());
    s
}

/// A cell rectangle: its left column, top row, width and height.
#[derive(Debug, Clone, Copy, PartialEq, Eq)]
pub struct CellRect {
    pub x: u16,
    pub y: u16,
    pub width: u16,
    pub height: u16,
}

/// The height of the confirmation dialog in rows.
pub const CONFIRM_HEIGHT: u16 = 5;

/// The confirmation dialog inside `area` for a dialog `popup_width` cells
/// wide and [`CONFIRM_HEIGHT`] rows high: centred in the area (the free space
/// halved, rounded down), no larger than the area in either direction, and
/// so lying within it.
pub fn confirm_popup(area: CellRect, popup_width: u16) -> (r: CellRect)
    requires
        area.x + area.width <= u16::MAX,
        area.y + area.height <= u16::MAX,
    ensures
        r.x == area.x + (if area.width >= popup_width { area.width - popup_width } else { 0 }) / 2,
        r.y == area.y + (if area.height >= CONFIRM_HEIGHT { area.height - CONFIRM_HEIGHT } else { 0 }) / 2,
        r.width == (if popup_width <= area.width { popup_width } else { area.width }),
        r.height == (if CONFIRM_HEIGHT <= area.height { CONFIRM_HEIGHT } else { area.height }),
        area.x <= r.x && r.x + r.width <= area.x + area.width,
        area.y <= r.y && r.y + r.height <= area.y + area.height,
{
    let free_w: u16 = if area.width >= popup_width { area.width - popup_width } else { 0 };
    let free_h: u16 = if area.height >= CONFIRM_HEIGHT { area.height - CONFIRM_HEIGHT } else { 0 };
    CellRect {
        x: area.x + free_w / 2,
        y: area.y + free_h / 2,
        width: if popup_width <= area.width { popup_width } else { area.width },
        height: if CONFIRM_HEIGHT <= area.height { CONFIRM_HEIGHT } else { area.height },
    }
}

} // verus!
