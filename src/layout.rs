use vstd::prelude::*;
use crate::fit::{SCREEN_HEIGHT_PX, SCREEN_WIDTH_PX};

verus! {

/// Margin between text and the screen's edges, in pixels.
pub const MARGIN_PX: i64 = 12;

/// Height of the task bar along the bottom of the screen, in pixels.
pub const TASK_BAR_PX: i64 = 40;

/// How far the overlay caption is lifted above the centre, in pixels, to balance the header
/// bar above against the task bar below.
pub const CAPTION_LIFT_PX: i64 = 10;

/// Half of `n`, rounded towards zero.
pub open spec fn half_toward_zero(n: int) -> int {
    if n >= 0 {
        n / 2
    } else {
        -((-n) / 2)
    }
}

fn halve(n: i64) -> (r: i64)
    requires
        n > i64::MIN,
    ensures
        r == half_toward_zero(n as int),
{
    if n >= 0 {
        n / 2
    } else {
        -((-n) / 2)
    }
}

/// Where the picture's name goes for text of the given size: its bottom-right corner a margin
/// inside the bottom-right of the screen, above the task bar.
pub fn image_name_origin(text_width: i32, text_height: i32) -> (r: (i64, i64))
    ensures
        r.0 == SCREEN_WIDTH_PX - MARGIN_PX - text_width,
        r.1 == SCREEN_HEIGHT_PX - TASK_BAR_PX - MARGIN_PX - text_height,
{
    (1920 - 12 - text_width as i64, 1080 - 40 - 12 - text_height as i64)
}

/// Where the status caption goes: a margin inside the bottom-left of the screen, above the
/// task bar.
pub fn status_origin(text_height: i32) -> (r: (i64, i64))
    ensures
        r.0 == MARGIN_PX,
        r.1 == SCREEN_HEIGHT_PX - TASK_BAR_PX - MARGIN_PX - text_height,
{
    (12, 1080 - 40 - 12 - text_height as i64)
}

/// Where the countdown label goes: a margin above the status caption, on the left.
pub fn countdown_origin(status_height: i32, label_height: i32) -> (r: (i64, i64))
    ensures
        r.0 == MARGIN_PX,
        r.1 == SCREEN_HEIGHT_PX - TASK_BAR_PX - MARGIN_PX - status_height - MARGIN_PX - label_height,
{
    (12, 1080 - 40 - 12 - status_height as i64 - 12 - label_height as i64)
}

/// Where the overlay caption goes: centred, lifted by `CAPTION_LIFT_PX`.
pub fn overlay_text_origin(text_width: i32, text_height: i32) -> (r: (i64, i64))
    ensures
        r.0 == half_toward_zero(SCREEN_WIDTH_PX - text_width),
        r.1 == half_toward_zero(SCREEN_HEIGHT_PX - text_height) - CAPTION_LIFT_PX,
{
    (halve(1920 - text_width as i64), halve(1080 - text_height as i64) - 10)
}

} // verus!
