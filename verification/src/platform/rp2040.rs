//! The Pico DVI build's platform state: the DVI display list, the wall
//! clock kept by counting delays, and the millisecond tick counter.

use vstd::prelude::*;
use crate::platform::dvi_gfx::DviGfx;
use crate::storage::embedded::{card_path, resolve_logical_path};
use crate::time_util::WallTime;
use crate::timing::{TickCounter, saturating};
use crate::text::string_of;

verus! {

/// Seconds after midnight that the wall clock starts from (07:00:00) until a
/// real-time clock sets it.
pub const BOOT_WALL_SECONDS: u32 = 25200;

/// The Pico DVI platform.
pub struct PicoDviPlatform {
    pub gfx: DviGfx,
    /// Whether the boot splash still owns the screen.
    pub boot_frame: bool,
    /// Seconds since midnight, as counted by the delays.
    pub wall_seconds: u32,
    pub ticks: TickCounter,
}

/// The seconds a delay of `ms` milliseconds adds to the wall clock: whole
/// seconds, at least one, taken modulo 2^32.
pub open spec fn delay_seconds(ms: u64) -> u32 {
    (if ms / 1000 >= 1 { ms / 1000 } else { 1 }) as u32
}

impl PicoDviPlatform {
    /// A platform at boot: black background, splash on screen, 07:00:00.
    pub fn new() -> (p: Self)
        ensures
            p.gfx.bg == 0,
            p.boot_frame,
            p.wall_seconds == BOOT_WALL_SECONDS,
            p.ticks.millis() == 0,
    {
        PicoDviPlatform {
            gfx: DviGfx::new(),
            boot_frame: true,
            wall_seconds: BOOT_WALL_SECONDS,
            ticks: TickCounter::new(),
        }
    }

    /// The boot splash is done; frames show the clock from now on.
    pub fn finish_boot(&mut self)
        ensures
            !final(self).boot_frame,
            final(self).wall_seconds == old(self).wall_seconds,
            final(self).gfx == old(self).gfx,
    {
        self.boot_frame = false;
    }

    /// The wall-clock time of day.
    pub fn get_current_time(&self) -> (t: WallTime)
        ensures
            t.hour == (self.wall_seconds / 3600) % 24,
            t.minute == (self.wall_seconds / 60) % 60,
            t.second == self.wall_seconds % 60,
    {
        WallTime::from_seconds(self.wall_seconds)
    }

    /// Accounts for a delay of `ms` milliseconds: the wall clock moves on
    /// by its whole seconds (at least one, stopping at the largest count)
    /// and the tick counter by `ms`.
    pub fn delay_ms(&mut self, ms: u64)
        ensures
            final(self).wall_seconds == (if old(self).wall_seconds + delay_seconds(ms) > u32::MAX {
                u32::MAX
            } else {
                (old(self).wall_seconds + delay_seconds(ms)) as u32
            }),
            final(self).ticks.millis() == saturating(old(self).ticks.millis() + ms),
            final(self).boot_frame == old(self).boot_frame,
            final(self).gfx == old(self).gfx,
    {
        let secs = ms / 1000;
        let add = (if secs >= 1 {
            secs
        } else {
            1
        }) as u32;
        self.wall_seconds = self.wall_seconds.saturating_add(add);
        self.ticks.advance_ms(ms);
    }

    /// The time the next frame shows, or `None` while the boot splash owns
    /// the screen.
    pub fn frame_time(&self) -> (t: Option<WallTime>)
        ensures
            self.boot_frame ==> t is None,
            !self.boot_frame ==> t == Some(WallTime {
                hour: (self.wall_seconds / 3600) % 24,
                minute: (self.wall_seconds / 60) % 60,
                second: self.wall_seconds % 60,
            }),
    {
        if self.boot_frame {
            return None;
        }
        Some(self.get_current_time())
    }

    /// Fills a rectangle (its colour becomes the background).
    pub fn draw_rect(&mut self, x: i32, y: i32, w: i32, h: i32, color: u32)
        ensures
            final(self).gfx.bg == color,
            final(self).boot_frame == old(self).boot_frame,
            final(self).wall_seconds == old(self).wall_seconds,
    {
        self.gfx.fill_rect(x, y, w, h, color);
    }

    /// Clears the screen to black.
    pub fn clear(&mut self)
        ensures
            final(self).gfx.bg == 0,
            final(self).boot_frame == old(self).boot_frame,
            final(self).wall_seconds == old(self).wall_seconds,
    {
        self.gfx.clear(0x000000);
    }

    /// Where a logical path lives on the SD card.
    pub fn card_path(&self, path: &str) -> (r: String)
        ensures
            r@ == card_path(path@),
    {
        resolve_logical_path(path)
    }

    /// This platform is not the Linux build.
    pub fn is_linux(&self) -> (r: bool)
        ensures
            !r,
    {
        false
    }

    /// This platform is not a Tock build.
    pub fn is_tock(&self) -> (r: bool)
        ensures
            !r,
    {
        false
    }

    /// The weather this platform reports while it has no network: 68 and
    /// sunny.
    pub fn fetch_weather(&self) -> (r: Result<(i32, String), String>)
        ensures
            r matches Ok((t, c)) && t == 68 && c@ == "Sunny"@,
    {
        Ok((68, string_of("Sunny")))
    }
}


/// The busy-wait cycle count for `ms` milliseconds at 252 MHz, saturating,
/// as the 32-bit delay routine takes it (the low 32 bits).
pub fn delay_cycles(ms: u64) -> (r: u32)
    ensures
        r == (if ms * 252_000 > u64::MAX { u64::MAX } else { (ms * 252_000) as u64 }) as u32,
{
    let cycles: u64 = match ms.checked_mul(252_000) {
        Some(c) => c,
        None => u64::MAX,
    };
    cycles as u32
}

} // verus!
