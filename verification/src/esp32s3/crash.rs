//! Crash record kept in RTC RAM so it survives the reset that follows a
//! panic or a watchdog bite, and can be read off the console afterwards.

use vstd::prelude::*;

verus! {

pub const MAGIC: u32 = 0x6775_6421;
pub const PANIC_BYTES: usize = 200;

#[derive(Clone, Copy)]
pub struct CrashRecord {
    pub magic: u32,
    pub boots: u32,
    /// Last boot stage reached.
    pub stage: u32,
    pub panic_len: u32,
    pub panic: [u8; PANIC_BYTES],
    /// Set when the control handler found the console task stalled:
    /// (console tick, uptime) at detection.
    pub stall_tick: u32,
    pub stall_now: u32,
}

impl CrashRecord {
    /// Nothing is on record.
    pub open spec fn is_empty(self) -> bool {
        &&& self.magic == 0
        &&& self.boots == 0
        &&& self.stage == 0
        &&& self.panic_len == 0
        &&& self.panic@ == Seq::new(PANIC_BYTES as nat, |i: int| 0u8)
        &&& self.stall_tick == 0
        &&& self.stall_now == 0
    }

    pub fn empty() -> (r: Self)
        ensures
            r.is_empty(),
    {
        let panic: [u8; PANIC_BYTES] = [0; PANIC_BYTES];
        assert(panic@ =~= Seq::new(PANIC_BYTES as nat, |i: int| 0u8));
        CrashRecord {
            magic: 0,
            boots: 0,
            stage: 0,
            panic_len: 0,
            panic,
            stall_tick: 0,
            stall_now: 0,
        }
    }

    /// Takes note of a boot. A record that was never written is begun. Returns
    /// the stage that the boot before reached.
    pub fn boot(&mut self) -> (previous_stage: u32)
        ensures
            previous_stage == final(self).stage,
            final(self).magic == MAGIC,
            old(self).magic == MAGIC ==> {
                &&& final(self).boots == old(self).boots.wrapping_add(1)
                &&& final(self).stage == old(self).stage
                &&& final(self).panic_len == old(self).panic_len
                &&& final(self).panic == old(self).panic
                &&& final(self).stall_tick == old(self).stall_tick
                &&& final(self).stall_now == old(self).stall_now
            },
            old(self).magic != MAGIC ==> {
                &&& final(self).boots == 1
                &&& (CrashRecord { magic: 0, boots: 0, ..*final(self) }).is_empty()
            },
    {
        if self.magic != MAGIC {
            *self = CrashRecord::empty();
            self.magic = MAGIC;
        }
        self.boots = self.boots.wrapping_add(1);
        self.stage
    }

    /// Takes note of a panic, as much of its text as there is room for.
    pub fn record_panic(&mut self, text: &[u8])
        ensures
            final(self).panic_len == if text@.len() <= PANIC_BYTES {
                text@.len()
            } else {
                PANIC_BYTES as nat
            },
            final(self).panic@ == text@.take(final(self).panic_len as int) + old(
                self
            ).panic@.skip(final(self).panic_len as int),
            *final(self) == (CrashRecord {
                panic_len: final(self).panic_len,
                panic: final(self).panic,
                ..*old(self)
            }),
    {
        let n: usize = if text.len() <= PANIC_BYTES {
            text.len()
        } else {
            PANIC_BYTES
        };
        let mut panic = self.panic;
        let mut i: usize = 0;
        while i < n
            invariant
                i <= n,
                n <= PANIC_BYTES,
                n <= text@.len(),
                forall|k: int| 0 <= k < i ==> panic@[k] == text@[k],
                forall|k: int| i <= k < PANIC_BYTES ==> panic@[k] == old(self).panic@[k],
            decreases n - i,
        {
            panic[i] = text[i];
            i += 1;
        }
        assert(panic@ =~= text@.take(n as int) + old(self).panic@.skip(n as int));
        self.panic = panic;
        self.panic_len = n as u32;
    }

    /// The text of the last panic, if there was one.
    pub fn panic_text(&self) -> (text: Option<&[u8]>)
        requires
            self.panic_len <= PANIC_BYTES,
        ensures
            match text {
                Some(t) => self.panic_len > 0 && t@ == self.panic@.take(self.panic_len as int),
                None => self.panic_len == 0,
            },
    {
        if self.panic_len > 0 {
            let t = vstd::slice::slice_subrange(self.panic.as_slice(), 0, self.panic_len as usize);
            assert(t@ =~= self.panic@.take(self.panic_len as int));
            Some(t)
        } else {
            None
        }
    }

    /// Takes note of a stalled executor.
    pub fn record_stall(&mut self, tick_s: u32, now_s: u32)
        ensures
            *final(self) == (CrashRecord { stall_tick: tick_s, stall_now: now_s, ..*old(self) }),
    {
        self.stall_tick = tick_s;
        self.stall_now = now_s;
    }

    /// Takes note of the boot stage reached.
    pub fn set_stage(&mut self, n: u32)
        ensures
            *final(self) == (CrashRecord { stage: n, ..*old(self) }),
    {
        self.stage = n;
    }
}

} // verus!
