use vstd::prelude::*;
use crate::start_params::{param_of, param_u64, start_params, start_params_spec, window_param, window_param_spec, WindowParam};

verus! {

/// `Some(v)` when `v` passes the rule, else the current value.
pub open spec fn accept_if(current: u64, offered: Option<u64>, ok: bool) -> u64 {
    match offered {
        Some(v) => if ok {
            v
        } else {
            current
        },
        None => current,
    }
}

/// Thresholds of the absorption and wall-confirmation detector.
#[derive(Debug, Clone, Copy, PartialEq, Eq, Structural)]
pub struct AbsorptionSettings {
    /// Least executed volume (USDT) against a wall that confirms absorption.
    pub min_absorption_usdt: u64,
    /// Least resting size (USDT) for a level to be tracked as a wall.
    pub min_wall_usdt: u64,
    /// Largest price move allowed during absorption, in thousandths of a percent.
    pub max_price_move_x1000: u64,
    /// Tracking window in milliseconds.
    pub window_ms: u64,
}

impl AbsorptionSettings {
    /// The defaults: $50,000 absorbed, $40,000 walls, 0.05 % move, 60 s.
    pub fn new() -> (s: Self)
        ensures
            s == (AbsorptionSettings {
                min_absorption_usdt: 50000,
                min_wall_usdt: 40000,
                max_price_move_x1000: 50,
                window_ms: 60000,
            }),
    {
        AbsorptionSettings {
            min_absorption_usdt: 50000,
            min_wall_usdt: 40000,
            max_price_move_x1000: 50,
            window_ms: 60000,
        }
    }

    /// Applies the offered parameters: volumes only when positive, the
    /// price move always, the window only from 5 s up.
    pub fn configure(
        &mut self,
        min_abs_usdt: Option<u64>,
        min_wall: Option<u64>,
        max_move_x1000: Option<u64>,
        window_ms: Option<u64>,
    )
        ensures
            final(self).min_absorption_usdt == accept_if(
                old(self).min_absorption_usdt,
                min_abs_usdt,
                min_abs_usdt matches Some(v) && v > 0,
            ),
            final(self).min_wall_usdt == accept_if(old(self).min_wall_usdt, min_wall, min_wall matches Some(v) && v > 0),
            final(self).max_price_move_x1000 == accept_if(old(self).max_price_move_x1000, max_move_x1000, true),
            final(self).window_ms == accept_if(old(self).window_ms, window_ms, window_ms matches Some(v) && v >= 5000),
    {
        if let Some(u) = min_abs_usdt {
            if u > 0 {
                self.min_absorption_usdt = u;
            }
        }
        if let Some(w) = min_wall {
            if w > 0 {
                self.min_wall_usdt = w;
            }
        }
        if let Some(m) = max_move_x1000 {
            self.max_price_move_x1000 = m;
        }
        if let Some(win) = window_ms {
            if win >= 5000 {
                self.window_ms = win;
            }
        }
    }
}

/// Thresholds of the iceberg-order detector.
#[derive(Debug, Clone, Copy, PartialEq, Eq, Structural)]
pub struct IcebergSettings {
    /// Least executed volume (USDT) at a level.
    pub min_iceberg_usdt: u64,
    /// Least ratio of executed to visible size, in tenths.
    pub min_exec_ratio_x10: u64,
    /// Least number of refills seen at the level.
    pub min_refill_count: u64,
    /// Tracking window in milliseconds.
    pub window_ms: u64,
}

impl IcebergSettings {
    /// The defaults: $30,000 executed, ratio 2.5, two refills, 60 s.
    pub fn new() -> (s: Self)
        ensures
            s == (IcebergSettings {
                min_iceberg_usdt: 30000,
                min_exec_ratio_x10: 25,
                min_refill_count: 2,
                window_ms: 60000,
            }),
    {
        IcebergSettings { min_iceberg_usdt: 30000, min_exec_ratio_x10: 25, min_refill_count: 2, window_ms: 60000 }
    }

    /// Applies the offered parameters: the volume only when positive, the
    /// ratio only from 1.0 up, the refill count always, the window only
    /// from 5 s up.
    pub fn configure(
        &mut self,
        min_usdt: Option<u64>,
        min_ratio_x10: Option<u64>,
        min_refills: Option<u64>,
        window_ms: Option<u64>,
    )
        ensures
            final(self).min_iceberg_usdt == accept_if(old(self).min_iceberg_usdt, min_usdt, min_usdt matches Some(v) && v > 0),
            final(self).min_exec_ratio_x10 == accept_if(
                old(self).min_exec_ratio_x10,
                min_ratio_x10,
                min_ratio_x10 matches Some(v) && v >= 10,
            ),
            final(self).min_refill_count == accept_if(old(self).min_refill_count, min_refills, true),
            final(self).window_ms == accept_if(old(self).window_ms, window_ms, window_ms matches Some(v) && v >= 5000),
    {
        if let Some(u) = min_usdt {
            if u > 0 {
                self.min_iceberg_usdt = u;
            }
        }
        if let Some(r) = min_ratio_x10 {
            if r >= 10 {
                self.min_exec_ratio_x10 = r;
            }
        }
        if let Some(rf) = min_refills {
            self.min_refill_count = rf;
        }
        if let Some(w) = window_ms {
            if w >= 5000 {
                self.window_ms = w;
            }
        }
    }
}

/// Thresholds of the spoofing (fake order) detector.
#[derive(Debug, Clone, Copy, PartialEq, Eq, Structural)]
pub struct SpoofSettings {
    /// Least resting size (USDT) of a wall worth watching.
    pub min_wall_usdt: u64,
    /// Longest lifetime (ms) of a wall that vanishes as a spoof.
    pub max_lifespan_ms: u64,
    /// Least share (percent) of the wall cancelled rather than executed.
    pub min_cancel_ratio_pct: u64,
}

impl SpoofSettings {
    /// The defaults: $50,000 walls, 15 s lifetime, 70 % cancelled.
    pub fn new() -> (s: Self)
        ensures
            s == (SpoofSettings { min_wall_usdt: 50000, max_lifespan_ms: 15000, min_cancel_ratio_pct: 70 }),
    {
        SpoofSettings { min_wall_usdt: 50000, max_lifespan_ms: 15000, min_cancel_ratio_pct: 70 }
    }

    /// Applies the offered parameters: the size only when positive, the
    /// lifetime only from 500 ms up, the cancel share only up to 100 %.
    pub fn configure(&mut self, min_usdt: Option<u64>, max_lifespan: Option<u64>, min_cancel_pct: Option<u64>)
        ensures
            final(self).min_wall_usdt == accept_if(old(self).min_wall_usdt, min_usdt, min_usdt matches Some(v) && v > 0),
            final(self).max_lifespan_ms == accept_if(
                old(self).max_lifespan_ms,
                max_lifespan,
                max_lifespan matches Some(v) && v >= 500,
            ),
            final(self).min_cancel_ratio_pct == accept_if(
                old(self).min_cancel_ratio_pct,
                min_cancel_pct,
                min_cancel_pct matches Some(v) && v <= 100,
            ),
    {
        if let Some(u) = min_usdt {
            if u > 0 {
                self.min_wall_usdt = u;
            }
        }
        if let Some(l) = max_lifespan {
            if l >= 500 {
                self.max_lifespan_ms = l;
            }
        }
        if let Some(c) = min_cancel_pct {
            if c <= 100 {
                self.min_cancel_ratio_pct = c;
            }
        }
    }

    /// How long a vanished wall stood, from its first sighting to the
    /// snapshot that misses it, when that is short enough to count as a
    /// spoof: at least 100 ms and at most the configured lifespan.
    pub fn spoof_lifespan(&self, appear_ms: u64, event_ms: u64) -> (r: Option<u64>)
        ensures
            ({
                let life = if event_ms >= appear_ms { (event_ms - appear_ms) as u64 } else { 0 };
                r == if 100 <= life && life <= self.max_lifespan_ms { Some(life) } else { None::<u64> }
            }),
    {
        let life = event_ms.saturating_sub(appear_ms);
        if life <= self.max_lifespan_ms && life >= 100 {
            Some(life)
        } else {
            None
        }
    }
}

/// A measuring window with a floor: offers below the floor are ignored, and
/// the window in use is never below the floor.
#[derive(Debug, Clone, Copy, PartialEq, Eq, Structural)]
pub struct WindowSetting {
    pub window_ms: u64,
    pub floor_ms: u64,
}

impl WindowSetting {
    /// A window starting at `default_ms` with the given floor.
    pub fn new(default_ms: u64, floor_ms: u64) -> (w: Self)
        ensures
            w == (WindowSetting { window_ms: default_ms, floor_ms }),
    {
        WindowSetting { window_ms: default_ms, floor_ms }
    }

    /// The window of the aggregate-trade statistics: 1 s, offers from 100 ms.
    pub fn aggtrade_stats() -> (w: Self)
        ensures
            w == (WindowSetting { window_ms: 1000, floor_ms: 100 }),
    {
        Self::new(1000, 100)
    }

    /// The window of the Amihud illiquidity measure: 60 s, offers from 1 s.
    pub fn amihud() -> (w: Self)
        ensures
            w == (WindowSetting { window_ms: 60000, floor_ms: 1000 }),
    {
        Self::new(60000, 1000)
    }

    /// The window of the book-ticker derivatives: 30 s, offers from 1 s.
    pub fn bookticker() -> (w: Self)
        ensures
            w == (WindowSetting { window_ms: 30000, floor_ms: 1000 }),
    {
        Self::new(30000, 1000)
    }

    /// Takes the offered window when it reaches the floor.
    pub fn set_window_ms(&mut self, ms: u64)
        ensures
            final(self).floor_ms == old(self).floor_ms,
            final(self).window_ms == (if ms >= old(self).floor_ms { ms } else { old(self).window_ms }),
    {
        if ms >= self.floor_ms {
            self.window_ms = ms;
        }
    }

    /// The window in use: the stored window, raised to the floor.
    pub fn effective_ms(&self) -> (ms: u64)
        ensures
            ms == (if self.window_ms > self.floor_ms { self.window_ms } else { self.floor_ms }),
    {
        if self.window_ms > self.floor_ms {
            self.window_ms
        } else {
            self.floor_ms
        }
    }

    /// Start of the window that ends at `now_ms` (never before time zero).
    pub fn window_start(&self, now_ms: u64) -> (start: u64)
        ensures
            start == (if now_ms >= self.effective_spec() { now_ms - self.effective_spec() } else { 0 }),
    {
        let w = self.effective_ms();
        now_ms.saturating_sub(w)
    }

    /// The window in use, as a value.
    pub open spec fn effective_spec(&self) -> u64 {
        if self.window_ms > self.floor_ms {
            self.window_ms
        } else {
            self.floor_ms
        }
    }
}

/// How many one-second candles of history the OHLCV plugin keeps.
#[derive(Debug, Clone, Copy, PartialEq, Eq, Structural)]
pub struct HistoryLimit {
    pub limit: usize,
}

impl HistoryLimit {
    /// Sixty candles by default.
    pub fn new() -> (h: Self)
        ensures
            h.limit == 60,
    {
        HistoryLimit { limit: 60 }
    }

    /// Takes the offered limit when it is positive.
    pub fn set_history_limit(&mut self, limit: usize)
        ensures
            final(self).limit == (if limit > 0 { limit } else { old(self).limit }),
    {
        if limit > 0 {
            self.limit = limit;
        }
    }
}

impl AbsorptionSettings {
    /// Applies the parameters of a Start payload ("min_absorption_usdt",
    /// "min_wall_usdt", "max_price_move_x1000", "window_ms") as
    /// `configure` does; a payload without parameters changes nothing.
    pub fn configure_from_start(&mut self, payload: &[u8])
        ensures
            match start_params_spec(payload@) {
                Some(p) => {
                    &&& final(self).min_absorption_usdt == accept_if(
                        old(self).min_absorption_usdt,
                        param_of(p, "min_absorption_usdt"@),
                        param_of(p, "min_absorption_usdt"@) matches Some(v) && v > 0,
                    )
                    &&& final(self).min_wall_usdt == accept_if(
                        old(self).min_wall_usdt,
                        param_of(p, "min_wall_usdt"@),
                        param_of(p, "min_wall_usdt"@) matches Some(v) && v > 0,
                    )
                    &&& final(self).max_price_move_x1000 == accept_if(
                        old(self).max_price_move_x1000,
                        param_of(p, "max_price_move_x1000"@),
                        true,
                    )
                    &&& final(self).window_ms == accept_if(
                        old(self).window_ms,
                        param_of(p, "window_ms"@),
                        param_of(p, "window_ms"@) matches Some(v) && v >= 5000,
                    )
                },
                None => *final(self) == *old(self),
            },
    {
        match start_params(payload) {
            Some(p) => {
                let a = param_u64(&p, "min_absorption_usdt");
                let w = param_u64(&p, "min_wall_usdt");
                let m = param_u64(&p, "max_price_move_x1000");
                let win = param_u64(&p, "window_ms");
                self.configure(a, w, m, win);
            },
            None => {},
        }
    }
}

impl IcebergSettings {
    /// Applies the parameters of a Start payload ("min_iceberg_usdt",
    /// "min_exec_ratio_x10", "min_refill_count", "window_ms") as
    /// `configure` does; a payload without parameters changes nothing.
    pub fn configure_from_start(&mut self, payload: &[u8])
        ensures
            match start_params_spec(payload@) {
                Some(p) => {
                    &&& final(self).min_iceberg_usdt == accept_if(
                        old(self).min_iceberg_usdt,
                        param_of(p, "min_iceberg_usdt"@),
                        param_of(p, "min_iceberg_usdt"@) matches Some(v) && v > 0,
                    )
                    &&& final(self).min_exec_ratio_x10 == accept_if(
                        old(self).min_exec_ratio_x10,
                        param_of(p, "min_exec_ratio_x10"@),
                        param_of(p, "min_exec_ratio_x10"@) matches Some(v) && v >= 10,
                    )
                    &&& final(self).min_refill_count == accept_if(
                        old(self).min_refill_count,
                        param_of(p, "min_refill_count"@),
                        true,
                    )
                    &&& final(self).window_ms == accept_if(
                        old(self).window_ms,
                        param_of(p, "window_ms"@),
                        param_of(p, "window_ms"@) matches Some(v) && v >= 5000,
                    )
                },
                None => *final(self) == *old(self),
            },
    {
        match start_params(payload) {
            Some(p) => {
                let u = param_u64(&p, "min_iceberg_usdt");
                let r = param_u64(&p, "min_exec_ratio_x10");
                let rf = param_u64(&p, "min_refill_count");
                let w = param_u64(&p, "window_ms");
                self.configure(u, r, rf, w);
            },
            None => {},
        }
    }
}

impl SpoofSettings {
    /// Applies the parameters of a Start payload ("min_wall_usdt",
    /// "max_lifespan_ms", "min_cancel_ratio_pct") as `configure` does; a
    /// payload without parameters changes nothing.
    pub fn configure_from_start(&mut self, payload: &[u8])
        ensures
            match start_params_spec(payload@) {
                Some(p) => {
                    &&& final(self).min_wall_usdt == accept_if(
                        old(self).min_wall_usdt,
                        param_of(p, "min_wall_usdt"@),
                        param_of(p, "min_wall_usdt"@) matches Some(v) && v > 0,
                    )
                    &&& final(self).max_lifespan_ms == accept_if(
                        old(self).max_lifespan_ms,
                        param_of(p, "max_lifespan_ms"@),
                        param_of(p, "max_lifespan_ms"@) matches Some(v) && v >= 500,
                    )
                    &&& final(self).min_cancel_ratio_pct == accept_if(
                        old(self).min_cancel_ratio_pct,
                        param_of(p, "min_cancel_ratio_pct"@),
                        param_of(p, "min_cancel_ratio_pct"@) matches Some(v) && v <= 100,
                    )
                },
                None => *final(self) == *old(self),
            },
    {
        match start_params(payload) {
            Some(p) => {
                let u = param_u64(&p, "min_wall_usdt");
                let l = param_u64(&p, "max_lifespan_ms");
                let c = param_u64(&p, "min_cancel_ratio_pct");
                self.configure(u, l, c);
            },
            None => {},
        }
    }
}

impl WindowSetting {
    /// Applies the window a Start payload offers (see `window_param`; with
    /// `aliased` the "interval_" names count too).  False, with the setting
    /// unchanged, where a window in seconds exceeds the 64-bit range in
    /// milliseconds.
    pub fn configure_from_start(&mut self, payload: &[u8], aliased: bool) -> (ok: bool)
        ensures
            match start_params_spec(payload@) {
                Some(p) => match window_param_spec(p, aliased) {
                    WindowParam::Millis(ms) => ok && final(self).floor_ms == old(self).floor_ms
                        && final(self).window_ms == (if ms >= old(self).floor_ms {
                        ms
                    } else {
                        old(self).window_ms
                    }),
                    WindowParam::Unset => ok && *final(self) == *old(self),
                    WindowParam::TooLarge => !ok && *final(self) == *old(self),
                },
                None => ok && *final(self) == *old(self),
            },
    {
        match start_params(payload) {
            Some(p) => match window_param(&p, aliased) {
                WindowParam::Millis(ms) => {
                    self.set_window_ms(ms);
                    true
                },
                WindowParam::Unset => true,
                WindowParam::TooLarge => false,
            },
            None => true,
        }
    }
}

impl HistoryLimit {
    /// Applies the "history_limit" a Start payload offers, as
    /// `set_history_limit` does; a payload without one changes nothing.
    pub fn configure_from_start(&mut self, payload: &[u8])
        ensures
            match start_params_spec(payload@) {
                Some(p) => match param_of(p, "history_limit"@) {
                    Some(l) => final(self).limit == (if (l as usize) > 0 {
                        l as usize
                    } else {
                        old(self).limit
                    }),
                    None => *final(self) == *old(self),
                },
                None => *final(self) == *old(self),
            },
    {
        match start_params(payload) {
            Some(p) => match param_u64(&p, "history_limit") {
                Some(l) => self.set_history_limit(l as usize),
                None => {},
            },
            None => {},
        }
    }
}

} // verus!
