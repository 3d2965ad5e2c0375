use vstd::prelude::*;

verus! {

/// A colour as red, green and blue.
#[derive(Debug, Clone, Copy, PartialEq, Eq, Structural)]
pub struct Rgb {
    pub r: u8,
    pub g: u8,
    pub b: u8,
}

/// The palette colours used for status.
pub open spec fn red_rgb() -> Rgb {
    Rgb { r: 243, g: 139, b: 168 }
}

pub open spec fn peach_rgb() -> Rgb {
    Rgb { r: 250, g: 179, b: 135 }
}

pub open spec fn yellow_rgb() -> Rgb {
    Rgb { r: 249, g: 226, b: 175 }
}

pub open spec fn green_rgb() -> Rgb {
    Rgb { r: 166, g: 227, b: 161 }
}

pub open spec fn teal_rgb() -> Rgb {
    Rgb { r: 148, g: 226, b: 213 }
}

pub open spec fn sky_rgb() -> Rgb {
    Rgb { r: 137, g: 220, b: 235 }
}

pub open spec fn blue_rgb() -> Rgb {
    Rgb { r: 137, g: 180, b: 250 }
}

/// The Catppuccin Mocha palette and the thresholds that pick status colours.
pub struct CatppuccinTheme;

impl CatppuccinTheme {
    pub fn red() -> (c: Rgb)
        ensures
            c == red_rgb(),
    {
        Rgb { r: 243, g: 139, b: 168 }
    }

    pub fn peach() -> (c: Rgb)
        ensures
            c == peach_rgb(),
    {
        Rgb { r: 250, g: 179, b: 135 }
    }

    pub fn yellow() -> (c: Rgb)
        ensures
            c == yellow_rgb(),
    {
        Rgb { r: 249, g: 226, b: 175 }
    }

    pub fn green() -> (c: Rgb)
        ensures
            c == green_rgb(),
    {
        Rgb { r: 166, g: 227, b: 161 }
    }

    pub fn teal() -> (c: Rgb)
        ensures
            c == teal_rgb(),
    {
        Rgb { r: 148, g: 226, b: 213 }
    }

    pub fn sky() -> (c: Rgb)
        ensures
            c == sky_rgb(),
    {
        Rgb { r: 137, g: 220, b: 235 }
    }

    pub fn blue() -> (c: Rgb)
        ensures
            c == blue_rgb(),
    {
        Rgb { r: 137, g: 180, b: 250 }
    }

    pub fn status_ok() -> (c: Rgb)
        ensures
            c == green_rgb(),
    {
        Self::green()
    }

    pub fn status_warning() -> (c: Rgb)
        ensures
            c == peach_rgb(),
    {
        Self::peach()
    }

    pub fn status_critical() -> (c: Rgb)
        ensures
            c == red_rgb(),
    {
        Self::red()
    }

    pub fn status_info() -> (c: Rgb)
        ensures
            c == blue_rgb(),
    {
        Self::blue()
    }

    /// CPU usage (thousandths of a percent): red above 80%, peach above
    /// 60%, else green.
    pub fn cpu_color(usage: u32) -> (c: Rgb)
        ensures
            c == if usage > 80_000 {
                red_rgb()
            } else if usage > 60_000 {
                peach_rgb()
            } else {
                green_rgb()
            },
    {
        if usage > 80_000 {
            Self::red()
        } else if usage > 60_000 {
            Self::peach()
        } else {
            Self::green()
        }
    }

    /// Memory usage: red above 90%, yellow above 75%, else teal.
    pub fn memory_color(usage: u32) -> (c: Rgb)
        ensures
            c == if usage > 90_000 {
                red_rgb()
            } else if usage > 75_000 {
                yellow_rgb()
            } else {
                teal_rgb()
            },
    {
        if usage > 90_000 {
            Self::red()
        } else if usage > 75_000 {
            Self::yellow()
        } else {
            Self::teal()
        }
    }

    /// GPU temperature (thousandths of a degree): red above 80 °C, peach
    /// above 70, yellow above 60, else sky.
    pub fn gpu_temp_color(temp: u32) -> (c: Rgb)
        ensures
            c == if temp > 80_000 {
                red_rgb()
            } else if temp > 70_000 {
                peach_rgb()
            } else if temp > 60_000 {
                yellow_rgb()
            } else {
                sky_rgb()
            },
    {
        if temp > 80_000 {
            Self::red()
        } else if temp > 70_000 {
            Self::peach()
        } else if temp > 60_000 {
            Self::yellow()
        } else {
            Self::sky()
        }
    }
}

} // verus!
