//! Physical units with dimensional analysis.
//!
//! A [`CompoundUnit`] carries a conversion factor to base units, an offset
//! (used by temperature units), a dimension vector and a display symbol.
//! Values convert between units of equal dimensions through the base
//! representation `base = (value + offset) * factor`; multiplying or
//! dividing units composes factors and dimension vectors and synthesizes a
//! display symbol, preferring a registry entry whose factor lies within
//! 0.1% over a built-up symbol.  The registry is a fixed table.

use vstd::prelude::*;

verus! {

use crate::decimal::{Dec, add_of, sub_of, mul_of, div_of, dec_add, dec_sub, dec_mul, dec_div,
    dec_eq, dec_lt};
use crate::dimensions::Dimensions;
use crate::text::{spec_lower, str_chars, lower_chars, chars_eq, chars_eq_str,
    chars_eq_str_nocase, push_char};
use crate::currency::strs_view;
use vstd::arithmetic::power::pow;

/// One registry entry, at the specification level.
pub struct UnitSpec {
    pub factor: Dec,
    pub offset: Dec,
    pub dimensions: Dimensions,
    pub symbol: Seq<char>,
    pub aliases: Seq<Seq<char>>,
}

/// One registry entry.
pub struct RuntimeUnitDef {
    pub factor: Dec,
    pub offset: Dec,
    pub dimensions: Dimensions,
    pub symbol: String,
    pub aliases: Vec<String>,
}

/// True iff the definition is the given specification entry.
pub open spec fn unit_def_matches(d: RuntimeUnitDef, u: UnitSpec) -> bool {
    &&& d.factor == u.factor
    &&& d.offset == u.offset
    &&& d.dimensions == u.dimensions
    &&& d.symbol@ == u.symbol
    &&& strs_view(d.aliases@) == u.aliases
}

/// How many units the registry holds.
pub open spec fn spec_unit_count() -> int {
    68
}

/// The number of registry entries.
pub fn unit_count() -> (n: usize)
    ensures
        n == spec_unit_count(),
{
    68
}

/// The registry, entry by entry.
pub open spec fn spec_unit(i: int) -> UnitSpec {
if i == 0 {
        UnitSpec {
            factor: Dec { neg: false, mag: 1000u128, scale: 0 },
            offset: Dec { neg: false, mag: 0u128, scale: 0 },
            dimensions: Dimensions { length: 1i8, mass: 0i8, time: 0i8, temperature: 0i8, data: 0i8 },
            symbol: "km"@,
            aliases: seq!["km"@, "kilometer"@, "kilometers"@],
        }
} else if i == 1 {
        UnitSpec {
            factor: Dec { neg: false, mag: 1u128, scale: 0 },
            offset: Dec { neg: false, mag: 0u128, scale: 0 },
            dimensions: Dimensions { length: 1i8, mass: 0i8, time: 0i8, temperature: 0i8, data: 0i8 },
            symbol: "m"@,
            aliases: seq!["m"@, "meter"@, "meters"@],
        }
} else if i == 2 {
        UnitSpec {
            factor: Dec { neg: false, mag: 1u128, scale: 2 },
            offset: Dec { neg: false, mag: 0u128, scale: 0 },
            dimensions: Dimensions { length: 1i8, mass: 0i8, time: 0i8, temperature: 0i8, data: 0i8 },
            symbol: "cm"@,
            aliases: seq!["cm"@, "centimeter"@, "centimeters"@],
        }
} else if i == 3 {
        UnitSpec {
            factor: Dec { neg: false, mag: 1u128, scale: 3 },
            offset: Dec { neg: false, mag: 0u128, scale: 0 },
            dimensions: Dimensions { length: 1i8, mass: 0i8, time: 0i8, temperature: 0i8, data: 0i8 },
            symbol: "mm"@,
            aliases: seq!["mm"@, "millimeter"@, "millimeters"@],
        }
} else if i == 4 {
        UnitSpec {
            factor: Dec { neg: false, mag: 1609344u128, scale: 3 },
            offset: Dec { neg: false, mag: 0u128, scale: 0 },
            dimensions: Dimensions { length: 1i8, mass: 0i8, time: 0i8, temperature: 0i8, data: 0i8 },
            symbol: "mi"@,
            aliases: seq!["mi"@, "mile"@, "miles"@],
        }
} else if i == 5 {
        UnitSpec {
            factor: Dec { neg: false, mag: 3048u128, scale: 4 },
            offset: Dec { neg: false, mag: 0u128, scale: 0 },
            dimensions: Dimensions { length: 1i8, mass: 0i8, time: 0i8, temperature: 0i8, data: 0i8 },
            symbol: "ft"@,
            aliases: seq!["ft"@, "foot"@, "feet"@],
        }
} else if i == 6 {
        UnitSpec {
            factor: Dec { neg: false, mag: 254u128, scale: 4 },
            offset: Dec { neg: false, mag: 0u128, scale: 0 },
            dimensions: Dimensions { length: 1i8, mass: 0i8, time: 0i8, temperature: 0i8, data: 0i8 },
            symbol: "in"@,
            aliases: seq!["in"@, "inch"@, "inches"@],
        }
} else if i == 7 {
        UnitSpec {
            factor: Dec { neg: false, mag: 9144u128, scale: 4 },
            offset: Dec { neg: false, mag: 0u128, scale: 0 },
            dimensions: Dimensions { length: 1i8, mass: 0i8, time: 0i8, temperature: 0i8, data: 0i8 },
            symbol: "yd"@,
            aliases: seq!["yd"@, "yard"@, "yards"@],
        }
} else if i == 8 {
        UnitSpec {
            factor: Dec { neg: false, mag: 1852u128, scale: 0 },
            offset: Dec { neg: false, mag: 0u128, scale: 0 },
            dimensions: Dimensions { length: 1i8, mass: 0i8, time: 0i8, temperature: 0i8, data: 0i8 },
            symbol: "nmi"@,
            aliases: seq!["nmi"@, "nautical mile"@, "nautical miles"@],
        }
} else if i == 9 {
        UnitSpec {
            factor: Dec { neg: false, mag: 1000000u128, scale: 0 },
            offset: Dec { neg: false, mag: 0u128, scale: 0 },
            dimensions: Dimensions { length: 2i8, mass: 0i8, time: 0i8, temperature: 0i8, data: 0i8 },
            symbol: "km²"@,
            aliases: seq!["km2"@, "km²"@, "sq km"@],
        }
} else if i == 10 {
        UnitSpec {
            factor: Dec { neg: false, mag: 1u128, scale: 0 },
            offset: Dec { neg: false, mag: 0u128, scale: 0 },
            dimensions: Dimensions { length: 2i8, mass: 0i8, time: 0i8, temperature: 0i8, data: 0i8 },
            symbol: "m²"@,
            aliases: seq!["m2"@, "m²"@, "sq m"@],
        }
} else if i == 11 {
        UnitSpec {
            factor: Dec { neg: false, mag: 1u128, scale: 4 },
            offset: Dec { neg: false, mag: 0u128, scale: 0 },
            dimensions: Dimensions { length: 2i8, mass: 0i8, time: 0i8, temperature: 0i8, data: 0i8 },
            symbol: "cm²"@,
            aliases: seq!["cm2"@, "cm²"@, "sq cm"@],
        }
} else if i == 12 {
        UnitSpec {
            factor: Dec { neg: false, mag: 10000u128, scale: 0 },
            offset: Dec { neg: false, mag: 0u128, scale: 0 },
            dimensions: Dimensions { length: 2i8, mass: 0i8, time: 0i8, temperature: 0i8, data: 0i8 },
            symbol: "ha"@,
            aliases: seq!["ha"@, "hectare"@, "hectares"@],
        }
} else if i == 13 {
        UnitSpec {
            factor: Dec { neg: false, mag: 40468564224u128, scale: 7 },
            offset: Dec { neg: false, mag: 0u128, scale: 0 },
            dimensions: Dimensions { length: 2i8, mass: 0i8, time: 0i8, temperature: 0i8, data: 0i8 },
            symbol: "acre"@,
            aliases: seq!["acre"@, "acres"@],
        }
} else if i == 14 {
        UnitSpec {
            factor: Dec { neg: false, mag: 9290304u128, scale: 8 },
            offset: Dec { neg: false, mag: 0u128, scale: 0 },
            dimensions: Dimensions { length: 2i8, mass: 0i8, time: 0i8, temperature: 0i8, data: 0i8 },
            symbol: "ft²"@,
            aliases: seq!["ft2"@, "ft²"@, "sq ft"@],
        }
} else if i == 15 {
        UnitSpec {
            factor: Dec { neg: false, mag: 1u128, scale: 0 },
            offset: Dec { neg: false, mag: 0u128, scale: 0 },
            dimensions: Dimensions { length: 3i8, mass: 0i8, time: 0i8, temperature: 0i8, data: 0i8 },
            symbol: "m³"@,
            aliases: seq!["m3"@, "m³"@, "cubic meter"@],
        }
} else if i == 16 {
        UnitSpec {
            factor: Dec { neg: false, mag: 1u128, scale: 3 },
            offset: Dec { neg: false, mag: 0u128, scale: 0 },
            dimensions: Dimensions { length: 3i8, mass: 0i8, time: 0i8, temperature: 0i8, data: 0i8 },
            symbol: "L"@,
            aliases: seq!["l"@, "L"@, "liter"@, "liters"@, "litre"@, "litres"@],
        }
} else if i == 17 {
        UnitSpec {
            factor: Dec { neg: false, mag: 1u128, scale: 6 },
            offset: Dec { neg: false, mag: 0u128, scale: 0 },
            dimensions: Dimensions { length: 3i8, mass: 0i8, time: 0i8, temperature: 0i8, data: 0i8 },
            symbol: "mL"@,
            aliases: seq!["ml"@, "mL"@, "milliliter"@, "milliliters"@],
        }
} else if i == 18 {
        UnitSpec {
            factor: Dec { neg: false, mag: 378541u128, scale: 8 },
            offset: Dec { neg: false, mag: 0u128, scale: 0 },
            dimensions: Dimensions { length: 3i8, mass: 0i8, time: 0i8, temperature: 0i8, data: 0i8 },
            symbol: "gal"@,
            aliases: seq!["gal"@, "gallon"@, "gallons"@],
        }
} else if i == 19 {
        UnitSpec {
            factor: Dec { neg: false, mag: 946353u128, scale: 9 },
            offset: Dec { neg: false, mag: 0u128, scale: 0 },
            dimensions: Dimensions { length: 3i8, mass: 0i8, time: 0i8, temperature: 0i8, data: 0i8 },
            symbol: "qt"@,
            aliases: seq!["qt"@, "quart"@, "quarts"@],
        }
} else if i == 20 {
        UnitSpec {
            factor: Dec { neg: false, mag: 473176u128, scale: 9 },
            offset: Dec { neg: false, mag: 0u128, scale: 0 },
            dimensions: Dimensions { length: 3i8, mass: 0i8, time: 0i8, temperature: 0i8, data: 0i8 },
            symbol: "pt"@,
            aliases: seq!["pt"@, "pint"@, "pints"@],
        }
} else if i == 21 {
        UnitSpec {
            factor: Dec { neg: false, mag: 236588u128, scale: 9 },
            offset: Dec { neg: false, mag: 0u128, scale: 0 },
            dimensions: Dimensions { length: 3i8, mass: 0i8, time: 0i8, temperature: 0i8, data: 0i8 },
            symbol: "cup"@,
            aliases: seq!["cup"@, "cups"@],
        }
} else if i == 22 {
        UnitSpec {
            factor: Dec { neg: false, mag: 295735u128, scale: 10 },
            offset: Dec { neg: false, mag: 0u128, scale: 0 },
            dimensions: Dimensions { length: 3i8, mass: 0i8, time: 0i8, temperature: 0i8, data: 0i8 },
            symbol: "fl oz"@,
            aliases: seq!["fl oz"@, "floz"@, "fluid ounce"@],
        }
} else if i == 23 {
        UnitSpec {
            factor: Dec { neg: false, mag: 1000u128, scale: 0 },
            offset: Dec { neg: false, mag: 0u128, scale: 0 },
            dimensions: Dimensions { length: 0i8, mass: 1i8, time: 0i8, temperature: 0i8, data: 0i8 },
            symbol: "t"@,
            aliases: seq!["t"@, "ton"@, "tons"@, "tonne"@, "tonnes"@],
        }
} else if i == 24 {
        UnitSpec {
            factor: Dec { neg: false, mag: 1u128, scale: 0 },
            offset: Dec { neg: false, mag: 0u128, scale: 0 },
            dimensions: Dimensions { length: 0i8, mass: 1i8, time: 0i8, temperature: 0i8, data: 0i8 },
            symbol: "kg"@,
            aliases: seq!["kg"@, "kilogram"@, "kilograms"@],
        }
} else if i == 25 {
        UnitSpec {
            factor: Dec { neg: false, mag: 1u128, scale: 3 },
            offset: Dec { neg: false, mag: 0u128, scale: 0 },
            dimensions: Dimensions { length: 0i8, mass: 1i8, time: 0i8, temperature: 0i8, data: 0i8 },
            symbol: "g"@,
            aliases: seq!["g"@, "gram"@, "grams"@],
        }
} else if i == 26 {
        UnitSpec {
            factor: Dec { neg: false, mag: 1u128, scale: 6 },
            offset: Dec { neg: false, mag: 0u128, scale: 0 },
            dimensions: Dimensions { length: 0i8, mass: 1i8, time: 0i8, temperature: 0i8, data: 0i8 },
            symbol: "mg"@,
            aliases: seq!["mg"@, "milligram"@, "milligrams"@],
        }
} else if i == 27 {
        UnitSpec {
            factor: Dec { neg: false, mag: 45359237u128, scale: 8 },
            offset: Dec { neg: false, mag: 0u128, scale: 0 },
            dimensions: Dimensions { length: 0i8, mass: 1i8, time: 0i8, temperature: 0i8, data: 0i8 },
            symbol: "lb"@,
            aliases: seq!["lb"@, "lbs"@, "pound"@, "pounds"@],
        }
} else if i == 28 {
        UnitSpec {
            factor: Dec { neg: false, mag: 283495u128, scale: 7 },
            offset: Dec { neg: false, mag: 0u128, scale: 0 },
            dimensions: Dimensions { length: 0i8, mass: 1i8, time: 0i8, temperature: 0i8, data: 0i8 },
            symbol: "oz"@,
            aliases: seq!["oz"@, "ounce"@, "ounces"@],
        }
} else if i == 29 {
        UnitSpec {
            factor: Dec { neg: false, mag: 31557600u128, scale: 0 },
            offset: Dec { neg: false, mag: 0u128, scale: 0 },
            dimensions: Dimensions { length: 0i8, mass: 0i8, time: 1i8, temperature: 0i8, data: 0i8 },
            symbol: "yr"@,
            aliases: seq!["yr"@, "year"@, "years"@],
        }
} else if i == 30 {
        UnitSpec {
            factor: Dec { neg: false, mag: 2629746u128, scale: 0 },
            offset: Dec { neg: false, mag: 0u128, scale: 0 },
            dimensions: Dimensions { length: 0i8, mass: 0i8, time: 1i8, temperature: 0i8, data: 0i8 },
            symbol: "mo"@,
            aliases: seq!["mo"@, "month"@, "months"@],
        }
} else if i == 31 {
        UnitSpec {
            factor: Dec { neg: false, mag: 604800u128, scale: 0 },
            offset: Dec { neg: false, mag: 0u128, scale: 0 },
            dimensions: Dimensions { length: 0i8, mass: 0i8, time: 1i8, temperature: 0i8, data: 0i8 },
            symbol: "wk"@,
            aliases: seq!["wk"@, "week"@, "weeks"@],
        }
} else if i == 32 {
        UnitSpec {
            factor: Dec { neg: false, mag: 86400u128, scale: 0 },
            offset: Dec { neg: false, mag: 0u128, scale: 0 },
            dimensions: Dimensions { length: 0i8, mass: 0i8, time: 1i8, temperature: 0i8, data: 0i8 },
            symbol: "d"@,
            aliases: seq!["d"@, "day"@, "days"@],
        }
} else if i == 33 {
        UnitSpec {
            factor: Dec { neg: false, mag: 3600u128, scale: 0 },
            offset: Dec { neg: false, mag: 0u128, scale: 0 },
            dimensions: Dimensions { length: 0i8, mass: 0i8, time: 1i8, temperature: 0i8, data: 0i8 },
            symbol: "h"@,
            aliases: seq!["h"@, "hr"@, "hour"@, "hours"@],
        }
} else if i == 34 {
        UnitSpec {
            factor: Dec { neg: false, mag: 60u128, scale: 0 },
            offset: Dec { neg: false, mag: 0u128, scale: 0 },
            dimensions: Dimensions { length: 0i8, mass: 0i8, time: 1i8, temperature: 0i8, data: 0i8 },
            symbol: "min"@,
            aliases: seq!["min"@, "minute"@, "minutes"@],
        }
} else if i == 35 {
        UnitSpec {
            factor: Dec { neg: false, mag: 1u128, scale: 0 },
            offset: Dec { neg: false, mag: 0u128, scale: 0 },
            dimensions: Dimensions { length: 0i8, mass: 0i8, time: 1i8, temperature: 0i8, data: 0i8 },
            symbol: "s"@,
            aliases: seq!["s"@, "sec"@, "second"@, "seconds"@],
        }
} else if i == 36 {
        UnitSpec {
            factor: Dec { neg: false, mag: 1u128, scale: 3 },
            offset: Dec { neg: false, mag: 0u128, scale: 0 },
            dimensions: Dimensions { length: 0i8, mass: 0i8, time: 1i8, temperature: 0i8, data: 0i8 },
            symbol: "ms"@,
            aliases: seq!["ms"@, "millisecond"@, "milliseconds"@],
        }
} else if i == 37 {
        UnitSpec {
            factor: Dec { neg: false, mag: 1u128, scale: 0 },
            offset: Dec { neg: false, mag: 0u128, scale: 0 },
            dimensions: Dimensions { length: 1i8, mass: 0i8, time: -1i8, temperature: 0i8, data: 0i8 },
            symbol: "m/s"@,
            aliases: seq!["m/s"@, "mps"@],
        }
} else if i == 38 {
        UnitSpec {
            factor: Dec { neg: false, mag: 277778u128, scale: 6 },
            offset: Dec { neg: false, mag: 0u128, scale: 0 },
            dimensions: Dimensions { length: 1i8, mass: 0i8, time: -1i8, temperature: 0i8, data: 0i8 },
            symbol: "km/h"@,
            aliases: seq!["km/h"@, "kph"@, "kmh"@],
        }
} else if i == 39 {
        UnitSpec {
            factor: Dec { neg: false, mag: 44704u128, scale: 5 },
            offset: Dec { neg: false, mag: 0u128, scale: 0 },
            dimensions: Dimensions { length: 1i8, mass: 0i8, time: -1i8, temperature: 0i8, data: 0i8 },
            symbol: "mph"@,
            aliases: seq!["mph"@],
        }
} else if i == 40 {
        UnitSpec {
            factor: Dec { neg: false, mag: 514444u128, scale: 6 },
            offset: Dec { neg: false, mag: 0u128, scale: 0 },
            dimensions: Dimensions { length: 1i8, mass: 0i8, time: -1i8, temperature: 0i8, data: 0i8 },
            symbol: "knot"@,
            aliases: seq!["knot"@, "knots"@, "kn"@],
        }
} else if i == 41 {
        UnitSpec {
            factor: Dec { neg: false, mag: 1u128, scale: 0 },
            offset: Dec { neg: false, mag: 0u128, scale: 0 },
            dimensions: Dimensions { length: 0i8, mass: 0i8, time: 0i8, temperature: 1i8, data: 0i8 },
            symbol: "°C"@,
            aliases: seq!["c"@, "C"@, "celsius"@, "°c"@, "°C"@],
        }
} else if i == 42 {
        UnitSpec {
            factor: Dec { neg: false, mag: 5555555555555555555555555556u128, scale: 28 },
            offset: Dec { neg: true, mag: 32u128, scale: 0 },
            dimensions: Dimensions { length: 0i8, mass: 0i8, time: 0i8, temperature: 1i8, data: 0i8 },
            symbol: "°F"@,
            aliases: seq!["f"@, "F"@, "fahrenheit"@, "°f"@, "°F"@],
        }
} else if i == 43 {
        UnitSpec {
            factor: Dec { neg: false, mag: 1u128, scale: 0 },
            offset: Dec { neg: true, mag: 27315u128, scale: 2 },
            dimensions: Dimensions { length: 0i8, mass: 0i8, time: 0i8, temperature: 1i8, data: 0i8 },
            symbol: "K"@,
            aliases: seq!["k"@, "K"@, "kelvin"@],
        }
} else if i == 44 {
        UnitSpec {
            factor: Dec { neg: false, mag: 1099511627776u128, scale: 0 },
            offset: Dec { neg: false, mag: 0u128, scale: 0 },
            dimensions: Dimensions { length: 0i8, mass: 0i8, time: 0i8, temperature: 0i8, data: 1i8 },
            symbol: "TB"@,
            aliases: seq!["tb"@, "TB"@, "terabyte"@, "terabytes"@],
        }
} else if i == 45 {
        UnitSpec {
            factor: Dec { neg: false, mag: 1073741824u128, scale: 0 },
            offset: Dec { neg: false, mag: 0u128, scale: 0 },
            dimensions: Dimensions { length: 0i8, mass: 0i8, time: 0i8, temperature: 0i8, data: 1i8 },
            symbol: "GB"@,
            aliases: seq!["gb"@, "GB"@, "gigabyte"@, "gigabytes"@],
        }
} else if i == 46 {
        UnitSpec {
            factor: Dec { neg: false, mag: 1048576u128, scale: 0 },
            offset: Dec { neg: false, mag: 0u128, scale: 0 },
            dimensions: Dimensions { length: 0i8, mass: 0i8, time: 0i8, temperature: 0i8, data: 1i8 },
            symbol: "MB"@,
            aliases: seq!["mb"@, "MB"@, "megabyte"@, "megabytes"@],
        }
} else if i == 47 {
        UnitSpec {
            factor: Dec { neg: false, mag: 1024u128, scale: 0 },
            offset: Dec { neg: false, mag: 0u128, scale: 0 },
            dimensions: Dimensions { length: 0i8, mass: 0i8, time: 0i8, temperature: 0i8, data: 1i8 },
            symbol: "KB"@,
            aliases: seq!["kb"@, "KB"@, "kilobyte"@, "kilobytes"@],
        }
} else if i == 48 {
        UnitSpec {
            factor: Dec { neg: false, mag: 1u128, scale: 0 },
            offset: Dec { neg: false, mag: 0u128, scale: 0 },
            dimensions: Dimensions { length: 0i8, mass: 0i8, time: 0i8, temperature: 0i8, data: 1i8 },
            symbol: "B"@,
            aliases: seq!["b"@, "B"@, "byte"@, "bytes"@],
        }
} else if i == 49 {
        UnitSpec {
            factor: Dec { neg: false, mag: 125u128, scale: 3 },
            offset: Dec { neg: false, mag: 0u128, scale: 0 },
            dimensions: Dimensions { length: 0i8, mass: 0i8, time: 0i8, temperature: 0i8, data: 1i8 },
            symbol: "bit"@,
            aliases: seq!["bit"@, "bits"@],
        }
} else if i == 50 {
        UnitSpec {
            factor: Dec { neg: false, mag: 1u128, scale: 0 },
            offset: Dec { neg: false, mag: 0u128, scale: 0 },
            dimensions: Dimensions { length: 1i8, mass: 1i8, time: -2i8, temperature: 0i8, data: 0i8 },
            symbol: "N"@,
            aliases: seq!["n"@, "N"@, "newton"@, "newtons"@],
        }
} else if i == 51 {
        UnitSpec {
            factor: Dec { neg: false, mag: 444822u128, scale: 5 },
            offset: Dec { neg: false, mag: 0u128, scale: 0 },
            dimensions: Dimensions { length: 1i8, mass: 1i8, time: -2i8, temperature: 0i8, data: 0i8 },
            symbol: "lbf"@,
            aliases: seq!["lbf"@, "pound-force"@],
        }
} else if i == 52 {
        UnitSpec {
            factor: Dec { neg: false, mag: 1u128, scale: 0 },
            offset: Dec { neg: false, mag: 0u128, scale: 0 },
            dimensions: Dimensions { length: 2i8, mass: 1i8, time: -2i8, temperature: 0i8, data: 0i8 },
            symbol: "J"@,
            aliases: seq!["j"@, "J"@, "joule"@, "joules"@],
        }
} else if i == 53 {
        UnitSpec {
            factor: Dec { neg: false, mag: 1000u128, scale: 0 },
            offset: Dec { neg: false, mag: 0u128, scale: 0 },
            dimensions: Dimensions { length: 2i8, mass: 1i8, time: -2i8, temperature: 0i8, data: 0i8 },
            symbol: "kJ"@,
            aliases: seq!["kj"@, "kJ"@, "kilojoule"@, "kilojoules"@],
        }
} else if i == 54 {
        UnitSpec {
            factor: Dec { neg: false, mag: 4184u128, scale: 3 },
            offset: Dec { neg: false, mag: 0u128, scale: 0 },
            dimensions: Dimensions { length: 2i8, mass: 1i8, time: -2i8, temperature: 0i8, data: 0i8 },
            symbol: "cal"@,
            aliases: seq!["cal"@, "calorie"@, "calories"@],
        }
} else if i == 55 {
        UnitSpec {
            factor: Dec { neg: false, mag: 4184u128, scale: 0 },
            offset: Dec { neg: false, mag: 0u128, scale: 0 },
            dimensions: Dimensions { length: 2i8, mass: 1i8, time: -2i8, temperature: 0i8, data: 0i8 },
            symbol: "kcal"@,
            aliases: seq!["kcal"@, "kilocalorie"@, "kilocalories"@],
        }
} else if i == 56 {
        UnitSpec {
            factor: Dec { neg: false, mag: 3600000u128, scale: 0 },
            offset: Dec { neg: false, mag: 0u128, scale: 0 },
            dimensions: Dimensions { length: 2i8, mass: 1i8, time: -2i8, temperature: 0i8, data: 0i8 },
            symbol: "kWh"@,
            aliases: seq!["kwh"@, "kWh"@, "kilowatt-hour"@],
        }
} else if i == 57 {
        UnitSpec {
            factor: Dec { neg: false, mag: 3600u128, scale: 0 },
            offset: Dec { neg: false, mag: 0u128, scale: 0 },
            dimensions: Dimensions { length: 2i8, mass: 1i8, time: -2i8, temperature: 0i8, data: 0i8 },
            symbol: "Wh"@,
            aliases: seq!["wh"@, "Wh"@, "watt-hour"@],
        }
} else if i == 58 {
        UnitSpec {
            factor: Dec { neg: false, mag: 1u128, scale: 0 },
            offset: Dec { neg: false, mag: 0u128, scale: 0 },
            dimensions: Dimensions { length: 2i8, mass: 1i8, time: -3i8, temperature: 0i8, data: 0i8 },
            symbol: "W"@,
            aliases: seq!["w"@, "W"@, "watt"@, "watts"@],
        }
} else if i == 59 {
        UnitSpec {
            factor: Dec { neg: false, mag: 1000u128, scale: 0 },
            offset: Dec { neg: false, mag: 0u128, scale: 0 },
            dimensions: Dimensions { length: 2i8, mass: 1i8, time: -3i8, temperature: 0i8, data: 0i8 },
            symbol: "kW"@,
            aliases: seq!["kw"@, "kW"@, "kilowatt"@, "kilowatts"@],
        }
} else if i == 60 {
        UnitSpec {
            factor: Dec { neg: false, mag: 1000000u128, scale: 0 },
            offset: Dec { neg: false, mag: 0u128, scale: 0 },
            dimensions: Dimensions { length: 2i8, mass: 1i8, time: -3i8, temperature: 0i8, data: 0i8 },
            symbol: "MW"@,
            aliases: seq!["mw"@, "MW"@, "megawatt"@, "megawatts"@],
        }
} else if i == 61 {
        UnitSpec {
            factor: Dec { neg: false, mag: 7457u128, scale: 1 },
            offset: Dec { neg: false, mag: 0u128, scale: 0 },
            dimensions: Dimensions { length: 2i8, mass: 1i8, time: -3i8, temperature: 0i8, data: 0i8 },
            symbol: "hp"@,
            aliases: seq!["hp"@, "horsepower"@],
        }
} else if i == 62 {
        UnitSpec {
            factor: Dec { neg: false, mag: 1u128, scale: 0 },
            offset: Dec { neg: false, mag: 0u128, scale: 0 },
            dimensions: Dimensions { length: -1i8, mass: 1i8, time: -2i8, temperature: 0i8, data: 0i8 },
            symbol: "Pa"@,
            aliases: seq!["pa"@, "Pa"@, "pascal"@, "pascals"@],
        }
} else if i == 63 {
        UnitSpec {
            factor: Dec { neg: false, mag: 1000u128, scale: 0 },
            offset: Dec { neg: false, mag: 0u128, scale: 0 },
            dimensions: Dimensions { length: -1i8, mass: 1i8, time: -2i8, temperature: 0i8, data: 0i8 },
            symbol: "kPa"@,
            aliases: seq!["kpa"@, "kPa"@, "kilopascal"@],
        }
} else if i == 64 {
        UnitSpec {
            factor: Dec { neg: false, mag: 100000u128, scale: 0 },
            offset: Dec { neg: false, mag: 0u128, scale: 0 },
            dimensions: Dimensions { length: -1i8, mass: 1i8, time: -2i8, temperature: 0i8, data: 0i8 },
            symbol: "bar"@,
            aliases: seq!["bar"@],
        }
} else if i == 65 {
        UnitSpec {
            factor: Dec { neg: false, mag: 689476u128, scale: 2 },
            offset: Dec { neg: false, mag: 0u128, scale: 0 },
            dimensions: Dimensions { length: -1i8, mass: 1i8, time: -2i8, temperature: 0i8, data: 0i8 },
            symbol: "psi"@,
            aliases: seq!["psi"@],
        }
} else if i == 66 {
        UnitSpec {
            factor: Dec { neg: false, mag: 101325u128, scale: 0 },
            offset: Dec { neg: false, mag: 0u128, scale: 0 },
            dimensions: Dimensions { length: -1i8, mass: 1i8, time: -2i8, temperature: 0i8, data: 0i8 },
            symbol: "atm"@,
            aliases: seq!["atm"@, "atmosphere"@],
        }
} else {
        UnitSpec {
            factor: Dec { neg: false, mag: 1u128, scale: 0 },
            offset: Dec { neg: false, mag: 0u128, scale: 0 },
            dimensions: Dimensions { length: 1i8, mass: 0i8, time: -2i8, temperature: 0i8, data: 0i8 },
            symbol: "m/s²"@,
            aliases: seq!["m/s2"@, "m/s²"@, "mps2"@],
        }
    }
}

fn push_str(v: &mut Vec<String>, s: &str)
    ensures
        final (v)@.len() == old(v)@.len() + 1,
        strs_view(final (v)@) == strs_view(old(v)@).push(s@),
{
    let owned = String::from_str(s);
    v.push(owned);
    proof {
        assert(strs_view(v@) =~= strs_view(old(v)@).push(s@));
    }
}

/// The registry entry at an index.
pub fn unit_at(i: usize) -> (r: RuntimeUnitDef)
    requires
        i < spec_unit_count(),
    ensures
        unit_def_matches(r, spec_unit(i as int)),
        r.factor.wf(),
        r.offset.wf(),
{
    let mut aliases: Vec<String> = Vec::new();
    if i == 0 {
        push_str(&mut aliases, "km");
        push_str(&mut aliases, "kilometer");
        push_str(&mut aliases, "kilometers");
        proof {
            assert(strs_view(aliases@) =~= spec_unit(i as int).aliases);
        }
        RuntimeUnitDef {
            factor: Dec { neg: false, mag: 1000u128, scale: 0 },
            offset: Dec { neg: false, mag: 0u128, scale: 0 },
            dimensions: Dimensions { length: 1i8, mass: 0i8, time: 0i8, temperature: 0i8, data: 0i8 },
            symbol: String::from_str("km"),
            aliases,
        }
    } else if i == 1 {
        push_str(&mut aliases, "m");
        push_str(&mut aliases, "meter");
        push_str(&mut aliases, "meters");
        proof {
            assert(strs_view(aliases@) =~= spec_unit(i as int).aliases);
        }
        RuntimeUnitDef {
            factor: Dec { neg: false, mag: 1u128, scale: 0 },
            offset: Dec { neg: false, mag: 0u128, scale: 0 },
            dimensions: Dimensions { length: 1i8, mass: 0i8, time: 0i8, temperature: 0i8, data: 0i8 },
            symbol: String::from_str("m"),
            aliases,
        }
    } else if i == 2 {
        push_str(&mut aliases, "cm");
        push_str(&mut aliases, "centimeter");
        push_str(&mut aliases, "centimeters");
        proof {
            assert(strs_view(aliases@) =~= spec_unit(i as int).aliases);
        }
        RuntimeUnitDef {
            factor: Dec { neg: false, mag: 1u128, scale: 2 },
            offset: Dec { neg: false, mag: 0u128, scale: 0 },
            dimensions: Dimensions { length: 1i8, mass: 0i8, time: 0i8, temperature: 0i8, data: 0i8 },
            symbol: String::from_str("cm"),
            aliases,
        }
    } else if i == 3 {
        push_str(&mut aliases, "mm");
        push_str(&mut aliases, "millimeter");
        push_str(&mut aliases, "millimeters");
        proof {
            assert(strs_view(aliases@) =~= spec_unit(i as int).aliases);
        }
        RuntimeUnitDef {
            factor: Dec { neg: false, mag: 1u128, scale: 3 },
            offset: Dec { neg: false, mag: 0u128, scale: 0 },
            dimensions: Dimensions { length: 1i8, mass: 0i8, time: 0i8, temperature: 0i8, data: 0i8 },
            symbol: String::from_str("mm"),
            aliases,
        }
    } else if i == 4 {
        push_str(&mut aliases, "mi");
        push_str(&mut aliases, "mile");
        push_str(&mut aliases, "miles");
        proof {
            assert(strs_view(aliases@) =~= spec_unit(i as int).aliases);
        }
        RuntimeUnitDef {
            factor: Dec { neg: false, mag: 1609344u128, scale: 3 },
            offset: Dec { neg: false, mag: 0u128, scale: 0 },
            dimensions: Dimensions { length: 1i8, mass: 0i8, time: 0i8, temperature: 0i8, data: 0i8 },
            symbol: String::from_str("mi"),
            aliases,
        }
    } else if i == 5 {
        push_str(&mut aliases, "ft");
        push_str(&mut aliases, "foot");
        push_str(&mut aliases, "feet");
        proof {
            assert(strs_view(aliases@) =~= spec_unit(i as int).aliases);
        }
        RuntimeUnitDef {
            factor: Dec { neg: false, mag: 3048u128, scale: 4 },
            offset: Dec { neg: false, mag: 0u128, scale: 0 },
            dimensions: Dimensions { length: 1i8, mass: 0i8, time: 0i8, temperature: 0i8, data: 0i8 },
            symbol: String::from_str("ft"),
            aliases,
        }
    } else if i == 6 {
        push_str(&mut aliases, "in");
        push_str(&mut aliases, "inch");
        push_str(&mut aliases, "inches");
        proof {
            assert(strs_view(aliases@) =~= spec_unit(i as int).aliases);
        }
        RuntimeUnitDef {
            factor: Dec { neg: false, mag: 254u128, scale: 4 },
            offset: Dec { neg: false, mag: 0u128, scale: 0 },
            dimensions: Dimensions { length: 1i8, mass: 0i8, time: 0i8, temperature: 0i8, data: 0i8 },
            symbol: String::from_str("in"),
            aliases,
        }
    } else if i == 7 {
        push_str(&mut aliases, "yd");
        push_str(&mut aliases, "yard");
        push_str(&mut aliases, "yards");
        proof {
            assert(strs_view(aliases@) =~= spec_unit(i as int).aliases);
        }
        RuntimeUnitDef {
            factor: Dec { neg: false, mag: 9144u128, scale: 4 },
            offset: Dec { neg: false, mag: 0u128, scale: 0 },
            dimensions: Dimensions { length: 1i8, mass: 0i8, time: 0i8, temperature: 0i8, data: 0i8 },
            symbol: String::from_str("yd"),
            aliases,
        }
    } else if i == 8 {
        push_str(&mut aliases, "nmi");
        push_str(&mut aliases, "nautical mile");
        push_str(&mut aliases, "nautical miles");
        proof {
            assert(strs_view(aliases@) =~= spec_unit(i as int).aliases);
        }
        RuntimeUnitDef {
            factor: Dec { neg: false, mag: 1852u128, scale: 0 },
            offset: Dec { neg: false, mag: 0u128, scale: 0 },
            dimensions: Dimensions { length: 1i8, mass: 0i8, time: 0i8, temperature: 0i8, data: 0i8 },
            symbol: String::from_str("nmi"),
            aliases,
        }
    } else if i == 9 {
        push_str(&mut aliases, "km2");
        push_str(&mut aliases, "km²");
        push_str(&mut aliases, "sq km");
        proof {
            assert(strs_view(aliases@) =~= spec_unit(i as int).aliases);
        }
        RuntimeUnitDef {
            factor: Dec { neg: false, mag: 1000000u128, scale: 0 },
            offset: Dec { neg: false, mag: 0u128, scale: 0 },
            dimensions: Dimensions { length: 2i8, mass: 0i8, time: 0i8, temperature: 0i8, data: 0i8 },
            symbol: String::from_str("km²"),
            aliases,
        }
    } else if i == 10 {
        push_str(&mut aliases, "m2");
        push_str(&mut aliases, "m²");
        push_str(&mut aliases, "sq m");
        proof {
            assert(strs_view(aliases@) =~= spec_unit(i as int).aliases);
        }
        RuntimeUnitDef {
            factor: Dec { neg: false, mag: 1u128, scale: 0 },
            offset: Dec { neg: false, mag: 0u128, scale: 0 },
            dimensions: Dimensions { length: 2i8, mass: 0i8, time: 0i8, temperature: 0i8, data: 0i8 },
            symbol: String::from_str("m²"),
            aliases,
        }
    } else if i == 11 {
        push_str(&mut aliases, "cm2");
        push_str(&mut aliases, "cm²");
        push_str(&mut aliases, "sq cm");
        proof {
            assert(strs_view(aliases@) =~= spec_unit(i as int).aliases);
        }
        RuntimeUnitDef {
            factor: Dec { neg: false, mag: 1u128, scale: 4 },
            offset: Dec { neg: false, mag: 0u128, scale: 0 },
            dimensions: Dimensions { length: 2i8, mass: 0i8, time: 0i8, temperature: 0i8, data: 0i8 },
            symbol: String::from_str("cm²"),
            aliases,
        }
    } else if i == 12 {
        push_str(&mut aliases, "ha");
        push_str(&mut aliases, "hectare");
        push_str(&mut aliases, "hectares");
        proof {
            assert(strs_view(aliases@) =~= spec_unit(i as int).aliases);
        }
        RuntimeUnitDef {
            factor: Dec { neg: false, mag: 10000u128, scale: 0 },
            offset: Dec { neg: false, mag: 0u128, scale: 0 },
            dimensions: Dimensions { length: 2i8, mass: 0i8, time: 0i8, temperature: 0i8, data: 0i8 },
            symbol: String::from_str("ha"),
            aliases,
        }
    } else if i == 13 {
        push_str(&mut aliases, "acre");
        push_str(&mut aliases, "acres");
        proof {
            assert(strs_view(aliases@) =~= spec_unit(i as int).aliases);
        }
        RuntimeUnitDef {
            factor: Dec { neg: false, mag: 40468564224u128, scale: 7 },
            offset: Dec { neg: false, mag: 0u128, scale: 0 },
            dimensions: Dimensions { length: 2i8, mass: 0i8, time: 0i8, temperature: 0i8, data: 0i8 },
            symbol: String::from_str("acre"),
            aliases,
        }
    } else if i == 14 {
        push_str(&mut aliases, "ft2");
        push_str(&mut aliases, "ft²");
        push_str(&mut aliases, "sq ft");
        proof {
            assert(strs_view(aliases@) =~= spec_unit(i as int).aliases);
        }
        RuntimeUnitDef {
            factor: Dec { neg: false, mag: 9290304u128, scale: 8 },
            offset: Dec { neg: false, mag: 0u128, scale: 0 },
            dimensions: Dimensions { length: 2i8, mass: 0i8, time: 0i8, temperature: 0i8, data: 0i8 },
            symbol: String::from_str("ft²"),
            aliases,
        }
    } else if i == 15 {
        push_str(&mut aliases, "m3");
        push_str(&mut aliases, "m³");
        push_str(&mut aliases, "cubic meter");
        proof {
            assert(strs_view(aliases@) =~= spec_unit(i as int).aliases);
        }
        RuntimeUnitDef {
            factor: Dec { neg: false, mag: 1u128, scale: 0 },
            offset: Dec { neg: false, mag: 0u128, scale: 0 },
            dimensions: Dimensions { length: 3i8, mass: 0i8, time: 0i8, temperature: 0i8, data: 0i8 },
            symbol: String::from_str("m³"),
            aliases,
        }
    } else if i == 16 {
        push_str(&mut aliases, "l");
        push_str(&mut aliases, "L");
        push_str(&mut aliases, "liter");
        push_str(&mut aliases, "liters");
        push_str(&mut aliases, "litre");
        push_str(&mut aliases, "litres");
        proof {
            assert(strs_view(aliases@) =~= spec_unit(i as int).aliases);
        }
        RuntimeUnitDef {
            factor: Dec { neg: false, mag: 1u128, scale: 3 },
            offset: Dec { neg: false, mag: 0u128, scale: 0 },
            dimensions: Dimensions { length: 3i8, mass: 0i8, time: 0i8, temperature: 0i8, data: 0i8 },
            symbol: String::from_str("L"),
            aliases,
        }
    } else if i == 17 {
        push_str(&mut aliases, "ml");
        push_str(&mut aliases, "mL");
        push_str(&mut aliases, "milliliter");
        push_str(&mut aliases, "milliliters");
        proof {
            assert(strs_view(aliases@) =~= spec_unit(i as int).aliases);
        }
        RuntimeUnitDef {
            factor: Dec { neg: false, mag: 1u128, scale: 6 },
            offset: Dec { neg: false, mag: 0u128, scale: 0 },
            dimensions: Dimensions { length: 3i8, mass: 0i8, time: 0i8, temperature: 0i8, data: 0i8 },
            symbol: String::from_str("mL"),
            aliases,
        }
    } else if i == 18 {
        push_str(&mut aliases, "gal");
        push_str(&mut aliases, "gallon");
        push_str(&mut aliases, "gallons");
        proof {
            assert(strs_view(aliases@) =~= spec_unit(i as int).aliases);
        }
        RuntimeUnitDef {
            factor: Dec { neg: false, mag: 378541u128, scale: 8 },
            offset: Dec { neg: false, mag: 0u128, scale: 0 },
            dimensions: Dimensions { length: 3i8, mass: 0i8, time: 0i8, temperature: 0i8, data: 0i8 },
            symbol: String::from_str("gal"),
            aliases,
        }
    } else if i == 19 {
        push_str(&mut aliases, "qt");
        push_str(&mut aliases, "quart");
        push_str(&mut aliases, "quarts");
        proof {
            assert(strs_view(aliases@) =~= spec_unit(i as int).aliases);
        }
        RuntimeUnitDef {
            factor: Dec { neg: false, mag: 946353u128, scale: 9 },
            offset: Dec { neg: false, mag: 0u128, scale: 0 },
            dimensions: Dimensions { length: 3i8, mass: 0i8, time: 0i8, temperature: 0i8, data: 0i8 },
            symbol: String::from_str("qt"),
            aliases,
        }
    } else if i == 20 {
        push_str(&mut aliases, "pt");
        push_str(&mut aliases, "pint");
        push_str(&mut aliases, "pints");
        proof {
            assert(strs_view(aliases@) =~= spec_unit(i as int).aliases);
        }
        RuntimeUnitDef {
            factor: Dec { neg: false, mag: 473176u128, scale: 9 },
            offset: Dec { neg: false, mag: 0u128, scale: 0 },
            dimensions: Dimensions { length: 3i8, mass: 0i8, time: 0i8, temperature: 0i8, data: 0i8 },
            symbol: String::from_str("pt"),
            aliases,
        }
    } else if i == 21 {
        push_str(&mut aliases, "cup");
        push_str(&mut aliases, "cups");
        proof {
            assert(strs_view(aliases@) =~= spec_unit(i as int).aliases);
        }
        RuntimeUnitDef {
            factor: Dec { neg: false, mag: 236588u128, scale: 9 },
            offset: Dec { neg: false, mag: 0u128, scale: 0 },
            dimensions: Dimensions { length: 3i8, mass: 0i8, time: 0i8, temperature: 0i8, data: 0i8 },
            symbol: String::from_str("cup"),
            aliases,
        }
    } else if i == 22 {
        push_str(&mut aliases, "fl oz");
        push_str(&mut aliases, "floz");
        push_str(&mut aliases, "fluid ounce");
        proof {
            assert(strs_view(aliases@) =~= spec_unit(i as int).aliases);
        }
        RuntimeUnitDef {
            factor: Dec { neg: false, mag: 295735u128, scale: 10 },
            offset: Dec { neg: false, mag: 0u128, scale: 0 },
            dimensions: Dimensions { length: 3i8, mass: 0i8, time: 0i8, temperature: 0i8, data: 0i8 },
            symbol: String::from_str("fl oz"),
            aliases,
        }
    } else if i == 23 {
        push_str(&mut aliases, "t");
        push_str(&mut aliases, "ton");
        push_str(&mut aliases, "tons");
        push_str(&mut aliases, "tonne");
        push_str(&mut aliases, "tonnes");
        proof {
            assert(strs_view(aliases@) =~= spec_unit(i as int).aliases);
        }
        RuntimeUnitDef {
            factor: Dec { neg: false, mag: 1000u128, scale: 0 },
            offset: Dec { neg: false, mag: 0u128, scale: 0 },
            dimensions: Dimensions { length: 0i8, mass: 1i8, time: 0i8, temperature: 0i8, data: 0i8 },
            symbol: String::from_str("t"),
            aliases,
        }
    } else if i == 24 {
        push_str(&mut aliases, "kg");
        push_str(&mut aliases, "kilogram");
        push_str(&mut aliases, "kilograms");
        proof {
            assert(strs_view(aliases@) =~= spec_unit(i as int).aliases);
        }
        RuntimeUnitDef {
            factor: Dec { neg: false, mag: 1u128, scale: 0 },
            offset: Dec { neg: false, mag: 0u128, scale: 0 },
            dimensions: Dimensions { length: 0i8, mass: 1i8, time: 0i8, temperature: 0i8, data: 0i8 },
            symbol: String::from_str("kg"),
            aliases,
        }
    } else if i == 25 {
        push_str(&mut aliases, "g");
        push_str(&mut aliases, "gram");
        push_str(&mut aliases, "grams");
        proof {
            assert(strs_view(aliases@) =~= spec_unit(i as int).aliases);
        }
        RuntimeUnitDef {
            factor: Dec { neg: false, mag: 1u128, scale: 3 },
            offset: Dec { neg: false, mag: 0u128, scale: 0 },
            dimensions: Dimensions { length: 0i8, mass: 1i8, time: 0i8, temperature: 0i8, data: 0i8 },
            symbol: String::from_str("g"),
            aliases,
        }
    } else if i == 26 {
        push_str(&mut aliases, "mg");
        push_str(&mut aliases, "milligram");
        push_str(&mut aliases, "milligrams");
        proof {
            assert(strs_view(aliases@) =~= spec_unit(i as int).aliases);
        }
        RuntimeUnitDef {
            factor: Dec { neg: false, mag: 1u128, scale: 6 },
            offset: Dec { neg: false, mag: 0u128, scale: 0 },
            dimensions: Dimensions { length: 0i8, mass: 1i8, time: 0i8, temperature: 0i8, data: 0i8 },
            symbol: String::from_str("mg"),
            aliases,
        }
    } else if i == 27 {
        push_str(&mut aliases, "lb");
        push_str(&mut aliases, "lbs");
        push_str(&mut aliases, "pound");
        push_str(&mut aliases, "pounds");
        proof {
            assert(strs_view(aliases@) =~= spec_unit(i as int).aliases);
        }
        RuntimeUnitDef {
            factor: Dec { neg: false, mag: 45359237u128, scale: 8 },
            offset: Dec { neg: false, mag: 0u128, scale: 0 },
            dimensions: Dimensions { length: 0i8, mass: 1i8, time: 0i8, temperature: 0i8, data: 0i8 },
            symbol: String::from_str("lb"),
            aliases,
        }
    } else if i == 28 {
        push_str(&mut aliases, "oz");
        push_str(&mut aliases, "ounce");
        push_str(&mut aliases, "ounces");
        proof {
            assert(strs_view(aliases@) =~= spec_unit(i as int).aliases);
        }
        RuntimeUnitDef {
            factor: Dec { neg: false, mag: 283495u128, scale: 7 },
            offset: Dec { neg: false, mag: 0u128, scale: 0 },
            dimensions: Dimensions { length: 0i8, mass: 1i8, time: 0i8, temperature: 0i8, data: 0i8 },
            symbol: String::from_str("oz"),
            aliases,
        }
    } else if i == 29 {
        push_str(&mut aliases, "yr");
        push_str(&mut aliases, "year");
        push_str(&mut aliases, "years");
        proof {
            assert(strs_view(aliases@) =~= spec_unit(i as int).aliases);
        }
        RuntimeUnitDef {
            factor: Dec { neg: false, mag: 31557600u128, scale: 0 },
            offset: Dec { neg: false, mag: 0u128, scale: 0 },
            dimensions: Dimensions { length: 0i8, mass: 0i8, time: 1i8, temperature: 0i8, data: 0i8 },
            symbol: String::from_str("yr"),
            aliases,
        }
    } else if i == 30 {
        push_str(&mut aliases, "mo");
        push_str(&mut aliases, "month");
        push_str(&mut aliases, "months");
        proof {
            assert(strs_view(aliases@) =~= spec_unit(i as int).aliases);
        }
        RuntimeUnitDef {
            factor: Dec { neg: false, mag: 2629746u128, scale: 0 },
            offset: Dec { neg: false, mag: 0u128, scale: 0 },
            dimensions: Dimensions { length: 0i8, mass: 0i8, time: 1i8, temperature: 0i8, data: 0i8 },
            symbol: String::from_str("mo"),
            aliases,
        }
    } else if i == 31 {
        push_str(&mut aliases, "wk");
        push_str(&mut aliases, "week");
        push_str(&mut aliases, "weeks");
        proof {
            assert(strs_view(aliases@) =~= spec_unit(i as int).aliases);
        }
        RuntimeUnitDef {
            factor: Dec { neg: false, mag: 604800u128, scale: 0 },
            offset: Dec { neg: false, mag: 0u128, scale: 0 },
            dimensions: Dimensions { length: 0i8, mass: 0i8, time: 1i8, temperature: 0i8, data: 0i8 },
            symbol: String::from_str("wk"),
            aliases,
        }
    } else if i == 32 {
        push_str(&mut aliases, "d");
        push_str(&mut aliases, "day");
        push_str(&mut aliases, "days");
        proof {
            assert(strs_view(aliases@) =~= spec_unit(i as int).aliases);
        }
        RuntimeUnitDef {
            factor: Dec { neg: false, mag: 86400u128, scale: 0 },
            offset: Dec { neg: false, mag: 0u128, scale: 0 },
            dimensions: Dimensions { length: 0i8, mass: 0i8, time: 1i8, temperature: 0i8, data: 0i8 },
            symbol: String::from_str("d"),
            aliases,
        }
    } else if i == 33 {
        push_str(&mut aliases, "h");
        push_str(&mut aliases, "hr");
        push_str(&mut aliases, "hour");
        push_str(&mut aliases, "hours");
        proof {
            assert(strs_view(aliases@) =~= spec_unit(i as int).aliases);
        }
        RuntimeUnitDef {
            factor: Dec { neg: false, mag: 3600u128, scale: 0 },
            offset: Dec { neg: false, mag: 0u128, scale: 0 },
            dimensions: Dimensions { length: 0i8, mass: 0i8, time: 1i8, temperature: 0i8, data: 0i8 },
            symbol: String::from_str("h"),
            aliases,
        }
    } else if i == 34 {
        push_str(&mut aliases, "min");
        push_str(&mut aliases, "minute");
        push_str(&mut aliases, "minutes");
        proof {
            assert(strs_view(aliases@) =~= spec_unit(i as int).aliases);
        }
        RuntimeUnitDef {
            factor: Dec { neg: false, mag: 60u128, scale: 0 },
            offset: Dec { neg: false, mag: 0u128, scale: 0 },
            dimensions: Dimensions { length: 0i8, mass: 0i8, time: 1i8, temperature: 0i8, data: 0i8 },
            symbol: String::from_str("min"),
            aliases,
        }
    } else if i == 35 {
        push_str(&mut aliases, "s");
        push_str(&mut aliases, "sec");
        push_str(&mut aliases, "second");
        push_str(&mut aliases, "seconds");
        proof {
            assert(strs_view(aliases@) =~= spec_unit(i as int).aliases);
        }
        RuntimeUnitDef {
            factor: Dec { neg: false, mag: 1u128, scale: 0 },
            offset: Dec { neg: false, mag: 0u128, scale: 0 },
            dimensions: Dimensions { length: 0i8, mass: 0i8, time: 1i8, temperature: 0i8, data: 0i8 },
            symbol: String::from_str("s"),
            aliases,
        }
    } else if i == 36 {
        push_str(&mut aliases, "ms");
        push_str(&mut aliases, "millisecond");
        push_str(&mut aliases, "milliseconds");
        proof {
            assert(strs_view(aliases@) =~= spec_unit(i as int).aliases);
        }
        RuntimeUnitDef {
            factor: Dec { neg: false, mag: 1u128, scale: 3 },
            offset: Dec { neg: false, mag: 0u128, scale: 0 },
            dimensions: Dimensions { length: 0i8, mass: 0i8, time: 1i8, temperature: 0i8, data: 0i8 },
            symbol: String::from_str("ms"),
            aliases,
        }
    } else if i == 37 {
        push_str(&mut aliases, "m/s");
        push_str(&mut aliases, "mps");
        proof {
            assert(strs_view(aliases@) =~= spec_unit(i as int).aliases);
        }
        RuntimeUnitDef {
            factor: Dec { neg: false, mag: 1u128, scale: 0 },
            offset: Dec { neg: false, mag: 0u128, scale: 0 },
            dimensions: Dimensions { length: 1i8, mass: 0i8, time: -1i8, temperature: 0i8, data: 0i8 },
            symbol: String::from_str("m/s"),
            aliases,
        }
    } else if i == 38 {
        push_str(&mut aliases, "km/h");
        push_str(&mut aliases, "kph");
        push_str(&mut aliases, "kmh");
        proof {
            assert(strs_view(aliases@) =~= spec_unit(i as int).aliases);
        }
        RuntimeUnitDef {
            factor: Dec { neg: false, mag: 277778u128, scale: 6 },
            offset: Dec { neg: false, mag: 0u128, scale: 0 },
            dimensions: Dimensions { length: 1i8, mass: 0i8, time: -1i8, temperature: 0i8, data: 0i8 },
            symbol: String::from_str("km/h"),
            aliases,
        }
    } else if i == 39 {
        push_str(&mut aliases, "mph");
        proof {
            assert(strs_view(aliases@) =~= spec_unit(i as int).aliases);
        }
        RuntimeUnitDef {
            factor: Dec { neg: false, mag: 44704u128, scale: 5 },
            offset: Dec { neg: false, mag: 0u128, scale: 0 },
            dimensions: Dimensions { length: 1i8, mass: 0i8, time: -1i8, temperature: 0i8, data: 0i8 },
            symbol: String::from_str("mph"),
            aliases,
        }
    } else if i == 40 {
        push_str(&mut aliases, "knot");
        push_str(&mut aliases, "knots");
        push_str(&mut aliases, "kn");
        proof {
            assert(strs_view(aliases@) =~= spec_unit(i as int).aliases);
        }
        RuntimeUnitDef {
            factor: Dec { neg: false, mag: 514444u128, scale: 6 },
            offset: Dec { neg: false, mag: 0u128, scale: 0 },
            dimensions: Dimensions { length: 1i8, mass: 0i8, time: -1i8, temperature: 0i8, data: 0i8 },
            symbol: String::from_str("knot"),
            aliases,
        }
    } else if i == 41 {
        push_str(&mut aliases, "c");
        push_str(&mut aliases, "C");
        push_str(&mut aliases, "celsius");
        push_str(&mut aliases, "°c");
        push_str(&mut aliases, "°C");
        proof {
            assert(strs_view(aliases@) =~= spec_unit(i as int).aliases);
        }
        RuntimeUnitDef {
            factor: Dec { neg: false, mag: 1u128, scale: 0 },
            offset: Dec { neg: false, mag: 0u128, scale: 0 },
            dimensions: Dimensions { length: 0i8, mass: 0i8, time: 0i8, temperature: 1i8, data: 0i8 },
            symbol: String::from_str("°C"),
            aliases,
        }
    } else if i == 42 {
        push_str(&mut aliases, "f");
        push_str(&mut aliases, "F");
        push_str(&mut aliases, "fahrenheit");
        push_str(&mut aliases, "°f");
        push_str(&mut aliases, "°F");
        proof {
            assert(strs_view(aliases@) =~= spec_unit(i as int).aliases);
        }
        RuntimeUnitDef {
            factor: Dec { neg: false, mag: 5555555555555555555555555556u128, scale: 28 },
            offset: Dec { neg: true, mag: 32u128, scale: 0 },
            dimensions: Dimensions { length: 0i8, mass: 0i8, time: 0i8, temperature: 1i8, data: 0i8 },
            symbol: String::from_str("°F"),
            aliases,
        }
    } else if i == 43 {
        push_str(&mut aliases, "k");
        push_str(&mut aliases, "K");
        push_str(&mut aliases, "kelvin");
        proof {
            assert(strs_view(aliases@) =~= spec_unit(i as int).aliases);
        }
        RuntimeUnitDef {
            factor: Dec { neg: false, mag: 1u128, scale: 0 },
            offset: Dec { neg: true, mag: 27315u128, scale: 2 },
            dimensions: Dimensions { length: 0i8, mass: 0i8, time: 0i8, temperature: 1i8, data: 0i8 },
            symbol: String::from_str("K"),
            aliases,
        }
    } else if i == 44 {
        push_str(&mut aliases, "tb");
        push_str(&mut aliases, "TB");
        push_str(&mut aliases, "terabyte");
        push_str(&mut aliases, "terabytes");
        proof {
            assert(strs_view(aliases@) =~= spec_unit(i as int).aliases);
        }
        RuntimeUnitDef {
            factor: Dec { neg: false, mag: 1099511627776u128, scale: 0 },
            offset: Dec { neg: false, mag: 0u128, scale: 0 },
            dimensions: Dimensions { length: 0i8, mass: 0i8, time: 0i8, temperature: 0i8, data: 1i8 },
            symbol: String::from_str("TB"),
            aliases,
        }
    } else if i == 45 {
        push_str(&mut aliases, "gb");
        push_str(&mut aliases, "GB");
        push_str(&mut aliases, "gigabyte");
        push_str(&mut aliases, "gigabytes");
        proof {
            assert(strs_view(aliases@) =~= spec_unit(i as int).aliases);
        }
        RuntimeUnitDef {
            factor: Dec { neg: false, mag: 1073741824u128, scale: 0 },
            offset: Dec { neg: false, mag: 0u128, scale: 0 },
            dimensions: Dimensions { length: 0i8, mass: 0i8, time: 0i8, temperature: 0i8, data: 1i8 },
            symbol: String::from_str("GB"),
            aliases,
        }
    } else if i == 46 {
        push_str(&mut aliases, "mb");
        push_str(&mut aliases, "MB");
        push_str(&mut aliases, "megabyte");
        push_str(&mut aliases, "megabytes");
        proof {
            assert(strs_view(aliases@) =~= spec_unit(i as int).aliases);
        }
        RuntimeUnitDef {
            factor: Dec { neg: false, mag: 1048576u128, scale: 0 },
            offset: Dec { neg: false, mag: 0u128, scale: 0 },
            dimensions: Dimensions { length: 0i8, mass: 0i8, time: 0i8, temperature: 0i8, data: 1i8 },
            symbol: String::from_str("MB"),
            aliases,
        }
    } else if i == 47 {
        push_str(&mut aliases, "kb");
        push_str(&mut aliases, "KB");
        push_str(&mut aliases, "kilobyte");
        push_str(&mut aliases, "kilobytes");
        proof {
            assert(strs_view(aliases@) =~= spec_unit(i as int).aliases);
        }
        RuntimeUnitDef {
            factor: Dec { neg: false, mag: 1024u128, scale: 0 },
            offset: Dec { neg: false, mag: 0u128, scale: 0 },
            dimensions: Dimensions { length: 0i8, mass: 0i8, time: 0i8, temperature: 0i8, data: 1i8 },
            symbol: String::from_str("KB"),
            aliases,
        }
    } else if i == 48 {
        push_str(&mut aliases, "b");
        push_str(&mut aliases, "B");
        push_str(&mut aliases, "byte");
        push_str(&mut aliases, "bytes");
        proof {
            assert(strs_view(aliases@) =~= spec_unit(i as int).aliases);
        }
        RuntimeUnitDef {
            factor: Dec { neg: false, mag: 1u128, scale: 0 },
            offset: Dec { neg: false, mag: 0u128, scale: 0 },
            dimensions: Dimensions { length: 0i8, mass: 0i8, time: 0i8, temperature: 0i8, data: 1i8 },
            symbol: String::from_str("B"),
            aliases,
        }
    } else if i == 49 {
        push_str(&mut aliases, "bit");
        push_str(&mut aliases, "bits");
        proof {
            assert(strs_view(aliases@) =~= spec_unit(i as int).aliases);
        }
        RuntimeUnitDef {
            factor: Dec { neg: false, mag: 125u128, scale: 3 },
            offset: Dec { neg: false, mag: 0u128, scale: 0 },
            dimensions: Dimensions { length: 0i8, mass: 0i8, time: 0i8, temperature: 0i8, data: 1i8 },
            symbol: String::from_str("bit"),
            aliases,
        }
    } else if i == 50 {
        push_str(&mut aliases, "n");
        push_str(&mut aliases, "N");
        push_str(&mut aliases, "newton");
        push_str(&mut aliases, "newtons");
        proof {
            assert(strs_view(aliases@) =~= spec_unit(i as int).aliases);
        }
        RuntimeUnitDef {
            factor: Dec { neg: false, mag: 1u128, scale: 0 },
            offset: Dec { neg: false, mag: 0u128, scale: 0 },
            dimensions: Dimensions { length: 1i8, mass: 1i8, time: -2i8, temperature: 0i8, data: 0i8 },
            symbol: String::from_str("N"),
            aliases,
        }
    } else if i == 51 {
        push_str(&mut aliases, "lbf");
        push_str(&mut aliases, "pound-force");
        proof {
            assert(strs_view(aliases@) =~= spec_unit(i as int).aliases);
        }
        RuntimeUnitDef {
            factor: Dec { neg: false, mag: 444822u128, scale: 5 },
            offset: Dec { neg: false, mag: 0u128, scale: 0 },
            dimensions: Dimensions { length: 1i8, mass: 1i8, time: -2i8, temperature: 0i8, data: 0i8 },
            symbol: String::from_str("lbf"),
            aliases,
        }
    } else if i == 52 {
        push_str(&mut aliases, "j");
        push_str(&mut aliases, "J");
        push_str(&mut aliases, "joule");
        push_str(&mut aliases, "joules");
        proof {
            assert(strs_view(aliases@) =~= spec_unit(i as int).aliases);
        }
        RuntimeUnitDef {
            factor: Dec { neg: false, mag: 1u128, scale: 0 },
            offset: Dec { neg: false, mag: 0u128, scale: 0 },
            dimensions: Dimensions { length: 2i8, mass: 1i8, time: -2i8, temperature: 0i8, data: 0i8 },
            symbol: String::from_str("J"),
            aliases,
        }
    } else if i == 53 {
        push_str(&mut aliases, "kj");
        push_str(&mut aliases, "kJ");
        push_str(&mut aliases, "kilojoule");
        push_str(&mut aliases, "kilojoules");
        proof {
            assert(strs_view(aliases@) =~= spec_unit(i as int).aliases);
        }
        RuntimeUnitDef {
            factor: Dec { neg: false, mag: 1000u128, scale: 0 },
            offset: Dec { neg: false, mag: 0u128, scale: 0 },
            dimensions: Dimensions { length: 2i8, mass: 1i8, time: -2i8, temperature: 0i8, data: 0i8 },
            symbol: String::from_str("kJ"),
            aliases,
        }
    } else if i == 54 {
        push_str(&mut aliases, "cal");
        push_str(&mut aliases, "calorie");
        push_str(&mut aliases, "calories");
        proof {
            assert(strs_view(aliases@) =~= spec_unit(i as int).aliases);
        }
        RuntimeUnitDef {
            factor: Dec { neg: false, mag: 4184u128, scale: 3 },
            offset: Dec { neg: false, mag: 0u128, scale: 0 },
            dimensions: Dimensions { length: 2i8, mass: 1i8, time: -2i8, temperature: 0i8, data: 0i8 },
            symbol: String::from_str("cal"),
            aliases,
        }
    } else if i == 55 {
        push_str(&mut aliases, "kcal");
        push_str(&mut aliases, "kilocalorie");
        push_str(&mut aliases, "kilocalories");
        proof {
            assert(strs_view(aliases@) =~= spec_unit(i as int).aliases);
        }
        RuntimeUnitDef {
            factor: Dec { neg: false, mag: 4184u128, scale: 0 },
            offset: Dec { neg: false, mag: 0u128, scale: 0 },
            dimensions: Dimensions { length: 2i8, mass: 1i8, time: -2i8, temperature: 0i8, data: 0i8 },
            symbol: String::from_str("kcal"),
            aliases,
        }
    } else if i == 56 {
        push_str(&mut aliases, "kwh");
        push_str(&mut aliases, "kWh");
        push_str(&mut aliases, "kilowatt-hour");
        proof {
            assert(strs_view(aliases@) =~= spec_unit(i as int).aliases);
        }
        RuntimeUnitDef {
            factor: Dec { neg: false, mag: 3600000u128, scale: 0 },
            offset: Dec { neg: false, mag: 0u128, scale: 0 },
            dimensions: Dimensions { length: 2i8, mass: 1i8, time: -2i8, temperature: 0i8, data: 0i8 },
            symbol: String::from_str("kWh"),
            aliases,
        }
    } else if i == 57 {
        push_str(&mut aliases, "wh");
        push_str(&mut aliases, "Wh");
        push_str(&mut aliases, "watt-hour");
        proof {
            assert(strs_view(aliases@) =~= spec_unit(i as int).aliases);
        }
        RuntimeUnitDef {
            factor: Dec { neg: false, mag: 3600u128, scale: 0 },
            offset: Dec { neg: false, mag: 0u128, scale: 0 },
            dimensions: Dimensions { length: 2i8, mass: 1i8, time: -2i8, temperature: 0i8, data: 0i8 },
            symbol: String::from_str("Wh"),
            aliases,
        }
    } else if i == 58 {
        push_str(&mut aliases, "w");
        push_str(&mut aliases, "W");
        push_str(&mut aliases, "watt");
        push_str(&mut aliases, "watts");
        proof {
            assert(strs_view(aliases@) =~= spec_unit(i as int).aliases);
        }
        RuntimeUnitDef {
            factor: Dec { neg: false, mag: 1u128, scale: 0 },
            offset: Dec { neg: false, mag: 0u128, scale: 0 },
            dimensions: Dimensions { length: 2i8, mass: 1i8, time: -3i8, temperature: 0i8, data: 0i8 },
            symbol: String::from_str("W"),
            aliases,
        }
    } else if i == 59 {
        push_str(&mut aliases, "kw");
        push_str(&mut aliases, "kW");
        push_str(&mut aliases, "kilowatt");
        push_str(&mut aliases, "kilowatts");
        proof {
            assert(strs_view(aliases@) =~= spec_unit(i as int).aliases);
        }
        RuntimeUnitDef {
            factor: Dec { neg: false, mag: 1000u128, scale: 0 },
            offset: Dec { neg: false, mag: 0u128, scale: 0 },
            dimensions: Dimensions { length: 2i8, mass: 1i8, time: -3i8, temperature: 0i8, data: 0i8 },
            symbol: String::from_str("kW"),
            aliases,
        }
    } else if i == 60 {
        push_str(&mut aliases, "mw");
        push_str(&mut aliases, "MW");
        push_str(&mut aliases, "megawatt");
        push_str(&mut aliases, "megawatts");
        proof {
            assert(strs_view(aliases@) =~= spec_unit(i as int).aliases);
        }
        RuntimeUnitDef {
            factor: Dec { neg: false, mag: 1000000u128, scale: 0 },
            offset: Dec { neg: false, mag: 0u128, scale: 0 },
            dimensions: Dimensions { length: 2i8, mass: 1i8, time: -3i8, temperature: 0i8, data: 0i8 },
            symbol: String::from_str("MW"),
            aliases,
        }
    } else if i == 61 {
        push_str(&mut aliases, "hp");
        push_str(&mut aliases, "horsepower");
        proof {
            assert(strs_view(aliases@) =~= spec_unit(i as int).aliases);
        }
        RuntimeUnitDef {
            factor: Dec { neg: false, mag: 7457u128, scale: 1 },
            offset: Dec { neg: false, mag: 0u128, scale: 0 },
            dimensions: Dimensions { length: 2i8, mass: 1i8, time: -3i8, temperature: 0i8, data: 0i8 },
            symbol: String::from_str("hp"),
            aliases,
        }
    } else if i == 62 {
        push_str(&mut aliases, "pa");
        push_str(&mut aliases, "Pa");
        push_str(&mut aliases, "pascal");
        push_str(&mut aliases, "pascals");
        proof {
            assert(strs_view(aliases@) =~= spec_unit(i as int).aliases);
        }
        RuntimeUnitDef {
            factor: Dec { neg: false, mag: 1u128, scale: 0 },
            offset: Dec { neg: false, mag: 0u128, scale: 0 },
            dimensions: Dimensions { length: -1i8, mass: 1i8, time: -2i8, temperature: 0i8, data: 0i8 },
            symbol: String::from_str("Pa"),
            aliases,
        }
    } else if i == 63 {
        push_str(&mut aliases, "kpa");
        push_str(&mut aliases, "kPa");
        push_str(&mut aliases, "kilopascal");
        proof {
            assert(strs_view(aliases@) =~= spec_unit(i as int).aliases);
        }
        RuntimeUnitDef {
            factor: Dec { neg: false, mag: 1000u128, scale: 0 },
            offset: Dec { neg: false, mag: 0u128, scale: 0 },
            dimensions: Dimensions { length: -1i8, mass: 1i8, time: -2i8, temperature: 0i8, data: 0i8 },
            symbol: String::from_str("kPa"),
            aliases,
        }
    } else if i == 64 {
        push_str(&mut aliases, "bar");
        proof {
            assert(strs_view(aliases@) =~= spec_unit(i as int).aliases);
        }
        RuntimeUnitDef {
            factor: Dec { neg: false, mag: 100000u128, scale: 0 },
            offset: Dec { neg: false, mag: 0u128, scale: 0 },
            dimensions: Dimensions { length: -1i8, mass: 1i8, time: -2i8, temperature: 0i8, data: 0i8 },
            symbol: String::from_str("bar"),
            aliases,
        }
    } else if i == 65 {
        push_str(&mut aliases, "psi");
        proof {
            assert(strs_view(aliases@) =~= spec_unit(i as int).aliases);
        }
        RuntimeUnitDef {
            factor: Dec { neg: false, mag: 689476u128, scale: 2 },
            offset: Dec { neg: false, mag: 0u128, scale: 0 },
            dimensions: Dimensions { length: -1i8, mass: 1i8, time: -2i8, temperature: 0i8, data: 0i8 },
            symbol: String::from_str("psi"),
            aliases,
        }
    } else if i == 66 {
        push_str(&mut aliases, "atm");
        push_str(&mut aliases, "atmosphere");
        proof {
            assert(strs_view(aliases@) =~= spec_unit(i as int).aliases);
        }
        RuntimeUnitDef {
            factor: Dec { neg: false, mag: 101325u128, scale: 0 },
            offset: Dec { neg: false, mag: 0u128, scale: 0 },
            dimensions: Dimensions { length: -1i8, mass: 1i8, time: -2i8, temperature: 0i8, data: 0i8 },
            symbol: String::from_str("atm"),
            aliases,
        }
    } else {
        push_str(&mut aliases, "m/s2");
        push_str(&mut aliases, "m/s²");
        push_str(&mut aliases, "mps2");
        proof {
            assert(strs_view(aliases@) =~= spec_unit(i as int).aliases);
        }
        RuntimeUnitDef {
            factor: Dec { neg: false, mag: 1u128, scale: 0 },
            offset: Dec { neg: false, mag: 0u128, scale: 0 },
            dimensions: Dimensions { length: 1i8, mass: 0i8, time: -2i8, temperature: 0i8, data: 0i8 },
            symbol: String::from_str("m/s²"),
            aliases,
        }
    }
}


// ---------------------------------------------------------------------------
// Compound units.
// ---------------------------------------------------------------------------
/// A unit with scale factor, offset and dimensions; simple (`m`, `kg`) or
/// compound (`m/s`, `km/h`, `m²`).
#[derive(Clone, Debug)]
pub struct CompoundUnit {
    pub factor: Dec,
    pub offset: Dec,
    pub dimensions: Dimensions,
    pub symbol: String,
}

/// A compound unit at the specification level: the symbol as characters.
pub struct CompoundUnitV {
    pub factor: Dec,
    pub offset: Dec,
    pub dimensions: Dimensions,
    pub symbol: Seq<char>,
}

impl View for CompoundUnit {
    type V = CompoundUnitV;

    open spec fn view(&self) -> CompoundUnitV {
        CompoundUnitV {
            factor: self.factor,
            offset: self.offset,
            dimensions: self.dimensions,
            symbol: self.symbol@,
        }
    }
}

impl CompoundUnitV {
    /// Factor and offset are well-formed decimals.
    pub open spec fn wf(self) -> bool {
        self.factor.wf() && self.offset.wf()
    }
}

/// What converting a value into base units yields: `(value + offset) * factor`.
pub open spec fn spec_to_si_v(u: CompoundUnitV, v: Dec) -> Option<Dec> {
    match crate::decimal::s_add(v, u.offset) {
        Some(x) => crate::decimal::s_mul(x, u.factor),
        None => None,
    }
}

/// What converting a value out of base units yields: `base / factor - offset`.
pub open spec fn spec_from_si_v(u: CompoundUnitV, si: Dec) -> Option<Dec> {
    match crate::decimal::s_div(si, u.factor) {
        Some(x) => crate::decimal::s_sub(x, u.offset),
        None => None,
    }
}

/// What converting between two units yields: `None` iff the dimension
/// vectors differ or the arithmetic cannot represent the result.
pub open spec fn spec_convert_v(v: Dec, from: CompoundUnitV, to: CompoundUnitV) -> Option<Dec> {
    if from.dimensions != to.dimensions {
        None
    } else {
        match spec_to_si_v(from, v) {
            Some(si) => spec_from_si_v(to, si),
            None => None,
        }
    }
}

/// What multiplying two units yields: dimensions added, factors multiplied,
/// offset dropped, the symbol synthesized; `None` iff the factor product
/// cannot be represented.
pub open spec fn spec_cu_multiply(a: CompoundUnitV, b: CompoundUnitV) -> Option<CompoundUnitV> {
    match crate::decimal::s_mul(a.factor, b.factor) {
        Some(f) => Some(
            CompoundUnitV {
                factor: f,
                offset: Dec { neg: false, mag: 0u128, scale: 0 },
                dimensions: a.dimensions.spec_multiply(b.dimensions),
                symbol: spec_smart_symbol(
                    a.symbol,
                    b.symbol,
                    a.dimensions.spec_multiply(b.dimensions),
                    f,
                    true,
                ),
            },
        ),
        None => None,
    }
}

/// What dividing two units yields: dimensions subtracted, factors divided,
/// offset dropped, the symbol synthesized; `None` iff the factor quotient
/// cannot be represented.
pub open spec fn spec_cu_divide(a: CompoundUnitV, b: CompoundUnitV) -> Option<CompoundUnitV> {
    match crate::decimal::s_div(a.factor, b.factor) {
        Some(f) => Some(
            CompoundUnitV {
                factor: f,
                offset: Dec { neg: false, mag: 0u128, scale: 0 },
                dimensions: a.dimensions.spec_divide(b.dimensions),
                symbol: spec_smart_symbol(
                    a.symbol,
                    b.symbol,
                    a.dimensions.spec_divide(b.dimensions),
                    f,
                    false,
                ),
            },
        ),
        None => None,
    }
}

/// What converting a value into base units yields: `(value + offset) * factor`.
pub open spec fn spec_to_si(u: CompoundUnit, v: Dec) -> Option<Dec> {
    spec_to_si_v(u@, v)
}

/// What converting a value out of base units yields: `base / factor - offset`.
pub open spec fn spec_from_si(u: CompoundUnit, si: Dec) -> Option<Dec> {
    spec_from_si_v(u@, si)
}

/// What converting between two units yields: `None` iff the dimension
/// vectors differ or the arithmetic cannot represent the result.
pub open spec fn spec_convert(v: Dec, from: CompoundUnit, to: CompoundUnit) -> Option<Dec> {
    spec_convert_v(v, from@, to@)
}

impl CompoundUnit {
    /// Well-formed: factor and offset are well-formed decimals.
    pub open spec fn wf(self) -> bool {
        self.factor.wf() && self.offset.wf()
    }

    /// A unit without offset.
    pub fn new(factor: Dec, dimensions: Dimensions, symbol: String) -> (r: CompoundUnit)
        requires
            factor.wf(),
        ensures
            r.factor == factor,
            r.offset == (Dec { neg: false, mag: 0u128, scale: 0 }),
            r.dimensions == dimensions,
            r.symbol == symbol,
            r.wf(),
    {
        CompoundUnit { factor, offset: Dec::zero(), dimensions, symbol }
    }

    /// A unit with an offset (temperature units).
    pub fn with_offset(factor: Dec, offset: Dec, dimensions: Dimensions, symbol: String) -> (r:
        CompoundUnit)
        requires
            factor.wf(),
            offset.wf(),
        ensures
            r == (CompoundUnit { factor, offset, dimensions, symbol }),
            r.wf(),
    {
        CompoundUnit { factor, offset, dimensions, symbol }
    }

    /// An equal unit value (the symbol string copied).
    pub fn duplicate(&self) -> (r: CompoundUnit)
        ensures
            r == *self,
    {
        CompoundUnit {
            factor: self.factor,
            offset: self.offset,
            dimensions: self.dimensions,
            symbol: self.symbol.clone(),
        }
    }

    /// Convert a value of this unit to base units.
    pub fn to_si(&self, value: &Dec) -> (r: Option<Dec>)
        requires
            self.wf(),
            value.wf(),
        ensures
            r == spec_to_si(*self, *value),
            r matches Some(d) ==> d.wf(),
    {
        match dec_add(value, &self.offset) {
            Some(x) => dec_mul(&x, &self.factor),
            None => None,
        }
    }

    /// Convert a value in base units to this unit.
    pub fn from_si(&self, si_value: &Dec) -> (r: Option<Dec>)
        requires
            self.wf(),
            si_value.wf(),
        ensures
            r == spec_from_si(*self, *si_value),
            r matches Some(d) ==> d.wf(),
    {
        match dec_div(si_value, &self.factor) {
            Some(x) => dec_sub(&x, &self.offset),
            None => None,
        }
    }

    /// True iff values convert between the two units.
    pub fn can_convert_to(&self, other: &CompoundUnit) -> (r: bool)
        ensures
            r == (self.dimensions == other.dimensions),
    {
        self.dimensions == other.dimensions
    }

    /// Convert a value from this unit into the target unit; `None` iff the
    /// dimensions differ or the arithmetic cannot represent the result.
    pub fn convert_to(&self, value: &Dec, target: &CompoundUnit) -> (r: Option<Dec>)
        requires
            self.wf(),
            target.wf(),
            value.wf(),
        ensures
            r == spec_convert(*value, *self, *target),
            r matches Some(d) ==> d.wf(),
    {
        if !self.can_convert_to(target) {
            return None;
        }
        match self.to_si(value) {
            Some(si) => target.from_si(&si),
            None => None,
        }
    }

    /// Multiply two units: dimensions add, factors multiply, and the symbol
    /// is synthesized; `None` iff the factor product cannot be represented.
    pub fn multiply(&self, other: &CompoundUnit) -> (r: Option<CompoundUnit>)
        requires
            self.wf(),
            other.wf(),
        ensures
            (r is Some) == (spec_cu_multiply(self@, other@) is Some),
            r matches Some(u) ==> Some(u@) == spec_cu_multiply(self@, other@) && u.wf(),
    {
        let new_dims = self.dimensions.multiply(other.dimensions);
        match dec_mul(&self.factor, &other.factor) {
            Some(new_factor) => {
                let symbol = smart_symbol(
                    self.symbol.as_str(),
                    other.symbol.as_str(),
                    &new_dims,
                    &new_factor,
                    true,
                );
                Some(CompoundUnit { factor: new_factor, offset: Dec::zero(), dimensions: new_dims, symbol })
            }
            None => None,
        }
    }

    /// Divide two units: dimensions subtract, factors divide, and the symbol
    /// is synthesized; `None` iff the factor quotient cannot be represented.
    pub fn divide(&self, other: &CompoundUnit) -> (r: Option<CompoundUnit>)
        requires
            self.wf(),
            other.wf(),
        ensures
            (r is Some) == (spec_cu_divide(self@, other@) is Some),
            r matches Some(u) ==> Some(u@) == spec_cu_divide(self@, other@) && u.wf(),
    {
        let new_dims = self.dimensions.divide(other.dimensions);
        match dec_div(&self.factor, &other.factor) {
            Some(new_factor) => {
                let symbol = smart_symbol(
                    self.symbol.as_str(),
                    other.symbol.as_str(),
                    &new_dims,
                    &new_factor,
                    false,
                );
                Some(CompoundUnit { factor: new_factor, offset: Dec::zero(), dimensions: new_dims, symbol })
            }
            None => None,
        }
    }

    /// Raise a unit to an integer power: the factor is multiplied out (or
    /// inverted for negative exponents) and the exponent vector scales.
    #[verifier::loop_isolation(false)]
    pub fn power(&self, exp: i8) -> (r: Option<CompoundUnit>)
        requires
            self.wf(),
        ensures
            r matches Some(u) ==> {
                &&& u.factor.wf()
                &&& u.offset == (Dec { neg: false, mag: 0u128, scale: 0 })
                &&& u.dimensions == self.dimensions.spec_power(exp)
                &&& u.symbol@ == self.symbol@ + spec_format_exponent(exp as int)
                &&& u.wf()
            },
    {
        let n: u32 = if exp >= 0 {
            exp as u32
        } else {
            (-(exp as i32)) as u32
        };
        let mut acc = Dec::one();
        let mut i: u32 = 0;
        let mut overflow = false;
        while i < n
            invariant
                acc.wf(),
            decreases n - i,
        {
            match dec_mul(&acc, &self.factor) {
                Some(x) => {
                    acc = x;
                }
                None => {
                    overflow = true;
                }
            }
            i = i + 1;
        }
        if overflow {
            return None;
        }
        let factor = if exp >= 0 {
            acc
        } else {
            match dec_div(&Dec::one(), &acc) {
                Some(x) => x,
                None => {
                    return None;
                }
            }
        };
        let mut symbol = self.symbol.clone();
        let e = format_exponent(exp as i32);
        symbol.append(e.as_str());
        Some(
            CompoundUnit {
                factor,
                offset: Dec::zero(),
                dimensions: self.dimensions.power(exp),
                symbol,
            },
        )
    }
}

// ---------------------------------------------------------------------------
// Registry lookups.
// ---------------------------------------------------------------------------
/// True iff token `s` names registry entry `i`: its symbol or one of its
/// aliases, after ASCII case folding.
pub open spec fn spec_unit_matches(i: int, s: Seq<char>) -> bool {
    ||| spec_lower(spec_unit(i).symbol) == spec_lower(s)
    ||| (exists|k: int|
        0 <= k < spec_unit(i).aliases.len() && spec_lower(spec_unit(i).aliases[k]) == spec_lower(
            s,
        ))
}

/// The first registry entry the token names.
pub open spec fn spec_parse_unit_from(s: Seq<char>, i: int) -> Option<int>
    decreases spec_unit_count() - i,
{
    if i < 0 || i >= spec_unit_count() {
        None
    } else if spec_unit_matches(i, s) {
        Some(i)
    } else {
        spec_parse_unit_from(s, i + 1)
    }
}

/// The registry entry a unit token names, if any.
pub open spec fn spec_parse_unit(s: Seq<char>) -> Option<int> {
    spec_parse_unit_from(s, 0)
}

/// The compound form of a registry entry, at the specification level.
pub open spec fn entry_cv(i: int) -> CompoundUnitV {
    CompoundUnitV {
        factor: spec_unit(i).factor,
        offset: spec_unit(i).offset,
        dimensions: spec_unit(i).dimensions,
        symbol: spec_unit(i).symbol,
    }
}

/// The compound form of a simple unit, at the specification level.
pub open spec fn unit_cv(u: Unit) -> CompoundUnitV {
    entry_cv(u.spec_index())
}

/// True iff the unit is the compound form of registry entry `i`.
pub open spec fn unit_is_entry(u: CompoundUnit, i: int) -> bool {
    &&& u.factor == spec_unit(i).factor
    &&& u.offset == spec_unit(i).offset
    &&& u.dimensions == spec_unit(i).dimensions
    &&& u.symbol@ == spec_unit(i).symbol
}

/// Parse a unit name against the registry, symbol or alias, any ASCII case.
pub fn parse_unit(s: &str) -> (r: Option<CompoundUnit>)
    ensures
        (r is Some) == (spec_parse_unit(s@) is Some),
        r matches Some(u) ==> spec_parse_unit(s@) matches Some(i) && unit_is_entry(u, i) && u.wf(),
{
    let v = str_chars(s);
    parse_unit_chars(v.as_slice())
}

/// Parse a unit token given as characters.
#[verifier::loop_isolation(false)]
pub fn parse_unit_chars(v: &[char]) -> (r: Option<CompoundUnit>)
    ensures
        (r is Some) == (spec_parse_unit(v@) is Some),
        r matches Some(u) ==> spec_parse_unit(v@) matches Some(i) && unit_is_entry(u, i) && u.wf(),
{
    let lower = lower_chars(v);
    let n = unit_count();
    let mut i: usize = 0;
    while i < n
        invariant
            i <= n,
            spec_parse_unit(v@) == spec_parse_unit_from(v@, i as int),
        decreases n - i,
    {
        let d = unit_at(i);
        if chars_eq_str_nocase(v, d.symbol.as_str()) {
            proof {
                assert(spec_unit_matches(i as int, v@));
            }
            return Some(
                CompoundUnit {
                    factor: d.factor,
                    offset: d.offset,
                    dimensions: d.dimensions,
                    symbol: d.symbol,
                },
            );
        }
        let mut j: usize = 0;
        let na = d.aliases.len();
        while j < na
            invariant
                j <= na,
                na == d.aliases@.len(),
                forall|k: int|
                    0 <= k < j ==> spec_lower(spec_unit(i as int).aliases[k]) != spec_lower(v@),
            decreases na - j,
        {
            let a = &d.aliases[j];
            let achars = str_chars(a.as_str());
            let alower = lower_chars(achars.as_slice());
            proof {
                assert(strs_view(d.aliases@)[j as int] == d.aliases@[j as int]@);
                assert(spec_unit(i as int).aliases[j as int] == d.aliases@[j as int]@);
            }
            if chars_eq(alower.as_slice(), lower.as_slice()) {
                proof {
                    assert(spec_lower(spec_unit(i as int).aliases[j as int]) == spec_lower(v@));
                    assert(spec_unit_matches(i as int, v@));
                }
                return Some(
                    CompoundUnit {
                        factor: d.factor,
                        offset: d.offset,
                        dimensions: d.dimensions,
                        symbol: d.symbol,
                    },
                );
            }
            j = j + 1;
        }
        proof {
            assert(!spec_unit_matches(i as int, v@));
        }
        i = i + 1;
    }
    None
}

/// Convert a value between two units; `None` iff their dimensions differ or
/// the arithmetic cannot represent the result.
pub fn convert(value: &Dec, from: &CompoundUnit, to: &CompoundUnit) -> (r: Option<Dec>)
    requires
        value.wf(),
        from.wf(),
        to.wf(),
    ensures
        r == spec_convert(*value, *from, *to),
        r matches Some(d) ==> d.wf(),
{
    from.convert_to(value, to)
}

/// Every unit alias, in registry order.
#[verifier::loop_isolation(false)]
pub fn all_aliases() -> (r: Vec<String>)
    ensures
        r@.len() >= spec_unit_count(),
{
    let n = unit_count();
    let mut v: Vec<String> = Vec::new();
    let mut i: usize = 0;
    while i < n
        invariant
            i <= n,
            v@.len() >= i,
        decreases n - i,
    {
        let d = unit_at(i);
        proof {
            assert(spec_unit(i as int).aliases.len() >= 1);
        }
        let mut j: usize = 0;
        let na = d.aliases.len();
        while j < na
            invariant
                j <= na,
                na == d.aliases@.len(),
                na >= 1,
                v@.len() >= i + if j > 0 {
                    1int
                } else {
                    0int
                },
            decreases na - j,
        {
            let a = d.aliases[j].clone();
            v.push(a);
            j = j + 1;
        }
        i = i + 1;
    }
    v
}

/// Every unit symbol, in registry order.
#[verifier::loop_isolation(false)]
pub fn all_symbols() -> (r: Vec<String>)
    ensures
        r@.len() == spec_unit_count(),
        forall|i: int| 0 <= i < r@.len() ==> r@[i]@ == spec_unit(i).symbol,
{
    let n = unit_count();
    let mut v: Vec<String> = Vec::new();
    let mut i: usize = 0;
    while i < n
        invariant
            i <= n,
            v@.len() == i,
            forall|j: int| 0 <= j < i ==> v@[j]@ == spec_unit(j).symbol,
        decreases n - i,
    {
        let d = unit_at(i);
        v.push(d.symbol);
        i = i + 1;
    }
    v
}

// ---------------------------------------------------------------------------
// Symbol synthesis and formatting.
// ---------------------------------------------------------------------------
/// The superscript character of one decimal digit.
pub open spec fn spec_sup_char(d: int) -> char {
    if d == 0 {
        '⁰'
    } else if d == 1 {
        '¹'
    } else if d == 2 {
        '²'
    } else if d == 3 {
        '³'
    } else if d == 4 {
        '⁴'
    } else if d == 5 {
        '⁵'
    } else if d == 6 {
        '⁶'
    } else if d == 7 {
        '⁷'
    } else if d == 8 {
        '⁸'
    } else {
        '⁹'
    }
}

/// The superscript digits of a nonnegative integer.
pub open spec fn spec_sup_digits(n: nat) -> Seq<char>
    decreases n,
{
    if n < 10 {
        seq![spec_sup_char(n as int)]
    } else {
        spec_sup_digits(n / 10).push(spec_sup_char(n as int % 10))
    }
}

/// An exponent as superscript text; the exponent one shows as nothing.
pub open spec fn spec_format_exponent(e: int) -> Seq<char> {
    if e == 1 {
        Seq::empty()
    } else if e < 0 {
        seq!['⁻'] + spec_sup_digits((-e) as nat)
    } else {
        spec_sup_digits(e as nat)
    }
}

fn sup_char(d: u32) -> (c: char)
    requires
        d < 10,
    ensures
        c == spec_sup_char(d as int),
{
    if d == 0 {
        '⁰'
    } else if d == 1 {
        '¹'
    } else if d == 2 {
        '²'
    } else if d == 3 {
        '³'
    } else if d == 4 {
        '⁴'
    } else if d == 5 {
        '⁵'
    } else if d == 6 {
        '⁶'
    } else if d == 7 {
        '⁷'
    } else if d == 8 {
        '⁸'
    } else {
        '⁹'
    }
}

fn push_sup_digits(n: u32, s: &mut String)
    ensures
        final (s)@ == old(s)@ + spec_sup_digits(n as nat),
    decreases n,
{
    if n < 10 {
        push_char(s, sup_char(n));
        proof {
            assert(final (s)@ =~= old(s)@ + spec_sup_digits(n as nat));
        }
    } else {
        push_sup_digits(n / 10, s);
        push_char(s, sup_char(n % 10));
        proof {
            assert(final (s)@ =~= old(s)@ + spec_sup_digits(n as nat));
        }
    }
}

/// Format an exponent as superscript text.
pub fn format_exponent(exp: i32) -> (r: String)
    requires
        -129 < exp < 129,
    ensures
        r@ == spec_format_exponent(exp as int),
{
    let mut s = String::new();
    if exp == 1 {
        return s;
    }
    let abs: u32 = if exp < 0 {
        push_char(&mut s, '⁻');
        (-exp) as u32
    } else {
        exp as u32
    };
    push_sup_digits(abs, &mut s);
    proof {
        assert(s@ =~= spec_format_exponent(exp as int));
    }
    s
}

/// The symbol built from two operand symbols: exponent notation for a
/// square, `·` for a product, `/` for a quotient.
pub open spec fn spec_compound_symbol(left: Seq<char>, right: Seq<char>, multiply: bool) -> Seq<
    char,
> {
    if multiply {
        if left == right {
            left + spec_format_exponent(2)
        } else {
            left + seq!['·'] + right
        }
    } else {
        left + seq!['/'] + right
    }
}

/// Build a compound symbol from two operand symbols.
pub fn format_compound_symbol(left: &str, right: &str, multiply: bool) -> (r: String)
    ensures
        r@ == spec_compound_symbol(left@, right@, multiply),
{
    let mut s = String::new();
    s.append(left);
    if multiply {
        if crate::text::chars_eq_str(str_chars(left).as_slice(), right) {
            let e = format_exponent(2);
            s.append(e.as_str());
        } else {
            push_char(&mut s, '·');
            s.append(right);
        }
    } else {
        push_char(&mut s, '/');
        s.append(right);
    }
    proof {
        assert(s@ =~= spec_compound_symbol(left@, right@, multiply));
    }
    s
}

/// True iff a synthesized factor is within 0.1% of a registry factor
/// (zero factors match only zero).
pub open spec fn spec_ratio_close(factor: Dec, def_factor: Dec) -> bool {
    if factor.mag == 0 || def_factor.mag == 0 {
        factor.val() == def_factor.val()
    } else {
        match crate::decimal::s_div(factor, def_factor) {
            None => false,
            Some(ratio) => match crate::decimal::s_sub(
                ratio,
                Dec { neg: false, mag: 1u128, scale: 0 },
            ) {
                None => false,
                Some(d) => -(pow(10, 25)) < d.val() < pow(10, 25),
            },
        }
    }
}

/// The first registry entry with these dimensions and a factor within
/// tolerance.
pub open spec fn spec_find_unit_from(dims: Dimensions, factor: Dec, i: int) -> Option<int>
    decreases spec_unit_count() - i,
{
    if i < 0 || i >= spec_unit_count() {
        None
    } else if spec_unit(i).dimensions == dims && spec_ratio_close(factor, spec_unit(i).factor) {
        Some(i)
    } else {
        spec_find_unit_from(dims, factor, i + 1)
    }
}

/// The registry entry that displays a synthesized unit, if any.
pub open spec fn spec_find_unit(dims: Dimensions, factor: Dec) -> Option<int> {
    spec_find_unit_from(dims, factor, 0)
}

/// Find a registry symbol for the given dimensions and factor.
#[verifier::loop_isolation(false)]
pub fn find_unit_by_dimensions_and_factor(dims: &Dimensions, factor: &Dec) -> (r: Option<String>)
    requires
        factor.wf(),
    ensures
        (r is Some) == (spec_find_unit(*dims, *factor) is Some),
        r matches Some(s) ==> spec_find_unit(*dims, *factor) matches Some(i) && s@ == spec_unit(
            i,
        ).symbol,
{
    let n = unit_count();
    let tol = Dec::from_parts(false, 1, 3);
    let one = Dec::one();
    let mut i: usize = 0;
    while i < n
        invariant
            i <= n,
            spec_find_unit(*dims, *factor) == spec_find_unit_from(*dims, *factor, i as int),
        decreases n - i,
    {
        let d = unit_at(i);
        if d.dimensions == *dims {
            proof {
                assert(tol.val() == pow(10, 25));
            }
            let close: bool = if factor.is_zero() || d.factor.is_zero() {
                dec_eq(factor, &d.factor)
            } else {
                match dec_div(factor, &d.factor) {
                    None => false,
                    Some(ratio) => match dec_sub(&ratio, &one) {
                        None => false,
                        Some(diff) => dec_lt(&diff.abs(), &tol),
                    },
                }
            };
            proof {
                assert(d.factor == spec_unit(i as int).factor);
                crate::decimal::lemma_zero_iff(*factor);
                crate::decimal::lemma_zero_iff(d.factor);
                assert(close == spec_ratio_close(*factor, spec_unit(i as int).factor));
            }
            if close {
                proof {
                    assert(spec_find_unit_from(*dims, *factor, i as int) == Some(i as int));
                }
                return Some(d.symbol);
            }
        }
        i = i + 1;
    }
    None
}

/// The synthesized symbol of a computed unit: nothing for a dimensionless
/// result, a matching registry symbol when one is close enough, else a
/// symbol built from the operand symbols.
pub open spec fn spec_smart_symbol(
    left: Seq<char>,
    right: Seq<char>,
    dims: Dimensions,
    factor: Dec,
    multiply: bool,
) -> Seq<char> {
    if dims == Dimensions::spec_zero() {
        Seq::empty()
    } else {
        match spec_find_unit(dims, factor) {
            Some(i) => spec_unit(i).symbol,
            None => spec_compound_symbol(left, right, multiply),
        }
    }
}

/// Synthesize the display symbol of a computed unit.
pub fn smart_symbol(left: &str, right: &str, dims: &Dimensions, factor: &Dec, multiply: bool) -> (r:
    String)
    requires
        factor.wf(),
    ensures
        r@ == spec_smart_symbol(left@, right@, *dims, *factor, multiply),
{
    if dims.is_dimensionless() {
        return String::new();
    }
    match find_unit_by_dimensions_and_factor(dims, factor) {
        Some(sym) => sym,
        None => format_compound_symbol(left, right, multiply),
    }
}

/// The display piece of one base dimension, on the positive or the
/// negative side.
pub open spec fn spec_one_part(name: Seq<char>, e: int, positive: bool) -> Seq<Seq<char>> {
    if positive && e > 0 {
        seq![name + spec_format_exponent(e)]
    } else if !positive && e < 0 {
        seq![name + spec_format_exponent(-e)]
    } else {
        Seq::empty()
    }
}

/// The pieces of a dimension display, positive or negative side, in the
/// fixed order length, mass, time, temperature, data.
pub open spec fn spec_dim_parts(d: Dimensions, positive: bool) -> Seq<Seq<char>> {
    spec_one_part("m"@, d.length as int, positive) + spec_one_part("kg"@, d.mass as int, positive)
        + spec_one_part("s"@, d.time as int, positive) + spec_one_part(
        "K"@,
        d.temperature as int,
        positive,
    ) + spec_one_part("B"@, d.data as int, positive)
}

/// Sequences joined with a separator.
pub open spec fn spec_join(parts: Seq<Seq<char>>, sep: Seq<char>) -> Seq<char>
    decreases parts.len(),
{
    if parts.len() == 0 {
        Seq::empty()
    } else if parts.len() == 1 {
        parts[0]
    } else {
        parts[0] + sep + spec_join(parts.drop_first(), sep)
    }
}

/// A dimension vector as readable text: positive parts joined by `·`, then
/// `/` and the negative parts, a lone `1` standing for an empty numerator.
pub open spec fn spec_format_dimensions(d: Dimensions) -> Seq<char> {
    let pos = spec_dim_parts(d, true);
    let neg = spec_dim_parts(d, false);
    if pos.len() == 0 && neg.len() == 0 {
        Seq::empty()
    } else {
        let numerator = if pos.len() == 0 {
            "1"@
        } else {
            spec_join(pos, seq!['·'])
        };
        if neg.len() == 0 {
            numerator
        } else {
            numerator + seq!['/'] + spec_join(neg, seq!['·'])
        }
    }
}

pub(crate) fn join_parts(parts: &Vec<String>, sep: char) -> (r: String)
    ensures
        r@ == spec_join(strs_view(parts@), seq![sep]),
    decreases parts@.len(),
{
    let mut s = String::new();
    let mut i: usize = 0;
    while i < parts.len()
        invariant
            i <= parts@.len(),
            s@ == if i == 0 {
                Seq::<char>::empty()
            } else {
                spec_join(strs_view(parts@).take(i as int), seq![sep])
            },
        decreases parts@.len() - i,
    {
        if i > 0 {
            push_char(&mut s, sep);
        }
        s.append(parts[i].as_str());
        proof {
            lemma_join_step(strs_view(parts@), seq![sep], i as int);
            assert(strs_view(parts@).take(i + 1 as int).len() == i + 1);
        }
        i = i + 1;
    }
    proof {
        if parts@.len() > 0 {
            assert(strs_view(parts@).take(parts@.len() as int) =~= strs_view(parts@));
        }
        assert(s@ =~= spec_join(strs_view(parts@), seq![sep]));
    }
    s
}

proof fn lemma_join_step(parts: Seq<Seq<char>>, sep: Seq<char>, i: int)
    requires
        0 <= i < parts.len(),
    ensures
        spec_join(parts.take(i + 1), sep) == if i == 0 {
            parts[0]
        } else {
            spec_join(parts.take(i), sep) + sep + parts[i]
        },
    decreases i,
{
    if i == 0 {
        assert(parts.take(1).len() == 1);
        assert(spec_join(parts.take(1), sep) == parts.take(1)[0]);
        assert(parts.take(1)[0] == parts[0]);
    } else {
        lemma_join_step(parts.drop_first(), sep, i - 1);
        assert(parts.take(i + 1).drop_first() =~= parts.drop_first().take(i));
        assert(parts.take(i).drop_first() =~= parts.drop_first().take(i - 1));
        assert(parts.take(i + 1)[0] == parts[0]);
        if i - 1 == 0 {
            assert(spec_join(parts.take(i + 1), sep) == parts[0] + sep + spec_join(
                parts.take(i + 1).drop_first(),
                sep,
            ));
            assert(parts.drop_first().take(1)[0] == parts[1]);
            assert(spec_join(parts.drop_first().take(1), sep) == parts[1]);
            assert(parts.take(1).len() == 1);
            assert(spec_join(parts.take(1), sep) == parts.take(1)[0]);
        } else {
            assert(spec_join(parts.take(i + 1), sep) == parts[0] + sep + spec_join(
                parts.drop_first().take(i),
                sep,
            ));
            assert(spec_join(parts.take(i), sep) == parts[0] + sep + spec_join(
                parts.drop_first().take(i - 1),
                sep,
            ));
        }
    }
}

fn push_dim_part(parts: &mut Vec<String>, name: &str, e: i8)
    requires
        e != 0,
    ensures
        strs_view(final (parts)@) == strs_view(old(parts)@).push(
            name@ + spec_format_exponent(
                if e < 0 {
                    -(e as int)
                } else {
                    e as int
                },
            ),
        ),
{
    let mut s = String::new();
    s.append(name);
    let abs: i32 = if e < 0 {
        -(e as i32)
    } else {
        e as i32
    };
    let ex = format_exponent(abs);
    s.append(ex.as_str());
    parts.push(s);
    proof {
        assert(strs_view(parts@) =~= strs_view(old(parts)@).push(
            name@ + spec_format_exponent(
                if e < 0 {
                    -(e as int)
                } else {
                    e as int
                },
            ),
        ));
    }
}

fn one_dim(parts: &mut Vec<String>, neg_parts: &mut Vec<String>, name: &str, e: i8)
    ensures
        strs_view(final (parts)@) == strs_view(old(parts)@) + spec_one_part(name@, e as int, true),
        strs_view(final (neg_parts)@) == strs_view(old(neg_parts)@) + spec_one_part(
            name@,
            e as int,
            false,
        ),
{
    if e > 0 {
        push_dim_part(parts, name, e);
        proof {
            assert(strs_view(parts@) =~= strs_view(old(parts)@) + spec_one_part(
                name@,
                e as int,
                true,
            ));
            assert(strs_view(neg_parts@) =~= strs_view(old(neg_parts)@) + spec_one_part(
                name@,
                e as int,
                false,
            ));
        }
    } else if e < 0 {
        push_dim_part(neg_parts, name, e);
        proof {
            assert(strs_view(parts@) =~= strs_view(old(parts)@) + spec_one_part(
                name@,
                e as int,
                true,
            ));
            assert(strs_view(neg_parts@) =~= strs_view(old(neg_parts)@) + spec_one_part(
                name@,
                e as int,
                false,
            ));
        }
    } else {
        proof {
            assert(strs_view(parts@) =~= strs_view(old(parts)@) + spec_one_part(
                name@,
                e as int,
                true,
            ));
            assert(strs_view(neg_parts@) =~= strs_view(old(neg_parts)@) + spec_one_part(
                name@,
                e as int,
                false,
            ));
        }
    }
}

/// A dimension vector as readable text.
pub fn format_dimensions(dims: &Dimensions) -> (r: String)
    ensures
        r@ == spec_format_dimensions(*dims),
{
    let mut parts: Vec<String> = Vec::new();
    let mut neg_parts: Vec<String> = Vec::new();
    one_dim(&mut parts, &mut neg_parts, "m", dims.length);
    one_dim(&mut parts, &mut neg_parts, "kg", dims.mass);
    one_dim(&mut parts, &mut neg_parts, "s", dims.time);
    one_dim(&mut parts, &mut neg_parts, "K", dims.temperature);
    one_dim(&mut parts, &mut neg_parts, "B", dims.data);
    proof {
        assert(strs_view(parts@) =~= spec_dim_parts(*dims, true));
        assert(strs_view(neg_parts@) =~= spec_dim_parts(*dims, false));
    }
    if parts.len() == 0 && neg_parts.len() == 0 {
        return String::new();
    }
    let numerator = if parts.len() == 0 {
        let mut n = String::new();
        n.append("1");
        n
    } else {
        join_parts(&parts, '·')
    };
    if neg_parts.len() == 0 {
        numerator
    } else {
        let mut out = numerator;
        push_char(&mut out, '/');
        let denom = join_parts(&neg_parts, '·');
        out.append(denom.as_str());
        proof {
            assert(out@ =~= spec_format_dimensions(*dims));
        }
        out
    }
}

// ---------------------------------------------------------------------------
// The simple unit enumeration that the parser produces directly.
// ---------------------------------------------------------------------------
/// A simple, single-dimension unit.
#[derive(Clone, Copy, Debug, PartialEq, Eq, Structural, Hash)]
pub enum Unit {
    Kilometer,
    Meter,
    Centimeter,
    Millimeter,
    Mile,
    Foot,
    Inch,
    Kilogram,
    Gram,
    Milligram,
    Pound,
    Ounce,
    Month,
    Week,
    Day,
    Hour,
    Minute,
    Second,
    Terabyte,
    Gigabyte,
    Megabyte,
    Kilobyte,
    Byte,
    Celsius,
    Fahrenheit,
}

/// The family a simple unit belongs to.
#[derive(Clone, Copy, Debug, PartialEq, Eq, Structural, Hash, PartialOrd, Ord)]
pub enum UnitType {
    Length,
    Weight,
    Time,
    Data,
    Temperature,
}

impl UnitType {
    /// The position of this family in the display order.
    pub open spec fn spec_rank(self) -> int {
        match self {
            UnitType::Length => 0,
            UnitType::Weight => 1,
            UnitType::Time => 2,
            UnitType::Data => 3,
            UnitType::Temperature => 4,
        }
    }

    /// The position of this family in the display order.
    pub fn rank(&self) -> (r: u8)
        ensures
            r == self.spec_rank(),
    {
        match *self {
            UnitType::Length => 0,
            UnitType::Weight => 1,
            UnitType::Time => 2,
            UnitType::Data => 3,
            UnitType::Temperature => 4,
        }
    }
}

impl Unit {
    /// The registry entry this simple unit stands for.
    pub open spec fn spec_index(self) -> int {
        match self {
            Unit::Kilometer => 0,
            Unit::Meter => 1,
            Unit::Centimeter => 2,
            Unit::Millimeter => 3,
            Unit::Mile => 4,
            Unit::Foot => 5,
            Unit::Inch => 6,
            Unit::Kilogram => 24,
            Unit::Gram => 25,
            Unit::Milligram => 26,
            Unit::Pound => 27,
            Unit::Ounce => 28,
            Unit::Month => 30,
            Unit::Week => 31,
            Unit::Day => 32,
            Unit::Hour => 33,
            Unit::Minute => 34,
            Unit::Second => 35,
            Unit::Terabyte => 44,
            Unit::Gigabyte => 45,
            Unit::Megabyte => 46,
            Unit::Kilobyte => 47,
            Unit::Byte => 48,
            Unit::Celsius => 41,
            Unit::Fahrenheit => 42,
        }
    }

    fn registry_index(&self) -> (r: usize)
        ensures
            r == self.spec_index(),
            0 <= r < spec_unit_count(),
    {
        match *self {
            Unit::Kilometer => 0,
            Unit::Meter => 1,
            Unit::Centimeter => 2,
            Unit::Millimeter => 3,
            Unit::Mile => 4,
            Unit::Foot => 5,
            Unit::Inch => 6,
            Unit::Kilogram => 24,
            Unit::Gram => 25,
            Unit::Milligram => 26,
            Unit::Pound => 27,
            Unit::Ounce => 28,
            Unit::Month => 30,
            Unit::Week => 31,
            Unit::Day => 32,
            Unit::Hour => 33,
            Unit::Minute => 34,
            Unit::Second => 35,
            Unit::Terabyte => 44,
            Unit::Gigabyte => 45,
            Unit::Megabyte => 46,
            Unit::Kilobyte => 47,
            Unit::Byte => 48,
            Unit::Celsius => 41,
            Unit::Fahrenheit => 42,
        }
    }

    /// The compound form of this unit, from the registry.
    pub fn to_compound(&self) -> (r: CompoundUnit)
        ensures
            unit_is_entry(r, self.spec_index()),
            r.wf(),
    {
        let d = unit_at(self.registry_index());
        CompoundUnit { factor: d.factor, offset: d.offset, dimensions: d.dimensions, symbol: d.symbol }
    }

    /// The family of this unit.
    pub open spec fn spec_unit_type(self) -> UnitType {
        match self {
            Unit::Kilometer => UnitType::Length,
            Unit::Meter => UnitType::Length,
            Unit::Centimeter => UnitType::Length,
            Unit::Millimeter => UnitType::Length,
            Unit::Mile => UnitType::Length,
            Unit::Foot => UnitType::Length,
            Unit::Inch => UnitType::Length,
            Unit::Kilogram => UnitType::Weight,
            Unit::Gram => UnitType::Weight,
            Unit::Milligram => UnitType::Weight,
            Unit::Pound => UnitType::Weight,
            Unit::Ounce => UnitType::Weight,
            Unit::Month => UnitType::Time,
            Unit::Week => UnitType::Time,
            Unit::Day => UnitType::Time,
            Unit::Hour => UnitType::Time,
            Unit::Minute => UnitType::Time,
            Unit::Second => UnitType::Time,
            Unit::Terabyte => UnitType::Data,
            Unit::Gigabyte => UnitType::Data,
            Unit::Megabyte => UnitType::Data,
            Unit::Kilobyte => UnitType::Data,
            Unit::Byte => UnitType::Data,
            Unit::Celsius => UnitType::Temperature,
            Unit::Fahrenheit => UnitType::Temperature,
        }
    }

    /// The family of this unit.
    pub fn unit_type(&self) -> (r: UnitType)
        ensures
            r == self.spec_unit_type(),
    {
        match *self {
            Unit::Kilometer => UnitType::Length,
            Unit::Meter => UnitType::Length,
            Unit::Centimeter => UnitType::Length,
            Unit::Millimeter => UnitType::Length,
            Unit::Mile => UnitType::Length,
            Unit::Foot => UnitType::Length,
            Unit::Inch => UnitType::Length,
            Unit::Kilogram => UnitType::Weight,
            Unit::Gram => UnitType::Weight,
            Unit::Milligram => UnitType::Weight,
            Unit::Pound => UnitType::Weight,
            Unit::Ounce => UnitType::Weight,
            Unit::Month => UnitType::Time,
            Unit::Week => UnitType::Time,
            Unit::Day => UnitType::Time,
            Unit::Hour => UnitType::Time,
            Unit::Minute => UnitType::Time,
            Unit::Second => UnitType::Time,
            Unit::Terabyte => UnitType::Data,
            Unit::Gigabyte => UnitType::Data,
            Unit::Megabyte => UnitType::Data,
            Unit::Kilobyte => UnitType::Data,
            Unit::Byte => UnitType::Data,
            Unit::Celsius => UnitType::Temperature,
            Unit::Fahrenheit => UnitType::Temperature,
        }
    }

    /// The short display name.
    pub open spec fn spec_short_name(self) -> Seq<char> {
        match self {
            Unit::Kilometer => "km"@,
            Unit::Meter => "m"@,
            Unit::Centimeter => "cm"@,
            Unit::Millimeter => "mm"@,
            Unit::Mile => "mi"@,
            Unit::Foot => "ft"@,
            Unit::Inch => "in"@,
            Unit::Kilogram => "kg"@,
            Unit::Gram => "g"@,
            Unit::Milligram => "mg"@,
            Unit::Pound => "lb"@,
            Unit::Ounce => "oz"@,
            Unit::Month => "mo"@,
            Unit::Week => "wk"@,
            Unit::Day => "d"@,
            Unit::Hour => "h"@,
            Unit::Minute => "min"@,
            Unit::Second => "s"@,
            Unit::Terabyte => "TB"@,
            Unit::Gigabyte => "GB"@,
            Unit::Megabyte => "MB"@,
            Unit::Kilobyte => "KB"@,
            Unit::Byte => "B"@,
            Unit::Celsius => "C"@,
            Unit::Fahrenheit => "F"@,
        }
    }

    /// The short display name.
    pub fn short_name(&self) -> (r: &'static str)
        ensures
            r@ == self.spec_short_name(),
    {
        match *self {
            Unit::Kilometer => "km",
            Unit::Meter => "m",
            Unit::Centimeter => "cm",
            Unit::Millimeter => "mm",
            Unit::Mile => "mi",
            Unit::Foot => "ft",
            Unit::Inch => "in",
            Unit::Kilogram => "kg",
            Unit::Gram => "g",
            Unit::Milligram => "mg",
            Unit::Pound => "lb",
            Unit::Ounce => "oz",
            Unit::Month => "mo",
            Unit::Week => "wk",
            Unit::Day => "d",
            Unit::Hour => "h",
            Unit::Minute => "min",
            Unit::Second => "s",
            Unit::Terabyte => "TB",
            Unit::Gigabyte => "GB",
            Unit::Megabyte => "MB",
            Unit::Kilobyte => "KB",
            Unit::Byte => "B",
            Unit::Celsius => "C",
            Unit::Fahrenheit => "F",
        }
    }

    /// What parsing a simple unit name yields, matched on the ASCII
    /// lower case of the token.
    pub open spec fn spec_parse(s: Seq<char>) -> Option<Unit> {
        let l = spec_lower(s);
        if l == "km"@ {
            Some(Unit::Kilometer)
        } else if l == "m"@ {
            Some(Unit::Meter)
        } else if l == "cm"@ {
            Some(Unit::Centimeter)
        } else if l == "mm"@ {
            Some(Unit::Millimeter)
        } else if l == "mi"@ || l == "mile"@ || l == "miles"@ {
            Some(Unit::Mile)
        } else if l == "ft"@ || l == "foot"@ || l == "feet"@ {
            Some(Unit::Foot)
        } else if l == "in"@ || l == "inch"@ || l == "inches"@ {
            Some(Unit::Inch)
        } else if l == "kg"@ {
            Some(Unit::Kilogram)
        } else if l == "g"@ {
            Some(Unit::Gram)
        } else if l == "mg"@ {
            Some(Unit::Milligram)
        } else if l == "lb"@ || l == "lbs"@ || l == "pound"@ || l == "pounds"@ {
            Some(Unit::Pound)
        } else if l == "oz"@ || l == "ounce"@ || l == "ounces"@ {
            Some(Unit::Ounce)
        } else if l == "mo"@ || l == "month"@ || l == "months"@ {
            Some(Unit::Month)
        } else if l == "wk"@ || l == "week"@ || l == "weeks"@ {
            Some(Unit::Week)
        } else if l == "d"@ || l == "day"@ || l == "days"@ {
            Some(Unit::Day)
        } else if l == "h"@ || l == "hr"@ || l == "hour"@ || l == "hours"@ {
            Some(Unit::Hour)
        } else if l == "min"@ || l == "minute"@ || l == "minutes"@ {
            Some(Unit::Minute)
        } else if l == "s"@ || l == "sec"@ || l == "second"@ || l == "seconds"@ {
            Some(Unit::Second)
        } else if l == "tb"@ {
            Some(Unit::Terabyte)
        } else if l == "gb"@ {
            Some(Unit::Gigabyte)
        } else if l == "mb"@ {
            Some(Unit::Megabyte)
        } else if l == "kb"@ {
            Some(Unit::Kilobyte)
        } else if l == "b"@ || l == "byte"@ || l == "bytes"@ {
            Some(Unit::Byte)
        } else if l == "c"@ || l == "celsius"@ {
            Some(Unit::Celsius)
        } else if l == "f"@ || l == "fahrenheit"@ {
            Some(Unit::Fahrenheit)
        } else {
            None
        }
    }

    /// Parse a simple unit name, any ASCII case.
    pub fn parse(s: &str) -> (r: Option<Unit>)
        ensures
            r == Unit::spec_parse(s@),
    {
        let v = str_chars(s);
        Unit::parse_token(v.as_slice())
    }

    /// Parse a simple unit token given as characters.
    pub fn parse_token(v: &[char]) -> (r: Option<Unit>)
        ensures
            r == Unit::spec_parse(v@),
    {
        let l = lower_chars(v);
        let lv = l.as_slice();
        if chars_eq_str(lv, "km") {
            Some(Unit::Kilometer)
        } else if chars_eq_str(lv, "m") {
            Some(Unit::Meter)
        } else if chars_eq_str(lv, "cm") {
            Some(Unit::Centimeter)
        } else if chars_eq_str(lv, "mm") {
            Some(Unit::Millimeter)
        } else if chars_eq_str(lv, "mi") || chars_eq_str(lv, "mile") || chars_eq_str(lv, "miles") {
            Some(Unit::Mile)
        } else if chars_eq_str(lv, "ft") || chars_eq_str(lv, "foot") || chars_eq_str(lv, "feet") {
            Some(Unit::Foot)
        } else if chars_eq_str(lv, "in") || chars_eq_str(lv, "inch") || chars_eq_str(lv, "inches") {
            Some(Unit::Inch)
        } else if chars_eq_str(lv, "kg") {
            Some(Unit::Kilogram)
        } else if chars_eq_str(lv, "g") {
            Some(Unit::Gram)
        } else if chars_eq_str(lv, "mg") {
            Some(Unit::Milligram)
        } else if chars_eq_str(lv, "lb") || chars_eq_str(lv, "lbs") || chars_eq_str(lv, "pound") || chars_eq_str(lv, "pounds") {
            Some(Unit::Pound)
        } else if chars_eq_str(lv, "oz") || chars_eq_str(lv, "ounce") || chars_eq_str(lv, "ounces") {
            Some(Unit::Ounce)
        } else if chars_eq_str(lv, "mo") || chars_eq_str(lv, "month") || chars_eq_str(lv, "months") {
            Some(Unit::Month)
        } else if chars_eq_str(lv, "wk") || chars_eq_str(lv, "week") || chars_eq_str(lv, "weeks") {
            Some(Unit::Week)
        } else if chars_eq_str(lv, "d") || chars_eq_str(lv, "day") || chars_eq_str(lv, "days") {
            Some(Unit::Day)
        } else if chars_eq_str(lv, "h") || chars_eq_str(lv, "hr") || chars_eq_str(lv, "hour") || chars_eq_str(lv, "hours") {
            Some(Unit::Hour)
        } else if chars_eq_str(lv, "min") || chars_eq_str(lv, "minute") || chars_eq_str(lv, "minutes") {
            Some(Unit::Minute)
        } else if chars_eq_str(lv, "s") || chars_eq_str(lv, "sec") || chars_eq_str(lv, "second") || chars_eq_str(lv, "seconds") {
            Some(Unit::Second)
        } else if chars_eq_str(lv, "tb") {
            Some(Unit::Terabyte)
        } else if chars_eq_str(lv, "gb") {
            Some(Unit::Gigabyte)
        } else if chars_eq_str(lv, "mb") {
            Some(Unit::Megabyte)
        } else if chars_eq_str(lv, "kb") {
            Some(Unit::Kilobyte)
        } else if chars_eq_str(lv, "b") || chars_eq_str(lv, "byte") || chars_eq_str(lv, "bytes") {
            Some(Unit::Byte)
        } else if chars_eq_str(lv, "c") || chars_eq_str(lv, "celsius") {
            Some(Unit::Celsius)
        } else if chars_eq_str(lv, "f") || chars_eq_str(lv, "fahrenheit") {
            Some(Unit::Fahrenheit)
        } else {
            None
        }
    }

    /// Every unit alias of the registry.
    pub fn all_aliases() -> (r: Vec<String>)
        ensures
            r@.len() >= spec_unit_count(),
    {
        all_aliases()
    }

    /// Every unit symbol of the registry.
    pub fn all_short_names() -> (r: Vec<String>)
        ensures
            r@.len() == spec_unit_count(),
    {
        all_symbols()
    }
}

/// Law: values convert between two units exactly when their dimension
/// vectors are equal; a conversion between differing dimensions never
/// yields a value.
pub proof fn lemma_convert_needs_equal_dimensions(v: Dec, from: CompoundUnit, to: CompoundUnit)
    ensures
        from.dimensions != to.dimensions ==> spec_convert(v, from, to) is None,
{
}

} // verus!
