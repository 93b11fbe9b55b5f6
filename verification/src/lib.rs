//! numr: a natural-language expression interpreter.
//!
//! Lines such as `20% of 150`, `45h * 85 usd` or `5 km in miles` are parsed
//! tolerantly and evaluated against a typed value model that covers plain
//! numbers, percentages, currency amounts and physical units (including
//! compound units such as speed or area).  A session threads variables and a
//! "previous result" continuation across a sequence of evaluated lines.

pub mod buffer;
pub mod currency;
pub mod decimal;
pub mod dimensions;
pub mod engine;
pub mod eval;
pub mod highlight;
pub mod parser;
pub mod rates;
pub mod text;
pub mod unit;
pub mod value;

pub use buffer::TextBuffer;
pub use currency::{Currency, CurrencyDef};
pub use decimal::Dec;
pub use decimal::decimal;
pub use dimensions::Dimensions;
pub use unit::{CompoundUnit, RuntimeUnitDef, Unit, UnitType};
pub use engine::{Engine, LineResult};
pub use eval::EvalContext;
pub use highlight::{Token, TokenType, tokenize};
pub use parser::{Ast, BinaryOp, Expr};
pub use parser::{parse_line, try_parse_exact};
pub use rates::RateGraph;
pub use value::Value;
