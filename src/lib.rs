#![allow(non_snake_case)]

pub mod decimal;
pub mod rand_data;
pub mod record_text;
pub mod text;
pub mod worker;

pub use rand_data::{
    GetRandComb, GetRandInt, LettersFromDraws, GetRandString, GetRandVecInt, GetRandVecIntAsString,
    GrammarMismatchError,
};
pub use record_text::MalformedTextError;
pub use worker::{AttrValue, Field, GetUniqueId, MalformedAttributeError, WorkerInfo};
