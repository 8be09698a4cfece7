//! What the operations of the library do, told of their arguments and results: `call_ensures(f,
//! args, r)` says that `f`, called with `args`, returns `r`.

pub mod installing;
pub mod numbers;
pub mod output;
pub mod places;
pub mod releases;
pub mod sessions;
pub mod signatures;
pub mod texts;
