//! Renders qualified paths (`A::B<T>::C`, `<T as Trait>::Item`) as a
//! sequence of tokens that a parser accepts back as the same structure.

pub mod ast;
pub mod order;
pub mod path;
pub mod printer;
pub mod render;
