//! A point-of-sale catalogue and sale system.
pub mod catalogo;
pub mod codigos;
pub mod numero;
pub mod principal;
pub mod sistema;
pub mod texto;
