//! A binary classifier: logistic regression trained by batch gradient
//! descent, with every scalar carried as the bit pattern of an IEEE-754
//! double-precision number. The arithmetic itself is delegated to the
//! platform's double type behind trusted wrappers; everything around it
//! (parameter layout, the training sweep, prediction, input validation)
//! is verified.

pub mod api;
pub mod scalar;
pub mod model;
pub mod persist;
