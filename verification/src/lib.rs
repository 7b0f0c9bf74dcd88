//! Access-expression policies: a small boolean language over credential
//! tokens, with a parser, an evaluator and a canonical printer.
//!
//! A policy is text such as `admin | (ops & !guest)`. `parse_expression`
//! reads it into an `AccessExpression`, `parse_tokens` reads the tokens
//! that a requester presents into an `AccessTokens`, `evaluate` decides
//! whether the tokens satisfy the policy, and `render` gives the policy's
//! canonical text. The meaning of every one of them is a mathematical
//! function in `grammar`, `expression` or `tokens`; `laws` and the modules
//! beside it hold what is proved of those functions.

pub mod error;
pub mod expression;
pub mod grammar;
pub mod tokens;
pub mod text;
pub mod parser;
pub mod printer;
pub mod evaluator;
pub mod read_back;
pub mod soundness;
pub mod token_laws;
pub mod laws;
