pub mod ty;
pub mod ty_ctx;
pub mod ty_interners;
pub mod infer;
