pub mod acl;
pub mod animation;
pub mod bind;
pub mod api;
pub mod ast;
pub mod collections;
pub mod color;
pub mod container;
pub mod dispatch;
pub mod enumeration;
pub mod expr;
pub mod float_order;
pub mod folder;
pub mod ids;
pub mod math;
pub mod module;
pub mod organization;
pub mod record;
pub mod text;
pub mod ty;
