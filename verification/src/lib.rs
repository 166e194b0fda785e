//! Documentation extraction for hardware-description sources.
//!
//! A parsed source file is presented as a tree of [`SyntaxNode`]s. From it a
//! tree of [`Scope`]s is built: one per declaration, with the comment lines
//! stacked above it and the scopes of the declarations beneath it.
//! [`Context`] classifies those scopes into documentation items, and [`Doc`]
//! holds the result for a whole file.

pub mod whitespace;
pub mod normalize;
pub mod syntax;
pub mod scopes;
pub mod model;
pub mod laws;
pub mod html;
pub mod pages;
pub mod position;
pub mod report;

pub use html::Renderer;
pub use model::{Context, Doc, ModuleItem, ParamItem, PortItem, TypeItem, VarItem};
pub use normalize::parse_docs;
pub use pages::Page;
pub use position::Position;
pub use scopes::Scope;
pub use syntax::{Declaration, SyntaxNode};
