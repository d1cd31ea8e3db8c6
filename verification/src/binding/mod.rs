mod binder;
pub use binder::{BinderInner, ListenerMetaData};
