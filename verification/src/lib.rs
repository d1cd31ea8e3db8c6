pub mod action_invoker;
pub mod binding;
pub mod collection;
pub mod enum_dispatcher;
pub mod enum_extensions;
pub mod file;
pub mod getter;
pub mod patterns;

pub use action_invoker::{Action, Action0, CallbackLifeTime};
pub use binding::{BinderInner, ListenerMetaData};
pub use collection::{
    BitBuffer, DataSet, DataSetKey, DataSetSchema, FlagSet16, FlagSet32, FlagSet64, FlagSet8, Flags, FlagsBuffer,
    FxHasher, LazyGrowList, Queue,
    XyHashMap, XyKey,
};
pub use enum_dispatcher::{DeferredLinks, UniqueItemId};
pub use patterns::{LinearMachine, StepOutcome, TState, TTransit};
