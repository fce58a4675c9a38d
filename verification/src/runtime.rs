pub mod builtins;
pub mod callable;
pub mod class;
pub mod environment;
pub mod function;
pub mod instance;
pub mod interpreter;
pub mod resolver;
pub mod semantics;

pub use builtins::Clock;
pub use callable::{Callable, LoxCallable};
pub use class::LoxClass;
pub use environment::Environment;
pub use function::LoxFunction;
pub use instance::{InstanceHandle, LoxInstance};
pub use interpreter::Interpreter;
pub use resolver::{FunctionKind, Resolver, ResolverVariable};
