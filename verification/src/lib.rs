pub mod machine;
pub mod semantics;
pub mod stack;
pub mod token;

pub use machine::BrainfuckMachine;
pub use machine::RunResult;
pub use semantics::BrainfuckFault;
pub use stack::BrainfuckCallStack;
pub use token::BrainfuckToken;
