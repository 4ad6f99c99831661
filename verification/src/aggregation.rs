pub use crate::dealer;
pub use crate::errors::MPCError;
pub use crate::messages;
pub use crate::party;
