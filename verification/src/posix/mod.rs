//! The numbers and layouts of the POSIX socket interface. Each name carries a `P`
//! in front, as in `PMSG` for the `MSG_*` flags.
pub mod family;
pub mod msg_flag;
pub mod option;
pub mod option_level;
pub mod posix;
pub mod types;

pub use msg_flag::MessageFlag as PMSG;
pub use option::Options as PSO;
pub use option_level::OptionLevel as PSOL;
pub use types::SOCK;
