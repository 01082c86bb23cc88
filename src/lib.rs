//! Connection set-up for ssh based remote file systems (SFTP and SCP).
//!
//! The crate resolves a connection profile from the caller's options and the
//! ssh configuration file, decides the order of the algorithm preferences,
//! drives the connect and authentication sequence as a state machine, and
//! reads exit statuses out of remote command output.

pub mod command;
pub mod config;
pub mod connector;
pub mod errors;
pub mod options;
pub mod path;
pub mod text;
pub mod time;
pub mod transport;

pub use command::{command_at, exit_code_command, parse_exit_code};
pub use config::{Config, HostParameters};
pub use connector::{ConnectAction, ConnectEvent, Connector, Stage};
pub use options::{KeyMethod, MethodType, SshAgentIdentity, SshKeyStorage, SshOpts};
pub use path::{absolutize, resolve};
pub use ssh2_config::ParseRule as SshConfigParseRule;
pub use time::{fmt_time_utc, parse_lstime};
pub use transport::algo_prefs;
