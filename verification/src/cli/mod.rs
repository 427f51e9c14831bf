//! What the command line decides without doing I/O: the exit codes and
//! which exit code each failure of a command maps to.
pub mod exit_code;
pub mod outcome;
