pub mod text;
pub mod surface_runtime;
pub mod launch_args;
pub mod launch_env;
pub mod tmux_panes;
pub mod launch;
pub mod sparkshell;
