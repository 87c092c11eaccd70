//! Core of a privileged local-development daemon: managed blocks of the
//! hosts file and of Apache's virtual-host configuration, Caddyfile
//! generation, certificate profiles, tunnel bookkeeping, and the JSON-RPC
//! method table, each with its contract proved by Verus.
pub mod caddy;
pub mod certs;
pub mod domain;
pub mod hosts;
pub mod httpd_conf;
pub mod managed;
pub mod paths;
pub mod protocol;
pub mod registry;
pub mod supervisor;
pub mod text;
pub mod tunnel;
pub mod vhost_scan;
pub mod vhosts;
pub mod xampp;
