//! Request-response HTTP detection modules.
pub mod ds_store_disclosure;
pub mod git_config_disclosure;
pub mod traefik_dashboard_unauthenticated_access;
