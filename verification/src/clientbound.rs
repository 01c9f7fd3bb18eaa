//! The clientbound packet variants and the JSON status body they carry.
pub mod json_response;
pub mod login_success;
pub mod ping_response;
pub mod status_response;
