use vstd::prelude::*;

verus! {

/// `std::sync::Mutex`, declared so that the shared state can hold one.
#[verifier::external_type_specification]
#[verifier::external_body]
#[verifier::reject_recursive_types(T)]
pub struct ExMutex<T: ?Sized>(std::sync::Mutex<T>);

/// The state the service shares between requests and scheduled tasks.
pub struct AppState {
    pub health_check_response: std::sync::Mutex<String>,
    pub mongo_uri: String,
    pub aas_identifier: String,
    pub aas_id_short: String,
    pub aasx_server: String,
    pub device_name: String,
    pub offboarding_time: i64,
}

} // verus!
