//! What the declaration extractor is asked to do, and what its outcome
//! means.

use crate::error::PipelineError;
use crate::text::strings_view;
use vstd::prelude::*;

verus! {

/// The packed structures with members that cannot be copied. A derived
/// debug formatter would take references to their misaligned fields, so
/// they get none.
pub open spec fn unformattable_structures() -> Seq<Seq<char>> {
    seq![
        "ble_hci_cmd"@,
        "ble_hci_ev_command_complete"@,
        "ble_hci_ev_le_subev_big_complete"@,
        "ble_hci_ev_le_subev_big_sync_established"@,
        "ble_hci_ev_le_subev_create_big_complete"@,
        "ble_hci_ev_le_subev_cs_subevent_result"@,
        "ble_hci_ev_le_subev_cs_subevent_result_continue"@,
        "ble_hci_ev_le_subev_periodic_adv_rpt"@,
        "ble_hci_iso"@,
        "ble_hci_iso_data"@,
        "ble_hci_le_big_create_sync_cp"@,
        "ble_hci_le_cs_test_cp"@,
        "ble_hci_le_set_cig_params_cp"@,
        "ble_hci_le_set_cig_params_rp"@,
        "ble_hci_le_set_cig_params_test_cp"@,
        "ble_hci_le_set_cig_params_test_rp"@,
        "ble_hci_le_setup_iso_data_path_cp"@,
        "ext_adv_report"@,
    ]
}

/// Everything the declaration extractor is told.
pub struct ExtractorRequest {
    /// The aggregate header.
    pub header: String,
    /// The flags for the compiler front end.
    pub flags: Vec<String>,
    /// The declarations refer to `core`, not to `std`.
    pub use_core: bool,
    /// The module that the C types are taken from.
    pub ctypes_prefix: String,
    /// Whether C's size type is taken to be the native size type.
    pub size_t_is_usize: bool,
    /// Structures get a debug formatter.
    pub implement_debug: bool,
    /// Structures get a default value.
    pub derive_default: bool,
    /// The structures that get no debug formatter.
    pub without_debug: Vec<String>,
}

/// The request is the one that the pipeline makes for the header and flags:
/// the C size type stays a type of its own, every structure gets a default
/// value and, but for the unformattable ones, a debug formatter.
pub open spec fn is_request_for(
    request: ExtractorRequest,
    header: Seq<char>,
    flags: Seq<Seq<char>>,
) -> bool {
    &&& request.header@ == header
    &&& strings_view(request.flags@) == flags
    &&& request.use_core
    &&& request.ctypes_prefix@ == "libc"@
    &&& !request.size_t_is_usize
    &&& request.implement_debug
    &&& request.derive_default
    &&& strings_view(request.without_debug@) == unformattable_structures()
}

/// Makes the request for the header and the flags.
pub fn request_declarations(header: &str, flags: Vec<String>) -> (request: ExtractorRequest)
    ensures
        is_request_for(request, header@, strings_view(flags@)),
{
    let mut without_debug: Vec<String> = Vec::new();
    without_debug.push("ble_hci_cmd".to_owned());
    without_debug.push("ble_hci_ev_command_complete".to_owned());
    without_debug.push("ble_hci_ev_le_subev_big_complete".to_owned());
    without_debug.push("ble_hci_ev_le_subev_big_sync_established".to_owned());
    without_debug.push("ble_hci_ev_le_subev_create_big_complete".to_owned());
    without_debug.push("ble_hci_ev_le_subev_cs_subevent_result".to_owned());
    without_debug.push("ble_hci_ev_le_subev_cs_subevent_result_continue".to_owned());
    without_debug.push("ble_hci_ev_le_subev_periodic_adv_rpt".to_owned());
    without_debug.push("ble_hci_iso".to_owned());
    without_debug.push("ble_hci_iso_data".to_owned());
    without_debug.push("ble_hci_le_big_create_sync_cp".to_owned());
    without_debug.push("ble_hci_le_cs_test_cp".to_owned());
    without_debug.push("ble_hci_le_set_cig_params_cp".to_owned());
    without_debug.push("ble_hci_le_set_cig_params_rp".to_owned());
    without_debug.push("ble_hci_le_set_cig_params_test_cp".to_owned());
    without_debug.push("ble_hci_le_set_cig_params_test_rp".to_owned());
    without_debug.push("ble_hci_le_setup_iso_data_path_cp".to_owned());
    without_debug.push("ext_adv_report".to_owned());
    assert(strings_view(without_debug@) =~= unformattable_structures());
    ExtractorRequest {
        header: header.to_owned(),
        flags,
        use_core: true,
        ctypes_prefix: "libc".to_owned(),
        size_t_is_usize: false,
        implement_debug: true,
        derive_default: true,
        without_debug,
    }
}

/// What the extractor's answer means for the pipeline: its declarations,
/// or `GenerationFailed` with the extractor's reason.
pub fn judge_extractor(answer: Result<String, String>) -> (result: Result<String, PipelineError>)
    ensures
        match answer {
            Ok(declarations) => result == Ok::<String, PipelineError>(declarations),
            Err(reason) => result == Err::<String, PipelineError>(
                PipelineError::GenerationFailed(reason),
            ),
        },
{
    match answer {
        Ok(declarations) => Ok(declarations),
        Err(reason) => Err(PipelineError::GenerationFailed(reason)),
    }
}

} // verus!
