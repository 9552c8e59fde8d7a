//! Capability markers: what the build tells the crates that build on this
//! one about the target system, so that they need not go by version numbers.

use crate::text::{chars_of, contains, occurs, strings_view};
use vstd::prelude::*;

verus! {

/// How a marker is decided.
pub enum Detection {
    /// Every supported version of the target system has the capability.
    Always,
    /// The capability never came to be; the name stays reserved.
    Never,
    /// The capability is there when the generated declarations hold this text.
    PresenceInText(String),
}

/// The mathematical content of a `Detection`.
pub enum DetectionModel {
    Always,
    Never,
    PresenceInText(Seq<char>),
}

impl View for Detection {
    type V = DetectionModel;

    open spec fn view(&self) -> DetectionModel {
        match *self {
            Detection::Always => DetectionModel::Always,
            Detection::Never => DetectionModel::Never,
            Detection::PresenceInText(needle) => DetectionModel::PresenceInText(needle@),
        }
    }
}

/// A capability and the way to find out whether the target system has it.
pub struct CapabilityMarker {
    pub name: String,
    pub detection: Detection,
}

/// The mathematical content of a `CapabilityMarker`.
pub struct MarkerModel {
    pub name: Seq<char>,
    pub detection: DetectionModel,
}

impl View for CapabilityMarker {
    type V = MarkerModel;

    open spec fn view(&self) -> MarkerModel {
        MarkerModel { name: self.name@, detection: self.detection@ }
    }
}

/// The contents of a table of markers.
pub open spec fn markers_view(table: Seq<CapabilityMarker>) -> Seq<MarkerModel> {
    table.map_values(|m: CapabilityMarker| m@)
}

/// Whether the rule finds the capability in the generated declarations.
pub open spec fn detected(detection: DetectionModel, declarations: Seq<char>) -> bool {
    match detection {
        DetectionModel::Always => true,
        DetectionModel::Never => false,
        DetectionModel::PresenceInText(needle) => occurs(declarations, needle),
    }
}

/// The names of the markers whose capability is found, in table order.
pub open spec fn published(table: Seq<MarkerModel>, declarations: Seq<char>) -> Seq<Seq<char>>
    decreases table.len(),
{
    if table.len() == 0 {
        Seq::empty()
    } else {
        let before = published(table.drop_last(), declarations);
        if detected(table.last().detection, declarations) {
            before.push(table.last().name)
        } else {
            before
        }
    }
}

/// The markers that the target system is known to need.
pub open spec fn known_markers() -> Seq<MarkerModel> {
    seq![
        MarkerModel { name: "phydat_unit_t"@, detection: DetectionModel::Always },
        MarkerModel { name: "vfs_iterate_mount_dirs"@, detection: DetectionModel::Always },
        MarkerModel { name: "ztimer_periodic_callback_t"@, detection: DetectionModel::Always },
        MarkerModel { name: "coap_build_pkt_t"@, detection: DetectionModel::Never },
        MarkerModel { name: "gcoap_resource_t"@, detection: DetectionModel::Never },
        MarkerModel {
            name: "coap_request_ctx_t"@,
            detection: DetectionModel::PresenceInText("coap_request_ctx_t"@),
        },
    ]
}

/// The line that publishes a marker on the build tool's metadata channel.
pub open spec fn marker_line(name: Seq<char>) -> Seq<char> {
    "cargo:MARKER_"@ + name + "=1"@
}

impl CapabilityMarker {
    /// A marker with the given name and rule.
    pub fn new(name: &str, detection: Detection) -> (marker: CapabilityMarker)
        ensures
            marker@ == (MarkerModel { name: name@, detection: detection@ }),
    {
        CapabilityMarker { name: name.to_owned(), detection }
    }

    /// The table of the markers that the target system is known to need.
    pub fn known() -> (table: Vec<CapabilityMarker>)
        ensures
            markers_view(table@) == known_markers(),
    {
        let mut table: Vec<CapabilityMarker> = Vec::new();
        table.push(CapabilityMarker::new("phydat_unit_t", Detection::Always));
        table.push(CapabilityMarker::new("vfs_iterate_mount_dirs", Detection::Always));
        table.push(CapabilityMarker::new("ztimer_periodic_callback_t", Detection::Always));
        table.push(CapabilityMarker::new("coap_build_pkt_t", Detection::Never));
        table.push(CapabilityMarker::new("gcoap_resource_t", Detection::Never));
        table.push(
            CapabilityMarker::new(
                "coap_request_ctx_t",
                Detection::PresenceInText("coap_request_ctx_t".to_owned()),
            ),
        );
        assert(markers_view(table@) =~= known_markers());
        table
    }

    /// Whether the generated declarations show the capability.
    pub fn evaluate(&self, declarations: &[char]) -> (found: bool)
        ensures
            found == detected(self@.detection, declarations@),
    {
        match &self.detection {
            Detection::Always => true,
            Detection::Never => false,
            Detection::PresenceInText(needle) => {
                let needle = chars_of(needle.as_str());
                contains(declarations, needle.as_slice())
            },
        }
    }

    /// The line that publishes this marker.
    pub fn line(&self) -> (text: String)
        ensures
            text@ == marker_line(self@.name),
    {
        render_marker_line(self.name.as_str())
    }
}

/// Writes the line that publishes the marker of the given name.
pub fn render_marker_line(name: &str) -> (text: String)
    ensures
        text@ == marker_line(name@),
{
    let mut text = "cargo:MARKER_".to_owned();
    text.append(name);
    text.append("=1");
    text
}

/// Evaluates every marker of the table against the generated declarations
/// and gives the names of those that are found.
pub fn publish_markers(table: &Vec<CapabilityMarker>, declarations: &str) -> (names: Vec<String>)
    ensures
        strings_view(names@) == published(markers_view(table@), declarations@),
{
    let ghost all = markers_view(table@);
    let text = chars_of(declarations);
    let mut names: Vec<String> = Vec::new();
    let mut i: usize = 0;
    while i < table.len()
        invariant
            i <= table.len(),
            all == markers_view(table@),
            text@ == declarations@,
            strings_view(names@) == published(all.take(i as int), declarations@),
        decreases table.len() - i,
    {
        let ghost before = strings_view(names@);
        assert(all.take(i + 1).drop_last() =~= all.take(i as int));
        assert(all.take(i + 1).last() == table[i as int]@);
        if table[i].evaluate(text.as_slice()) {
            names.push(table[i].name.clone());
            assert(strings_view(names@) =~= before.push(table[i as int].name@));
        }
        i += 1;
    }
    assert(all.take(table.len() as int) =~= all);
    names
}

} // verus!
