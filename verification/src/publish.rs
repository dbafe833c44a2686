//! Publishing in the home region: the checks before anything is sent, the
//! names an image gets, and the registration that is asked for.

use vstd::prelude::*;
use crate::size::{root_volume_gb, spec_root_volume_gb};
use crate::text::{opt_text, same_str};

verus! {

/// What the build handed over: a label, the system it was built for, the
/// size of the image in bytes and where the image file lies.
#[derive(Debug, Clone, PartialEq, Eq)]
pub struct ImageMetadata {
    pub label: String,
    pub system: String,
    pub logical_bytes: u64,
    pub file: String,
}

/// Why a run ended without a report.
#[derive(Debug, Clone, PartialEq, Eq)]
pub enum PublishError {
    /// The image was built for a system other than the one supported.
    UnsupportedSystem(String),
    /// The snapshot upload failed.
    UploadFailed(String),
    /// The provider gave the snapshot up; the text is its reason.
    SnapshotNotReady(String),
    /// The provider refused the registration.
    RegistrationFailed(String),
    /// The home image could not be tagged.
    TaggingFailed(String),
    /// An outcome arrived that the run was not waiting for.
    UnexpectedOutcome,
}

/// A `PublishError` over texts.
pub enum PublishErrorView {
    UnsupportedSystem(Seq<char>),
    UploadFailed(Seq<char>),
    SnapshotNotReady(Seq<char>),
    RegistrationFailed(Seq<char>),
    TaggingFailed(Seq<char>),
    UnexpectedOutcome,
}

impl View for PublishError {
    type V = PublishErrorView;

    open spec fn view(&self) -> PublishErrorView {
        match self {
            PublishError::UnsupportedSystem(s) => PublishErrorView::UnsupportedSystem(s@),
            PublishError::UploadFailed(m) => PublishErrorView::UploadFailed(m@),
            PublishError::SnapshotNotReady(m) => PublishErrorView::SnapshotNotReady(m@),
            PublishError::RegistrationFailed(m) => PublishErrorView::RegistrationFailed(m@),
            PublishError::TaggingFailed(m) => PublishErrorView::TaggingFailed(m@),
            PublishError::UnexpectedOutcome => PublishErrorView::UnexpectedOutcome,
        }
    }
}

/// The diagnostic that names the operation and carries the provider's text.
pub open spec fn spec_message(e: PublishErrorView) -> Seq<char> {
    match e {
        PublishErrorView::UnsupportedSystem(s) => "unsupported system '"@ + s
            + "'; only x86_64-linux is supported"@,
        PublishErrorView::UploadFailed(m) => "could not upload snapshot: "@ + m,
        PublishErrorView::SnapshotNotReady(m) => "snapshot did not become ready: "@ + m,
        PublishErrorView::RegistrationFailed(m) => "could not register image: "@ + m,
        PublishErrorView::TaggingFailed(m) => "could not tag image: "@ + m,
        PublishErrorView::UnexpectedOutcome => "outcome does not answer the pending request"@,
    }
}

impl PublishError {
    /// The diagnostic for an operator.
    pub fn message(&self) -> (text: String)
        ensures
            text@ == spec_message(self@),
    {
        match self {
            PublishError::UnsupportedSystem(s) => String::from_str("unsupported system '").concat(
                s.as_str(),
            ).concat("'; only x86_64-linux is supported"),
            PublishError::UploadFailed(m) => String::from_str("could not upload snapshot: ").concat(
                m.as_str(),
            ),
            PublishError::SnapshotNotReady(m) => String::from_str(
                "snapshot did not become ready: ",
            ).concat(m.as_str()),
            PublishError::RegistrationFailed(m) => String::from_str(
                "could not register image: ",
            ).concat(m.as_str()),
            PublishError::TaggingFailed(m) => String::from_str("could not tag image: ").concat(
                m.as_str(),
            ),
            PublishError::UnexpectedOutcome => String::from_str(
                "outcome does not answer the pending request",
            ),
        }
    }
}

/// The one system for which images are published.
pub open spec fn spec_supported_system() -> Seq<char> {
    "x86_64-linux"@
}

/// Accepts the supported system and nothing else.
pub fn check_system(system: &str) -> (r: Result<(), PublishError>)
    ensures
        r is Ok <==> system@ == spec_supported_system(),
        r matches Err(e) ==> e@ == PublishErrorView::UnsupportedSystem(system@),
{
    if same_str(system, "x86_64-linux") {
        Ok(())
    } else {
        Err(PublishError::UnsupportedSystem(String::from_str(system)))
    }
}

/// The name derived from label and system.
pub open spec fn spec_derived_name(label: Seq<char>, system: Seq<char>) -> Seq<char> {
    "NixOS-"@ + label + "-"@ + system
}

/// The description of the registered image.
pub open spec fn spec_description(label: Seq<char>, system: Seq<char>) -> Seq<char> {
    "NixOS "@ + label + " "@ + system
}

/// The display name: the caller's where one was given, else the derived one.
pub open spec fn spec_image_name(
    name_override: Option<Seq<char>>,
    label: Seq<char>,
    system: Seq<char>,
) -> Seq<char> {
    match name_override {
        Some(n) => n,
        None => spec_derived_name(label, system),
    }
}

/// The name derived from label and system.
pub fn derived_name(label: &str, system: &str) -> (name: String)
    ensures
        name@ == spec_derived_name(label@, system@),
{
    String::from_str("NixOS-").concat(label).concat("-").concat(system)
}

/// The description of the registered image.
pub fn description(label: &str, system: &str) -> (text: String)
    ensures
        text@ == spec_description(label@, system@),
{
    String::from_str("NixOS ").concat(label).concat(" ").concat(system)
}

/// The display name of the image, in the home region and in every copy.
pub fn image_name(name_override: &Option<String>, label: &str, system: &str) -> (name: String)
    ensures
        name@ == spec_image_name(opt_text(*name_override), label@, system@),
{
    match name_override {
        Some(n) => n.clone(),
        None => derived_name(label, system),
    }
}

/// A key and a value attached to an image.
#[derive(Debug, Clone, PartialEq, Eq)]
pub struct Tag {
    pub key: String,
    pub value: String,
}

impl Tag {
    /// Whether this is the tag that carries the derived name.
    pub open spec fn is_descriptive(&self, label: Seq<char>, system: Seq<char>) -> bool {
        &&& self.key@ == "NixOSName"@
        &&& self.value@ == spec_derived_name(label, system)
    }
}

/// The tag that carries the derived name, whatever the display name is.
pub fn descriptive_tag(label: &str, system: &str) -> (tag: Tag)
    ensures
        tag.is_descriptive(label@, system@),
{
    Tag { key: String::from_str("NixOSName"), value: derived_name(label, system) }
}

/// A volume backed by a snapshot.
#[derive(Debug, Clone, PartialEq, Eq)]
pub struct EbsVolume {
    pub snapshot_id: String,
    pub volume_size_gb: u64,
    pub volume_type: String,
    pub delete_on_termination: bool,
}

/// One slot of the block device layout.
#[derive(Debug, Clone, PartialEq, Eq)]
pub struct BlockDevice {
    pub device_name: String,
    pub virtual_name: Option<String>,
    pub ebs: Option<EbsVolume>,
}

impl BlockDevice {
    /// The root device: backed by `snapshot`, `gb` gigabytes of fast
    /// general-purpose storage, deleted with its instance.
    pub open spec fn is_root(&self, snapshot: Seq<char>, gb: nat) -> bool {
        &&& self.device_name@ == "/dev/xvda"@
        &&& self.virtual_name is None
        &&& self.ebs matches Some(v) && v.snapshot_id@ == snapshot && v.volume_size_gb as nat == gb
            && v.volume_type@ == "gp3"@ && v.delete_on_termination
    }

    /// An ephemeral-storage slot: `slot` attached as `device`.
    pub open spec fn is_ephemeral(&self, device: Seq<char>, slot: Seq<char>) -> bool {
        &&& self.device_name@ == device
        &&& self.virtual_name matches Some(v) && v@ == slot
        &&& self.ebs is None
    }
}

/// What is asked of the provider to register the image.
#[derive(Debug, Clone, PartialEq, Eq)]
pub struct Registration {
    pub name: String,
    pub architecture: String,
    pub ena_support: bool,
    pub virtualization_type: String,
    pub description: String,
    pub root_device_name: String,
    pub block_devices: Vec<BlockDevice>,
}

impl Registration {
    /// The fixed layout: one root device on `snapshot` of `gb` gigabytes and
    /// four ephemeral slots, for a 64-bit hardware-virtualised machine.
    pub open spec fn describes(
        &self,
        name: Seq<char>,
        label: Seq<char>,
        system: Seq<char>,
        snapshot: Seq<char>,
        gb: nat,
    ) -> bool {
        &&& self.name@ == name
        &&& self.architecture@ == "x86_64"@
        &&& self.ena_support
        &&& self.virtualization_type@ == "hvm"@
        &&& self.description@ == spec_description(label, system)
        &&& self.root_device_name@ == "/dev/xvda"@
        &&& self.block_devices@.len() == 5
        &&& self.block_devices@[0].is_root(snapshot, gb)
        &&& self.block_devices@[1].is_ephemeral("/dev/sdb"@, "ephemeral0"@)
        &&& self.block_devices@[2].is_ephemeral("/dev/sdc"@, "ephemeral1"@)
        &&& self.block_devices@[3].is_ephemeral("/dev/sdd"@, "ephemeral2"@)
        &&& self.block_devices@[4].is_ephemeral("/dev/sde"@, "ephemeral3"@)
    }
}

/// An ephemeral-storage slot.
pub fn ephemeral_device(device: &str, slot: &str) -> (d: BlockDevice)
    ensures
        d.is_ephemeral(device@, slot@),
{
    BlockDevice {
        device_name: String::from_str(device),
        virtual_name: Some(String::from_str(slot)),
        ebs: None,
    }
}

/// The registration of `image` on the snapshot `snapshot_id`.
pub fn registration(
    image: &ImageMetadata,
    name_override: &Option<String>,
    snapshot_id: &str,
    root_size_override: Option<u64>,
) -> (r: Registration)
    ensures
        r.describes(
            spec_image_name(opt_text(*name_override), image.label@, image.system@),
            image.label@,
            image.system@,
            snapshot_id@,
            spec_root_volume_gb(image.logical_bytes, root_size_override),
        ),
{
    let root = BlockDevice {
        device_name: String::from_str("/dev/xvda"),
        virtual_name: None,
        ebs: Some(
            EbsVolume {
                snapshot_id: String::from_str(snapshot_id),
                volume_size_gb: root_volume_gb(image.logical_bytes, root_size_override),
                volume_type: String::from_str("gp3"),
                delete_on_termination: true,
            },
        ),
    };
    let mut block_devices: Vec<BlockDevice> = Vec::new();
    block_devices.push(root);
    block_devices.push(ephemeral_device("/dev/sdb", "ephemeral0"));
    block_devices.push(ephemeral_device("/dev/sdc", "ephemeral1"));
    block_devices.push(ephemeral_device("/dev/sdd", "ephemeral2"));
    block_devices.push(ephemeral_device("/dev/sde", "ephemeral3"));
    Registration {
        name: image_name(name_override, image.label.as_str(), image.system.as_str()),
        architecture: String::from_str("x86_64"),
        ena_support: true,
        virtualization_type: String::from_str("hvm"),
        description: description(image.label.as_str(), image.system.as_str()),
        root_device_name: String::from_str("/dev/xvda"),
        block_devices,
    }
}

} // verus!
