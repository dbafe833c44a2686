use nixos_ami_upload::publish::{
    check_system, derived_name, description, descriptive_tag, ephemeral_device, image_name,
    registration, BlockDevice, EbsVolume, ImageMetadata, PublishError, Tag,
};

fn beta() -> ImageMetadata {
    ImageMetadata {
        label: "beta".to_string(),
        system: "x86_64-linux".to_string(),
        logical_bytes: 5368709121,
        file: "disk.raw".to_string(),
    }
}

#[test]
fn supported_system_is_accepted() {
    assert_eq!(check_system("x86_64-linux"), Ok(()));
}

#[test]
fn other_systems_are_refused() {
    assert_eq!(
        check_system("aarch64-linux"),
        Err(PublishError::UnsupportedSystem("aarch64-linux".to_string()))
    );
    assert_eq!(check_system(""), Err(PublishError::UnsupportedSystem(String::new())));
    assert_eq!(
        check_system("X86_64-linux"),
        Err(PublishError::UnsupportedSystem("X86_64-linux".to_string()))
    );
}

#[test]
fn names_are_made_of_label_and_system() {
    assert_eq!(derived_name("beta", "x86_64-linux"), "NixOS-beta-x86_64-linux");
    assert_eq!(description("beta", "x86_64-linux"), "NixOS beta x86_64-linux");
    assert_eq!(derived_name("", ""), "NixOS--");
}

#[test]
fn display_name_prefers_the_override() {
    assert_eq!(image_name(&Some("mine".to_string()), "beta", "x86_64-linux"), "mine");
    assert_eq!(image_name(&None, "beta", "x86_64-linux"), "NixOS-beta-x86_64-linux");
}

#[test]
fn descriptive_tag_carries_the_derived_name() {
    assert_eq!(
        descriptive_tag("beta", "x86_64-linux"),
        Tag { key: "NixOSName".to_string(), value: "NixOS-beta-x86_64-linux".to_string() }
    );
}

#[test]
fn ephemeral_slot_has_no_volume() {
    assert_eq!(
        ephemeral_device("/dev/sdb", "ephemeral0"),
        BlockDevice {
            device_name: "/dev/sdb".to_string(),
            virtual_name: Some("ephemeral0".to_string()),
            ebs: None,
        }
    );
}

#[test]
fn registration_has_the_fixed_layout() {
    let r = registration(&beta(), &None, "snap-123", None);
    assert_eq!(r.name, "NixOS-beta-x86_64-linux");
    assert_eq!(r.architecture, "x86_64");
    assert!(r.ena_support);
    assert_eq!(r.virtualization_type, "hvm");
    assert_eq!(r.description, "NixOS beta x86_64-linux");
    assert_eq!(r.root_device_name, "/dev/xvda");
    assert_eq!(r.block_devices.len(), 5);
    assert_eq!(
        r.block_devices[0],
        BlockDevice {
            device_name: "/dev/xvda".to_string(),
            virtual_name: None,
            ebs: Some(EbsVolume {
                snapshot_id: "snap-123".to_string(),
                volume_size_gb: 6,
                volume_type: "gp3".to_string(),
                delete_on_termination: true,
            }),
        }
    );
    assert_eq!(r.block_devices[1], ephemeral_device("/dev/sdb", "ephemeral0"));
    assert_eq!(r.block_devices[2], ephemeral_device("/dev/sdc", "ephemeral1"));
    assert_eq!(r.block_devices[3], ephemeral_device("/dev/sdd", "ephemeral2"));
    assert_eq!(r.block_devices[4], ephemeral_device("/dev/sde", "ephemeral3"));
}

#[test]
fn registration_takes_overrides() {
    let r = registration(&beta(), &Some("custom".to_string()), "snap-9", Some(100));
    assert_eq!(r.name, "custom");
    assert_eq!(r.description, "NixOS beta x86_64-linux");
    assert_eq!(r.block_devices[0].ebs.as_ref().unwrap().volume_size_gb, 100);
}

#[test]
fn publish_error_messages() {
    assert_eq!(
        PublishError::UnsupportedSystem("aarch64-linux".to_string()).message(),
        "unsupported system 'aarch64-linux'; only x86_64-linux is supported"
    );
    assert_eq!(
        PublishError::UploadFailed("denied".to_string()).message(),
        "could not upload snapshot: denied"
    );
    assert_eq!(
        PublishError::SnapshotNotReady("error".to_string()).message(),
        "snapshot did not become ready: error"
    );
    assert_eq!(
        PublishError::RegistrationFailed("quota".to_string()).message(),
        "could not register image: quota"
    );
    assert_eq!(
        PublishError::TaggingFailed("denied".to_string()).message(),
        "could not tag image: denied"
    );
    assert_eq!(
        PublishError::UnexpectedOutcome.message(),
        "outcome does not answer the pending request"
    );
}
