use firmware_extractor::detect::{classify, has_mark, is_mark, FirmwareKind};

fn names(list: &[&str]) -> Vec<String> {
    list.iter().map(|name| name.to_string()).collect()
}

#[test]
fn a_only_is_told_by_system_new_dat() {
    assert_eq!(classify(&names(&["boot.img", "system.new.dat", "system.transfer.list"])), FirmwareKind::AOnly);
}

#[test]
fn ab_is_told_by_payload_bin() {
    assert_eq!(classify(&names(&["META-INF", "payload.bin", "payload_properties.txt"])), FirmwareKind::ABPayload);
}

#[test]
fn samsung_is_told_by_ap_tar_md5() {
    assert_eq!(classify(&names(&["BL_G973.tar.md5", "AP_G973FXXU3ASG7.tar.md5"])), FirmwareKind::SamsungTar);
}

#[test]
fn sparse_chunk_is_told_by_a_name_that_holds_the_word() {
    assert_eq!(classify(&names(&["flash.sh", "system.img_sparsechunk.0"])), FirmwareKind::SparseChunk);
}

#[test]
fn a_only_wins_over_payload() {
    assert_eq!(classify(&names(&["system.new.dat", "payload.bin"])), FirmwareKind::AOnly);
    assert_eq!(classify(&names(&["payload.bin", "system.new.dat"])), FirmwareKind::AOnly);
}

#[test]
fn earlier_kinds_win_over_later_ones() {
    assert_eq!(classify(&names(&["AP_x.tar.md5", "payload.bin"])), FirmwareKind::ABPayload);
    assert_eq!(classify(&names(&["a_sparsechunk.1", "AP_x.tar.md5"])), FirmwareKind::SamsungTar);
    assert_eq!(
        classify(&names(&["a_sparsechunk.1", "AP_x.tar.md5", "payload.bin", "system.new.dat"])),
        FirmwareKind::AOnly
    );
}

#[test]
fn unknown_layout_is_unsupported() {
    assert_eq!(classify(&names(&["boot.img", "readme.txt"])), FirmwareKind::Unsupported);
    assert_eq!(classify(&names(&[])), FirmwareKind::Unsupported);
}

#[test]
fn marks_are_exact() {
    assert!(is_mark(FirmwareKind::AOnly, "system.new.dat"));
    assert!(!is_mark(FirmwareKind::AOnly, "system.new.dat.br"));
    assert!(!is_mark(FirmwareKind::AOnly, "vendor.new.dat"));
    assert!(is_mark(FirmwareKind::ABPayload, "payload.bin"));
    assert!(!is_mark(FirmwareKind::ABPayload, "payload.bin.bak"));
    assert!(is_mark(FirmwareKind::SamsungTar, "AP_tar.md5"));
    assert!(is_mark(FirmwareKind::SamsungTar, "AP_N960F.tar.md5"));
    assert!(!is_mark(FirmwareKind::SamsungTar, "AP_N960F.tar"));
    assert!(!is_mark(FirmwareKind::SamsungTar, "BL_N960F.tar.md5"));
    assert!(!is_mark(FirmwareKind::SamsungTar, "AP_.md5"));
    assert!(is_mark(FirmwareKind::SparseChunk, "sparsechunk"));
    assert!(is_mark(FirmwareKind::SparseChunk, "system.img_sparsechunk.12"));
    assert!(!is_mark(FirmwareKind::SparseChunk, "sparse_chunk"));
    assert!(!is_mark(FirmwareKind::Unsupported, "system.new.dat"));
    assert!(!is_mark(FirmwareKind::Unsupported, ""));
}

#[test]
fn a_mark_anywhere_in_the_list_counts() {
    assert!(has_mark(FirmwareKind::ABPayload, &names(&["a", "b", "payload.bin"])));
    assert!(!has_mark(FirmwareKind::ABPayload, &names(&["a", "b"])));
    assert!(!has_mark(FirmwareKind::ABPayload, &names(&[])));
}
